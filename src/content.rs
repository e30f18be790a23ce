use vstd::prelude::*;
use crate::text::{chars_to_string, dec, push_chars, push_dec, str_chars};

verus! {

/// Most characters a message may hold (room left for the truncation note).
pub const CONTENT_SAFE_LIMIT: usize = 1900;

/// The note that `n` further parts were left out: "\n(+n more...)".
pub open spec fn more_note(n: nat) -> Seq<char> {
    seq!['\n', '(', '+'] + dec(n) + seq![' ', 'm', 'o', 'r', 'e', '.', '.', '.', ')']
}

/// Joins `parts[i..]` onto `acc`, one line each (no line break before the
/// first non-empty text), stopping before the part that would overflow the
/// limit: a first part alone is cut to the limit, a later one is replaced by
/// the note of how many parts were left out, if the note fits.
pub open spec fn safe_content_from(parts: Seq<Seq<char>>, i: int, acc: Seq<char>) -> Seq<char>
    decreases parts.len() - i,
{
    if i < 0 || i >= parts.len() {
        acc
    } else {
        let sep: Seq<char> = if acc.len() == 0 {
            Seq::empty()
        } else {
            seq!['\n']
        };
        if acc.len() + sep.len() + parts[i].len() > CONTENT_SAFE_LIMIT {
            if i == 0 {
                parts[0].take(CONTENT_SAFE_LIMIT as int)
            } else {
                let note = more_note((parts.len() - i) as nat);
                if acc.len() + note.len() <= CONTENT_SAFE_LIMIT {
                    acc + note
                } else {
                    acc
                }
            }
        } else {
            safe_content_from(parts, i + 1, acc + sep + parts[i])
        }
    }
}

/// The message text for these parts.
pub open spec fn safe_content(parts: Seq<Seq<char>>) -> Seq<char> {
    safe_content_from(parts, 0, Seq::empty())
}

/// Builds message text from parts, one per line, truncated to stay under
/// the limit.
pub fn build_safe_content(parts: &[String]) -> (r: String)
    ensures
        r@ == safe_content(parts@.map_values(|s: String| s@)),
{
    let ghost ps = parts@.map_values(|s: String| s@);
    let mut result: Vec<char> = Vec::new();
    let mut i: usize = 0;
    while i < parts.len()
        invariant
            i <= parts@.len(),
            ps == parts@.map_values(|s: String| s@),
            result@.len() <= CONTENT_SAFE_LIMIT,
            i == 0 ==> result@.len() == 0,
            safe_content(ps) == safe_content_from(ps, i as int, result@),
        decreases parts@.len() - i,
    {
        let part = str_chars(parts[i].as_str());
        assert(part@ == ps[i as int]);
        let newline_cost: usize = if result.len() == 0 {
            0
        } else {
            1
        };
        let room = CONTENT_SAFE_LIMIT - result.len();
        if newline_cost > room || part.len() > room - newline_cost {
            if i == 0 {
                assert(result@.len() == 0);
                let mut cut: Vec<char> = Vec::new();
                let mut k: usize = 0;
                while k < CONTENT_SAFE_LIMIT
                    invariant
                        k <= CONTENT_SAFE_LIMIT,
                        k <= part@.len(),
                        CONTENT_SAFE_LIMIT < part@.len(),
                        cut@ == part@.take(k as int),
                    decreases CONTENT_SAFE_LIMIT - k,
                {
                    cut.push(part[k]);
                    k = k + 1;
                    assert(cut@ =~= part@.take(k as int));
                }
                return chars_to_string(cut.as_slice());
            }
            let mut note: Vec<char> = Vec::new();
            push_chars(&mut note, &['\n', '(', '+']);
            push_dec(&mut note, (parts.len() - i) as u64);
            push_chars(&mut note, &[' ', 'm', 'o', 'r', 'e', '.', '.', '.', ')']);
            assert(note@ =~= more_note((ps.len() - i) as nat));
            if note.len() <= CONTENT_SAFE_LIMIT - result.len() {
                push_chars(&mut result, note.as_slice());
            }
            return chars_to_string(result.as_slice());
        }
        let ghost before = result@;
        if result.len() > 0 {
            result.push('\n');
        }
        push_chars(&mut result, part.as_slice());
        assert(result@ =~= before + (if before.len() == 0 {
            Seq::<char>::empty()
        } else {
            seq!['\n']
        }) + ps[i as int]);
        i = i + 1;
    }
    chars_to_string(result.as_slice())
}

} // verus!
