use vstd::prelude::*;
use crate::models::{winner_text, ReplayInfo, Winner};
use crate::text::{chars_to_string, push_chars, str_chars};

verus! {

/// Most characters of a file name shown on the summary.
pub const DISPLAY_NAME_CHARS: usize = 30;

/// `c` with ASCII upper-case letters made lower case.
pub open spec fn ascii_lower(c: char) -> char {
    if 'A' <= c && c <= 'Z' {
        ((c as u8) + 32) as char
    } else {
        c
    }
}

/// True when `a` and `b` are equal up to ASCII case.
pub open spec fn eq_ignore_ascii_case(a: Seq<char>, b: Seq<char>) -> bool {
    a.len() == b.len() && forall|i: int| 0 <= i < a.len() ==> ascii_lower(#[trigger] a[i]) == ascii_lower(b[i])
}

/// The index of the last `.` of `s` at or before index `i - 1`.
pub open spec fn last_dot_before(s: Seq<char>, i: int) -> Option<int>
    decreases i,
{
    if i <= 0 || i > s.len() {
        None
    } else if s[i - 1] == '.' {
        Some(i - 1)
    } else {
        last_dot_before(s, i - 1)
    }
}

/// The replay extension without its dot: "bfme2replay".
pub open spec fn replay_ext_word() -> Seq<char> {
    seq!['b', 'f', 'm', 'e', '2', 'r', 'e', 'p', 'l', 'a', 'y']
}

/// A file name as shown: without a replay extension (in any case), cut to
/// 30 characters.
pub open spec fn display_name_of(f: Seq<char>) -> Seq<char> {
    let stem = match last_dot_before(f, f.len() as int) {
        Some(i) => if eq_ignore_ascii_case(f.subrange(i + 1, f.len() as int), replay_ext_word()) {
            f.subrange(0, i)
        } else {
            f
        },
        None => f,
    };
    if stem.len() > DISPLAY_NAME_CHARS {
        stem.take(DISPLAY_NAME_CHARS as int)
    } else {
        stem
    }
}

fn lower_ascii(c: char) -> (r: char)
    ensures
        r == ascii_lower(c),
{
    if 'A' <= c && c <= 'Z' {
        ((c as u8) + 32) as char
    } else {
        c
    }
}

/// The file name shown on the summary.
pub fn display_file_name(filename: &str) -> (r: String)
    ensures
        r@ == display_name_of(filename@),
{
    let f = str_chars(filename);
    let flen = f.len();
    let mut i = flen;
    while i > 0 && f[i - 1] != '.'
        invariant
            i <= f@.len(),
            flen == f@.len(),
            last_dot_before(f@, f@.len() as int) == last_dot_before(f@, i as int),
        decreases i,
    {
        i = i - 1;
    }
    let word = ['b', 'f', 'm', 'e', '2', 'r', 'e', 'p', 'l', 'a', 'y'];
    assert(word@ =~= replay_ext_word());
    let mut end = flen;
    if i > 0 {
        let dot = i - 1;
        assert(last_dot_before(f@, i as int) == Some(dot as int));
        let ghost ext = f@.subrange(dot + 1, flen as int);
        if flen - (dot + 1) == 11 {
            let mut k: usize = 0;
            let mut same = true;
            while k < 11
                invariant
                    k <= 11,
                    dot + 12 == flen,
                    flen == f@.len(),
                    ext == f@.subrange(dot + 1, flen as int),
                    word@ == replay_ext_word(),
                    same == (forall|j: int| 0 <= j < k ==> ascii_lower(ext[j]) == ascii_lower(word@[j])),
                decreases 11 - k,
            {
                assert(ext[k as int] == f@[dot + 1 + k]);
                if lower_ascii(f[dot + 1 + k]) != lower_ascii(word[k]) {
                    same = false;
                }
                k = k + 1;
            }
            if same {
                end = dot;
            }
            assert(same == eq_ignore_ascii_case(ext, replay_ext_word()));
        } else {
            assert(!eq_ignore_ascii_case(ext, replay_ext_word()));
        }
    }
    let take = if end > DISPLAY_NAME_CHARS {
        DISPLAY_NAME_CHARS
    } else {
        end
    };
    let mut out: Vec<char> = Vec::new();
    let mut k: usize = 0;
    while k < take
        invariant
            k <= take <= f@.len(),
            out@ == f@.take(k as int),
        decreases take - k,
    {
        out.push(f[k]);
        k = k + 1;
        assert(out@ =~= f@.take(k as int));
    }
    assert(out@ =~= display_name_of(filename@));
    chars_to_string(out.as_slice())
}

/// How the outcome line of the summary is drawn.
#[derive(Debug, Clone, Copy, PartialEq, Eq, Structural)]
pub enum OutcomeTone {
    /// The match did not conclude.
    Crashed,
    /// A heuristic result.
    Likely,
    /// A certain result.
    Certain,
}

/// The outcome line of the summary: none for an unknown outcome.
pub open spec fn outcome_line_of(crashed: bool, w: Winner) -> Option<(Seq<char>, OutcomeTone)> {
    if crashed {
        Some(("Winner: "@ + winner_text(Winner::NotConcluded), OutcomeTone::Crashed))
    } else if w == Winner::LikelyLeftTeam || w == Winner::LikelyRightTeam {
        Some(("Winner: "@ + winner_text(w), OutcomeTone::Likely))
    } else if w != Winner::Unknown {
        Some(("Winner: "@ + winner_text(w), OutcomeTone::Certain))
    } else {
        None
    }
}

/// The outcome line of a decoded match, with the way it is drawn.
pub fn outcome_line(info: &ReplayInfo) -> (r: Option<(String, OutcomeTone)>)
    ensures
        match (r, outcome_line_of(info.game_crashed, info.winner)) {
            (Some((s, t)), Some((es, et))) => s@ == es && t == et,
            (None, None) => true,
            _ => false,
        },
{
    let (w, tone) = if info.game_crashed {
        (Winner::NotConcluded, OutcomeTone::Crashed)
    } else if info.winner == Winner::LikelyLeftTeam || info.winner == Winner::LikelyRightTeam {
        (info.winner, OutcomeTone::Likely)
    } else if info.winner != Winner::Unknown {
        (info.winner, OutcomeTone::Certain)
    } else {
        return None;
    };
    let mut out = str_chars("Winner: ");
    let text = str_chars(w.display_text());
    push_chars(&mut out, text.as_slice());
    Some((chars_to_string(out.as_slice()), tone))
}

} // verus!
