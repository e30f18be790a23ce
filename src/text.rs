use vstd::prelude::*;
use vstd::utf8::*;

verus! {

// ---------------------------------------------------------------------------
// Bytes
// ---------------------------------------------------------------------------

/// The unsigned 32-bit little-endian integer stored at `d[i..i + 4]`.
pub open spec fn le_u32(d: Seq<u8>, i: int) -> int {
    d[i] as int + d[i + 1] as int * 256 + d[i + 2] as int * 65536 + d[i + 3] as int * 16777216
}

/// Reads an unsigned 32-bit little-endian integer at offset `i`.
pub fn read_le_u32(d: &[u8], i: usize) -> (r: u32)
    requires
        i + 4 <= d@.len(),
    ensures
        r as int == le_u32(d@, i as int),
{
    let b0 = d[i] as u32;
    let b1 = d[i + 1] as u32;
    let b2 = d[i + 2] as u32;
    let b3 = d[i + 3] as u32;
    assert(b0 + b1 * 256 + b2 * 65536 + b3 * 16777216 <= 0xffff_ffff) by (nonlinear_arith)
        requires
            b0 <= 255,
            b1 <= 255,
            b2 <= 255,
            b3 <= 255,
    ;
    b0 + b1 * 256 + b2 * 65536 + b3 * 16777216
}

// ---------------------------------------------------------------------------
// Characters
// ---------------------------------------------------------------------------

/// The characters with the Unicode `White_Space` property.
pub open spec fn is_white_space(c: char) -> bool {
    ('\u{9}' <= c && c <= '\u{d}') || c == ' ' || c == '\u{85}' || c == '\u{a0}'
        || c == '\u{1680}' || ('\u{2000}' <= c && c <= '\u{200a}') || c == '\u{2028}'
        || c == '\u{2029}' || c == '\u{202f}' || c == '\u{205f}' || c == '\u{3000}'
}

/// `s` without its leading white space.
pub open spec fn trim_start_chars(s: Seq<char>) -> Seq<char>
    decreases s.len(),
{
    if s.len() > 0 && is_white_space(s[0]) {
        trim_start_chars(s.drop_first())
    } else {
        s
    }
}

/// `s` without its trailing white space.
pub open spec fn trim_end_chars(s: Seq<char>) -> Seq<char>
    decreases s.len(),
{
    if s.len() > 0 && is_white_space(s.last()) {
        trim_end_chars(s.drop_last())
    } else {
        s
    }
}

/// `s` without leading and trailing white space.
pub open spec fn trim_chars(s: Seq<char>) -> Seq<char> {
    trim_end_chars(trim_start_chars(s))
}

/// The pieces of `s` between occurrences of `sep`; never empty.
pub open spec fn split_chars(s: Seq<char>, sep: char) -> Seq<Seq<char>>
    decreases s.len(),
{
    if s.len() == 0 {
        seq![Seq::<char>::empty()]
    } else {
        let rest = split_chars(s.drop_last(), sep);
        if s.last() == sep {
            rest.push(Seq::<char>::empty())
        } else {
            rest.update(rest.len() - 1, rest.last().push(s.last()))
        }
    }
}

/// True when every character of `s` is an ASCII decimal digit.
pub open spec fn all_digits(s: Seq<char>) -> bool {
    forall|i: int| 0 <= i < s.len() ==> '0' <= #[trigger] s[i] && s[i] <= '9'
}

/// The value of a string of decimal digits.
pub open spec fn digits_value(s: Seq<char>) -> int
    decreases s.len(),
{
    if s.len() == 0 {
        0
    } else {
        digits_value(s.drop_last()) * 10 + (s.last() as int - '0' as int)
    }
}

/// The value of an optionally signed decimal `i8` literal, if `s` is one.
pub open spec fn i8_of(s: Seq<char>) -> Option<i8> {
    let neg = s.len() > 0 && s[0] == '-';
    let signed = s.len() > 0 && (s[0] == '-' || s[0] == '+');
    let body = if signed {
        s.drop_first()
    } else {
        s
    };
    let v = if neg {
        -digits_value(body)
    } else {
        digits_value(body)
    };
    if body.len() > 0 && all_digits(body) && -128 <= v <= 127 {
        Some(v as i8)
    } else {
        None
    }
}

/// What `str::to_lowercase` makes of a string.
pub uninterp spec fn lower_of(s: Seq<char>) -> Seq<char>;

/// Relies on `std::str::from_utf8`: it succeeds exactly on valid UTF-8 and
/// the string it returns holds the same bytes.
#[verifier::external_body]
pub(crate) fn utf8_str(b: &[u8]) -> (r: Option<&str>)
    ensures
        r.is_some() == valid_utf8(b@),
        r matches Some(s) ==> s@ == decode_utf8(b@),
{
    std::str::from_utf8(b).ok()
}

/// Relies on `str::chars`: the characters of `s`, in order.
#[verifier::external_body]
pub(crate) fn str_chars(s: &str) -> (r: Vec<char>)
    ensures
        r@ == s@,
{
    s.chars().collect()
}

/// Relies on `String`'s `FromIterator<&char>`: a string of these characters.
#[verifier::external_body]
pub(crate) fn chars_to_string(c: &[char]) -> (r: String)
    ensures
        r@ == c@,
{
    c.iter().collect()
}

/// Relies on `str::trim`: leading and trailing `White_Space` removed.
#[verifier::external_body]
pub(crate) fn trim_str(s: &str) -> (r: &str)
    ensures
        r@ == trim_chars(s@),
{
    s.trim()
}

/// Relies on `str::split` with a `char` pattern: the pieces between the
/// separators, in order, empty pieces included.
#[verifier::external_body]
pub(crate) fn split_str(s: &str, sep: char) -> (r: Vec<&str>)
    ensures
        r@.len() == split_chars(s@, sep).len(),
        forall|i: int| 0 <= i < r@.len() ==> (#[trigger] r@[i])@ == split_chars(s@, sep)[i],
{
    s.split(sep).collect()
}

/// Relies on `<i8 as FromStr>::from_str`: an optional sign, then one or more
/// ASCII digits, with the value in range.
#[verifier::external_body]
pub(crate) fn parse_i8(s: &str) -> (r: Option<i8>)
    ensures
        r == i8_of(s@),
{
    s.parse::<i8>().ok()
}

/// Relies on `str::to_lowercase`; the result depends on the characters alone.
#[verifier::external_body]
pub(crate) fn lowercase(s: &str) -> (r: String)
    ensures
        r@ == lower_of(s@),
{
    s.to_lowercase()
}

// ---------------------------------------------------------------------------
// Searching
// ---------------------------------------------------------------------------

/// True when `p` occurs in `h` at index `i`.
pub open spec fn occurs_at(h: Seq<char>, p: Seq<char>, i: int) -> bool {
    0 <= i && i + p.len() <= h.len() && h.subrange(i, i + p.len()) == p
}

/// The first index at or after `i` where `p` occurs in `h`.
pub open spec fn find_from(h: Seq<char>, p: Seq<char>, i: int) -> Option<int>
    decreases h.len() + 1 - i,
{
    if i < 0 || i + p.len() > h.len() {
        None
    } else if occurs_at(h, p, i) {
        Some(i)
    } else {
        find_from(h, p, i + 1)
    }
}

/// True when `p` occurs anywhere in `h`.
pub open spec fn contains_chars(h: Seq<char>, p: Seq<char>) -> bool {
    find_from(h, p, 0).is_some()
}

/// The first index where `p` occurs in `h`.
pub fn find_chars(h: &[char], p: &[char]) -> (r: Option<usize>)
    ensures
        r matches Some(i) ==> find_from(h@, p@, 0) == Some(i as int) && i + p@.len() <= h@.len(),
        r is None ==> find_from(h@, p@, 0) is None,
{
    let hl = h.len();
    if p.len() > hl {
        return None;
    }
    let mut i: usize = 0;
    while i <= h.len() - p.len()
        invariant
            i + p@.len() <= h@.len() + 1,
            p@.len() <= h@.len(),
            hl == h@.len(),
            find_from(h@, p@, 0) == find_from(h@, p@, i as int),
        decreases h@.len() - i,
    {
        let mut k: usize = 0;
        let mut same = true;
        while k < p.len()
            invariant
                k <= p@.len(),
                i + p@.len() <= h@.len(),
                hl == h@.len(),
                same == (forall|j: int| 0 <= j < k ==> h@[i + j] == p@[j]),
            decreases p@.len() - k,
        {
            if h[i + k] != p[k] {
                same = false;
            }
            k = k + 1;
        }
        if same {
            assert(h@.subrange(i as int, i + p@.len()) =~= p@);
            return Some(i);
        }
        assert(!occurs_at(h@, p@, i as int)) by {
            if occurs_at(h@, p@, i as int) {
                assert(forall|j: int| 0 <= j < p@.len() ==> h@[i + j] == #[trigger] h@.subrange(i as int, i + p@.len())[j]);
            }
        }
        i = i + 1;
    }
    None
}

// ---------------------------------------------------------------------------
// Decimal numbers
// ---------------------------------------------------------------------------

/// The ASCII digit for `d < 10`.
pub open spec fn digit_char(d: nat) -> char {
    ((d + 48) as u8) as char
}

/// The decimal representation of `n`, without leading zeros.
pub open spec fn dec(n: nat) -> Seq<char>
    decreases n,
{
    if n < 10 {
        seq![digit_char(n)]
    } else {
        dec(n / 10).push(digit_char(n % 10))
    }
}

/// The decimal representation of `n`, padded with zeros to two digits.
pub open spec fn dec2(n: nat) -> Seq<char> {
    if n < 10 {
        seq!['0'].add(dec(n))
    } else {
        dec(n)
    }
}

/// Appends the decimal representation of `n`.
pub fn push_dec(out: &mut Vec<char>, n: u64)
    ensures
        final(out)@ == old(out)@ + dec(n as nat),
    decreases n,
{
    if n >= 10 {
        push_dec(out, n / 10);
    }
    let d = (n % 10) as u8;
    out.push((d + 48) as char);
    assert(final(out)@ =~= old(out)@ + dec(n as nat));
}

/// Appends the decimal representation of `n`, padded to two digits.
pub fn push_dec2(out: &mut Vec<char>, n: u64)
    ensures
        final(out)@ == old(out)@ + dec2(n as nat),
{
    if n < 10 {
        out.push('0');
    }
    push_dec(out, n);
    assert(final(out)@ =~= old(out)@ + dec2(n as nat));
}

/// Appends the characters of `s`.
pub fn push_chars(out: &mut Vec<char>, s: &[char])
    ensures
        final(out)@ == old(out)@ + s@,
{
    let mut i: usize = 0;
    while i < s.len()
        invariant
            i <= s@.len(),
            out@ == old(out)@ + s@.subrange(0, i as int),
        decreases s@.len() - i,
    {
        out.push(s[i]);
        assert(s@.subrange(0, i + 1) =~= s@.subrange(0, i as int).push(s@[i as int]));
        i = i + 1;
    }
    assert(s@.subrange(0, s@.len() as int) =~= s@);
}

} // verus!
