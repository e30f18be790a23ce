use vstd::prelude::*;
use vstd::utf8::*;
use crate::models::{opt_view, ReplayError, ReplayErrorView};
use crate::text::{
    chars_to_string, find_chars, find_from, i8_of, parse_i8, split_chars, split_str, str_chars,
    trim_chars, trim_str, utf8_str,
};

verus! {

broadcast use vstd::string::group_string_axioms;

// ---------------------------------------------------------------------------
// Text of the header
// ---------------------------------------------------------------------------

/// The character that the code-page fallback decodes byte `b` to: a curated
/// set of Windows-1254 letters, every other byte read as Latin-1.
pub open spec fn fallback_char(b: u8) -> char {
    if b == 0x80 {
        '\u{20AC}'
    } else if b == 0x8A {
        '\u{015E}'
    } else if b == 0x8C {
        '\u{0152}'
    } else if b == 0x9A {
        '\u{015F}'
    } else if b == 0x9C {
        '\u{0153}'
    } else if b == 0x9F {
        '\u{0178}'
    } else if b == 0xC7 {
        '\u{00C7}'
    } else if b == 0xD0 {
        '\u{011E}'
    } else if b == 0xDD {
        '\u{0130}'
    } else if b == 0xDE {
        '\u{015E}'
    } else if b == 0xE7 {
        '\u{00E7}'
    } else if b == 0xF0 {
        '\u{011F}'
    } else if b == 0xFD {
        '\u{0131}'
    } else if b == 0xFE {
        '\u{015F}'
    } else {
        b as char
    }
}

/// The text of `b`: UTF-8 where it is valid, else byte by byte through the
/// code-page fallback.
pub open spec fn decode_text(b: Seq<u8>) -> Seq<char> {
    if valid_utf8(b) {
        decode_utf8(b)
    } else {
        b.map_values(|x: u8| fallback_char(x))
    }
}

fn fallback_char_of(b: u8) -> (c: char)
    ensures
        c == fallback_char(b),
{
    match b {
        0x80 => '\u{20AC}',
        0x8A => '\u{015E}',
        0x8C => '\u{0152}',
        0x9A => '\u{015F}',
        0x9C => '\u{0153}',
        0x9F => '\u{0178}',
        0xC7 => '\u{00C7}',
        0xD0 => '\u{011E}',
        0xDD => '\u{0130}',
        0xDE => '\u{015E}',
        0xE7 => '\u{00E7}',
        0xF0 => '\u{011F}',
        0xFD => '\u{0131}',
        0xFE => '\u{015F}',
        _ => b as char,
    }
}

/// Decodes header text: UTF-8 if valid, else a Turkish/Latin code-page fallback.
pub fn decode_with_turkish_fallback(bytes: &[u8]) -> (r: String)
    ensures
        r@ == decode_text(bytes@),
{
    if let Some(s) = utf8_str(bytes) {
        return s.to_string();
    }
    let mut out: Vec<char> = Vec::new();
    let mut i: usize = 0;
    while i < bytes.len()
        invariant
            i <= bytes@.len(),
            out@ == bytes@.subrange(0, i as int).map_values(|x: u8| fallback_char(x)),
        decreases bytes@.len() - i,
    {
        out.push(fallback_char_of(bytes[i]));
        i = i + 1;
        assert(out@ =~= bytes@.subrange(0, i as int).map_values(|x: u8| fallback_char(x)));
    }
    assert(bytes@.subrange(0, bytes@.len() as int) =~= bytes@);
    chars_to_string(out.as_slice())
}

// ---------------------------------------------------------------------------
// Map name
// ---------------------------------------------------------------------------

/// The characters "maps/".
pub open spec fn maps_dir() -> Seq<char> {
    seq!['m', 'a', 'p', 's', '/']
}

/// The map name in a map path: what follows the first "maps/" when something
/// does, else the whole path; `None` for an empty path.
pub open spec fn map_name_of_path(p: Seq<char>) -> Option<Seq<char>> {
    match find_from(p, maps_dir(), 0) {
        Some(i) if i + 5 < p.len() => Some(p.subrange(i + 5, p.len() as int)),
        _ => if p.len() > 0 {
            Some(p)
        } else {
            None
        },
    }
}

/// Extracts the map name from a path such as "385maps/map wor rhun".
pub fn extract_map_name_from_path(path: &str) -> (r: Option<String>)
    ensures
        opt_view(r) == map_name_of_path(path@),
{
    let p = str_chars(path);
    let dir = vec!['m', 'a', 'p', 's', '/'];
    assert(dir@ =~= maps_dir());
    let plen = p.len();
    if let Some(i) = find_chars(p.as_slice(), dir.as_slice()) {
        if i + 5 < plen {
            let mut name: Vec<char> = Vec::new();
            let mut k = i + 5;
            while k < p.len()
                invariant
                    i + 5 <= k <= p@.len(),
                    name@ == p@.subrange(i + 5, k as int),
                decreases p@.len() - k,
            {
                name.push(p[k]);
                k = k + 1;
                assert(name@ =~= p@.subrange(i + 5, k as int));
            }
            return Some(chars_to_string(name.as_slice()));
        }
    }
    if p.len() > 0 {
        Some(path.to_string())
    } else {
        None
    }
}

/// The first index at or after `k` that holds a `;`, or the length of `d`.
pub open spec fn semicolon_from(d: Seq<u8>, k: int) -> int
    decreases d.len() - k,
{
    if k < 0 || k >= d.len() || d[k] == 59 {
        k
    } else {
        semicolon_from(d, k + 1)
    }
}

/// The map name of the first `M=` field at index `i` or later whose value
/// (up to the next `;`) is non-empty UTF-8.
pub open spec fn map_name_from(d: Seq<u8>, i: int) -> Option<Seq<char>>
    decreases d.len() - i,
{
    if i < 0 || i + 2 >= d.len() {
        None
    } else {
        let end = semicolon_from(d, i + 2);
        if d[i] == 77 && d[i + 1] == 61 && end > i + 2 && valid_utf8(d.subrange(i + 2, end)) {
            map_name_of_path(decode_utf8(d.subrange(i + 2, end)))
        } else {
            map_name_from(d, i + 1)
        }
    }
}

fn copy_range(d: &[u8], from: usize, to: usize) -> (r: Vec<u8>)
    requires
        from <= to <= d@.len(),
    ensures
        r@ == d@.subrange(from as int, to as int),
{
    let mut r: Vec<u8> = Vec::new();
    let mut k = from;
    while k < to
        invariant
            from <= k <= to,
            to <= d@.len(),
            r@ == d@.subrange(from as int, k as int),
        decreases to - k,
    {
        r.push(d[k]);
        k = k + 1;
        assert(r@ =~= d@.subrange(from as int, k as int));
    }
    r
}

/// Finds the `M=` field and extracts the map name from its value.
fn find_map_name_in(header: &[u8]) -> (r: Option<String>)
    ensures
        opt_view(r) == map_name_from(header@, 0),
{
    let len = header.len();
    if len < 2 {
        return None;
    }
    let mut i: usize = 0;
    while i < len - 2
        invariant
            len == header@.len(),
            len >= 2,
            i <= len - 2,
            map_name_from(header@, 0) == map_name_from(header@, i as int),
        decreases len - i,
    {
        if header[i] == 77 && header[i + 1] == 61 {
            let start = i + 2;
            let mut end = start;
            while end < len && header[end] != 59
                invariant
                    start <= end <= len,
                    len == header@.len(),
                    semicolon_from(header@, start as int) == semicolon_from(header@, end as int),
                decreases len - end,
            {
                end = end + 1;
            }
            if end > start {
                let bytes = copy_range(header, start, end);
                if let Some(path) = utf8_str(bytes.as_slice()) {
                    return extract_map_name_from_path(path);
                }
            }
        }
        i = i + 1;
    }
    None
}

// ---------------------------------------------------------------------------
// Lobby slots
// ---------------------------------------------------------------------------

/// One occupied lobby slot, before colors and sides are resolved.
#[derive(Debug, Clone)]
pub struct HeaderPlayer {
    pub name: String,
    pub uid: Option<String>,
    /// -1 when the color was left to chance.
    pub color_id: i8,
    /// -1 when the faction was left to chance.
    pub faction_id: i8,
    /// Negative for a spectator.
    pub team_raw: i8,
    pub slot: u8,
}

pub ghost struct HeaderPlayerView {
    pub name: Seq<char>,
    pub uid: Option<Seq<char>>,
    pub color_id: i8,
    pub faction_id: i8,
    pub team_raw: i8,
    pub slot: u8,
}

impl View for HeaderPlayer {
    type V = HeaderPlayerView;

    open spec fn view(&self) -> HeaderPlayerView {
        HeaderPlayerView {
            name: self.name@,
            uid: opt_view(self.uid),
            color_id: self.color_id,
            faction_id: self.faction_id,
            team_raw: self.team_raw,
            slot: self.slot,
        }
    }
}

/// The view of an optional lobby entry.
pub open spec fn opt_player_view(p: Option<HeaderPlayer>) -> Option<HeaderPlayerView> {
    match p {
        Some(h) => Some(h@),
        None => None,
    }
}

/// The length in bytes of the UTF-8 encoding of `s`, as `str::len` gives it.
pub open spec fn byte_len(s: Seq<char>) -> usize {
    encode_utf8(s).len() as usize
}

/// A numeric field: its value, or -1 when it is no `i8`.
pub open spec fn field_i8(s: Seq<char>) -> i8 {
    match i8_of(s) {
        Some(v) => v,
        None => -1i8,
    }
}

/// The lobby entry that slot string `s` describes: empty-slot markers and
/// entries with fewer than 8 comma-separated fields or an empty name give none.
/// A leading `H` is dropped from a name longer than one character; the id is kept
/// when it is 8 bytes long; the color, faction and team fields are the 5th,
/// 7th and 8th.
pub open spec fn player_of(s: Seq<char>, slot: u8) -> Option<HeaderPlayerView> {
    let t = trim_chars(s);
    if t.len() == 0 || t == seq!['X'] || t == seq!['O'] || t == seq![';'] {
        None
    } else {
        let parts = split_chars(t, ',');
        let raw = parts[0];
        let name = if raw.len() > 1 && raw[0] == 'H' {
            raw.drop_first()
        } else {
            raw
        };
        if parts.len() < 8 || name.len() == 0 {
            None
        } else {
            Some(
                HeaderPlayerView {
                    name,
                    uid: if byte_len(parts[1]) == 8 {
                        Some(parts[1])
                    } else {
                        None
                    },
                    color_id: field_i8(parts[4]),
                    faction_id: field_i8(parts[6]),
                    team_raw: field_i8(parts[7]),
                    slot,
                },
            )
        }
    }
}

fn field_value(s: &str) -> (r: i8)
    ensures
        r == field_i8(s@),
{
    match parse_i8(s) {
        Some(v) => v,
        None => -1,
    }
}

/// Parses one slot string of the lobby table:
/// `HName,UID,Port,TT,ColorID,_,FactionID,Team,...`.
pub fn parse_player_data(s: &str, slot: u8) -> (r: Option<HeaderPlayer>)
    ensures
        opt_player_view(r) == player_of(s@, slot),
{
    let t = trim_str(s);
    let tc = str_chars(t);
    if tc.len() == 0 {
        return None;
    }
    if tc.len() == 1 && (tc[0] == 'X' || tc[0] == 'O' || tc[0] == ';') {
        assert(t@ =~= seq![tc[0]]);
        return None;
    }
    assert(!(t@ == seq!['X'] || t@ == seq!['O'] || t@ == seq![';'])) by {
        if t@ == seq!['X'] || t@ == seq!['O'] || t@ == seq![';'] {
            assert(t@.len() == 1);
        }
    }
    let parts = split_str(t, ',');
    if parts.len() < 8 {
        return None;
    }
    let raw: &str = parts[0];
    let rc = str_chars(raw);
    let name: String = if rc.len() > 1 && rc[0] == 'H' {
        let mut v: Vec<char> = Vec::new();
        let mut k: usize = 1;
        while k < rc.len()
            invariant
                1 <= k <= rc@.len(),
                v@ == rc@.subrange(1, k as int),
            decreases rc@.len() - k,
        {
            v.push(rc[k]);
            k = k + 1;
            assert(v@ =~= rc@.subrange(1, k as int));
        }
        assert(rc@.subrange(1, rc@.len() as int) =~= rc@.drop_first());
        chars_to_string(v.as_slice())
    } else {
        raw.to_string()
    };
    if name.as_str().is_empty() {
        return None;
    }
    let uid = if parts[1].len() == 8 {
        Some(parts[1].to_string())
    } else {
        None
    };
    let color_id = field_value(parts[4]);
    let faction_id = field_value(parts[6]);
    let team_raw = field_value(parts[7]);
    Some(HeaderPlayer { name, uid, color_id, faction_id, team_raw, slot })
}

// ---------------------------------------------------------------------------
// Lobby table
// ---------------------------------------------------------------------------

/// The first index at or after `i` where the marker `;S=` starts.
pub open spec fn table_marker_from(d: Seq<u8>, i: int) -> Option<int>
    decreases d.len() - i,
{
    if i < 0 || i + 3 >= d.len() {
        None
    } else if d[i] == 59 && d[i + 1] == 83 && d[i + 2] == 61 {
        Some(i)
    } else {
        table_marker_from(d, i + 1)
    }
}

/// True when a new header field (`;` then an uppercase ASCII letter then `=`)
/// starts at `k`.
pub open spec fn field_marker_at(d: Seq<u8>, k: int) -> bool {
    k + 2 < d.len() && d[k] == 59 && 65 <= d[k + 1] <= 90 && d[k + 2] == 61
}

/// Where the lobby table that starts at `k` ends: at the first NUL, line
/// break or next field marker, or at the end of `d`.
pub open spec fn table_end(d: Seq<u8>, k: int) -> int
    decreases d.len() - k,
{
    if k < 0 || k >= d.len() || d[k] == 0 || d[k] == 10 || d[k] == 13 || field_marker_at(d, k) {
        k
    } else {
        table_end(d, k + 1)
    }
}

/// The decoded text of the lobby table, if there is a non-empty one.
pub open spec fn table_text(d: Seq<u8>) -> Option<Seq<char>> {
    match table_marker_from(d, 0) {
        Some(i) => {
            let end = table_end(d, i + 3);
            if end > i + 3 {
                Some(decode_text(d.subrange(i + 3, end)))
            } else {
                None
            }
        },
        None => None,
    }
}

/// The lobby, split up: the players, the names of the spectators, and the
/// slot index of every occupied slot (players and spectators alike).
pub ghost struct RosterView {
    pub players: Seq<HeaderPlayerView>,
    pub spectators: Seq<Seq<char>>,
    pub occupied: Seq<u8>,
}

/// The lobby described by the first `n` slot strings.
pub open spec fn roster_upto(slots: Seq<Seq<char>>, n: int) -> RosterView
    decreases n,
{
    if n <= 0 {
        RosterView { players: Seq::empty(), spectators: Seq::empty(), occupied: Seq::empty() }
    } else {
        let r = roster_upto(slots, n - 1);
        match player_of(slots[n - 1], ((n - 1) % 256) as u8) {
            None => r,
            Some(p) => if p.team_raw >= 0 {
                RosterView { players: r.players.push(p), occupied: r.occupied.push(((n - 1) % 256) as u8), ..r }
            } else {
                RosterView {
                    spectators: r.spectators.push(p.name),
                    occupied: r.occupied.push(((n - 1) % 256) as u8),
                    ..r
                }
            },
        }
    }
}

/// The lobby of a log: one slot per `:`-separated piece of the table text.
pub open spec fn roster_of(d: Seq<u8>) -> RosterView {
    match table_text(d) {
        Some(t) => roster_upto(split_chars(t, ':'), split_chars(t, ':').len() as int),
        None => RosterView {
            players: Seq::empty(),
            spectators: Seq::empty(),
            occupied: Seq::empty(),
        },
    }
}

/// The views of lobby entries.
pub open spec fn players_view(v: Seq<HeaderPlayer>) -> Seq<HeaderPlayerView> {
    v.map_values(|p: HeaderPlayer| p@)
}

/// The views of strings.
pub open spec fn strings_view(v: Seq<String>) -> Seq<Seq<char>> {
    v.map_values(|s: String| s@)
}

fn find_table_marker(d: &[u8]) -> (r: Option<usize>)
    ensures
        r matches Some(i) ==> table_marker_from(d@, 0) == Some(i as int) && i + 3 < d@.len(),
        r is None ==> table_marker_from(d@, 0) is None,
{
    let len = d.len();
    if len < 3 {
        return None;
    }
    let mut i: usize = 0;
    while i < len - 3
        invariant
            len == d@.len(),
            len >= 3,
            i <= len - 3,
            table_marker_from(d@, 0) == table_marker_from(d@, i as int),
        decreases len - i,
    {
        if d[i] == 59 && d[i + 1] == 83 && d[i + 2] == 61 {
            return Some(i);
        }
        i = i + 1;
    }
    None
}

/// Finds the lobby table and parses every slot of it.
fn find_players_and_spectators_in(header: &[u8]) -> (r: (Vec<HeaderPlayer>, Vec<String>, Vec<u8>))
    ensures
        players_view(r.0@) == roster_of(header@).players,
        strings_view(r.1@) == roster_of(header@).spectators,
        r.2@ == roster_of(header@).occupied,
{
    let mut players: Vec<HeaderPlayer> = Vec::new();
    let mut spectators: Vec<String> = Vec::new();
    let mut occupied: Vec<u8> = Vec::new();
    let len = header.len();
    let i = match find_table_marker(header) {
        Some(i) => i,
        None => {
            assert(players_view(players@) =~= Seq::empty());
            assert(strings_view(spectators@) =~= Seq::empty());
            return (players, spectators, occupied);
        },
    };
    let start = i + 3;
    let mut end = start;
    while end < len
        invariant
            start <= end <= len,
            len == header@.len(),
            table_end(header@, start as int) == table_end(header@, end as int),
        ensures
            start <= end <= len,
            table_end(header@, start as int) == end,
        decreases len - end,
    {
        let b = header[end];
        if b == 0 || b == 10 || b == 13 {
            break;
        }
        if len - end > 2 && header[end] == 59 && 65 <= header[end + 1] && header[end + 1] <= 90
            && header[end + 2] == 61 {
            assert(field_marker_at(header@, end as int));
            break;
        }
        end = end + 1;
    }
    if end <= start {
        assert(players_view(players@) =~= Seq::empty());
        assert(strings_view(spectators@) =~= Seq::empty());
        return (players, spectators, occupied);
    }
    let bytes = copy_range(header, start, end);
    let text = decode_with_turkish_fallback(bytes.as_slice());
    let slots = split_str(text.as_str(), ':');
    let ghost sl = split_chars(text@, ':');
    let mut k: usize = 0;
    while k < slots.len()
        invariant
            k <= slots@.len(),
            slots@.len() == sl.len(),
            forall|j: int| 0 <= j < slots@.len() ==> (#[trigger] slots@[j])@ == sl[j],
            players_view(players@) == roster_upto(sl, k as int).players,
            strings_view(spectators@) == roster_upto(sl, k as int).spectators,
            occupied@ == roster_upto(sl, k as int).occupied,
        decreases slots@.len() - k,
    {
        let slot = (k % 256) as u8;
        let parsed = parse_player_data(slots[k], slot);
        assert(slots@[k as int]@ == sl[k as int]);
        if let Some(p) = parsed {
            occupied.push(slot);
            if p.team_raw >= 0 {
                players.push(p);
                assert(players_view(players@) =~= roster_upto(sl, k + 1).players);
            } else {
                spectators.push(p.name);
                assert(strings_view(spectators@) =~= roster_upto(sl, k + 1).spectators);
            }
        }
        k = k + 1;
        assert(players_view(players@) =~= roster_upto(sl, k as int).players);
        assert(strings_view(spectators@) =~= roster_upto(sl, k as int).spectators);
    }
    (players, spectators, occupied)
}

/// The first index at or after `k` that holds a NUL.
pub open spec fn nul_from(d: Seq<u8>, k: int) -> Option<int>
    decreases d.len() - k,
{
    if k < 0 || k >= d.len() {
        None
    } else if d[k] == 0 {
        Some(k)
    } else {
        nul_from(d, k + 1)
    }
}

/// Where the command stream starts: just after the first NUL that follows
/// the lobby-table marker.
pub open spec fn chunks_start_of(d: Seq<u8>) -> Option<int> {
    match table_marker_from(d, 0) {
        Some(i) => match nul_from(d, i) {
            Some(j) => Some(j + 1),
            None => None,
        },
        None => None,
    }
}

/// Finds where the command stream starts.
fn find_chunks_start(data: &[u8]) -> (r: Option<usize>)
    ensures
        r matches Some(s) ==> chunks_start_of(data@) == Some(s as int),
        r is None ==> chunks_start_of(data@) is None,
{
    let i = match find_table_marker(data) {
        Some(i) => i,
        None => {
            return None;
        },
    };
    let mut j = i;
    while j < data.len()
        invariant
            i <= j <= data@.len(),
            table_marker_from(data@, 0) == Some(i as int),
            nul_from(data@, i as int) == nul_from(data@, j as int),
        decreases data@.len() - j,
    {
        if data[j] == 0 {
            assert(nul_from(data@, j as int) == Some(j as int));
            return Some(j + 1);
        }
        j = j + 1;
    }
    None
}

/// Everything the header gives.
pub struct HeaderParseResult {
    pub map_name: String,
    pub players: Vec<HeaderPlayer>,
    pub spectators: Vec<String>,
    pub occupied_slots: Vec<u8>,
    pub chunks_start: Option<usize>,
}

/// The message of the error for a log without a readable map name.
pub open spec fn no_map_name_message() -> Seq<char> {
    "Could not find map name"@
}

/// Reads the map name, the lobby and the start of the command stream.
pub fn parse_header(data: &[u8]) -> (r: Result<HeaderParseResult, ReplayError>)
    ensures
        r is Err <==> map_name_from(data@, 0) is None,
        r matches Err(e) ==> e@ == ReplayErrorView::ParseError(no_map_name_message()),
        r matches Ok(h) ==> {
            &&& map_name_from(data@, 0) == Some(h.map_name@)
            &&& players_view(h.players@) == roster_of(data@).players
            &&& strings_view(h.spectators@) == roster_of(data@).spectators
            &&& h.occupied_slots@ == roster_of(data@).occupied
            &&& (h.chunks_start matches Some(s) ==> chunks_start_of(data@) == Some(s as int))
            &&& (h.chunks_start is None ==> chunks_start_of(data@) is None)
        },
{
    let map_name = match find_map_name_in(data) {
        Some(m) => m,
        None => {
            return Err(ReplayError::ParseError("Could not find map name".to_string()));
        },
    };
    let (players, spectators, occupied_slots) = find_players_and_spectators_in(data);
    let chunks_start = find_chunks_start(data);
    Ok(HeaderParseResult { map_name, players, spectators, occupied_slots, chunks_start })
}

} // verus!
