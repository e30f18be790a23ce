use vstd::prelude::*;
use crate::text::{chars_to_string, dec, dec2, push_chars, push_dec, push_dec2, str_chars};

verus! {

/// A faction as chosen in the lobby or inferred from construction.
#[derive(Debug, Clone, Copy, PartialEq, Eq, Structural)]
pub enum Faction {
    Men,
    Elves,
    Dwarves,
    Isengard,
    Mordor,
    Goblins,
    Angmar,
    /// The lobby choice was "random": the actual faction is not yet known.
    Random,
    Unknown(u8),
}

/// The faction that a lobby faction id stands for.
pub open spec fn faction_of_id(id: i8) -> Faction {
    if id == 0 {
        Faction::Men
    } else if id == 1 {
        Faction::Goblins
    } else if id == 2 {
        Faction::Dwarves
    } else if id == 3 {
        Faction::Isengard
    } else if id == 4 {
        Faction::Elves
    } else if id == 5 {
        Faction::Mordor
    } else if id == 6 {
        Faction::Angmar
    } else if id > 6 {
        Faction::Unknown(id as u8)
    } else {
        Faction::Random
    }
}

impl Faction {
    /// Converts a lobby faction id; negative ids mean a random pick.
    pub fn from_id(id: i8) -> (r: Faction)
        ensures
            r == faction_of_id(id),
    {
        match id {
            0 => Faction::Men,
            1 => Faction::Goblins,
            2 => Faction::Dwarves,
            3 => Faction::Isengard,
            4 => Faction::Elves,
            5 => Faction::Mordor,
            6 => Faction::Angmar,
            n => if n >= 0 {
                Faction::Unknown(n as u8)
            } else {
                Faction::Random
            },
        }
    }
}

/// A point on the map, each coordinate held as the IEEE-754 single-precision
/// bit pattern in which the log records it.
#[derive(Debug, Clone, Copy, PartialEq, Eq, Structural)]
pub struct MapPosition {
    pub x_bits: u32,
    pub y_bits: u32,
}

/// True when the single-precision number with bits `b` is zero (`+0.0` or `-0.0`).
pub open spec fn float_is_zero(b: u32) -> bool {
    b % 0x8000_0000 == 0
}

/// The x coordinate that splits the map into its left and right halves,
/// as single-precision bits (2500.0).
pub const MAP_X_MIDPOINT_BITS: u32 = 0x451C_4000;

/// True when the single-precision number with bits `b` compares below the
/// midpoint: NaN never does, every negative number does, and a non-negative
/// one does exactly when its bits are below the midpoint's.
pub open spec fn float_below_midpoint(b: u32) -> bool {
    if b % 0x8000_0000 > 0x7f80_0000 {
        false
    } else if b >= 0x8000_0000 {
        true
    } else {
        b < MAP_X_MIDPOINT_BITS
    }
}

/// Single-precision bits of 3000.0, above which a y coordinate is in the top row.
pub const MAP_Y_TOP_BITS: u32 = 0x453B_8000;
/// Single-precision bits of 1500.0, above which a y coordinate is in the middle row.
pub const MAP_Y_MID_BITS: u32 = 0x44BB_8000;

/// True when the single-precision number with bits `b` compares above the
/// positive number with bits `t`: NaN and negative numbers never do.
pub open spec fn float_above(b: u32, t: u32) -> bool {
    if b % 0x8000_0000 > 0x7f80_0000 {
        false
    } else if b >= 0x8000_0000 {
        false
    } else {
        b > t
    }
}

fn above(b: u32, t: u32) -> (r: bool)
    ensures
        r == float_above(b, t),
{
    if b % 0x8000_0000 > 0x7f80_0000 {
        false
    } else if b >= 0x8000_0000 {
        false
    } else {
        b > t
    }
}

/// The six start positions of the supported map.
#[derive(Debug, Clone, Copy, PartialEq, Eq, Structural)]
pub enum StartPosition {
    TopLeft,
    MidLeft,
    BottomLeft,
    TopRight,
    MidRight,
    BottomRight,
}

/// The start position nearest to a position: left or right of the midpoint,
/// and top (y above 3000), middle (above 1500) or bottom.
pub open spec fn start_position_of(p: MapPosition) -> StartPosition {
    let left = float_below_midpoint(p.x_bits);
    if float_above(p.y_bits, MAP_Y_TOP_BITS) {
        if left {
            StartPosition::TopLeft
        } else {
            StartPosition::TopRight
        }
    } else if float_above(p.y_bits, MAP_Y_MID_BITS) {
        if left {
            StartPosition::MidLeft
        } else {
            StartPosition::MidRight
        }
    } else if left {
        StartPosition::BottomLeft
    } else {
        StartPosition::BottomRight
    }
}

impl MapPosition {
    pub fn new(x_bits: u32, y_bits: u32) -> (r: MapPosition)
        ensures
            r.x_bits == x_bits,
            r.y_bits == y_bits,
    {
        MapPosition { x_bits, y_bits }
    }

    /// A recorded position is valid unless both coordinates are zero.
    pub open spec fn spec_is_valid(&self) -> bool {
        !(float_is_zero(self.x_bits) && float_is_zero(self.y_bits))
    }

    pub fn is_valid(&self) -> (r: bool)
        ensures
            r == self.spec_is_valid(),
    {
        !(self.x_bits % 0x8000_0000 == 0 && self.y_bits % 0x8000_0000 == 0)
    }

    /// The start position nearest to this position.
    pub fn start_position(&self) -> (r: StartPosition)
        ensures
            r == start_position_of(*self),
    {
        let left = self.is_left_side();
        if above(self.y_bits, MAP_Y_TOP_BITS) {
            if left {
                StartPosition::TopLeft
            } else {
                StartPosition::TopRight
            }
        } else if above(self.y_bits, MAP_Y_MID_BITS) {
            if left {
                StartPosition::MidLeft
            } else {
                StartPosition::MidRight
            }
        } else if left {
            StartPosition::BottomLeft
        } else {
            StartPosition::BottomRight
        }
    }

    /// True when the position lies on the left half of the map.
    pub fn is_left_side(&self) -> (r: bool)
        ensures
            r == float_below_midpoint(self.x_bits),
    {
        let b = self.x_bits;
        if b % 0x8000_0000 > 0x7f80_0000 {
            false
        } else if b >= 0x8000_0000 {
            true
        } else {
            b < MAP_X_MIDPOINT_BITS
        }
    }
}

/// The RGB value of palette entry `id` (0 to 9); any other id is gray.
pub open spec fn palette_rgb(id: i8) -> Seq<u8> {
    if id == 0 {
        seq![70, 91, 156]
    } else if id == 1 {
        seq![158, 56, 42]
    } else if id == 2 {
        seq![175, 189, 76]
    } else if id == 3 {
        seq![62, 152, 100]
    } else if id == 4 {
        seq![206, 135, 69]
    } else if id == 5 {
        seq![122, 168, 204]
    } else if id == 6 {
        seq![148, 116, 183]
    } else if id == 7 {
        seq![204, 159, 188]
    } else if id == 8 {
        seq![100, 100, 100]
    } else if id == 9 {
        seq![226, 226, 226]
    } else {
        seq![128, 128, 128]
    }
}

/// The RGB value of a color id: blue, red, yellow, green, orange, teal,
/// purple, pink, gray and white for 0 to 9; a neutral gray otherwise.
pub fn player_color(id: i8) -> (r: [u8; 3])
    ensures
        r@ == palette_rgb(id),
{
    let r: [u8; 3] = match id {
        0 => [70, 91, 156],
        1 => [158, 56, 42],
        2 => [175, 189, 76],
        3 => [62, 152, 100],
        4 => [206, 135, 69],
        5 => [122, 168, 204],
        6 => [148, 116, 183],
        7 => [204, 159, 188],
        8 => [100, 100, 100],
        9 => [226, 226, 226],
        _ => [128, 128, 128],
    };
    assert(r@ =~= palette_rgb(id));
    r
}

/// A player of the match.
#[derive(Debug, Clone)]
pub struct Player {
    pub name: String,
    /// The 8-character unique id from the lobby, if it had that shape.
    pub uid: Option<String>,
    /// 1 for the left side, 2 for the right side, once the side is known.
    pub team: i8,
    /// The team id of the lobby.
    pub team_raw: i8,
    /// Position in the lobby.
    pub slot: u8,
    /// The faction chosen in the lobby.
    pub faction: Faction,
    pub color_id: i8,
    pub color_rgb: [u8; 3],
    /// The first position observed in the match.
    pub map_position: Option<MapPosition>,
    /// The faction inferred from the player's buildings.
    pub actual_faction: Option<Faction>,
}

pub ghost struct PlayerView {
    pub name: Seq<char>,
    pub uid: Option<Seq<char>>,
    pub team: i8,
    pub team_raw: i8,
    pub slot: u8,
    pub faction: Faction,
    pub color_id: i8,
    pub color_rgb: Seq<u8>,
    pub map_position: Option<MapPosition>,
    pub actual_faction: Option<Faction>,
}

/// The view of an optional string.
pub open spec fn opt_view(s: Option<String>) -> Option<Seq<char>> {
    match s {
        Some(t) => Some(t@),
        None => None,
    }
}

impl View for Player {
    type V = PlayerView;

    open spec fn view(&self) -> PlayerView {
        PlayerView {
            name: self.name@,
            uid: opt_view(self.uid),
            team: self.team,
            team_raw: self.team_raw,
            slot: self.slot,
            faction: self.faction,
            color_id: self.color_id,
            color_rgb: self.color_rgb@,
            map_position: self.map_position,
            actual_faction: self.actual_faction,
        }
    }
}

impl Player {
    /// A player with no position and no inferred faction yet.
    pub fn with_details(
        name: String,
        uid: Option<String>,
        team: i8,
        team_raw: i8,
        slot: u8,
        faction: Faction,
        color_id: i8,
        color_rgb: [u8; 3],
    ) -> (r: Player)
        ensures
            r.name == name,
            r.uid == uid,
            r.team == team,
            r.team_raw == team_raw,
            r.slot == slot,
            r.faction == faction,
            r.color_id == color_id,
            r.color_rgb == color_rgb,
            r.map_position.is_none(),
            r.actual_faction.is_none(),
    {
        Player {
            name,
            uid,
            team,
            team_raw,
            slot,
            faction,
            color_id,
            color_rgb,
            map_position: None,
            actual_faction: None,
        }
    }

    /// The faction to show: the inferred one if known, else the lobby choice.
    pub fn display_faction(&self) -> (r: &Faction)
        ensures
            *r == match self.actual_faction {
                Some(f) => f,
                None => self.faction,
            },
    {
        match &self.actual_faction {
            Some(f) => f,
            None => &self.faction,
        }
    }

    pub fn display_color(&self) -> (r: [u8; 3])
        ensures
            r == self.color_rgb,
    {
        self.color_rgb
    }
}

/// The outcome of a match; the "likely" ones come from a heuristic.
#[derive(Debug, Clone, Copy, PartialEq, Eq, Structural)]
pub enum Winner {
    LeftTeam,
    RightTeam,
    LikelyLeftTeam,
    LikelyRightTeam,
    /// The match ended without an end-game event or any defeat.
    NotConcluded,
    Unknown,
}

/// The text shown for an outcome.
pub open spec fn winner_text(w: Winner) -> Seq<char> {
    match w {
        Winner::LeftTeam => "Left Team"@,
        Winner::RightTeam => "Right Team"@,
        Winner::LikelyLeftTeam => "Left Team (likely)"@,
        Winner::LikelyRightTeam => "Right Team (likely)"@,
        Winner::NotConcluded => "Not Concluded"@,
        Winner::Unknown => "Unknown"@,
    }
}

impl Winner {
    pub fn display_text(&self) -> (r: &'static str)
        ensures
            r@ == winner_text(*self),
    {
        match self {
            Winner::LeftTeam => "Left Team",
            Winner::RightTeam => "Right Team",
            Winner::LikelyLeftTeam => "Left Team (likely)",
            Winner::LikelyRightTeam => "Right Team (likely)",
            Winner::NotConcluded => "Not Concluded",
            Winner::Unknown => "Unknown",
        }
    }
}

/// An observer of the match.
#[derive(Debug, Clone)]
pub struct Spectator {
    pub name: String,
}

/// Why a log could not be decoded (or rendered).
#[derive(Debug, Clone)]
pub enum ReplayError {
    /// Too short, or the signature is wrong.
    InvalidHeader,
    /// The map is not the supported one.
    UnsupportedMap(String),
    /// No lobby entry is a player.
    NoPlayers,
    /// A required header field could not be found or read.
    ParseError(String),
    RenderError(String),
}

pub ghost enum ReplayErrorView {
    InvalidHeader,
    UnsupportedMap(Seq<char>),
    NoPlayers,
    ParseError(Seq<char>),
    RenderError(Seq<char>),
}

impl View for ReplayError {
    type V = ReplayErrorView;

    open spec fn view(&self) -> ReplayErrorView {
        match self {
            ReplayError::InvalidHeader => ReplayErrorView::InvalidHeader,
            ReplayError::UnsupportedMap(s) => ReplayErrorView::UnsupportedMap(s@),
            ReplayError::NoPlayers => ReplayErrorView::NoPlayers,
            ReplayError::ParseError(s) => ReplayErrorView::ParseError(s@),
            ReplayError::RenderError(s) => ReplayErrorView::RenderError(s@),
        }
    }
}

/// Everything decoded from one log.
#[derive(Debug, Clone)]
pub struct ReplayInfo {
    pub map_name: String,
    /// In lobby-slot order.
    pub players: Vec<Player>,
    pub spectators: Vec<Spectator>,
    /// Unix timestamp of the start.
    pub start_time: Option<u32>,
    /// Unix timestamp of the end.
    pub end_time: Option<u32>,
    pub winner: Winner,
    /// Neither an end-game event nor any defeat was seen.
    pub game_crashed: bool,
    /// The largest time code divided by the tick rate.
    pub estimated_duration_secs: Option<u32>,
}

pub ghost struct ReplayInfoView {
    pub map_name: Seq<char>,
    pub players: Seq<PlayerView>,
    pub spectators: Seq<Seq<char>>,
    pub start_time: Option<u32>,
    pub end_time: Option<u32>,
    pub winner: Winner,
    pub game_crashed: bool,
    pub estimated_duration_secs: Option<u32>,
}

impl View for ReplayInfo {
    type V = ReplayInfoView;

    open spec fn view(&self) -> ReplayInfoView {
        ReplayInfoView {
            map_name: self.map_name@,
            players: self.players@.map_values(|p: Player| p@),
            spectators: self.spectators@.map_values(|s: Spectator| s.name@),
            start_time: self.start_time,
            end_time: self.end_time,
            winner: self.winner,
            game_crashed: self.game_crashed,
            estimated_duration_secs: self.estimated_duration_secs,
        }
    }
}

impl ReplayInfo {
    /// A result with no spectators, times or estimate, and an unknown outcome.
    pub fn new(map_name: String, players: Vec<Player>) -> (r: ReplayInfo)
        ensures
            r.map_name == map_name,
            r.players == players,
            r.spectators@.len() == 0,
            r.start_time.is_none(),
            r.end_time.is_none(),
            r.winner == Winner::Unknown,
            !r.game_crashed,
            r.estimated_duration_secs.is_none(),
    {
        ReplayInfo {
            map_name,
            players,
            spectators: Vec::new(),
            start_time: None,
            end_time: None,
            winner: Winner::Unknown,
            game_crashed: false,
            estimated_duration_secs: None,
        }
    }

    pub fn with_times(self, start: u32, end: u32) -> (r: ReplayInfo)
        ensures
            r == (ReplayInfo { start_time: Some(start), end_time: Some(end), ..self }),
    {
        ReplayInfo { start_time: Some(start), end_time: Some(end), ..self }
    }

    pub fn with_winner(self, winner: Winner) -> (r: ReplayInfo)
        ensures
            r == (ReplayInfo { winner, ..self }),
    {
        ReplayInfo { winner, ..self }
    }

    pub fn with_spectators(self, spectators: Vec<Spectator>) -> (r: ReplayInfo)
        ensures
            r == (ReplayInfo { spectators, ..self }),
    {
        ReplayInfo { spectators, ..self }
    }

    pub fn with_game_crashed(self, crashed: bool) -> (r: ReplayInfo)
        ensures
            r == (ReplayInfo { game_crashed: crashed, ..self }),
    {
        ReplayInfo { game_crashed: crashed, ..self }
    }

    pub fn with_estimated_duration(self, secs: Option<u32>) -> (r: ReplayInfo)
        ensures
            r == (ReplayInfo { estimated_duration_secs: secs, ..self }),
    {
        ReplayInfo { estimated_duration_secs: secs, ..self }
    }
}

/// The duration in seconds: end minus start when the end is later, else
/// the estimate.
pub open spec fn duration_of(i: ReplayInfoView) -> Option<u32> {
    match (i.start_time, i.end_time) {
        (Some(s), Some(e)) if e > s => Some((e - s) as u32),
        _ => i.estimated_duration_secs,
    }
}

/// True when the duration shown is the estimate.
pub open spec fn duration_is_estimate(i: ReplayInfoView) -> bool {
    match (i.start_time, i.end_time) {
        (Some(s), Some(e)) if e > s => false,
        _ => i.estimated_duration_secs is Some,
    }
}

/// `t` seconds as "M:SS", or "H:MM:SS" from one hour on.
pub open spec fn clock_text(t: nat) -> Seq<char> {
    let h = t / 3600;
    let m = (t % 3600) / 60;
    let s = t % 60;
    if h > 0 {
        dec(h) + seq![':'] + dec2(m) + seq![':'] + dec2(s)
    } else {
        dec(m) + seq![':'] + dec2(s)
    }
}

/// The duration as shown: the clock text, after "~" when estimated, or "Unknown".
pub open spec fn duration_text(i: ReplayInfoView) -> Seq<char> {
    match duration_of(i) {
        Some(t) => (if duration_is_estimate(i) {
            seq!['~']
        } else {
            Seq::empty()
        }) + clock_text(t as nat),
        None => seq!['U', 'n', 'k', 'n', 'o', 'w', 'n'],
    }
}

/// True for the leap years of the Gregorian calendar.
pub open spec fn is_leap(y: int) -> bool {
    (y % 4 == 0 && y % 100 != 0) || y % 400 == 0
}

/// Number of days in year `y`.
pub open spec fn year_len(y: int) -> int {
    if is_leap(y) {
        366
    } else {
        365
    }
}

/// Number of days in month `m` (1 to 12) of year `y`.
pub open spec fn month_len(y: int, m: int) -> int {
    if m == 2 {
        if is_leap(y) {
            29
        } else {
            28
        }
    } else if m == 4 || m == 6 || m == 9 || m == 11 {
        30
    } else {
        31
    }
}

/// Days from 1970-01-01 to the first day of year `y`.
pub open spec fn days_before_year(y: int) -> int
    decreases y - 1970,
{
    if y <= 1970 {
        0
    } else {
        days_before_year(y - 1) + year_len(y - 1)
    }
}

/// Days from the first of year `y` to the first of month `m`.
pub open spec fn days_before_month(y: int, m: int) -> int
    decreases m,
{
    if m <= 1 {
        0
    } else {
        days_before_month(y, m - 1) + month_len(y, m - 1)
    }
}

/// True when (y, m, d) is a date from 1970 on that lies `days` days after 1970-01-01.
pub open spec fn is_date_of_day(y: int, m: int, d: int, days: int) -> bool {
    &&& y >= 1970
    &&& 1 <= m <= 12
    &&& 1 <= d <= month_len(y, m)
    &&& days_before_year(y) + days_before_month(y, m) + d - 1 == days
}

/// "YYYY-MM-DD HH:MM" for a date from 1970 on (the year has four digits).
pub open spec fn date_text(y: int, m: int, d: int, h: int, min: int) -> Seq<char> {
    dec(y as nat) + seq!['-'] + dec2(m as nat) + seq!['-'] + dec2(d as nat) + seq![' '] + dec2(
        h as nat,
    ) + seq![':'] + dec2(min as nat)
}

pub fn is_leap_year(year: i32) -> (r: bool)
    ensures
        r == is_leap(year as int),
{
    (year % 4 == 0 && year % 100 != 0) || (year % 400 == 0)
}

fn days_in_month(year: i32, month: u32) -> (r: i32)
    ensures
        r as int == month_len(year as int, month as int),
{
    if month == 2 {
        if is_leap_year(year) {
            29
        } else {
            28
        }
    } else if month == 4 || month == 6 || month == 9 || month == 11 {
        30
    } else {
        31
    }
}

proof fn lemma_months_fill_year(y: int)
    ensures
        days_before_month(y, 12) + month_len(y, 12) == year_len(y),
{
    reveal_with_fuel(days_before_month, 13);
}

proof fn lemma_days_before_year_grows(y: int)
    requires
        y >= 1970,
    ensures
        days_before_year(y) >= 365 * (y - 1970),
    decreases y - 1970,
{
    if y > 1970 {
        lemma_days_before_year_grows(y - 1);
    }
}

/// Converts a day count since 1970-01-01 into (year, month, day).
pub fn days_to_ymd(days: i32) -> (r: (i32, u32, u32))
    requires
        days >= 0,
    ensures
        is_date_of_day(r.0 as int, r.1 as int, r.2 as int, days as int),
{
    let mut remaining = days;
    let mut year: i32 = 1970;
    loop
        invariant
            1970 <= year,
            0 <= remaining <= days,
            days_before_year(year as int) + remaining == days,
        ensures
            1970 <= year,
            0 <= remaining < year_len(year as int),
            days_before_year(year as int) + remaining == days,
        decreases remaining,
    {
        proof {
            lemma_days_before_year_grows(year as int);
        }
        let days_in_year: i32 = if is_leap_year(year) {
            366
        } else {
            365
        };
        if remaining < days_in_year {
            break;
        }
        remaining = remaining - days_in_year;
        year = year + 1;
    }
    let mut month: u32 = 1;
    proof {
        lemma_months_fill_year(year as int);
    }
    while month < 12
        invariant
            1 <= month <= 12,
            days_before_month(year as int, 12) + month_len(year as int, 12) == year_len(year as int),
            0 <= remaining,
            days_before_year(year as int) + days_before_month(year as int, month as int) + remaining
                == days,
            days_before_month(year as int, month as int) + remaining < year_len(year as int),
            year >= 1970,
        ensures
            1 <= month <= 12,
            0 <= remaining < month_len(year as int, month as int),
            days_before_year(year as int) + days_before_month(year as int, month as int) + remaining
                == days,
            year >= 1970,
        decreases 12 - month,
    {
        let dim = days_in_month(year, month);
        if remaining < dim {
            break;
        }
        remaining = remaining - dim;
        month = month + 1;
    }
    (year, month, (remaining + 1) as u32)
}

impl ReplayInfo {
    /// The duration in seconds: from the header times when the end is later
    /// than the start, else the estimate from the command stream.
    pub fn duration_seconds(&self) -> (r: Option<u32>)
        ensures
            r == duration_of(self@),
    {
        match (self.start_time, self.end_time) {
            (Some(start), Some(end)) if end > start => Some(end - start),
            _ => self.estimated_duration_secs,
        }
    }

    /// Whether the duration shown is the estimate from the command stream.
    pub fn is_duration_estimated(&self) -> (r: bool)
        ensures
            r == duration_is_estimate(self@),
    {
        match (self.start_time, self.end_time) {
            (Some(start), Some(end)) if end > start => false,
            _ => self.estimated_duration_secs.is_some(),
        }
    }

    /// The duration as "M:SS" or "H:MM:SS", after "~" when estimated.
    pub fn duration_formatted(&self) -> (r: String)
        ensures
            r@ == duration_text(self@),
    {
        match self.duration_seconds() {
            Some(total) => {
                let hours = total / 3600;
                let mins = (total % 3600) / 60;
                let secs = total % 60;
                let mut out: Vec<char> = Vec::new();
                if self.is_duration_estimated() {
                    out.push('~');
                }
                if hours > 0 {
                    push_dec(&mut out, hours as u64);
                    out.push(':');
                    push_dec2(&mut out, mins as u64);
                } else {
                    push_dec(&mut out, mins as u64);
                }
                out.push(':');
                push_dec2(&mut out, secs as u64);
                assert(out@ =~= duration_text(self@));
                chars_to_string(out.as_slice())
            },
            None => {
                let unknown = ['U', 'n', 'k', 'n', 'o', 'w', 'n'];
                let r = chars_to_string(&unknown);
                assert(r@ =~= duration_text(self@));
                r
            },
        }
    }

    /// The start as "YYYY-MM-DD HH:MM" (UTC), or "Unknown".
    pub fn start_date_formatted(&self) -> (r: String)
        ensures
            self.start_time is None ==> r@ == seq!['U', 'n', 'k', 'n', 'o', 'w', 'n'],
            self.start_time matches Some(ts) ==> exists|y: int, m: int, d: int|
                #[trigger] is_date_of_day(y, m, d, ts as int / 86400) && r@ == date_text(
                    y,
                    m,
                    d,
                    (ts as int % 86400) / 3600,
                    (ts as int % 3600) / 60,
                ),
    {
        match self.start_time {
            Some(ts) => {
                let days = ts / 86400;
                let time_of_day = ts % 86400;
                let hours = time_of_day / 3600;
                let minutes = (time_of_day % 3600) / 60;
                assert((ts % 86400) % 3600 == ts % 3600) by (nonlinear_arith);
                let (year, month, day) = days_to_ymd(days as i32);
                let mut out: Vec<char> = Vec::new();
                push_dec(&mut out, year as u64);
                out.push('-');
                push_dec2(&mut out, month as u64);
                out.push('-');
                push_dec2(&mut out, day as u64);
                out.push(' ');
                push_dec2(&mut out, hours as u64);
                out.push(':');
                push_dec2(&mut out, minutes as u64);
                assert(out@ =~= date_text(
                    year as int,
                    month as int,
                    day as int,
                    hours as int,
                    minutes as int,
                ));
                chars_to_string(out.as_slice())
            },
            None => {
                let unknown = ['U', 'n', 'k', 'n', 'o', 'w', 'n'];
                let r = chars_to_string(&unknown);
                assert(r@ =~= seq!['U', 'n', 'k', 'n', 'o', 'w', 'n']);
                r
            },
        }
    }
}

/// The name shown for a faction.
pub open spec fn faction_text(f: Faction) -> Seq<char> {
    match f {
        Faction::Men => "Men"@,
        Faction::Elves => "Elves"@,
        Faction::Dwarves => "Dwarves"@,
        Faction::Isengard => "Isengard"@,
        Faction::Mordor => "Mordor"@,
        Faction::Goblins => "Goblins"@,
        Faction::Angmar => "Angmar"@,
        Faction::Random => "Random"@,
        Faction::Unknown(n) => "Unknown("@ + dec(n as nat) + ")"@,
    }
}

impl Faction {
    /// The name shown for the faction, e.g. "Men" or "Unknown(9)".
    pub fn to_text(&self) -> (r: String)
        ensures
            r@ == faction_text(*self),
    {
        match self {
            Faction::Men => "Men".to_string(),
            Faction::Elves => "Elves".to_string(),
            Faction::Dwarves => "Dwarves".to_string(),
            Faction::Isengard => "Isengard".to_string(),
            Faction::Mordor => "Mordor".to_string(),
            Faction::Goblins => "Goblins".to_string(),
            Faction::Angmar => "Angmar".to_string(),
            Faction::Random => "Random".to_string(),
            Faction::Unknown(n) => {
                let mut out = str_chars("Unknown(");
                push_dec(&mut out, *n as u64);
                let close = str_chars(")");
                push_chars(&mut out, close.as_slice());
                chars_to_string(out.as_slice())
            },
        }
    }
}

/// The message shown for an error.
pub open spec fn error_text(e: ReplayErrorView) -> Seq<char> {
    match e {
        ReplayErrorView::InvalidHeader => "Invalid replay file: missing BFME2RPL header"@,
        ReplayErrorView::UnsupportedMap(name) => "Unsupported map: "@ + name,
        ReplayErrorView::NoPlayers => "No players found in replay"@,
        ReplayErrorView::ParseError(msg) => "Parse error: "@ + msg,
        ReplayErrorView::RenderError(msg) => "Render error: "@ + msg,
    }
}

fn prefixed(prefix: &str, s: &String) -> (r: String)
    ensures
        r@ == prefix@ + s@,
{
    let mut out = str_chars(prefix);
    let rest = str_chars(s.as_str());
    push_chars(&mut out, rest.as_slice());
    chars_to_string(out.as_slice())
}

impl ReplayError {
    /// The message shown for the error.
    pub fn to_text(&self) -> (r: String)
        ensures
            r@ == error_text(self@),
    {
        match self {
            ReplayError::InvalidHeader => "Invalid replay file: missing BFME2RPL header".to_string(),
            ReplayError::UnsupportedMap(name) => prefixed("Unsupported map: ", name),
            ReplayError::NoPlayers => "No players found in replay".to_string(),
            ReplayError::ParseError(msg) => prefixed("Parse error: ", msg),
            ReplayError::RenderError(msg) => prefixed("Render error: ", msg),
        }
    }
}

} // verus!
