use vstd::prelude::*;
use crate::header::{players_view, HeaderPlayer, HeaderPlayerView};
use crate::models::{float_below_midpoint, MapPosition, Player, PlayerView, Winner};
use crate::stream::{slot_of_pn, EventScan, ScanState};

verus! {

/// The half of the map a team started on.
#[derive(Debug, Clone, Copy, PartialEq, Eq, Structural)]
pub enum Side {
    Left,
    Right,
}

/// The side of the map that a position lies on.
pub open spec fn side_of(p: MapPosition) -> Side {
    if float_below_midpoint(p.x_bits) {
        Side::Left
    } else {
        Side::Right
    }
}

/// The views of players.
pub open spec fn player_views(v: Seq<Player>) -> Seq<PlayerView> {
    v.map_values(|p: Player| p@)
}

/// The side of team `t`: that of the first of its players (from index `i`
/// on) with a valid position.
pub open spec fn team_side_from(ps: Seq<PlayerView>, t: i8, i: int) -> Option<Side>
    decreases ps.len() - i,
{
    if i < 0 || i >= ps.len() {
        None
    } else if ps[i].team_raw == t && ps[i].map_position is Some
        && ps[i].map_position->0.spec_is_valid() {
        Some(side_of(ps[i].map_position->0))
    } else {
        team_side_from(ps, t, i + 1)
    }
}

/// The side of team `t`, if one of its players has a valid position.
pub open spec fn team_side_of(ps: Seq<PlayerView>, t: i8) -> Option<Side> {
    team_side_from(ps, t, 0)
}

/// Determines the side of a team from the first of its players with a valid position.
pub fn team_side(players: &[Player], team_raw: i8) -> (r: Option<Side>)
    ensures
        r == team_side_of(player_views(players@), team_raw),
{
    let ghost ps = player_views(players@);
    let mut i: usize = 0;
    while i < players.len()
        invariant
            i <= players@.len(),
            ps == player_views(players@),
            team_side_of(ps, team_raw) == team_side_from(ps, team_raw, i as int),
        decreases players@.len() - i,
    {
        let p = &players[i];
        assert(ps[i as int] == p@);
        if p.team_raw == team_raw {
            if let Some(pos) = p.map_position {
                if pos.is_valid() {
                    if pos.is_left_side() {
                        return Some(Side::Left);
                    } else {
                        return Some(Side::Right);
                    }
                }
            }
        }
        i = i + 1;
    }
    None
}

/// The team number shown for a side: 1 for the left, 2 for the right.
pub open spec fn side_team(s: Side) -> i8 {
    match s {
        Side::Left => 1,
        Side::Right => 2,
    }
}

/// The players with the team of every sided team renumbered by its side.
pub open spec fn remapped(ps: Seq<PlayerView>) -> Seq<PlayerView> {
    Seq::new(
        ps.len(),
        |i: int|
            match team_side_of(ps, ps[i].team_raw) {
                Some(s) => PlayerView { team: side_team(s), ..ps[i] },
                None => ps[i],
            },
    )
}

/// Renumbers the team of every player whose team has a side: 1 = left, 2 = right.
pub fn remap_teams_by_side(players: &mut Vec<Player>)
    ensures
        player_views(final(players)@) == remapped(player_views(old(players)@)),
{
    let ghost ps = player_views(players@);
    let mut sides: Vec<Option<Side>> = Vec::new();
    let mut i: usize = 0;
    while i < players.len()
        invariant
            i <= players@.len(),
            ps == player_views(players@),
            sides@.len() == i,
            forall|j: int| 0 <= j < i ==> sides@[j] == team_side_of(ps, #[trigger] ps[j].team_raw),
        decreases players@.len() - i,
    {
        let s = team_side(players.as_slice(), players[i].team_raw);
        sides.push(s);
        i = i + 1;
    }
    let mut i: usize = 0;
    while i < players.len()
        invariant
            i <= players@.len(),
            players@.len() == ps.len(),
            sides@.len() == ps.len(),
            forall|j: int| 0 <= j < ps.len() ==> sides@[j] == team_side_of(ps, #[trigger] ps[j].team_raw),
            forall|j: int| 0 <= j < i ==> (#[trigger] players@[j])@ == remapped(ps)[j],
            forall|j: int| i <= j < ps.len() ==> (#[trigger] players@[j])@ == ps[j],
        decreases players@.len() - i,
    {
        assert(players@[i as int]@ == ps[i as int]);
        match sides[i] {
            Some(Side::Left) => {
                players[i].team = 1;
            },
            Some(Side::Right) => {
                players[i].team = 2;
            },
            None => {},
        }
        i = i + 1;
    }
    assert(player_views(players@) =~= remapped(ps));
}

/// The certain outcome for a winning side.
pub open spec fn certain_win(s: Side) -> Winner {
    match s {
        Side::Left => Winner::LeftTeam,
        Side::Right => Winner::RightTeam,
    }
}

/// The likely outcome for a winning side.
pub open spec fn likely_win(s: Side) -> Winner {
    match s {
        Side::Left => Winner::LikelyLeftTeam,
        Side::Right => Winner::LikelyRightTeam,
    }
}

pub fn side_to_winner(side: Side) -> (r: Winner)
    ensures
        r == certain_win(side),
{
    match side {
        Side::Left => Winner::LeftTeam,
        Side::Right => Winner::RightTeam,
    }
}

pub fn side_to_likely_winner(side: Side) -> (r: Winner)
    ensures
        r == likely_win(side),
{
    match side {
        Side::Left => Winner::LikelyLeftTeam,
        Side::Right => Winner::LikelyRightTeam,
    }
}

/// The first lobby entry (from index `i` on) in slot `slot`.
pub open spec fn entry_in_slot_from(hps: Seq<HeaderPlayerView>, slot: u8, i: int) -> Option<
    HeaderPlayerView,
>
    decreases hps.len() - i,
{
    if i < 0 || i >= hps.len() {
        None
    } else if hps[i].slot == slot {
        Some(hps[i])
    } else {
        entry_in_slot_from(hps, slot, i + 1)
    }
}

/// The player number of slot `slot`: 3 plus the first position (from `i`
/// on) of the slot among the occupied ones.
pub open spec fn pn_of_slot_from(occupied: Seq<u8>, slot: u8, i: int) -> Option<int>
    decreases occupied.len() - i,
{
    if i < 0 || i >= occupied.len() {
        None
    } else if occupied[i] == slot {
        Some(i + 3)
    } else {
        pn_of_slot_from(occupied, slot, i + 1)
    }
}

/// The outcome told by the end-game event: the side of the team of the
/// player who sent it wins.
pub open spec fn endgame_outcome(
    hps: Seq<HeaderPlayerView>,
    occupied: Seq<u8>,
    ps: Seq<PlayerView>,
    st: ScanState,
) -> Option<Winner> {
    match st.endgame {
        None => None,
        Some((pn, _)) => match slot_of_pn(occupied, pn as int) {
            None => None,
            Some(slot) => match entry_in_slot_from(hps, slot, 0) {
                None => None,
                Some(hp) => match team_side_of(ps, hp.team_raw) {
                    None => None,
                    Some(s) => Some(certain_win(s)),
                },
            },
        },
    }
}

fn entry_in_slot(header_players: &[HeaderPlayer], slot: u8) -> (r: Option<usize>)
    ensures
        r matches Some(i) ==> i < header_players@.len() && entry_in_slot_from(
            players_view(header_players@),
            slot,
            0,
        ) == Some(header_players@[i as int]@),
        r is None ==> entry_in_slot_from(players_view(header_players@), slot, 0) is None,
{
    let ghost hps = players_view(header_players@);
    let mut i: usize = 0;
    while i < header_players.len()
        invariant
            i <= header_players@.len(),
            hps == players_view(header_players@),
            entry_in_slot_from(hps, slot, 0) == entry_in_slot_from(hps, slot, i as int),
        decreases header_players@.len() - i,
    {
        assert(hps[i as int] == header_players@[i as int]@);
        if header_players[i].slot == slot {
            return Some(i);
        }
        i = i + 1;
    }
    None
}

/// The position of `slot` among the occupied slots; its player number is 3 more.
fn slot_index(occupied: &[u8], slot: u8) -> (r: Option<usize>)
    ensures
        r matches Some(i) ==> pn_of_slot_from(occupied@, slot, 0) == Some(i + 3),
        r is None ==> pn_of_slot_from(occupied@, slot, 0) is None,
{
    let mut i: usize = 0;
    while i < occupied.len()
        invariant
            i <= occupied@.len(),
            pn_of_slot_from(occupied@, slot, 0) == pn_of_slot_from(occupied@, slot, i as int),
        decreases occupied@.len() - i,
    {
        if occupied[i] == slot {
            return Some(i);
        }
        i = i + 1;
    }
    None
}

/// Tries to decide the outcome from the end-game event.
pub fn winner_from_endgame(
    scan: &EventScan,
    header_players: &[HeaderPlayer],
    players: &[Player],
    occupied: &[u8],
) -> (r: Option<Winner>)
    ensures
        r == endgame_outcome(players_view(header_players@), occupied@, player_views(players@), scan@),
{
    let (pn, _) = match scan.endgame {
        Some(e) => e,
        None => {
            return None;
        },
    };
    if pn < 3 || (pn - 3) as usize >= occupied.len() {
        return None;
    }
    let slot = occupied[(pn - 3) as usize];
    let i = match entry_in_slot(header_players, slot) {
        Some(i) => i,
        None => {
            return None;
        },
    };
    match team_side(players, header_players[i].team_raw) {
        Some(s) => Some(side_to_winner(s)),
        None => None,
    }
}

/// True when entry `hp` has a player number.
pub open spec fn has_pn(occupied: Seq<u8>, hp: HeaderPlayerView) -> bool {
    pn_of_slot_from(occupied, hp.slot, 0) is Some
}

/// The distinct teams of the first `n` entries that have a player number,
/// in order of first appearance.
pub open spec fn teams_upto(hps: Seq<HeaderPlayerView>, occupied: Seq<u8>, n: int) -> Seq<i8>
    decreases n,
{
    if n <= 0 {
        Seq::empty()
    } else {
        let t = teams_upto(hps, occupied, n - 1);
        if has_pn(occupied, hps[n - 1]) && !t.contains(hps[n - 1].team_raw) {
            t.push(hps[n - 1].team_raw)
        } else {
            t
        }
    }
}

/// The teams of the lobby entries.
pub open spec fn teams_of(hps: Seq<HeaderPlayerView>, occupied: Seq<u8>) -> Seq<i8> {
    teams_upto(hps, occupied, hps.len() as int)
}

/// How many of the first `n` entries are members of team `t` with a player number.
pub open spec fn team_size(hps: Seq<HeaderPlayerView>, occupied: Seq<u8>, t: i8, n: int) -> int
    decreases n,
{
    if n <= 0 {
        0
    } else {
        team_size(hps, occupied, t, n - 1) + if hps[n - 1].team_raw == t && has_pn(
            occupied,
            hps[n - 1],
        ) {
            1int
        } else {
            0int
        }
    }
}

/// How many of those members were recorded as defeated.
pub open spec fn team_defeats(
    hps: Seq<HeaderPlayerView>,
    occupied: Seq<u8>,
    st: ScanState,
    t: i8,
    n: int,
) -> int
    decreases n,
{
    if n <= 0 {
        0
    } else {
        team_defeats(hps, occupied, st, t, n - 1) + if hps[n - 1].team_raw == t && has_pn(
            occupied,
            hps[n - 1],
        ) && st.is_defeated(pn_of_slot_from(occupied, hps[n - 1].slot, 0)->0) {
            1int
        } else {
            0int
        }
    }
}

/// True when every member of team `t` was recorded as defeated.
pub open spec fn team_fully_defeated(
    hps: Seq<HeaderPlayerView>,
    occupied: Seq<u8>,
    st: ScanState,
    t: i8,
) -> bool {
    team_defeats(hps, occupied, st, t, hps.len() as int) == team_size(
        hps,
        occupied,
        t,
        hps.len() as int,
    )
}

/// The side of the first team from index `m` on, other than `t`, that has one.
pub open spec fn other_side_from(teams: Seq<i8>, ps: Seq<PlayerView>, t: i8, m: int) -> Option<Side>
    decreases teams.len() - m,
{
    if m < 0 || m >= teams.len() {
        None
    } else if teams[m] != t && team_side_of(ps, teams[m]) is Some {
        team_side_of(ps, teams[m])
    } else {
        other_side_from(teams, ps, t, m + 1)
    }
}

/// The outcome told by a fully defeated team (teams taken in order from
/// index `j`): the first other team with a side wins.
pub open spec fn full_defeat_from(
    hps: Seq<HeaderPlayerView>,
    occupied: Seq<u8>,
    ps: Seq<PlayerView>,
    st: ScanState,
    teams: Seq<i8>,
    j: int,
) -> Option<Winner>
    decreases teams.len() - j,
{
    if j < 0 || j >= teams.len() {
        None
    } else if team_fully_defeated(hps, occupied, st, teams[j]) && other_side_from(
        teams,
        ps,
        teams[j],
        0,
    ) is Some {
        Some(certain_win(other_side_from(teams, ps, teams[j], 0)->0))
    } else {
        full_defeat_from(hps, occupied, ps, st, teams, j + 1)
    }
}

/// The outcome told by the defeat counts of exactly two teams: the side of
/// the team with strictly fewer defeats likely won.
pub open spec fn majority_outcome(
    hps: Seq<HeaderPlayerView>,
    occupied: Seq<u8>,
    ps: Seq<PlayerView>,
    st: ScanState,
) -> Option<Winner> {
    let teams = teams_of(hps, occupied);
    if teams.len() != 2 {
        None
    } else {
        let da = team_defeats(hps, occupied, st, teams[0], hps.len() as int);
        let db = team_defeats(hps, occupied, st, teams[1], hps.len() as int);
        let w = if da > db {
            teams[1]
        } else {
            teams[0]
        };
        if da == db {
            None
        } else {
            match team_side_of(ps, w) {
                Some(s) => Some(likely_win(s)),
                None => None,
            }
        }
    }
}

/// The outcome of the match: the end-game event decides; else, when some
/// player was defeated, a fully defeated team, then the defeat counts;
/// else it is unknown.
pub open spec fn match_outcome(
    hps: Seq<HeaderPlayerView>,
    occupied: Seq<u8>,
    ps: Seq<PlayerView>,
    st: ScanState,
) -> Winner {
    match endgame_outcome(hps, occupied, ps, st) {
        Some(w) => w,
        None => if !st.any_defeated {
            Winner::Unknown
        } else {
            match full_defeat_from(hps, occupied, ps, st, teams_of(hps, occupied), 0) {
                Some(w) => w,
                None => match majority_outcome(hps, occupied, ps, st) {
                    Some(w) => w,
                    None => Winner::Unknown,
                },
            }
        },
    }
}

fn contains_team(teams: &Vec<i8>, t: i8) -> (r: bool)
    ensures
        r == teams@.contains(t),
{
    let mut i: usize = 0;
    while i < teams.len()
        invariant
            i <= teams@.len(),
            forall|j: int| 0 <= j < i ==> teams@[j] != t,
        decreases teams@.len() - i,
    {
        if teams[i] == t {
            return true;
        }
        i = i + 1;
    }
    false
}

/// The distinct teams of the entries that have a player number, in order of
/// first appearance.
fn team_order(header_players: &[HeaderPlayer], occupied: &[u8]) -> (r: Vec<i8>)
    ensures
        r@ == teams_of(players_view(header_players@), occupied@),
{
    let ghost hps = players_view(header_players@);
    let mut teams: Vec<i8> = Vec::new();
    let mut i: usize = 0;
    while i < header_players.len()
        invariant
            i <= header_players@.len(),
            hps == players_view(header_players@),
            teams@ == teams_upto(hps, occupied@, i as int),
        decreases header_players@.len() - i,
    {
        assert(hps[i as int] == header_players@[i as int]@);
        let t = header_players[i].team_raw;
        if slot_index(occupied, header_players[i].slot).is_some() && !contains_team(&teams, t) {
            teams.push(t);
        }
        i = i + 1;
    }
    teams
}

/// The number of members of team `t` and how many of them were defeated.
fn team_tally(
    header_players: &[HeaderPlayer],
    occupied: &[u8],
    scan: &EventScan,
    t: i8,
) -> (r: (usize, usize))
    requires
        scan@.wf(),
    ensures
        r.0 as int == team_size(players_view(header_players@), occupied@, t, header_players@.len() as int),
        r.1 as int == team_defeats(players_view(header_players@), occupied@, scan@, t, header_players@.len() as int),
{
    let ghost hps = players_view(header_players@);
    let mut size: usize = 0;
    let mut defeats: usize = 0;
    let mut i: usize = 0;
    while i < header_players.len()
        invariant
            i <= header_players@.len(),
            hps == players_view(header_players@),
            size <= i,
            defeats <= i,
            size as int == team_size(hps, occupied@, t, i as int),
            defeats as int == team_defeats(hps, occupied@, scan@, t, i as int),
            scan@.wf(),
        decreases header_players@.len() - i,
    {
        assert(hps[i as int] == header_players@[i as int]@);
        if header_players[i].team_raw == t {
            if let Some(k) = slot_index(occupied, header_players[i].slot) {
                size = size + 1;
                if k < 98 && scan.is_defeated((k + 3) as u32) {
                    defeats = defeats + 1;
                }
            }
        }
        i = i + 1;
    }
    (size, defeats)
}

fn other_team_side(teams: &Vec<i8>, players: &[Player], t: i8) -> (r: Option<Side>)
    ensures
        r == other_side_from(teams@, player_views(players@), t, 0),
{
    let mut m: usize = 0;
    while m < teams.len()
        invariant
            m <= teams@.len(),
            other_side_from(teams@, player_views(players@), t, 0) == other_side_from(
                teams@,
                player_views(players@),
                t,
                m as int,
            ),
        decreases teams@.len() - m,
    {
        if teams[m] != t {
            let s = team_side(players, teams[m]);
            if s.is_some() {
                return s;
            }
        }
        m = m + 1;
    }
    None
}

/// Tries to decide the outcome from a team whose members were all defeated.
pub fn winner_from_full_defeat(
    scan: &EventScan,
    header_players: &[HeaderPlayer],
    players: &[Player],
    occupied: &[u8],
    teams: &Vec<i8>,
) -> (r: Option<Winner>)
    requires
        scan@.wf(),
    ensures
        r == full_defeat_from(
            players_view(header_players@),
            occupied@,
            player_views(players@),
            scan@,
            teams@,
            0,
        ),
{
    let ghost hps = players_view(header_players@);
    let ghost ps = player_views(players@);
    let mut j: usize = 0;
    while j < teams.len()
        invariant
            j <= teams@.len(),
            hps == players_view(header_players@),
            ps == player_views(players@),
            scan@.wf(),
            full_defeat_from(hps, occupied@, ps, scan@, teams@, 0) == full_defeat_from(
                hps,
                occupied@,
                ps,
                scan@,
                teams@,
                j as int,
            ),
        decreases teams@.len() - j,
    {
        let (size, defeats) = team_tally(header_players, occupied, scan, teams[j]);
        if size == defeats {
            if let Some(s) = other_team_side(teams, players, teams[j]) {
                return Some(side_to_winner(s));
            }
        }
        j = j + 1;
    }
    None
}

/// Tries to decide the outcome of a two-team match from its defeat counts.
pub fn winner_from_majority_defeated(
    scan: &EventScan,
    header_players: &[HeaderPlayer],
    players: &[Player],
    occupied: &[u8],
    teams: &Vec<i8>,
) -> (r: Option<Winner>)
    requires
        scan@.wf(),
        teams@ == teams_of(players_view(header_players@), occupied@),
    ensures
        r == majority_outcome(players_view(header_players@), occupied@, player_views(players@), scan@),
{
    if teams.len() != 2 {
        return None;
    }
    let (_, defeats_a) = team_tally(header_players, occupied, scan, teams[0]);
    let (_, defeats_b) = team_tally(header_players, occupied, scan, teams[1]);
    if defeats_a > defeats_b {
        match team_side(players, teams[1]) {
            Some(s) => Some(side_to_likely_winner(s)),
            None => None,
        }
    } else if defeats_b > defeats_a {
        match team_side(players, teams[0]) {
            Some(s) => Some(side_to_likely_winner(s)),
            None => None,
        }
    } else {
        None
    }
}

/// Decides the outcome with the chained strategies.
pub fn determine_winner(
    scan: &EventScan,
    header_players: &[HeaderPlayer],
    players: &[Player],
    occupied: &[u8],
) -> (r: Winner)
    requires
        scan@.wf(),
    ensures
        r == match_outcome(players_view(header_players@), occupied@, player_views(players@), scan@),
{
    if let Some(w) = winner_from_endgame(scan, header_players, players, occupied) {
        return w;
    }
    if !scan.any_defeated {
        return Winner::Unknown;
    }
    let teams = team_order(header_players, occupied);
    if let Some(w) = winner_from_full_defeat(scan, header_players, players, occupied, &teams) {
        return w;
    }
    match winner_from_majority_defeated(scan, header_players, players, occupied, &teams) {
        Some(w) => w,
        None => Winner::Unknown,
    }
}

} // verus!
