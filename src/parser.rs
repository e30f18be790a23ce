use vstd::prelude::*;
use crate::colors::{assign_player_colors, assigned_colors, with_color};
use crate::header::{
    chunks_start_of, map_name_from, no_map_name_message, parse_header, players_view, roster_of,
    strings_view, HeaderPlayer, HeaderPlayerView,
};
use crate::models::{
    faction_of_id, palette_rgb, player_color, Faction, Player, PlayerView, ReplayError,
    ReplayErrorView, ReplayInfo, ReplayInfoView, Spectator, Winner,
};
use crate::outcome::{determine_winner, match_outcome, player_views, remap_teams_by_side, remapped};
use crate::stream::{analyze, parse_and_analyze_chunks, ScanState, SLOT_IDS};
use crate::text::{contains_chars, find_chars, le_u32, lower_of, lowercase, read_le_u32, str_chars};

verus! {

/// The signature at the start of every log: "BFME2RPL".
pub open spec fn magic() -> Seq<u8> {
    seq![66, 70, 77, 69, 50, 82, 80, 76]
}

/// The name that marks the one supported map: "wor rhun".
pub open spec fn supported_map_marker() -> Seq<char> {
    seq!['w', 'o', 'r', ' ', 'r', 'h', 'u', 'n']
}

/// True when a map name names the supported map (case-insensitively).
pub open spec fn is_supported_map(name: Seq<char>) -> bool {
    contains_chars(lower_of(name), supported_map_marker())
}

/// True when some entry uses team id `v`.
pub open spec fn team_present(hps: Seq<HeaderPlayerView>, v: int) -> bool {
    exists|i: int| 0 <= i < hps.len() && hps[i].team_raw as int == v
}

/// How many distinct non-negative team ids below `v` are in use.
pub open spec fn teams_below(hps: Seq<HeaderPlayerView>, v: int) -> int
    decreases v,
{
    if v <= 0 {
        0
    } else {
        teams_below(hps, v - 1) + if team_present(hps, v - 1) {
            1int
        } else {
            0int
        }
    }
}

/// The display team of team id `t`: its 1-based rank among the team ids in use.
pub open spec fn team_number(hps: Seq<HeaderPlayerView>, t: i8) -> i8 {
    if t >= 0 {
        (teams_below(hps, t as int) + 1) as i8
    } else {
        (t + 1) as i8
    }
}

/// The player made from a lobby entry, before the stream is read.
pub open spec fn initial_player(hps: Seq<HeaderPlayerView>, hp: HeaderPlayerView) -> PlayerView {
    PlayerView {
        name: hp.name,
        uid: hp.uid,
        team: team_number(hps, hp.team_raw),
        team_raw: hp.team_raw,
        slot: hp.slot,
        faction: faction_of_id(hp.faction_id),
        color_id: hp.color_id,
        color_rgb: palette_rgb(hp.color_id),
        map_position: None,
        actual_faction: None,
    }
}

/// The players made from the lobby entries.
pub open spec fn initial_players(hps: Seq<HeaderPlayerView>) -> Seq<PlayerView> {
    hps.map_values(|hp: HeaderPlayerView| initial_player(hps, hp))
}

/// The lobby entries with their colors resolved.
pub open spec fn colored(hps: Seq<HeaderPlayerView>) -> Seq<HeaderPlayerView> {
    Seq::new(hps.len(), |i: int| with_color(hps[i], assigned_colors(hps)[i]))
}

/// By slot id: whether a player sits in that slot.
pub open spec fn player_slots(hps: Seq<HeaderPlayerView>) -> Seq<bool> {
    Seq::new(SLOT_IDS as nat, |s: int| exists|i: int| 0 <= i < hps.len() && hps[i].slot as int == s)
}

/// A player with what the stream tells of its slot: its position and,
/// once positioned, the faction inferred from its buildings.
pub open spec fn placed(p: PlayerView, st: ScanState) -> PlayerView {
    match st.position(p.slot) {
        Some(pos) => PlayerView { map_position: Some(pos), actual_faction: st.faction(p.slot), ..p },
        None => p,
    }
}

/// The players with what the stream tells.
pub open spec fn placed_players(ps: Seq<PlayerView>, st: ScanState) -> Seq<PlayerView> {
    ps.map_values(|p: PlayerView| placed(p, st))
}

/// True when the match ended with neither an end-game event nor a defeat.
pub open spec fn crashed(st: ScanState) -> bool {
    st.endgame is None && !st.any_defeated
}

/// The estimated duration: the largest time code at five ticks per second.
pub open spec fn estimate_of(st: ScanState) -> Option<u32> {
    if st.max_timecode > 0 {
        Some((st.max_timecode / 5) as u32)
    } else {
        None
    }
}

/// What decoding a log gives.
pub open spec fn decode(d: Seq<u8>) -> Result<ReplayInfoView, ReplayErrorView> {
    if d.len() < 24 || d.subrange(0, 8) != magic() {
        Err(ReplayErrorView::InvalidHeader)
    } else {
        match map_name_from(d, 0) {
            None => Err(ReplayErrorView::ParseError(no_map_name_message())),
            Some(name) => if !is_supported_map(name) {
                Err(ReplayErrorView::UnsupportedMap(name))
            } else {
                let roster = roster_of(d);
                if roster.players.len() == 0 {
                    Err(ReplayErrorView::NoPlayers)
                } else {
                    let hps = colored(roster.players);
                    let ps = initial_players(hps);
                    let base = ReplayInfoView {
                        map_name: name,
                        players: ps,
                        spectators: roster.spectators,
                        start_time: Some(le_u32(d, 8) as u32),
                        end_time: Some(le_u32(d, 12) as u32),
                        winner: Winner::Unknown,
                        game_crashed: false,
                        estimated_duration_secs: None,
                    };
                    match chunks_start_of(d) {
                        None => Ok(base),
                        Some(start) => {
                            let st = analyze(d, start, roster.occupied, player_slots(hps));
                            let placed = placed_players(ps, st);
                            let w = match_outcome(hps, roster.occupied, placed, st);
                            let crash = w == Winner::Unknown && crashed(st);
                            Ok(
                                ReplayInfoView {
                                    players: remapped(placed),
                                    winner: if crash {
                                        Winner::NotConcluded
                                    } else {
                                        w
                                    },
                                    game_crashed: crash,
                                    estimated_duration_secs: estimate_of(st),
                                    ..base
                                },
                            )
                        },
                    }
                }
            },
        }
    }
}

/// The view of a decoding result.
pub open spec fn result_view(r: Result<ReplayInfo, ReplayError>) -> Result<ReplayInfoView, ReplayErrorView> {
    match r {
        Ok(info) => Ok(info@),
        Err(e) => Err(e@),
    }
}

fn team_rank(present: &Vec<bool>, hps: Ghost<Seq<HeaderPlayerView>>, t: i8) -> (r: i8)
    requires
        present@.len() == 128,
        forall|v: int| 0 <= v < 128 ==> present@[v] == team_present(hps@, v),
    ensures
        r == team_number(hps@, t),
{
    if t < 0 {
        return t + 1;
    }
    let mut n: u8 = 0;
    let mut v: i8 = 0;
    while v < t
        invariant
            0 <= v <= t,
            n <= v,
            present@.len() == 128,
            forall|u: int| 0 <= u < 128 ==> present@[u] == team_present(hps@, u),
            n as int == teams_below(hps@, v as int),
        decreases t - v,
    {
        if present[v as usize] {
            n = n + 1;
        }
        v = v + 1;
    }
    (n + 1) as i8
}

/// Builds the players from the lobby entries: team ids become 1-based ranks,
/// color ids become RGB values.
fn build_players(header_players: &[HeaderPlayer]) -> (r: Vec<Player>)
    ensures
        player_views(r@) == initial_players(players_view(header_players@)),
{
    let ghost hps = players_view(header_players@);
    let mut present: Vec<bool> = vec![false; 128];
    let mut i: usize = 0;
    while i < header_players.len()
        invariant
            i <= header_players@.len(),
            hps == players_view(header_players@),
            present@.len() == 128,
            forall|v: int|
                0 <= v < 128 ==> present@[v] == (exists|j: int|
                    0 <= j < i && hps[j].team_raw as int == v),
        decreases header_players@.len() - i,
    {
        let t = header_players[i].team_raw;
        if t >= 0 {
            present.set(t as usize, true);
        }
        i = i + 1;
        assert forall|v: int| 0 <= v < 128 implies present@[v] == (exists|j: int|
            0 <= j < i && hps[j].team_raw as int == v) by {
            if hps[i - 1].team_raw as int == v {
                assert(hps[i - 1] == header_players@[i - 1]@);
            }
        }
    }
    let mut players: Vec<Player> = Vec::new();
    let mut i: usize = 0;
    while i < header_players.len()
        invariant
            i <= header_players@.len(),
            hps == players_view(header_players@),
            present@.len() == 128,
            forall|v: int| 0 <= v < 128 ==> present@[v] == team_present(hps, v),
            players@.len() == i,
            forall|j: int| 0 <= j < i ==> (#[trigger] players@[j])@ == initial_player(hps, hps[j]),
        decreases header_players@.len() - i,
    {
        let hp = &header_players[i];
        assert(hps[i as int] == hp@);
        let team = team_rank(&present, Ghost(hps), hp.team_raw);
        let player = Player::with_details(
            hp.name.clone(),
            hp.uid.clone(),
            team,
            hp.team_raw,
            hp.slot,
            Faction::from_id(hp.faction_id),
            hp.color_id,
            player_color(hp.color_id),
        );
        players.push(player);
        i = i + 1;
    }
    assert(player_views(players@) =~= initial_players(hps));
    players
}

fn has_magic(data: &[u8]) -> (r: bool)
    requires
        data@.len() >= 8,
    ensures
        r == (data@.subrange(0, 8) == magic()),
{
    let r = data[0] == 66 && data[1] == 70 && data[2] == 77 && data[3] == 69 && data[4] == 50
        && data[5] == 82 && data[6] == 80 && data[7] == 76;
    assert(r ==> data@.subrange(0, 8) =~= magic());
    assert(data@.subrange(0, 8) == magic() ==> r) by {
        if data@.subrange(0, 8) == magic() {
            assert(forall|k: int| 0 <= k < 8 ==> data@[k] == #[trigger] data@.subrange(0, 8)[k]);
        }
    }
    r
}

/// Whether a map name already in lower case contains "wor rhun".
pub fn lowercase_name_is_supported(lower: &str) -> (r: bool)
    ensures
        r == contains_chars(lower@, supported_map_marker()),
{
    let chars = str_chars(lower);
    let marker = vec!['w', 'o', 'r', ' ', 'r', 'h', 'u', 'n'];
    assert(marker@ =~= supported_map_marker());
    find_chars(chars.as_slice(), marker.as_slice()).is_some()
}

fn is_supported(map_name: &String) -> (r: bool)
    ensures
        r == is_supported_map(map_name@),
{
    let lower = lowercase(map_name.as_str());
    lowercase_name_is_supported(lower.as_str())
}

/// Decodes a match log: validates the signature, reads the header, rejects
/// other maps, resolves colors, decodes the command stream and infers sides
/// and the outcome.
pub fn parse_replay(data: &[u8]) -> (r: Result<ReplayInfo, ReplayError>)
    ensures
        result_view(r) == decode(data@),
{
    if data.len() < 24 || !has_magic(data) {
        return Err(ReplayError::InvalidHeader);
    }
    let header = match parse_header(data) {
        Ok(h) => h,
        Err(e) => {
            return Err(e);
        },
    };
    if !is_supported(&header.map_name) {
        return Err(ReplayError::UnsupportedMap(header.map_name));
    }
    let start_time = read_le_u32(data, 8);
    let end_time = read_le_u32(data, 12);
    let map_name = header.map_name;
    let mut header_players = header.players;
    let spectator_names = header.spectators;
    let occupied_slots = header.occupied_slots;
    if header_players.len() == 0 {
        return Err(ReplayError::NoPlayers);
    }
    let ghost roster = roster_of(data@);
    assign_player_colors(&mut header_players);
    let ghost hps = players_view(header_players@);
    assert(hps =~= colored(roster.players));
    let mut players = build_players(header_players.as_slice());
    let ghost ps0 = player_views(players@);
    let mut winner = Winner::Unknown;
    let mut game_crashed = false;
    let mut estimated_duration_secs: Option<u32> = None;
    if let Some(start) = header.chunks_start {
        let mut player_slot: Vec<bool> = vec![false; SLOT_IDS];
        let mut i: usize = 0;
        while i < header_players.len()
            invariant
                i <= header_players@.len(),
                hps == players_view(header_players@),
                player_slot@.len() == SLOT_IDS,
                forall|s: int|
                    0 <= s < SLOT_IDS ==> player_slot@[s] == (exists|j: int|
                        0 <= j < i && hps[j].slot as int == s),
            decreases header_players@.len() - i,
        {
            player_slot.set(header_players[i].slot as usize, true);
            i = i + 1;
            assert forall|s: int| 0 <= s < SLOT_IDS implies player_slot@[s] == (exists|j: int|
                0 <= j < i && hps[j].slot as int == s) by {
                if hps[i - 1].slot as int == s {
                    assert(hps[i - 1] == header_players@[i - 1]@);
                }
            }
        }
        assert(player_slot@ =~= player_slots(hps));
        let scan = parse_and_analyze_chunks(
            data,
            start,
            occupied_slots.as_slice(),
            player_slot.as_slice(),
        );
        let ghost st = scan@;
        assert(forall|j: int| 0 <= j < ps0.len() ==> (#[trigger] ps0[j]) == initial_player(hps, hps[j]));
        let mut i: usize = 0;
        while i < players.len()
            invariant
                i <= players@.len(),
                players@.len() == ps0.len(),
                scan@ == st,
                st.wf(),
                forall|j: int| 0 <= j < ps0.len() ==> (#[trigger] ps0[j]).actual_faction is None,
                forall|j: int| 0 <= j < i ==> (#[trigger] players@[j])@ == placed(ps0[j], st),
                forall|j: int| i <= j < ps0.len() ==> (#[trigger] players@[j])@ == ps0[j],
            decreases players@.len() - i,
        {
            assert(players@[i as int]@ == ps0[i as int]);
            let slot = players[i].slot;
            if let Some(p) = scan.position(slot) {
                players[i].map_position = Some(p);
                if let Some(f) = scan.faction(slot) {
                    players[i].actual_faction = Some(f);
                }
            }
            i = i + 1;
        }
        assert(player_views(players@) =~= placed_players(ps0, st));
        winner = determine_winner(&scan, header_players.as_slice(), players.as_slice(), occupied_slots.as_slice());
        if winner == Winner::Unknown && scan.endgame.is_none() && !scan.any_defeated {
            game_crashed = true;
            winner = Winner::NotConcluded;
        }
        if scan.max_timecode > 0 {
            estimated_duration_secs = Some(scan.max_timecode / 5);
        }
        remap_teams_by_side(&mut players);
    }
    let mut spectators: Vec<Spectator> = Vec::new();
    let mut i: usize = 0;
    while i < spectator_names.len()
        invariant
            i <= spectator_names@.len(),
            spectators@.len() == i,
            forall|j: int| 0 <= j < i ==> (#[trigger] spectators@[j]).name@ == spectator_names@[j]@,
        decreases spectator_names@.len() - i,
    {
        spectators.push(Spectator { name: spectator_names[i].clone() });
        i = i + 1;
    }
    assert(spectators@.map_values(|s: Spectator| s.name@) =~= strings_view(spectator_names@));
    let info = ReplayInfo::new(map_name, players).with_times(start_time, end_time).with_winner(
        winner,
    ).with_spectators(spectators).with_game_crashed(game_crashed).with_estimated_duration(
        estimated_duration_secs,
    );
    proof {
        assert(info@.players == player_views(players@));
    }
    Ok(info)
}

} // verus!
