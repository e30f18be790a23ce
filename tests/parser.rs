use dcreplaybot::colors::find_best_gap;
use dcreplaybot::header::{decode_with_turkish_fallback, extract_map_name_from_path, parse_player_data};
use dcreplaybot::models::{Faction, ReplayError, Winner};
use dcreplaybot::parser::parse_replay;
use dcreplaybot::stream::{detect_faction_from_buildings, infer_faction_from_building};

/// A minimal log: signature, times, header text, and the NUL that ends it.
fn build_test_replay(map_name: &str, players_str: &str) -> Vec<u8> {
    let mut data = Vec::new();
    data.extend_from_slice(b"BFME2RPL");
    data.extend_from_slice(&1700000000u32.to_le_bytes());
    data.extend_from_slice(&1700001000u32.to_le_bytes());
    let header = format!("M=maps/{};S={}", map_name, players_str);
    data.extend_from_slice(header.as_bytes());
    data.push(0);
    data
}

const TWO_PLAYERS: &str =
    "HAlice,12345678,8094,TT,0,-1,0,0,0,1,0:HBob,87654321,8094,TT,1,-1,1,1,0,1,0";

/// A chunk record: time code, order, player number, then (type, count)
/// descriptors and the argument bytes.
fn chunk(tc: u32, order: u32, pn: u32, desc: &[(u8, u8)], args: &[u8]) -> Vec<u8> {
    let mut v = Vec::new();
    v.extend_from_slice(&tc.to_le_bytes());
    v.extend_from_slice(&order.to_le_bytes());
    v.extend_from_slice(&pn.to_le_bytes());
    v.push(desc.len() as u8);
    for (t, c) in desc {
        v.push(*t);
        v.push(*c);
    }
    v.extend_from_slice(args);
    v
}

fn vec3(x: f32, y: f32) -> Vec<u8> {
    let mut v = Vec::new();
    v.extend_from_slice(&x.to_le_bytes());
    v.extend_from_slice(&y.to_le_bytes());
    v.extend_from_slice(&0.0f32.to_le_bytes());
    v
}

fn build_at(tc: u32, pn: u32, x: f32, y: f32, building: u32) -> Vec<u8> {
    let mut args = vec3(x, y);
    args.extend_from_slice(&building.to_le_bytes());
    chunk(tc, 1049, pn, &[(6, 1), (0, 1)], &args)
}

#[test]
fn test_extract_map_name() {
    assert_eq!(
        extract_map_name_from_path("385maps/map wor rhun"),
        Some("map wor rhun".to_string())
    );
    assert_eq!(
        extract_map_name_from_path("maps/fords of isen"),
        Some("fords of isen".to_string())
    );
}

#[test]
fn map_name_without_maps_dir_is_unchanged() {
    assert_eq!(extract_map_name_from_path("map wor rhun"), Some("map wor rhun".to_string()));
    assert_eq!(extract_map_name_from_path("data/maps/"), Some("data/maps/".to_string()));
    assert_eq!(extract_map_name_from_path(""), None);
}

#[test]
fn test_parse_player_data() {
    let player = parse_player_data("HGusto,1A53EFD5,8094,TT,2,-1,1,1,0,1,0", 0).unwrap();
    assert_eq!(player.name, "Gusto");
    assert_eq!(player.uid, Some("1A53EFD5".to_string()));
    assert_eq!(player.color_id, 2);
    assert_eq!(player.faction_id, 1);
    assert_eq!(player.team_raw, 1);
}

#[test]
fn test_skip_empty_slot() {
    assert!(parse_player_data("X", 0).is_none());
    assert!(parse_player_data("O", 0).is_none());
}

#[test]
fn empty_slot_markers_with_white_space_and_short_entries() {
    assert!(parse_player_data("  X ", 3).is_none());
    assert!(parse_player_data(";", 3).is_none());
    assert!(parse_player_data("", 3).is_none());
    assert!(parse_player_data("HBob,1,2,3,4,5,6", 3).is_none());
}

#[test]
fn player_fields_default_when_unreadable() {
    let p = parse_player_data(" H,123,8094,TT,x,-1,+3,200,0 ", 7).unwrap();
    assert_eq!(p.name, "H");
    assert_eq!(p.uid, None);
    assert_eq!(p.color_id, -1);
    assert_eq!(p.faction_id, 3);
    assert_eq!(p.team_raw, -1);
    assert_eq!(p.slot, 7);
}

#[test]
fn test_infer_faction_from_building() {
    assert_eq!(infer_faction_from_building(2650), Some(Faction::Men));
    assert_eq!(infer_faction_from_building(2600), Some(Faction::Elves));
    assert_eq!(infer_faction_from_building(2550), Some(Faction::Dwarves));
    assert_eq!(infer_faction_from_building(2160), Some(Faction::Goblins));
    assert_eq!(infer_faction_from_building(2070), Some(Faction::Isengard));
    assert_eq!(infer_faction_from_building(2140), Some(Faction::Mordor));
}

#[test]
fn faction_from_first_known_building() {
    assert_eq!(infer_faction_from_building(2100), None);
    assert_eq!(detect_faction_from_buildings(&[2100, 2140, 2650]), Some(Faction::Mordor));
    assert_eq!(detect_faction_from_buildings(&[2001]), None);
}

#[test]
fn test_find_best_gap() {
    let mut used = [false; 10];
    used[0] = true;
    used[1] = true;
    let (start, end, len) = find_best_gap(&used);
    assert_eq!(start, 2);
    assert_eq!(end, 8);
    assert_eq!(len, 7);
}

#[test]
fn best_gap_ties_prefer_the_later_run() {
    let mut used = [false; 10];
    used[2] = true;
    used[5] = true;
    used[6] = true;
    // Free runs: 0-1, 3-4, 7-8.
    assert_eq!(find_best_gap(&used), (7, 8, 2));
    let all = [true; 10];
    assert_eq!(find_best_gap(&all), (0, 0, 0));
}

#[test]
fn test_turkish_decode() {
    let turkish_bytes = b"Test\xDD\xFD";
    let decoded = decode_with_turkish_fallback(turkish_bytes);
    assert!(decoded.contains("Test"));
}

#[test]
fn turkish_decode_exact() {
    assert_eq!(decode_with_turkish_fallback(b"Test\xDD\xFD\xE9"), "Test\u{130}\u{131}\u{e9}");
    assert_eq!(decode_with_turkish_fallback("Ağa".as_bytes()), "Ağa");
}

#[test]
fn test_parse_replay_valid_rhun() {
    let data = build_test_replay("map wor rhun", TWO_PLAYERS);
    let result = parse_replay(&data);
    assert!(result.is_ok());
    let info = result.unwrap();
    assert_eq!(info.players.len(), 2);
    assert_eq!(info.players[0].name, "Alice");
    assert_eq!(info.players[1].name, "Bob");
}

#[test]
fn test_parse_replay_unsupported_map() {
    let data = build_test_replay("fords of isen", TWO_PLAYERS);
    let result = parse_replay(&data);
    assert!(result.is_err());
    match result.unwrap_err() {
        ReplayError::UnsupportedMap(name) => assert_eq!(name, "fords of isen"),
        other => panic!("Expected UnsupportedMap, got: {:?}", other),
    }
}

#[test]
fn test_parse_replay_corrupt_data() {
    let result = parse_replay(&[0u8; 4]);
    assert!(matches!(result, Err(ReplayError::InvalidHeader)));
}

#[test]
fn test_parse_replay_bad_magic() {
    let mut data = vec![0u8; 24];
    data[..8].copy_from_slice(b"NOTMAGIC");
    let result = parse_replay(&data);
    assert!(matches!(result, Err(ReplayError::InvalidHeader)));
}

#[test]
fn test_parse_replay_no_players() {
    let data = build_test_replay("map wor rhun", "X:X:X:X");
    let result = parse_replay(&data);
    assert!(matches!(result, Err(ReplayError::NoPlayers)));
}

#[test]
fn test_char_safe_name_slicing() {
    let player = parse_player_data("HTest,12345678,8094,TT,0,-1,0,0,0,1,0", 0).unwrap();
    assert_eq!(player.name, "Test");
}

#[test]
fn bad_magic_wins_over_a_good_header() {
    let mut data = build_test_replay("map wor rhun", TWO_PLAYERS);
    data[0] = b'X';
    assert!(matches!(parse_replay(&data), Err(ReplayError::InvalidHeader)));
    let short = b"BFME2RPL0123456789abcde".to_vec();
    assert!(matches!(parse_replay(&short), Err(ReplayError::InvalidHeader)));
}

#[test]
fn missing_map_name_is_a_parse_error() {
    let mut data = Vec::new();
    data.extend_from_slice(b"BFME2RPL");
    data.extend_from_slice(&[0u8; 8]);
    data.extend_from_slice(b";S=HAlice,12345678,8094,TT,0,-1,0,0,0,1,0");
    data.push(0);
    match parse_replay(&data) {
        Err(ReplayError::ParseError(msg)) => assert_eq!(msg, "Could not find map name"),
        other => panic!("Expected ParseError, got: {:?}", other),
    }
}

#[test]
fn map_name_match_ignores_case() {
    let data = build_test_replay("MAP WOR RHUN", TWO_PLAYERS);
    let info = parse_replay(&data).unwrap();
    assert_eq!(info.map_name, "MAP WOR RHUN");
}

#[test]
fn header_fields_and_spectators() {
    let data = build_test_replay(
        "map wor rhun",
        "HAlice,12345678,8094,TT,-1,-1,-1,0,0,1,0:X:HSpec,11111111,8094,TT,3,-1,0,-1,0:HBob,87654321,8094,TT,-1,-1,4,5,0,1,0;T=1",
    );
    let info = parse_replay(&data).unwrap();
    assert_eq!(info.start_time, Some(1700000000));
    assert_eq!(info.end_time, Some(1700001000));
    assert_eq!(info.players.len(), 2);
    assert_eq!(info.spectators.len(), 1);
    assert_eq!(info.spectators[0].name, "Spec");
    assert_eq!(info.players[0].slot, 0);
    assert_eq!(info.players[1].slot, 3);
    assert_eq!(info.players[0].faction, Faction::Random);
    assert_eq!(info.players[1].faction, Faction::Elves);
    // Teams 0 and 5 become 1 and 2 (no positions, so no side remap).
    assert_eq!(info.players[0].team, 1);
    assert_eq!(info.players[1].team, 2);
    // Both colors random, nothing used: the run 0-8 starts the cursor at 0.
    assert_eq!(info.players[0].color_id, 0);
    assert_eq!(info.players[1].color_id, 1);
    assert_eq!(info.players[0].color_rgb, [70, 91, 156]);
}

#[test]
fn random_colors_fill_from_the_best_gap() {
    let data = build_test_replay(
        "map wor rhun",
        "HA,12345678,1,TT,0,-1,0,0,0:HB,12345678,1,TT,-1,-1,0,0,0:HC,12345678,1,TT,1,-1,0,1,0:HD,12345678,1,TT,-1,-1,0,1,0",
    );
    let info = parse_replay(&data).unwrap();
    let colors: Vec<i8> = info.players.iter().map(|p| p.color_id).collect();
    assert_eq!(colors, vec![0, 2, 1, 3]);
}

#[test]
fn crash_when_no_end_or_defeat() {
    let mut data = build_test_replay("map wor rhun", TWO_PLAYERS);
    data.extend_from_slice(&build_at(50, 3, 1000.0, 1000.0, 2650));
    data.extend_from_slice(&[0u8; 16]);
    let info = parse_replay(&data).unwrap();
    assert_eq!(info.winner, Winner::NotConcluded);
    assert!(info.game_crashed);
    assert_eq!(info.estimated_duration_secs, Some(10));
    assert_eq!(info.players[0].actual_faction, Some(Faction::Men));
}

#[test]
fn end_game_of_a_left_player_is_a_left_win() {
    let mut data = build_test_replay("map wor rhun", TWO_PLAYERS);
    data.extend_from_slice(&build_at(10, 3, 1000.0, 1000.0, 2650));
    data.extend_from_slice(&build_at(12, 4, 4000.0, 1000.0, 2600));
    data.extend_from_slice(&chunk(20, 29, 3, &[], &[]));
    data.extend_from_slice(&[0u8; 16]);
    let info = parse_replay(&data).unwrap();
    assert_eq!(info.winner, Winner::LeftTeam);
    assert!(!info.game_crashed);
    assert_eq!(info.players[0].team, 1);
    assert_eq!(info.players[1].team, 2);
    assert_eq!(info.players[1].actual_faction, Some(Faction::Elves));
    let pos = info.players[0].map_position.unwrap();
    assert_eq!(pos.x_bits, 1000.0f32.to_bits());
}

#[test]
fn full_team_defeat_gives_the_other_side() {
    let mut data = build_test_replay("map wor rhun", TWO_PLAYERS);
    data.extend_from_slice(&build_at(10, 3, 1000.0, 1000.0, 2650));
    data.extend_from_slice(&build_at(12, 4, 4000.0, 1000.0, 2600));
    data.extend_from_slice(&chunk(30, 1096, 3, &[], &[]));
    data.extend_from_slice(&[0u8; 16]);
    let info = parse_replay(&data).unwrap();
    assert_eq!(info.winner, Winner::RightTeam);
    assert!(!info.game_crashed);
}

#[test]
fn majority_defeat_is_a_likely_win() {
    let data_players = "HA,12345678,1,TT,0,-1,0,0,0:HB,12345678,1,TT,1,-1,0,0,0:HC,12345678,1,TT,2,-1,0,1,0:HD,12345678,1,TT,3,-1,0,1,0";
    let mut data = build_test_replay("map wor rhun", data_players);
    data.extend_from_slice(&build_at(10, 3, 1000.0, 1000.0, 2650));
    data.extend_from_slice(&build_at(12, 5, 4000.0, 1000.0, 2600));
    data.extend_from_slice(&chunk(30, 1096, 3, &[], &[]));
    data.extend_from_slice(&[0u8; 16]);
    let info = parse_replay(&data).unwrap();
    assert_eq!(info.winner, Winner::LikelyRightTeam);
}

#[test]
fn raw_scan_recovers_a_trailing_end_game() {
    // The end-game record is the last 13 bytes: the chunk decoder stops
    // before it, the pattern scan finds it.
    let mut data = build_test_replay("map wor rhun", TWO_PLAYERS);
    data.extend_from_slice(&build_at(10, 4, 4000.0, 1000.0, 2600));
    data.extend_from_slice(&chunk(20, 29, 4, &[], &[]));
    let info = parse_replay(&data).unwrap();
    assert_eq!(info.winner, Winner::RightTeam);
}

#[test]
fn decoding_twice_gives_the_same_result() {
    let mut data = build_test_replay("map wor rhun", TWO_PLAYERS);
    data.extend_from_slice(&build_at(10, 3, 1000.0, 1000.0, 2650));
    data.extend_from_slice(&chunk(20, 29, 3, &[], &[]));
    data.extend_from_slice(&[0u8; 16]);
    let a = parse_replay(&data).unwrap();
    let b = parse_replay(&data).unwrap();
    assert_eq!(format!("{:?}", a), format!("{:?}", b));
}

#[test]
fn map_field_with_invalid_text_is_passed_over() {
    let mut data = Vec::new();
    data.extend_from_slice(b"BFME2RPL");
    data.extend_from_slice(&[0u8; 8]);
    data.extend_from_slice(b"M=\xff\xfe;");
    data.extend_from_slice(b"M=maps/map wor rhun;S=HAlice,12345678,8094,TT,0,-1,0,0,0,1,0");
    data.push(0);
    let info = parse_replay(&data).unwrap();
    assert_eq!(info.map_name, "map wor rhun");
    assert_eq!(info.start_time, Some(0));
}

#[test]
fn lobby_names_in_the_turkish_code_page() {
    let mut data = Vec::new();
    data.extend_from_slice(b"BFME2RPL");
    data.extend_from_slice(&[0u8; 8]);
    data.extend_from_slice(b"M=maps/map wor rhun;S=H\xDDlker,12345678,8094,TT,0,-1,0,0,0,1,0");
    data.push(0);
    let info = parse_replay(&data).unwrap();
    assert_eq!(info.players[0].name, "\u{130}lker");
}

#[test]
fn no_stream_means_no_outcome() {
    // Without a NUL after the lobby table there is no command stream.
    let mut data = Vec::new();
    data.extend_from_slice(b"BFME2RPL");
    data.extend_from_slice(&[0u8; 8]);
    data.extend_from_slice(b"M=maps/map wor rhun;S=HAlice,12345678,8094,TT,0,-1,0,0,0,1,0");
    let info = parse_replay(&data).unwrap();
    assert_eq!(info.winner, Winner::Unknown);
    assert!(!info.game_crashed);
    assert_eq!(info.estimated_duration_secs, None);
}
