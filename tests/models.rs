use dcreplaybot::models::{
    days_to_ymd, is_leap_year, player_color, Faction, MapPosition, ReplayError, ReplayInfo,
    StartPosition, Winner,
};
use dcreplaybot::summary::{display_file_name, outcome_line, OutcomeTone};

fn make_replay() -> ReplayInfo {
    ReplayInfo::new("map wor rhun".to_string(), vec![])
}

#[test]
fn test_normal_game_duration() {
    let info = make_replay().with_times(1000, 1817);
    assert_eq!(info.duration_seconds(), Some(817));
    assert!(!info.is_duration_estimated());
    assert_eq!(info.duration_formatted(), "13:37");
}

#[test]
fn test_crashed_game_estimated_duration() {
    let info = make_replay()
        .with_times(1000, 1000)
        .with_estimated_duration(Some(780));
    assert_eq!(info.duration_seconds(), Some(780));
    assert!(info.is_duration_estimated());
    assert_eq!(info.duration_formatted(), "~13:00");
}

#[test]
fn test_crashed_game_no_chunks() {
    let info = make_replay().with_times(1000, 1000);
    assert_eq!(info.duration_seconds(), None);
    assert!(!info.is_duration_estimated());
    assert_eq!(info.duration_formatted(), "Unknown");
}

#[test]
fn test_normal_game_ignores_estimate() {
    let info = make_replay()
        .with_times(1000, 1817)
        .with_estimated_duration(Some(780));
    assert_eq!(info.duration_seconds(), Some(817));
    assert!(!info.is_duration_estimated());
    assert_eq!(info.duration_formatted(), "13:37");
}

#[test]
fn test_estimated_duration_with_hours() {
    let info = make_replay()
        .with_times(1000, 1000)
        .with_estimated_duration(Some(3661));
    assert_eq!(info.duration_formatted(), "~1:01:01");
}

#[test]
fn duration_with_hours_from_header() {
    let info = make_replay().with_times(0, 7325);
    assert_eq!(info.duration_formatted(), "2:02:05");
}

#[test]
fn start_date_formats_epoch_and_later_dates() {
    assert_eq!(make_replay().with_times(0, 0).start_date_formatted(), "1970-01-01 00:00");
    assert_eq!(
        make_replay().with_times(1700000000, 1700001000).start_date_formatted(),
        "2023-11-14 22:13"
    );
    assert_eq!(
        make_replay().with_times(951782400, 951782400).start_date_formatted(),
        "2000-02-29 00:00"
    );
    assert_eq!(make_replay().start_date_formatted(), "Unknown");
}

#[test]
fn days_to_ymd_known_days() {
    assert_eq!(days_to_ymd(0), (1970, 1, 1));
    assert_eq!(days_to_ymd(59), (1970, 3, 1));
    assert_eq!(days_to_ymd(365), (1971, 1, 1));
    assert_eq!(days_to_ymd(789), (1972, 2, 29));
    assert_eq!(days_to_ymd(19675), (2023, 11, 14));
}

#[test]
fn leap_years() {
    assert!(is_leap_year(2000));
    assert!(is_leap_year(2024));
    assert!(!is_leap_year(1900));
    assert!(!is_leap_year(2023));
}

#[test]
fn faction_ids() {
    assert_eq!(Faction::from_id(-1), Faction::Random);
    assert_eq!(Faction::from_id(-5), Faction::Random);
    assert_eq!(Faction::from_id(0), Faction::Men);
    assert_eq!(Faction::from_id(1), Faction::Goblins);
    assert_eq!(Faction::from_id(2), Faction::Dwarves);
    assert_eq!(Faction::from_id(3), Faction::Isengard);
    assert_eq!(Faction::from_id(4), Faction::Elves);
    assert_eq!(Faction::from_id(5), Faction::Mordor);
    assert_eq!(Faction::from_id(6), Faction::Angmar);
    assert_eq!(Faction::from_id(9), Faction::Unknown(9));
}

#[test]
fn faction_and_error_texts() {
    assert_eq!(Faction::Men.to_text(), "Men");
    assert_eq!(Faction::Unknown(12).to_text(), "Unknown(12)");
    assert_eq!(
        ReplayError::UnsupportedMap("fords of isen".to_string()).to_text(),
        "Unsupported map: fords of isen"
    );
    assert_eq!(
        ReplayError::InvalidHeader.to_text(),
        "Invalid replay file: missing BFME2RPL header"
    );
    assert_eq!(ReplayError::NoPlayers.to_text(), "No players found in replay");
    assert_eq!(ReplayError::ParseError("x".to_string()).to_text(), "Parse error: x");
}

#[test]
fn winner_texts() {
    assert_eq!(Winner::LeftTeam.display_text(), "Left Team");
    assert_eq!(Winner::RightTeam.display_text(), "Right Team");
    assert_eq!(Winner::LikelyLeftTeam.display_text(), "Left Team (likely)");
    assert_eq!(Winner::LikelyRightTeam.display_text(), "Right Team (likely)");
    assert_eq!(Winner::NotConcluded.display_text(), "Not Concluded");
    assert_eq!(Winner::Unknown.display_text(), "Unknown");
}

#[test]
fn palette_and_positions() {
    assert_eq!(player_color(0), [70, 91, 156]);
    assert_eq!(player_color(9), [226, 226, 226]);
    assert_eq!(player_color(10), [128, 128, 128]);
    assert_eq!(player_color(-1), [128, 128, 128]);
    let zero = MapPosition::new(0.0f32.to_bits(), (-0.0f32).to_bits());
    assert!(!zero.is_valid());
    let left = MapPosition::new(2499.5f32.to_bits(), 10.0f32.to_bits());
    assert!(left.is_valid());
    assert!(left.is_left_side());
    let right = MapPosition::new(2500.0f32.to_bits(), 10.0f32.to_bits());
    assert!(!right.is_left_side());
    let negative = MapPosition::new((-3.0f32).to_bits(), 0.0f32.to_bits());
    assert!(negative.is_left_side());
    let nan = MapPosition::new(f32::NAN.to_bits(), 0.0f32.to_bits());
    assert!(nan.is_valid());
    assert!(!nan.is_left_side());
}

#[test]
fn start_positions_by_coordinates() {
    let at = |x: f32, y: f32| MapPosition::new(x.to_bits(), y.to_bits()).start_position();
    assert_eq!(at(1000.0, 3500.0), StartPosition::TopLeft);
    assert_eq!(at(1000.0, 3000.0), StartPosition::MidLeft);
    assert_eq!(at(1000.0, 1500.0), StartPosition::BottomLeft);
    assert_eq!(at(4000.0, 2000.0), StartPosition::MidRight);
    assert_eq!(at(4000.0, -5.0), StartPosition::BottomRight);
    assert_eq!(at(2500.0, 4000.0), StartPosition::TopRight);
}

#[test]
fn summary_texts() {
    assert_eq!(display_file_name("game1.BfME2Replay"), "game1");
    assert_eq!(display_file_name("a.b.bfme2replay"), "a.b");
    assert_eq!(display_file_name("notes.txt"), "notes.txt");
    assert_eq!(display_file_name(&"n".repeat(40)), "n".repeat(30));
    let crashed = make_replay().with_game_crashed(true).with_winner(Winner::NotConcluded);
    assert_eq!(
        outcome_line(&crashed),
        Some(("Winner: Not Concluded".to_string(), OutcomeTone::Crashed))
    );
    let likely = make_replay().with_winner(Winner::LikelyRightTeam);
    assert_eq!(
        outcome_line(&likely),
        Some(("Winner: Right Team (likely)".to_string(), OutcomeTone::Likely))
    );
    let certain = make_replay().with_winner(Winner::LeftTeam);
    assert_eq!(
        outcome_line(&certain),
        Some(("Winner: Left Team".to_string(), OutcomeTone::Certain))
    );
    assert_eq!(outcome_line(&make_replay()), None);
}
