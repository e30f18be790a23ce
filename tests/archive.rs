use dcreplaybot::archive::has_replay_extension;
use dcreplaybot::bot::lowercase_attachment_kind;
use dcreplaybot::parser::lowercase_name_is_supported;
use dcreplaybot::archive::{
    is_replay_file_name, short_name, should_read_replay, EntryDecision, UnpackQuota, ZipQuota,
    MAX_SINGLE_REPLAY_BYTES,
};
use dcreplaybot::bot::{
    attachment_kind, attachment_too_large, batch_len, cap_note, on_cooldown, pending_expired,
    pending_has_room, show_more_id, show_more_key, showing_line, AttachmentKind,
};

#[test]
fn replay_names_in_any_case() {
    assert!(is_replay_file_name("game1.BfME2Replay"));
    assert!(is_replay_file_name("dir/GAME.BFME2REPLAY"));
    assert!(!is_replay_file_name("readme.txt"));
    assert!(!is_replay_file_name(".bfme2replay.zip"));
}

#[test]
fn short_names_drop_directories() {
    assert_eq!(short_name("a/b\\c.BfME2Replay"), "c.BfME2Replay");
    assert_eq!(short_name("plain"), "plain");
    assert_eq!(short_name("dir/"), "");
}

#[test]
fn zip_quota_skips_counts_and_stops() {
    let mut q = ZipQuota::new();
    assert_eq!(q.decide("readme.txt", false, 10), EntryDecision::Skip);
    assert_eq!(q.total, 0);
    assert_eq!(q.decide("x.bfme2replay", true, 10), EntryDecision::Skip);
    assert_eq!(q.decide("big.bfme2replay", false, MAX_SINGLE_REPLAY_BYTES + 1), EntryDecision::Skip);
    assert_eq!(q.total, 1);
    assert_eq!(q.decide("a.BfME2Replay", false, 100), EntryDecision::Extract);
    q.record_taken();
    assert_eq!(q.total, 2);
    assert_eq!(q.taken, 1);
    assert_eq!(q.bytes, 100);
    q.bytes = 524_288_000 - 50;
    assert_eq!(q.decide("b.BfME2Replay", false, 100), EntryDecision::Stop);
    assert_eq!(q.decide("c.BfME2Replay", false, 1), EntryDecision::Stop);
}

#[test]
fn zip_quota_caps_the_number_of_replays() {
    let mut q = ZipQuota::new();
    for _ in 0..100 {
        assert_eq!(q.decide("r.bfme2replay", false, 1), EntryDecision::Extract);
        q.record_taken();
    }
    assert_eq!(q.decide("r.bfme2replay", false, 1), EntryDecision::Skip);
    assert_eq!(q.total, 101);
    assert_eq!(q.taken, 100);
}

#[test]
fn unpack_quota_limits_files_and_bytes() {
    let mut q = UnpackQuota::new();
    for _ in 0..200 {
        assert!(q.allow_file(1));
    }
    assert!(!q.allow_file(1));
    let mut q = UnpackQuota::new();
    assert!(!q.allow_file(524_288_001));
    assert!(!q.allow_file(u64::MAX));
    assert_eq!(q.bytes, u64::MAX);
}

#[test]
fn unpacked_replays_read_under_the_caps() {
    assert!(should_read_replay(0, 10));
    assert!(!should_read_replay(100, 10));
    assert!(!should_read_replay(0, MAX_SINGLE_REPLAY_BYTES + 1));
}

#[test]
fn attachment_kinds_and_sizes() {
    assert_eq!(attachment_kind("Game.BfME2Replay"), AttachmentKind::Replay);
    assert_eq!(attachment_kind("pack.ZIP"), AttachmentKind::Zip);
    assert_eq!(attachment_kind("pack.rar"), AttachmentKind::Rar);
    assert_eq!(attachment_kind("notes.txt"), AttachmentKind::Other);
    assert!(attachment_too_large(AttachmentKind::Replay, 5 * 1024 * 1024 + 1));
    assert!(!attachment_too_large(AttachmentKind::Replay, 5 * 1024 * 1024));
    assert!(attachment_too_large(AttachmentKind::Zip, 25 * 1024 * 1024 + 1));
    assert!(!attachment_too_large(AttachmentKind::Other, u64::MAX));
}

#[test]
fn batches_cooldowns_and_pending_entries() {
    assert_eq!(batch_len(3), 3);
    assert_eq!(batch_len(25), 10);
    assert!(on_cooldown(1));
    assert!(!on_cooldown(2));
    assert!(!pending_expired(899));
    assert!(pending_expired(900));
    assert!(pending_has_room(49));
    assert!(!pending_has_room(50));
}

#[test]
fn batch_texts() {
    assert_eq!(showing_line(10, 25), "Showing 10 of 25 replays");
    assert_eq!(cap_note(120, 100), Some("Found 120 replays, processing first 100".to_string()));
    assert_eq!(cap_note(5, 5), None);
    assert_eq!(show_more_id("1_2_0"), "show_more:1_2_0");
    assert_eq!(show_more_key("show_more:1_2_0"), Some("1_2_0".to_string()));
    assert_eq!(show_more_key("other:1"), None);
    assert_eq!(show_more_key("show"), None);
}

#[test]
fn lowercase_name_checks() {
    assert!(lowercase_name_is_supported("385maps/map wor rhun"));
    assert!(!lowercase_name_is_supported("Map Wor Rhun"));
    assert!(!lowercase_name_is_supported("fords of isen"));
    assert!(has_replay_extension("x.bfme2replay"));
    assert!(!has_replay_extension("x.BfME2Replay"));
    assert_eq!(lowercase_attachment_kind("a.zip"), AttachmentKind::Zip);
    assert_eq!(lowercase_attachment_kind("a.ZIP"), AttachmentKind::Other);
}
