use vstd::prelude::*;
use crate::archive::ends_with;
use crate::text::{chars_to_string, dec, lower_of, lowercase, push_chars, push_dec, str_chars};

verus! {

/// Most replays rendered per message.
pub const BATCH_SIZE: usize = 10;
/// Most pending "show more" entries over all channels.
pub const MAX_PENDING_ENTRIES: usize = 50;
/// Seconds a channel waits between two handled messages.
pub const COOLDOWN_SECS: u64 = 2;
/// Seconds a pending "show more" entry lives.
pub const PENDING_EXPIRY_SECS: u64 = 900;
/// Largest attached replay file.
pub const MAX_ATTACHED_REPLAY_BYTES: u64 = 5_242_880;
/// Largest attached archive.
pub const MAX_ARCHIVE_BYTES: u64 = 26_214_400;

/// What an attachment is, by its file name.
#[derive(Debug, Clone, Copy, PartialEq, Eq, Structural)]
pub enum AttachmentKind {
    Replay,
    Zip,
    Rar,
    Other,
}

/// ".bfme2replay", ".zip" and ".rar".
pub open spec fn ext_replay() -> Seq<char> {
    seq!['.', 'b', 'f', 'm', 'e', '2', 'r', 'e', 'p', 'l', 'a', 'y']
}

pub open spec fn ext_zip() -> Seq<char> {
    seq!['.', 'z', 'i', 'p']
}

pub open spec fn ext_rar() -> Seq<char> {
    seq!['.', 'r', 'a', 'r']
}

/// The kind of an attachment, from the extension of its name in any case.
pub open spec fn kind_of_name(name: Seq<char>) -> AttachmentKind {
    kind_of_lowercase_name(lower_of(name))
}

/// The kind of an attachment, from its name in lower case.
pub open spec fn kind_of_lowercase_name(l: Seq<char>) -> AttachmentKind {
    if ends_with(l, ext_replay()) {
        AttachmentKind::Replay
    } else if ends_with(l, ext_zip()) {
        AttachmentKind::Zip
    } else if ends_with(l, ext_rar()) {
        AttachmentKind::Rar
    } else {
        AttachmentKind::Other
    }
}

fn ends_with_chars(s: &Vec<char>, suffix: &[char]) -> (r: bool)
    ensures
        r == ends_with(s@, suffix@),
{
    let sl = s.len();
    if suffix.len() > sl {
        return false;
    }
    let off = sl - suffix.len();
    let mut k: usize = 0;
    while k < suffix.len()
        invariant
            k <= suffix@.len(),
            sl == s@.len(),
            off + suffix@.len() == s@.len(),
            forall|j: int| 0 <= j < k ==> s@[off + j] == suffix@[j],
        decreases suffix@.len() - k,
    {
        if s[off + k] != suffix[k] {
            assert(s@.subrange(off as int, s@.len() as int)[k as int] != suffix@[k as int]);
            return false;
        }
        k = k + 1;
    }
    assert(s@.subrange(off as int, s@.len() as int) =~= suffix@);
    true
}

/// Classifies an attachment by the extension of its file name.
pub fn attachment_kind(filename: &str) -> (r: AttachmentKind)
    ensures
        r == kind_of_name(filename@),
{
    let lower = lowercase(filename);
    lowercase_attachment_kind(lower.as_str())
}

/// Classifies an attachment by the extension of its file name in lower case.
pub fn lowercase_attachment_kind(lower: &str) -> (r: AttachmentKind)
    ensures
        r == kind_of_lowercase_name(lower@),
{
    let l = str_chars(lower);
    let replay = ['.', 'b', 'f', 'm', 'e', '2', 'r', 'e', 'p', 'l', 'a', 'y'];
    let zip = ['.', 'z', 'i', 'p'];
    let rar = ['.', 'r', 'a', 'r'];
    assert(replay@ =~= ext_replay());
    assert(zip@ =~= ext_zip());
    assert(rar@ =~= ext_rar());
    if ends_with_chars(&l, &replay) {
        AttachmentKind::Replay
    } else if ends_with_chars(&l, &zip) {
        AttachmentKind::Zip
    } else if ends_with_chars(&l, &rar) {
        AttachmentKind::Rar
    } else {
        AttachmentKind::Other
    }
}

/// Whether an attachment of this kind and size is too large to handle.
pub fn attachment_too_large(kind: AttachmentKind, size: u64) -> (r: bool)
    ensures
        r == match kind {
            AttachmentKind::Replay => size > MAX_ATTACHED_REPLAY_BYTES,
            AttachmentKind::Zip | AttachmentKind::Rar => size > MAX_ARCHIVE_BYTES,
            AttachmentKind::Other => false,
        },
{
    match kind {
        AttachmentKind::Replay => size > MAX_ATTACHED_REPLAY_BYTES,
        AttachmentKind::Zip | AttachmentKind::Rar => size > MAX_ARCHIVE_BYTES,
        AttachmentKind::Other => false,
    }
}

/// How many of `n` waiting replays go into the next message.
pub fn batch_len(n: usize) -> (r: usize)
    ensures
        r == if n < BATCH_SIZE {
            n
        } else {
            BATCH_SIZE
        },
{
    if n < BATCH_SIZE {
        n
    } else {
        BATCH_SIZE
    }
}

/// Whether a channel last served `elapsed_secs` ago is still cooling down.
pub fn on_cooldown(elapsed_secs: u64) -> (r: bool)
    ensures
        r == (elapsed_secs < COOLDOWN_SECS),
{
    elapsed_secs < COOLDOWN_SECS
}

/// Whether a pending entry created `age_secs` ago has expired.
pub fn pending_expired(age_secs: u64) -> (r: bool)
    ensures
        r == (age_secs >= PENDING_EXPIRY_SECS),
{
    age_secs >= PENDING_EXPIRY_SECS
}

/// Whether another pending entry may be stored next to `pending` ones.
pub fn pending_has_room(pending: usize) -> (r: bool)
    ensures
        r == (pending < MAX_PENDING_ENTRIES),
{
    pending < MAX_PENDING_ENTRIES
}

/// "Showing {shown} of {total} replays".
pub open spec fn showing_text(shown: nat, total: nat) -> Seq<char> {
    "Showing "@ + dec(shown) + " of "@ + dec(total) + " replays"@
}

/// The progress line of a batch message.
pub fn showing_line(shown: usize, total: usize) -> (r: String)
    ensures
        r@ == showing_text(shown as nat, total as nat),
{
    let mut out = str_chars("Showing ");
    push_dec(&mut out, shown as u64);
    let of = str_chars(" of ");
    push_chars(&mut out, of.as_slice());
    push_dec(&mut out, total as u64);
    let tail = str_chars(" replays");
    push_chars(&mut out, tail.as_slice());
    chars_to_string(out.as_slice())
}

/// "Found {total} replays, processing first {taken}".
pub open spec fn cap_note_text(total: nat, taken: nat) -> Seq<char> {
    "Found "@ + dec(total) + " replays, processing first "@ + dec(taken)
}

/// The note for an archive that held more replays than were taken.
pub fn cap_note(total: usize, taken: usize) -> (r: Option<String>)
    ensures
        total <= taken ==> r is None,
        total > taken ==> (r matches Some(s) && s@ == cap_note_text(total as nat, taken as nat)),
{
    if total <= taken {
        return None;
    }
    let mut out = str_chars("Found ");
    push_dec(&mut out, total as u64);
    let mid = str_chars(" replays, processing first ");
    push_chars(&mut out, mid.as_slice());
    push_dec(&mut out, taken as u64);
    Some(chars_to_string(out.as_slice()))
}

/// The prefix of the id of a "show more" button.
pub open spec fn show_more_prefix() -> Seq<char> {
    seq!['s', 'h', 'o', 'w', '_', 'm', 'o', 'r', 'e', ':']
}

/// The id of the "show more" button for a pending key.
pub fn show_more_id(key: &str) -> (r: String)
    ensures
        r@ == show_more_prefix() + key@,
{
    let mut out = vec!['s', 'h', 'o', 'w', '_', 'm', 'o', 'r', 'e', ':'];
    let k = str_chars(key);
    push_chars(&mut out, k.as_slice());
    assert(out@ =~= show_more_prefix() + key@);
    chars_to_string(out.as_slice())
}

/// The pending key in the id of a "show more" button, if it is one.
pub fn show_more_key(custom_id: &str) -> (r: Option<String>)
    ensures
        custom_id@.len() >= 10 && custom_id@.subrange(0, 10) == show_more_prefix() ==> (r matches Some(
            k,
        ) && k@ == custom_id@.subrange(10, custom_id@.len() as int)),
        !(custom_id@.len() >= 10 && custom_id@.subrange(0, 10) == show_more_prefix()) ==> r is None,
{
    let c = str_chars(custom_id);
    let prefix = vec!['s', 'h', 'o', 'w', '_', 'm', 'o', 'r', 'e', ':'];
    assert(prefix@ =~= show_more_prefix());
    if c.len() < 10 {
        return None;
    }
    let mut k: usize = 0;
    while k < 10
        invariant
            k <= 10,
            c@.len() >= 10,
            c@ == custom_id@,
            prefix@ == show_more_prefix(),
            forall|j: int| 0 <= j < k ==> c@[j] == prefix@[j],
        decreases 10 - k,
    {
        if c[k] != prefix[k] {
            assert(c@.subrange(0, 10)[k as int] != show_more_prefix()[k as int]);
            assert(custom_id@.subrange(0, 10) != show_more_prefix());
            return None;
        }
        k = k + 1;
    }
    assert(c@.subrange(0, 10) =~= show_more_prefix());
    let mut out: Vec<char> = Vec::new();
    let mut i: usize = 10;
    while i < c.len()
        invariant
            10 <= i <= c@.len(),
            out@ == c@.subrange(10, i as int),
        decreases c@.len() - i,
    {
        out.push(c[i]);
        i = i + 1;
        assert(out@ =~= c@.subrange(10, i as int));
    }
    Some(chars_to_string(out.as_slice()))
}

} // verus!
