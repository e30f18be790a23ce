use vstd::prelude::*;
use crate::text::{chars_to_string, lower_of, lowercase, str_chars};

verus! {

/// Most replays taken from one archive.
pub const MAX_REPLAYS_PER_ARCHIVE: usize = 100;
/// Most bytes unpacked from one archive.
pub const MAX_ARCHIVE_UNCOMPRESSED_BYTES: u64 = 524_288_000;
/// Most files unpacked from one archive.
pub const MAX_ARCHIVE_EXTRACTED_FILES: usize = 200;
/// Largest replay file taken.
pub const MAX_SINGLE_REPLAY_BYTES: u64 = 5_242_880;

/// The file name extension of a replay, in lower case: ".bfme2replay".
pub open spec fn replay_extension() -> Seq<char> {
    seq!['.', 'b', 'f', 'm', 'e', '2', 'r', 'e', 'p', 'l', 'a', 'y']
}

/// True when `s` ends with `suffix`.
pub open spec fn ends_with(s: Seq<char>, suffix: Seq<char>) -> bool {
    s.len() >= suffix.len() && s.subrange(s.len() - suffix.len(), s.len() as int) == suffix
}

/// True when a file name has the replay extension, in any case.
pub open spec fn is_replay_name(name: Seq<char>) -> bool {
    ends_with(lower_of(name), replay_extension())
}

fn chars_end_with(s: &Vec<char>, suffix: &Vec<char>) -> (r: bool)
    ensures
        r == ends_with(s@, suffix@),
{
    if suffix.len() > s.len() {
        return false;
    }
    let sl = s.len();
    let off = sl - suffix.len();
    let mut k: usize = 0;
    while k < suffix.len()
        invariant
            k <= suffix@.len(),
            sl == s@.len(),
            off + suffix@.len() == s@.len(),
            forall|j: int| 0 <= j < k ==> s@[off + j] == suffix@[j],
        decreases suffix@.len() - k,
    {
        if s[off + k] != suffix[k] {
            assert(s@.subrange(off as int, s@.len() as int)[k as int] != suffix@[k as int]);
            return false;
        }
        k = k + 1;
    }
    assert(s@.subrange(off as int, s@.len() as int) =~= suffix@);
    true
}

/// Whether a file name already in lower case ends with the replay extension.
pub fn has_replay_extension(lower: &str) -> (r: bool)
    ensures
        r == ends_with(lower@, replay_extension()),
{
    let chars = str_chars(lower);
    let ext = vec!['.', 'b', 'f', 'm', 'e', '2', 'r', 'e', 'p', 'l', 'a', 'y'];
    assert(ext@ =~= replay_extension());
    chars_end_with(&chars, &ext)
}

/// Whether an archive entry or a file is a replay, by its name.
pub fn is_replay_file_name(name: &str) -> (r: bool)
    ensures
        r == is_replay_name(name@),
{
    let lower = lowercase(name);
    has_replay_extension(lower.as_str())
}

/// What follows the last `/` or `\` of a path (all of it when there is none).
pub open spec fn base_name(s: Seq<char>) -> Seq<char>
    decreases s.len(),
{
    if s.len() == 0 {
        s
    } else if s.last() == '/' || s.last() == '\\' {
        Seq::empty()
    } else {
        base_name(s.drop_last()).push(s.last())
    }
}

proof fn lemma_base_name_from(s: Seq<char>, k: int)
    requires
        0 <= k <= s.len(),
        k == 0 || s[k - 1] == '/' || s[k - 1] == '\\',
        forall|j: int| k <= j < s.len() ==> s[j] != '/' && s[j] != '\\',
    ensures
        base_name(s) == s.subrange(k, s.len() as int),
    decreases s.len(),
{
    if s.len() == k {
        if k > 0 {
            assert(base_name(s) == Seq::<char>::empty());
        }
        assert(s.subrange(k, s.len() as int) =~= Seq::<char>::empty());
    } else {
        lemma_base_name_from(s.drop_last(), k);
        assert(s.drop_last().subrange(k, s.len() - 1).push(s.last()) =~= s.subrange(k, s.len() as int));
    }
}

/// The file name of an archive entry without its directories.
pub fn short_name(name: &str) -> (r: String)
    ensures
        r@ == base_name(name@),
{
    let chars = str_chars(name);
    let mut start: usize = chars.len();
    while start > 0 && chars[start - 1] != '/' && chars[start - 1] != '\\'
        invariant
            start <= chars@.len(),
            forall|j: int| start <= j < chars@.len() ==> chars@[j] != '/' && chars@[j] != '\\',
        decreases start,
    {
        start = start - 1;
    }
    let mut out: Vec<char> = Vec::new();
    let mut k = start;
    while k < chars.len()
        invariant
            start <= k <= chars@.len(),
            out@ == chars@.subrange(start as int, k as int),
        decreases chars@.len() - k,
    {
        out.push(chars[k]);
        k = k + 1;
        assert(out@ =~= chars@.subrange(start as int, k as int));
    }
    proof {
        lemma_base_name_from(chars@, start as int);
    }
    chars_to_string(out.as_slice())
}

/// What to do with one entry of an archive.
#[derive(Debug, Clone, Copy, PartialEq, Eq, Structural)]
pub enum EntryDecision {
    /// Leave the entry out and go on.
    Skip,
    /// Read the entry (at most the largest replay size of it).
    Extract,
    /// Stop reading the archive.
    Stop,
}

/// The quotas of reading replays out of a ZIP archive: how many replays were
/// found and taken and how many bytes were accepted.
#[derive(Debug, Clone, Copy)]
pub struct ZipQuota {
    /// Replays found, taken or not.
    pub total: usize,
    /// Replays taken.
    pub taken: usize,
    /// Bytes accepted so far.
    pub bytes: u64,
    /// Whether the byte limit was passed.
    pub stopped: bool,
}

impl ZipQuota {
    pub open spec fn wf(&self) -> bool {
        &&& !self.stopped ==> self.bytes <= MAX_ARCHIVE_UNCOMPRESSED_BYTES
        &&& self.taken <= self.total
    }

    pub fn new() -> (r: ZipQuota)
        ensures
            r.wf(),
            r.total == 0 && r.taken == 0 && r.bytes == 0 && !r.stopped,
    {
        ZipQuota { total: 0, taken: 0, bytes: 0, stopped: false }
    }

    /// Decides on an entry named `name` of `size` bytes: entries that are
    /// directories or not replays are skipped uncounted; a replay is counted,
    /// and skipped when the replay cap is reached or it is too large;
    /// otherwise its size is accepted, and passing the byte limit stops the
    /// whole archive.
    pub fn decide(&mut self, name: &str, is_dir: bool, size: u64) -> (r: EntryDecision)
        requires
            old(self).wf(),
            old(self).total < usize::MAX,
        ensures
            final(self).wf(),
            final(self).taken == old(self).taken,
            old(self).stopped ==> r == EntryDecision::Stop && *final(self) == *old(self),
            !old(self).stopped && (is_dir || !is_replay_name(name@)) ==> r == EntryDecision::Skip
                && *final(self) == *old(self),
            !old(self).stopped && !is_dir && is_replay_name(name@) ==> {
                &&& final(self).total == old(self).total + 1
                &&& (old(self).taken >= MAX_REPLAYS_PER_ARCHIVE || size > MAX_SINGLE_REPLAY_BYTES)
                    ==> r == EntryDecision::Skip && final(self).bytes == old(self).bytes
                    && !final(self).stopped
                &&& (old(self).taken < MAX_REPLAYS_PER_ARCHIVE && size <= MAX_SINGLE_REPLAY_BYTES)
                    ==> {
                    &&& final(self).bytes == old(self).bytes + size
                    &&& final(self).stopped == (old(self).bytes + size > MAX_ARCHIVE_UNCOMPRESSED_BYTES)
                    &&& r == if final(self).stopped {
                        EntryDecision::Stop
                    } else {
                        EntryDecision::Extract
                    }
                }
            },
    {
        if self.stopped {
            return EntryDecision::Stop;
        }
        if is_dir || !is_replay_file_name(name) {
            return EntryDecision::Skip;
        }
        self.total = self.total + 1;
        if self.taken >= MAX_REPLAYS_PER_ARCHIVE || size > MAX_SINGLE_REPLAY_BYTES {
            return EntryDecision::Skip;
        }
        self.bytes = self.bytes + size;
        if self.bytes > MAX_ARCHIVE_UNCOMPRESSED_BYTES {
            self.stopped = true;
            return EntryDecision::Stop;
        }
        EntryDecision::Extract
    }

    /// Records that an accepted replay was read.
    pub fn record_taken(&mut self)
        requires
            old(self).wf(),
            old(self).taken < old(self).total,
        ensures
            final(self).wf(),
            *final(self) == (ZipQuota { taken: (old(self).taken + 1) as usize, ..*old(self) }),
    {
        self.taken = self.taken + 1;
    }
}

/// The limits on unpacking a RAR archive: files and bytes unpacked so far.
#[derive(Debug, Clone, Copy)]
pub struct UnpackQuota {
    pub files: usize,
    pub bytes: u64,
}

impl UnpackQuota {
    pub fn new() -> (r: UnpackQuota)
        ensures
            r.files == 0 && r.bytes == 0,
    {
        UnpackQuota { files: 0, bytes: 0 }
    }

    /// Counts one more file of `unpacked` bytes (the byte count saturates) and
    /// tells whether it may still be unpacked: false once more than the
    /// largest number of files or bytes would be unpacked.
    pub fn allow_file(&mut self, unpacked: u64) -> (r: bool)
        requires
            old(self).files < usize::MAX,
        ensures
            final(self).files == old(self).files + 1,
            final(self).bytes == if old(self).bytes + unpacked > u64::MAX {
                u64::MAX as int
            } else {
                old(self).bytes + unpacked
            },
            r == (final(self).bytes <= MAX_ARCHIVE_UNCOMPRESSED_BYTES && final(self).files
                <= MAX_ARCHIVE_EXTRACTED_FILES),
    {
        self.files = self.files + 1;
        self.bytes = self.bytes.saturating_add(unpacked);
        self.bytes <= MAX_ARCHIVE_UNCOMPRESSED_BYTES && self.files <= MAX_ARCHIVE_EXTRACTED_FILES
    }
}

/// Whether an unpacked replay file is read: only while fewer replays than the
/// cap were taken, and only when it is not too large.
pub fn should_read_replay(taken: usize, size: u64) -> (r: bool)
    ensures
        r == (taken < MAX_REPLAYS_PER_ARCHIVE && size <= MAX_SINGLE_REPLAY_BYTES),
{
    taken < MAX_REPLAYS_PER_ARCHIVE && size <= MAX_SINGLE_REPLAY_BYTES
}

} // verus!
