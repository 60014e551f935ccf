//! Recordings kept back when saving failed, and the names under which they may be saved again.
use vstd::prelude::*;
use crate::text::{is_ascii_alnum, ascii_alnum, chars_of, starts_with_text};
use crate::sort::is_newest_first;

verus! {

/// A recording that waits in the working folder.
#[derive(Debug, Clone)]
pub struct PendingRecording {
    pub name: String,
    pub size_bytes: u64,
    pub ready: bool,
}

/// `s` ends with `suffix`.
pub open spec fn ends_with(s: Seq<char>, suffix: Seq<char>) -> bool {
    suffix.len() <= s.len() && s.subrange(s.len() - suffix.len(), s.len() as int) == suffix
}

/// `s` begins with `prefix`.
pub open spec fn starts_with(s: Seq<char>, prefix: Seq<char>) -> bool {
    prefix.len() <= s.len() && s.subrange(0, prefix.len() as int) == prefix
}

/// A character that a recording's file name may hold.
pub open spec fn is_name_char(c: char) -> bool {
    is_ascii_alnum(c) || c == '_' || c == '-' || c == '.'
}

/// `s` holds two dots in a row.
pub open spec fn has_double_dot(s: Seq<char>) -> bool {
    exists|i: int| 0 <= i && i + 1 < s.len() && #[trigger] s[i] == '.' && s[i + 1] == '.'
}

/// A name under which a kept recording may be saved: `PurpleCapture_…mp4`,
/// made of ASCII letters, digits, `_`, `-` and `.`, with no `..`.
pub open spec fn is_recording_name(s: Seq<char>) -> bool {
    &&& starts_with(s, "PurpleCapture_"@)
    &&& ends_with(s, ".mp4"@)
    &&& forall|i: int| 0 <= i < s.len() ==> is_name_char(#[trigger] s[i])
    &&& !has_double_dot(s)
}

/// Why a name is refused.
#[derive(Debug, Clone, Copy, PartialEq, Eq, Structural)]
pub enum RecoveryError {
    InvalidName,
}

/// The message shown for a [`RecoveryError`].
pub open spec fn recovery_error_text(e: RecoveryError) -> Seq<char> {
    "未保存の録画名が不正です。"@
}

impl RecoveryError {
    pub fn message(&self) -> (r: String)
        ensures
            r@ == recovery_error_text(*self),
    {
        String::from_str("未保存の録画名が不正です。")
    }
}

/// Whether `s` ends with `suffix`.
pub fn ends_with_text(s: &str, suffix: &str) -> (r: bool)
    ensures
        r == ends_with(s@, suffix@),
{
    let a = chars_of(s);
    let b = chars_of(suffix);
    if b.len() > a.len() {
        return false;
    }
    let n = a.len();
    let off = n - b.len();
    let mut i: usize = 0;
    while i < b.len()
        invariant
            n == a@.len(),
            b@.len() <= a@.len(),
            off + b@.len() == a@.len(),
            a@ == s@,
            b@ == suffix@,
            i <= b@.len(),
            forall|j: int| 0 <= j < i ==> a@[off + j] == b@[j],
        decreases b@.len() - i,
    {
        assert(i < b@.len());
        assert(off + i < a@.len());
        if a[off + i] != b[i] {
            assert(s@.subrange(off as int, s@.len() as int)[i as int] != suffix@[i as int]);
            return false;
        }
        i = i + 1;
    }
    assert(s@.subrange(off as int, s@.len() as int) =~= suffix@);
    true
}

/// Accepts only names of recordings, so that a name cannot leave the working
/// folder, name another stream of a file, or pick up a partial recording.
pub fn validate_name(name: &str) -> (r: Result<(), RecoveryError>)
    ensures
        r is Ok <==> is_recording_name(name@),
{
    if !starts_with_text(name, "PurpleCapture_") || !ends_with_text(name, ".mp4") {
        return Err(RecoveryError::InvalidName);
    }
    let v = chars_of(name);
    let mut i: usize = 0;
    while i < v.len()
        invariant
            v@ == name@,
            i <= v@.len(),
            forall|j: int| 0 <= j < i ==> is_name_char(#[trigger] v@[j]),
            forall|j: int| 0 <= j && j + 1 < i ==> !(#[trigger] v@[j] == '.' && v@[j + 1] == '.'),
        decreases v@.len() - i,
    {
        let c = v[i];
        if !(ascii_alnum(c) || c == '_' || c == '-' || c == '.') {
            return Err(RecoveryError::InvalidName);
        }
        if i > 0 && c == '.' && v[i - 1] == '.' {
            assert(v@[i - 1] == '.' && v@[(i - 1) + 1] == '.');
            return Err(RecoveryError::InvalidName);
        }
        i = i + 1;
    }
    assert(!has_double_dot(name@)) by {
        assert forall|j: int| 0 <= j && j + 1 < name@.len() implies !(#[trigger] name@[j] == '.'
            && name@[j + 1] == '.') by {}
    }
    Ok(())
}

/// A name that passes [`validate_name`] holds no path separator, drive or stream
/// marker, and cannot climb out of a folder.
pub proof fn law_recording_names_stay_in_their_folder(name: Seq<char>)
    requires
        is_recording_name(name),
    ensures
        forall|i: int| 0 <= i < name.len() ==> #[trigger] name[i] != '/' && name[i] != '\\' && name[i] != ':',
        !has_double_dot(name),
{
    assert forall|i: int| 0 <= i < name.len() implies #[trigger] name[i] != '/' && name[i] != '\\'
        && name[i] != ':' by {
        assert(is_name_char(name[i]));
    }
}

/// Whether a file of this name is a kept recording: finished (`.mp4`) or partial (`.mp4.part`).
pub fn is_kept_name(name: &str) -> (r: bool)
    ensures
        r == (ends_with(name@, ".mp4"@) || ends_with(name@, ".mp4.part"@)),
{
    ends_with_text(name, ".mp4") || ends_with_text(name, ".mp4.part")
}

/// A file of the working folder, as the folder listing reports it.
#[derive(Debug, Clone)]
pub struct WorkingFile {
    pub name: String,
    pub is_file: bool,
    pub size_bytes: u64,
}

/// A finished recording (`.mp4`) or a partial one (`.mp4.part`).
pub open spec fn is_kept_recording(f: WorkingFile) -> bool {
    f.is_file && (ends_with(f.name@, ".mp4"@) || ends_with(f.name@, ".mp4.part"@))
}

/// The kept recordings among `files`, in listing order.
pub open spec fn kept_recordings(files: Seq<WorkingFile>) -> Seq<PendingRecording>
    decreases files.len(),
{
    if files.len() == 0 {
        Seq::empty()
    } else {
        let rest = kept_recordings(files.drop_last());
        let f = files.last();
        if is_kept_recording(f) {
            rest.push(
                PendingRecording {
                    name: f.name,
                    size_bytes: f.size_bytes,
                    ready: ends_with(f.name@, ".mp4"@),
                },
            )
        } else {
            rest
        }
    }
}

/// The names of a list of pending recordings.
pub open spec fn pending_names(v: Seq<PendingRecording>) -> Seq<Seq<char>> {
    v.map_values(|p: PendingRecording| p.name@)
}

fn copy_pending(p: &PendingRecording) -> (r: PendingRecording)
    ensures
        r == *p,
{
    PendingRecording { name: p.name.clone(), size_bytes: p.size_bytes, ready: p.ready }
}

/// The recordings kept in the working folder, newest name first: finished
/// ones are ready to be saved again, partial ones are listed but not ready.
pub fn pending_recordings(files: &Vec<WorkingFile>) -> (r: Vec<PendingRecording>)
    ensures
        exists|order: Seq<usize>|
            #![trigger is_newest_first(pending_names(kept_recordings(files@)), order)]
            is_newest_first(pending_names(kept_recordings(files@)), order) && r@.len()
                == order.len() && forall|i: int|
                0 <= i < order.len() ==> #[trigger] r@[i] == kept_recordings(files@)[order[i] as int],
{
    let mut kept: Vec<PendingRecording> = Vec::new();
    let mut i: usize = 0;
    while i < files.len()
        invariant
            i <= files@.len(),
            kept@ == kept_recordings(files@.take(i as int)),
        decreases files@.len() - i,
    {
        let f = &files[i];
        proof {
            assert(files@.take(i as int + 1).drop_last() =~= files@.take(i as int));
            assert(files@.take(i as int + 1).last() == files@[i as int]);
        }
        let ready = ends_with_text(f.name.as_str(), ".mp4");
        if f.is_file && (ready || ends_with_text(f.name.as_str(), ".mp4.part")) {
            kept.push(PendingRecording { name: f.name.clone(), size_bytes: f.size_bytes, ready });
        }
        i = i + 1;
    }
    assert(files@.take(files@.len() as int) =~= files@);
    let mut keys: Vec<String> = Vec::new();
    let mut j: usize = 0;
    while j < kept.len()
        invariant
            j <= kept@.len(),
            keys@.len() == j,
            forall|t: int| 0 <= t < j ==> #[trigger] keys@[t]@ == kept@[t].name@,
        decreases kept@.len() - j,
    {
        keys.push(kept[j].name.clone());
        j = j + 1;
    }
    assert(crate::sort::texts(keys@) =~= pending_names(kept@));
    let order = crate::sort::newest_first(&keys);
    let mut r: Vec<PendingRecording> = Vec::new();
    let mut t: usize = 0;
    while t < order.len()
        invariant
            is_newest_first(pending_names(kept@), order@),
            t <= order@.len(),
            r@.len() == t,
            forall|q: int| 0 <= q < t ==> #[trigger] r@[q] == kept@[order@[q] as int],
        decreases order@.len() - t,
    {
        assert(order@[t as int] < kept@.len());
        r.push(copy_pending(&kept[order[t]]));
        t = t + 1;
    }
    r
}

} // verus!
