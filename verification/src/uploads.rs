//! The bookkeeping of files dropped onto a note and streamed in chunks:
//! which transfers are open, how much of each has arrived, and when a
//! transfer is refused, finished or given up.
#![verifier::loop_isolation(false)]

use crate::file_names::{safe_external_file_name, spec_safe_external_file_name};
use crate::media::{MAX_ATTACHMENT_BYTES, MAX_IMAGE_BYTES};
use crate::model::{ExternalFileUploadKind, WorkspaceExternalFileUpload};
use crate::text::{chars_eq, chars_of, owned};
use crate::workspace_paths::{
    spec_attachment_relative_path_error, spec_image_relative_path_error,
    validate_attachment_relative_path, validate_image_relative_path,
};
use vstd::prelude::*;

verus! {

/// The size of the chunks a dropped file is sent in: 512 KiB.
pub const EXTERNAL_FILE_UPLOAD_CHUNK_BYTES: usize = 524288;

/// The most dropped-file transfers open at once.
pub const MAX_EXTERNAL_FILE_UPLOADS: usize = 16;

/// A transfer idle for this long (5 minutes) is given up.
pub const ABANDONED_EXTERNAL_FILE_UPLOAD_MILLIS: u64 = 300000;

/// Staged files older than this (a day) are removed when staging is prepared.
pub const STALE_EXTERNAL_FILE_UPLOAD_MILLIS: u64 = 86400000;

/// An open dropped-file transfer. `last_activity` is read from a monotonic
/// clock, in milliseconds.
#[derive(Debug, Clone, PartialEq, Eq)]
pub struct ExternalFileUpload {
    pub id: String,
    pub file_name: String,
    pub expected_length: u64,
    pub received_length: u64,
    pub note_relative_path: String,
    pub kind: ExternalFileUploadKind,
    pub last_activity: u64,
}

/// A transfer as the rules read it.
pub struct UploadState {
    pub id: Seq<char>,
    pub file_name: Seq<char>,
    pub note_relative_path: Seq<char>,
    pub kind: ExternalFileUploadKind,
    pub expected: u64,
    pub received: u64,
    pub last_activity: u64,
}

impl ExternalFileUpload {
    pub open spec fn state(&self) -> UploadState {
        UploadState {
            id: self.id@,
            file_name: self.file_name@,
            note_relative_path: self.note_relative_path@,
            kind: self.kind,
            expected: self.expected_length,
            received: self.received_length,
            last_activity: self.last_activity,
        }
    }
}

/// The open transfers.
pub struct ExternalFileUploads {
    pub uploads: Vec<ExternalFileUpload>,
}

pub open spec fn states(v: Seq<ExternalFileUpload>) -> Seq<UploadState> {
    v.map_values(|u: ExternalFileUpload| u.state())
}

/// The position of the transfer with ID `id`, or -1.
pub open spec fn spec_find_upload(s: Seq<UploadState>, id: Seq<char>) -> int
    decreases s.len(),
{
    if s.len() == 0 {
        -1
    } else if s.last().id == id {
        s.len() - 1
    } else {
        spec_find_upload(s.drop_last(), id)
    }
}

/// No two transfers share an ID, none has received more than it expects,
/// and no more than the allowed number are open.
pub open spec fn spec_uploads_wf(s: Seq<UploadState>) -> bool {
    &&& s.len() <= MAX_EXTERNAL_FILE_UPLOADS
    &&& forall|i: int, j: int| 0 <= i < j < s.len() ==> #[trigger] s[i].id != #[trigger] s[j].id
    &&& forall|i: int| 0 <= i < s.len() ==> #[trigger] s[i].received <= s[i].expected
}

/// Whether a transfer last active at `last` is still live at `now`: it is
/// given up after five idle minutes (a clock reading before `last` counts
/// as no idle time).
pub open spec fn spec_is_active(last: u64, now: u64) -> bool {
    now < last || now - last < ABANDONED_EXTERNAL_FILE_UPLOAD_MILLIS
}

/// The transfers still live at `now`, in their order.
pub open spec fn spec_active(s: Seq<UploadState>, now: u64) -> Seq<UploadState>
    decreases s.len(),
{
    if s.len() == 0 {
        s
    } else {
        let rest = spec_active(s.drop_last(), now);
        if spec_is_active(s.last().last_activity, now) {
            rest.push(s.last())
        } else {
            rest
        }
    }
}

pub proof fn lemma_find_upload(s: Seq<UploadState>, id: Seq<char>)
    ensures
        -1 <= spec_find_upload(s, id) < s.len(),
        spec_find_upload(s, id) >= 0 ==> s[spec_find_upload(s, id)].id == id,
        spec_find_upload(s, id) < 0 ==> forall|i: int| 0 <= i < s.len() ==> #[trigger] s[i].id != id,
    decreases s.len(),
{
    if s.len() > 0 {
        lemma_find_upload(s.drop_last(), id);
        if spec_find_upload(s, id) < 0 {
            assert forall|i: int| 0 <= i < s.len() implies #[trigger] s[i].id != id by {
                if i < s.len() - 1 {
                    assert(s[i] == s.drop_last()[i]);
                }
            }
        }
    }
}

/// Giving up idle transfers keeps only live ones, each of them an open
/// transfer before, in the same order.
pub proof fn lemma_active_subset(s: Seq<UploadState>, now: u64)
    ensures
        spec_active(s, now).len() <= s.len(),
        forall|i: int| 0 <= i < spec_active(s, now).len() ==> s.contains(#[trigger] spec_active(s, now)[i]),
        forall|i: int| 0 <= i < spec_active(s, now).len() ==> spec_is_active(#[trigger] spec_active(s, now)[i].last_activity, now),
    decreases s.len(),
{
    if s.len() > 0 {
        lemma_active_subset(s.drop_last(), now);
        let rest = spec_active(s.drop_last(), now);
        assert forall|i: int| 0 <= i < rest.len() implies s.contains(#[trigger] rest[i]) by {
            let k = choose|k: int| 0 <= k < s.drop_last().len() && s.drop_last()[k] == rest[i];
            assert(s[k] == rest[i]);
        }
        assert(s[s.len() - 1] == s.last());
    }
}

impl ExternalFileUploads {
    pub open spec fn view(&self) -> Seq<UploadState> {
        states(self.uploads@)
    }

    pub open spec fn wf(&self) -> bool {
        spec_uploads_wf(self.view())
    }

    /// No transfers.
    pub fn new() -> (r: ExternalFileUploads)
        ensures
            r.wf(),
            r.view().len() == 0,
    {
        ExternalFileUploads { uploads: Vec::new() }
    }

    /// The position of the transfer with ID `id`.
    pub fn find(&self, id: &str) -> (r: Option<usize>)
        ensures
            match r {
                Some(i) => i as int == spec_find_upload(self.view(), id@) && i < self.view().len()
                    && self.view()[i as int].id == id@,
                None => spec_find_upload(self.view(), id@) < 0,
            },
    {
        proof {
            lemma_find_upload(self.view(), id@);
        }
        let target = chars_of(id);
        let mut i: usize = self.uploads.len();
        assert(self.view().take(i as int) =~= self.view());
        while i > 0
            invariant
                i <= self.uploads.len(),
                target@ == id@,
                spec_find_upload(self.view(), id@) == spec_find_upload(self.view().take(i as int), id@),
            decreases i,
        {
            let k = i - 1;
            assert(self.view().take(i as int).last() == self.view()[k as int]);
            assert(self.view().take(i as int).drop_last() == self.view().take(k as int));
            if chars_eq(&chars_of(self.uploads[k].id.as_str()), &target) {
                return Some(k);
            }
            i = k;
        }
        None
    }

    /// Whether a transfer with ID `id` is open.
    pub fn contains(&self, id: &str) -> (r: bool)
        ensures
            r == (spec_find_upload(self.view(), id@) >= 0),
    {
        self.find(id).is_some()
    }

    /// The number of open transfers.
    pub fn len(&self) -> (r: usize)
        ensures
            r == self.view().len(),
    {
        self.uploads.len()
    }

    /// Whether another transfer may open.
    pub fn has_capacity(&self) -> (r: bool)
        ensures
            r == (self.view().len() < MAX_EXTERNAL_FILE_UPLOADS),
    {
        self.uploads.len() < MAX_EXTERNAL_FILE_UPLOADS
    }

    /// Opens a transfer under a fresh ID while there is room.
    pub fn insert(&mut self, upload: ExternalFileUpload)
        requires
            old(self).wf(),
            old(self).view().len() < MAX_EXTERNAL_FILE_UPLOADS,
            spec_find_upload(old(self).view(), upload.id@) < 0,
            upload.received_length <= upload.expected_length,
        ensures
            final(self).wf(),
            final(self).view() == old(self).view().push(upload.state()),
    {
        proof {
            lemma_find_upload(self.view(), upload.id@);
        }
        let ghost before = self.view();
        self.uploads.push(upload);
        assert(self.view() =~= before.push(upload.state()));
    }

    fn remove_at(&mut self, i: usize) -> (r: ExternalFileUpload)
        requires
            old(self).wf(),
            i < old(self).view().len(),
        ensures
            final(self).wf(),
            final(self).view() == old(self).view().remove(i as int),
            r.state() == old(self).view()[i as int],
    {
        let ghost before = self.view();
        let r = self.uploads.remove(i);
        assert(self.view() =~= before.remove(i as int));
        r
    }
}

/// Gives up transfers idle for five minutes or more at `now`.
pub fn remove_abandoned_external_file_uploads(uploads: &mut ExternalFileUploads, now: u64)
    requires
        old(uploads).wf(),
    ensures
        final(uploads).wf(),
        final(uploads).view() == spec_active(old(uploads).view(), now),
{
    let ghost s = uploads.view();
    let mut old_list: Vec<ExternalFileUpload> = Vec::new();
    std::mem::swap(&mut old_list, &mut uploads.uploads);
    let mut kept: Vec<ExternalFileUpload> = Vec::new();
    let mut i: usize = 0;
    while i < old_list.len()
        invariant
            i <= old_list.len(),
            states(old_list@) == s,
            states(kept@) == spec_active(s.take(i as int), now),
        decreases old_list.len() - i,
    {
        assert(s.take(i as int + 1).drop_last() == s.take(i as int));
        assert(s.take(i as int + 1).last() == s[i as int]);
        let keep = now < old_list[i].last_activity || now - old_list[i].last_activity
            < ABANDONED_EXTERNAL_FILE_UPLOAD_MILLIS;
        if keep {
            let ghost before = states(kept@);
            let copy = ExternalFileUpload {
                id: owned(old_list[i].id.as_str()),
                file_name: owned(old_list[i].file_name.as_str()),
                expected_length: old_list[i].expected_length,
                received_length: old_list[i].received_length,
                note_relative_path: owned(old_list[i].note_relative_path.as_str()),
                kind: old_list[i].kind,
                last_activity: old_list[i].last_activity,
            };
            kept.push(copy);
            assert(states(kept@) =~= before.push(s[i as int]));
        }
        i = i + 1;
    }
    assert(s.take(s.len() as int) == s);
    uploads.uploads = kept;
    proof {
        lemma_active_subset(s, now);
        let a = spec_active(s, now);
        lemma_active_distinct(s, now);
        assert forall|x: int| 0 <= x < a.len() implies #[trigger] a[x].received <= a[x].expected by {
            assert(s.contains(a[x]));
        }
    }
}

/// Giving up idle transfers keeps the IDs of the others distinct.
proof fn lemma_active_distinct(s: Seq<UploadState>, now: u64)
    requires
        forall|i: int, j: int| 0 <= i < j < s.len() ==> #[trigger] s[i].id != #[trigger] s[j].id,
    ensures
        forall|i: int, j: int| 0 <= i < j < spec_active(s, now).len() ==> #[trigger] spec_active(s, now)[i].id != #[trigger] spec_active(s, now)[j].id,
    decreases s.len(),
{
    if s.len() > 0 {
        let d = s.drop_last();
        assert forall|i: int, j: int| 0 <= i < j < d.len() implies #[trigger] d[i].id != #[trigger] d[j].id by {
            assert(d[i] == s[i] && d[j] == s[j]);
        }
        lemma_active_distinct(d, now);
        lemma_active_subset(d, now);
        let rest = spec_active(d, now);
        if spec_is_active(s.last().last_activity, now) {
            let a = rest.push(s.last());
            assert forall|i: int, j: int| 0 <= i < j < a.len() implies #[trigger] a[i].id != #[trigger] a[j].id by {
                if j == a.len() - 1 {
                    assert(d.contains(rest[i]));
                    let k = choose|k: int| 0 <= k < d.len() && d[k] == rest[i];
                    assert(s[k] == rest[i]);
                    assert(s[s.len() - 1] == s.last());
                } else {
                    assert(a[i] == rest[i] && a[j] == rest[j]);
                }
            }
        }
    }
}


// ---------------------------------------------------------------------------
// The steps of a transfer
// ---------------------------------------------------------------------------

/// The name a dropped file is staged under, or why the drop is refused
/// before anything is staged: an image must hold 1 byte to 50 MiB and an
/// attachment at most 4 GiB; the name must be safe and fit the pipeline.
pub open spec fn spec_external_file_upload_request(file_name: Seq<char>, expected_length: u64, kind: ExternalFileUploadKind) -> Result<Seq<char>, Seq<char>> {
    if kind == ExternalFileUploadKind::Image && (expected_length == 0 || expected_length > MAX_IMAGE_BYTES) {
        Err("The dropped image must be between 1 byte and 50 MiB."@)
    } else if kind == ExternalFileUploadKind::Attachment && expected_length > MAX_ATTACHMENT_BYTES {
        Err("The dropped file is larger than 4 GiB."@)
    } else {
        match spec_safe_external_file_name(file_name) {
            Err(e) => Err(e),
            Ok(name) => {
                let problem = match kind {
                    ExternalFileUploadKind::Image => spec_image_relative_path_error(name),
                    ExternalFileUploadKind::Attachment => spec_attachment_relative_path_error(name),
                };
                match problem {
                    Some(e) => Err(e),
                    None => Ok(name),
                }
            },
        }
    }
}

/// Checks a dropped file before it is staged and gives the safe name it is
/// staged under.
pub fn prepare_external_file_upload(file_name: &str, expected_length: u64, kind: ExternalFileUploadKind) -> (r: Result<String, String>)
    ensures
        crate::vault_paths::view_string_result(r) == spec_external_file_upload_request(file_name@, expected_length, kind),
{
    match kind {
        ExternalFileUploadKind::Image => {
            if expected_length == 0 || expected_length > MAX_IMAGE_BYTES {
                return Err(owned("The dropped image must be between 1 byte and 50 MiB."));
            }
        },
        ExternalFileUploadKind::Attachment => {
            if expected_length > MAX_ATTACHMENT_BYTES {
                return Err(owned("The dropped file is larger than 4 GiB."));
            }
        },
    }
    let name = match safe_external_file_name(file_name) {
        Err(e) => return Err(e),
        Ok(n) => n,
    };
    let checked = match kind {
        ExternalFileUploadKind::Image => validate_image_relative_path(name.as_str()),
        ExternalFileUploadKind::Attachment => validate_attachment_relative_path(name.as_str()),
    };
    match checked {
        Err(e) => Err(e),
        Ok(()) => Ok(name),
    }
}

/// What the interface is told of a transfer that opened.
pub fn external_file_upload_ticket(id: &str) -> (r: WorkspaceExternalFileUpload)
    ensures
        r.id@ == id@,
        r.chunk_bytes == EXTERNAL_FILE_UPLOAD_CHUNK_BYTES,
{
    WorkspaceExternalFileUpload { id: owned(id), chunk_bytes: EXTERNAL_FILE_UPLOAD_CHUNK_BYTES }
}

/// The outcome of offering a chunk of `chunk_len` bytes at `offset` to the
/// transfer `id`: the length received once it is written, or why it is
/// refused. A refused chunk ends the transfer.
pub open spec fn spec_append_outcome(s: Seq<UploadState>, id: Seq<char>, offset: u64, chunk_len: nat) -> Result<u64, Seq<char>> {
    let i = spec_find_upload(s, id);
    if i < 0 {
        Err("The dropped-file transfer is no longer available."@)
    } else if chunk_len == 0 || chunk_len > EXTERNAL_FILE_UPLOAD_CHUNK_BYTES {
        Err("A dropped-file transfer chunk has an invalid size."@)
    } else if offset != s[i].received {
        Err("Dropped-file transfer chunks arrived out of order."@)
    } else if s[i].received + chunk_len > s[i].expected {
        Err("The dropped file contains more data than expected."@)
    } else {
        Ok((s[i].received + chunk_len) as u64)
    }
}

/// The transfers once the transfer `id`, if open, has ended.
pub open spec fn spec_without(s: Seq<UploadState>, id: Seq<char>) -> Seq<UploadState> {
    let i = spec_find_upload(s, id);
    if i < 0 {
        s
    } else {
        s.remove(i)
    }
}

fn end_upload(uploads: &mut ExternalFileUploads, id: &str) -> (r: Option<ExternalFileUpload>)
    requires
        old(uploads).wf(),
    ensures
        final(uploads).wf(),
        final(uploads).view() == spec_without(old(uploads).view(), id@),
        match r {
            Some(u) => spec_find_upload(old(uploads).view(), id@) >= 0 && u.state() == old(uploads).view()[spec_find_upload(old(uploads).view(), id@)],
            None => spec_find_upload(old(uploads).view(), id@) < 0,
        },
{
    match uploads.find(id) {
        Some(i) => Some(uploads.remove_at(i)),
        None => None,
    }
}

/// Checks a chunk of `chunk_len` bytes offered at `offset` to the transfer
/// `upload_id`, before it is written: the chunk must be 1 byte to 512 KiB,
/// continue exactly where the transfer stands, and not pass the expected
/// length. Gives the length received once the chunk is written; a refused
/// chunk ends the transfer.
pub fn append_external_file_upload(uploads: &mut ExternalFileUploads, upload_id: &str, offset: u64, chunk_len: usize) -> (r: Result<u64, String>)
    requires
        old(uploads).wf(),
    ensures
        final(uploads).wf(),
        match r {
            Ok(n) => spec_append_outcome(old(uploads).view(), upload_id@, offset, chunk_len as nat) == Ok::<u64, Seq<char>>(n),
            Err(e) => spec_append_outcome(old(uploads).view(), upload_id@, offset, chunk_len as nat) == Err::<u64, Seq<char>>(e@),
        },
        r is Ok ==> final(uploads).view() == old(uploads).view(),
        r is Err ==> final(uploads).view() == spec_without(old(uploads).view(), upload_id@),
{
    let i = match uploads.find(upload_id) {
        None => return Err(owned("The dropped-file transfer is no longer available.")),
        Some(i) => i,
    };
    let ghost s = uploads.view();
    assert(s[i as int] == uploads.uploads@[i as int].state());
    let received = uploads.uploads[i].received_length;
    let expected = uploads.uploads[i].expected_length;
    let outcome = if chunk_len == 0 || chunk_len > EXTERNAL_FILE_UPLOAD_CHUNK_BYTES {
        Err(owned("A dropped-file transfer chunk has an invalid size."))
    } else if offset != received {
        Err(owned("Dropped-file transfer chunks arrived out of order."))
    } else if chunk_len as u64 > expected - received {
        Err(owned("The dropped file contains more data than expected."))
    } else {
        Ok(received + chunk_len as u64)
    };
    if outcome.is_err() {
        uploads.remove_at(i);
    }
    outcome
}

/// Records that a checked chunk was written: the transfer `upload_id` has
/// now received `received_length` bytes and was active at `now`. Nothing
/// changes when the transfer is gone or the length passes what it expects.
pub fn record_external_file_chunk(uploads: &mut ExternalFileUploads, upload_id: &str, received_length: u64, now: u64)
    requires
        old(uploads).wf(),
    ensures
        final(uploads).wf(),
        ({
            let s = old(uploads).view();
            let i = spec_find_upload(s, upload_id@);
            if i >= 0 && received_length <= s[i].expected {
                final(uploads).view() == s.update(i, UploadState { received: received_length, last_activity: now, ..s[i] })
            } else {
                final(uploads).view() == s
            }
        }),
        final(uploads).view() == spec_record_chunk(old(uploads).view(), upload_id@, received_length, now),
{
    let i = match uploads.find(upload_id) {
        None => return,
        Some(i) => i,
    };
    if received_length > uploads.uploads[i].expected_length {
        return;
    }
    let ghost s = uploads.view();
    let updated = ExternalFileUpload {
        id: owned(uploads.uploads[i].id.as_str()),
        file_name: owned(uploads.uploads[i].file_name.as_str()),
        expected_length: uploads.uploads[i].expected_length,
        received_length,
        note_relative_path: owned(uploads.uploads[i].note_relative_path.as_str()),
        kind: uploads.uploads[i].kind,
        last_activity: now,
    };
    uploads.uploads.set(i, updated);
    assert(uploads.view() =~= s.update(i as int, UploadState { received: received_length, last_activity: now, ..s[i as int] }));
    proof {
        let t = uploads.view();
        assert forall|x: int, y: int| 0 <= x < y < t.len() implies #[trigger] t[x].id != #[trigger] t[y].id by {
            assert(t[x].id == s[x].id && t[y].id == s[y].id);
        }
    }
}

/// Ends the transfer `upload_id`; whether one was open.
pub fn cancel_external_file_upload(uploads: &mut ExternalFileUploads, upload_id: &str) -> (r: bool)
    requires
        old(uploads).wf(),
    ensures
        final(uploads).wf(),
        final(uploads).view() == spec_without(old(uploads).view(), upload_id@),
        r == (spec_find_upload(old(uploads).view(), upload_id@) >= 0),
{
    end_upload(uploads, upload_id).is_some()
}

/// The outcome of finishing the transfer `id` as a file of `kind`.
pub open spec fn spec_finish_outcome(s: Seq<UploadState>, id: Seq<char>, kind: ExternalFileUploadKind) -> Result<UploadState, Seq<char>> {
    let i = spec_find_upload(s, id);
    if i < 0 {
        Err("The dropped-file transfer is no longer available."@)
    } else if s[i].kind != kind {
        Err("The dropped-file transfer does not match the requested asset type."@)
    } else if s[i].received != s[i].expected {
        Err("The dropped file did not finish transferring."@)
    } else {
        Ok(s[i])
    }
}

/// Ends the transfer `upload_id` and hands it over for its pipeline when
/// it is of `expected_kind` and every expected byte arrived. The transfer
/// ends whatever the outcome.
pub fn finish_external_file_upload(uploads: &mut ExternalFileUploads, upload_id: &str, expected_kind: ExternalFileUploadKind) -> (r: Result<ExternalFileUpload, String>)
    requires
        old(uploads).wf(),
    ensures
        final(uploads).wf(),
        final(uploads).view() == spec_without(old(uploads).view(), upload_id@),
        match r {
            Ok(u) => spec_finish_outcome(old(uploads).view(), upload_id@, expected_kind) == Ok::<UploadState, Seq<char>>(u.state()),
            Err(e) => spec_finish_outcome(old(uploads).view(), upload_id@, expected_kind) == Err::<UploadState, Seq<char>>(e@),
        },
{
    let upload = match end_upload(uploads, upload_id) {
        None => return Err(owned("The dropped-file transfer is no longer available.")),
        Some(u) => u,
    };
    if upload.kind != expected_kind {
        return Err(owned("The dropped-file transfer does not match the requested asset type."));
    }
    if upload.received_length != upload.expected_length {
        return Err(owned("The dropped file did not finish transferring."));
    }
    Ok(upload)
}


/// Whether a leftover staging folder is removed when staging is prepared:
/// its name starts with `drop-`, it is a plain folder (not a link), it holds
/// at most one entry, which is a plain file, and it (or that file) was last
/// changed at least a day ago (`age_millis` is `None` where the time is
/// unknown or lies in the future).
pub open spec fn spec_should_remove_stale_external_file_upload(
    name: Option<Seq<char>>,
    is_plain_directory: bool,
    child_count: nat,
    child_is_plain_file: bool,
    age_millis: Option<u64>,
) -> bool {
    &&& name matches Some(n) && crate::text::spec_starts_with(n, "drop-"@)
    &&& is_plain_directory
    &&& child_count <= 1
    &&& age_millis matches Some(a) && a >= STALE_EXTERNAL_FILE_UPLOAD_MILLIS
    &&& (child_count == 0 || child_is_plain_file)
}

/// Whether a leftover staging folder is removed when staging is prepared.
pub fn should_remove_stale_external_file_upload(
    name: Option<&str>,
    is_plain_directory: bool,
    child_count: usize,
    child_is_plain_file: bool,
    age_millis: Option<u64>,
) -> (r: bool)
    ensures
        r == spec_should_remove_stale_external_file_upload(
            match name {
                Some(n) => Some(n@),
                None => None,
            },
            is_plain_directory,
            child_count as nat,
            child_is_plain_file,
            age_millis,
        ),
{
    let named = match name {
        Some(n) => crate::text::starts_with(&chars_of(n), &chars_of("drop-")),
        None => false,
    };
    let old_enough = match age_millis {
        Some(a) => a >= STALE_EXTERNAL_FILE_UPLOAD_MILLIS,
        None => false,
    };
    named && is_plain_directory && child_count <= 1 && old_enough && (child_count == 0 || child_is_plain_file)
}


/// The transfers once a chunk ending at `received` was recorded for the
/// transfer `id` at `now`, as `record_external_file_chunk` leaves them.
pub open spec fn spec_record_chunk(s: Seq<UploadState>, id: Seq<char>, received: u64, now: u64) -> Seq<UploadState> {
    let i = spec_find_upload(s, id);
    if i >= 0 && received <= s[i].expected {
        s.update(i, UploadState { received, last_activity: now, ..s[i] })
    } else {
        s
    }
}

/// A transfer opened for a file with a name, for a note, and sent in two
/// chunks in order, appending each and recording it, finishes with every
/// byte, under the name and for the note it was opened with.
pub proof fn lemma_transfer_in_two_chunks(
    s: Seq<UploadState>,
    u: UploadState,
    first: nat,
    second: nat,
    t1: u64,
    t2: u64,
)
    requires
        spec_find_upload(s, u.id) < 0,
        u.received == 0,
        u.expected == first + second,
        0 < first <= EXTERNAL_FILE_UPLOAD_CHUNK_BYTES,
        0 < second <= EXTERNAL_FILE_UPLOAD_CHUNK_BYTES,
    ensures
        ({
            let s1 = s.push(u);
            let s2 = spec_record_chunk(s1, u.id, first as u64, t1);
            let s3 = spec_record_chunk(s2, u.id, (first + second) as u64, t2);
            &&& spec_append_outcome(s1, u.id, 0, first) == Ok::<u64, Seq<char>>(first as u64)
            &&& spec_append_outcome(s2, u.id, first as u64, second) == Ok::<u64, Seq<char>>((first + second) as u64)
            &&& spec_finish_outcome(s3, u.id, u.kind) == Ok::<UploadState, Seq<char>>(
                UploadState { received: u.expected, last_activity: t2, ..u },
            )
            &&& spec_without(s3, u.id) == s
        }),
{
    let s1 = s.push(u);
    let i = s.len() as int;
    assert(s1.last() == u);
    assert(spec_find_upload(s1, u.id) == i);
    let s2 = spec_record_chunk(s1, u.id, first as u64, t1);
    assert(s2 == s1.update(i, UploadState { received: first as u64, last_activity: t1, ..u }));
    assert(s2.drop_last() =~= s);
    assert(spec_find_upload(s2, u.id) == i);
    let s3 = spec_record_chunk(s2, u.id, (first + second) as u64, t2);
    assert(s3.drop_last() =~= s);
    assert(spec_find_upload(s3, u.id) == i);
    assert(s3[i] == UploadState { received: u.expected, last_activity: t2, ..u });
    assert(s3.remove(i) =~= s);
}

} // verus!
