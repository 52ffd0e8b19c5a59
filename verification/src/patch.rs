//! Remediation of one pending file, step by step.
//!
//! The caller touches the file system; this module decides. It hands out an
//! action, takes in what carrying it out gave, and hands out the next one,
//! until the file is fixed or a step has failed. A file on which a step
//! failed is left as it is: nothing is rolled back.

use vstd::prelude::*;
use vstd::string::*;
use crate::artifact::{cache_name, make_cache_name, make_original_name, make_patch_name, original_name, patch_name};
use crate::consumer::pending_of;
use crate::delta::{apply_patch, patch_result};
use crate::hash::{blake3_hex, sentinel};
use crate::integrity::{integrity_status, IntegrityStatus};
use crate::manifest::{ManifestRecord, RecordView};
use crate::text::text_eq;

verus! {

/// What the caller is asked to do to the local file.
#[derive(Debug, PartialEq, Eq)]
pub enum PatchAction {
    /// Remove the file.
    Delete,
    /// Empty the file, after removing it has failed.
    Truncate,
    /// Copy the original, kept in the cache under this name, over the file.
    RestoreOriginal(String),
    /// Create the file empty, together with the directories above it.
    CreateEmpty,
    /// Read the file and the delta kept in the cache under this name.
    Load(String),
    /// Write these bytes to the file, then hash the file again.
    Write(Vec<u8>),
    /// Nothing is left to do: the file ends in this status.
    Finish(IntegrityStatus),
}

/// An action as plain mathematical values.
pub enum ActionView {
    Delete,
    Truncate,
    RestoreOriginal(Seq<char>),
    CreateEmpty,
    Load(Seq<char>),
    Write(Seq<u8>),
    Finish(IntegrityStatus),
}

impl View for PatchAction {
    type V = ActionView;

    open spec fn view(&self) -> ActionView {
        match self {
            PatchAction::Delete => ActionView::Delete,
            PatchAction::Truncate => ActionView::Truncate,
            PatchAction::RestoreOriginal(name) => ActionView::RestoreOriginal(name@),
            PatchAction::CreateEmpty => ActionView::CreateEmpty,
            PatchAction::Load(name) => ActionView::Load(name@),
            PatchAction::Write(bytes) => ActionView::Write(bytes@),
            PatchAction::Finish(status) => ActionView::Finish(*status),
        }
    }
}

/// What carrying out an action gave.
#[derive(Debug, PartialEq, Eq)]
pub enum PatchEvent {
    /// The action was carried out.
    Done,
    /// The action failed; the text says why.
    Failed(String),
    /// The file and the delta were read: first the file's bytes, then the
    /// delta's.
    Loaded(Vec<u8>, Vec<u8>),
    /// The bytes were written, and hashing the file again gave this hash.
    Written(String),
}

/// An event as plain mathematical values.
pub enum EventView {
    Done,
    Failed(Seq<char>),
    Loaded(Seq<u8>, Seq<u8>),
    Written(Seq<char>),
}

impl View for PatchEvent {
    type V = EventView;

    open spec fn view(&self) -> EventView {
        match self {
            PatchEvent::Done => EventView::Done,
            PatchEvent::Failed(why) => EventView::Failed(why@),
            PatchEvent::Loaded(local, delta) => EventView::Loaded(local@, delta@),
            PatchEvent::Written(hash) => EventView::Written(hash@),
        }
    }
}

/// The action whose outcome a job waits for.
#[derive(Clone, Copy, Debug, PartialEq, Eq, Structural)]
pub enum Waiting {
    Delete,
    Truncate,
    Restore,
    Create,
    Load,
    Write,
    /// The job is finished.
    Nothing,
}

/// A job as plain mathematical values.
pub struct JobView {
    /// The file's record in the manifest.
    pub record: RecordView,
    /// The file's status as far as the job has come.
    pub status: IntegrityStatus,
    /// The action that is outstanding.
    pub waiting: Waiting,
}

/// The name under which the file's original lies in the cache.
pub open spec fn cached_original(record: RecordView) -> Seq<char> {
    cache_name(original_name(record.key()))
}

/// The name under which the file's delta lies in the cache.
pub open spec fn cached_patch(record: RecordView) -> Seq<char> {
    cache_name(patch_name(record.key()))
}

/// The job that ends now, in the status it has.
pub open spec fn finished(job: JobView) -> (JobView, ActionView) {
    (JobView { waiting: Waiting::Nothing, ..job }, ActionView::Finish(job.status))
}

/// The job and its first action for a file in the given status.
pub open spec fn begin(record: RecordView, status: IntegrityStatus) -> (JobView, ActionView) {
    let job = JobView { record, status, waiting: Waiting::Nothing };
    match status {
        IntegrityStatus::NeedDelete => (JobView { waiting: Waiting::Delete, ..job }, ActionView::Delete),
        IntegrityStatus::NeedOriginal => (
            JobView { waiting: Waiting::Restore, ..job },
            ActionView::RestoreOriginal(cached_original(record)),
        ),
        IntegrityStatus::NeedWipeFix => (
            JobView { waiting: Waiting::Create, ..job },
            ActionView::CreateEmpty,
        ),
        IntegrityStatus::NeedFix => (
            JobView { waiting: Waiting::Load, ..job },
            ActionView::Load(cached_patch(record)),
        ),
        IntegrityStatus::Fixed => finished(job),
    }
}

/// The job after `event`, and the next action.
///
/// Deleting falls back to truncating. Restoring the original and creating
/// the empty file both lead on to applying the delta. The delta's result is
/// written, and the file counts as fixed only if hashing it afterwards gives
/// the fixed hash. Any failure, and any event that does not answer the
/// outstanding action, ends the job in the status it has reached.
pub open spec fn step(job: JobView, event: EventView) -> (JobView, ActionView) {
    match (job.waiting, event) {
        (Waiting::Delete, EventView::Done) => finished(
            JobView { status: IntegrityStatus::Fixed, ..job },
        ),
        (Waiting::Delete, EventView::Failed(_)) => (
            JobView { waiting: Waiting::Truncate, ..job },
            ActionView::Truncate,
        ),
        (Waiting::Truncate, EventView::Done) => finished(
            JobView { status: IntegrityStatus::Fixed, ..job },
        ),
        (Waiting::Restore, EventView::Done) => begin(job.record, IntegrityStatus::NeedFix),
        (Waiting::Create, EventView::Done) => begin(job.record, IntegrityStatus::NeedFix),
        (Waiting::Load, EventView::Loaded(local, delta)) => match patch_result(local, delta) {
            Some(target) => (JobView { waiting: Waiting::Write, ..job }, ActionView::Write(target)),
            None => finished(job),
        },
        (Waiting::Write, EventView::Written(hash)) => if hash == job.record.entry.fixed {
            finished(JobView { status: IntegrityStatus::Fixed, ..job })
        } else {
            finished(job)
        },
        _ => finished(job),
    }
}

/// The remediation of one pending file.
#[derive(Debug)]
pub struct PatchJob {
    record: ManifestRecord,
    status: IntegrityStatus,
    waiting: Waiting,
}

impl View for PatchJob {
    type V = JobView;

    closed spec fn view(&self) -> JobView {
        JobView { record: self.record@, status: self.status, waiting: self.waiting }
    }
}

impl PatchJob {
    /// Starts the remediation of the file of `record`, which the integrity
    /// pass found in `status`, and hands out the first action.
    pub fn start(record: &ManifestRecord, status: IntegrityStatus) -> (r: (PatchJob, PatchAction))
        ensures
            (r.0@, r.1@) == begin(record@, status),
    {
        let job = PatchJob { record: record.copy(), status, waiting: Waiting::Nothing };
        job.enter(status)
    }

    /// Takes the job into `status` and hands out the action that the status
    /// asks for.
    fn enter(self, status: IntegrityStatus) -> (r: (PatchJob, PatchAction))
        ensures
            (r.0@, r.1@) == begin(self@.record, status),
    {
        let record = self.record;
        match status {
            IntegrityStatus::NeedDelete => (
                PatchJob { record, status, waiting: Waiting::Delete },
                PatchAction::Delete,
            ),
            IntegrityStatus::NeedOriginal => {
                let served = make_original_name(
                    record.platform.as_str(),
                    record.branch.as_str(),
                    record.path.as_str(),
                );
                let name = make_cache_name(served.as_str());
                (
                    PatchJob { record, status, waiting: Waiting::Restore },
                    PatchAction::RestoreOriginal(name),
                )
            },
            IntegrityStatus::NeedWipeFix => (
                PatchJob { record, status, waiting: Waiting::Create },
                PatchAction::CreateEmpty,
            ),
            IntegrityStatus::NeedFix => {
                let served = make_patch_name(
                    record.platform.as_str(),
                    record.branch.as_str(),
                    record.path.as_str(),
                );
                let name = make_cache_name(served.as_str());
                (PatchJob { record, status, waiting: Waiting::Load }, PatchAction::Load(name))
            },
            IntegrityStatus::Fixed => (
                PatchJob { record, status, waiting: Waiting::Nothing },
                PatchAction::Finish(status),
            ),
        }
    }

    /// Ends the job in `status`.
    fn finish(self, status: IntegrityStatus) -> (r: (PatchJob, PatchAction))
        ensures
            (r.0@, r.1@) == finished(JobView { status, ..self@ }),
    {
        (
            PatchJob { record: self.record, status, waiting: Waiting::Nothing },
            PatchAction::Finish(status),
        )
    }

    /// The file's status as far as the job has come.
    pub fn status(&self) -> (status: IntegrityStatus)
        ensures
            status == self@.status,
    {
        self.status
    }

    /// Whether the job is finished.
    pub fn is_finished(&self) -> (r: bool)
        ensures
            r == (self@.waiting == Waiting::Nothing),
    {
        self.waiting == Waiting::Nothing
    }

    /// Takes in what the outstanding action gave and hands out the next
    /// action, as `step` says.
    pub fn advance(self, event: PatchEvent) -> (r: (PatchJob, PatchAction))
        ensures
            (r.0@, r.1@) == step(self@, event@),
    {
        let status = self.status;
        match self.waiting {
            Waiting::Delete => match event {
                PatchEvent::Done => self.finish(IntegrityStatus::Fixed),
                PatchEvent::Failed(_) => (
                    PatchJob { record: self.record, status, waiting: Waiting::Truncate },
                    PatchAction::Truncate,
                ),
                _ => self.finish(status),
            },
            Waiting::Truncate => match event {
                PatchEvent::Done => self.finish(IntegrityStatus::Fixed),
                _ => self.finish(status),
            },
            Waiting::Restore => match event {
                PatchEvent::Done => self.enter(IntegrityStatus::NeedFix),
                _ => self.finish(status),
            },
            Waiting::Create => match event {
                PatchEvent::Done => self.enter(IntegrityStatus::NeedFix),
                _ => self.finish(status),
            },
            Waiting::Load => match event {
                PatchEvent::Loaded(local, delta) => {
                    match apply_patch(local.as_slice(), delta.as_slice()) {
                        Ok(target) => (
                            PatchJob { record: self.record, status, waiting: Waiting::Write },
                            PatchAction::Write(target),
                        ),
                        Err(_) => self.finish(status),
                    }
                },
                _ => self.finish(status),
            },
            Waiting::Write => match event {
                PatchEvent::Written(hash) => {
                    if text_eq(hash.as_str(), self.record.entry.fixed.as_str()) {
                        self.finish(IntegrityStatus::Fixed)
                    } else {
                        self.finish(status)
                    }
                },
                _ => self.finish(status),
            },
            Waiting::Nothing => self.finish(status),
        }
    }
}

/// A job together with what the local file looks like to a later run.
pub struct Progress {
    /// The job.
    pub job: JobView,
    /// The hash that reading the local file gives, the reserved hash standing
    /// for a file that is absent.
    pub local: Seq<char>,
    /// Whether the file was emptied because it could not be removed.
    pub truncated: bool,
}

/// The hash of the local file after `event`, given that the caller did what
/// the outstanding action asked for: a removed file is absent, an emptied or
/// newly created file has no content, a restored file is the original that
/// the cache holds under the entry's original hash, and a written file has
/// the hash that the caller read back.
pub open spec fn local_after(progress: Progress, event: EventView) -> Seq<char> {
    match (progress.job.waiting, event) {
        (Waiting::Delete, EventView::Done) => sentinel(),
        (Waiting::Truncate, EventView::Done) => blake3_hex(Seq::empty()),
        (Waiting::Create, EventView::Done) => blake3_hex(Seq::empty()),
        (Waiting::Restore, EventView::Done) => progress.job.record.entry.original,
        (Waiting::Write, EventView::Written(hash)) => hash,
        _ => progress.local,
    }
}

/// The progress after one more event.
pub open spec fn observe(progress: Progress, event: EventView) -> Progress {
    Progress {
        job: step(progress.job, event).0,
        local: local_after(progress, event),
        truncated: progress.truncated || (progress.job.waiting == Waiting::Truncate && event
            == EventView::Done),
    }
}

/// Where a run stands that found the file with the hash `local` and has seen
/// `events` since.
pub open spec fn run(record: RecordView, local: Seq<char>, events: Seq<EventView>) -> Progress
    decreases events.len(),
{
    if events.len() == 0 {
        Progress {
            job: begin(record, integrity_status(record.entry, local)).0,
            local,
            truncated: false,
        }
    } else {
        observe(run(record, local, events.drop_last()), events.last())
    }
}

/// What holds of a run at every point: a file that counts as fixed has the
/// fixed hash unless it was emptied in place of being removed, and only a
/// file that the fixed state lacks is ever removed or emptied.
pub open spec fn coherent(progress: Progress) -> bool {
    let job = progress.job;
    &&& job.status == IntegrityStatus::Fixed ==> progress.local == job.record.entry.fixed
        || progress.truncated
    &&& job.waiting == Waiting::Delete || job.waiting == Waiting::Truncate ==> job.status
        == IntegrityStatus::NeedDelete
    &&& job.status == IntegrityStatus::NeedDelete ==> job.record.entry.fixed == sentinel()
    &&& job.status == IntegrityStatus::Fixed ==> job.waiting == Waiting::Nothing
}

/// Every run is coherent at every point, and keeps its record.
pub proof fn lemma_run_is_coherent(record: RecordView, local: Seq<char>, events: Seq<EventView>)
    ensures
        coherent(run(record, local, events)),
        run(record, local, events).job.record == record,
    decreases events.len(),
{
    if events.len() > 0 {
        lemma_run_is_coherent(record, local, events.drop_last());
    }
}

/// A file that a run leaves as fixed is found fixed by the next run, except
/// where the run emptied the file because it could not remove it.
pub proof fn lemma_fixed_file_stays_fixed(
    record: RecordView,
    local: Seq<char>,
    events: Seq<EventView>,
)
    requires
        run(record, local, events).job.status == IntegrityStatus::Fixed,
        !run(record, local, events).truncated,
    ensures
        integrity_status(record.entry, run(record, local, events).local) == IntegrityStatus::Fixed,
{
    lemma_run_is_coherent(record, local, events);
}

/// The integrity pass of a second run over the files that a first run left
/// behind: each file is classified by the hash that the first run left.
pub open spec fn second_pass(
    records: Seq<RecordView>,
    locals: Seq<Seq<char>>,
    traces: Seq<Seq<EventView>>,
) -> Seq<(usize, Result<IntegrityStatus, String>)> {
    Seq::new(
        records.len(),
        |i: int|
            (
                i as usize,
                Ok::<IntegrityStatus, String>(
                    integrity_status(records[i].entry, run(records[i], locals[i], traces[i]).local),
                ),
            ),
    )
}

/// Running the consumer twice leaves nothing pending the second time: if
/// the first run left every file as fixed, and emptied none in place of
/// removing it, the integrity pass of the second run finds every file fixed
/// and its pending set is empty.
pub proof fn lemma_second_run_has_nothing_pending(
    records: Seq<RecordView>,
    locals: Seq<Seq<char>>,
    traces: Seq<Seq<EventView>>,
)
    requires
        locals.len() == records.len(),
        traces.len() == records.len(),
        forall|i: int|
            0 <= i < records.len() ==> (#[trigger] run(records[i], locals[i], traces[i])).job.status
                == IntegrityStatus::Fixed && !run(records[i], locals[i], traces[i]).truncated,
    ensures
        pending_of(second_pass(records, locals, traces)).len() == 0,
{
    let results = second_pass(records, locals, traces);
    assert forall|i: int| 0 <= i < results.len() implies (#[trigger] results[i]).1 == Ok::<
        IntegrityStatus,
        String,
    >(IntegrityStatus::Fixed) by {
        assert(run(records[i], locals[i], traces[i]).job.status == IntegrityStatus::Fixed);
        lemma_fixed_file_stays_fixed(records[i], locals[i], traces[i]);
    }
    crate::consumer::lemma_all_fixed_leaves_nothing_pending(results);
}

} // verus!
