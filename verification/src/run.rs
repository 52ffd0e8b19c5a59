//! The order of a consumer run. Two barriers divide it: no file is patched
//! before every download has ended, and no permission is set before every
//! patch has ended. A run that has begun a phase lets it end, so that every
//! failing file is reported, and fails as a whole if anything in it failed.

use vstd::prelude::*;
use crate::cache::CacheOutcome;
use crate::integrity::IntegrityStatus;

verus! {

/// What went wrong in a run.
#[derive(Clone, Copy, Debug, PartialEq, Eq, Structural)]
pub enum Failure {
    /// An artifact did not reach the cache.
    Download,
    /// A file did not reach its fixed state.
    Patch,
}

/// What a run is doing.
#[derive(Clone, Copy, Debug, PartialEq, Eq, Structural)]
pub enum Phase {
    /// Artifacts are being brought into the cache.
    Downloading,
    /// Every artifact is in the cache, and the pending files are being
    /// patched.
    Patching,
    /// Every pending file is fixed, and executable bits may be set.
    Permissions,
    /// The run has failed, and nothing more is done.
    Failed(Failure),
}

/// Where a run stands, as plain numbers.
pub struct RunView {
    /// Downloads that have not ended yet.
    pub downloads_left: nat,
    /// Whether a download has failed.
    pub download_failed: bool,
    /// Pending files whose patching has not ended yet.
    pub patches_left: nat,
    /// Whether a file has ended in another status than fixed.
    pub patch_failed: bool,
}

impl RunView {
    /// The phase of the run.
    pub open spec fn phase(self) -> Phase {
        if self.downloads_left > 0 {
            Phase::Downloading
        } else if self.download_failed {
            Phase::Failed(Failure::Download)
        } else if self.patches_left > 0 {
            Phase::Patching
        } else if self.patch_failed {
            Phase::Failed(Failure::Patch)
        } else {
            Phase::Permissions
        }
    }

    /// The run after a download has ended. It counts only while the run is
    /// downloading.
    pub open spec fn after_download(self, outcome: CacheOutcome) -> RunView {
        if self.phase() == Phase::Downloading {
            RunView {
                downloads_left: (self.downloads_left - 1) as nat,
                download_failed: self.download_failed || !outcome.is_success(),
                ..self
            }
        } else {
            self
        }
    }

    /// The run after the patching of a file has ended. It counts only while
    /// the run is patching.
    pub open spec fn after_patch(self, status: IntegrityStatus) -> RunView {
        if self.phase() == Phase::Patching {
            RunView {
                patches_left: (self.patches_left - 1) as nat,
                patch_failed: self.patch_failed || status != IntegrityStatus::Fixed,
                ..self
            }
        } else {
            self
        }
    }
}

/// The progress of one consumer run.
#[derive(Clone, Copy, Debug)]
pub struct Run {
    downloads_left: usize,
    download_failed: bool,
    patches_left: usize,
    patch_failed: bool,
}

impl View for Run {
    type V = RunView;

    closed spec fn view(&self) -> RunView {
        RunView {
            downloads_left: self.downloads_left as nat,
            download_failed: self.download_failed,
            patches_left: self.patches_left as nat,
            patch_failed: self.patch_failed,
        }
    }
}

impl Run {
    /// A run that has `downloads` artifacts to fetch and `pending` files to
    /// patch.
    pub fn new(downloads: usize, pending: usize) -> (run: Run)
        ensures
            run@ == (RunView {
                downloads_left: downloads as nat,
                download_failed: false,
                patches_left: pending as nat,
                patch_failed: false,
            }),
    {
        Run {
            downloads_left: downloads,
            download_failed: false,
            patches_left: pending,
            patch_failed: false,
        }
    }

    /// The phase of the run.
    pub fn phase(&self) -> (phase: Phase)
        ensures
            phase == self@.phase(),
    {
        if self.downloads_left > 0 {
            Phase::Downloading
        } else if self.download_failed {
            Phase::Failed(Failure::Download)
        } else if self.patches_left > 0 {
            Phase::Patching
        } else if self.patch_failed {
            Phase::Failed(Failure::Patch)
        } else {
            Phase::Permissions
        }
    }

    /// Takes in how a download ended and says what the run does now.
    pub fn download_finished(&mut self, outcome: CacheOutcome) -> (phase: Phase)
        ensures
            final(self)@ == old(self)@.after_download(outcome),
            phase == final(self)@.phase(),
    {
        if self.downloads_left > 0 {
            self.downloads_left = self.downloads_left - 1;
            if !outcome.succeeded() {
                self.download_failed = true;
            }
        }
        self.phase()
    }

    /// Takes in the status in which the patching of a file ended and says
    /// what the run does now.
    pub fn patch_finished(&mut self, status: IntegrityStatus) -> (phase: Phase)
        ensures
            final(self)@ == old(self)@.after_patch(status),
            phase == final(self)@.phase(),
    {
        if self.downloads_left == 0 && !self.download_failed && self.patches_left > 0 {
            self.patches_left = self.patches_left - 1;
            if status != IntegrityStatus::Fixed {
                self.patch_failed = true;
            }
        }
        self.phase()
    }
}

/// The run after a sequence of downloads has ended.
pub open spec fn after_downloads(run: RunView, outcomes: Seq<CacheOutcome>) -> RunView
    decreases outcomes.len(),
{
    if outcomes.len() == 0 {
        run
    } else {
        after_downloads(run, outcomes.drop_last()).after_download(outcomes.last())
    }
}

/// The run after the patching of a sequence of files has ended.
pub open spec fn after_patches(run: RunView, statuses: Seq<IntegrityStatus>) -> RunView
    decreases statuses.len(),
{
    if statuses.len() == 0 {
        run
    } else {
        after_patches(run, statuses.drop_last()).after_patch(statuses.last())
    }
}

/// The first barrier: a run downloads until every download has ended, and
/// goes on to patching exactly if every one of them succeeded.
pub proof fn lemma_patching_waits_for_downloads(run: RunView, outcomes: Seq<CacheOutcome>)
    requires
        !run.download_failed,
        run.patches_left > 0,
    ensures
        outcomes.len() < run.downloads_left ==> after_downloads(run, outcomes).phase()
            == Phase::Downloading,
        outcomes.len() == run.downloads_left ==> (after_downloads(run, outcomes).phase()
            == Phase::Patching <==> forall|i: int|
            0 <= i < outcomes.len() ==> (#[trigger] outcomes[i]).is_success()),
        outcomes.len() <= run.downloads_left ==> after_downloads(run, outcomes).downloads_left
            == run.downloads_left - outcomes.len() && after_downloads(run, outcomes).patches_left
            == run.patches_left && (after_downloads(run, outcomes).download_failed <==> exists|
            i: int,
        | 0 <= i < outcomes.len() && !(#[trigger] outcomes[i]).is_success()),
    decreases outcomes.len(),
{
    if outcomes.len() > 0 && outcomes.len() <= run.downloads_left {
        let rest = outcomes.drop_last();
        lemma_patching_waits_for_downloads(run, rest);
        let before = after_downloads(run, rest);
        assert(before.phase() == Phase::Downloading);
        if before.download_failed {
            let i = choose|i: int| 0 <= i < rest.len() && !(#[trigger] rest[i]).is_success();
            assert(!outcomes[i].is_success());
        }
        if !outcomes.last().is_success() {
            assert(!outcomes[outcomes.len() - 1].is_success());
        }
        if exists|i: int| 0 <= i < outcomes.len() && !(#[trigger] outcomes[i]).is_success() {
            let i = choose|i: int| 0 <= i < outcomes.len() && !(#[trigger] outcomes[i]).is_success();
            if i < rest.len() {
                assert(!rest[i].is_success());
            }
        }
    }
}

/// The second barrier: a run patches until the patching of every pending
/// file has ended, and goes on to the permissions exactly if every file
/// ended as fixed.
pub proof fn lemma_permissions_wait_for_patches(run: RunView, statuses: Seq<IntegrityStatus>)
    requires
        run.downloads_left == 0,
        !run.download_failed,
        !run.patch_failed,
    ensures
        statuses.len() < run.patches_left ==> after_patches(run, statuses).phase()
            == Phase::Patching,
        statuses.len() == run.patches_left ==> (after_patches(run, statuses).phase()
            == Phase::Permissions <==> forall|i: int|
            0 <= i < statuses.len() ==> #[trigger] statuses[i] == IntegrityStatus::Fixed),
        statuses.len() <= run.patches_left ==> after_patches(run, statuses).patches_left
            == run.patches_left - statuses.len() && after_patches(run, statuses).downloads_left == 0
            && !after_patches(run, statuses).download_failed && (after_patches(
            run,
            statuses,
        ).patch_failed <==> exists|i: int|
            0 <= i < statuses.len() && #[trigger] statuses[i] != IntegrityStatus::Fixed),
    decreases statuses.len(),
{
    if statuses.len() > 0 && statuses.len() <= run.patches_left {
        let rest = statuses.drop_last();
        lemma_permissions_wait_for_patches(run, rest);
        let before = after_patches(run, rest);
        assert(before.phase() == Phase::Patching);
        if before.patch_failed {
            let i = choose|i: int| 0 <= i < rest.len() && #[trigger] rest[i] != IntegrityStatus::Fixed;
            assert(statuses[i] != IntegrityStatus::Fixed);
        }
        if statuses.last() != IntegrityStatus::Fixed {
            assert(statuses[statuses.len() - 1] != IntegrityStatus::Fixed);
        }
        if exists|i: int| 0 <= i < statuses.len() && #[trigger] statuses[i] != IntegrityStatus::Fixed {
            let i = choose|i: int|
                0 <= i < statuses.len() && #[trigger] statuses[i] != IntegrityStatus::Fixed;
            if i < rest.len() {
                assert(rest[i] != IntegrityStatus::Fixed);
            }
        }
    }
}

} // verus!
