//! The consumer's bookkeeping: which files are pending after the integrity
//! pass, what has to be downloaded for them, and whether the run succeeded.

use vstd::prelude::*;
use vstd::string::*;
use crate::artifact::{make_original_name, make_patch_name, original_name, patch_name};
use crate::integrity::IntegrityStatus;
use crate::manifest::{Manifest, RecordView};

verus! {

/// A file that is not in its fixed state.
#[derive(Clone, Copy, Debug, PartialEq, Eq, Structural)]
pub struct Pending {
    /// Index of the file's record in the manifest.
    pub file: usize,
    /// What the integrity pass, or the last remediation, found.
    pub status: IntegrityStatus,
}

/// Whether the integrity pass could not read some file.
pub open spec fn any_unreadable(results: Seq<(usize, Result<IntegrityStatus, String>)>) -> bool {
    exists|i: int| 0 <= i < results.len() && (#[trigger] results[i]).1 is Err
}

/// The files that are not fixed, in the order of the pass.
pub open spec fn pending_of(results: Seq<(usize, Result<IntegrityStatus, String>)>) -> Seq<Pending>
    decreases results.len(),
{
    if results.len() == 0 {
        Seq::empty()
    } else {
        let rest = pending_of(results.drop_last());
        match results.last().1 {
            Ok(status) => if status != IntegrityStatus::Fixed {
                rest.push(Pending { file: results.last().0, status })
            } else {
                rest
            },
            Err(_) => rest,
        }
    }
}

/// The pending set of a finished integrity pass.
///
/// A file that could not be read makes the whole pass fail: a plan built on
/// unreliable reads cannot be trusted. Otherwise the files that are not
/// fixed are handed back in the order of the pass.
pub fn pending_files(results: &Vec<(usize, Result<IntegrityStatus, String>)>) -> (r: Option<
    Vec<Pending>,
>)
    ensures
        r is None <==> any_unreadable(results@),
        r matches Some(pending) ==> pending@ == pending_of(results@),
{
    let mut pending: Vec<Pending> = Vec::new();
    let mut i: usize = 0;
    while i < results.len()
        invariant
            i <= results.len(),
            !any_unreadable(results@.subrange(0, i as int)),
            pending@ == pending_of(results@.subrange(0, i as int)),
        decreases results.len() - i,
    {
        let ghost before = results@.subrange(0, i as int);
        let ghost after = results@.subrange(0, i + 1);
        proof {
            assert(after.drop_last() =~= before);
            assert(after.last() == results@[i as int]);
        }
        match &results[i].1 {
            Ok(status) => {
                if *status != IntegrityStatus::Fixed {
                    pending.push(Pending { file: results[i].0, status: *status });
                }
            },
            Err(_) => {
                proof {
                    assert(results@[i as int].1 is Err);
                }
                return None;
            },
        }
        proof {
            if any_unreadable(after) {
                let w = choose|w: int| 0 <= w < after.len() && (#[trigger] after[w]).1 is Err;
                if w < i {
                    assert(before[w].1 is Err);
                }
            }
        }
        i = i + 1;
    }
    proof {
        assert(results@.subrange(0, i as int) =~= results@);
    }
    Some(pending)
}

/// When every file of a pass is fixed, nothing is pending.
pub proof fn lemma_all_fixed_leaves_nothing_pending(
    results: Seq<(usize, Result<IntegrityStatus, String>)>,
)
    requires
        forall|i: int|
            0 <= i < results.len() ==> (#[trigger] results[i]).1 == Ok::<IntegrityStatus, String>(
                IntegrityStatus::Fixed,
            ),
    ensures
        pending_of(results).len() == 0,
        !any_unreadable(results),
    decreases results.len(),
{
    if results.len() > 0 {
        let rest = results.drop_last();
        assert forall|i: int| 0 <= i < rest.len() implies (#[trigger] rest[i]).1 == Ok::<
            IntegrityStatus,
            String,
        >(IntegrityStatus::Fixed) by {
            assert(rest[i] == results[i]);
        }
        lemma_all_fixed_leaves_nothing_pending(rest);
        assert(results.last() == results[results.len() - 1]);
    }
}

/// An artifact to fetch into the cache.
#[derive(Debug, PartialEq, Eq)]
pub struct Download {
    /// The artifact's name below the root of the mirrors.
    pub name: String,
    /// The hash that the stored artifact must have.
    pub hash: String,
}

/// A download as plain mathematical values.
pub struct DownloadView {
    pub name: Seq<char>,
    pub hash: Seq<char>,
}

impl View for Download {
    type V = DownloadView;

    open spec fn view(&self) -> DownloadView {
        DownloadView { name: self.name@, hash: self.hash@ }
    }
}

/// The views of a list of downloads.
pub open spec fn downloads_view(downloads: Seq<Download>) -> Seq<DownloadView> {
    downloads.map_values(|d: Download| d@)
}

/// Whether a pending file needs a delta that its entry does not name.
pub open spec fn lacks_patch(record: RecordView, status: IntegrityStatus) -> bool {
    status != IntegrityStatus::NeedDelete && record.entry.patch is None
}

/// Whether nothing can be planned for a pending file: it names no record, or
/// it needs a delta that its entry does not name.
pub open spec fn unplannable(records: Seq<RecordView>, pending: Pending) -> bool {
    pending.file >= records.len() || lacks_patch(records[pending.file as int], pending.status)
}

/// What a pending file needs from the mirrors: its compressed original if the
/// local copy matches neither state, and its delta unless it is only deleted.
pub open spec fn downloads_for(record: RecordView, status: IntegrityStatus) -> Seq<DownloadView> {
    let original = if status == IntegrityStatus::NeedOriginal {
        seq![DownloadView { name: original_name(record.key()), hash: record.entry.original }]
    } else {
        Seq::empty()
    };
    let patch = if status != IntegrityStatus::NeedDelete {
        seq![DownloadView { name: patch_name(record.key()), hash: record.entry.patch->Some_0 }]
    } else {
        Seq::empty()
    };
    original + patch
}

/// Everything the pending set needs from the mirrors, file by file.
pub open spec fn planned(records: Seq<RecordView>, pending: Seq<Pending>) -> Seq<DownloadView>
    decreases pending.len(),
{
    if pending.len() == 0 {
        Seq::empty()
    } else {
        planned(records, pending.drop_last()) + downloads_for(
            records[pending.last().file as int],
            pending.last().status,
        )
    }
}

/// Lists what has to be downloaded before any file is patched.
///
/// Fails exactly when some pending file is unplannable, and then hands back
/// the position of the first such file in `pending`.
pub fn plan_downloads(manifest: &Manifest, pending: &Vec<Pending>) -> (r: Result<
    Vec<Download>,
    usize,
>)
    ensures
        match r {
            Ok(downloads) => downloads_view(downloads@) == planned(manifest.records(), pending@)
                && forall|k: int|
                0 <= k < pending.len() ==> !unplannable(manifest.records(), #[trigger] pending[k]),
            Err(k) => k < pending.len() && unplannable(manifest.records(), pending[k as int])
                && forall|j: int|
                0 <= j < k ==> !unplannable(manifest.records(), #[trigger] pending[j]),
        },
{
    let ghost recs = manifest.records();
    let mut downloads: Vec<Download> = Vec::new();
    let mut k: usize = 0;
    while k < pending.len()
        invariant
            recs == manifest.records(),
            k <= pending.len(),
            downloads_view(downloads@) == planned(recs, pending@.subrange(0, k as int)),
            forall|j: int| 0 <= j < k ==> !unplannable(recs, #[trigger] pending[j]),
        decreases pending.len() - k,
    {
        let file: usize = pending[k].file;
        let status: IntegrityStatus = pending[k].status;
        if file >= manifest.len() {
            return Err(k);
        }
        let record = manifest.record_at(file);
        let ghost before = downloads_view(downloads@);
        proof {
            assert(pending@.subrange(0, k + 1).drop_last() =~= pending@.subrange(0, k as int));
            assert(pending@.subrange(0, k + 1).last() == pending@[k as int]);
        }
        if status == IntegrityStatus::NeedOriginal {
            let download = Download {
                name: make_original_name(
                    record.platform.as_str(),
                    record.branch.as_str(),
                    record.path.as_str(),
                ),
                hash: record.entry.original.clone(),
            };
            let ghost held = downloads@;
            downloads.push(download);
            proof {
                assert(downloads_view(downloads@) =~= downloads_view(held).push(download@));
            }
        }
        if status != IntegrityStatus::NeedDelete {
            match &record.entry.patch {
                Some(hash) => {
                    let download = Download {
                        name: make_patch_name(
                            record.platform.as_str(),
                            record.branch.as_str(),
                            record.path.as_str(),
                        ),
                        hash: hash.clone(),
                    };
                    let ghost held = downloads@;
                    downloads.push(download);
                    proof {
                        assert(downloads_view(downloads@) =~= downloads_view(held).push(download@));
                    }
                },
                None => {
                    return Err(k);
                },
            }
        }
        proof {
            assert(downloads_view(downloads@) =~= before + downloads_for(record@, status));
        }
        k = k + 1;
    }
    proof {
        assert(pending@.subrange(0, k as int) =~= pending@);
    }
    Ok(downloads)
}

/// Whether `marked` lists, in the order of `picked`, exactly those picked
/// files whose entry carries the executable flag.
pub open spec fn marks_executables(marked: Seq<usize>, records: Seq<RecordView>, picked: Seq<usize>) -> bool {
    marked == picked.filter(|file: usize| file < records.len() && records[file as int].entry.executable)
}

/// The files whose executable bit has to be set. This runs over every file
/// of the branch, not only over the pending ones: a permission can be lost
/// where no content changed.
pub fn executable_files(manifest: &Manifest, picked: &Vec<usize>) -> (marked: Vec<usize>)
    ensures
        marks_executables(marked@, manifest.records(), picked@),
{
    let ghost recs = manifest.records();
    let ghost wanted = |file: usize| file < recs.len() && recs[file as int].entry.executable;
    let mut marked: Vec<usize> = Vec::new();
    let mut i: usize = 0;
    proof {
        reveal(Seq::filter);
        assert(picked@.subrange(0, 0) =~= Seq::<usize>::empty());
    }
    while i < picked.len()
        invariant
            recs == manifest.records(),
            wanted == |file: usize| file < recs.len() && recs[file as int].entry.executable,
            i <= picked.len(),
            marked@ == picked@.subrange(0, i as int).filter(wanted),
        decreases picked.len() - i,
    {
        let file: usize = picked[i];
        proof {
            reveal(Seq::filter);
            assert(picked@.subrange(0, i + 1).drop_last() =~= picked@.subrange(0, i as int));
            assert(picked@.subrange(0, i + 1).last() == file);
        }
        if file < manifest.len() {
            if manifest.record_at(file).entry.executable {
                marked.push(file);
            }
        }
        i = i + 1;
    }
    proof {
        assert(picked@.subrange(0, i as int) =~= picked@);
    }
    marked
}

/// The bits of a file's mode that let its owner, its group and everyone
/// else execute it.
pub const EXECUTE_BITS: u32 = 0o111;

/// The mode of an executable: the mode it has, with every execute bit set.
pub fn executable_mode(mode: u32) -> (r: u32)
    ensures
        r == mode | EXECUTE_BITS,
{
    mode | EXECUTE_BITS
}

} // verus!
