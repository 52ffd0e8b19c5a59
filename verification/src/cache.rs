//! Bringing one artifact into the local cache, step by step.
//!
//! An artifact in the cache is valid if and only if its hash is the expected
//! one: there is no other record of what the cache holds. A file that is
//! there with another hash is fetched again and overwritten.

use vstd::prelude::*;
use vstd::string::*;
use crate::artifact::{cache_name, is_compressed, is_compressed_name, make_cache_name};
use crate::compress::{decompress, zstd_content};
use crate::consumer::{Download, DownloadView};
use crate::text::text_eq;

verus! {

/// What the caller is asked to do.
#[derive(Debug, PartialEq, Eq)]
pub enum CacheAction {
    /// Hash the file that the cache holds under this name, if there is one.
    Probe(String),
    /// Get the artifact of this name from the mirrors.
    Fetch(String),
    /// Store these bytes in the cache under this name, then hash the stored
    /// file.
    Store(String, Vec<u8>),
    /// Nothing is left to do: this is how it ended.
    Finish(CacheOutcome),
}

/// An action as plain mathematical values.
pub enum CacheActionView {
    Probe(Seq<char>),
    Fetch(Seq<char>),
    Store(Seq<char>, Seq<u8>),
    Finish(CacheOutcome),
}

impl View for CacheAction {
    type V = CacheActionView;

    open spec fn view(&self) -> CacheActionView {
        match self {
            CacheAction::Probe(name) => CacheActionView::Probe(name@),
            CacheAction::Fetch(name) => CacheActionView::Fetch(name@),
            CacheAction::Store(name, bytes) => CacheActionView::Store(name@, bytes@),
            CacheAction::Finish(outcome) => CacheActionView::Finish(*outcome),
        }
    }
}

/// How bringing an artifact into the cache ended.
#[derive(Clone, Copy, Debug, PartialEq, Eq, Structural)]
pub enum CacheOutcome {
    /// The cache already held the artifact with the expected hash.
    FromCache,
    /// The artifact was fetched and stored, and has the expected hash.
    Downloaded,
    /// No mirror delivered the artifact.
    Unavailable,
    /// What was fetched is not a Zstandard frame.
    NotDecompressed,
    /// The artifact could not be stored or read back.
    NotStored,
    /// The stored artifact does not have the expected hash.
    Mismatch,
}

impl CacheOutcome {
    /// Whether the cache now holds the artifact.
    pub open spec fn is_success(self) -> bool {
        self == CacheOutcome::FromCache || self == CacheOutcome::Downloaded
    }

    /// Whether the cache now holds the artifact.
    pub fn succeeded(&self) -> (r: bool)
        ensures
            r == self.is_success(),
    {
        match self {
            CacheOutcome::FromCache => true,
            CacheOutcome::Downloaded => true,
            _ => false,
        }
    }
}

/// What carrying out an action gave.
#[derive(Debug, PartialEq, Eq)]
pub enum CacheEvent {
    /// The hash of the file in the cache, or `None` if there is no such file
    /// or it could not be read.
    Probed(Option<String>),
    /// The bytes that a mirror delivered.
    Fetched(Vec<u8>),
    /// The bytes were stored, and hashing the stored file gave this hash.
    Stored(String),
    /// The action failed; the text says why.
    Failed(String),
}

/// An event as plain mathematical values.
pub enum CacheEventView {
    Probed(Option<Seq<char>>),
    Fetched(Seq<u8>),
    Stored(Seq<char>),
    Failed(Seq<char>),
}

impl View for CacheEvent {
    type V = CacheEventView;

    open spec fn view(&self) -> CacheEventView {
        match self {
            CacheEvent::Probed(hash) => CacheEventView::Probed(
                match hash {
                    Some(h) => Some(h@),
                    None => None,
                },
            ),
            CacheEvent::Fetched(bytes) => CacheEventView::Fetched(bytes@),
            CacheEvent::Stored(hash) => CacheEventView::Stored(hash@),
            CacheEvent::Failed(why) => CacheEventView::Failed(why@),
        }
    }
}

/// The action whose outcome a job waits for.
#[derive(Clone, Copy, Debug, PartialEq, Eq, Structural)]
pub enum CacheWaiting {
    Probe,
    Fetch,
    Store,
    /// The job is finished.
    Nothing,
}

/// A job as plain mathematical values.
pub struct CacheJobView {
    /// The artifact and the hash it must have.
    pub download: DownloadView,
    /// The action that is outstanding.
    pub waiting: CacheWaiting,
}

/// The job that ends now.
pub open spec fn cache_finished(job: CacheJobView, outcome: CacheOutcome) -> (
    CacheJobView,
    CacheActionView,
) {
    (CacheJobView { waiting: CacheWaiting::Nothing, ..job }, CacheActionView::Finish(outcome))
}

/// The job for a download and its first action: to look in the cache.
pub open spec fn cache_begin(download: DownloadView) -> (CacheJobView, CacheActionView) {
    (
        CacheJobView { download, waiting: CacheWaiting::Probe },
        CacheActionView::Probe(cache_name(download.name)),
    )
}

/// The bytes that are stored for what a mirror delivered: the content of the
/// frame for an artifact that is served compressed, the bytes themselves for
/// any other. `None` where a compressed artifact is not a frame.
pub open spec fn stored_form(name: Seq<char>, fetched: Seq<u8>) -> Option<Seq<u8>> {
    if is_compressed_name(name) {
        zstd_content(fetched)
    } else {
        Some(fetched)
    }
}

/// The job after `event`, and the next action.
///
/// A cached file with the expected hash ends the job without any request.
/// Otherwise the artifact is fetched, decompressed where it is served
/// compressed, and stored; it counts only if the stored file then has the
/// expected hash.
pub open spec fn cache_step(job: CacheJobView, event: CacheEventView) -> (
    CacheJobView,
    CacheActionView,
) {
    match (job.waiting, event) {
        (CacheWaiting::Probe, CacheEventView::Probed(found)) => if found == Some(job.download.hash) {
            cache_finished(job, CacheOutcome::FromCache)
        } else {
            (
                CacheJobView { waiting: CacheWaiting::Fetch, ..job },
                CacheActionView::Fetch(job.download.name),
            )
        },
        (CacheWaiting::Probe, _) => (
            CacheJobView { waiting: CacheWaiting::Fetch, ..job },
            CacheActionView::Fetch(job.download.name),
        ),
        (CacheWaiting::Fetch, CacheEventView::Fetched(bytes)) => match stored_form(
            job.download.name,
            bytes,
        ) {
            Some(content) => (
                CacheJobView { waiting: CacheWaiting::Store, ..job },
                CacheActionView::Store(cache_name(job.download.name), content),
            ),
            None => cache_finished(job, CacheOutcome::NotDecompressed),
        },
        (CacheWaiting::Fetch, _) => cache_finished(job, CacheOutcome::Unavailable),
        (CacheWaiting::Store, CacheEventView::Stored(hash)) => if hash == job.download.hash {
            cache_finished(job, CacheOutcome::Downloaded)
        } else {
            cache_finished(job, CacheOutcome::Mismatch)
        },
        (CacheWaiting::Store, _) => cache_finished(job, CacheOutcome::NotStored),
        (CacheWaiting::Nothing, _) => cache_finished(job, CacheOutcome::NotStored),
    }
}

/// Bringing one artifact into the cache.
#[derive(Debug)]
pub struct CacheJob {
    name: String,
    hash: String,
    waiting: CacheWaiting,
}

impl View for CacheJob {
    type V = CacheJobView;

    closed spec fn view(&self) -> CacheJobView {
        CacheJobView {
            download: DownloadView { name: self.name@, hash: self.hash@ },
            waiting: self.waiting,
        }
    }
}

impl CacheJob {
    /// Starts on a download and hands out the first action.
    pub fn start(download: &Download) -> (r: (CacheJob, CacheAction))
        ensures
            (r.0@, r.1@) == cache_begin(download@),
    {
        let job = CacheJob {
            name: download.name.clone(),
            hash: download.hash.clone(),
            waiting: CacheWaiting::Probe,
        };
        let probe = make_cache_name(job.name.as_str());
        (job, CacheAction::Probe(probe))
    }

    /// Whether the job is finished.
    pub fn is_finished(&self) -> (r: bool)
        ensures
            r == (self@.waiting == CacheWaiting::Nothing),
    {
        self.waiting == CacheWaiting::Nothing
    }

    /// Ends the job.
    fn finish(self, outcome: CacheOutcome) -> (r: (CacheJob, CacheAction))
        ensures
            (r.0@, r.1@) == cache_finished(self@, outcome),
    {
        (
            CacheJob { name: self.name, hash: self.hash, waiting: CacheWaiting::Nothing },
            CacheAction::Finish(outcome),
        )
    }

    /// Goes on to fetching the artifact.
    fn fetch(self) -> (r: (CacheJob, CacheAction))
        ensures
            r.0@ == (CacheJobView { waiting: CacheWaiting::Fetch, ..self@ }),
            r.1@ == CacheActionView::Fetch(self@.download.name),
    {
        let name = self.name.clone();
        (
            CacheJob { name: self.name, hash: self.hash, waiting: CacheWaiting::Fetch },
            CacheAction::Fetch(name),
        )
    }

    /// Goes on to storing `content`.
    fn store(self, content: Vec<u8>) -> (r: (CacheJob, CacheAction))
        ensures
            r.0@ == (CacheJobView { waiting: CacheWaiting::Store, ..self@ }),
            r.1@ == CacheActionView::Store(cache_name(self@.download.name), content@),
    {
        let name = make_cache_name(self.name.as_str());
        (
            CacheJob { name: self.name, hash: self.hash, waiting: CacheWaiting::Store },
            CacheAction::Store(name, content),
        )
    }

    /// Takes in what the outstanding action gave and hands out the next
    /// action, as `cache_step` says.
    pub fn advance(self, event: CacheEvent) -> (r: (CacheJob, CacheAction))
        ensures
            (r.0@, r.1@) == cache_step(self@, event@),
    {
        match self.waiting {
            CacheWaiting::Probe => match event {
                CacheEvent::Probed(Some(found)) => {
                    if text_eq(found.as_str(), self.hash.as_str()) {
                        self.finish(CacheOutcome::FromCache)
                    } else {
                        self.fetch()
                    }
                },
                _ => self.fetch(),
            },
            CacheWaiting::Fetch => match event {
                CacheEvent::Fetched(bytes) => {
                    if is_compressed(self.name.as_str()) {
                        match decompress(bytes.as_slice()) {
                            Ok(content) => self.store(content),
                            Err(_) => self.finish(CacheOutcome::NotDecompressed),
                        }
                    } else {
                        self.store(bytes)
                    }
                },
                _ => self.finish(CacheOutcome::Unavailable),
            },
            CacheWaiting::Store => match event {
                CacheEvent::Stored(hash) => {
                    if text_eq(hash.as_str(), self.hash.as_str()) {
                        self.finish(CacheOutcome::Downloaded)
                    } else {
                        self.finish(CacheOutcome::Mismatch)
                    }
                },
                _ => self.finish(CacheOutcome::NotStored),
            },
            CacheWaiting::Nothing => self.finish(CacheOutcome::NotStored),
        }
    }
}

/// A download ends well only on a hash that equals the expected one: the
/// hash of the file found in the cache, or the hash of the file that was
/// stored.
pub proof fn lemma_success_rests_on_the_hash(job: CacheJobView, event: CacheEventView)
    requires
        cache_step(job, event).1 matches CacheActionView::Finish(outcome) && outcome.is_success(),
    ensures
        event == CacheEventView::Probed(Some(job.download.hash)) || event == CacheEventView::Stored(
            job.download.hash,
        ),
{
}

/// A file in the cache with the expected hash is used as it is: nothing is
/// requested from any mirror.
pub proof fn lemma_valid_cache_entry_needs_no_request(download: DownloadView)
    ensures
        cache_step(cache_begin(download).0, CacheEventView::Probed(Some(download.hash))).1
            == CacheActionView::Finish(CacheOutcome::FromCache),
{
}

} // verus!
