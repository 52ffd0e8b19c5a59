//! Classification of a local file against its manifest entry.

use vstd::prelude::*;
use vstd::string::*;
use crate::hash::{sentinel, BLANK_FILE_HASH};
use crate::manifest::{EntryView, ManifestEntry};
use crate::text::text_eq;

verus! {

/// What has to happen to a local file before it matches the manifest.
#[derive(Clone, Copy, Debug, PartialEq, Eq, Hash, Structural)]
pub enum IntegrityStatus {
    /// The file no longer exists in the fixed state and must be removed.
    NeedDelete,
    /// The file matches neither state: the original must be restored first.
    NeedOriginal,
    /// The file has no original: it must be created empty, then patched.
    NeedWipeFix,
    /// The file is the original and only the delta must be applied.
    NeedFix,
    /// The file already has its fixed content.
    Fixed,
}

/// The status of a file whose local hash is `local`, the reserved hash
/// standing for a file that is absent.
pub open spec fn integrity_status(entry: EntryView, local: Seq<char>) -> IntegrityStatus {
    if local == entry.fixed {
        IntegrityStatus::Fixed
    } else if entry.fixed == sentinel() {
        IntegrityStatus::NeedDelete
    } else if entry.original == sentinel() {
        IntegrityStatus::NeedWipeFix
    } else if local == entry.original {
        IntegrityStatus::NeedFix
    } else {
        IntegrityStatus::NeedOriginal
    }
}

/// What reading a local file gave.
#[derive(Clone, Debug, PartialEq, Eq)]
pub enum LocalFile {
    /// There is no file at the path.
    Absent,
    /// The file exists and this is the hash of its content.
    Hashed(String),
    /// The file exists but could not be read; the text says why.
    Unreadable(String),
}

/// What is answered for a file that is said to exist and to have the
/// reserved hash: no content has it, so the file was not hashed.
pub const RESERVED_HASH_FAILURE: &'static str = "the hash of a file that exists cannot be the reserved one";

/// What looking for a local file, and hashing it where it was found, gave.
#[derive(Clone, Debug, PartialEq, Eq)]
pub enum Probe {
    /// Nothing lies at the path.
    NotFound,
    /// The path could not be looked up, for another reason than that nothing
    /// lies there; the text says why.
    LookupFailed(String),
    /// The file was found, and this is the hash of its content.
    Hashed(String),
    /// The file was found but could not be hashed; the text says why.
    HashFailed(String),
}

impl LocalFile {
    /// The hash that stands for the file, if it could be read. No content has
    /// the reserved hash, so a file that is said to have it counts as not
    /// read.
    pub open spec fn hash(self) -> Option<Seq<char>> {
        match self {
            LocalFile::Absent => Some(sentinel()),
            LocalFile::Hashed(h) => if h@ == sentinel() {
                None
            } else {
                Some(h@)
            },
            LocalFile::Unreadable(_) => None,
        }
    }

    /// Why a file that could not be read has no hash.
    pub open spec fn failure(self) -> Seq<char> {
        match self {
            LocalFile::Unreadable(why) => why@,
            _ => RESERVED_HASH_FAILURE@,
        }
    }

    /// What a probe says of the local file: it is absent only if nothing
    /// lies at its path. Any other failure of looking it up, like a failure
    /// of hashing it, is a failure of reading it.
    pub fn from_probe(probe: Probe) -> (local: LocalFile)
        ensures
            local == match probe {
                Probe::NotFound => LocalFile::Absent,
                Probe::LookupFailed(why) => LocalFile::Unreadable(why),
                Probe::Hashed(hash) => LocalFile::Hashed(hash),
                Probe::HashFailed(why) => LocalFile::Unreadable(why),
            },
    {
        match probe {
            Probe::NotFound => LocalFile::Absent,
            Probe::LookupFailed(why) => LocalFile::Unreadable(why),
            Probe::Hashed(hash) => LocalFile::Hashed(hash),
            Probe::HashFailed(why) => LocalFile::Unreadable(why),
        }
    }
}

/// Classifies a file whose local hash is `local`.
pub fn classify(local: &str, entry: &ManifestEntry) -> (status: IntegrityStatus)
    ensures
        status == integrity_status(entry@, local@),
{
    if text_eq(local, entry.fixed.as_str()) {
        IntegrityStatus::Fixed
    } else if text_eq(entry.fixed.as_str(), BLANK_FILE_HASH) {
        IntegrityStatus::NeedDelete
    } else if text_eq(entry.original.as_str(), BLANK_FILE_HASH) {
        IntegrityStatus::NeedWipeFix
    } else if text_eq(local, entry.original.as_str()) {
        IntegrityStatus::NeedFix
    } else {
        IntegrityStatus::NeedOriginal
    }
}

/// Classifies a local file from what reading it gave. A file that could not
/// be read has no status: the reason is handed back instead. That is also
/// the answer for a file that is said to exist with the reserved hash.
pub fn determine_file_integrity_status(local: &LocalFile, entry: &ManifestEntry) -> (r: Result<
    IntegrityStatus,
    String,
>)
    ensures
        match local.hash() {
            Some(h) => r == Ok::<IntegrityStatus, String>(integrity_status(entry@, h)),
            None => r is Err && r->Err_0@ == local.failure(),
        },
{
    match local {
        LocalFile::Absent => Ok(classify(BLANK_FILE_HASH, entry)),
        LocalFile::Hashed(h) => {
            if text_eq(h.as_str(), BLANK_FILE_HASH) {
                Err(String::from_str(RESERVED_HASH_FAILURE))
            } else {
                Ok(classify(h.as_str(), entry))
            }
        },
        LocalFile::Unreadable(why) => Err(why.clone()),
    }
}

/// The words shown for a status.
pub fn status_label(status: IntegrityStatus) -> (label: &'static str)
    ensures
        label@ == status_label_text(status),
{
    match status {
        IntegrityStatus::NeedDelete => "Needs Delete",
        IntegrityStatus::NeedOriginal => "Needs Original + Fix",
        IntegrityStatus::NeedWipeFix => "Needs Wipe + Fix",
        IntegrityStatus::NeedFix => "Needs Fix",
        IntegrityStatus::Fixed => "Already Fixed",
    }
}

/// The words shown for a status, as characters.
pub open spec fn status_label_text(status: IntegrityStatus) -> Seq<char> {
    match status {
        IntegrityStatus::NeedDelete => "Needs Delete"@,
        IntegrityStatus::NeedOriginal => "Needs Original + Fix"@,
        IntegrityStatus::NeedWipeFix => "Needs Wipe + Fix"@,
        IntegrityStatus::NeedFix => "Needs Fix"@,
        IntegrityStatus::Fixed => "Already Fixed"@,
    }
}

/// A file whose local hash is the fixed hash needs nothing, and no other file
/// is classified as fixed.
pub proof fn lemma_fixed_iff_hash_matches(entry: EntryView, local: Seq<char>)
    ensures
        integrity_status(entry, local) == IntegrityStatus::Fixed <==> local == entry.fixed,
{
}

/// A file that only the fixed state has, and that is absent locally, is
/// created empty and then patched.
pub proof fn lemma_created_file_needs_wipe_fix(entry: EntryView)
    requires
        entry.original == sentinel(),
        entry.fixed != sentinel(),
    ensures
        integrity_status(entry, sentinel()) == IntegrityStatus::NeedWipeFix,
{
}

/// A file that only the original state has, and whose local copy is that
/// original, is deleted.
pub proof fn lemma_removed_file_needs_delete(entry: EntryView)
    requires
        entry.fixed == sentinel(),
        entry.original != sentinel(),
    ensures
        integrity_status(entry, entry.original) == IntegrityStatus::NeedDelete,
{
}

} // verus!
