//! The producer: from the original and the fixed content of a file to its
//! manifest entry and its published artifacts.

use vstd::prelude::*;
use vstd::string::*;
use crate::compress::{compress, zstd_frame};
use crate::delta::{
    bsdiff_patch, faithful_delta, make_patch, patch_result, DeltaError, MAX_SOURCE_LEN,
};
use crate::hash::{blake3_hex, content_hash, content_view, digest_hex, sentinel, side_hash};
use crate::integrity::{integrity_status, IntegrityStatus};
use crate::artifact::{key_of_path, split_key};
use crate::json::{lemma_json_depends_on_content_only, manifest_json};
use crate::manifest::{EntryView, Manifest, ManifestEntry, ManifestKey};
use crate::text::text_eq;

verus! {

/// Whether `data` begins with the magic number of a native executable: of a
/// Windows image (`MZ`), of an ELF file, or of a 64-bit Mach-O file.
pub open spec fn has_executable_magic(data: Seq<u8>) -> bool {
    ||| data.len() >= 2 && data[0] == 0x4d && data[1] == 0x5a
    ||| data.len() >= 4 && data[0] == 0x7f && data[1] == 0x45 && data[2] == 0x4c && data[3] == 0x46
    ||| data.len() >= 4 && data[0] == 0xcf && data[1] == 0xfa && data[2] == 0xed && data[3] == 0xfe
}

/// Whether `data` begins with the magic number of a native executable.
pub fn is_executable(data: &[u8]) -> (r: bool)
    ensures
        r == has_executable_magic(data@),
{
    let n: usize = data.len();
    if n >= 2 && data[0] == 0x4d && data[1] == 0x5a {
        return true;
    }
    if n >= 4 && data[0] == 0x7f && data[1] == 0x45 && data[2] == 0x4c && data[3] == 0x46 {
        return true;
    }
    n >= 4 && data[0] == 0xcf && data[1] == 0xfa && data[2] == 0xed && data[3] == 0xfe
}

/// What the producer makes of one file.
#[derive(Debug, PartialEq, Eq)]
pub struct FileOutput {
    /// The file's line in the manifest.
    pub entry: ManifestEntry,
    /// The delta from the original to the fixed content, if the file exists
    /// in the fixed state.
    pub patch: Option<Vec<u8>>,
    /// The compressed original, if the file exists in the original state.
    pub original_compressed: Option<Vec<u8>>,
    /// The compressed symbol file, if the file has one.
    pub symbol_compressed: Option<Vec<u8>>,
}

/// The producer's output for one file as plain mathematical values.
pub struct FileOutputView {
    pub entry: EntryView,
    pub patch: Option<Seq<u8>>,
    pub original_compressed: Option<Seq<u8>>,
    pub symbol_compressed: Option<Seq<u8>>,
}

/// The bytes behind an optional vector.
pub open spec fn bytes_view(bytes: Option<Vec<u8>>) -> Option<Seq<u8>> {
    match bytes {
        Some(b) => Some(b@),
        None => None,
    }
}

impl View for FileOutput {
    type V = FileOutputView;

    open spec fn view(&self) -> FileOutputView {
        FileOutputView {
            entry: self.entry@,
            patch: bytes_view(self.patch),
            original_compressed: bytes_view(self.original_compressed),
            symbol_compressed: bytes_view(self.symbol_compressed),
        }
    }
}

/// Why a file has no output.
#[derive(Clone, Debug, PartialEq, Eq)]
pub enum ProduceError {
    /// Both sides have the same hash: nothing changes and no entry is made.
    Skipped,
    /// An artifact could not be made; the text says why. This ends the run.
    Fatal(String),
}

impl ProduceError {
    /// Whether the whole run has to stop.
    pub fn is_fatal(&self) -> (fatal: bool)
        ensures
            fatal == (self is Fatal),
    {
        match self {
            ProduceError::Skipped => false,
            ProduceError::Fatal(_) => true,
        }
    }

    /// The words shown for the error.
    pub fn message(&self) -> (text: String)
        ensures
            self matches ProduceError::Fatal(why) ==> text@ == why@,
            self is Skipped ==> text@ == "Skipped: Original hash matches Fixed hash"@,
    {
        match self {
            ProduceError::Skipped => String::from_str("Skipped: Original hash matches Fixed hash"),
            ProduceError::Fatal(why) => why.clone(),
        }
    }
}

/// The source of a file's delta: the original content, or no bytes at all for
/// a file that has no original.
pub open spec fn delta_source(original: Option<Seq<u8>>) -> Seq<u8> {
    match original {
        Some(data) => data,
        None => Seq::empty(),
    }
}

/// Whether the two sides have the same hash, in which case the file is
/// skipped.
pub open spec fn produce_skips(original: Option<Seq<u8>>, fixed: Option<Seq<u8>>) -> bool {
    side_hash(original) == side_hash(fixed)
}

/// The delta of a file that exists in the fixed state, where it can be
/// written.
pub open spec fn expected_patch(original: Option<Seq<u8>>, fixed: Option<Seq<u8>>) -> Option<Seq<u8>> {
    match fixed {
        Some(target) => bsdiff_patch(delta_source(original), target),
        None => None,
    }
}

/// Whether a file exists in the fixed state and no delta can be handed out
/// for it: its original is too long to be indexed, the delta cannot be
/// written, or the delta does not give back the fixed content.
pub open spec fn delta_fails(original: Option<Seq<u8>>, fixed: Option<Seq<u8>>) -> bool {
    fixed matches Some(target) && !(delta_source(original).len() <= MAX_SOURCE_LEN
        && faithful_delta(delta_source(original), target))
}

/// Whether the content is there and cannot be compressed.
pub open spec fn compression_fails(content: Option<Seq<u8>>) -> bool {
    content matches Some(data) && zstd_frame(data) is None
}

/// Whether one of the artifacts of a file cannot be made.
pub open spec fn produce_fails(
    original: Option<Seq<u8>>,
    fixed: Option<Seq<u8>>,
    symbol: Option<Seq<u8>>,
) -> bool {
    delta_fails(original, fixed) || compression_fails(original) || compression_fails(symbol)
}

/// The manifest entry of a file from the content of its two sides.
pub open spec fn expected_entry(original: Option<Seq<u8>>, fixed: Option<Seq<u8>>) -> EntryView {
    EntryView {
        original: side_hash(original),
        fixed: side_hash(fixed),
        patch: match expected_patch(original, fixed) {
            Some(patch) => Some(blake3_hex(patch)),
            None => None,
        },
        executable: match fixed {
            Some(target) => has_executable_magic(target),
            None => false,
        },
    }
}

/// The compressed copy of a side that exists, where it can be made.
pub open spec fn expected_compressed(content: Option<Seq<u8>>) -> Option<Seq<u8>> {
    match content {
        Some(data) => zstd_frame(data),
        None => None,
    }
}

/// Everything the producer makes of a file that is not skipped.
pub open spec fn expected_output(
    original: Option<Seq<u8>>,
    fixed: Option<Seq<u8>>,
    symbol: Option<Seq<u8>>,
) -> FileOutputView {
    FileOutputView {
        entry: expected_entry(original, fixed),
        patch: expected_patch(original, fixed),
        original_compressed: expected_compressed(original),
        symbol_compressed: expected_compressed(symbol),
    }
}

/// What the producer makes of a file, the words of a failure left aside.
pub enum Produced {
    /// Nothing: both sides have the same hash.
    Skipped,
    /// Nothing: an artifact cannot be made, which ends the run.
    Failed,
    /// The entry and the artifacts.
    Output(FileOutputView),
}

/// What the producer makes of a file with this content on its sides. It
/// depends on the content and on nothing else, so that two runs over the
/// same bytes end alike.
pub open spec fn produced(
    original: Option<Seq<u8>>,
    fixed: Option<Seq<u8>>,
    symbol: Option<Seq<u8>>,
) -> Produced {
    if produce_skips(original, fixed) {
        Produced::Skipped
    } else if produce_fails(original, fixed, symbol) {
        Produced::Failed
    } else {
        Produced::Output(expected_output(original, fixed, symbol))
    }
}

/// What a result of the producer stands for.
pub open spec fn outcome_of(r: Result<FileOutput, ProduceError>) -> Produced {
    match r {
        Ok(out) => Produced::Output(out@),
        Err(ProduceError::Skipped) => Produced::Skipped,
        Err(ProduceError::Fatal(_)) => Produced::Failed,
    }
}

/// Whether making an artifact was tried and failed.
pub open spec fn failed(made: Option<Result<Vec<u8>, String>>) -> bool {
    made matches Some(Err(_))
}

/// The bytes of an artifact that was made.
pub open spec fn made_bytes(made: Option<Result<Vec<u8>, String>>) -> Option<Seq<u8>> {
    match made {
        Some(Ok(bytes)) => Some(bytes@),
        _ => None,
    }
}

/// Whether a file whose two sides have these hashes is skipped: it is, if
/// the hashes are the same.
pub fn is_unchanged(original_hash: &str, fixed_hash: &str) -> (r: bool)
    ensures
        r == (original_hash@ == fixed_hash@),
{
    text_eq(original_hash, fixed_hash)
}

/// Puts the output of a file together from its hashes and from what making
/// each artifact gave.
///
/// The output exists exactly when no artifact failed. The entry then holds
/// the two hashes, the hash of the delta if there is one, and the flag.
pub fn assemble_output(
    original_hash: String,
    fixed_hash: String,
    executable: bool,
    patch: Option<Result<Vec<u8>, String>>,
    original_compressed: Option<Result<Vec<u8>, String>>,
    symbol_compressed: Option<Result<Vec<u8>, String>>,
) -> (r: Result<FileOutput, ProduceError>)
    ensures
        r is Ok <==> !failed(patch) && !failed(original_compressed) && !failed(symbol_compressed),
        r matches Ok(out) ==> out@ == (FileOutputView {
            entry: EntryView {
                original: original_hash@,
                fixed: fixed_hash@,
                patch: match made_bytes(patch) {
                    Some(bytes) => Some(blake3_hex(bytes)),
                    None => None,
                },
                executable,
            },
            patch: made_bytes(patch),
            original_compressed: made_bytes(original_compressed),
            symbol_compressed: made_bytes(symbol_compressed),
        }),
        r matches Err(e) ==> e is Fatal,
{
    let patch_bytes: Option<Vec<u8>> = match patch {
        Some(Ok(bytes)) => Some(bytes),
        Some(Err(why)) => {
            return Err(ProduceError::Fatal(why));
        },
        None => None,
    };
    let original_bytes: Option<Vec<u8>> = match original_compressed {
        Some(Ok(bytes)) => Some(bytes),
        Some(Err(why)) => {
            return Err(ProduceError::Fatal(why));
        },
        None => None,
    };
    let symbol_bytes: Option<Vec<u8>> = match symbol_compressed {
        Some(Ok(bytes)) => Some(bytes),
        Some(Err(why)) => {
            return Err(ProduceError::Fatal(why));
        },
        None => None,
    };
    let patch_hash: Option<String> = match &patch_bytes {
        Some(bytes) => Some(digest_hex(bytes.as_slice())),
        None => None,
    };
    Ok(
        FileOutput {
            entry: ManifestEntry {
                original: original_hash,
                fixed: fixed_hash,
                patch: patch_hash,
                executable,
            },
            patch: patch_bytes,
            original_compressed: original_bytes,
            symbol_compressed: symbol_bytes,
        },
    )
}

/// The words shown when no delta could be made, as characters.
pub open spec fn delta_failure_text(error: DeltaError) -> Seq<char> {
    match error {
        DeltaError::SourceTooLarge => "source data is too large to be indexed"@,
        DeltaError::NotAPatch => "not a valid patch"@,
        DeltaError::Unfaithful => "the patch does not give back the fixed file"@,
        DeltaError::Failed(why) => why@,
    }
}

/// The words shown when no delta could be made.
pub fn delta_failure(error: DeltaError) -> (text: String)
    ensures
        text@ == delta_failure_text(error),
{
    match error {
        DeltaError::SourceTooLarge => String::from_str("source data is too large to be indexed"),
        DeltaError::NotAPatch => String::from_str("not a valid patch"),
        DeltaError::Unfaithful => String::from_str("the patch does not give back the fixed file"),
        DeltaError::Failed(why) => why,
    }
}

/// Hashes both sides of a file, and unless the hashes agree makes the file's
/// delta, the compressed copies of its original and of its symbol file, and
/// its manifest entry.
///
/// What comes back is `produced` of the content: a file whose two sides have
/// the same hash is skipped; any other file has an output exactly if each of
/// its artifacts can be made, and the output is then `expected_output`.
/// The delta of the output, applied to the original, gives back the fixed
/// content, whose hash is the fixed hash of the entry.
/// A file that only one side has is never skipped: its entry holds the
/// reserved hash on the side that lacks it, and a consumer classifies it as
/// to be created, or as to be deleted.
pub fn hash_diff_compress_file(
    original: Option<&[u8]>,
    fixed: Option<&[u8]>,
    symbol: Option<&[u8]>,
) -> (r: Result<FileOutput, ProduceError>)
    ensures
        outcome_of(r) == produced(
            content_view(original),
            content_view(fixed),
            content_view(symbol),
        ),
        r matches Ok(out) ==> out.entry@.well_formed(),
        r matches Ok(out) ==> (content_view(fixed) matches Some(target) ==> patch_result(
            delta_source(content_view(original)),
            out.patch->Some_0@,
        ) == Some(target) && blake3_hex(target) == out.entry@.fixed),
        (original is None) != (fixed is None) ==> !produce_skips(
            content_view(original),
            content_view(fixed),
        ),
        original is None ==> (r matches Ok(out) ==> out.entry@.original == sentinel()
            && integrity_status(out.entry@, sentinel()) == IntegrityStatus::NeedWipeFix),
        fixed is None ==> (r matches Ok(out) ==> out.entry@.fixed == sentinel() && integrity_status(
            out.entry@,
            side_hash(content_view(original)),
        ) == IntegrityStatus::NeedDelete),
{
    let original_hash: String = content_hash(original);
    let fixed_hash: String = content_hash(fixed);
    if original_hash == fixed_hash {
        return Err(ProduceError::Skipped);
    }
    let patch: Option<Result<Vec<u8>, String>> = match fixed {
        Some(target) => {
            let empty: Vec<u8> = Vec::new();
            let source: &[u8] = match original {
                Some(data) => data,
                None => empty.as_slice(),
            };
            Some(
                match make_patch(source, target) {
                    Ok(bytes) => Ok(bytes),
                    Err(error) => Err(delta_failure(error)),
                },
            )
        },
        None => None,
    };
    let executable: bool = match fixed {
        Some(target) => is_executable(target),
        None => false,
    };
    let original_compressed: Option<Result<Vec<u8>, String>> = match original {
        Some(data) => Some(compress(data)),
        None => None,
    };
    let symbol_compressed: Option<Result<Vec<u8>, String>> = match symbol {
        Some(data) => Some(compress(data)),
        None => None,
    };
    assemble_output(
        original_hash,
        fixed_hash,
        executable,
        patch,
        original_compressed,
        symbol_compressed,
    )
}

/// Two runs of the producer over the same content of a file end alike: both
/// skip it, both fail on it, or both make the same entry and the same
/// artifacts, byte for byte.
pub proof fn lemma_producer_ends_alike(
    first: Result<FileOutput, ProduceError>,
    second: Result<FileOutput, ProduceError>,
    original: Option<Seq<u8>>,
    fixed: Option<Seq<u8>>,
    symbol: Option<Seq<u8>>,
)
    requires
        outcome_of(first) == produced(original, fixed, symbol),
        outcome_of(second) == produced(original, fixed, symbol),
    ensures
        outcome_of(first) == outcome_of(second),
        first is Ok <==> second is Ok,
        first matches Ok(a) ==> second matches Ok(b) && a@ == b@,
{
}

/// Puts the entry of the file with the relative path `path` into the
/// manifest, under the key that the path stands for. A path that stands for
/// no key leaves the manifest as it is.
pub fn add_entry(manifest: &mut Manifest, path: &str, entry: ManifestEntry) -> (added: bool)
    ensures
        final(manifest).wf(),
        match key_of_path(path@) {
            Some(key) => added && final(manifest)@ == old(manifest)@.insert(key, entry@),
            None => !added && final(manifest)@ == old(manifest)@,
        },
{
    match split_key(path) {
        Some((platform, branch, rest)) => {
            manifest.insert(platform, branch, rest, entry);
            true
        },
        None => {
            proof {
                use_type_invariant(&*manifest);
            }
            false
        },
    }
}

/// The mapping that results from putting entries into an empty manifest one
/// after the other.
pub open spec fn merged(entries: Seq<(ManifestKey, EntryView)>) -> Map<ManifestKey, EntryView>
    decreases entries.len(),
{
    if entries.len() == 0 {
        Map::empty()
    } else {
        merged(entries.drop_last()).insert(entries.last().0, entries.last().1)
    }
}

/// Whether no key occurs twice.
pub open spec fn distinct_keys(entries: Seq<(ManifestKey, EntryView)>) -> bool {
    forall|i: int, j: int|
        0 <= i < j < entries.len() ==> (#[trigger] entries[i]).0 != (#[trigger] entries[j]).0
}

/// Whether some entry has the key.
pub open spec fn names_key(entries: Seq<(ManifestKey, EntryView)>, key: ManifestKey) -> bool {
    exists|i: int| 0 <= i < entries.len() && (#[trigger] entries[i]).0 == key
}

/// What merging entries with distinct keys gives: exactly their keys, each
/// with its entry.
proof fn lemma_merged_holds(entries: Seq<(ManifestKey, EntryView)>)
    requires
        distinct_keys(entries),
    ensures
        forall|k: ManifestKey| #[trigger] merged(entries).dom().contains(k) <==> names_key(entries, k),
        forall|i: int|
            0 <= i < entries.len() ==> merged(entries)[(#[trigger] entries[i]).0] == entries[i].1,
    decreases entries.len(),
{
    if entries.len() > 0 {
        let rest = entries.drop_last();
        let last = entries.len() - 1;
        assert(distinct_keys(rest)) by {
            assert forall|i: int, j: int| 0 <= i < j < rest.len() implies (#[trigger] rest[i]).0 != (
            #[trigger] rest[j]).0 by {
                assert(entries[i].0 != entries[j].0);
            }
        }
        lemma_merged_holds(rest);
        assert forall|k: ManifestKey| #[trigger]
            merged(entries).dom().contains(k) <==> names_key(entries, k) by {
            if merged(entries).dom().contains(k) {
                if k == entries[last].0 {
                    assert(entries[last].0 == k);
                } else {
                    assert(merged(rest).dom().contains(k));
                    assert(names_key(rest, k));
                    let i = choose|i: int| 0 <= i < rest.len() && (#[trigger] rest[i]).0 == k;
                    assert(entries[i].0 == k);
                }
            }
            if names_key(entries, k) {
                let i = choose|i: int| 0 <= i < entries.len() && (#[trigger] entries[i]).0 == k;
                if i < last {
                    assert(rest[i].0 == k);
                    assert(names_key(rest, k));
                    assert(merged(rest).dom().contains(k));
                }
            }
        }
        assert forall|i: int| 0 <= i < entries.len() implies merged(entries)[(
        #[trigger] entries[i]).0] == entries[i].1 by {
            if i < last {
                assert(rest[i] == entries[i]);
                assert(entries[i].0 != entries[last].0);
            }
        }
    } else {
        assert forall|k: ManifestKey| #[trigger]
            merged(entries).dom().contains(k) <==> names_key(entries, k) by {}
    }
}

/// The manifest does not depend on the order in which the files were
/// worked on: two runs that produce the same entries, in whatever order, build
/// the same mapping, and so the same manifest file.
pub proof fn lemma_merge_ignores_order(
    a: Seq<(ManifestKey, EntryView)>,
    b: Seq<(ManifestKey, EntryView)>,
)
    requires
        distinct_keys(a),
        distinct_keys(b),
        forall|i: int| 0 <= i < a.len() ==> b.contains(#[trigger] a[i]),
        forall|i: int| 0 <= i < b.len() ==> a.contains(#[trigger] b[i]),
    ensures
        merged(a) == merged(b),
{
    lemma_merged_holds(a);
    lemma_merged_holds(b);
    assert forall|k: ManifestKey| merged(a).dom().contains(k) == merged(b).dom().contains(k) by {
        if names_key(a, k) {
            let i = choose|i: int| 0 <= i < a.len() && (#[trigger] a[i]).0 == k;
            assert(b.contains(a[i]));
            let j = choose|j: int| 0 <= j < b.len() && b[j] == a[i];
            assert(b[j].0 == k);
        }
        if names_key(b, k) {
            let i = choose|i: int| 0 <= i < b.len() && (#[trigger] b[i]).0 == k;
            assert(a.contains(b[i]));
            let j = choose|j: int| 0 <= j < a.len() && a[j] == b[i];
            assert(a[j].0 == k);
        }
    }
    assert forall|k: ManifestKey| merged(a).dom().contains(k) implies merged(a)[k] == merged(b)[k] by {
        assert(names_key(a, k));
        let i = choose|i: int| 0 <= i < a.len() && (#[trigger] a[i]).0 == k;
        assert(b.contains(a[i]));
        let j = choose|j: int| 0 <= j < b.len() && b[j] == a[i];
        assert(merged(a)[a[i].0] == a[i].1);
        assert(merged(b)[b[j].0] == b[j].1);
    }
    assert(merged(a) =~= merged(b));
}

/// The keys and entries of a list of files given by their relative paths.
pub open spec fn keyed(files: Seq<(String, ManifestEntry)>) -> Seq<(ManifestKey, EntryView)> {
    files.map_values(|f: (String, ManifestEntry)| (key_of_path(f.0@)->Some_0, f.1@))
}

/// Whether a file's relative path stands for no key.
pub open spec fn keyless(file: (String, ManifestEntry)) -> bool {
    key_of_path(file.0@) is None
}

/// Builds the manifest from the entries of all files, one after the other.
///
/// Fails exactly when the relative path of some file stands for no key, and
/// then hands back the position of the first such file.
pub fn merge_entries(files: &Vec<(String, ManifestEntry)>) -> (r: Result<Manifest, usize>)
    ensures
        match r {
            Ok(manifest) => manifest.wf() && manifest@ == merged(keyed(files@)) && forall|i: int|
                0 <= i < files.len() ==> !keyless(#[trigger] files[i]),
            Err(at) => at < files.len() && keyless(files[at as int]) && forall|i: int|
                0 <= i < at ==> !keyless(#[trigger] files[i]),
        },
{
    let mut manifest = Manifest::new();
    let mut i: usize = 0;
    proof {
        assert(keyed(files@.subrange(0, 0)) =~= Seq::<(ManifestKey, EntryView)>::empty());
    }
    while i < files.len()
        invariant
            i <= files.len(),
            manifest.wf(),
            manifest@ == merged(keyed(files@.subrange(0, i as int))),
            forall|j: int| 0 <= j < i ==> !keyless(#[trigger] files[j]),
        decreases files.len() - i,
    {
        let ghost before = keyed(files@.subrange(0, i as int));
        let ghost after = keyed(files@.subrange(0, i + 1));
        proof {
            assert(after.drop_last() =~= before);
            assert(after.last() == (key_of_path(files[i as int].0@)->Some_0, files[i as int].1@));
        }
        if !add_entry(&mut manifest, files[i].0.as_str(), files[i].1.copy()) {
            return Err(i);
        }
        i = i + 1;
    }
    proof {
        assert(files@.subrange(0, i as int) =~= files@);
    }
    Ok(manifest)
}

/// Running the producer twice over the same files gives the same manifest
/// file, byte for byte: the file depends on the entries that the runs
/// produce, not on the order in which the files were worked on.
pub proof fn lemma_manifest_file_ignores_order(
    a: Seq<(ManifestKey, EntryView)>,
    b: Seq<(ManifestKey, EntryView)>,
    first: Manifest,
    second: Manifest,
)
    requires
        distinct_keys(a),
        distinct_keys(b),
        forall|i: int| 0 <= i < a.len() ==> b.contains(#[trigger] a[i]),
        forall|i: int| 0 <= i < b.len() ==> a.contains(#[trigger] b[i]),
        first.wf(),
        second.wf(),
        first@ == merged(a),
        second@ == merged(b),
    ensures
        manifest_json(first.records()) == manifest_json(second.records()),
{
    lemma_merge_ignores_order(a, b);
    lemma_json_depends_on_content_only(first, second);
}

} // verus!
