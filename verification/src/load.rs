//! Reading the manifest file back into a manifest.

use std::collections::BTreeMap;
use vstd::prelude::*;
use vstd::string::*;
use crate::artifact::join_relative;
use crate::manifest::{entry_of_fields, fields_view, EntryView, Manifest, ManifestEntry, ManifestKey};

verus! {

/// The members of one file's object: names and values.
pub type Members = Seq<(Seq<char>, Seq<char>)>;

/// The files of one branch: paths and members.
pub type Files = Seq<(Seq<char>, Members)>;

/// The branches of one platform.
pub type Branches = Seq<(Seq<char>, Files)>;

/// The platforms of a manifest file.
pub type Platforms = Seq<(Seq<char>, Branches)>;

/// What a manifest file holds, level by level and each level in the order of
/// its keys, or `None` if the text is not JSON of that shape: objects nested
/// four levels deep with strings as the innermost values.
pub uninterp spec fn parsed_manifest(text: Seq<char>) -> Option<Platforms>;

/// The levels of a manifest file as they are handed around.
pub struct Nested {
    pub platforms: Vec<(String, Vec<(String, Vec<(String, Vec<(String, String)>)>)>)>,
}

impl View for Nested {
    type V = Platforms;

    open spec fn view(&self) -> Platforms {
        self.platforms.deep_view()
    }
}

/// Parses the text of a manifest file.
///
/// Calls `serde_json::from_str` for maps nested four levels deep, with text
/// as keys and as innermost values, and lists each map in the order of its
/// keys. The call fails exactly on text that is not JSON of that shape, and
/// then the parser's message is handed back.
#[verifier::external_body]
pub(crate) fn parse_nested(text: &str) -> (r: Result<Nested, String>)
    ensures
        match r {
            Ok(nested) => parsed_manifest(text@) == Some(nested@),
            Err(_) => parsed_manifest(text@) is None,
        },
{
    let parsed: Result<
        BTreeMap<String, BTreeMap<String, BTreeMap<String, BTreeMap<String, String>>>>,
        serde_json::Error,
    > = serde_json::from_str(text);
    match parsed {
        Ok(platforms) => Ok(Nested { platforms: platforms.into_iter().map(|(p, branches)|
            (p, branches.into_iter().map(|(b, files)|
                (b, files.into_iter().map(|(f, members)|
                    (f, members.into_iter().collect())).collect())).collect())).collect() }),
        Err(error) => Err(error.to_string()),
    }
}

/// The mapping `start` with the files of one branch put into it, or `None`
/// if an earlier step failed or one of the files lacks a hash.
pub open spec fn with_files(
    start: Option<Map<ManifestKey, EntryView>>,
    platform: Seq<char>,
    branch: Seq<char>,
    files: Files,
) -> Option<Map<ManifestKey, EntryView>>
    decreases files.len(),
{
    if files.len() == 0 {
        start
    } else {
        match (
            with_files(start, platform, branch, files.drop_last()),
            entry_of_fields(files.last().1),
        ) {
            (Some(map), Some(entry)) => Some(map.insert((platform, branch, files.last().0), entry)),
            _ => None,
        }
    }
}

/// The mapping `start` with the branches of one platform put into it.
pub open spec fn with_branches(
    start: Option<Map<ManifestKey, EntryView>>,
    platform: Seq<char>,
    branches: Branches,
) -> Option<Map<ManifestKey, EntryView>>
    decreases branches.len(),
{
    if branches.len() == 0 {
        start
    } else {
        with_files(
            with_branches(start, platform, branches.drop_last()),
            platform,
            branches.last().0,
            branches.last().1,
        )
    }
}

/// The mapping `start` with all platforms put into it.
pub open spec fn with_platforms(start: Option<Map<ManifestKey, EntryView>>, platforms: Platforms) -> Option<
    Map<ManifestKey, EntryView>,
>
    decreases platforms.len(),
{
    if platforms.len() == 0 {
        start
    } else {
        with_branches(
            with_platforms(start, platforms.drop_last()),
            platforms.last().0,
            platforms.last().1,
        )
    }
}

/// The mapping that a manifest file stands for, or `None` if the file is
/// malformed: if it is not JSON of the manifest's shape, or the object of
/// some file lacks one of the two hashes.
pub open spec fn loaded(text: Seq<char>) -> Option<Map<ManifestKey, EntryView>> {
    match parsed_manifest(text) {
        Some(platforms) => with_platforms(Some(Map::empty()), platforms),
        None => None,
    }
}

/// Why a manifest file could not be read.
#[derive(Clone, Debug, PartialEq, Eq)]
pub enum LoadError {
    /// The text is not JSON of the manifest's shape; the text says why.
    Malformed(String),
    /// The object of the file with this relative path lacks a hash.
    MissingHash(String),
}

/// Puts the files of one branch into the manifest.
fn load_files(
    manifest: &mut Manifest,
    platform: &str,
    branch: &str,
    files: &Vec<(String, Vec<(String, String)>)>,
) -> (r: Result<(), LoadError>)
    ensures
        final(manifest).wf(),
        match with_files(Some(old(manifest)@), platform@, branch@, files.deep_view()) {
            Some(map) => r is Ok && final(manifest)@ == map,
            None => r matches Err(LoadError::MissingHash(_)),
        },
{
    proof {
        use_type_invariant(&*manifest);
    }
    let ghost start = Some(manifest@);
    let ghost all = files.deep_view();
    let mut i: usize = 0;
    while i < files.len()
        invariant
            i <= files.len(),
            all == files.deep_view(),
            start == Some(old(manifest)@),
            manifest.wf(),
            with_files(start, platform@, branch@, all.subrange(0, i as int)) == Some(manifest@),
        decreases files.len() - i,
    {
        let ghost before = all.subrange(0, i as int);
        let ghost after = all.subrange(0, i + 1);
        proof {
            assert(after.drop_last() =~= before);
            assert(after.last() == all[i as int]);
            assert(all[i as int] == files[i as int].deep_view());
            assert(files[i as int].1.deep_view() =~= fields_view(files[i as int].1@));
        }
        match ManifestEntry::from_fields(&files[i].1) {
            Some(entry) => {
                manifest.insert(
                    String::from_str(platform),
                    String::from_str(branch),
                    files[i].0.clone(),
                    entry,
                );
            },
            None => {
                proof {
                    assert(with_files(start, platform@, branch@, after) is None);
                    lemma_failure_stays(start, platform@, branch@, all, i + 1);
                }
                return Err(
                    LoadError::MissingHash(join_relative(platform, branch, files[i].0.as_str())),
                );
            },
        }
        i = i + 1;
    }
    proof {
        assert(all.subrange(0, i as int) =~= all);
    }
    Ok(())
}

/// Once a file lacks a hash, no later file mends it.
proof fn lemma_failure_stays(
    start: Option<Map<ManifestKey, EntryView>>,
    platform: Seq<char>,
    branch: Seq<char>,
    files: Files,
    n: int,
)
    requires
        0 <= n <= files.len(),
        with_files(start, platform, branch, files.subrange(0, n)) is None,
    ensures
        with_files(start, platform, branch, files) is None,
    decreases files.len() - n,
{
    if n == files.len() {
        assert(files.subrange(0, n) =~= files);
    } else {
        assert(files.subrange(0, n + 1).drop_last() =~= files.subrange(0, n));
        lemma_failure_stays(start, platform, branch, files, n + 1);
    }
}

/// Nothing is put into a mapping that is not there.
proof fn lemma_files_keep_failure(platform: Seq<char>, branch: Seq<char>, files: Files)
    ensures
        with_files(None, platform, branch, files) is None,
    decreases files.len(),
{
    if files.len() > 0 {
        lemma_files_keep_failure(platform, branch, files.drop_last());
    }
}

/// Once a branch has failed, no later branch mends it.
proof fn lemma_branches_keep_failure(
    start: Option<Map<ManifestKey, EntryView>>,
    platform: Seq<char>,
    branches: Branches,
    n: int,
)
    requires
        0 <= n <= branches.len(),
        with_branches(start, platform, branches.subrange(0, n)) is None,
    ensures
        with_branches(start, platform, branches) is None,
    decreases branches.len() - n,
{
    if n == branches.len() {
        assert(branches.subrange(0, n) =~= branches);
    } else {
        assert(branches.subrange(0, n + 1).drop_last() =~= branches.subrange(0, n));
        lemma_files_keep_failure(platform, branches[n].0, branches[n].1);
        lemma_branches_keep_failure(start, platform, branches, n + 1);
    }
}

/// Nothing is put into a mapping that is not there.
proof fn lemma_branches_of_failure(platform: Seq<char>, branches: Branches)
    ensures
        with_branches(None, platform, branches) is None,
    decreases branches.len(),
{
    if branches.len() > 0 {
        lemma_branches_of_failure(platform, branches.drop_last());
        lemma_files_keep_failure(platform, branches.last().0, branches.last().1);
    }
}

/// Once a platform has failed, no later platform mends it.
proof fn lemma_platforms_keep_failure(
    start: Option<Map<ManifestKey, EntryView>>,
    platforms: Platforms,
    n: int,
)
    requires
        0 <= n <= platforms.len(),
        with_platforms(start, platforms.subrange(0, n)) is None,
    ensures
        with_platforms(start, platforms) is None,
    decreases platforms.len() - n,
{
    if n == platforms.len() {
        assert(platforms.subrange(0, n) =~= platforms);
    } else {
        assert(platforms.subrange(0, n + 1).drop_last() =~= platforms.subrange(0, n));
        lemma_branches_of_failure(platforms[n].0, platforms[n].1);
        lemma_platforms_keep_failure(start, platforms, n + 1);
    }
}

/// Puts the branches of one platform into the manifest.
fn load_branches(
    manifest: &mut Manifest,
    platform: &str,
    branches: &Vec<(String, Vec<(String, Vec<(String, String)>)>)>,
) -> (r: Result<(), LoadError>)
    ensures
        final(manifest).wf(),
        match with_branches(Some(old(manifest)@), platform@, branches.deep_view()) {
            Some(map) => r is Ok && final(manifest)@ == map,
            None => r matches Err(LoadError::MissingHash(_)),
        },
{
    proof {
        use_type_invariant(&*manifest);
    }
    let ghost start = Some(manifest@);
    let ghost all = branches.deep_view();
    let mut i: usize = 0;
    while i < branches.len()
        invariant
            i <= branches.len(),
            all == branches.deep_view(),
            start == Some(old(manifest)@),
            manifest.wf(),
            with_branches(start, platform@, all.subrange(0, i as int)) == Some(manifest@),
        decreases branches.len() - i,
    {
        let ghost after = all.subrange(0, i + 1);
        proof {
            assert(after.drop_last() =~= all.subrange(0, i as int));
            assert(after.last() == all[i as int]);
            assert(all[i as int] == branches[i as int].deep_view());
        }
        match load_files(manifest, platform, branches[i].0.as_str(), &branches[i].1) {
            Ok(()) => {},
            Err(error) => {
                proof {
                    assert(with_branches(start, platform@, after) is None);
                    lemma_branches_keep_failure(start, platform@, all, i + 1);
                }
                return Err(error);
            },
        }
        i = i + 1;
    }
    proof {
        assert(all.subrange(0, i as int) =~= all);
    }
    Ok(())
}

/// Builds the manifest that the levels of a manifest file stand for.
///
/// Fails exactly when the object of some file lacks one of the two hashes.
pub fn manifest_of(nested: &Nested) -> (r: Result<Manifest, LoadError>)
    ensures
        match with_platforms(Some(Map::empty()), nested@) {
            Some(map) => r matches Ok(manifest) && manifest@ == map && manifest.wf(),
            None => r matches Err(LoadError::MissingHash(_)),
        },
{
    let mut manifest = Manifest::new();
    let ghost start = Some(manifest@);
    let ghost all = nested@;
    let platforms = &nested.platforms;
    let mut i: usize = 0;
    while i < platforms.len()
        invariant
            i <= platforms.len(),
            all == platforms.deep_view(),
            all == nested@,
            start == Some(Map::<ManifestKey, EntryView>::empty()),
            manifest.wf(),
            with_platforms(start, all.subrange(0, i as int)) == Some(manifest@),
        decreases platforms.len() - i,
    {
        let ghost after = all.subrange(0, i + 1);
        proof {
            assert(after.drop_last() =~= all.subrange(0, i as int));
            assert(after.last() == all[i as int]);
            assert(all[i as int] == platforms[i as int].deep_view());
        }
        match load_branches(&mut manifest, platforms[i].0.as_str(), &platforms[i].1) {
            Ok(()) => {},
            Err(error) => {
                proof {
                    assert(with_platforms(start, after) is None);
                    lemma_platforms_keep_failure(start, all, i + 1);
                }
                return Err(error);
            },
        }
        i = i + 1;
    }
    proof {
        assert(all.subrange(0, i as int) =~= all);
    }
    Ok(manifest)
}

/// Reads a manifest file.
///
/// Succeeds exactly on a file that is well formed, and then gives the
/// manifest that the file stands for. A malformed file has no manifest:
/// nothing of it is used.
pub fn load_manifest(text: &str) -> (r: Result<Manifest, LoadError>)
    ensures
        match loaded(text@) {
            Some(map) => r matches Ok(manifest) && manifest@ == map && manifest.wf(),
            None => r is Err,
        },
        r matches Err(LoadError::Malformed(_)) <==> parsed_manifest(text@) is None,
{
    match parse_nested(text) {
        Ok(nested) => manifest_of(&nested),
        Err(why) => Err(LoadError::Malformed(why)),
    }
}

} // verus!
