//! Where the published artifacts of a file lie, relative to the root under
//! which all artifacts are served.

use vstd::prelude::*;
use vstd::string::*;
use crate::manifest::ManifestKey;
use crate::text::{chars_of, ends_with, has_suffix, without_last};

verus! {

/// Directory of the deltas.
pub const PATCH_ROOT: &'static str = "patches";

/// Directory of the compressed originals.
pub const ORIGINAL_ROOT: &'static str = "originals";

/// Directory of the compressed symbol files.
pub const SYMBOL_ROOT: &'static str = "symbols";

/// What a delta's name ends with.
pub const PATCH_SUFFIX: &'static str = ".bsdiff";

/// What the name of a compressed artifact ends with.
pub const COMPRESSED_SUFFIX: &'static str = ".zst";

/// What the name of a compressed symbol file ends with.
pub const SYMBOL_ARTIFACT_SUFFIX: &'static str = ".sym.zst";

/// The path of a file below a tree's root: platform, branch and the path
/// below the branch, joined by slashes.
pub open spec fn relative_path(key: ManifestKey) -> Seq<char> {
    key.0 + "/"@ + key.1 + "/"@ + key.2
}

/// The name of an artifact: its directory, the file's relative path, and the
/// ending of that kind of artifact.
pub open spec fn artifact_name(root: Seq<char>, key: ManifestKey, suffix: Seq<char>) -> Seq<char> {
    root + "/"@ + relative_path(key) + suffix
}

/// The name under which the delta of a file is served.
pub open spec fn patch_name(key: ManifestKey) -> Seq<char> {
    artifact_name(PATCH_ROOT@, key, PATCH_SUFFIX@)
}

/// The name under which the compressed original of a file is served.
pub open spec fn original_name(key: ManifestKey) -> Seq<char> {
    artifact_name(ORIGINAL_ROOT@, key, COMPRESSED_SUFFIX@)
}

/// The name under which the compressed symbol file of a file is served.
pub open spec fn symbol_name(key: ManifestKey) -> Seq<char> {
    artifact_name(SYMBOL_ROOT@, key, SYMBOL_ARTIFACT_SUFFIX@)
}

/// Joins platform, branch and path into the file's relative path.
pub fn join_relative(platform: &str, branch: &str, path: &str) -> (joined: String)
    ensures
        joined@ == relative_path((platform@, branch@, path@)),
{
    let mut joined: String = String::from_str(platform);
    joined.append("/");
    joined.append(branch);
    joined.append("/");
    joined.append(path);
    joined
}

/// Builds the name of an artifact from its directory, the file's key and the
/// ending.
pub fn make_artifact_name(root: &str, platform: &str, branch: &str, path: &str, suffix: &str) -> (name:
    String)
    ensures
        name@ == artifact_name(root@, (platform@, branch@, path@), suffix@),
{
    let mut name: String = String::from_str(root);
    name.append("/");
    let relative = join_relative(platform, branch, path);
    name.append(relative.as_str());
    name.append(suffix);
    name
}

/// The name of a file's delta.
pub fn make_patch_name(platform: &str, branch: &str, path: &str) -> (name: String)
    ensures
        name@ == patch_name((platform@, branch@, path@)),
{
    make_artifact_name(PATCH_ROOT, platform, branch, path, PATCH_SUFFIX)
}

/// The name of a file's compressed original.
pub fn make_original_name(platform: &str, branch: &str, path: &str) -> (name: String)
    ensures
        name@ == original_name((platform@, branch@, path@)),
{
    make_artifact_name(ORIGINAL_ROOT, platform, branch, path, COMPRESSED_SUFFIX)
}

/// The name of a file's compressed symbol file.
pub fn make_symbol_name(platform: &str, branch: &str, path: &str) -> (name: String)
    ensures
        name@ == symbol_name((platform@, branch@, path@)),
{
    make_artifact_name(SYMBOL_ROOT, platform, branch, path, SYMBOL_ARTIFACT_SUFFIX)
}

/// The index of the first slash of `s` at or after `from`, or the length of
/// `s` if there is none.
pub open spec fn slash_at(s: Seq<char>, from: int) -> int
    decreases s.len() - from,
{
    if from < 0 || from >= s.len() {
        s.len() as int
    } else if s[from] == '/' {
        from
    } else {
        slash_at(s, from + 1)
    }
}

/// The key that a relative path stands for: what precedes its first slash is
/// the platform, what lies between the first two slashes is the branch, and
/// the rest is the path below the branch. A path with fewer than two slashes
/// names no tracked file.
pub open spec fn key_of_path(path: Seq<char>) -> Option<ManifestKey> {
    let i = slash_at(path, 0);
    let j = slash_at(path, i + 1);
    if i < path.len() && j < path.len() {
        Some((path.subrange(0, i), path.subrange(i + 1, j), path.subrange(j + 1, path.len() as int)))
    } else {
        None
    }
}

/// What `slash_at` finds: a slash, with none between `from` and it.
pub proof fn lemma_slash_at(s: Seq<char>, from: int)
    requires
        0 <= from <= s.len(),
    ensures
        from <= slash_at(s, from) <= s.len(),
        slash_at(s, from) < s.len() ==> s[slash_at(s, from)] == '/',
        forall|k: int| from <= k < slash_at(s, from) ==> s[k] != '/',
    decreases s.len() - from,
{
    if from < s.len() && s[from] != '/' {
        lemma_slash_at(s, from + 1);
    }
}

/// Splitting and joining are inverse: the key of a path joins back into the
/// path, and its platform and branch hold no slash.
pub proof fn lemma_key_of_path_joins(path: Seq<char>)
    requires
        key_of_path(path) is Some,
    ensures
        relative_path(key_of_path(path)->Some_0) == path,
        !key_of_path(path)->Some_0.0.contains('/'),
        !key_of_path(path)->Some_0.1.contains('/'),
{
    reveal_strlit("/");
    let i = slash_at(path, 0);
    lemma_slash_at(path, 0);
    lemma_slash_at(path, i + 1);
    let key = key_of_path(path)->Some_0;
    assert(relative_path(key) =~= path);
}

/// The first slash at or after `from`, found by looking at each character.
fn find_slash(chars: &Vec<char>, from: usize) -> (at: usize)
    requires
        from <= chars.len(),
    ensures
        at == slash_at(chars@, from as int),
{
    let mut at: usize = from;
    while at < chars.len() && chars[at] != '/'
        invariant
            from <= at <= chars.len(),
            slash_at(chars@, from as int) == slash_at(chars@, at as int),
        decreases chars.len() - at,
    {
        at = at + 1;
    }
    at
}

/// Splits a relative path into platform, branch and the path below the
/// branch.
pub fn split_key(path: &str) -> (key: Option<(String, String, String)>)
    ensures
        match key {
            Some((platform, branch, rest)) => key_of_path(path@) == Some(
                (platform@, branch@, rest@),
            ),
            None => key_of_path(path@) is None,
        },
{
    let chars = chars_of(path);
    let n: usize = chars.len();
    let i: usize = find_slash(&chars, 0);
    if i >= n {
        return None;
    }
    let j: usize = find_slash(&chars, i + 1);
    if j >= n {
        return None;
    }
    proof {
        lemma_slash_at(path@, 0);
        lemma_slash_at(path@, i + 1);
    }
    let platform = path.substring_char(0, i).to_owned();
    let branch = path.substring_char(i + 1, j).to_owned();
    let rest = path.substring_char(j + 1, n).to_owned();
    Some((platform, branch, rest))
}

/// The name under which an artifact is kept in the local cache: compressed
/// artifacts are stored decompressed, under the name without the ending that
/// marks compression.
pub open spec fn cache_name(artifact: Seq<char>) -> Seq<char> {
    if is_compressed_name(artifact) {
        without_last(artifact, COMPRESSED_SUFFIX@.len())
    } else {
        artifact
    }
}

/// Whether an artifact is served compressed.
pub open spec fn is_compressed_name(artifact: Seq<char>) -> bool {
    has_suffix(artifact, COMPRESSED_SUFFIX@)
}

/// Whether an artifact is served compressed.
pub fn is_compressed(artifact: &str) -> (r: bool)
    ensures
        r == is_compressed_name(artifact@),
{
    ends_with(artifact, COMPRESSED_SUFFIX)
}

/// The name under which an artifact is kept in the local cache.
pub fn make_cache_name(artifact: &str) -> (name: String)
    ensures
        name@ == cache_name(artifact@),
{
    if is_compressed(artifact) {
        let n: usize = artifact.unicode_len();
        let m: usize = COMPRESSED_SUFFIX.unicode_len();
        artifact.substring_char(0, n - m).to_owned()
    } else {
        artifact.to_owned()
    }
}

} // verus!
