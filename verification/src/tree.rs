//! Enumeration of the producer's input trees: which role each directory
//! entry plays, and the union of all trees keyed by relative path.

use vstd::prelude::*;
use vstd::string::*;
use crate::text::{ends_with, has_suffix, text_eq, without_last};

verus! {

/// The name of the marker file that every tree may hold and that is no
/// content.
pub const UPDATE_MARKER: &'static str = "gmod-update.txt";

/// What the name of a symbol file ends with.
pub const SYMBOL_SUFFIX: &'static str = ".sym";

/// The part that a file plays for its relative path.
#[derive(Clone, Copy, Debug, PartialEq, Eq, Structural)]
pub enum Role {
    /// The file as shipped.
    Original,
    /// The file as it should be.
    Fixed,
    /// The symbol file that belongs to the fixed file.
    Symbol,
}

/// Whether a directory entry of this name is left out entirely.
pub open spec fn is_excluded(name: Seq<char>) -> bool {
    name == UPDATE_MARKER@
}

/// Whether a directory entry of this name is a symbol file.
pub open spec fn is_symbol_name(name: Seq<char>) -> bool {
    has_suffix(name, SYMBOL_SUFFIX@)
}

/// The role of an entry found while walking a tree in the role `role`: an
/// entry with the symbol suffix plays the symbol role.
pub open spec fn entry_role(role: Role, name: Seq<char>) -> Role {
    if is_symbol_name(name) {
        Role::Symbol
    } else {
        role
    }
}

/// The name under which an entry is listed: its own, without the symbol
/// suffix if it has one.
pub open spec fn entry_name(name: Seq<char>) -> Seq<char> {
    if is_symbol_name(name) {
        without_last(name, SYMBOL_SUFFIX@.len())
    } else {
        name
    }
}

/// The relative path of an entry in the directory whose relative path is
/// `base`, the tree's root having the empty path.
pub open spec fn entry_path(base: Seq<char>, name: Seq<char>) -> Seq<char> {
    if base.len() == 0 {
        entry_name(name)
    } else {
        base + "/"@ + entry_name(name)
    }
}

/// Decides what a directory entry is for: nothing, if it is the marker file;
/// otherwise its role and its relative path. For a directory both are handed
/// down to the entries below it.
pub fn classify_entry(role: Role, base: &str, name: &str) -> (r: Option<(Role, String)>)
    ensures
        match r {
            Some((found_role, path)) => !is_excluded(name@) && found_role == entry_role(role, name@)
                && path@ == entry_path(base@, name@),
            None => is_excluded(name@),
        },
{
    if text_eq(name, UPDATE_MARKER) {
        return None;
    }
    let symbol: bool = ends_with(name, SYMBOL_SUFFIX);
    let found_role: Role = if symbol {
        Role::Symbol
    } else {
        role
    };
    let kept: &str = if symbol {
        let n: usize = name.unicode_len();
        let m: usize = SYMBOL_SUFFIX.unicode_len();
        name.substring_char(0, n - m)
    } else {
        name
    };
    let mut path: String = String::new();
    if base.unicode_len() > 0 {
        path.append(base);
        path.append("/");
    }
    path.append(kept);
    proof {
        assert(path@ =~= entry_path(base@, name@));
    }
    Some((found_role, path))
}

/// Where the file of each role lies, for one relative path.
#[derive(Debug, PartialEq, Eq)]
pub struct FileSources {
    pub original: Option<String>,
    pub fixed: Option<String>,
    pub symbol: Option<String>,
}

/// The sources of one relative path as plain mathematical values.
pub struct SourcesView {
    pub original: Option<Seq<char>>,
    pub fixed: Option<Seq<char>>,
    pub symbol: Option<Seq<char>>,
}

/// The characters of an optional text.
pub open spec fn text_view(text: Option<String>) -> Option<Seq<char>> {
    match text {
        Some(t) => Some(t@),
        None => None,
    }
}

impl View for FileSources {
    type V = SourcesView;

    open spec fn view(&self) -> SourcesView {
        SourcesView {
            original: text_view(self.original),
            fixed: text_view(self.fixed),
            symbol: text_view(self.symbol),
        }
    }
}

impl SourcesView {
    /// No file in any role.
    pub open spec fn none() -> SourcesView {
        SourcesView { original: None, fixed: None, symbol: None }
    }

    /// The sources with the file of `role` lying at `location`.
    pub open spec fn with(self, role: Role, location: Seq<char>) -> SourcesView {
        match role {
            Role::Original => SourcesView { original: Some(location), ..self },
            Role::Fixed => SourcesView { fixed: Some(location), ..self },
            Role::Symbol => SourcesView { symbol: Some(location), ..self },
        }
    }
}

impl FileSources {
    /// Sets where the file of `role` lies.
    fn set(&mut self, role: Role, location: String)
        ensures
            final(self)@ == old(self)@.with(role, location@),
    {
        match role {
            Role::Original => {
                self.original = Some(location);
            },
            Role::Fixed => {
                self.fixed = Some(location);
            },
            Role::Symbol => {
                self.symbol = Some(location);
            },
        }
    }
}

/// One relative path with its sources.
#[derive(Debug, PartialEq, Eq)]
pub struct TreeFile {
    pub path: String,
    pub sources: FileSources,
}

/// A tree file as plain mathematical values.
pub struct TreeFileView {
    pub path: Seq<char>,
    pub sources: SourcesView,
}

impl View for TreeFile {
    type V = TreeFileView;

    open spec fn view(&self) -> TreeFileView {
        TreeFileView { path: self.path@, sources: self.sources@ }
    }
}

/// Whether no path occurs twice.
pub open spec fn distinct_paths(files: Seq<TreeFileView>) -> bool {
    forall|i: int, j: int|
        0 <= i < j < files.len() ==> (#[trigger] files[i]).path != (#[trigger] files[j]).path
}

/// Whether some file has the path.
pub open spec fn has_path(files: Seq<TreeFileView>, path: Seq<char>) -> bool {
    exists|i: int| 0 <= i < files.len() && (#[trigger] files[i]).path == path
}

/// The index of a file with the path.
pub open spec fn index_of_path(files: Seq<TreeFileView>, path: Seq<char>) -> int {
    choose|i: int| 0 <= i < files.len() && (#[trigger] files[i]).path == path
}

/// The mapping that a list of files stands for.
pub open spec fn files_map(files: Seq<TreeFileView>) -> Map<Seq<char>, SourcesView> {
    Map::new(
        |path: Seq<char>| has_path(files, path),
        |path: Seq<char>| files[index_of_path(files, path)].sources,
    )
}

/// The sources known for a path: those recorded, or none.
pub open spec fn sources_at(index: Map<Seq<char>, SourcesView>, path: Seq<char>) -> SourcesView {
    if index.dom().contains(path) {
        index[path]
    } else {
        SourcesView::none()
    }
}

/// Among distinct paths each file is found under its own path.
pub proof fn lemma_distinct_lookup(files: Seq<TreeFileView>, i: int)
    requires
        distinct_paths(files),
        0 <= i < files.len(),
    ensures
        has_path(files, files[i].path),
        index_of_path(files, files[i].path) == i,
        files_map(files)[files[i].path] == files[i].sources,
{
    let j = index_of_path(files, files[i].path);
    if i < j {
        assert(files[i].path != files[j].path);
    } else if j < i {
        assert(files[j].path != files[i].path);
    }
}

/// The union of the producer's input trees: for every relative path, where
/// its file lies in each role.
#[derive(Debug)]
pub struct TreeIndex {
    files: Vec<TreeFile>,
}

impl View for TreeIndex {
    type V = Map<Seq<char>, SourcesView>;

    open spec fn view(&self) -> Map<Seq<char>, SourcesView> {
        files_map(self.files())
    }
}

impl TreeIndex {
    /// The files in the order in which they are held, which is not that in
    /// which they were recorded.
    pub closed spec fn files(self) -> Seq<TreeFileView> {
        self.files@.map_values(|f: TreeFile| f@)
    }

    /// No path occurs twice.
    #[verifier::type_invariant]
    pub open spec fn wf(self) -> bool {
        distinct_paths(self.files())
    }

    /// An index without files.
    pub fn new() -> (index: TreeIndex)
        ensures
            index.wf(),
            index.files() == Seq::<TreeFileView>::empty(),
            index@ == Map::<Seq<char>, SourcesView>::empty(),
    {
        let index = TreeIndex { files: Vec::new() };
        proof {
            assert(index.files() =~= Seq::<TreeFileView>::empty());
            assert(index@ =~= Map::<Seq<char>, SourcesView>::empty());
        }
        index
    }

    /// The number of relative paths.
    pub fn len(&self) -> (n: usize)
        ensures
            n == self.files().len(),
    {
        self.files.len()
    }

    /// The file at position `i`.
    pub fn file_at(&self, i: usize) -> (file: &TreeFile)
        requires
            i < self.files().len(),
        ensures
            file@ == self.files()[i as int],
            self@.dom().contains(file@.path),
            self@[file@.path] == file@.sources,
    {
        proof {
            use_type_invariant(self);
            lemma_distinct_lookup(self.files(), i as int);
        }
        &self.files[i]
    }

    /// The position of the file with the path, if there is one.
    fn position(&self, path: &str) -> (at: Option<usize>)
        ensures
            match at {
                Some(i) => i < self.files().len() && self.files()[i as int].path == path@,
                None => !has_path(self.files(), path@),
            },
    {
        let mut i: usize = 0;
        while i < self.files.len()
            invariant
                i <= self.files@.len(),
                self.files().len() == self.files@.len(),
                forall|j: int| 0 <= j < i ==> (#[trigger] self.files()[j]).path != path@,
            decreases self.files.len() - i,
        {
            assert(self.files@[i as int]@ == self.files()[i as int]);
            if text_eq(self.files[i].path.as_str(), path) {
                return Some(i);
            }
            i = i + 1;
        }
        None
    }

    /// Records that the file of `role` for the relative path `path` lies at
    /// `location`. What was recorded for the other roles of the path stays.
    pub fn record(&mut self, path: String, role: Role, location: String)
        ensures
            final(self).wf(),
            final(self)@ == old(self)@.insert(
                path@,
                sources_at(old(self)@, path@).with(role, location@),
            ),
    {
        proof {
            use_type_invariant(&*self);
        }
        let ghost before = self.files();
        let at = self.position(path.as_str());
        let mut files: Vec<TreeFile> = Vec::new();
        std::mem::swap(&mut files, &mut self.files);
        let ghost view_of = |f: TreeFile| f@;
        assert(files@.map_values(view_of) == before);
        match at {
            Some(i) => {
                let mut file = files.swap_remove(i);
                assert(file@ == before[i as int]);
                file.sources.set(role, location);
                let ghost changed = file@;
                files.push(file);
                proof {
                    let after = files@.map_values(view_of);
                    let last = before.len() - 1;
                    assert(after.len() == before.len());
                    assert(after[last] == changed);
                    assert forall|j: int| 0 <= j < last implies after[j] == (if j == i {
                        before[last]
                    } else {
                        before[j]
                    }) by {}
                    lemma_distinct_lookup(before, i as int);
                    lemma_moved_to_end(before, after, i as int, changed);
                }
            },
            None => {
                let mut sources = FileSources { original: None, fixed: None, symbol: None };
                sources.set(role, location);
                let file = TreeFile { path, sources };
                files.push(file);
                proof {
                    let after = files@.map_values(view_of);
                    assert(after =~= before.push(file@));
                    lemma_appended(before, after, file@);
                }
            },
        }
        self.files = files;
    }
}

/// Appending a file with a new path adds its sources under that path.
proof fn lemma_appended(before: Seq<TreeFileView>, after: Seq<TreeFileView>, file: TreeFileView)
    requires
        distinct_paths(before),
        !has_path(before, file.path),
        after == before.push(file),
    ensures
        distinct_paths(after),
        files_map(after) == files_map(before).insert(file.path, file.sources),
{
    let want = files_map(before).insert(file.path, file.sources);
    let last = before.len() as int;
    assert forall|i: int, j: int| 0 <= i < j < after.len() implies (#[trigger] after[i]).path != (
    #[trigger] after[j]).path by {
        if j == last {
            assert(before[i].path != file.path);
        } else {
            assert(before[i].path != before[j].path);
        }
    }
    assert forall|p: Seq<char>| has_path(after, p) == want.dom().contains(p) by {
        if has_path(after, p) {
            let j = index_of_path(after, p);
            if j < last {
                assert(before[j].path == p);
            }
        }
        if has_path(before, p) {
            let j = index_of_path(before, p);
            assert(after[j].path == p);
        }
        if p == file.path {
            assert(after[last].path == p);
        }
    }
    assert forall|p: Seq<char>| has_path(after, p) implies files_map(after)[p] == want[p] by {
        let j = index_of_path(after, p);
        lemma_distinct_lookup(after, j);
        if j < last {
            lemma_distinct_lookup(before, j);
        }
    }
    assert(files_map(after) =~= want);
}

/// Taking the file at `i` out, moving the last file to its place and putting
/// a changed file with the same path at the end changes the sources under
/// that path and nothing else.
proof fn lemma_moved_to_end(
    before: Seq<TreeFileView>,
    after: Seq<TreeFileView>,
    i: int,
    changed: TreeFileView,
)
    requires
        distinct_paths(before),
        0 <= i < before.len(),
        changed.path == before[i].path,
        after.len() == before.len(),
        after[before.len() - 1] == changed,
        forall|j: int|
            0 <= j < before.len() - 1 ==> #[trigger] after[j] == (if j == i {
                before[before.len() - 1]
            } else {
                before[j]
            }),
    ensures
        distinct_paths(after),
        files_map(after) == files_map(before).insert(changed.path, changed.sources),
{
    let want = files_map(before).insert(changed.path, changed.sources);
    let last = before.len() - 1;
    // Where the file at each place of `after` stood in `before`.
    let origin = |j: int|
        if j == last {
            i
        } else if j == i {
            last
        } else {
            j
        };
    assert forall|j: int| 0 <= j < after.len() implies (#[trigger] after[j]).path
        == before[origin(j)].path by {}
    assert forall|a: int, b: int| 0 <= a < b < after.len() implies (#[trigger] after[a]).path != (
    #[trigger] after[b]).path by {
        let x = origin(a);
        let y = origin(b);
        assert(after[a].path == before[x].path);
        assert(after[b].path == before[y].path);
        if x < y {
            assert(before[x].path != before[y].path);
        } else {
            assert(before[y].path != before[x].path);
        }
    }
    assert forall|p: Seq<char>| has_path(after, p) == want.dom().contains(p) by {
        if has_path(after, p) {
            let j = index_of_path(after, p);
            assert(before[origin(j)].path == p);
        }
        if has_path(before, p) {
            let j = index_of_path(before, p);
            assert(after[origin(j)].path == p);
        }
        if p == changed.path {
            assert(after[last].path == p);
        }
    }
    assert forall|p: Seq<char>| has_path(after, p) implies files_map(after)[p] == want[p] by {
        let j = index_of_path(after, p);
        lemma_distinct_lookup(after, j);
        lemma_distinct_lookup(before, origin(j));
    }
    assert(files_map(after) =~= want);
}

} // verus!
