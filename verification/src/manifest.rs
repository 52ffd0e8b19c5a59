//! The manifest: for every tracked file, its content hash before and after
//! patching.

use vstd::prelude::*;
use vstd::string::*;
use crate::hash::sentinel;
use crate::text::{compare_text, lemma_text_lt_total, lemma_text_lt_transitive, text_lt, Rank};

verus! {

/// What the manifest records of one file.
#[derive(Clone, Debug, PartialEq, Eq)]
pub struct ManifestEntry {
    /// Hash of the file before patching, or the reserved hash if there is none.
    pub original: String,
    /// Hash of the file after patching, or the reserved hash if it is removed.
    pub fixed: String,
    /// Hash of the delta that turns the original content into the fixed one.
    pub patch: Option<String>,
    /// Whether the fixed file is a native executable.
    pub executable: bool,
}

/// A manifest entry as plain mathematical values.
pub struct EntryView {
    pub original: Seq<char>,
    pub fixed: Seq<char>,
    pub patch: Option<Seq<char>>,
    pub executable: bool,
}

impl View for ManifestEntry {
    type V = EntryView;

    open spec fn view(&self) -> EntryView {
        EntryView {
            original: self.original@,
            fixed: self.fixed@,
            patch: match self.patch {
                Some(p) => Some(p@),
                None => None,
            },
            executable: self.executable,
        }
    }
}

impl ManifestEntry {
    /// A copy of the entry.
    pub fn copy(&self) -> (entry: ManifestEntry)
        ensures
            entry@ == self@,
    {
        ManifestEntry {
            original: self.original.clone(),
            fixed: self.fixed.clone(),
            patch: match &self.patch {
                Some(hash) => Some(hash.clone()),
                None => None,
            },
            executable: self.executable,
        }
    }
}

/// The value of the first field of the name `name`.
pub open spec fn field_of(fields: Seq<(Seq<char>, Seq<char>)>, name: Seq<char>) -> Option<Seq<char>>
    decreases fields.len(),
{
    if fields.len() == 0 {
        None
    } else if fields[0].0 == name {
        Some(fields[0].1)
    } else {
        field_of(fields.drop_first(), name)
    }
}

/// The entry that the members of a file's object in the manifest file stand
/// for. The two hashes must be there; the delta's hash may be; the flag is
/// set by the member `executable` with the value `true`.
pub open spec fn entry_of_fields(fields: Seq<(Seq<char>, Seq<char>)>) -> Option<EntryView> {
    if field_of(fields, "original"@) is Some && field_of(fields, "fixed"@) is Some {
        Some(
            EntryView {
                original: field_of(fields, "original"@)->Some_0,
                fixed: field_of(fields, "fixed"@)->Some_0,
                patch: field_of(fields, "patch"@),
                executable: field_of(fields, "executable"@) == Some("true"@),
            },
        )
    } else {
        None
    }
}

/// The names and values of a list of fields, as characters.
pub open spec fn fields_view(fields: Seq<(String, String)>) -> Seq<(Seq<char>, Seq<char>)> {
    fields.map_values(|f: (String, String)| (f.0@, f.1@))
}

/// Finds the value of the first field of the name `name`.
fn find_field(fields: &Vec<(String, String)>, name: &str) -> (value: Option<String>)
    ensures
        match value {
            Some(v) => field_of(fields_view(fields@), name@) == Some(v@),
            None => field_of(fields_view(fields@), name@) is None,
        },
{
    let ghost all = fields_view(fields@);
    let mut i: usize = 0;
    proof {
        assert(all.skip(0) =~= all);
    }
    while i < fields.len()
        invariant
            i <= fields.len(),
            all == fields_view(fields@),
            field_of(all, name@) == field_of(all.skip(i as int), name@),
        decreases fields.len() - i,
    {
        proof {
            assert(all.skip(i as int)[0] == all[i as int]);
            assert(all.skip(i as int).drop_first() =~= all.skip(i + 1));
        }
        if compare_text(fields[i].0.as_str(), name) == Rank::Same {
            return Some(fields[i].1.clone());
        }
        i = i + 1;
    }
    None
}

impl ManifestEntry {
    /// Reads an entry from the members of a file's object in the manifest
    /// file. There is no entry where one of the two hashes is missing.
    pub fn from_fields(fields: &Vec<(String, String)>) -> (entry: Option<ManifestEntry>)
        ensures
            match entry {
                Some(e) => entry_of_fields(fields_view(fields@)) == Some(e@),
                None => entry_of_fields(fields_view(fields@)) is None,
            },
    {
        let original = find_field(fields, "original");
        let fixed = find_field(fields, "fixed");
        let patch = find_field(fields, "patch");
        let executable: bool = match find_field(fields, "executable") {
            Some(value) => compare_text(value.as_str(), "true") == Rank::Same,
            None => false,
        };
        match (original, fixed) {
            (Some(original), Some(fixed)) => Some(
                ManifestEntry { original, fixed, patch, executable },
            ),
            _ => None,
        }
    }

    /// Whether the entry keeps the rule that ties the delta to the two
    /// states.
    pub fn is_well_formed(&self) -> (r: bool)
        ensures
            r == self@.well_formed(),
    {
        match &self.patch {
            Some(_) => compare_text(self.original.as_str(), self.fixed.as_str()) != Rank::Same
                && compare_text(self.fixed.as_str(), crate::hash::BLANK_FILE_HASH) != Rank::Same,
            None => true,
        }
    }
}

impl EntryView {
    /// The rule that ties the delta to the two states: a delta is recorded
    /// only for a file that changes and still exists afterwards.
    pub open spec fn well_formed(self) -> bool {
        self.patch is Some ==> self.original != self.fixed && self.fixed != sentinel()
    }
}

/// Where an entry stands in the manifest: platform, branch, and the path of
/// the file below the branch.
pub type ManifestKey = (Seq<char>, Seq<char>, Seq<char>);

/// The order of keys: by platform, then by branch, then by path.
pub open spec fn key_lt(a: ManifestKey, b: ManifestKey) -> bool {
    if a.0 != b.0 {
        text_lt(a.0, b.0)
    } else if a.1 != b.1 {
        text_lt(a.1, b.1)
    } else {
        text_lt(a.2, b.2)
    }
}

/// Keys are ordered strictly and totally.
pub proof fn lemma_key_lt_total(a: ManifestKey, b: ManifestKey)
    ensures
        key_lt(a, b) || key_lt(b, a) || a == b,
        !(key_lt(a, b) && key_lt(b, a)),
        !key_lt(a, a),
{
    lemma_text_lt_total(a.0, b.0);
    lemma_text_lt_total(a.1, b.1);
    lemma_text_lt_total(a.2, b.2);
    lemma_text_lt_total(a.2, a.2);
}

pub proof fn lemma_key_lt_transitive(a: ManifestKey, b: ManifestKey, c: ManifestKey)
    requires
        key_lt(a, b),
        key_lt(b, c),
    ensures
        key_lt(a, c),
{
    lemma_text_lt_total(a.0, b.0);
    lemma_text_lt_total(b.0, c.0);
    lemma_text_lt_total(a.0, c.0);
    lemma_text_lt_total(a.1, b.1);
    lemma_text_lt_total(b.1, c.1);
    lemma_text_lt_total(a.1, c.1);
    lemma_text_lt_total(a.2, c.2);
    if text_lt(a.0, b.0) && text_lt(b.0, c.0) {
        lemma_text_lt_transitive(a.0, b.0, c.0);
    }
    if text_lt(a.1, b.1) && text_lt(b.1, c.1) {
        lemma_text_lt_transitive(a.1, b.1, c.1);
    }
    if text_lt(a.2, b.2) && text_lt(b.2, c.2) {
        lemma_text_lt_transitive(a.2, b.2, c.2);
    }
}

/// One line of the manifest: a key and its entry.
#[derive(Clone, Debug, PartialEq, Eq)]
pub struct ManifestRecord {
    pub platform: String,
    pub branch: String,
    pub path: String,
    pub entry: ManifestEntry,
}

/// A manifest record as plain mathematical values.
pub struct RecordView {
    pub platform: Seq<char>,
    pub branch: Seq<char>,
    pub path: Seq<char>,
    pub entry: EntryView,
}

impl RecordView {
    pub open spec fn key(self) -> ManifestKey {
        (self.platform, self.branch, self.path)
    }
}

impl ManifestRecord {
    /// A copy of the record.
    pub fn copy(&self) -> (record: ManifestRecord)
        ensures
            record@ == self@,
    {
        ManifestRecord {
            platform: self.platform.clone(),
            branch: self.branch.clone(),
            path: self.path.clone(),
            entry: self.entry.copy(),
        }
    }
}

impl View for ManifestRecord {
    type V = RecordView;

    open spec fn view(&self) -> RecordView {
        RecordView {
            platform: self.platform@,
            branch: self.branch@,
            path: self.path@,
            entry: self.entry@,
        }
    }
}

/// Whether the records stand in strictly rising order of their keys.
pub open spec fn sorted(records: Seq<RecordView>) -> bool {
    forall|i: int, j: int|
        0 <= i < j < records.len() ==> key_lt(#[trigger] records[i].key(), #[trigger] records[j].key())
}

/// Whether some record has the key `k`.
pub open spec fn has_key(records: Seq<RecordView>, k: ManifestKey) -> bool {
    exists|i: int| 0 <= i < records.len() && #[trigger] records[i].key() == k
}

/// The index of a record with the key `k`.
pub open spec fn index_of_key(records: Seq<RecordView>, k: ManifestKey) -> int {
    choose|i: int| 0 <= i < records.len() && #[trigger] records[i].key() == k
}

/// The mapping that a sequence of records stands for.
pub open spec fn records_map(records: Seq<RecordView>) -> Map<ManifestKey, EntryView> {
    Map::new(|k: ManifestKey| has_key(records, k), |k: ManifestKey| records[index_of_key(records, k)].entry)
}

/// In sorted records every key occurs once, and the mapping holds each
/// record's entry under its key.
pub proof fn lemma_sorted_lookup(records: Seq<RecordView>, i: int)
    requires
        sorted(records),
        0 <= i < records.len(),
    ensures
        has_key(records, records[i].key()),
        index_of_key(records, records[i].key()) == i,
        records_map(records).dom().contains(records[i].key()),
        records_map(records)[records[i].key()] == records[i].entry,
{
    let k = records[i].key();
    let j = index_of_key(records, k);
    lemma_key_lt_total(records[i].key(), records[j].key());
    if i < j {
        assert(key_lt(records[i].key(), records[j].key()));
    } else if j < i {
        assert(key_lt(records[j].key(), records[i].key()));
    }
}

/// Sorted records are fixed by the mapping they stand for: two sorted
/// sequences with the same mapping are the same sequence.
pub proof fn lemma_sorted_records_unique(a: Seq<RecordView>, b: Seq<RecordView>)
    requires
        sorted(a),
        sorted(b),
        records_map(a) == records_map(b),
    ensures
        a == b,
    decreases a.len(),
{
    if a.len() == 0 {
        if b.len() > 0 {
            lemma_sorted_lookup(b, 0);
            assert(records_map(a).dom().contains(b[0].key()));
        }
        assert(a =~= b);
    } else if b.len() == 0 {
        lemma_sorted_lookup(a, 0);
        assert(records_map(b).dom().contains(a[0].key()));
    } else {
        // The last record of each holds the largest key of the common mapping.
        let la = a.len() - 1;
        let lb = b.len() - 1;
        lemma_sorted_lookup(a, la);
        lemma_sorted_lookup(b, lb);
        assert(has_key(b, a[la].key()));
        assert(has_key(a, b[lb].key()));
        let ib = index_of_key(b, a[la].key());
        let ia = index_of_key(a, b[lb].key());
        lemma_key_lt_total(a[la].key(), b[lb].key());
        if ib < lb {
            assert(key_lt(b[ib].key(), b[lb].key()));
        }
        if ia < la {
            assert(key_lt(a[ia].key(), a[la].key()));
        }
        assert(a[la].key() == b[lb].key());
        assert(a[la].entry == b[lb].entry);
        assert(a[la] == b[lb]);
        let a0 = a.drop_last();
        let b0 = b.drop_last();
        assert(sorted(a0));
        assert(sorted(b0));
        assert forall|k: ManifestKey| has_key(a0, k) == has_key(b0, k) by {
            lemma_drop_last_keys(a, k);
            lemma_drop_last_keys(b, k);
            assert(records_map(a).dom().contains(k) == has_key(a, k));
            assert(records_map(b).dom().contains(k) == has_key(b, k));
            assert(a.last().key() == b.last().key());
        }
        assert forall|k: ManifestKey| has_key(a0, k) implies records_map(a0)[k] == records_map(b0)[k] by {
            lemma_drop_last_keys(a, k);
            lemma_drop_last_keys(b, k);
            let i = index_of_key(a0, k);
            let j = index_of_key(b0, k);
            lemma_sorted_lookup(a0, i);
            lemma_sorted_lookup(b0, j);
            lemma_sorted_lookup(a, i);
            lemma_sorted_lookup(b, j);
            assert(records_map(a)[k] == records_map(b)[k]);
        }
        assert(records_map(a0) =~= records_map(b0));
        lemma_sorted_records_unique(a0, b0);
        assert(a =~= a0.push(a[la]));
        assert(b =~= b0.push(b[lb]));
    }
}

/// The keys of sorted records without their last are the keys other than
/// the last one's.
proof fn lemma_drop_last_keys(records: Seq<RecordView>, k: ManifestKey)
    requires
        sorted(records),
        records.len() > 0,
    ensures
        has_key(records.drop_last(), k) <==> has_key(records, k) && k != records.last().key(),
{
    let rest = records.drop_last();
    let l = records.len() - 1;
    if has_key(rest, k) {
        let i = index_of_key(rest, k);
        assert(records[i].key() == k);
        assert(key_lt(records[i].key(), records[l].key()));
        lemma_key_lt_total(k, records[l].key());
    }
    if has_key(records, k) && k != records.last().key() {
        let i = index_of_key(records, k);
        assert(i < l);
        assert(rest[i].key() == k);
    }
}

/// Whether a record belongs to the platform and branch.
pub open spec fn in_branch(record: RecordView, platform: Seq<char>, branch: Seq<char>) -> bool {
    record.platform == platform && record.branch == branch
}

/// Whether the records hold anything for the platform.
pub open spec fn has_platform(records: Seq<RecordView>, platform: Seq<char>) -> bool {
    exists|i: int| 0 <= i < records.len() && (#[trigger] records[i]).platform == platform
}

/// Whether the records hold anything for the branch of the platform.
pub open spec fn has_branch(records: Seq<RecordView>, platform: Seq<char>, branch: Seq<char>) -> bool {
    exists|i: int| 0 <= i < records.len() && in_branch(#[trigger] records[i], platform, branch)
}

/// Whether `picked` lists, in rising order, exactly the indices of the
/// records of the platform and branch.
pub open spec fn picks_branch(
    picked: Seq<usize>,
    records: Seq<RecordView>,
    platform: Seq<char>,
    branch: Seq<char>,
) -> bool {
    &&& forall|k: int|
        0 <= k < picked.len() ==> (#[trigger] picked[k]) < records.len() && in_branch(
            records[picked[k] as int],
            platform,
            branch,
        )
    &&& forall|k: int, l: int| 0 <= k < l < picked.len() ==> picked[k] < picked[l]
    &&& forall|i: int|
        0 <= i < records.len() && in_branch(#[trigger] records[i], platform, branch)
            ==> picked.contains(i as usize)
}

/// Why a manifest has nothing for an installation.
#[derive(Clone, Copy, Debug, PartialEq, Eq, Structural)]
pub enum SelectError {
    /// The manifest has no entry for the platform.
    UnsupportedPlatform,
    /// The manifest has entries for the platform, but none for the branch.
    UnsupportedBranch,
}

/// The manifest: entries keyed by platform, branch and path, held in the
/// order of their keys.
#[derive(Debug)]
pub struct Manifest {
    records: Vec<ManifestRecord>,
}

impl View for Manifest {
    type V = Map<ManifestKey, EntryView>;

    open spec fn view(&self) -> Map<ManifestKey, EntryView> {
        records_map(self.records())
    }
}

/// Where a key stands among sorted records.
#[derive(Debug, PartialEq, Eq)]
pub enum Slot {
    /// The record at this index has the key.
    At(usize),
    /// No record has the key; one with it belongs at this index.
    Before(usize),
}

impl Manifest {
    /// The records in the order in which they are held.
    pub closed spec fn records(self) -> Seq<RecordView> {
        self.records@.map_values(|r: ManifestRecord| r@)
    }

    /// The records are sorted by key, so that no key occurs twice.
    #[verifier::type_invariant]
    pub open spec fn wf(self) -> bool {
        sorted(self.records())
    }

    /// A manifest without entries.
    pub fn new() -> (manifest: Manifest)
        ensures
            manifest.wf(),
            manifest.records() == Seq::<RecordView>::empty(),
            manifest@ == Map::<ManifestKey, EntryView>::empty(),
    {
        let manifest = Manifest { records: Vec::new() };
        proof {
            assert(manifest.records() =~= Seq::<RecordView>::empty());
            assert(manifest@ =~= Map::<ManifestKey, EntryView>::empty());
        }
        manifest
    }

    /// The number of entries.
    pub fn len(&self) -> (n: usize)
        ensures
            n == self.records().len(),
    {
        self.records.len()
    }

    /// The record at position `i` in the order of keys.
    pub fn record_at(&self, i: usize) -> (record: &ManifestRecord)
        requires
            i < self.records().len(),
        ensures
            record@ == self.records()[i as int],
    {
        &self.records[i]
    }

    /// Finds where `key` stands: at which index, or before which.
    pub fn locate(&self, platform: &str, branch: &str, path: &str) -> (slot: Slot)
        ensures
            match slot {
                Slot::At(i) => i < self.records().len() && self.records()[i as int].key() == (
                    platform@,
                    branch@,
                    path@,
                ),
                Slot::Before(i) => i <= self.records().len() && !has_key(
                    self.records(),
                    (platform@, branch@, path@),
                ) && (forall|j: int|
                    0 <= j < i ==> key_lt(
                        #[trigger] self.records()[j].key(),
                        (platform@, branch@, path@),
                    )) && (forall|j: int|
                    i <= j < self.records().len() ==> key_lt(
                        (platform@, branch@, path@),
                        #[trigger] self.records()[j].key(),
                    )),
            },
    {
        proof {
            use_type_invariant(self);
        }
        let ghost key: ManifestKey = (platform@, branch@, path@);
        let ghost recs = self.records();
        let mut lo: usize = 0;
        let mut hi: usize = self.records.len();
        while lo < hi
            invariant
                recs == self.records(),
                sorted(recs),
                key == (platform@, branch@, path@),
                lo <= hi <= recs.len(),
                recs.len() == self.records@.len(),
                forall|j: int| 0 <= j < lo ==> key_lt(#[trigger] recs[j].key(), key),
                forall|j: int| hi <= j < recs.len() ==> key_lt(key, #[trigger] recs[j].key()),
            decreases hi - lo,
        {
            let mid: usize = lo + (hi - lo) / 2;
            let rank = compare_record(&self.records[mid], platform, branch, path);
            assert(self.records@[mid as int]@ == recs[mid as int]);
            match rank {
                Rank::Same => {
                    return Slot::At(mid);
                },
                Rank::Before => {
                    assert forall|j: int| 0 <= j < mid + 1 implies key_lt(
                        #[trigger] recs[j].key(),
                        key,
                    ) by {
                        if j < mid {
                            assert(key_lt(recs[j].key(), recs[mid as int].key()));
                            lemma_key_lt_transitive(recs[j].key(), recs[mid as int].key(), key);
                        }
                    }
                    lo = mid + 1;
                },
                Rank::After => {
                    assert forall|j: int| mid <= j < recs.len() implies key_lt(
                        key,
                        #[trigger] recs[j].key(),
                    ) by {
                        if mid < j {
                            assert(key_lt(recs[mid as int].key(), recs[j].key()));
                            lemma_key_lt_transitive(key, recs[mid as int].key(), recs[j].key());
                        }
                    }
                    hi = mid;
                },
            }
        }
        proof {
            if has_key(recs, key) {
                let j = index_of_key(recs, key);
                lemma_key_lt_total(key, key);
                if j < lo {
                    assert(key_lt(recs[j].key(), key));
                } else {
                    assert(key_lt(key, recs[j].key()));
                }
            }
        }
        Slot::Before(lo)
    }

    /// The entry under a key, if there is one.
    pub fn get(&self, platform: &str, branch: &str, path: &str) -> (entry: Option<&ManifestEntry>)
        ensures
            match entry {
                Some(e) => self@.dom().contains((platform@, branch@, path@)) && e@ == self@[(
                    platform@,
                    branch@,
                    path@,
                )],
                None => !self@.dom().contains((platform@, branch@, path@)),
            },
    {
        proof {
            use_type_invariant(self);
        }
        match self.locate(platform, branch, path) {
            Slot::At(i) => {
                proof {
                    lemma_sorted_lookup(self.records(), i as int);
                }
                Some(&self.records[i].entry)
            },
            Slot::Before(_) => None,
        }
    }

    /// The files of one branch of one platform, as indices of their records
    /// in rising order.
    ///
    /// Fails exactly when the manifest holds nothing for the branch, and then
    /// says whether it holds anything for the platform at all.
    pub fn select(&self, platform: &str, branch: &str) -> (r: Result<Vec<usize>, SelectError>)
        ensures
            match r {
                Ok(picked) => picked@.len() > 0 && picks_branch(
                    picked@,
                    self.records(),
                    platform@,
                    branch@,
                ),
                Err(SelectError::UnsupportedPlatform) => !has_platform(self.records(), platform@),
                Err(SelectError::UnsupportedBranch) => has_platform(self.records(), platform@)
                    && !has_branch(self.records(), platform@, branch@),
            },
    {
        let ghost recs = self.records();
        let mut picked: Vec<usize> = Vec::new();
        let mut platform_seen: bool = false;
        let mut i: usize = 0;
        while i < self.records.len()
            invariant
                recs == self.records(),
                recs.len() == self.records@.len(),
                i <= recs.len(),
                picks_branch(picked@, recs.subrange(0, i as int), platform@, branch@),
                platform_seen == has_platform(recs.subrange(0, i as int), platform@),
            decreases self.records.len() - i,
        {
            let record = &self.records[i];
            assert(record@ == recs[i as int]);
            let ghost before = recs.subrange(0, i as int);
            let ghost after = recs.subrange(0, i + 1);
            let ghost old_picked = picked@;
            let same_platform: bool = compare_text(record.platform.as_str(), platform) == Rank::Same;
            if same_platform {
                platform_seen = true;
                if compare_text(record.branch.as_str(), branch) == Rank::Same {
                    picked.push(i);
                }
            }
            proof {
                assert(after =~= before.push(recs[i as int]));
                assert forall|k: int| 0 <= k < before.len() implies after[k] == before[k] by {}
                if has_platform(before, platform@) {
                    let w = choose|w: int| 0 <= w < before.len() && (#[trigger] before[w]).platform == platform@;
                    assert(after[w].platform == platform@);
                }
                if has_platform(after, platform@) && !same_platform {
                    let w = choose|w: int| 0 <= w < after.len() && (#[trigger] after[w]).platform == platform@;
                    assert(before[w].platform == platform@);
                }
                if same_platform {
                    assert(after[i as int].platform == platform@);
                }
                assert forall|j: int|
                    0 <= j < after.len() && in_branch(
                        #[trigger] after[j],
                        platform@,
                        branch@,
                    ) implies picked@.contains(j as usize) by {
                    if j < i {
                        assert(in_branch(before[j], platform@, branch@));
                        assert(old_picked.contains(j as usize));
                        let k = choose|k: int| 0 <= k < old_picked.len() && old_picked[k] == j as usize;
                        assert(picked@[k] == j as usize);
                    } else {
                        assert(picked@[picked@.len() - 1] == i);
                    }
                }
                assert forall|k: int| 0 <= k < picked@.len() implies (#[trigger] picked@[k])
                    < after.len() && in_branch(after[picked@[k] as int], platform@, branch@) by {
                    if k < old_picked.len() {
                        assert(picked@[k] == old_picked[k]);
                        assert(in_branch(before[old_picked[k] as int], platform@, branch@));
                    }
                }
                assert forall|k: int, l: int| 0 <= k < l < picked@.len() implies picked@[k]
                    < picked@[l] by {
                    assert(picked@[k] == old_picked[k]);
                    if l < old_picked.len() {
                        assert(picked@[l] == old_picked[l]);
                    }
                }
            }
            i = i + 1;
        }
        proof {
            assert(recs.subrange(0, i as int) =~= recs);
        }
        if picked.len() > 0 {
            Ok(picked)
        } else if platform_seen {
            proof {
                if has_branch(recs, platform@, branch@) {
                    let w = choose|w: int| 0 <= w < recs.len() && in_branch(#[trigger] recs[w], platform@, branch@);
                    assert(picked@.contains(w as usize));
                }
            }
            Err(SelectError::UnsupportedBranch)
        } else {
            Err(SelectError::UnsupportedPlatform)
        }
    }

    /// Puts `entry` under the key, in place of any entry that was there.
    pub fn insert(&mut self, platform: String, branch: String, path: String, entry: ManifestEntry)
        ensures
            final(self).wf(),
            final(self)@ == old(self)@.insert((platform@, branch@, path@), entry@),
    {
        proof {
            use_type_invariant(&*self);
        }
        let ghost key: ManifestKey = (platform@, branch@, path@);
        let ghost before = self.records();
        let slot = self.locate(platform.as_str(), branch.as_str(), path.as_str());
        let record = ManifestRecord { platform, branch, path, entry };
        let mut records: Vec<ManifestRecord> = Vec::new();
        std::mem::swap(&mut records, &mut self.records);
        let ghost view_of = |r: ManifestRecord| r@;
        assert(records@.map_values(view_of) == before);
        match slot {
            Slot::At(i) => {
                records.set(i, record);
                proof {
                    let after = records@.map_values(view_of);
                    assert(after =~= before.update(i as int, record@));
                    assert(sorted(after)) by {
                        assert forall|a: int, b: int| 0 <= a < b < after.len() implies key_lt(
                            #[trigger] after[a].key(),
                            #[trigger] after[b].key(),
                        ) by {
                            assert(key_lt(before[a].key(), before[b].key()));
                        }
                    }
                    lemma_put_at(before, after, i as int, record@);
                }
            },
            Slot::Before(i) => {
                records.insert(i, record);
                proof {
                    let after = records@.map_values(view_of);
                    assert(after =~= before.insert(i as int, record@));
                    assert(sorted(after)) by {
                        assert forall|a: int, b: int| 0 <= a < b < after.len() implies key_lt(
                            #[trigger] after[a].key(),
                            #[trigger] after[b].key(),
                        ) by {
                            if a < i && b > i {
                                assert(key_lt(before[a].key(), before[b - 1].key()));
                            } else if a < i && b < i {
                                assert(key_lt(before[a].key(), before[b].key()));
                            } else if a > i {
                                assert(key_lt(before[a - 1].key(), before[b - 1].key()));
                            } else if a == i {
                                assert(after[b] == before[b - 1]);
                            } else {
                                assert(after[a] == before[a]);
                            }
                        }
                    }
                    lemma_put_before(before, after, i as int, record@);
                }
            },
        }
        self.records = records;
    }
}

/// Replacing the record at `i` by one with the same key replaces the entry
/// under that key.
proof fn lemma_put_at(before: Seq<RecordView>, after: Seq<RecordView>, i: int, record: RecordView)
    requires
        sorted(before),
        sorted(after),
        0 <= i < before.len(),
        before[i].key() == record.key(),
        after == before.update(i, record),
    ensures
        records_map(after) == records_map(before).insert(record.key(), record.entry),
{
    let want = records_map(before).insert(record.key(), record.entry);
    assert forall|k: ManifestKey| has_key(after, k) == want.dom().contains(k) by {
        if has_key(after, k) {
            let j = index_of_key(after, k);
            assert(before[j].key() == k);
        }
        if has_key(before, k) {
            let j = index_of_key(before, k);
            assert(after[j].key() == k);
        }
        if k == record.key() {
            assert(after[i].key() == k);
        }
    }
    assert forall|k: ManifestKey| has_key(after, k) implies records_map(after)[k] == want[k] by {
        let j = index_of_key(after, k);
        lemma_sorted_lookup(after, j);
        lemma_sorted_lookup(before, j);
        if j != i {
            lemma_sorted_lookup(before, i);
        }
    }
    assert(records_map(after) =~= want);
}

/// Putting a record with a new key at its place adds the entry under that
/// key.
proof fn lemma_put_before(before: Seq<RecordView>, after: Seq<RecordView>, i: int, record: RecordView)
    requires
        sorted(before),
        sorted(after),
        0 <= i <= before.len(),
        !has_key(before, record.key()),
        after == before.insert(i, record),
    ensures
        records_map(after) == records_map(before).insert(record.key(), record.entry),
{
    let want = records_map(before).insert(record.key(), record.entry);
    assert(after[i] == record);
    assert forall|k: ManifestKey| has_key(after, k) == want.dom().contains(k) by {
        if has_key(after, k) {
            let j = index_of_key(after, k);
            if j < i {
                assert(before[j].key() == k);
            } else if j > i {
                assert(before[j - 1].key() == k);
            }
        }
        if has_key(before, k) {
            let j = index_of_key(before, k);
            if j < i {
                assert(after[j].key() == k);
            } else {
                assert(after[j + 1].key() == k);
            }
        }
        if k == record.key() {
            assert(after[i].key() == k);
        }
    }
    assert forall|k: ManifestKey| has_key(after, k) implies records_map(after)[k] == want[k] by {
        let j = index_of_key(after, k);
        lemma_sorted_lookup(after, j);
        if j < i {
            lemma_sorted_lookup(before, j);
        } else if j > i {
            lemma_sorted_lookup(before, j - 1);
        }
    }
    assert(records_map(after) =~= want);
}

/// How a record's key stands to the key made of `platform`, `branch`, `path`.
pub fn compare_record(record: &ManifestRecord, platform: &str, branch: &str, path: &str) -> (rank: Rank)
    ensures
        rank == Rank::Before <==> key_lt(record@.key(), (platform@, branch@, path@)),
        rank == Rank::After <==> key_lt((platform@, branch@, path@), record@.key()),
        rank == Rank::Same <==> record@.key() == (platform@, branch@, path@),
{
    proof {
        lemma_key_lt_total(record@.key(), (platform@, branch@, path@));
        lemma_text_lt_total(record@.platform, platform@);
        lemma_text_lt_total(record@.branch, branch@);
        lemma_text_lt_total(record@.path, path@);
    }
    match compare_text(record.platform.as_str(), platform) {
        Rank::Same => match compare_text(record.branch.as_str(), branch) {
            Rank::Same => compare_text(record.path.as_str(), path),
            other => other,
        },
        other => other,
    }
}

} // verus!
