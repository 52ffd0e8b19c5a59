//! The manifest file: JSON, one level per platform, branch and file, indented
//! with tabs, every level in the order of its keys, and a line feed at the
//! end.

use vstd::prelude::*;
use vstd::string::*;
use crate::manifest::{lemma_sorted_records_unique, Manifest, ManifestRecord, RecordView};
use crate::text::text_eq;

verus! {

/// `text` as a JSON string literal: between double quotes, with the
/// characters that JSON does not take as they are written as escapes. `None`
/// if the serializer fails on the text.
pub uninterp spec fn json_quoted(text: Seq<char>) -> Option<Seq<char>>;

/// Writes `text` as a JSON string literal.
///
/// Calls `serde_json::to_string` on the text. The call reads nothing but
/// the text, so whether it succeeds and what it writes depend on the text
/// alone. When it succeeds the result is the literal; an error of the
/// serializer is handed back as its message.
#[verifier::external_body]
pub(crate) fn json_quote(text: &str) -> (r: Result<String, String>)
    ensures
        match r {
            Ok(literal) => json_quoted(text@) == Some(literal@),
            Err(_) => json_quoted(text@) is None,
        },
{
    match serde_json::to_string(text) {
        Ok(literal) => Ok(literal),
        Err(error) => Err(error.to_string()),
    }
}

/// The texts of one record, each as a JSON string literal.
#[derive(Debug, PartialEq, Eq)]
pub struct QuotedRecord {
    pub platform: String,
    pub branch: String,
    pub path: String,
    pub original: String,
    pub fixed: String,
    pub patch: Option<String>,
}

/// The literals of one record as plain mathematical values.
pub struct QuotedView {
    pub platform: Seq<char>,
    pub branch: Seq<char>,
    pub path: Seq<char>,
    pub original: Seq<char>,
    pub fixed: Seq<char>,
    pub patch: Option<Seq<char>>,
}

impl View for QuotedRecord {
    type V = QuotedView;

    open spec fn view(&self) -> QuotedView {
        QuotedView {
            platform: self.platform@,
            branch: self.branch@,
            path: self.path@,
            original: self.original@,
            fixed: self.fixed@,
            patch: match self.patch {
                Some(p) => Some(p@),
                None => None,
            },
        }
    }
}

/// The views of a list of quoted records.
pub open spec fn quoted_view(quoted: Seq<QuotedRecord>) -> Seq<QuotedView> {
    quoted.map_values(|q: QuotedRecord| q@)
}

/// Whether each text of a record has a literal.
pub open spec fn quotable(record: RecordView) -> bool {
    &&& json_quoted(record.platform) is Some
    &&& json_quoted(record.branch) is Some
    &&& json_quoted(record.path) is Some
    &&& json_quoted(record.entry.original) is Some
    &&& json_quoted(record.entry.fixed) is Some
    &&& record.entry.patch matches Some(p) ==> json_quoted(p) is Some
}

/// The literals of a record each of whose texts has one.
pub open spec fn quoted_of(record: RecordView) -> QuotedView {
    QuotedView {
        platform: json_quoted(record.platform)->Some_0,
        branch: json_quoted(record.branch)->Some_0,
        path: json_quoted(record.path)->Some_0,
        original: json_quoted(record.entry.original)->Some_0,
        fixed: json_quoted(record.entry.fixed)->Some_0,
        patch: match record.entry.patch {
            Some(p) => json_quoted(p),
            None => None,
        },
    }
}

/// Whether each text of each record has a literal.
pub open spec fn all_quotable(records: Seq<RecordView>) -> bool {
    forall|i: int| 0 <= i < records.len() ==> quotable(#[trigger] records[i])
}

/// The members of a file's object, one per line, in the order of their
/// names: the executable flag where it is set, the fixed hash, the original
/// hash, and the delta's hash where there is one.
pub open spec fn entry_lines(executable: bool, quoted: QuotedView) -> Seq<char> {
    let flag = if executable {
        "\t\t\t\t\"executable\": \"true\",\n"@
    } else {
        Seq::empty()
    };
    let patch = match quoted.patch {
        Some(p) => ",\n\t\t\t\t\"patch\": "@ + p,
        None => Seq::empty(),
    };
    flag + "\t\t\t\t\"fixed\": "@ + quoted.fixed + ",\n\t\t\t\t\"original\": "@ + quoted.original
        + patch
}

/// A file's member of its branch: the path and the file's object.
pub open spec fn file_text(executable: bool, quoted: QuotedView) -> Seq<char> {
    "\t\t\t"@ + quoted.path + ": {\n"@ + entry_lines(executable, quoted) + "\n\t\t\t}"@
}

/// Whether record `i` is the first of its platform.
pub open spec fn opens_platform(records: Seq<RecordView>, i: int) -> bool {
    i == 0 || records[i - 1].platform != records[i].platform
}

/// Whether record `i` is the first of its branch.
pub open spec fn opens_branch(records: Seq<RecordView>, i: int) -> bool {
    opens_platform(records, i) || records[i - 1].branch != records[i].branch
}

/// Whether record `i` is the last of its platform.
pub open spec fn closes_platform(records: Seq<RecordView>, i: int) -> bool {
    i + 1 == records.len() || records[i + 1].platform != records[i].platform
}

/// Whether record `i` is the last of its branch.
pub open spec fn closes_branch(records: Seq<RecordView>, i: int) -> bool {
    closes_platform(records, i) || records[i + 1].branch != records[i].branch
}

/// What precedes the file of record `i`: the opening of its platform and of
/// its branch, where the record is the first of them.
pub open spec fn opening(records: Seq<RecordView>, quoted: Seq<QuotedView>, i: int) -> Seq<char> {
    let platform = if opens_platform(records, i) {
        "\t"@ + quoted[i].platform + ": {\n"@
    } else {
        Seq::empty()
    };
    let branch = if opens_branch(records, i) {
        "\t\t"@ + quoted[i].branch + ": {\n"@
    } else {
        Seq::empty()
    };
    platform + branch
}

/// What follows the file of record `i`: the end of its branch and of its
/// platform, where the record is the last of them, and a comma where a
/// member of the same level follows.
pub open spec fn closing(records: Seq<RecordView>, i: int) -> Seq<char> {
    if i + 1 == records.len() {
        "\n\t\t}\n\t}\n"@
    } else if closes_platform(records, i) {
        "\n\t\t}\n\t},\n"@
    } else if closes_branch(records, i) {
        "\n\t\t},\n"@
    } else {
        ",\n"@
    }
}

/// The text of record `i` with what precedes and follows its file.
pub open spec fn record_text(records: Seq<RecordView>, quoted: Seq<QuotedView>, i: int) -> Seq<char> {
    opening(records, quoted, i) + file_text(records[i].entry.executable, quoted[i]) + closing(
        records,
        i,
    )
}

/// The text of the first `n` records.
pub open spec fn records_text(records: Seq<RecordView>, quoted: Seq<QuotedView>, n: int) -> Seq<char>
    decreases n,
{
    if n <= 0 {
        Seq::empty()
    } else {
        records_text(records, quoted, n - 1) + record_text(records, quoted, n - 1)
    }
}

/// The manifest file for records whose literals are given.
pub open spec fn layout(records: Seq<RecordView>, quoted: Seq<QuotedView>) -> Seq<char> {
    if records.len() == 0 {
        "{}\n"@
    } else {
        "{\n"@ + records_text(records, quoted, records.len() as int) + "}\n"@
    }
}

/// The manifest file of sorted records: there is one exactly if each text
/// of each record has a literal.
pub open spec fn manifest_json(records: Seq<RecordView>) -> Option<Seq<char>> {
    if all_quotable(records) {
        Some(layout(records, records.map_values(|r: RecordView| quoted_of(r))))
    } else {
        None
    }
}

/// Writes the texts of one record as JSON string literals.
///
/// Each text is handed to the serializer as it stands; the record is put
/// together from what it gave, as `quoted_from` says. There is a quoted
/// record exactly if each text has a literal.
pub fn quote_record(record: &ManifestRecord) -> (r: Result<QuotedRecord, String>)
    ensures
        r is Ok <==> quotable(record@),
        r matches Ok(quoted) ==> quoted@ == quoted_of(record@),
{
    let platform = json_quote(record.platform.as_str());
    let branch = json_quote(record.branch.as_str());
    let path = json_quote(record.path.as_str());
    let original = json_quote(record.entry.original.as_str());
    let fixed = json_quote(record.entry.fixed.as_str());
    let patch = match &record.entry.patch {
        Some(hash) => Some(json_quote(hash.as_str())),
        None => None,
    };
    quoted_from(platform, branch, path, original, fixed, patch)
}

/// Writes the texts of every record as JSON string literals.
///
/// There is a list exactly if each text of each record has a literal; a
/// manifest without records needs none, and has the empty list.
pub fn quote_records(manifest: &Manifest) -> (r: Result<Vec<QuotedRecord>, String>)
    ensures
        r is Ok <==> all_quotable(manifest.records()),
        r matches Ok(quoted) ==> quoted_view(quoted@) == manifest.records().map_values(
            |r: RecordView| quoted_of(r),
        ),
        manifest.records().len() == 0 ==> (r matches Ok(quoted) && quoted@.len() == 0),
{
    let n: usize = manifest.len();
    let mut quoted: Vec<QuotedRecord> = Vec::new();
    let mut i: usize = 0;
    while i < n
        invariant
            n == manifest.records().len(),
            i <= n,
            quoted@.len() == i,
            forall|j: int| 0 <= j < i ==> (#[trigger] quoted@[j])@ == quoted_of(manifest.records()[j]),
            forall|j: int| 0 <= j < i ==> quotable(#[trigger] manifest.records()[j]),
        decreases n - i,
    {
        match quote_record(manifest.record_at(i)) {
            Ok(one) => {
                quoted.push(one);
            },
            Err(why) => {
                proof {
                    assert(!quotable(manifest.records()[i as int]));
                }
                return Err(why);
            },
        }
        i = i + 1;
    }
    proof {
        assert(quoted_view(quoted@) =~= manifest.records().map_values(
            |r: RecordView| quoted_of(r),
        ));
    }
    Ok(quoted)
}

/// Appends the members of a file's object.
fn put_entry(out: &mut String, executable: bool, quoted: &QuotedRecord)
    ensures
        final(out)@ == old(out)@ + entry_lines(executable, quoted@),
{
    let ghost start = out@;
    if executable {
        out.append("\t\t\t\t\"executable\": \"true\",\n");
    }
    out.append("\t\t\t\t\"fixed\": ");
    out.append(quoted.fixed.as_str());
    out.append(",\n\t\t\t\t\"original\": ");
    out.append(quoted.original.as_str());
    match &quoted.patch {
        Some(p) => {
            out.append(",\n\t\t\t\t\"patch\": ");
            out.append(p.as_str());
        },
        None => {},
    }
    proof {
        assert(out@ =~= start + entry_lines(executable, quoted@));
    }
}

/// Appends a file's member of its branch.
fn put_file(out: &mut String, executable: bool, quoted: &QuotedRecord)
    ensures
        final(out)@ == old(out)@ + file_text(executable, quoted@),
{
    let ghost start = out@;
    out.append("\t\t\t");
    out.append(quoted.path.as_str());
    out.append(": {\n");
    put_entry(out, executable, quoted);
    out.append("\n\t\t\t}");
    proof {
        assert(out@ =~= start + file_text(executable, quoted@));
    }
}

/// Appends what precedes the file of record `i`.
fn put_opening(out: &mut String, manifest: &Manifest, quoted: &Vec<QuotedRecord>, i: usize)
    requires
        i < manifest.records().len(),
        quoted.len() == manifest.records().len(),
    ensures
        final(out)@ == old(out)@ + opening(manifest.records(), quoted_view(quoted@), i as int),
{
    let ghost start = out@;
    let record = manifest.record_at(i);
    let new_platform: bool = i == 0 || !text_eq(
        manifest.record_at(i - 1).platform.as_str(),
        record.platform.as_str(),
    );
    let new_branch: bool = new_platform || !text_eq(
        manifest.record_at(i - 1).branch.as_str(),
        record.branch.as_str(),
    );
    assert(quoted_view(quoted@)[i as int] == quoted@[i as int]@);
    if new_platform {
        out.append("\t");
        out.append(quoted[i].platform.as_str());
        out.append(": {\n");
    }
    if new_branch {
        out.append("\t\t");
        out.append(quoted[i].branch.as_str());
        out.append(": {\n");
    }
    proof {
        assert(out@ =~= start + opening(manifest.records(), quoted_view(quoted@), i as int));
    }
}

/// Appends what follows the file of record `i`.
fn put_closing(out: &mut String, manifest: &Manifest, i: usize)
    requires
        i < manifest.records().len(),
    ensures
        final(out)@ == old(out)@ + closing(manifest.records(), i as int),
{
    let n: usize = manifest.len();
    if i + 1 == n {
        out.append("\n\t\t}\n\t}\n");
    } else {
        let record = manifest.record_at(i);
        let next = manifest.record_at(i + 1);
        if !text_eq(next.platform.as_str(), record.platform.as_str()) {
            out.append("\n\t\t}\n\t},\n");
        } else if !text_eq(next.branch.as_str(), record.branch.as_str()) {
            out.append("\n\t\t},\n");
        } else {
            out.append(",\n");
        }
    }
}

/// Lays out the manifest file from the records and one quoted record for
/// each.
fn write_layout(manifest: &Manifest, quoted: &Vec<QuotedRecord>) -> (text: String)
    requires
        quoted.len() == manifest.records().len(),
    ensures
        text@ == layout(manifest.records(), quoted_view(quoted@)),
{
    let n: usize = manifest.len();
    if n == 0 {
        return String::from_str("{}\n");
    }
    let ghost records = manifest.records();
    let ghost literals = quoted_view(quoted@);
    let mut out: String = String::from_str("{\n");
    let mut i: usize = 0;
    proof {
        assert(out@ =~= "{\n"@ + records_text(records, literals, 0));
    }
    while i < n
        invariant
            n == manifest.records().len(),
            quoted.len() == n,
            records == manifest.records(),
            literals == quoted_view(quoted@),
            i <= n,
            out@ == "{\n"@ + records_text(records, literals, i as int),
        decreases n - i,
    {
        let ghost start = out@;
        put_opening(&mut out, manifest, quoted, i);
        assert(literals[i as int] == quoted@[i as int]@);
        put_file(&mut out, manifest.record_at(i).entry.executable, &quoted[i]);
        put_closing(&mut out, manifest, i);
        proof {
            assert(out@ =~= start + record_text(records, literals, i as int));
            assert(out@ =~= "{\n"@ + records_text(records, literals, i + 1));
        }
        i = i + 1;
    }
    out.append("}\n");
    out
}

/// Lays out the manifest file from the records and their literals.
///
/// There must be one quoted record for each record of the manifest;
/// otherwise there is no text.
pub fn lay_out(manifest: &Manifest, quoted: &Vec<QuotedRecord>) -> (text: Option<String>)
    ensures
        text is Some <==> quoted.len() == manifest.records().len(),
        text matches Some(t) ==> t@ == layout(manifest.records(), quoted_view(quoted@)),
{
    if quoted.len() != manifest.len() {
        None
    } else {
        Some(write_layout(manifest, quoted))
    }
}

/// Writes the manifest file.
///
/// What comes back is `manifest_json` of the manifest's records: there is a
/// text exactly if each text of each record has a literal, and the failure
/// of the serializer otherwise. A manifest without records has no literal,
/// and its file is the empty object.
pub fn render_manifest(manifest: &Manifest) -> (r: Result<String, String>)
    ensures
        match manifest_json(manifest.records()) {
            Some(text) => r matches Ok(written) && written@ == text,
            None => r is Err,
        },
        manifest.records().len() == 0 ==> (r matches Ok(text) && text@ == "{}\n"@),
{
    let quoted = quote_records(manifest)?;
    proof {
        assert(quoted_view(quoted@).len() == quoted@.len());
        assert(manifest.records().map_values(|r: RecordView| quoted_of(r)).len()
            == manifest.records().len());
    }
    Ok(write_layout(manifest, &quoted))
}

/// The manifest file depends on what the manifest holds and on nothing
/// else: two manifests with the same entries under the same keys give the
/// same text, byte for byte, however each was built.
pub proof fn lemma_json_depends_on_content_only(a: Manifest, b: Manifest)
    requires
        a.wf(),
        b.wf(),
        a@ == b@,
    ensures
        a.records() == b.records(),
        manifest_json(a.records()) == manifest_json(b.records()),
{
    lemma_sorted_records_unique(a.records(), b.records());
}

/// The failure that is handed on: that of `result`, or else `later`.
pub open spec fn failure_or(result: Result<String, String>, later: Option<String>) -> Option<String> {
    match result {
        Err(why) => Some(why),
        Ok(_) => later,
    }
}

/// The first failure among what quoting the texts of a record gave, in the
/// order platform, branch, path, original, fixed, patch.
pub open spec fn first_failure(
    platform: Result<String, String>,
    branch: Result<String, String>,
    path: Result<String, String>,
    original: Result<String, String>,
    fixed: Result<String, String>,
    patch: Option<Result<String, String>>,
) -> Option<String> {
    failure_or(
        platform,
        failure_or(
            branch,
            failure_or(
                path,
                failure_or(
                    original,
                    failure_or(
                        fixed,
                        match patch {
                            Some(Err(why)) => Some(why),
                            _ => None,
                        },
                    ),
                ),
            ),
        ),
    )
}

/// Puts a quoted record together from what quoting each of its texts gave.
///
/// There is a record exactly if every text was quoted, and it holds the
/// literals as they came; otherwise the first failure is handed on.
pub fn quoted_from(
    platform: Result<String, String>,
    branch: Result<String, String>,
    path: Result<String, String>,
    original: Result<String, String>,
    fixed: Result<String, String>,
    patch: Option<Result<String, String>>,
) -> (r: Result<QuotedRecord, String>)
    ensures
        match first_failure(platform, branch, path, original, fixed, patch) {
            Some(why) => r == Err::<QuotedRecord, String>(why),
            None => r == Ok::<QuotedRecord, String>(
                QuotedRecord {
                    platform: platform->Ok_0,
                    branch: branch->Ok_0,
                    path: path->Ok_0,
                    original: original->Ok_0,
                    fixed: fixed->Ok_0,
                    patch: match patch {
                        Some(Ok(literal)) => Some(literal),
                        _ => None,
                    },
                },
            ),
        },
{
    let platform = match platform {
        Ok(literal) => literal,
        Err(why) => {
            return Err(why);
        },
    };
    let branch = match branch {
        Ok(literal) => literal,
        Err(why) => {
            return Err(why);
        },
    };
    let path = match path {
        Ok(literal) => literal,
        Err(why) => {
            return Err(why);
        },
    };
    let original = match original {
        Ok(literal) => literal,
        Err(why) => {
            return Err(why);
        },
    };
    let fixed = match fixed {
        Ok(literal) => literal,
        Err(why) => {
            return Err(why);
        },
    };
    let patch = match patch {
        Some(Ok(literal)) => Some(literal),
        Some(Err(why)) => {
            return Err(why);
        },
        None => None,
    };
    Ok(QuotedRecord { platform, branch, path, original, fixed, patch })
}

} // verus!
