use gmodpatchtool::json::{lay_out, quote_record, quote_records, quoted_from, render_manifest, QuotedRecord};
use gmodpatchtool::manifest::{Manifest, ManifestEntry, ManifestRecord};
use serde::Serialize;
use std::collections::BTreeMap;

fn entry(original: &str, fixed: &str, patch: Option<&str>, executable: bool) -> ManifestEntry {
    ManifestEntry {
        original: original.to_string(),
        fixed: fixed.to_string(),
        patch: patch.map(|p| p.to_string()),
        executable,
    }
}

fn sample() -> Manifest {
    let mut manifest = Manifest::new();
    manifest.insert("windows".into(), "x86-64".into(), "y".into(), entry("o4", "f4", Some("pd"), true));
    manifest.insert("linux".into(), "x86-64".into(), "bin/b.dll".into(), entry("null", "f2", Some("pb"), false));
    manifest.insert("linux".into(), "dev".into(), "x".into(), entry("o3", "null", None, false));
    manifest.insert("linux".into(), "x86-64".into(), "bin/a.dll".into(), entry("o1", "f1", Some("pa"), true));
    manifest
}

type Nested = BTreeMap<String, BTreeMap<String, BTreeMap<String, BTreeMap<String, String>>>>;

fn nested(manifest: &Manifest) -> Nested {
    let mut out = Nested::new();
    for i in 0..manifest.len() {
        let r = manifest.record_at(i);
        let mut members = BTreeMap::new();
        members.insert("original".to_string(), r.entry.original.clone());
        members.insert("fixed".to_string(), r.entry.fixed.clone());
        if let Some(p) = &r.entry.patch {
            members.insert("patch".to_string(), p.clone());
        }
        if r.entry.executable {
            members.insert("executable".to_string(), "true".to_string());
        }
        out.entry(r.platform.clone())
            .or_default()
            .entry(r.branch.clone())
            .or_default()
            .insert(r.path.clone(), members);
    }
    out
}

fn pretty_with_tabs(value: &Nested) -> String {
    let mut buffer = Vec::new();
    let formatter = serde_json::ser::PrettyFormatter::with_indent(b"\t");
    let mut serializer = serde_json::Serializer::with_formatter(&mut buffer, formatter);
    value.serialize(&mut serializer).unwrap();
    let mut text = String::from_utf8(buffer).unwrap();
    text.push('\n');
    text
}

#[test]
fn empty_manifest_is_an_empty_object() {
    assert_eq!(render_manifest(&Manifest::new()), Ok("{}\n".to_string()));
}

#[test]
fn one_file_is_nested_three_levels_deep() {
    let mut manifest = Manifest::new();
    manifest.insert("linux".into(), "x86-64".into(), "bin/a.dll".into(), entry("oooo", "ffff", Some("pppp"), false));
    let expected = "{\n\t\"linux\": {\n\t\t\"x86-64\": {\n\t\t\t\"bin/a.dll\": {\n\t\t\t\t\"fixed\": \"ffff\",\n\t\t\t\t\"original\": \"oooo\",\n\t\t\t\t\"patch\": \"pppp\"\n\t\t\t}\n\t\t}\n\t}\n}\n";
    assert_eq!(render_manifest(&manifest), Ok(expected.to_string()));
}

#[test]
fn every_level_is_written_in_the_order_of_its_keys() {
    let expected = concat_lines(&[
        "{",
        "\t\"linux\": {",
        "\t\t\"dev\": {",
        "\t\t\t\"x\": {",
        "\t\t\t\t\"fixed\": \"null\",",
        "\t\t\t\t\"original\": \"o3\"",
        "\t\t\t}",
        "\t\t},",
        "\t\t\"x86-64\": {",
        "\t\t\t\"bin/a.dll\": {",
        "\t\t\t\t\"executable\": \"true\",",
        "\t\t\t\t\"fixed\": \"f1\",",
        "\t\t\t\t\"original\": \"o1\",",
        "\t\t\t\t\"patch\": \"pa\"",
        "\t\t\t},",
        "\t\t\t\"bin/b.dll\": {",
        "\t\t\t\t\"fixed\": \"f2\",",
        "\t\t\t\t\"original\": \"null\",",
        "\t\t\t\t\"patch\": \"pb\"",
        "\t\t\t}",
        "\t\t}",
        "\t},",
        "\t\"windows\": {",
        "\t\t\"x86-64\": {",
        "\t\t\t\"y\": {",
        "\t\t\t\t\"executable\": \"true\",",
        "\t\t\t\t\"fixed\": \"f4\",",
        "\t\t\t\t\"original\": \"o4\",",
        "\t\t\t\t\"patch\": \"pd\"",
        "\t\t\t}",
        "\t\t}",
        "\t}",
        "}",
    ]);
    assert_eq!(render_manifest(&sample()), Ok(expected));
}

fn concat_lines(lines: &[&str]) -> String {
    let mut text = String::new();
    for line in lines {
        text.push_str(line);
        text.push('\n');
    }
    text
}

#[test]
fn text_is_what_a_json_serializer_writes_for_the_nested_maps() {
    let manifest = sample();
    assert_eq!(render_manifest(&manifest), Ok(pretty_with_tabs(&nested(&manifest))));
}

#[test]
fn text_reads_back_as_the_same_manifest() {
    let manifest = sample();
    let text = render_manifest(&manifest).unwrap();
    assert!(text.ends_with("}\n"));
    let parsed: Nested = serde_json::from_str(&text).unwrap();
    assert_eq!(parsed, nested(&manifest));
}

#[test]
fn special_characters_are_escaped() {
    let mut manifest = Manifest::new();
    manifest.insert(
        "pl\"at".into(),
        "br\\anch".into(),
        "dir/na\tme\u{1}\u{e9}".into(),
        entry("o\no", "f\u{7f}f", Some("\u{1f600}"), false),
    );
    let text = render_manifest(&manifest).unwrap();
    assert!(text.contains("\t\"pl\\\"at\": {\n"));
    assert!(text.contains("\t\t\"br\\\\anch\": {\n"));
    assert!(text.contains("\t\t\t\"dir/na\\tme\\u0001\u{e9}\": {\n"));
    assert!(text.contains("\"original\": \"o\\no\""));
    assert_eq!(text, pretty_with_tabs(&nested(&manifest)));
    let parsed: Nested = serde_json::from_str(&text).unwrap();
    assert_eq!(parsed, nested(&manifest));
}

#[test]
fn text_does_not_depend_on_the_order_of_insertion() {
    let items = [
        ("linux", "x86-64", "bin/a.dll"),
        ("linux", "x86-64", "bin/b.dll"),
        ("linux", "dev", "x"),
        ("windows", "x86-64", "y"),
        ("macos", "public", "z/z"),
        ("linux", "x86-64", "a"),
    ];
    let mut forward = Manifest::new();
    for (p, b, f) in items {
        forward.insert(p.into(), b.into(), f.into(), entry(f, p, Some(b), false));
    }
    let mut backward = Manifest::new();
    for (p, b, f) in items.iter().rev() {
        backward.insert((*p).into(), (*b).into(), (*f).into(), entry(f, p, Some(b), false));
    }
    let mut shuffled = Manifest::new();
    for i in [3, 0, 5, 2, 4, 1] {
        let (p, b, f) = items[i];
        shuffled.insert(p.into(), b.into(), f.into(), entry(f, p, Some(b), false));
    }
    let text = render_manifest(&forward).unwrap();
    assert_eq!(render_manifest(&backward).unwrap(), text);
    assert_eq!(render_manifest(&shuffled).unwrap(), text);
}

#[test]
fn record_is_quoted_text_by_text() {
    let record = ManifestRecord {
        platform: "linux".to_string(),
        branch: "x86-64".to_string(),
        path: "a\"b".to_string(),
        entry: entry("oooo", "ffff", None, true),
    };
    assert_eq!(
        quote_record(&record),
        Ok(QuotedRecord {
            platform: "\"linux\"".to_string(),
            branch: "\"x86-64\"".to_string(),
            path: "\"a\\\"b\"".to_string(),
            original: "\"oooo\"".to_string(),
            fixed: "\"ffff\"".to_string(),
            patch: None,
        })
    );
}

#[test]
fn layout_needs_one_literal_per_record() {
    let manifest = sample();
    let mut quoted = quote_records(&manifest).unwrap();
    assert_eq!(quoted.len(), manifest.len());
    assert_eq!(lay_out(&manifest, &quoted), Some(render_manifest(&manifest).unwrap()));
    quoted.pop();
    assert_eq!(lay_out(&manifest, &quoted), None);
    assert_eq!(lay_out(&Manifest::new(), &Vec::new()), Some("{}\n".to_string()));
}

#[test]
fn layout_writes_the_literals_it_is_given() {
    let mut manifest = Manifest::new();
    manifest.insert("p".into(), "b".into(), "f".into(), entry("o", "x", None, false));
    let quoted = vec![QuotedRecord {
        platform: "P".to_string(),
        branch: "B".to_string(),
        path: "F".to_string(),
        original: "O".to_string(),
        fixed: "X".to_string(),
        patch: Some("Q".to_string()),
    }];
    assert_eq!(
        lay_out(&manifest, &quoted),
        Some("{\n\tP: {\n\t\tB: {\n\t\t\tF: {\n\t\t\t\t\"fixed\": X,\n\t\t\t\t\"original\": O,\n\t\t\t\t\"patch\": Q\n\t\t\t}\n\t\t}\n\t}\n}\n".to_string())
    );
}

fn quoted(text: &str) -> Result<String, String> {
    Ok(text.to_string())
}

fn failed(why: &str) -> Result<String, String> {
    Err(why.to_string())
}

#[test]
fn quoted_record_holds_the_literals_as_they_came() {
    assert_eq!(
        quoted_from(quoted("P"), quoted("B"), quoted("F"), quoted("O"), quoted("X"), Some(quoted("Q"))),
        Ok(QuotedRecord {
            platform: "P".to_string(),
            branch: "B".to_string(),
            path: "F".to_string(),
            original: "O".to_string(),
            fixed: "X".to_string(),
            patch: Some("Q".to_string()),
        })
    );
    assert_eq!(
        quoted_from(quoted("P"), quoted("B"), quoted("F"), quoted("O"), quoted("X"), None).map(|q| q.patch),
        Ok(None)
    );
}

#[test]
fn first_text_that_was_not_quoted_fails_the_record() {
    assert_eq!(
        quoted_from(failed("one"), failed("two"), quoted("F"), quoted("O"), quoted("X"), None),
        Err("one".to_string())
    );
    assert_eq!(
        quoted_from(quoted("P"), failed("two"), failed("three"), quoted("O"), quoted("X"), None),
        Err("two".to_string())
    );
    assert_eq!(
        quoted_from(quoted("P"), quoted("B"), failed("three"), quoted("O"), quoted("X"), Some(failed("six"))),
        Err("three".to_string())
    );
    assert_eq!(
        quoted_from(quoted("P"), quoted("B"), quoted("F"), failed("four"), failed("five"), None),
        Err("four".to_string())
    );
    assert_eq!(
        quoted_from(quoted("P"), quoted("B"), quoted("F"), quoted("O"), failed("five"), Some(failed("six"))),
        Err("five".to_string())
    );
    assert_eq!(
        quoted_from(quoted("P"), quoted("B"), quoted("F"), quoted("O"), quoted("X"), Some(failed("six"))),
        Err("six".to_string())
    );
}

#[test]
fn manifest_without_records_needs_no_literal() {
    assert_eq!(quote_records(&Manifest::new()), Ok(vec![]));
}
