use gmodpatchtool::manifest::{compare_record, Manifest, ManifestEntry, ManifestRecord, SelectError, Slot};
use gmodpatchtool::text::Rank;

fn entry(tag: &str) -> ManifestEntry {
    ManifestEntry {
        original: format!("o-{tag}"),
        fixed: format!("f-{tag}"),
        patch: Some(format!("p-{tag}")),
        executable: false,
    }
}

fn put(manifest: &mut Manifest, platform: &str, branch: &str, path: &str, tag: &str) {
    manifest.insert(platform.to_string(), branch.to_string(), path.to_string(), entry(tag));
}

fn keys(manifest: &Manifest) -> Vec<(String, String, String)> {
    let mut out = Vec::new();
    for i in 0..manifest.len() {
        let r = manifest.record_at(i);
        out.push((r.platform.clone(), r.branch.clone(), r.path.clone()));
    }
    out
}

fn key(platform: &str, branch: &str, path: &str) -> (String, String, String) {
    (platform.to_string(), branch.to_string(), path.to_string())
}

#[test]
fn new_manifest_is_empty() {
    let manifest = Manifest::new();
    assert_eq!(manifest.len(), 0);
    assert_eq!(manifest.get("linux", "x86-64", "a"), None);
}

#[test]
fn inserted_entry_is_found_under_its_key() {
    let mut manifest = Manifest::new();
    put(&mut manifest, "linux", "x86-64", "bin/a.dll", "a");
    assert_eq!(manifest.len(), 1);
    assert_eq!(manifest.get("linux", "x86-64", "bin/a.dll"), Some(&entry("a")));
    assert_eq!(manifest.get("linux", "x86-64", "bin/b.dll"), None);
    assert_eq!(manifest.get("linux", "dev", "bin/a.dll"), None);
    assert_eq!(manifest.get("windows", "x86-64", "bin/a.dll"), None);
}

#[test]
fn inserting_under_a_held_key_replaces_the_entry() {
    let mut manifest = Manifest::new();
    put(&mut manifest, "linux", "x86-64", "a", "old");
    put(&mut manifest, "linux", "x86-64", "b", "b");
    put(&mut manifest, "linux", "x86-64", "a", "new");
    assert_eq!(manifest.len(), 2);
    assert_eq!(manifest.get("linux", "x86-64", "a"), Some(&entry("new")));
    assert_eq!(manifest.get("linux", "x86-64", "b"), Some(&entry("b")));
}

#[test]
fn records_are_held_in_the_order_of_their_keys() {
    let mut manifest = Manifest::new();
    put(&mut manifest, "windows", "x86-64", "y", "1");
    put(&mut manifest, "linux", "x86-64", "bin/b.dll", "2");
    put(&mut manifest, "linux", "dev", "x", "3");
    put(&mut manifest, "linux", "x86-64", "bin/a.dll", "4");
    put(&mut manifest, "linux", "x86-64", "bin", "5");
    put(&mut manifest, "a-b", "z", "q", "6");
    put(&mut manifest, "a", "z", "q", "7");
    assert_eq!(
        keys(&manifest),
        vec![
            key("a", "z", "q"),
            key("a-b", "z", "q"),
            key("linux", "dev", "x"),
            key("linux", "x86-64", "bin"),
            key("linux", "x86-64", "bin/a.dll"),
            key("linux", "x86-64", "bin/b.dll"),
            key("windows", "x86-64", "y"),
        ]
    );
}

#[test]
fn order_of_insertion_does_not_matter() {
    let items = [
        ("linux", "x86-64", "bin/a.dll", "1"),
        ("linux", "x86-64", "bin/b.dll", "2"),
        ("linux", "dev", "x", "3"),
        ("windows", "x86-64", "y", "4"),
        ("macos", "public", "z/z", "5"),
    ];
    let mut forward = Manifest::new();
    for (p, b, f, t) in items {
        put(&mut forward, p, b, f, t);
    }
    let mut backward = Manifest::new();
    for (p, b, f, t) in items.iter().rev() {
        put(&mut backward, p, b, f, t);
    }
    assert_eq!(keys(&forward), keys(&backward));
    for i in 0..forward.len() {
        assert_eq!(forward.record_at(i), backward.record_at(i));
    }
}

#[test]
fn locate_says_where_a_key_stands() {
    let mut manifest = Manifest::new();
    put(&mut manifest, "linux", "x86-64", "b", "1");
    put(&mut manifest, "linux", "x86-64", "d", "2");
    assert_eq!(manifest.locate("linux", "x86-64", "a"), Slot::Before(0));
    assert_eq!(manifest.locate("linux", "x86-64", "b"), Slot::At(0));
    assert_eq!(manifest.locate("linux", "x86-64", "c"), Slot::Before(1));
    assert_eq!(manifest.locate("linux", "x86-64", "d"), Slot::At(1));
    assert_eq!(manifest.locate("linux", "x86-64", "e"), Slot::Before(2));
    assert_eq!(manifest.locate("a", "x86-64", "e"), Slot::Before(0));
}

#[test]
fn select_lists_the_files_of_one_branch() {
    let mut manifest = Manifest::new();
    put(&mut manifest, "windows", "x86-64", "y", "1");
    put(&mut manifest, "linux", "x86-64", "bin/b.dll", "2");
    put(&mut manifest, "linux", "dev", "x", "3");
    put(&mut manifest, "linux", "x86-64", "bin/a.dll", "4");
    assert_eq!(manifest.select("linux", "x86-64"), Ok(vec![1, 2]));
    assert_eq!(manifest.select("linux", "dev"), Ok(vec![0]));
    assert_eq!(manifest.select("windows", "x86-64"), Ok(vec![3]));
}

#[test]
fn select_tells_a_missing_platform_from_a_missing_branch() {
    let mut manifest = Manifest::new();
    put(&mut manifest, "linux", "x86-64", "a", "1");
    assert_eq!(manifest.select("macos", "x86-64"), Err(SelectError::UnsupportedPlatform));
    assert_eq!(manifest.select("linux", "public"), Err(SelectError::UnsupportedBranch));
    assert_eq!(Manifest::new().select("linux", "x86-64"), Err(SelectError::UnsupportedPlatform));
}

#[test]
fn record_is_compared_by_platform_then_branch_then_path() {
    let record = ManifestRecord {
        platform: "linux".to_string(),
        branch: "x86-64".to_string(),
        path: "bin/a.dll".to_string(),
        entry: entry("a"),
    };
    assert_eq!(compare_record(&record, "linux", "x86-64", "bin/a.dll"), Rank::Same);
    assert_eq!(compare_record(&record, "linux", "x86-64", "bin/b.dll"), Rank::Before);
    assert_eq!(compare_record(&record, "linux", "x86-64", "a"), Rank::After);
    assert_eq!(compare_record(&record, "linux", "y", "a"), Rank::Before);
    assert_eq!(compare_record(&record, "linux", "dev", "z"), Rank::After);
    assert_eq!(compare_record(&record, "windows", "a", "a"), Rank::Before);
    assert_eq!(compare_record(&record, "a", "z", "z"), Rank::After);
}

fn fields(pairs: &[(&str, &str)]) -> Vec<(String, String)> {
    pairs.iter().map(|(k, v)| (k.to_string(), v.to_string())).collect()
}

#[test]
fn entry_is_read_from_the_members_of_its_object() {
    let e = ManifestEntry::from_fields(&fields(&[
        ("executable", "true"),
        ("fixed", "ffff"),
        ("original", "oooo"),
        ("patch", "pppp"),
    ]));
    assert_eq!(
        e,
        Some(ManifestEntry {
            original: "oooo".to_string(),
            fixed: "ffff".to_string(),
            patch: Some("pppp".to_string()),
            executable: true,
        })
    );
}

#[test]
fn optional_members_may_be_missing() {
    let e = ManifestEntry::from_fields(&fields(&[("original", "oooo"), ("fixed", "null")]));
    assert_eq!(
        e,
        Some(ManifestEntry {
            original: "oooo".to_string(),
            fixed: "null".to_string(),
            patch: None,
            executable: false,
        })
    );
}

#[test]
fn only_the_value_true_sets_the_flag() {
    let e = ManifestEntry::from_fields(&fields(&[("original", "o"), ("fixed", "f"), ("executable", "false")]));
    assert_eq!(e.map(|e| e.executable), Some(false));
    let e = ManifestEntry::from_fields(&fields(&[("original", "o"), ("fixed", "f"), ("executable", "True")]));
    assert_eq!(e.map(|e| e.executable), Some(false));
}

#[test]
fn entry_without_both_hashes_is_malformed() {
    assert_eq!(ManifestEntry::from_fields(&fields(&[])), None);
    assert_eq!(ManifestEntry::from_fields(&fields(&[("original", "o")])), None);
    assert_eq!(ManifestEntry::from_fields(&fields(&[("fixed", "f"), ("patch", "p")])), None);
    assert_eq!(ManifestEntry::from_fields(&fields(&[("Original", "o"), ("fixed", "f")])), None);
}

#[test]
fn delta_is_recorded_only_for_a_file_that_changes_and_stays() {
    let with = |original: &str, fixed: &str, patch: Option<&str>| ManifestEntry {
        original: original.to_string(),
        fixed: fixed.to_string(),
        patch: patch.map(|p| p.to_string()),
        executable: false,
    };
    assert!(with("o", "f", Some("p")).is_well_formed());
    assert!(with("null", "f", Some("p")).is_well_formed());
    assert!(with("o", "null", None).is_well_formed());
    assert!(with("o", "f", None).is_well_formed());
    assert!(!with("o", "null", Some("p")).is_well_formed());
    assert!(!with("same", "same", Some("p")).is_well_formed());
}

#[test]
fn copy_keeps_every_field() {
    let e = ManifestEntry {
        original: "o".to_string(),
        fixed: "f".to_string(),
        patch: Some("p".to_string()),
        executable: true,
    };
    assert_eq!(e.copy(), e);
    let r = ManifestRecord { platform: "a".to_string(), branch: "b".to_string(), path: "c".to_string(), entry: e };
    assert_eq!(r.copy(), r);
}
