use gmodpatchtool::tree::{classify_entry, Role, TreeIndex};

#[test]
fn marker_file_is_left_out() {
    assert_eq!(classify_entry(Role::Original, "", "gmod-update.txt"), None);
    assert_eq!(classify_entry(Role::Fixed, "linux/x86-64", "gmod-update.txt"), None);
}

#[test]
fn entry_at_the_root_has_its_name_as_path() {
    assert_eq!(classify_entry(Role::Original, "", "linux"), Some((Role::Original, "linux".to_string())));
}

#[test]
fn entry_below_the_root_is_joined_with_a_slash() {
    assert_eq!(
        classify_entry(Role::Fixed, "linux/x86-64/bin", "a.dll"),
        Some((Role::Fixed, "linux/x86-64/bin/a.dll".to_string()))
    );
}

#[test]
fn symbol_file_plays_the_symbol_role_under_the_bare_name() {
    assert_eq!(
        classify_entry(Role::Fixed, "linux/x86-64/bin", "a.dll.sym"),
        Some((Role::Symbol, "linux/x86-64/bin/a.dll".to_string()))
    );
    assert_eq!(classify_entry(Role::Original, "", ".sym"), Some((Role::Symbol, "".to_string())));
}

#[test]
fn suffix_in_the_middle_of_a_name_is_no_symbol_file() {
    assert_eq!(
        classify_entry(Role::Fixed, "d", "a.sym.bak"),
        Some((Role::Fixed, "d/a.sym.bak".to_string()))
    );
    assert_eq!(classify_entry(Role::Original, "d", "symbols"), Some((Role::Original, "d/symbols".to_string())));
}

#[test]
fn symbol_role_is_handed_down() {
    assert_eq!(classify_entry(Role::Symbol, "d", "a.dll"), Some((Role::Symbol, "d/a.dll".to_string())));
}

#[test]
fn index_is_the_union_of_the_trees() {
    let mut index = TreeIndex::new();
    assert_eq!(index.len(), 0);
    index.record("p/b/a.dll".to_string(), Role::Original, "/orig/p/b/a.dll".to_string());
    index.record("p/b/b.dll".to_string(), Role::Fixed, "/fixed/p/b/b.dll".to_string());
    index.record("p/b/a.dll".to_string(), Role::Fixed, "/fixed/p/b/a.dll".to_string());
    index.record("p/b/a.dll".to_string(), Role::Symbol, "/fixed/p/b/a.dll.sym".to_string());
    assert_eq!(index.len(), 2);
    let mut seen_a = false;
    let mut seen_b = false;
    for i in 0..index.len() {
        let file = index.file_at(i);
        if file.path == "p/b/a.dll" {
            seen_a = true;
            assert_eq!(file.sources.original, Some("/orig/p/b/a.dll".to_string()));
            assert_eq!(file.sources.fixed, Some("/fixed/p/b/a.dll".to_string()));
            assert_eq!(file.sources.symbol, Some("/fixed/p/b/a.dll.sym".to_string()));
        } else {
            seen_b = true;
            assert_eq!(file.path, "p/b/b.dll");
            assert_eq!(file.sources.original, None);
            assert_eq!(file.sources.fixed, Some("/fixed/p/b/b.dll".to_string()));
            assert_eq!(file.sources.symbol, None);
        }
    }
    assert!(seen_a && seen_b);
}

#[test]
fn later_location_replaces_the_earlier_one() {
    let mut index = TreeIndex::new();
    index.record("x".to_string(), Role::Original, "first".to_string());
    index.record("y".to_string(), Role::Original, "other".to_string());
    index.record("z".to_string(), Role::Original, "third".to_string());
    index.record("x".to_string(), Role::Original, "second".to_string());
    assert_eq!(index.len(), 3);
    let mut found = 0;
    for i in 0..index.len() {
        let file = index.file_at(i);
        if file.path == "x" {
            found += 1;
            assert_eq!(file.sources.original, Some("second".to_string()));
        }
    }
    assert_eq!(found, 1);
}
