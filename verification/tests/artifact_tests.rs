use gmodpatchtool::artifact::{
    is_compressed, join_relative, make_cache_name, make_original_name, make_patch_name, make_symbol_name, split_key,
};

#[test]
fn key_is_split_at_the_first_two_slashes() {
    assert_eq!(
        split_key("linux/x86-64/bin/linux64/gmod"),
        Some(("linux".to_string(), "x86-64".to_string(), "bin/linux64/gmod".to_string()))
    );
    assert_eq!(
        split_key("win32/public/a.dll"),
        Some(("win32".to_string(), "public".to_string(), "a.dll".to_string()))
    );
}

#[test]
fn path_with_fewer_than_two_slashes_has_no_key() {
    assert_eq!(split_key(""), None);
    assert_eq!(split_key("file.txt"), None);
    assert_eq!(split_key("linux/file.txt"), None);
}

#[test]
fn empty_segments_are_kept() {
    assert_eq!(split_key("a/b/"), Some(("a".to_string(), "b".to_string(), "".to_string())));
    assert_eq!(split_key("//x"), Some(("".to_string(), "".to_string(), "x".to_string())));
}

#[test]
fn key_with_non_ascii_text_is_split_by_characters() {
    assert_eq!(
        split_key("plattform\u{e4}/zweig/d\u{e9}j\u{e0}/vu.txt"),
        Some(("plattform\u{e4}".to_string(), "zweig".to_string(), "d\u{e9}j\u{e0}/vu.txt".to_string()))
    );
}

#[test]
fn joining_gives_back_the_path() {
    let path = "linux/x86-64/bin/linux64/gmod";
    let (platform, branch, rest) = split_key(path).unwrap();
    assert_eq!(join_relative(&platform, &branch, &rest), path);
}

#[test]
fn artifact_names_follow_the_layout() {
    assert_eq!(make_patch_name("linux", "x86-64", "bin/a.dll"), "patches/linux/x86-64/bin/a.dll.bsdiff");
    assert_eq!(make_original_name("linux", "x86-64", "bin/a.dll"), "originals/linux/x86-64/bin/a.dll.zst");
    assert_eq!(make_symbol_name("linux", "x86-64", "bin/a.dll"), "symbols/linux/x86-64/bin/a.dll.sym.zst");
}

#[test]
fn compressed_artifacts_are_cached_without_the_ending() {
    assert!(is_compressed("originals/linux/x86-64/bin/a.dll.zst"));
    assert!(!is_compressed("patches/linux/x86-64/bin/a.dll.bsdiff"));
    assert!(!is_compressed("zst"));
    assert!(is_compressed(".zst"));
    assert_eq!(make_cache_name("originals/linux/x86-64/bin/a.dll.zst"), "originals/linux/x86-64/bin/a.dll");
    assert_eq!(make_cache_name("patches/linux/x86-64/bin/a.dll.bsdiff"), "patches/linux/x86-64/bin/a.dll.bsdiff");
    assert_eq!(make_cache_name("originals/w/b/x.zst.zst"), "originals/w/b/x.zst");
    assert_eq!(make_cache_name(".zst"), "");
}
