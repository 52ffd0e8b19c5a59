use gmodpatchtool::generate::{
    add_entry, assemble_output, delta_failure, hash_diff_compress_file, is_executable, is_unchanged,
    merge_entries, ProduceError,
};
use gmodpatchtool::delta::DeltaError;
use gmodpatchtool::hash::content_hash;
use gmodpatchtool::manifest::{Manifest, ManifestEntry};

fn hex(data: &[u8]) -> String {
    blake3::hash(data).to_hex().to_string()
}

#[test]
fn windows_images_are_executables() {
    assert!(is_executable(b"MZ"));
    assert!(is_executable(b"MZ\x90\x00\x03"));
    assert!(!is_executable(b"M"));
    assert!(!is_executable(b"ZM.."));
}

#[test]
fn elf_files_are_executables() {
    assert!(is_executable(b"\x7fELF"));
    assert!(is_executable(b"\x7fELF\x02\x01\x01"));
    assert!(!is_executable(b"\x7fEL"));
    assert!(!is_executable(b"\x7fELG"));
}

#[test]
fn mach_o_files_are_executables() {
    assert!(is_executable(&[0xcf, 0xfa, 0xed, 0xfe]));
    assert!(is_executable(&[0xcf, 0xfa, 0xed, 0xfe, 0x07, 0x00]));
    assert!(!is_executable(&[0xcf, 0xfa, 0xed]));
    assert!(!is_executable(&[0xfe, 0xed, 0xfa, 0xcf]));
}

#[test]
fn short_and_other_content_is_no_executable() {
    assert!(!is_executable(b""));
    assert!(!is_executable(b"Z"));
    assert!(!is_executable(b"ZZ"));
    assert!(!is_executable(b"#!/bin/sh\n"));
    assert!(!is_executable(b"AABA"));
}

#[test]
fn file_with_equal_sides_is_skipped() {
    let data: &[u8] = b"unchanged";
    assert_eq!(hash_diff_compress_file(Some(data), Some(data), None), Err(ProduceError::Skipped));
    assert_eq!(hash_diff_compress_file(None, None, None), Err(ProduceError::Skipped));
    let symbol: &[u8] = b"symbols";
    assert_eq!(hash_diff_compress_file(None, None, Some(symbol)), Err(ProduceError::Skipped));
    assert_eq!(hash_diff_compress_file(Some(data), Some(data), Some(symbol)), Err(ProduceError::Skipped));
}

#[test]
fn skipping_is_not_fatal() {
    assert!(!ProduceError::Skipped.is_fatal());
    assert!(ProduceError::Fatal("disk full".to_string()).is_fatal());
    assert_eq!(ProduceError::Skipped.message(), "Skipped: Original hash matches Fixed hash");
    assert_eq!(ProduceError::Fatal("disk full".to_string()).message(), "disk full");
}

#[test]
fn changed_file_gets_both_hashes_and_a_delta() {
    let original: &[u8] = b"AAAA";
    let fixed: &[u8] = b"AABA";
    let out = hash_diff_compress_file(Some(original), Some(fixed), None).unwrap();
    assert_eq!(out.entry.original, hex(original));
    assert_eq!(out.entry.fixed, hex(fixed));
    let patch = out.patch.unwrap();
    assert_eq!(out.entry.patch, Some(hex(&patch)));
    assert!(!out.entry.executable);
    assert!(out.entry.is_well_formed());
    assert_eq!(&patch[..8], b"BSDIFF40");
    assert_eq!(out.symbol_compressed, None);
}

#[test]
fn compressed_original_decompresses_to_the_original() {
    let original: Vec<u8> = (0..5000u32).map(|i| (i % 7) as u8).collect();
    let fixed: &[u8] = b"short";
    let out = hash_diff_compress_file(Some(&original), Some(fixed), None).unwrap();
    let compressed = out.original_compressed.unwrap();
    assert_ne!(compressed, original);
    assert!(compressed.len() < original.len());
    assert_eq!(zstd::stream::decode_all(&compressed[..]).unwrap(), original);
}

#[test]
fn symbol_file_is_compressed_whatever_happens_to_the_file() {
    let symbol: &[u8] = b"symbol table symbol table symbol table";
    let original: &[u8] = b"old";
    let out = hash_diff_compress_file(Some(original), None, Some(symbol)).unwrap();
    assert_eq!(out.patch, None);
    assert_eq!(zstd::stream::decode_all(&out.symbol_compressed.unwrap()[..]).unwrap(), symbol);
    let fixed: &[u8] = b"new";
    let out = hash_diff_compress_file(None, Some(fixed), Some(symbol)).unwrap();
    assert_eq!(zstd::stream::decode_all(&out.symbol_compressed.unwrap()[..]).unwrap(), symbol);
    assert_eq!(out.original_compressed, None);
}

#[test]
fn created_file_has_the_reserved_hash_as_original() {
    let fixed: &[u8] = b"ZZ";
    let out = hash_diff_compress_file(None, Some(fixed), None).unwrap();
    assert_eq!(out.entry.original, "null");
    assert_eq!(out.entry.fixed, hex(fixed));
    let patch = out.patch.unwrap();
    assert_eq!(out.entry.patch, Some(hex(&patch)));
    assert_eq!(out.original_compressed, None);
}

#[test]
fn removed_file_has_the_reserved_hash_as_fixed() {
    let original: &[u8] = b"going away";
    let out = hash_diff_compress_file(Some(original), None, None).unwrap();
    assert_eq!(out.entry.original, hex(original));
    assert_eq!(out.entry.fixed, "null");
    assert_eq!(out.entry.patch, None);
    assert_eq!(out.patch, None);
    assert!(!out.entry.executable);
    assert_eq!(zstd::stream::decode_all(&out.original_compressed.unwrap()[..]).unwrap(), original);
}

#[test]
fn empty_fixed_file_is_a_file() {
    let original: &[u8] = b"content";
    let fixed: &[u8] = b"";
    let out = hash_diff_compress_file(Some(original), Some(fixed), None).unwrap();
    assert_eq!(out.entry.fixed, "af1349b9f5f9a1a6a0404dea36dcc9499bcb25c9adc112b7cc9a93cae41f3262");
    assert!(out.patch.is_some());
    assert!(!out.entry.executable);
}

#[test]
fn executable_flag_follows_the_fixed_content() {
    let original: &[u8] = b"\x7fELF old";
    let fixed: &[u8] = b"plain text now";
    assert!(!hash_diff_compress_file(Some(original), Some(fixed), None).unwrap().entry.executable);
    assert!(hash_diff_compress_file(Some(fixed), Some(original), None).unwrap().entry.executable);
    let image: &[u8] = b"MZ image";
    assert!(hash_diff_compress_file(None, Some(image), None).unwrap().entry.executable);
}

#[test]
fn producing_twice_gives_the_same_output() {
    let original: Vec<u8> = (0..20000u32).map(|i| (i * 31 % 251) as u8).collect();
    let mut fixed = original.clone();
    fixed[100] ^= 0xff;
    fixed.extend_from_slice(b"tail");
    let first = hash_diff_compress_file(Some(&original), Some(&fixed), Some(b"sym")).unwrap();
    let second = hash_diff_compress_file(Some(&original), Some(&fixed), Some(b"sym")).unwrap();
    assert_eq!(first, second);
}

#[test]
fn output_is_assembled_from_what_was_made() {
    let out = assemble_output(
        "oooo".to_string(),
        "ffff".to_string(),
        true,
        Some(Ok(vec![1, 2, 3])),
        Some(Ok(vec![4])),
        None,
    )
    .unwrap();
    assert_eq!(
        out.entry,
        ManifestEntry {
            original: "oooo".to_string(),
            fixed: "ffff".to_string(),
            patch: Some(hex(&[1, 2, 3])),
            executable: true,
        }
    );
    assert_eq!(out.patch, Some(vec![1, 2, 3]));
    assert_eq!(out.original_compressed, Some(vec![4]));
    assert_eq!(out.symbol_compressed, None);
}

#[test]
fn failed_artifact_is_fatal() {
    let failed = || Some(Err::<Vec<u8>, String>("no space left".to_string()));
    let made = || Some(Ok::<Vec<u8>, String>(vec![1]));
    assert_eq!(
        assemble_output("o".into(), "f".into(), false, failed(), made(), made()),
        Err(ProduceError::Fatal("no space left".to_string()))
    );
    assert_eq!(
        assemble_output("o".into(), "f".into(), false, made(), failed(), None),
        Err(ProduceError::Fatal("no space left".to_string()))
    );
    assert_eq!(
        assemble_output("o".into(), "f".into(), false, None, None, failed()),
        Err(ProduceError::Fatal("no space left".to_string()))
    );
    assert!(assemble_output("o".into(), "f".into(), false, None, None, None).is_ok());
}

#[test]
fn delta_failures_have_words() {
    assert_eq!(delta_failure(DeltaError::Failed("broken pipe".to_string())), "broken pipe");
    assert_eq!(delta_failure(DeltaError::SourceTooLarge), "source data is too large to be indexed");
    assert_eq!(delta_failure(DeltaError::NotAPatch), "not a valid patch");
    assert_eq!(delta_failure(DeltaError::Unfaithful), "the patch does not give back the fixed file");
}

#[test]
fn entry_goes_under_the_key_of_its_path() {
    let mut manifest = Manifest::new();
    let out = hash_diff_compress_file(Some(b"AAAA"), Some(b"AABA"), None).unwrap();
    assert!(add_entry(&mut manifest, "linux/x86-64/bin/a.dll", out.entry.copy()));
    assert_eq!(manifest.get("linux", "x86-64", "bin/a.dll"), Some(&out.entry));
    assert_eq!(manifest.len(), 1);
}

#[test]
fn path_without_a_key_adds_nothing() {
    let mut manifest = Manifest::new();
    let out = hash_diff_compress_file(Some(b"AAAA"), Some(b"AABA"), None).unwrap();
    assert!(!add_entry(&mut manifest, "a.dll", out.entry.copy()));
    assert!(!add_entry(&mut manifest, "linux/a.dll", out.entry.copy()));
    assert_eq!(manifest.len(), 0);
}

#[test]
fn side_hash_matches_what_the_entry_records() {
    let original: &[u8] = b"AAAA";
    let fixed: &[u8] = b"AABA";
    let out = hash_diff_compress_file(Some(original), Some(fixed), None).unwrap();
    assert_eq!(out.entry.original, content_hash(Some(original)));
    assert_eq!(out.entry.fixed, content_hash(Some(fixed)));
}

#[test]
fn equal_hashes_mean_unchanged() {
    assert!(is_unchanged("null", "null"));
    assert!(is_unchanged("abcd", "abcd"));
    assert!(!is_unchanged("abcd", "abce"));
    assert!(!is_unchanged("null", "abcd"));
}

#[test]
fn delta_of_the_output_gives_back_the_fixed_content() {
    let pairs: Vec<(Option<&[u8]>, &[u8])> = vec![
        (Some(b"AAAA"), b"AABA"),
        (None, b"ZZ"),
        (Some(b"a longer original with some content"), b""),
        (Some(b""), b"from an empty original"),
        (Some(b"\x7fELF\x01\x02\x03"), b"MZ\x90\x00"),
    ];
    for (original, fixed) in pairs {
        let out = hash_diff_compress_file(original, Some(fixed), None).unwrap();
        let source = original.unwrap_or(b"");
        let applied = gmodpatchtool::delta::apply_patch(source, &out.patch.unwrap()).unwrap();
        assert_eq!(applied, fixed.to_vec());
        assert_eq!(content_hash(Some(&applied)), out.entry.fixed);
    }
}

fn plain_entry(tag: &str) -> ManifestEntry {
    ManifestEntry { original: format!("o-{tag}"), fixed: format!("f-{tag}"), patch: None, executable: false }
}

#[test]
fn entries_are_merged_under_the_keys_of_their_paths() {
    let files = vec![
        ("linux/x86-64/bin/b.dll".to_string(), plain_entry("b")),
        ("windows/public/a.dll".to_string(), plain_entry("w")),
        ("linux/x86-64/bin/a.dll".to_string(), plain_entry("a")),
    ];
    let manifest = merge_entries(&files).unwrap();
    assert_eq!(manifest.len(), 3);
    assert_eq!(manifest.get("linux", "x86-64", "bin/a.dll"), Some(&plain_entry("a")));
    assert_eq!(manifest.get("linux", "x86-64", "bin/b.dll"), Some(&plain_entry("b")));
    assert_eq!(manifest.get("windows", "public", "a.dll"), Some(&plain_entry("w")));
    assert_eq!(manifest.record_at(0).path, "bin/a.dll");
    assert_eq!(merge_entries(&Vec::new()).unwrap().len(), 0);
}

#[test]
fn merging_in_another_order_gives_the_same_manifest_file() {
    let mut files = vec![
        ("linux/x86-64/bin/b.dll".to_string(), plain_entry("b")),
        ("windows/public/a.dll".to_string(), plain_entry("w")),
        ("linux/x86-64/bin/a.dll".to_string(), plain_entry("a")),
        ("linux/dev/bin/a.dll".to_string(), plain_entry("d")),
    ];
    let text = gmodpatchtool::json::render_manifest(&merge_entries(&files).unwrap()).unwrap();
    files.reverse();
    assert_eq!(gmodpatchtool::json::render_manifest(&merge_entries(&files).unwrap()).unwrap(), text);
    files.swap(0, 2);
    assert_eq!(gmodpatchtool::json::render_manifest(&merge_entries(&files).unwrap()).unwrap(), text);
}

#[test]
fn first_file_without_a_key_stops_the_merge() {
    let files = vec![
        ("linux/x86-64/a".to_string(), plain_entry("a")),
        ("stray.txt".to_string(), plain_entry("s")),
        ("linux/b".to_string(), plain_entry("b")),
    ];
    assert_eq!(merge_entries(&files).err(), Some(1));
}
