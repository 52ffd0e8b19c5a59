use gmodpatchtool::cache::CacheOutcome;
use gmodpatchtool::integrity::IntegrityStatus;
use gmodpatchtool::run::{Failure, Phase, Run};

#[test]
fn run_without_pending_files_goes_to_the_permissions() {
    assert_eq!(Run::new(0, 0).phase(), Phase::Permissions);
}

#[test]
fn run_without_downloads_begins_with_patching() {
    assert_eq!(Run::new(0, 2).phase(), Phase::Patching);
}

#[test]
fn no_file_is_patched_before_every_download_has_ended() {
    let mut run = Run::new(3, 2);
    assert_eq!(run.phase(), Phase::Downloading);
    assert_eq!(run.download_finished(CacheOutcome::FromCache), Phase::Downloading);
    assert_eq!(run.download_finished(CacheOutcome::Downloaded), Phase::Downloading);
    assert_eq!(run.download_finished(CacheOutcome::Downloaded), Phase::Patching);
}

#[test]
fn patch_results_do_not_count_while_downloading() {
    let mut run = Run::new(1, 1);
    assert_eq!(run.patch_finished(IntegrityStatus::Fixed), Phase::Downloading);
    assert_eq!(run.patch_finished(IntegrityStatus::NeedFix), Phase::Downloading);
    assert_eq!(run.download_finished(CacheOutcome::Downloaded), Phase::Patching);
    assert_eq!(run.patch_finished(IntegrityStatus::Fixed), Phase::Permissions);
}

#[test]
fn failed_download_fails_the_run_once_all_downloads_have_ended() {
    let mut run = Run::new(3, 1);
    assert_eq!(run.download_finished(CacheOutcome::Mismatch), Phase::Downloading);
    assert_eq!(run.download_finished(CacheOutcome::Downloaded), Phase::Downloading);
    assert_eq!(run.download_finished(CacheOutcome::Downloaded), Phase::Failed(Failure::Download));
    assert_eq!(run.patch_finished(IntegrityStatus::Fixed), Phase::Failed(Failure::Download));
    assert_eq!(run.download_finished(CacheOutcome::Downloaded), Phase::Failed(Failure::Download));
}

#[test]
fn every_kind_of_failed_download_fails_the_run() {
    for outcome in [
        CacheOutcome::Unavailable,
        CacheOutcome::NotDecompressed,
        CacheOutcome::NotStored,
        CacheOutcome::Mismatch,
    ] {
        let mut run = Run::new(1, 1);
        assert_eq!(run.download_finished(outcome), Phase::Failed(Failure::Download));
    }
}

#[test]
fn no_permission_is_set_before_every_patch_has_ended() {
    let mut run = Run::new(0, 3);
    assert_eq!(run.patch_finished(IntegrityStatus::Fixed), Phase::Patching);
    assert_eq!(run.patch_finished(IntegrityStatus::Fixed), Phase::Patching);
    assert_eq!(run.patch_finished(IntegrityStatus::Fixed), Phase::Permissions);
    assert_eq!(run.patch_finished(IntegrityStatus::NeedFix), Phase::Permissions);
}

#[test]
fn file_that_is_not_fixed_fails_the_run_once_all_patches_have_ended() {
    let mut run = Run::new(0, 3);
    assert_eq!(run.patch_finished(IntegrityStatus::NeedFix), Phase::Patching);
    assert_eq!(run.patch_finished(IntegrityStatus::Fixed), Phase::Patching);
    assert_eq!(run.patch_finished(IntegrityStatus::Fixed), Phase::Failed(Failure::Patch));
}

#[test]
fn every_status_but_fixed_fails_the_run() {
    for status in [
        IntegrityStatus::NeedDelete,
        IntegrityStatus::NeedOriginal,
        IntegrityStatus::NeedWipeFix,
        IntegrityStatus::NeedFix,
    ] {
        let mut run = Run::new(0, 1);
        assert_eq!(run.patch_finished(status), Phase::Failed(Failure::Patch));
    }
}
