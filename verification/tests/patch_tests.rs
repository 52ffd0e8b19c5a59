use gmodpatchtool::delta::make_patch;
use gmodpatchtool::hash::content_hash;
use gmodpatchtool::integrity::IntegrityStatus;
use gmodpatchtool::manifest::{ManifestEntry, ManifestRecord};
use gmodpatchtool::patch::{PatchAction, PatchEvent, PatchJob};

fn record(original: &str, fixed: &str) -> ManifestRecord {
    ManifestRecord {
        platform: "linux".to_string(),
        branch: "x86-64".to_string(),
        path: "bin/a.dll".to_string(),
        entry: ManifestEntry {
            original: original.to_string(),
            fixed: fixed.to_string(),
            patch: Some("pppp".to_string()),
            executable: false,
        },
    }
}

#[test]
fn fixed_file_needs_nothing() {
    let (job, action) = PatchJob::start(&record("oooo", "ffff"), IntegrityStatus::Fixed);
    assert_eq!(action, PatchAction::Finish(IntegrityStatus::Fixed));
    assert!(job.is_finished());
    assert_eq!(job.status(), IntegrityStatus::Fixed);
}

#[test]
fn removed_file_is_deleted() {
    let (job, action) = PatchJob::start(&record("oooo", "null"), IntegrityStatus::NeedDelete);
    assert_eq!(action, PatchAction::Delete);
    assert!(!job.is_finished());
    let (job, action) = job.advance(PatchEvent::Done);
    assert_eq!(action, PatchAction::Finish(IntegrityStatus::Fixed));
    assert_eq!(job.status(), IntegrityStatus::Fixed);
    assert!(job.is_finished());
}

#[test]
fn file_that_cannot_be_deleted_is_truncated() {
    let (job, _) = PatchJob::start(&record("oooo", "null"), IntegrityStatus::NeedDelete);
    let (job, action) = job.advance(PatchEvent::Failed("in use".to_string()));
    assert_eq!(action, PatchAction::Truncate);
    assert_eq!(job.status(), IntegrityStatus::NeedDelete);
    let (job, action) = job.advance(PatchEvent::Done);
    assert_eq!(action, PatchAction::Finish(IntegrityStatus::Fixed));
    assert_eq!(job.status(), IntegrityStatus::Fixed);
}

#[test]
fn file_that_can_be_neither_deleted_nor_truncated_stays_pending() {
    let (job, _) = PatchJob::start(&record("oooo", "null"), IntegrityStatus::NeedDelete);
    let (job, _) = job.advance(PatchEvent::Failed("in use".to_string()));
    let (job, action) = job.advance(PatchEvent::Failed("read-only".to_string()));
    assert_eq!(action, PatchAction::Finish(IntegrityStatus::NeedDelete));
    assert_eq!(job.status(), IntegrityStatus::NeedDelete);
    assert!(job.is_finished());
}

#[test]
fn unknown_file_is_restored_then_patched() {
    let (job, action) = PatchJob::start(&record("oooo", "ffff"), IntegrityStatus::NeedOriginal);
    assert_eq!(action, PatchAction::RestoreOriginal("originals/linux/x86-64/bin/a.dll".to_string()));
    let (job, action) = job.advance(PatchEvent::Done);
    assert_eq!(action, PatchAction::Load("patches/linux/x86-64/bin/a.dll.bsdiff".to_string()));
    assert_eq!(job.status(), IntegrityStatus::NeedFix);
}

#[test]
fn file_that_cannot_be_restored_stays_as_it_is() {
    let (job, _) = PatchJob::start(&record("oooo", "ffff"), IntegrityStatus::NeedOriginal);
    let (job, action) = job.advance(PatchEvent::Failed("no such file".to_string()));
    assert_eq!(action, PatchAction::Finish(IntegrityStatus::NeedOriginal));
    assert_eq!(job.status(), IntegrityStatus::NeedOriginal);
}

#[test]
fn new_file_is_created_empty_then_patched() {
    let (job, action) = PatchJob::start(&record("null", "ffff"), IntegrityStatus::NeedWipeFix);
    assert_eq!(action, PatchAction::CreateEmpty);
    let (job, action) = job.advance(PatchEvent::Done);
    assert_eq!(action, PatchAction::Load("patches/linux/x86-64/bin/a.dll.bsdiff".to_string()));
    assert_eq!(job.status(), IntegrityStatus::NeedFix);
}

#[test]
fn file_that_cannot_be_created_stays_pending() {
    let (job, _) = PatchJob::start(&record("null", "ffff"), IntegrityStatus::NeedWipeFix);
    let (job, action) = job.advance(PatchEvent::Failed("permission denied".to_string()));
    assert_eq!(action, PatchAction::Finish(IntegrityStatus::NeedWipeFix));
    assert!(job.is_finished());
}

#[test]
fn original_file_is_patched_and_verified() {
    let original: &[u8] = b"AAAA";
    let fixed: &[u8] = b"AABA";
    let delta = make_patch(original, fixed).unwrap();
    let fixed_hash = content_hash(Some(fixed));
    let rec = record(&content_hash(Some(original)), &fixed_hash);
    let (job, action) = PatchJob::start(&rec, IntegrityStatus::NeedFix);
    assert_eq!(action, PatchAction::Load("patches/linux/x86-64/bin/a.dll.bsdiff".to_string()));
    let (job, action) = job.advance(PatchEvent::Loaded(original.to_vec(), delta));
    assert_eq!(action, PatchAction::Write(fixed.to_vec()));
    assert_eq!(job.status(), IntegrityStatus::NeedFix);
    let (job, action) = job.advance(PatchEvent::Written(fixed_hash));
    assert_eq!(action, PatchAction::Finish(IntegrityStatus::Fixed));
    assert_eq!(job.status(), IntegrityStatus::Fixed);
}

#[test]
fn patched_file_with_another_hash_is_not_fixed() {
    let delta = make_patch(b"AAAA", b"AABA").unwrap();
    let (job, _) = PatchJob::start(&record("oooo", "ffff"), IntegrityStatus::NeedFix);
    let (job, _) = job.advance(PatchEvent::Loaded(b"AAAA".to_vec(), delta));
    let (job, action) = job.advance(PatchEvent::Written("xxxx".to_string()));
    assert_eq!(action, PatchAction::Finish(IntegrityStatus::NeedFix));
    assert_eq!(job.status(), IntegrityStatus::NeedFix);
}

#[test]
fn broken_delta_leaves_the_file_unfixed() {
    let (job, _) = PatchJob::start(&record("oooo", "ffff"), IntegrityStatus::NeedFix);
    let (job, action) = job.advance(PatchEvent::Loaded(b"AAAA".to_vec(), b"not a delta".to_vec()));
    assert_eq!(action, PatchAction::Finish(IntegrityStatus::NeedFix));
    assert!(job.is_finished());
}

#[test]
fn failed_read_or_write_leaves_the_file_unfixed() {
    let (job, _) = PatchJob::start(&record("oooo", "ffff"), IntegrityStatus::NeedFix);
    let (_, action) = job.advance(PatchEvent::Failed("cannot read".to_string()));
    assert_eq!(action, PatchAction::Finish(IntegrityStatus::NeedFix));
    let delta = make_patch(b"AAAA", b"AABA").unwrap();
    let (job, _) = PatchJob::start(&record("oooo", "ffff"), IntegrityStatus::NeedFix);
    let (job, _) = job.advance(PatchEvent::Loaded(b"AAAA".to_vec(), delta));
    let (_, action) = job.advance(PatchEvent::Failed("cannot write".to_string()));
    assert_eq!(action, PatchAction::Finish(IntegrityStatus::NeedFix));
}

#[test]
fn event_that_answers_nothing_ends_the_job() {
    let (job, _) = PatchJob::start(&record("oooo", "null"), IntegrityStatus::NeedDelete);
    let (job, action) = job.advance(PatchEvent::Written("null".to_string()));
    assert_eq!(action, PatchAction::Finish(IntegrityStatus::NeedDelete));
    let (job, action) = job.advance(PatchEvent::Done);
    assert_eq!(action, PatchAction::Finish(IntegrityStatus::NeedDelete));
    assert!(job.is_finished());
}

#[test]
fn finished_job_stays_finished() {
    let (job, _) = PatchJob::start(&record("oooo", "null"), IntegrityStatus::NeedDelete);
    let (job, _) = job.advance(PatchEvent::Done);
    let (job, action) = job.advance(PatchEvent::Failed("late".to_string()));
    assert_eq!(action, PatchAction::Finish(IntegrityStatus::Fixed));
    assert_eq!(job.status(), IntegrityStatus::Fixed);
}
