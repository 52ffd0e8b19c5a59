use gmodpatchtool::install::{
    branch_of, contains_text, disables_browser, pick_user, target_platform, AppState, LoginUser,
};

fn settled() -> AppState {
    AppState {
        state_flags: 4,
        scheduled_auto_update: false,
        full_validate_before_next_update: false,
        bytes_downloaded: 100,
        bytes_to_download: 100,
        bytes_staged: 50,
        bytes_to_stage: 50,
    }
}

#[test]
fn settled_copy_is_ready() {
    assert!(settled().is_ready());
    assert!(AppState { bytes_downloaded: 0, bytes_to_download: 0, bytes_staged: 0, bytes_to_stage: 0, ..settled() }
        .is_ready());
}

#[test]
fn copy_with_anything_ahead_is_not_ready() {
    assert!(!AppState { state_flags: 6, ..settled() }.is_ready());
    assert!(!AppState { state_flags: 0, ..settled() }.is_ready());
    assert!(!AppState { scheduled_auto_update: true, ..settled() }.is_ready());
    assert!(!AppState { full_validate_before_next_update: true, ..settled() }.is_ready());
    assert!(!AppState { bytes_downloaded: 99, ..settled() }.is_ready());
    assert!(!AppState { bytes_staged: 49, ..settled() }.is_ready());
}

#[test]
fn installation_without_a_beta_is_on_the_public_branch() {
    assert_eq!(branch_of(None), "public");
    assert_eq!(branch_of(Some("x86-64".to_string())), "x86-64");
    assert_eq!(branch_of(Some("".to_string())), "");
}

#[test]
fn text_is_found_wherever_it_occurs() {
    assert!(contains_text("proton_experimental", "proton"));
    assert!(contains_text("ge-proton9", "proton"));
    assert!(contains_text("proton", "proton"));
    assert!(contains_text("anything", ""));
    assert!(contains_text("", ""));
    assert!(contains_text("aab", "ab"));
    assert!(contains_text("caf\u{e9} proton", "\u{e9} p"));
    assert!(!contains_text("proto", "proton"));
    assert!(!contains_text("", "proton"));
    assert!(!contains_text("Proton", "proton"));
    assert!(!contains_text("pro ton", "proton"));
}

#[test]
fn compatibility_layer_needs_the_files_of_the_masked_platform() {
    assert_eq!(target_platform("linux", None), "linux");
    assert_eq!(target_platform("linux", Some("steamlinuxruntime_sniper")), "linux");
    assert_eq!(target_platform("linux", Some("proton_experimental")), "windows");
    assert_eq!(target_platform("linux", Some("ge-proton9-20")), "windows");
    assert_eq!(target_platform("macos", Some("none")), "macos");
}

#[test]
fn launch_option_that_disables_the_browser_is_found() {
    assert!(disables_browser("-nochromium"));
    assert!(disables_browser("-console -nochromium -novid"));
    assert!(!disables_browser("-console -novid"));
    assert!(!disables_browser(""));
}

fn user(most_recent: bool, timestamp: u64) -> LoginUser {
    LoginUser { most_recent, timestamp }
}

#[test]
fn no_users_no_choice() {
    assert_eq!(pick_user(&vec![]), None);
}

#[test]
fn single_user_is_chosen() {
    assert_eq!(pick_user(&vec![user(false, 0)]), Some(0));
}

#[test]
fn user_who_signed_in_last_is_chosen() {
    assert_eq!(pick_user(&vec![user(false, 10), user(false, 30), user(false, 20)]), Some(1));
    assert_eq!(pick_user(&vec![user(false, 10), user(false, 10)]), Some(0));
}

#[test]
fn user_marked_most_recent_takes_the_place_of_the_one_before() {
    assert_eq!(pick_user(&vec![user(false, 30), user(true, 10)]), Some(1));
    assert_eq!(pick_user(&vec![user(true, 10), user(false, 30)]), Some(1));
    assert_eq!(pick_user(&vec![user(true, 10), user(false, 5)]), Some(0));
    assert_eq!(pick_user(&vec![user(true, 10), user(true, 5)]), Some(1));
}
