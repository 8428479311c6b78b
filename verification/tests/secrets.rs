use zappy::secrets::{is_white_space, lookup, rustc_env, rustc_env_directives};

const FILE: &str = "# secrets\nWIFI_SSID = home net \r\n  # WIFI_PASSWORD=no\nWIFI_PASSWORD=a=b=c\nnonsense\nTHINGSBOARD_TOKEN=first\n THINGSBOARD_TOKEN\t=\tsecond";

#[test]
fn white_space_is_that_of_std() {
    for c in '\0'..=char::MAX {
        assert_eq!(is_white_space(c), c.is_whitespace());
    }
}

#[test]
fn keys_and_values_are_trimmed() {
    assert_eq!(lookup(FILE, "WIFI_SSID"), Some("home net".to_string()));
}

#[test]
fn the_first_equals_sign_ends_the_key() {
    assert_eq!(lookup(FILE, "WIFI_PASSWORD"), Some("a=b=c".to_string()));
}

#[test]
fn the_last_assignment_counts() {
    assert_eq!(lookup(FILE, "THINGSBOARD_TOKEN"), Some("second".to_string()));
}

#[test]
fn comments_and_other_lines_assign_nothing() {
    assert_eq!(lookup("#A=1", "#A"), None);
    assert_eq!(lookup("   #A=1\nB", "A"), None);
    assert_eq!(lookup("B", "B"), None);
    assert_eq!(lookup("", "A"), None);
    assert_eq!(lookup("=x", ""), Some("x".to_string()));
    assert_eq!(lookup("A=", "A"), Some("".to_string()));
}

#[test]
fn a_number_sign_behind_the_key_is_no_comment() {
    assert_eq!(lookup("A=#1", "A"), Some("#1".to_string()));
    assert_eq!(lookup("A#=1", "A#"), Some("1".to_string()));
}

#[test]
fn build_directives() {
    assert_eq!(
        rustc_env_directives(FILE),
        vec![
            "cargo:rustc-env=WIFI_SSID=home net".to_string(),
            "cargo:rustc-env=WIFI_PASSWORD=a=b=c".to_string(),
            "cargo:rustc-env=THINGSBOARD_TOKEN=second".to_string(),
        ]
    );
    assert_eq!(rustc_env("", "WIFI_SSID"), "cargo:rustc-env=WIFI_SSID=");
}

#[test]
fn later_files_win() {
    let first = "A=1\nB=2";
    let second = "A=3";
    let whole = format!("{first}\n{second}");
    assert_eq!(lookup(&whole, "A"), Some("3".to_string()));
    assert_eq!(lookup(&whole, "B"), Some("2".to_string()));
}
