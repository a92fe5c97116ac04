use workshop_fetch::engine::{build_commands, parse_ids, progress_field};

fn percent(line: &str) -> Option<f32> {
    progress_field(line).and_then(|t| t.parse::<f32>().ok())
}

#[test]
fn progress_line_parses_percent() {
    assert_eq!(progress_field("update progress: 42.5%"), Some("42.5".to_string()));
    assert_eq!(percent("update progress: 42.5%"), Some(42.5));
}

#[test]
fn progress_non_numeric_is_dropped() {
    assert_eq!(progress_field("progress: abc%"), Some("abc".to_string()));
    assert_eq!(percent("progress: abc%"), None);
}

#[test]
fn line_without_marker_has_no_progress() {
    assert_eq!(progress_field("Logging in user 'anonymous'"), None);
    assert_eq!(progress_field(""), None);
}

#[test]
fn progress_without_percent_sign_takes_rest() {
    assert_eq!(progress_field("Update state (0x61) downloading, progress:  7.25 "), Some("7.25".to_string()));
}

#[test]
fn progress_stops_at_second_marker() {
    assert_eq!(progress_field("progress: 3 progress: 4%"), Some("3".to_string()));
}

#[test]
fn parse_ids_splits_at_first_colon() {
    assert_eq!(parse_ids("4000:123456"), (Some("4000".to_string()), "123456".to_string()));
    assert_eq!(parse_ids("1:2:3"), (Some("1".to_string()), "2:3".to_string()));
    assert_eq!(parse_ids("570"), (None, "570".to_string()));
    assert_eq!(parse_ids(":9"), (Some("".to_string()), "9".to_string()));
}

#[test]
fn script_for_workshop_item() {
    assert_eq!(
        build_commands("/dl/123", Some("4000"), "123"),
        vec![
            "force_install_dir \"/dl/123\"".to_string(),
            "login anonymous".to_string(),
            "workshop_download_item 4000 123".to_string(),
            "quit".to_string(),
        ]
    );
}

#[test]
fn script_for_application() {
    assert_eq!(
        build_commands("/dl/570", None, "570"),
        vec![
            "force_install_dir \"/dl/570\"".to_string(),
            "login anonymous".to_string(),
            "app_update 570 validate".to_string(),
            "quit".to_string(),
        ]
    );
}
