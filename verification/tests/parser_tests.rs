use palboard_gateway::update::{line_fits, parse_line, update_args_for, UpdateProgressEvent, UpdateType};

#[test]
fn success_line_is_completed() {
    assert_eq!(parse_line("Success!"), Some(UpdateProgressEvent::Completed));
    assert_eq!(
        parse_line("Success! App '2394010' fully installed."),
        Some(UpdateProgressEvent::Completed)
    );
}

#[test]
fn bracketed_tag_is_self_update_status() {
    assert_eq!(
        parse_line("[1234] downloading manifests"),
        Some(UpdateProgressEvent::SelfUpdateStatus { text: "downloading manifests".to_string() })
    );
    assert_eq!(
        parse_line("[----] Verifying installation..."),
        Some(UpdateProgressEvent::SelfUpdateStatus {
            text: "Verifying installation...".to_string()
        })
    );
}

#[test]
fn error_line_captures_parenthesized_reason() {
    assert_eq!(
        parse_line("ERROR! Failed to install app 'X' (No subscription)"),
        Some(UpdateProgressEvent::Failed { reason: "No subscription".to_string() })
    );
}

#[test]
fn error_reason_is_the_last_parenthesized_run() {
    assert_eq!(
        parse_line("ERROR! app (test) failed (disk full)"),
        Some(UpdateProgressEvent::Failed { reason: "disk full".to_string() })
    );
}

#[test]
fn update_state_line_is_progress() {
    assert_eq!(
        parse_line(" Update state (0x61) downloading, progress: 42.50 (420 / 1000)"),
        Some(UpdateProgressEvent::Progress {
            state_id: 0x61,
            state_name: "downloading".to_string(),
            progress: "42.50".to_string(),
            current: 420,
            total: 1000,
        })
    );
}

#[test]
fn progress_keeps_raw_fraction_text() {
    let parsed = parse_line(" Update state (0x5) verifying install, progress: 0.10 (7 / 9)");
    assert_eq!(
        parsed,
        Some(UpdateProgressEvent::Progress {
            state_id: 5,
            state_name: "verifying install".to_string(),
            progress: "0.10".to_string(),
            current: 7,
            total: 9,
        })
    );
}

#[test]
fn progress_fraction_sides_may_be_empty() {
    assert_eq!(
        parse_line(" Update state (0x3) reconfiguring, progress: . (1 / 2)"),
        Some(UpdateProgressEvent::Progress {
            state_id: 3,
            state_name: "reconfiguring".to_string(),
            progress: ".".to_string(),
            current: 1,
            total: 2,
        })
    );
}

#[test]
fn unrecognized_lines_produce_no_event() {
    assert_eq!(parse_line(""), None);
    assert_eq!(parse_line("Redirecting stderr to '/home/steam/logs/stderr.txt'"), None);
    assert_eq!(parse_line("Update state (0x61) downloading, progress: 1.0 (1 / 2)"), None);
    assert_eq!(parse_line(" Update state (0x61) downloading, progress: 1,0 (1 / 2)"), None);
    assert_eq!(parse_line("[123] too short a tag"), None);
    assert_eq!(parse_line("ERROR! no reason given"), None);
}

#[test]
fn fits_rejects_oversized_numbers() {
    assert!(line_fits(" Update state (0x61) downloading, progress: 42.50 (420 / 1000)"));
    assert!(line_fits("anything without the progress shape"));
    assert!(!line_fits(" Update state (0xfffffffff) d, progress: .0 (1 / 2)"));
    assert!(!line_fits(" Update state (0x1) d, progress: .0 (99999999999999999999 / 2)"));
    assert!(line_fits(" Update state (0xffffffff) d, progress: .0 (1 / 2)"));
}

#[test]
fn runtime_update_args() {
    assert_eq!(update_args_for(UpdateType::Steam), vec!["+login", "anonymous", "+quit"]);
}

#[test]
fn game_update_args_with_validation() {
    assert_eq!(
        update_args_for(UpdateType::Game { validate: true }),
        vec![
            "+force_install_dir",
            "/home/steam/palserver",
            "+login",
            "anonymous",
            "+app_update",
            "2394010",
            "validate",
            "+quit",
        ]
    );
}

#[test]
fn game_update_args_without_validation() {
    assert_eq!(
        update_args_for(UpdateType::Game { validate: false }),
        vec![
            "+force_install_dir",
            "/home/steam/palserver",
            "+login",
            "anonymous",
            "+app_update",
            "2394010",
            "+quit",
        ]
    );
}
