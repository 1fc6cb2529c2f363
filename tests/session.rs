use wvw_logs::common::WorkerMessage;
use wvw_logs::logfile::{ClassificationResult, LogFile};
use wvw_logs::session::{
    clear_session, handle_toggle_keybind, mark_uploaded_logs, reset_upload_state, session_from_response, update_logs,
};
use wvw_logs::uploaded::UploadedLogs;

fn entry(name: &str, selected: bool, uploaded: bool) -> LogFile {
    let mut l = LogFile::new(format!("/logs/{}", name), name.to_string(), 1, 2, ClassificationResult::unknown());
    l.selected = selected;
    l.uploaded = uploaded;
    l
}

#[test]
fn toggle_keybind_flips_on_press() {
    assert!(handle_toggle_keybind("KB_WVW_INSIGHTS_TOGGLE", false, false));
    assert!(!handle_toggle_keybind("KB_WVW_INSIGHTS_TOGGLE", false, true));
    assert!(handle_toggle_keybind("KB_WVW_INSIGHTS_TOGGLE", true, true));
    assert!(!handle_toggle_keybind("KB_OTHER", false, false));
}

#[test]
fn upload_results_update_the_list() {
    let mut logs = vec![entry("a.zevtc", true, false), entry("b.zevtc", true, false)];
    update_logs(&mut logs, WorkerMessage::upload_result(1, Ok("Uploaded".to_string())));
    assert_eq!(logs[1].status, "Uploaded");
    assert!(logs[1].uploaded);
    assert_eq!(logs[0].status, "Ready");
    update_logs(&mut logs, WorkerMessage::upload_result(0, Err(anyhow::Error::msg("timeout"))));
    assert_eq!(logs[0].status, "Failed: timeout");
    assert!(!logs[0].uploaded);
    update_logs(&mut logs, WorkerMessage::upload_result(7, Ok("x".to_string())));
    assert_eq!(logs.len(), 2);
    assert_eq!(logs[0].filename, "a.zevtc");
}

#[test]
fn marks_selected_uploaded_logs_once() {
    let logs = vec![
        entry("a.zevtc", true, true),
        entry("b.zevtc", false, true),
        entry("c.zevtc", true, false),
        entry("d.zevtc", true, true),
        entry("a.zevtc", true, true),
    ];
    let mut u = UploadedLogs::new();
    u.add_log("d.zevtc".to_string());
    assert_eq!(mark_uploaded_logs(&logs, &mut u), 1);
    assert_eq!(u.filenames, vec!["d.zevtc".to_string(), "a.zevtc".to_string()]);
    assert_eq!(mark_uploaded_logs(&logs, &mut u), 0);
}

#[test]
fn reset_puts_logs_back_to_ready() {
    let mut logs = vec![entry("a.zevtc", true, true), entry("b.zevtc", false, false)];
    logs[0].status = "Uploaded".to_string();
    reset_upload_state(&mut logs);
    for l in &logs {
        assert!(!l.selected && !l.uploaded);
        assert_eq!(l.status, "Ready");
    }
    assert_eq!(logs[1].filename, "b.zevtc");
}

#[test]
fn clearing_session_keeps_failures() {
    let mut logs = vec![
        entry("a.zevtc", true, true),
        entry("b.zevtc", true, true),
        entry("c.zevtc", true, false),
    ];
    logs[0].status = "Uploaded".to_string();
    logs[1].status = "Failed: timeout".to_string();
    logs[2].status = "Queued".to_string();
    clear_session(&mut logs);
    assert!(!logs[0].uploaded);
    assert_eq!(logs[0].status, "Ready");
    assert!(logs[0].selected);
    assert!(logs[1].uploaded);
    assert_eq!(logs[1].status, "Failed: timeout");
    assert_eq!(logs[2].status, "Queued");
}

#[test]
fn session_answers() {
    assert_eq!(
        session_from_response(true, Some("s".to_string()), Some("o".to_string()), None),
        Ok(("s".to_string(), "o".to_string()))
    );
    assert_eq!(
        session_from_response(true, None, Some("o".to_string()), None),
        Err("No session_id in response".to_string())
    );
    assert_eq!(
        session_from_response(true, Some("s".to_string()), None, None),
        Err("No ownership_token in response".to_string())
    );
    assert_eq!(
        session_from_response(false, Some("s".to_string()), Some("o".to_string()), Some("bad token".to_string())),
        Err("Session creation failed: bad token".to_string())
    );
    assert_eq!(session_from_response(false, None, None, None), Err("Session creation failed: ".to_string()));
}
