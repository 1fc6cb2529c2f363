use wvw_logs::common::{WorkerMessage, WorkerType};
use wvw_logs::formatting::{decimal_string, format_report_timestamp, format_report_timestamp_at, format_timestamp};
use wvw_logs::history::ReportHistory;
use wvw_logs::settings::{SavedToken, Settings};
use wvw_logs::state::{ProcessingState, TimeFilter};
use wvw_logs::uploaded::{extract_timestamp_from_filename, parse_log_timestamp, UploadedLogs};
use wvw_logs::webhooks::WebhookSettings;

#[test]
fn report_history_add_remove_clear() {
    let mut h = ReportHistory::new();
    h.add_report("s1".to_string(), 10, "https://a/1".to_string(), None);
    h.add_report("s2".to_string(), 20, "https://a/2".to_string(), Some("https://legacy/2".to_string()));
    h.add_report("s3".to_string(), 30, "https://a/3".to_string(), None);
    assert_eq!(h.reports.len(), 3);
    assert_eq!(h.reports[1].legacy_report_url.as_deref(), Some("https://legacy/2"));
    h.remove_report(5);
    assert_eq!(h.reports.len(), 3);
    h.remove_report(0);
    assert_eq!(h.reports.len(), 2);
    assert_eq!(h.reports[0].session_id, "s2");
    assert_eq!(h.reports[1].timestamp, 30);
    h.clear();
    assert!(h.reports.is_empty());
}

#[test]
fn uploaded_logs_record_names_once() {
    let mut u = UploadedLogs::new();
    u.add_log("20240101-000000.zevtc".to_string());
    u.add_log("20240101-000000.zevtc".to_string());
    u.add_log("other.zevtc".to_string());
    assert_eq!(u.filenames.len(), 2);
    assert!(u.is_uploaded("other.zevtc"));
    assert!(!u.is_uploaded("missing.zevtc"));
    u.clear();
    assert!(!u.is_uploaded("other.zevtc"));
}

#[test]
fn extracts_and_parses_log_stamps() {
    assert_eq!(
        extract_timestamp_from_filename("C:\\logs\\WvW\\20241105-143022.zevtc").as_deref(),
        Some("20241105-143022")
    );
    assert_eq!(extract_timestamp_from_filename("a/b/20241105-143022-extra.txt").as_deref(), Some("20241105-143022"));
    assert_eq!(extract_timestamp_from_filename("dir/short.zevtc"), None);
    assert_eq!(extract_timestamp_from_filename("123456789012345.zevtc").as_deref(), Some("123456789012345"));
    assert_eq!(parse_log_timestamp("20241105-143022"), Some(1730817022));
    assert_eq!(parse_log_timestamp("20240101-000000"), Some(1704067200));
    assert_eq!(parse_log_timestamp("20241305-143022"), None);
    assert_eq!(parse_log_timestamp("20240230-000000"), None);
    assert_eq!(parse_log_timestamp("2024110-5143022"), None);
    assert_eq!(parse_log_timestamp("20241105-14302"), None);
}

#[test]
fn cleanup_forgets_old_uploads() {
    let start = 1704067200u64;
    let mut u = UploadedLogs::new();
    u.add_log("20240101-000000.zevtc".to_string());
    u.add_log("20240104-000001.zevtc".to_string());
    u.add_log("notes.zevtc".to_string());
    let removed = u.cleanup_old_entries_at(start + 259200 + 1);
    assert_eq!(removed, 1);
    assert!(!u.is_uploaded("20240101-000000.zevtc"));
    assert!(u.is_uploaded("20240104-000001.zevtc"));
    assert!(u.is_uploaded("notes.zevtc"));
    assert_eq!(u.cleanup_old_entries_at(start + 259200), 0);
    let mut u2 = UploadedLogs::new();
    u2.add_log("20240101-000000.zevtc".to_string());
    assert_eq!(u2.cleanup_old_entries_at(start + 259200), 0);
    assert_eq!(u2.cleanup_old_entries_at(10), 0);
    assert_eq!(u2.cleanup_old_entries(), 1);
}

#[test]
fn webhooks_refuse_duplicates() {
    let mut w = WebhookSettings::new();
    assert_eq!(w.add_webhook_at("one".to_string(), "https://h/1".to_string(), 100), Ok(()));
    assert_eq!(
        w.add_webhook_at("two".to_string(), "https://h/1".to_string(), 200),
        Err("This webhook URL is already saved".to_string())
    );
    assert_eq!(
        w.add_webhook_at("one".to_string(), "https://h/2".to_string(), 200),
        Err("A webhook with this name already exists".to_string())
    );
    assert_eq!(
        w.add_webhook_at("one".to_string(), "https://h/1".to_string(), 200),
        Err("This webhook URL is already saved".to_string())
    );
    assert_eq!(w.saved_webhooks.len(), 1);
    assert_eq!(w.saved_webhooks[0].created, 100);
    assert_eq!(w.saved_webhooks[0].last_used, 100);
    assert!(w.add_webhook("two".to_string(), "https://h/2".to_string()).is_ok());
    assert!(w.saved_webhooks[1].created > 1_600_000_000);
}

#[test]
fn webhooks_delete_update_sort() {
    let mut w = WebhookSettings::new();
    w.add_webhook_at("a".to_string(), "https://h/a".to_string(), 10).unwrap();
    w.add_webhook_at("b".to_string(), "https://h/b".to_string(), 30).unwrap();
    w.add_webhook_at("c".to_string(), "https://h/c".to_string(), 20).unwrap();
    w.add_webhook_at("d".to_string(), "https://h/d".to_string(), 30).unwrap();
    let sorted: Vec<String> = w.get_webhooks_sorted().into_iter().map(|x| x.name).collect();
    assert_eq!(sorted, vec!["b", "d", "c", "a"]);
    w.update_webhook_usage_at("https://h/a", 50);
    assert_eq!(w.saved_webhooks[0].last_used, 50);
    assert_eq!(w.saved_webhooks[0].created, 10);
    w.update_webhook_usage_at("https://h/none", 60);
    let sorted: Vec<String> = w.get_webhooks_sorted().into_iter().map(|x| x.name).collect();
    assert_eq!(sorted, vec!["a", "b", "d", "c"]);
    assert!(w.delete_webhook("b"));
    assert!(!w.delete_webhook("b"));
    assert_eq!(w.saved_webhooks.len(), 3);
    w.update_webhook_usage("https://h/c");
    assert_eq!(w.saved_webhooks[1].name, "c");
    assert!(w.saved_webhooks[1].last_used > 1_600_000_000);
    w.remember_last_webhook = true;
    w.init();
    assert!(w.saved_webhooks.is_empty());
    assert!(!w.remember_last_webhook);
}

#[test]
fn formats_relative_report_times() {
    assert_eq!(format_report_timestamp_at(1000, 1000 + 2 * 86400 + 5), "2 days ago");
    assert_eq!(format_report_timestamp_at(1000, 1000 + 86400), "1 day ago");
    assert_eq!(format_report_timestamp_at(0, 3 * 3600 + 59), "3 hours ago");
    assert_eq!(format_report_timestamp_at(0, 3600), "1 hour ago");
    assert_eq!(format_report_timestamp_at(0, 60), "1 minute ago");
    assert_eq!(format_report_timestamp_at(0, 45 * 60), "45 minutes ago");
    assert_eq!(format_report_timestamp_at(0, 59), "Just now");
    assert_eq!(format_report_timestamp_at(100, 99), "Unknown");
    assert_eq!(format_report_timestamp(u64::MAX), "Unknown");
}

#[test]
fn formats_log_file_dates() {
    assert_eq!(format_timestamp("20251010-222255.zevtc").as_deref(), Some("Oct 10, 2025 - 22:22"));
    assert_eq!(format_timestamp("20250102-030405.zevtc").as_deref(), Some("Jan 2, 2025 - 03:04"));
    assert_eq!(format_timestamp("20251310-222255.zevtc"), None);
    assert_eq!(format_timestamp("20251010222255.zevtc"), None);
    assert_eq!(format_timestamp("2025101-222255.zevtc"), None);
    assert_eq!(format_timestamp("20251010-2222.zevtc"), None);
    assert_eq!(format_timestamp("2025x010-222255.zevtc"), None);
}

#[test]
fn decimal_rendering() {
    assert_eq!(decimal_string(0), "0");
    assert_eq!(decimal_string(7), "7");
    assert_eq!(decimal_string(1099), "1099");
    assert_eq!(decimal_string(u64::MAX), "18446744073709551615");
}

#[test]
fn settings_defaults() {
    let mut s = Settings::new();
    assert!(s.show_formatted_timestamps);
    assert_eq!(s.auto_cleanup_days, 30);
    s.history_token = "SECRET-REDACTED".to_string();
    s.saved_tokens.push(SavedToken { name: "main".to_string(), token: "t".to_string() });
    s.auto_cleanup_enabled = true;
    s.guild_name = "Guild".to_string();
    s.init_with_log_dir("D:\\logs".to_string());
    assert_eq!(s.api_endpoint, "https://parser.rethl.net/api.php");
    assert_eq!(s.log_directory, "D:\\logs");
    assert!(!s.auto_cleanup_enabled);
    assert_eq!(s.guild_name, "");
    assert_eq!(s.history_token, "SECRET-REDACTED");
    assert_eq!(s.saved_tokens.len(), 1);
    s.init();
    assert!(s.log_directory.ends_with("arcdps.cbtlogs"));
    assert!(s.log_directory.contains("Guild Wars 2"));
}

#[test]
fn worker_message_carries_result() {
    let m = WorkerMessage::upload_result(3, Ok("Uploaded".to_string()));
    assert_eq!(m.index, 3);
    match m.payload {
        WorkerType::UploadResult(Ok(s)) => assert_eq!(s, "Uploaded"),
        _ => panic!("unexpected payload"),
    }
    let e = WorkerMessage::upload_result(4, Err(anyhow::Error::msg("boom")));
    match e.payload {
        WorkerType::UploadResult(Err(err)) => assert_eq!(err.to_string(), "boom"),
        _ => panic!("unexpected payload"),
    }
}

#[test]
fn workflow_states_compare() {
    assert_eq!(ProcessingState::Idle, ProcessingState::Idle);
    assert_ne!(ProcessingState::Complete, ProcessingState::Failed);
    assert_ne!(TimeFilter::Last24Hours, TimeFilter::Last72Hours);
}

#[test]
fn cleanup_compares_signed_times() {
    assert_eq!(parse_log_timestamp("19691231-000000"), Some(-86400));
    let mut u = UploadedLogs::new();
    u.add_log("19691231-000000.zevtc".to_string());
    assert_eq!(u.cleanup_old_entries_at(0), 0);
    assert!(u.is_uploaded("19691231-000000.zevtc"));
    u.add_log("20240101-000000.zevtc".to_string());
    assert_eq!(u.cleanup_old_entries_at(1704067200 + 10 * 86400), 2);
    assert!(u.filenames.is_empty());
}

#[test]
fn stamps_read_numbers_as_parse_does() {
    assert_eq!(parse_log_timestamp("+0241105-143022"), Some(-61383086978));
    assert_eq!(parse_log_timestamp("2024+105-+43022"), parse_log_timestamp("20240105-043022"));
    assert_eq!(parse_log_timestamp("20241231-235960"), Some(1735689599));
    assert_eq!(parse_log_timestamp("20241105\u{e9}43022"), None);
    assert_eq!(parse_log_timestamp("2024110\u{e9}-14302"), None);
    assert_eq!(parse_log_timestamp("2024-105-143022"), None);
}

#[test]
fn log_dates_read_numbers_as_parse_does() {
    assert_eq!(format_timestamp("+0251010-222255.zevtc").as_deref(), Some("Oct 10, 25 - 22:22"));
    assert_eq!(format_timestamp("2025+110-+22255.zevtc").as_deref(), Some("Jan 10, 2025 - 02:22"));
    assert_eq!(format_timestamp("20251010-22225\u{e9}.zevtc"), None);
    assert_eq!(format_timestamp("20251010-2222\u{e9}.zevtc").as_deref(), Some("Oct 10, 2025 - 22:22"));
    assert_eq!(format_timestamp("20251010-2222\u{20ac}.zevtc"), None);
    assert_eq!(format_timestamp("20251010-2222ab.zevtc").as_deref(), Some("Oct 10, 2025 - 22:22"));
    assert_eq!(format_timestamp("2025101\u{e9}-222255.zevtc"), None);
    assert_eq!(format_timestamp("2025--10-222255.zevtc"), None);
}

#[test]
fn loaded_settings_get_defaults() {
    let mut s = Settings::new();
    s.guild_name = "Guild".to_string();
    s.fill_loaded_defaults("C:\\logs".to_string());
    assert_eq!(s.api_endpoint, "https://parser.rethl.net/api.php");
    assert_eq!(s.log_directory, "C:\\logs");
    assert_eq!(s.guild_name, "Guild");
    s.api_endpoint = "https://other/api".to_string();
    s.log_directory = "D:\\mine".to_string();
    s.fill_loaded_defaults("C:\\logs".to_string());
    assert_eq!(s.api_endpoint, "https://other/api");
    assert_eq!(s.log_directory, "D:\\mine");
}
