use wvw_logs::phases::phase_message_for;
use wvw_logs::progress::extract_file_progress;
use wvw_logs::scanning::{check_auto_scan, update_scan_display};
use wvw_logs::settings::{find_token_name, SavedToken, Settings};
use wvw_logs::state::TimeFilter;
use wvw_logs::text::{parse_i32, parse_usize};

#[test]
fn auto_scan_decision() {
    assert!(check_auto_scan(true, true, TimeFilter::SincePluginStart, None));
    assert!(check_auto_scan(true, true, TimeFilter::SincePluginStart, Some(20)));
    assert!(!check_auto_scan(true, true, TimeFilter::SincePluginStart, Some(19)));
    assert!(!check_auto_scan(false, true, TimeFilter::SincePluginStart, None));
    assert!(!check_auto_scan(true, false, TimeFilter::SincePluginStart, None));
    assert!(!check_auto_scan(true, true, TimeFilter::Last24Hours, None));
}

#[test]
fn scan_display_texts() {
    assert_eq!(update_scan_display(None), "Not yet refreshed");
    assert_eq!(update_scan_display(Some(0)), "Last refreshed: 0 seconds ago");
    assert_eq!(update_scan_display(Some(1)), "Last refreshed: 1 second ago");
    assert_eq!(update_scan_display(Some(59)), "Last refreshed: 59 seconds ago");
    assert_eq!(update_scan_display(Some(60)), "Last refreshed: 1 minute ago");
    assert_eq!(update_scan_display(Some(150)), "Last refreshed: 2 minutes ago");
}

#[test]
fn finds_saved_token_names() {
    let mut s = Settings::new();
    s.saved_tokens.push(SavedToken { name: "main".to_string(), token: "aaa".to_string() });
    s.saved_tokens.push(SavedToken { name: "alt".to_string(), token: "bbb".to_string() });
    s.saved_tokens.push(SavedToken { name: "dup".to_string(), token: "aaa".to_string() });
    assert_eq!(find_token_name(&s, "aaa").as_deref(), Some("main"));
    assert_eq!(find_token_name(&s, "bbb").as_deref(), Some("alt"));
    assert_eq!(find_token_name(&s, "ccc"), None);
}

#[test]
fn parses_usize_like_std() {
    assert_eq!(parse_usize("0"), Some(0));
    assert_eq!(parse_usize("+42"), Some(42));
    assert_eq!(parse_usize("18446744073709551615"), Some(usize::MAX));
    assert_eq!(parse_usize("18446744073709551616"), None);
    assert_eq!(parse_usize(""), None);
    assert_eq!(parse_usize("+"), None);
    assert_eq!(parse_usize("-1"), None);
    assert_eq!(parse_usize("1 "), None);
}

#[test]
fn parses_i32_like_std() {
    assert_eq!(parse_i32("3"), Some(3));
    assert_eq!(parse_i32("-3"), Some(-3));
    assert_eq!(parse_i32("+7"), Some(7));
    assert_eq!(parse_i32("2147483647"), Some(i32::MAX));
    assert_eq!(parse_i32("-2147483648"), Some(i32::MIN));
    assert_eq!(parse_i32("2147483648"), None);
    assert_eq!(parse_i32("-+1"), None);
    assert_eq!(parse_i32("-"), None);
    assert_eq!(parse_i32(""), None);
}

#[test]
fn file_progress_from_phase() {
    assert_eq!(extract_file_progress("Processing logs with Elite Insights (3/4)"), (3, 4));
    assert_eq!(extract_file_progress("a (1/2) b (5/9)"), (5, 9));
    assert_eq!(extract_file_progress("Processing (x/4)"), (0, 0));
    assert_eq!(extract_file_progress("no counter"), (0, 0));
    assert_eq!(extract_file_progress(")(3/4"), (0, 0));
    assert_eq!(extract_file_progress("(34)"), (0, 0));
}

#[test]
fn phase_messages() {
    assert_eq!(
        phase_message_for("elite_insights_processing_3_4").as_deref(),
        Some("Processing logs with Elite Insights (3/4)")
    );
    assert_eq!(
        phase_message_for("elite_insights_processing_+3_04_x").as_deref(),
        Some("Processing logs with Elite Insights (3/4)")
    );
    assert_eq!(
        phase_message_for("elite_insights_processing_3").as_deref(),
        Some("Processing log data with Elite Insights")
    );
    assert_eq!(
        phase_message_for("elite_insights_processing").as_deref(),
        Some("Processing log data with Elite Insights")
    );
    assert_eq!(phase_message_for("tiddlywiki_save").as_deref(), Some("Saving final HTML report"));
    assert_eq!(phase_message_for("complete").as_deref(), Some("Processing complete"));
    assert_eq!(phase_message_for("something_else"), None);
}
