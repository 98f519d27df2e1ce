use fast_json_gen::format::OutputFormat;
use fast_json_gen::progress::{bar_filled, ProgressInfo};

#[test]
fn format_from_str_recognizes_csv_in_any_case() {
    assert!(OutputFormat::from_str("csv") == OutputFormat::CSV);
    assert!(OutputFormat::from_str("CSV") == OutputFormat::CSV);
    assert!(OutputFormat::from_str("cSv") == OutputFormat::CSV);
}

#[test]
fn format_from_str_defaults_to_json() {
    assert!(OutputFormat::from_str("json") == OutputFormat::JSON);
    assert!(OutputFormat::from_str("xml") == OutputFormat::JSON);
    assert!(OutputFormat::from_str("") == OutputFormat::JSON);
    assert!(OutputFormat::from_str("csvx") == OutputFormat::JSON);
}

#[test]
fn format_names_and_content_types() {
    assert_eq!(OutputFormat::JSON.to_string(), "JSON");
    assert_eq!(OutputFormat::CSV.to_string(), "CSV");
    assert_eq!(OutputFormat::JSON.content_type(), "application/json");
    assert_eq!(OutputFormat::CSV.content_type(), "text/csv");
}

#[test]
fn progress_counters_accumulate() {
    let mut p = ProgressInfo::new(1000, 1, 0);
    assert_eq!(p.total_size(), 1000);
    p.update(300);
    p.update(200);
    p.update_streamed(150);
    assert_eq!(p.current_bytes, 500);
    assert_eq!(p.streamed_bytes, 150);
    assert_eq!(p.target_bytes, 1000);
}

#[test]
fn progress_counters_saturate_instead_of_wrapping() {
    let mut p = ProgressInfo::new(10, 1, 0);
    p.update(usize::MAX);
    p.update(usize::MAX);
    assert_eq!(p.current_bytes, u64::MAX);
}

#[test]
fn progress_report_is_rate_limited() {
    let mut p = ProgressInfo::new(10, 1, 1000);
    assert!(!p.should_report(1000));
    assert!(!p.should_report(1251));
    assert!(p.should_report(1252));
    p.mark_reported(1252);
    assert!(!p.should_report(1300));
    assert!(p.should_report(1504));
}

#[test]
fn progress_bar_fill_counts() {
    assert_eq!(bar_filled(0, 100), 0);
    assert_eq!(bar_filled(50, 100), 25);
    assert_eq!(bar_filled(100, 100), 50);
    assert_eq!(bar_filled(150, 100), 50);
    assert_eq!(bar_filled(1, 3), 16);
    assert_eq!(bar_filled(7, 0), 50);
}
