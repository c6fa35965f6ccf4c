use activity_rag::source::{
    build_analysis_condition, build_ingest_sql, build_search_url, fetch_has_more,
    get_state_file_path, initial_export_state, is_time_usage_query, Pagination, TimeRange,
};
use activity_rag::system::{
    check_system_requirements, screenpipe_audio, screenpipe_completions, screenpipe_custom,
    screenpipe_help, screenpipe_mcp, screenpipe_migrate, screenpipe_pipe, screenpipe_version,
    screenpipe_vision, screenpipe_add,
};
use activity_rag::text::{parse_u32, u64_to_string};
use activity_rag::source::{classify_item, ItemKind};

#[test]
fn command_builders_prepend_their_subcommand() {
    let args = vec!["--list".to_string(), "all".to_string()];
    assert_eq!(screenpipe_help(), vec!["--help".to_string()]);
    assert_eq!(screenpipe_version(), vec!["--version".to_string()]);
    assert_eq!(screenpipe_audio(&args), vec!["audio", "--list", "all"]);
    assert_eq!(screenpipe_vision(&args), vec!["vision", "--list", "all"]);
    assert_eq!(screenpipe_pipe(&args), vec!["pipe", "--list", "all"]);
    assert_eq!(screenpipe_mcp(&args), vec!["mcp", "--list", "all"]);
    assert_eq!(screenpipe_add(&args), vec!["add", "--list", "all"]);
    assert_eq!(screenpipe_migrate(&args), vec!["migrate", "--list", "all"]);
    assert_eq!(screenpipe_completions(&args), vec!["completions", "--list", "all"]);
    assert_eq!(screenpipe_custom(&args), vec!["--list", "all"]);
}

#[test]
fn system_check_applies_resource_floors() {
    let low = check_system_requirements(true, None, false, None, None, false, 7, 9);
    assert!(!low.ram_ok);
    assert!(!low.disk_ok);
    assert_eq!(low.total_ram_gb, 7);
    assert_eq!(low.free_disk_gb, 9);
    let ok = check_system_requirements(
        true,
        Some("0.1.0".to_string()),
        true,
        Some("2.0".to_string()),
        Some("/usr/bin/screenpipe".to_string()),
        true,
        8,
        10,
    );
    assert!(ok.ram_ok);
    assert!(ok.disk_ok);
    assert!(ok.ollama_installed);
    assert!(ok.screenpipe_running);
    assert_eq!(ok.screenpipe_path.as_deref(), Some("/usr/bin/screenpipe"));
}

#[test]
fn time_range_sql_filters() {
    assert_eq!(TimeRange::Daily.to_sql_filter(), "f.timestamp > datetime('now', '-1 day')");
    assert_eq!(TimeRange::Weekly.to_sql_filter(), "f.timestamp > datetime('now', '-7 days')");
    assert_eq!(TimeRange::Monthly.to_sql_filter(), "f.timestamp > datetime('now', '-30 days')");
    assert_eq!(TimeRange::Yearly.to_sql_filter(), "f.timestamp > datetime('now', '-1 year')");
    assert_eq!(TimeRange::AllTime.to_sql_filter(), "1=1");
    assert_eq!(TimeRange::Weekly.to_string(), "weekly");
    assert_eq!(TimeRange::AllTime.to_string(), "all time");
}

#[test]
fn time_usage_queries_are_recognized() {
    assert!(is_time_usage_query("screen TIME last month"));
    assert!(is_time_usage_query("usage"));
    // Any filter naming f.timestamp or datetime contains "time" too.
    assert!(is_time_usage_query("f.timestamp > datetime('now', '-7 days')"));
    assert!(!is_time_usage_query("1=1"));
}

#[test]
fn ingest_sql_switches_on_query_kind() {
    let agg = build_ingest_sql("monthly usage");
    assert!(agg.starts_with("SELECT f.app_name, COUNT(*) as frame_count"));
    assert!(agg.contains("WHERE monthly usage GROUP BY f.app_name"));
    let detail = build_ingest_sql("1=1");
    assert!(detail.starts_with("SELECT f.id AS frame_id"));
    assert!(detail.contains("WHERE 1=1 ORDER BY"));
    assert!(detail.ends_with("LIMIT 1000;"));
}

#[test]
fn analysis_condition_defaults_to_one_day() {
    assert_eq!(
        build_analysis_condition(&None),
        "f.timestamp > datetime('now', '-1 day')"
    );
    let bounds = Some(("2025-01-01".to_string(), "2025-01-31".to_string()));
    assert_eq!(
        build_analysis_condition(&bounds),
        "f.timestamp >= datetime('2025-01-01') AND f.timestamp <= datetime('2025-01-31')"
    );
}

#[test]
fn search_url_carries_optional_filters() {
    let plain = build_search_url(100, 250, &None, &None, &None);
    assert_eq!(
        plain,
        "http://localhost:3030/search?content_type=ocr&limit=100&offset=25"
    );
    let filtered = build_search_url(
        100,
        0,
        &Some("audio".to_string()),
        &Some("2025-01-01".to_string()),
        &Some("2025-01-31".to_string()),
    );
    assert_eq!(
        filtered,
        "http://localhost:3030/search?content_type=ocr&limit=100&offset=0&content_type=audio&start_time=2025-01-01&end_time=2025-01-31"
    );
}

#[test]
fn pagination_has_more_pages_until_total() {
    assert!(fetch_has_more(&Pagination { limit: 100, offset: 0, total: 250 }));
    assert!(fetch_has_more(&Pagination { limit: 100, offset: 100, total: 250 }));
    assert!(!fetch_has_more(&Pagination { limit: 100, offset: 200, total: 250 }));
    assert!(!fetch_has_more(&Pagination { limit: 100, offset: 0, total: 100 }));
}

#[test]
fn initial_export_state_is_fresh() {
    let s = initial_export_state();
    assert_eq!(s.last_offset, 0);
    assert_eq!(s.batch_number, 1);
    assert!(s.is_first_run);
}

#[test]
fn state_file_path_is_under_the_export_directory() {
    assert_eq!(
        get_state_file_path("/home/someone/Desktop"),
        "/home/someone/Desktop/project one test/export_state.json"
    );
}

#[test]
fn decimal_rendering_and_parsing() {
    assert_eq!(u64_to_string(0), "0");
    assert_eq!(u64_to_string(7), "7");
    assert_eq!(u64_to_string(12345), "12345");
    assert_eq!(u64_to_string(u64::MAX), "18446744073709551615");
    assert_eq!(parse_u32("14"), Some(14));
    assert_eq!(parse_u32("0"), Some(0));
    assert_eq!(parse_u32(""), None);
    assert_eq!(parse_u32("4294967295"), Some(u32::MAX));
    assert_eq!(parse_u32("4294967296"), None);
    assert_eq!(parse_u32("12a"), None);
    assert_eq!(parse_u32("-3"), None);
}

#[test]
fn feed_items_are_filed_by_content_type() {
    assert_eq!(classify_item("ocr"), ItemKind::Ocr);
    assert_eq!(classify_item("OCR"), ItemKind::Ocr);
    assert_eq!(classify_item("Audio"), ItemKind::Audio);
    assert_eq!(classify_item("ui"), ItemKind::Ui);
    assert_eq!(classify_item("video"), ItemKind::Other);
}
