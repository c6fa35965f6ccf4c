use activity_rag::analyzer::{
    analyze_content_keywords, analyze_sql_data_statistically, classify_ocr_content,
    extract_domain, extract_hour_from_timestamp, parse_timestamp, ActivityCounts, Row,
};
use activity_rag::report::generate_statistical_report;

fn empty_row() -> Row {
    Row {
        app_name: None,
        window_name: None,
        browser_url: None,
        ocr_text: None,
        transcription: None,
        timestamp: None,
        device: None,
        start_time: None,
        end_time: None,
    }
}

#[test]
fn analyze_two_rows_scenario() {
    let mut r1 = empty_row();
    r1.app_name = Some("Code".to_string());
    r1.ocr_text = Some("function foo() { return 1; }".to_string());
    let mut r2 = empty_row();
    r2.app_name = Some("Chrome".to_string());
    r2.browser_url = Some("https://github.com/x".to_string());
    let rows = vec![r1, r2];
    let rep = analyze_sql_data_statistically(&rows);
    assert_eq!(rep.total_rows, 2);
    let names: Vec<(&str, usize)> = rep
        .app_usage
        .iter()
        .map(|e| (e.name.as_str(), e.count))
        .collect();
    assert_eq!(names, vec![("Code", 1), ("Chrome", 1)]);
    let domains: Vec<(&str, usize)> = rep
        .website_domains
        .iter()
        .map(|e| (e.key.as_str(), e.count))
        .collect();
    assert_eq!(domains, vec![("github.com", 1)]);
    assert!(rep.coding_indicators > 0);
    assert_eq!(rep.browser_usage, 1);
}

#[test]
fn analyze_empty_rows_reports_no_data() {
    let rows: Vec<Row> = Vec::new();
    let rep = analyze_sql_data_statistically(&rows);
    assert_eq!(rep.total_rows, 0);
    let text = generate_statistical_report(&rep, "a quiet day");
    assert_eq!(text, "No data available for the selected time range");
}

#[test]
fn report_opens_with_overview() {
    let mut r1 = empty_row();
    r1.app_name = Some("Code".to_string());
    r1.ocr_text = Some("writing documentation today".to_string());
    let rows = vec![r1];
    let rep = analyze_sql_data_statistically(&rows);
    let text = generate_statistical_report(&rep, "January 30, 2025");
    assert!(text.starts_with("# 📊 **Activity Analysis Report**\n\n*Generated on January 30, 2025*"));
    assert!(text.contains("**Total Activities**: 1 records"));
    assert!(text.contains("**Applications Used**: 1"));
    assert!(text.contains("**Main App**: Code"));
}

#[test]
fn extract_domain_cases() {
    assert_eq!(extract_domain("https://github.com/x"), Some("github.com".to_string()));
    assert_eq!(extract_domain("http://example.org"), Some("example.org".to_string()));
    assert_eq!(extract_domain("ftp://example.org/x"), None);
    assert_eq!(extract_domain("github.com/x"), None);
    assert_eq!(extract_domain(""), None);
}

#[test]
fn classify_ocr_content_cases() {
    assert_eq!(classify_ocr_content("An ERROR occurred here today"), "error_messages");
    assert_eq!(classify_ocr_content("unhandled exception in thread"), "error_messages");
    let long: Vec<&str> = std::iter::repeat("word").take(60).collect();
    assert_eq!(classify_ocr_content(&long.join(" ")), "detailed_content");
    assert_eq!(classify_ocr_content("OK"), "ui_elements");
    assert_eq!(
        classify_ocr_content("visit http site for five words yes"),
        "web_content"
    );
    assert_eq!(
        classify_ocr_content("just some plain notes written down"),
        "general_text"
    );
}

#[test]
fn extract_hour_cases() {
    assert_eq!(extract_hour_from_timestamp("2025-01-30 14:30:00"), Some(14));
    assert_eq!(extract_hour_from_timestamp("2025-01-30 07:00:00"), Some(7));
    assert_eq!(extract_hour_from_timestamp("2025-01-30T14:30:00Z"), None);
    assert_eq!(extract_hour_from_timestamp(""), None);
    assert_eq!(extract_hour_from_timestamp("2025-01-30 xx:30:00"), None);
}

#[test]
fn parse_timestamp_follows_rfc3339() {
    let a = parse_timestamp("2025-01-30 12:00:00Z");
    let b = parse_timestamp("2025-01-30 13:30:00Z");
    assert!(a.is_some());
    assert!(b.is_some());
    assert_eq!(b.unwrap() - a.unwrap(), 5400);
    assert_eq!(parse_timestamp("not a timestamp"), None);
    assert_eq!(parse_timestamp("2025-01-30 12:00:00"), None);
}

#[test]
fn session_span_uses_first_and_last_timestamps() {
    let mut r1 = empty_row();
    r1.app_name = Some("Code".to_string());
    r1.timestamp = Some("2025-01-30 12:00:00Z".to_string());
    let mut r2 = empty_row();
    r2.app_name = Some("Code".to_string());
    r2.timestamp = Some("2025-01-30 13:30:00Z".to_string());
    let rows = vec![r1, r2];
    let rep = analyze_sql_data_statistically(&rows);
    assert_eq!(rep.session_start.as_deref(), Some("2025-01-30 12:00:00Z"));
    assert_eq!(rep.session_end.as_deref(), Some("2025-01-30 13:30:00Z"));
    assert_eq!(rep.session_minutes, Some(90));
}

#[test]
fn malformed_timestamps_are_silently_excluded() {
    let mut r1 = empty_row();
    r1.app_name = Some("Code".to_string());
    r1.timestamp = Some("yesterday at noon".to_string());
    let rows = vec![r1];
    let rep = analyze_sql_data_statistically(&rows);
    assert_eq!(rep.hourly.len(), 0);
    assert_eq!(rep.session_minutes, None);
    assert_eq!(rep.total_rows, 1);
}

#[test]
fn hour_buckets_count_rows() {
    let mut r1 = empty_row();
    r1.timestamp = Some("2025-01-30 14:30:00".to_string());
    let mut r2 = empty_row();
    r2.timestamp = Some("2025-01-30 14:45:00".to_string());
    let mut r3 = empty_row();
    r3.timestamp = Some("2025-01-30 09:00:00".to_string());
    let rows = vec![r1, r2, r3];
    let rep = analyze_sql_data_statistically(&rows);
    let hours: Vec<(u32, usize)> = rep.hourly.iter().map(|e| (e.hour, e.count)).collect();
    assert_eq!(hours, vec![(14, 2), (9, 1)]);
}

#[test]
fn audio_rows_are_classified_and_timed() {
    let mut r1 = empty_row();
    r1.app_name = Some("Zoom".to_string());
    r1.transcription = Some("we discussed the budget in the meeting".to_string());
    r1.start_time = Some(100);
    r1.end_time = Some(400);
    let rows = vec![r1];
    let rep = analyze_sql_data_statistically(&rows);
    assert_eq!(rep.audio_types.meeting, 1);
    assert_eq!(rep.audio_types.long_conversation, 0);
    assert_eq!(rep.audio_types.short_audio, 0);
    assert_eq!(rep.total_audio_seconds, 300);
}

#[test]
fn window_buckets_use_app_and_window() {
    let mut r1 = empty_row();
    r1.app_name = Some("Code".to_string());
    r1.window_name = Some("main.rs".to_string());
    let rows = vec![r1];
    let rep = analyze_sql_data_statistically(&rows);
    let windows: Vec<(&str, usize)> = rep
        .window_counts
        .iter()
        .map(|e| (e.key.as_str(), e.count))
        .collect();
    assert_eq!(windows, vec![("Code - main.rs", 1)]);
}

#[test]
fn missing_app_name_counts_as_unknown() {
    let mut r1 = empty_row();
    r1.ocr_text = Some("stray text".to_string());
    let rows = vec![r1];
    let rep = analyze_sql_data_statistically(&rows);
    assert_eq!(rep.app_usage.len(), 1);
    assert_eq!(rep.app_usage[0].name, "Unknown");
    assert_eq!(rep.app_usage[0].count, 1);
}

#[test]
fn communication_keywords_count() {
    let mut r1 = empty_row();
    r1.transcription = Some("hello this chat message is an email".to_string());
    let rows = vec![r1];
    let rep = analyze_sql_data_statistically(&rows);
    // "hello", "chat", "message", "email" hit, and "hi" inside "this".
    assert_eq!(rep.communication_indicators, 5);
    assert_eq!(rep.activity_categories.communication, 5);
}

#[test]
fn repeated_app_rows_accumulate() {
    let mut r1 = empty_row();
    r1.app_name = Some("Code".to_string());
    r1.ocr_text = Some("alpha beta".to_string());
    let mut r2 = empty_row();
    r2.app_name = Some("Code".to_string());
    r2.ocr_text = Some("gamma".to_string());
    let rows = vec![r1, r2];
    let rep = analyze_sql_data_statistically(&rows);
    assert_eq!(rep.app_usage.len(), 1);
    assert_eq!(rep.app_usage[0].name, "Code");
    assert_eq!(rep.app_usage[0].count, 2);
    assert_eq!(rep.app_usage[0].content_len, "alpha beta".len() + "gamma".len());
    assert_eq!(rep.total_ocr_chars, 15);
}

#[test]
fn report_shows_session_duration_when_known() {
    let mut r1 = empty_row();
    r1.app_name = Some("Code".to_string());
    r1.timestamp = Some("2025-01-30 12:00:00Z".to_string());
    let mut r2 = empty_row();
    r2.app_name = Some("Code".to_string());
    r2.timestamp = Some("2025-01-30 14:00:00Z".to_string());
    let rows = vec![r1, r2];
    let rep = analyze_sql_data_statistically(&rows);
    let text = generate_statistical_report(&rep, "now");
    assert!(text.contains("**Session Duration**: 120 minutes (2 hours)"));
    assert!(text.contains("## ⏱️ **Time Breakdown**"));
}

#[test]
fn keyword_scan_updates_category_counters() {
    let mut cats = ActivityCounts {
        coding: 0,
        communication: 0,
        documentation: 0,
        research: 0,
        design: 0,
        data: 0,
        productivity: 0,
        debugging: 0,
    };
    let mut coding_ind: usize = 0;
    let mut comm_ind: usize = 0;
    analyze_content_keywords(
        "Function foo had a BUG; see the readme",
        &mut cats,
        &mut coding_ind,
        &mut comm_ind,
    );
    // "function" is a coding keyword, "bug" a debugging keyword, and
    // "readme" a documentation keyword, matched case-insensitively.
    assert_eq!(cats.coding, 1);
    assert_eq!(cats.debugging, 1);
    assert_eq!(cats.documentation, 1);
    assert_eq!(cats.communication, 0);
    assert_eq!(coding_ind, 2);
    assert_eq!(comm_ind, 0);
    // A second scan accumulates on top of the first.
    analyze_content_keywords("email the meeting notes", &mut cats, &mut coding_ind, &mut comm_ind);
    assert_eq!(cats.communication, 2);
    assert_eq!(comm_ind, 2);
    assert_eq!(coding_ind, 2);
}

#[test]
fn report_ranks_sections_and_names_the_main_app() {
    let mut rows: Vec<Row> = Vec::new();
    for ts in ["2025-01-30 14:00:00", "2025-01-30 14:10:00", "2025-01-30 09:00:00"] {
        let mut r = empty_row();
        r.app_name = Some("Code".to_string());
        r.ocr_text = Some("function foo".to_string());
        r.timestamp = Some(ts.to_string());
        rows.push(r);
    }
    for url in ["https://github.com/a", "https://github.com/b"] {
        let mut r = empty_row();
        r.app_name = Some("Chrome".to_string());
        r.browser_url = Some(url.to_string());
        rows.push(r);
    }
    let mut r6 = empty_row();
    r6.app_name = Some("Zoom".to_string());
    r6.transcription = Some("hello".to_string());
    rows.push(r6);

    let rep = analyze_sql_data_statistically(&rows);
    let text = generate_statistical_report(&rep, "now");
    assert!(text.contains(
        "## 💻 **Most Used Applications**\n**Code** - 3 activities (50%)\n**Chrome** - 2 activities (33%)\n**Zoom** - 1 activities (16%)\n\n"
    ));
    assert!(text.contains(
        "## ⏰ **Peak Activity Hours**\n**14:00** - 2 activities (33%)\n**9:00** - 1 activities (16%)\n\n"
    ));
    assert!(text.contains(
        "## 🌐 **Top Websites**\n**github.com** - 2 visits (4 minutes)\n\n"
    ));
    assert!(text.contains("**Main App**: Code"));
    assert!(text.contains("**Primary Activity**: Coding"));
    assert!(text.contains("**Session Type**: Development-focused work"));
    assert!(text.ends_with("*Analyzed 6 activities across 3 applications*"));
}

#[test]
fn report_session_type_follows_the_indicator_totals() {
    let mut r1 = empty_row();
    r1.app_name = Some("Slack".to_string());
    r1.transcription = Some("hello hi thanks email chat".to_string());
    let rows = vec![r1];
    let rep = analyze_sql_data_statistically(&rows);
    assert!(rep.communication_indicators > rep.coding_indicators);
    let text = generate_statistical_report(&rep, "now");
    assert!(text.contains("**Session Type**: Communication-heavy session"));
    assert!(text.contains("**Primary Activity**: Communication"));
}
