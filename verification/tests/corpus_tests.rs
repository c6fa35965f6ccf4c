use activity_rag::analyzer::Row;
use activity_rag::chunker::MetaFields;
use activity_rag::corpus::{
    build_summary_chunks, build_time_usage_chunks, AggRow, AppUsageRecord, AudioRecord,
    OcrRecord, RAGSystem, RagError, RagService, SourceFile,
};

fn no_meta() -> MetaFields {
    MetaFields {
        app_name: None,
        timestamp: None,
        window_name: None,
        speaker_id: None,
    }
}

fn ocr(text: &str) -> OcrRecord {
    OcrRecord {
        text: Some(text.to_string()),
        meta: no_meta(),
    }
}

fn empty_row() -> Row {
    Row {
        app_name: None,
        window_name: None,
        browser_url: None,
        ocr_text: None,
        transcription: None,
        timestamp: None,
        device: None,
        start_time: None,
        end_time: None,
    }
}

#[test]
fn new_corpus_is_empty() {
    let system = RAGSystem::new();
    assert_eq!(system.get_collection_stats().total_points, 0);
}

#[test]
fn ingest_counts_at_least_one_chunk_per_text() {
    let mut system = RAGSystem::new();
    let files = vec![SourceFile {
        ocr: vec![ocr("first record"), ocr("second record")],
        audio: vec![AudioRecord {
            transcription: Some("spoken words".to_string()),
            meta: no_meta(),
        }],
        app_usage: Some(AppUsageRecord {
            app_name: Some("Code".to_string()),
        }),
    }];
    let count = system.ingest_data(&files);
    assert!(count >= 4);
    assert_eq!(system.get_collection_stats().total_points, count);
}

#[test]
fn records_without_text_are_skipped_not_errors() {
    let mut system = RAGSystem::new();
    let files = vec![SourceFile {
        ocr: vec![OcrRecord {
            text: None,
            meta: no_meta(),
        }],
        audio: vec![AudioRecord {
            transcription: None,
            meta: no_meta(),
        }],
        app_usage: Some(AppUsageRecord { app_name: None }),
    }];
    let count = system.ingest_data(&files);
    assert_eq!(count, 0);
    assert_eq!(system.get_collection_stats().total_points, 0);
}

#[test]
fn app_usage_becomes_a_usage_chunk() {
    let mut system = RAGSystem::new();
    let files = vec![SourceFile {
        ocr: vec![],
        audio: vec![],
        app_usage: Some(AppUsageRecord {
            app_name: Some("Chrome".to_string()),
        }),
    }];
    let count = system.ingest_data(&files);
    assert_eq!(count, 1);
    assert_eq!(system.chunks[0].content, "App: Chrome - Usage data");
    assert_eq!(system.chunks[0].metadata.source_type, "app_usage");
}

#[test]
fn clear_then_stats_is_zero() {
    let mut system = RAGSystem::new();
    let files = vec![SourceFile {
        ocr: vec![ocr("something to remember")],
        audio: vec![],
        app_usage: None,
    }];
    system.ingest_data(&files);
    assert!(system.get_collection_stats().total_points > 0);
    system.clear_collection();
    assert_eq!(system.get_collection_stats().total_points, 0);
}

#[test]
fn stats_before_initialization_is_an_explicit_error() {
    let service = RagService::new();
    match service.get_rag_stats() {
        Err(e) => assert_eq!(e.message(), "RAG system not initialized"),
        Ok(_) => panic!("expected the not-initialized error"),
    }
}

#[test]
fn query_before_initialization_is_an_explicit_error() {
    let service = RagService::new();
    match service.query_rag_system("anything", None, None) {
        Err(RagError::NotInitialized) => {}
        _ => panic!("expected the not-initialized error"),
    }
}

#[test]
fn initialize_then_stats_is_zero() {
    let mut service = RagService::new();
    let msg = service.initialize_rag();
    assert_eq!(msg, "RAG system initialized successfully");
    let stats = service.get_rag_stats().unwrap();
    assert_eq!(stats.total_points, 0);
}

#[test]
fn ingest_auto_creates_and_reports_count() {
    let mut service = RagService::new();
    let files = vec![SourceFile {
        ocr: vec![ocr("a memory")],
        audio: vec![],
        app_usage: None,
    }];
    let msg = service.ingest_data_rag(&files);
    assert_eq!(msg, "Successfully ingested 1 chunks");
    assert_eq!(service.get_rag_stats().unwrap().total_points, 1);
}

#[test]
fn clear_rag_data_empties_the_corpus() {
    let mut service = RagService::new();
    let files = vec![SourceFile {
        ocr: vec![ocr("to be forgotten")],
        audio: vec![],
        app_usage: None,
    }];
    service.ingest_data_rag(&files);
    let msg = service.clear_rag_data();
    assert_eq!(msg.unwrap(), "RAG data cleared successfully");
    assert_eq!(service.get_rag_stats().unwrap().total_points, 0);
}

#[test]
fn clear_before_initialization_is_an_explicit_error() {
    let mut service = RagService::new();
    match service.clear_rag_data() {
        Err(RagError::NotInitialized) => {}
        _ => panic!("expected the not-initialized error"),
    }
}

#[test]
fn query_after_ingest_returns_ranked_context_and_prompt() {
    let mut service = RagService::new();
    let files = vec![SourceFile {
        ocr: vec![ocr("weekly budget meeting notes")],
        audio: vec![],
        app_usage: None,
    }];
    service.ingest_data_rag(&files);
    let ctx = service.query_rag_system("budget meeting", None, None).unwrap();
    assert_eq!(ctx.context_chunks.len(), 1);
    assert_eq!(ctx.similarity_scores.len(), 1);
    assert!(ctx.prompt.contains("weekly budget meeting notes"));
    assert!(ctx.prompt.contains("USER QUESTION: budget meeting"));
}

#[test]
fn process_rows_builds_enhanced_lines() {
    let mut service = RagService::new();
    let mut row = empty_row();
    row.app_name = Some("Code".to_string());
    row.ocr_text = Some("fn main".to_string());
    row.window_name = Some("editor".to_string());
    row.timestamp = Some("2025-01-30 14:30:00".to_string());
    let rows = vec![row];
    let msg = service.process_sql_data_for_rag(&rows);
    assert_eq!(msg, "Successfully ingested 2 data chunks into RAG system");
    let stats = service.get_rag_stats().unwrap();
    assert_eq!(stats.total_points, 2);
    match &service.system {
        Some(s) => {
            assert_eq!(s.chunks[0].content, "OCR from Code: fn main");
            assert_eq!(
                s.chunks[1].content,
                "App Activity: Code - Window: editor - Timestamp: 2025-01-30 14:30:00"
            );
        }
        None => panic!("corpus must exist"),
    }
}

#[test]
fn error_messages_are_distinct() {
    assert_eq!(RagError::NotInitialized.message(), "RAG system not initialized");
    assert_eq!(
        RagError::Source("record source unreachable".to_string()).message(),
        "record source unreachable"
    );
    assert_eq!(
        RagError::Provider("all model providers exhausted".to_string()).message(),
        "all model providers exhausted"
    );
}

#[test]
fn summary_chunks_render_the_three_summaries() {
    let mut r1 = empty_row();
    r1.app_name = Some("Code".to_string());
    r1.window_name = Some("main.rs".to_string());
    r1.ocr_text = Some("text".to_string());
    let mut r2 = empty_row();
    r2.app_name = Some("Chrome".to_string());
    r2.browser_url = Some("https://github.com/x".to_string());
    let mut r3 = empty_row();
    r3.app_name = Some("Chrome".to_string());
    r3.browser_url = Some("https://github.com/y".to_string());
    let mut r4 = empty_row();
    r4.app_name = Some("Zoom".to_string());
    r4.transcription = Some("a call".to_string());
    let rows = vec![r1, r2, r3, r4];
    let chunks = build_summary_chunks(&rows);
    assert_eq!(chunks.len(), 3);
    assert_eq!(
        chunks[0].content,
        "App Usage Summary (3 apps): Chrome (2 frames, 0 windows), Code (1 frames, 1 windows), Zoom (1 frames, 0 windows)"
    );
    assert_eq!(chunks[1].content, "Website Usage (1 domains): github.com (2 visits)");
    assert_eq!(chunks[2].content, "Audio Activity (1 apps with audio): Zoom (1 audio clips)");
    for c in &chunks {
        assert_eq!(c.metadata.source_type, "summary");
        assert_eq!(c.metadata.file_index, Some(0));
    }
}

#[test]
fn summary_chunks_skip_absent_sections() {
    let mut r1 = empty_row();
    r1.app_name = Some("Code".to_string());
    let rows = vec![r1];
    let chunks = build_summary_chunks(&rows);
    assert_eq!(chunks.len(), 1);
    assert_eq!(chunks[0].content, "App Usage Summary (1 apps): Code (1 frames, 0 windows)");
}

#[test]
fn time_usage_chunks_render_usage_and_total() {
    let rows = vec![
        AggRow {
            app_name: Some("Code".to_string()),
            frame_count: 40,
            first_seen: Some("2025-01-30 09:00:00".to_string()),
            last_seen: Some("2025-01-30 10:00:00".to_string()),
            span_centi_minutes: 6000,
            window_names: Some("main.rs".to_string()),
        },
        AggRow {
            app_name: Some("Chrome".to_string()),
            frame_count: 10,
            first_seen: Some("2025-01-30 08:30:00".to_string()),
            last_seen: None,
            span_centi_minutes: 1250,
            window_names: None,
        },
    ];
    let chunks = build_time_usage_chunks(&rows);
    assert_eq!(chunks.len(), 3);
    assert_eq!(
        chunks[0].content,
        "App: Code - Estimated Active Time: 15.0 minutes (0.2 hours) - Total Span: 60.0 minutes - Frames: 40 - Period: 2025-01-30 09:00:00 to 2025-01-30 10:00:00 - Windows: main.rs"
    );
    assert_eq!(
        chunks[1].content,
        "App: Chrome - Estimated Active Time: 3.1 minutes (0.0 hours) - Total Span: 12.5 minutes - Frames: 10 - Period: 2025-01-30 08:30:00 to Unknown - Windows: Unknown"
    );
    assert_eq!(
        chunks[2].content,
        "TOTAL SCREEN TIME SUMMARY - Total Active Time: 18.1 minutes (0.3 hours) - Total Span: 72.5 minutes - Total Frames: 50 - Period: 2025-01-30 08:30:00 to 2025-01-30 10:00:00 - Unique Apps Used: 2"
    );
    assert_eq!(chunks[0].metadata.source_type, "time_usage");
    assert_eq!(chunks[2].metadata.source_type, "total_screen_time");
}

#[test]
fn time_usage_chunks_of_empty_window_are_empty() {
    let rows: Vec<AggRow> = Vec::new();
    assert_eq!(build_time_usage_chunks(&rows).len(), 0);
}

#[test]
fn prepared_chunks_join_the_corpus() {
    let mut service = RagService::new();
    let mut r1 = empty_row();
    r1.app_name = Some("Code".to_string());
    let rows = vec![r1];
    let n = service.ingest_chunks(build_summary_chunks(&rows));
    assert_eq!(n, 1);
    assert_eq!(service.get_rag_stats().unwrap().total_points, 1);
}
