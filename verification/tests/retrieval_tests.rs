use activity_rag::chunker::{ChunkMetadata, DataChunk};
use activity_rag::retrieval::{retrieve, query_terms_exec, RAGQuery};

fn chunk(content: &str, app: Option<&str>, source: &str) -> DataChunk {
    DataChunk {
        id: format!("{:0>36}", content.len()),
        content: content.to_string(),
        metadata: ChunkMetadata {
            source_type: source.to_string(),
            app_name: app.map(|a| a.to_string()),
            timestamp: None,
            window_name: None,
            speaker_id: None,
            file_index: Some(0),
        },
    }
}

fn query(q: &str, top_k: usize) -> RAGQuery {
    RAGQuery {
        query: q.to_string(),
        top_k,
        similarity_threshold: 10,
    }
}

#[test]
fn meeting_chunk_is_found_and_unrelated_chunk_is_excluded() {
    let chunks = vec![
        chunk("Audio from Zoom (mic): meeting notes discussed budget", Some("Zoom"), "audio"),
        chunk("App Activity: Notepad", Some("Notepad"), "app_usage"),
    ];
    let (found, scores) = retrieve(&chunks, &query("meeting last week", 5));
    assert_eq!(found.len(), 1);
    assert_eq!(found[0].content, "Audio from Zoom (mic): meeting notes discussed budget");
    assert_eq!(scores.len(), 1);
    assert!(scores[0].hits > 0);
    assert_eq!(scores[0].out_of, 3);
}

#[test]
fn matching_is_case_insensitive() {
    let chunks = vec![chunk("Team MEETING Notes", Some("Zoom"), "audio")];
    let (found, _) = retrieve(&chunks, &query("Meeting", 5));
    assert_eq!(found.len(), 1);
}

#[test]
fn empty_corpus_returns_nothing() {
    let chunks: Vec<DataChunk> = Vec::new();
    let (found, scores) = retrieve(&chunks, &query("meeting", 5));
    assert_eq!(found.len(), 0);
    assert_eq!(scores.len(), 0);
}

#[test]
fn absent_terms_return_nothing() {
    let chunks = vec![chunk("completely unrelated text", None, "ocr")];
    let (found, _) = retrieve(&chunks, &query("spreadsheet", 5));
    assert_eq!(found.len(), 0);
}

#[test]
fn scores_are_sorted_and_bounded_by_top_k() {
    let chunks = vec![
        chunk("meeting", None, "audio"),
        chunk("meeting budget", None, "audio"),
        chunk("meeting budget report", None, "ocr"),
        chunk("budget report", None, "ocr"),
    ];
    let (found, scores) = retrieve(&chunks, &query("meeting budget report", 3));
    assert_eq!(found.len(), 3);
    assert_eq!(scores.len(), 3);
    for w in scores.windows(2) {
        assert!(w[0].hits >= w[1].hits);
    }
    for s in &scores {
        assert!(s.hits >= 1);
        assert!(s.hits <= s.out_of);
        assert_eq!(s.out_of, 3);
    }
    // The triple match ranks first.
    assert_eq!(found[0].content, "meeting budget report");
}

#[test]
fn ties_keep_corpus_order() {
    let chunks = vec![
        chunk("budget first", None, "ocr"),
        chunk("budget second", None, "ocr"),
    ];
    let (found, _) = retrieve(&chunks, &query("budget", 5));
    assert_eq!(found.len(), 2);
    assert_eq!(found[0].content, "budget first");
    assert_eq!(found[1].content, "budget second");
}

#[test]
fn retrieval_is_deterministic() {
    let chunks = vec![
        chunk("meeting about the budget", None, "audio"),
        chunk("coding session in the editor", None, "ocr"),
        chunk("another meeting note", None, "audio"),
    ];
    let q = query("meeting note budget", 5);
    let (f1, s1) = retrieve(&chunks, &q);
    let (f2, s2) = retrieve(&chunks, &q);
    assert_eq!(f1.len(), f2.len());
    for (a, b) in f1.iter().zip(f2.iter()) {
        assert_eq!(a.id, b.id);
        assert_eq!(a.content, b.content);
    }
    assert_eq!(s1, s2);
}

#[test]
fn floor_excludes_low_scores() {
    // Eleven terms, one matching: score 1/11 is below the 0.10 floor.
    let chunks = vec![chunk("alpha", None, "ocr")];
    let q = query("alpha beta gamma delta epsilon zeta eta theta iota kappa lambda", 5);
    let terms = query_terms_exec("alpha beta gamma delta epsilon zeta eta theta iota kappa lambda");
    assert_eq!(terms.len(), 11);
    let (found, _) = retrieve(&chunks, &q);
    assert_eq!(found.len(), 0);
    // With ten terms the same single match reaches the floor.
    let q10 = query("alpha beta gamma delta epsilon zeta eta theta iota kappa", 5);
    let (found10, scores10) = retrieve(&chunks, &q10);
    assert_eq!(found10.len(), 1);
    assert_eq!(scores10[0].hits, 1);
    assert_eq!(scores10[0].out_of, 10);
}

#[test]
fn stop_words_are_filtered() {
    let terms = query_terms_exec("the meeting of the year");
    // "the", "of" and "year" are stop words; "meeting" survives.
    assert_eq!(terms, vec!["meeting".to_string()]);
}

#[test]
fn all_stop_words_fall_back_to_default_terms() {
    let terms = query_terms_exec("the and of by");
    assert_eq!(
        terms,
        vec![
            "app".to_string(),
            "activity".to_string(),
            "time".to_string(),
            "work".to_string(),
            "communication".to_string(),
            "development".to_string(),
            "meeting".to_string(),
            "coding".to_string(),
        ]
    );
}
