use activity_rag::chunker::{chunk_text, MetaFields, CHUNK_SIZE};

fn no_meta() -> MetaFields {
    MetaFields {
        app_name: None,
        timestamp: None,
        window_name: None,
        speaker_id: None,
    }
}

#[test]
fn empty_text_yields_no_chunks() {
    let chunks = chunk_text("", "ocr", 0, &no_meta());
    assert_eq!(chunks.len(), 0);
}

#[test]
fn whitespace_only_text_yields_no_chunks() {
    let chunks = chunk_text("   \t\n  ", "ocr", 0, &no_meta());
    assert_eq!(chunks.len(), 0);
}

#[test]
fn short_text_is_one_chunk() {
    let chunks = chunk_text("hello world", "ocr", 3, &no_meta());
    assert_eq!(chunks.len(), 1);
    assert_eq!(chunks[0].content, "hello world");
    assert_eq!(chunks[0].metadata.source_type, "ocr");
    assert_eq!(chunks[0].metadata.file_index, Some(3));
    assert_eq!(chunks[0].id.len(), 36);
}

#[test]
fn whitespace_is_normalized_to_single_spaces() {
    let chunks = chunk_text("  a\t\tb \n c  ", "audio", 0, &no_meta());
    assert_eq!(chunks.len(), 1);
    assert_eq!(chunks[0].content, "a b c");
}

#[test]
fn metadata_fields_are_copied() {
    let meta = MetaFields {
        app_name: Some("Zoom".to_string()),
        timestamp: Some("2025-01-30 14:30:00".to_string()),
        window_name: Some("Call".to_string()),
        speaker_id: Some("mic".to_string()),
    };
    let chunks = chunk_text("a call happened", "audio", 7, &meta);
    assert_eq!(chunks.len(), 1);
    let m = &chunks[0].metadata;
    assert_eq!(m.app_name.as_deref(), Some("Zoom"));
    assert_eq!(m.timestamp.as_deref(), Some("2025-01-30 14:30:00"));
    assert_eq!(m.window_name.as_deref(), Some("Call"));
    assert_eq!(m.speaker_id.as_deref(), Some("mic"));
    assert_eq!(m.file_index, Some(7));
}

#[test]
fn long_text_splits_and_keeps_word_order() {
    // 300 words of five letters: 1800 characters once joined.
    let word = "abcde";
    let words: Vec<&str> = std::iter::repeat(word).take(300).collect();
    let text = words.join(" ");
    let chunks = chunk_text(&text, "ocr", 0, &no_meta());
    assert!(chunks.len() > 1);
    let mut rebuilt: Vec<String> = Vec::new();
    for c in &chunks {
        assert!(c.content.chars().count() <= CHUNK_SIZE);
        for w in c.content.split_whitespace() {
            rebuilt.push(w.to_string());
        }
    }
    let original: Vec<String> = text.split_whitespace().map(|w| w.to_string()).collect();
    assert_eq!(rebuilt, original);
}

#[test]
fn greedy_packing_boundaries() {
    // 166 five-letter words join to 995 characters; the 167th would make
    // 1001, so it starts the second chunk.
    let words: Vec<&str> = std::iter::repeat("abcde").take(300).collect();
    let text = words.join(" ");
    let chunks = chunk_text(&text, "ocr", 0, &no_meta());
    assert_eq!(chunks.len(), 2);
    assert_eq!(chunks[0].content.chars().count(), 995);
    assert_eq!(chunks[1].content.chars().count(), 803);
}

#[test]
fn oversized_single_word_is_kept_whole() {
    let long_word: String = std::iter::repeat('x').take(1500).collect();
    let text = format!("start {} end", long_word);
    let chunks = chunk_text(&text, "ocr", 0, &no_meta());
    let mut rebuilt: Vec<String> = Vec::new();
    for c in &chunks {
        assert!(c.content.chars().count() <= CHUNK_SIZE || c.content.split_whitespace().count() == 1);
        for w in c.content.split_whitespace() {
            rebuilt.push(w.to_string());
        }
    }
    assert!(rebuilt.contains(&long_word));
    assert_eq!(rebuilt.len(), 3);
}

#[test]
fn exact_chunk_size_word_fits_one_chunk() {
    let word: String = std::iter::repeat('y').take(1000).collect();
    let chunks = chunk_text(&word, "ocr", 0, &no_meta());
    assert_eq!(chunks.len(), 1);
    assert_eq!(chunks[0].content.chars().count(), 1000);
}

#[test]
fn chunk_ids_are_distinct() {
    let chunks = chunk_text("one two", "ocr", 0, &no_meta());
    let more = chunk_text("three four", "ocr", 0, &no_meta());
    assert_eq!(chunks.len(), 1);
    assert_eq!(more.len(), 1);
    assert_ne!(chunks[0].id, more[0].id);
}
