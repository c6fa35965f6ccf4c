use activity_rag::chunker::{ChunkMetadata, DataChunk};
use activity_rag::synthesis::{
    build_context, build_rag_prompt, extract_openai_text, fallback_step, resolve_fallback_chain,
    ModelSelection, OpenAIChoice, OpenAIMessage, OpenAIResponse,
};

fn chunk(content: &str, app: Option<&str>, source: &str) -> DataChunk {
    DataChunk {
        id: "00000000-0000-4000-8000-000000000000".to_string(),
        content: content.to_string(),
        metadata: ChunkMetadata {
            source_type: source.to_string(),
            app_name: app.map(|a| a.to_string()),
            timestamp: None,
            window_name: None,
            speaker_id: None,
            file_index: Some(0),
        },
    }
}

#[test]
fn context_lines_show_source_app_and_content() {
    let chunks = vec![
        chunk("meeting notes", Some("Zoom"), "audio"),
        chunk("fn main", None, "ocr"),
    ];
    let context = build_context(&chunks);
    assert_eq!(context, "[audio] Zoom: meeting notes\n\n[ocr] Unknown: fn main");
}

#[test]
fn empty_context_is_empty() {
    let chunks: Vec<DataChunk> = Vec::new();
    assert_eq!(build_context(&chunks), "");
}

#[test]
fn prompt_embeds_context_and_question() {
    let chunks = vec![chunk("meeting notes", Some("Zoom"), "audio")];
    let prompt = build_rag_prompt("what happened", &chunks);
    assert!(prompt.starts_with("You are a helpful AI assistant analyzing digital activity data."));
    assert!(prompt.contains("CONTEXT DATA:\n[audio] Zoom: meeting notes"));
    assert!(prompt.contains("USER QUESTION: what happened"));
    assert!(prompt.ends_with("Answer:"));
}

#[test]
fn chain_returns_first_success() {
    let outcomes = vec![Ok("first answer".to_string()), Err("unused".to_string())];
    assert_eq!(resolve_fallback_chain(outcomes), Ok("first answer".to_string()));
}

#[test]
fn chain_falls_through_to_second_provider() {
    let outcomes = vec![
        Err("remote provider down".to_string()),
        Ok("local answer".to_string()),
    ];
    assert_eq!(resolve_fallback_chain(outcomes), Ok("local answer".to_string()));
}

#[test]
fn chain_surfaces_final_failure_when_all_fail() {
    let outcomes = vec![
        Err("remote provider down".to_string()),
        Err("local model server unreachable".to_string()),
    ];
    assert_eq!(
        resolve_fallback_chain(outcomes),
        Err("local model server unreachable".to_string())
    );
}

#[test]
fn fallback_step_keeps_success_and_passes_failure_on() {
    assert_eq!(
        fallback_step(Ok("kept".to_string()), Err("ignored".to_string())),
        Ok("kept".to_string())
    );
    assert_eq!(
        fallback_step(Err("gone".to_string()), Ok("next".to_string())),
        Ok("next".to_string())
    );
}

#[test]
fn openai_reply_extraction() {
    let empty = OpenAIResponse { choices: vec![] };
    assert_eq!(extract_openai_text(&empty), Err("No response from OpenAI".to_string()));
    let reply = OpenAIResponse {
        choices: vec![OpenAIChoice {
            message: OpenAIMessage {
                role: "assistant".to_string(),
                content: "the answer".to_string(),
            },
        }],
    };
    assert_eq!(extract_openai_text(&reply), Ok("the answer".to_string()));
}

#[test]
fn model_selection_lifecycle() {
    let mut selection = ModelSelection::new();
    assert_eq!(selection.get_selected_model(), None);
    selection.set_selected_model("gemma3n:latest");
    assert_eq!(selection.get_selected_model(), Some("gemma3n:latest".to_string()));
    selection.clear_selected_model();
    assert_eq!(selection.get_selected_model(), None);
}
