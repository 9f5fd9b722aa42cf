use rag_core::error::RagError;
use rag_core::generation::{
    build_system_prompt, build_user_prompt, completion_from_choice, forward_collect,
    forward_step, token_from_item, ChatEvent, ForwardPhase, StreamItem, TokenResult,
};
use rag_core::ingest::{check_embedding_batch, classify_upload, upload_is_valid, UploadKind};

#[test]
fn system_prompt_states_the_citation_rule() {
    let prompt = build_system_prompt();
    assert!(prompt.contains("Use only the information provided in the context"));
    assert!(prompt.contains("[Source 1], [Source 2]"));
    assert!(prompt.contains("concise"));
}

#[test]
fn user_prompt_wraps_context_and_question() {
    let prompt = build_user_prompt("some context", "what is this?");
    assert_eq!(prompt, "Context:\nsome context\n\nUser Question: what is this?");
}

#[test]
fn stream_items_become_tokens_or_errors() {
    let ok = token_from_item(&StreamItem::Piece { content: Some(String::from("hi")) });
    assert_eq!(ok.unwrap(), "hi");
    let empty = token_from_item(&StreamItem::Piece { content: None });
    assert_eq!(empty.unwrap(), "");
    let err = token_from_item(&StreamItem::Failure { message: String::from("boom") });
    match err {
        Err(RagError::LlmFailed(m)) => assert_eq!(m, "boom"),
        other => panic!("expected an LLM failure, got {:?}", other),
    }
}

#[test]
fn completion_requires_a_choice_with_content() {
    assert_eq!(
        completion_from_choice(Some(Some(String::from("answer")))).unwrap(),
        "answer"
    );
    match completion_from_choice(Some(None)) {
        Err(RagError::LlmFailed(m)) => assert_eq!(m, "No content in response"),
        other => panic!("unexpected {:?}", other),
    }
    match completion_from_choice(None) {
        Err(RagError::LlmFailed(m)) => assert_eq!(m, "No choices in response"),
        other => panic!("unexpected {:?}", other),
    }
}

#[test]
fn clean_stream_ends_with_the_terminal_marker() {
    let events = forward_collect(&vec![
        TokenResult::Token(String::from("Hel")),
        TokenResult::Token(String::from("lo")),
    ]);
    assert_eq!(events.len(), 3);
    assert!(matches!(&events[0], ChatEvent::Token(t) if t == "Hel"));
    assert!(matches!(&events[1], ChatEvent::Token(t) if t == "lo"));
    assert!(matches!(&events[2], ChatEvent::Done));
}

#[test]
fn mid_stream_failure_truncates_with_one_in_band_error() {
    let events = forward_collect(&vec![
        TokenResult::Token(String::from("partial")),
        TokenResult::Failed { message: String::from("upstream died") },
        TokenResult::Token(String::from("never seen")),
    ]);
    assert_eq!(events.len(), 2);
    assert!(matches!(&events[0], ChatEvent::Token(t) if t == "partial"));
    assert!(matches!(&events[1], ChatEvent::ErrorNotice(m) if m == "Error: upstream died"));
}

#[test]
fn empty_stream_is_just_the_terminal_marker() {
    let events = forward_collect(&Vec::new());
    assert_eq!(events.len(), 1);
    assert!(matches!(&events[0], ChatEvent::Done));
}

#[test]
fn closed_forwarder_emits_nothing() {
    let (phase, event) = forward_step(
        ForwardPhase::Closed,
        Some(TokenResult::Token(String::from("late"))),
    );
    assert_eq!(phase, ForwardPhase::Closed);
    assert!(event.is_none());
}

#[test]
fn empty_upload_is_rejected_before_any_task_exists() {
    assert!(!upload_is_valid(""));
    assert!(upload_is_valid("content"));
    let mut store = rag_core::task_store::create_task_store();
    let body = "";
    if upload_is_valid(body) {
        store.create_task(rag_core::ids::generate_task_id());
    }
    // The rejected upload created nothing: no record exists under any id
    // this request could have used.
    assert!(store.get_task_status("any").is_none());
}

#[test]
fn uploads_are_classified_by_name_and_markers() {
    assert_eq!(classify_upload("notes.md", "plain words"), UploadKind::Markdown);
    assert_eq!(classify_upload("notes.txt", "# heading inside"), UploadKind::Markdown);
    assert_eq!(classify_upload("notes.txt", "plain words"), UploadKind::PlainText);
}

#[test]
fn batch_counts_must_match() {
    assert!(check_embedding_batch(3, 3).is_ok());
    match check_embedding_batch(3, 2) {
        Err(RagError::EmbeddingFailed(m)) => {
            assert_eq!(m, "Expected 3 embeddings, got 2");
        },
        other => panic!("unexpected {:?}", other),
    }
}
