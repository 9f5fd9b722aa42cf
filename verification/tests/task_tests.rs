use rag_core::ids::{generate_chunk_id, generate_document_id, generate_task_id};
use rag_core::ingest::{
    embedding_progress, ingest_step, start_update, IngestAction, IngestEvent, IngestPhase,
};
use rag_core::models::TaskStatusType;
use rag_core::task_store::{create_task_store, TaskStore};

fn drive(store: &mut TaskStore, id: &str, update: rag_core::ingest::TaskUpdate) {
    store.update_task_status(id, update.status, update.progress, update.error);
}

#[test]
fn created_task_is_pending_with_zero_progress() {
    let mut store = create_task_store();
    store.create_task(String::from("t-1"));
    let task = store.get_task_status("t-1").unwrap();
    assert_eq!(task.id, "t-1");
    assert_eq!(task.status, TaskStatusType::Pending);
    assert_eq!(task.progress_permille, Some(0));
    assert_eq!(task.error, None);
    assert!(!task.created_at.is_empty());
    // A fresh record carries one creation moment in both timestamps.
    assert_eq!(task.created_at, task.updated_at);
    assert!(store.get_task_status("t-2").is_none());
}

#[test]
fn embedding_progress_matches_the_rule() {
    // Four chunks: after the second embedding, 2/4 of the 70% share.
    assert_eq!(embedding_progress(2, 4), 350);
    assert_eq!(embedding_progress(0, 4), 0);
    assert_eq!(embedding_progress(1, 4), 175);
    assert_eq!(embedding_progress(3, 4), 525);
    assert_eq!(embedding_progress(4, 4), 700);
    assert_eq!(embedding_progress(1, 3), 233);
}

#[test]
fn four_chunk_job_reports_progress_after_each_embedding() {
    let mut store = create_task_store();
    store.create_task(String::from("job"));
    drive(&mut store, "job", start_update());

    let mut phase = IngestPhase::Chunking;
    let (p, action, update) = ingest_step(phase, IngestEvent::ChunkingDone { total: 4 });
    assert_eq!(action, IngestAction::EmbedChunk { index: 0 });
    drive(&mut store, "job", update);
    phase = p;

    let mut observed = Vec::new();
    for _ in 0..2 {
        let (p2, _a, update) = ingest_step(phase, IngestEvent::EmbeddingDone);
        observed.push(update.progress);
        drive(&mut store, "job", update);
        phase = p2;
    }
    assert_eq!(observed, vec![Some(175), Some(350)]);
    let task = store.get_task_status("job").unwrap();
    assert_eq!(task.status, TaskStatusType::Processing);
    assert_eq!(task.progress_permille, Some(350));
}

#[test]
fn successful_run_ends_succeeded_at_full_progress() {
    let mut store = create_task_store();
    store.create_task(String::from("ok"));
    drive(&mut store, "ok", start_update());

    let mut phase = IngestPhase::Chunking;
    let (p, _a, u) = ingest_step(phase, IngestEvent::ChunkingDone { total: 2 });
    drive(&mut store, "ok", u);
    phase = p;
    for _ in 0..2 {
        let (p2, _a, u) = ingest_step(phase, IngestEvent::EmbeddingDone);
        drive(&mut store, "ok", u);
        phase = p2;
    }
    assert_eq!(phase, IngestPhase::Indexing { total: 2 });
    let (p3, action, u) = ingest_step(phase, IngestEvent::IndexingDone);
    assert_eq!(action, IngestAction::Stop);
    assert_eq!(p3, IngestPhase::Finished { succeeded: true });
    drive(&mut store, "ok", u);

    let task = store.get_task_status("ok").unwrap();
    assert_eq!(task.status, TaskStatusType::Succeeded);
    assert_eq!(task.progress_permille, Some(1000));
    assert_eq!(task.error, None);
}

#[test]
fn indexing_failure_freezes_progress_and_records_the_error() {
    let mut store = create_task_store();
    store.create_task(String::from("bad"));
    drive(&mut store, "bad", start_update());

    let mut phase = IngestPhase::Chunking;
    let (p, _a, u) = ingest_step(phase, IngestEvent::ChunkingDone { total: 4 });
    drive(&mut store, "bad", u);
    phase = p;
    for _ in 0..4 {
        let (p2, _a, u) = ingest_step(phase, IngestEvent::EmbeddingDone);
        drive(&mut store, "bad", u);
        phase = p2;
    }
    // All four chunks embedded: progress stands at the embedding share.
    assert_eq!(
        store.get_task_status("bad").unwrap().progress_permille,
        Some(embedding_progress(4, 4))
    );

    let (p3, _a, u) = ingest_step(
        phase,
        IngestEvent::IndexingFailed { message: String::from("search engine unreachable") },
    );
    assert_eq!(p3, IngestPhase::Finished { succeeded: false });
    drive(&mut store, "bad", u);

    let task = store.get_task_status("bad").unwrap();
    assert_eq!(task.status, TaskStatusType::Failed);
    assert_eq!(task.error.as_deref(), Some("search engine unreachable"));
    assert!(!task.error.unwrap().is_empty());
    // Progress stayed where the last successful embedding left it.
    assert_eq!(task.progress_permille, Some(700));
}

#[test]
fn terminal_records_accept_no_further_writes() {
    let mut store = create_task_store();
    store.create_task(String::from("done"));
    store.update_task_status("done", TaskStatusType::Processing, None, None);
    store.update_task_status("done", TaskStatusType::Succeeded, Some(1000), None);

    store.update_task_status(
        "done",
        TaskStatusType::Failed,
        None,
        Some(String::from("late failure")),
    );
    store.update_task_status("done", TaskStatusType::Processing, Some(10), None);

    let task = store.get_task_status("done").unwrap();
    assert_eq!(task.status, TaskStatusType::Succeeded);
    assert_eq!(task.progress_permille, Some(1000));
    assert_eq!(task.error, None);
}

#[test]
fn chunking_failure_fails_the_task_immediately() {
    let mut store = create_task_store();
    store.create_task(String::from("cf"));
    drive(&mut store, "cf", start_update());
    let (p, action, u) = ingest_step(
        IngestPhase::Chunking,
        IngestEvent::ChunkingFailed { message: String::from("no chunks") },
    );
    assert_eq!(action, IngestAction::Stop);
    assert_eq!(p, IngestPhase::Finished { succeeded: false });
    drive(&mut store, "cf", u);
    let task = store.get_task_status("cf").unwrap();
    assert_eq!(task.status, TaskStatusType::Failed);
    assert_eq!(task.error.as_deref(), Some("no chunks"));
    // The failing write carried no number, so creation's zero survived.
    assert_eq!(task.progress_permille, Some(0));
}

#[test]
fn zero_chunk_job_goes_straight_to_indexing() {
    let (p, action, u) = ingest_step(
        IngestPhase::Chunking,
        IngestEvent::ChunkingDone { total: 0 },
    );
    assert_eq!(p, IngestPhase::Indexing { total: 0 });
    assert_eq!(action, IngestAction::IndexChunks);
    assert_eq!(u.status, TaskStatusType::Processing);
    assert_eq!(u.progress, None);
}

#[test]
fn updates_to_unknown_tasks_change_nothing() {
    let mut store = create_task_store();
    store.create_task(String::from("known"));
    store.update_task_status("unknown", TaskStatusType::Processing, Some(10), None);
    assert!(store.get_task_status("unknown").is_none());
    let known = store.get_task_status("known").unwrap();
    assert_eq!(known.status, TaskStatusType::Pending);
}

#[test]
fn generated_identifiers_are_hyphenated_uuids() {
    let a = generate_task_id();
    let b = generate_task_id();
    assert_eq!(a.len(), 36);
    assert_ne!(a, b);
    assert_eq!(generate_document_id().len(), 36);
    assert_eq!(generate_chunk_id().len(), 36);
}

#[test]
fn recreating_a_task_resets_its_record() {
    let mut store = create_task_store();
    store.create_task(String::from("again"));
    store.update_task_status("again", TaskStatusType::Processing, Some(500), None);
    store.create_task(String::from("again"));
    let task = store.get_task_status("again").unwrap();
    assert_eq!(task.status, TaskStatusType::Pending);
    assert_eq!(task.progress_permille, Some(0));
    assert_eq!(task.error, None);
}
