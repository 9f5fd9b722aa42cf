//! The ingestion pipeline's decisions, as a state machine: from the phase a
//! job is in and the event that just happened — chunking finished, one
//! chunk embedded, indexing finished, any stage failed — to the next
//! phase, the action to perform and the task-record update to apply. The
//! unverified shell performs the actions (embedding and indexing are
//! network calls) and feeds the outcomes back; every rule about ordering,
//! progress and terminal states is enforced and proved here.

use vstd::arithmetic::div_mod::{lemma_div_is_ordered, lemma_div_multiples_vanish};
use vstd::prelude::*;
use vstd::string::*;
use crate::error::RagError;
use crate::models::TaskStatusType;
use crate::text::{spec_contains_char, spec_ends_with};

verus! {

/// Progress after `completed` of `total` chunks are embedded, in permille:
/// embedding carries 700 of the 1000 points, indexing the remaining 300.
pub open spec fn spec_embedding_progress(completed: int, total: int) -> int
    recommends
        1 <= total,
        0 <= completed <= total,
{
    (700 * completed) / total
}

/// Executable form of [`spec_embedding_progress`], bounded by 700.
pub fn embedding_progress(completed: usize, total: usize) -> (p: u32)
    requires
        1 <= total,
        completed <= total,
    ensures
        p == spec_embedding_progress(completed as int, total as int),
        p <= 700,
{
    let wide: u128 = (700u128 * (completed as u128)) / (total as u128);
    proof {
        lemma_div_is_ordered(
            700 * (completed as int),
            700 * (total as int),
            total as int,
        );
        lemma_div_multiples_vanish(700, total as int);
        assert(spec_embedding_progress(completed as int, total as int) >= 0) by {
            lemma_div_is_ordered(0, 700 * (completed as int), total as int);
        }
    }
    wide as u32
}

/// Embedding progress never decreases as more chunks complete.
pub proof fn lemma_embedding_progress_monotone(c1: int, c2: int, total: int)
    requires
        1 <= total,
        0 <= c1 <= c2 <= total,
    ensures
        spec_embedding_progress(c1, total) <= spec_embedding_progress(c2, total),
        spec_embedding_progress(total, total) == 700,
{
    lemma_div_is_ordered(700 * c1, 700 * c2, total);
    lemma_div_multiples_vanish(700, total);
}

/// Where an ingestion job stands.
#[derive(Debug, Clone, Copy, PartialEq, Eq, Structural)]
pub enum IngestPhase {
    /// The upload is being chunked.
    Chunking,
    /// `done` of `total` chunks are embedded; at least one remains.
    Embedding { done: usize, total: usize },
    /// All chunks are embedded and are being indexed in one call.
    Indexing { total: usize },
    /// The job ended; nothing further happens to it.
    Finished { succeeded: bool },
}

impl IngestPhase {
    /// Phase invariant: an embedding phase has chunks left to embed.
    pub open spec fn wf(self) -> bool {
        match self {
            IngestPhase::Embedding { done, total } => done < total,
            _ => true,
        }
    }

    /// The progress recorded by the time this phase is reached. A finished
    /// phase records nothing further, so its floor is the scale's top.
    pub open spec fn spec_progress_floor(self) -> int {
        match self {
            IngestPhase::Chunking => 0,
            IngestPhase::Embedding { done, total } => spec_embedding_progress(
                done as int,
                total as int,
            ),
            IngestPhase::Indexing { total } => 700,
            IngestPhase::Finished { succeeded } => 1000,
        }
    }
}

/// What happened to the job since the last decision.
#[derive(Debug, Clone)]
pub enum IngestEvent {
    /// Chunking produced `total` chunks.
    ChunkingDone { total: usize },
    ChunkingFailed { message: String },
    /// The chunk asked for was embedded.
    EmbeddingDone,
    EmbeddingFailed { message: String },
    /// The bulk indexing call went through.
    IndexingDone,
    IndexingFailed { message: String },
}

/// What the shell must do next.
#[derive(Debug, Clone, Copy, PartialEq, Eq, Structural)]
pub enum IngestAction {
    /// Embed the chunk at this position and report the outcome.
    EmbedChunk { index: usize },
    /// Index all embedded chunks in one call and report the outcome.
    IndexChunks,
    /// The job is over; perform nothing further for it.
    Stop,
}

/// Mathematical image of [`TaskUpdate`].
#[verifier::ext_equal]
pub ghost struct TaskUpdateView {
    pub status: TaskStatusType,
    pub progress: Option<int>,
    pub error: Option<Seq<char>>,
}

/// One write to the task store: the fields the store is asked to take.
#[derive(Debug, Clone)]
pub struct TaskUpdate {
    pub status: TaskStatusType,
    pub progress: Option<u32>,
    pub error: Option<String>,
}

impl View for TaskUpdate {
    type V = TaskUpdateView;

    open spec fn view(&self) -> TaskUpdateView {
        TaskUpdateView {
            status: self.status,
            progress: match self.progress {
                Option::Some(p) => Option::Some(p as int),
                Option::None => Option::None,
            },
            error: self.error.deep_view(),
        }
    }
}

/// Which events can reach a job in a given phase. No event reaches a
/// finished job: terminal phases accept no transition.
pub open spec fn spec_compat(phase: IngestPhase, event: IngestEvent) -> bool {
    match (phase, event) {
        (IngestPhase::Chunking, IngestEvent::ChunkingDone { .. }) => true,
        (IngestPhase::Chunking, IngestEvent::ChunkingFailed { .. }) => true,
        (IngestPhase::Embedding { .. }, IngestEvent::EmbeddingDone) => true,
        (IngestPhase::Embedding { .. }, IngestEvent::EmbeddingFailed { .. }) => true,
        (IngestPhase::Indexing { .. }, IngestEvent::IndexingDone) => true,
        (IngestPhase::Indexing { .. }, IngestEvent::IndexingFailed { .. }) => true,
        _ => false,
    }
}

/// The machine's transition: next phase, action, and task-record update.
pub open spec fn spec_ingest_step(phase: IngestPhase, event: IngestEvent) -> (
    IngestPhase,
    IngestAction,
    TaskUpdateView,
)
    recommends
        phase.wf(),
        spec_compat(phase, event),
{
    match (phase, event) {
        (IngestPhase::Chunking, IngestEvent::ChunkingDone { total }) => {
            if total == 0 {
                (
                    IngestPhase::Indexing { total: 0 },
                    IngestAction::IndexChunks,
                    TaskUpdateView {
                        status: TaskStatusType::Processing,
                        progress: Option::None,
                        error: Option::None,
                    },
                )
            } else {
                (
                    IngestPhase::Embedding { done: 0, total },
                    IngestAction::EmbedChunk { index: 0 },
                    TaskUpdateView {
                        status: TaskStatusType::Processing,
                        progress: Option::None,
                        error: Option::None,
                    },
                )
            }
        },
        (IngestPhase::Chunking, IngestEvent::ChunkingFailed { message }) => (
            IngestPhase::Finished { succeeded: false },
            IngestAction::Stop,
            TaskUpdateView {
                status: TaskStatusType::Failed,
                progress: Option::None,
                error: Option::Some(message@),
            },
        ),
        (IngestPhase::Embedding { done, total }, IngestEvent::EmbeddingDone) => {
            let newly_done = done + 1;
            let written = spec_embedding_progress(newly_done as int, total as int);
            if newly_done == total {
                (
                    IngestPhase::Indexing { total },
                    IngestAction::IndexChunks,
                    TaskUpdateView {
                        status: TaskStatusType::Processing,
                        progress: Option::Some(written),
                        error: Option::None,
                    },
                )
            } else {
                (
                    IngestPhase::Embedding { done: newly_done as usize, total },
                    IngestAction::EmbedChunk { index: newly_done as usize },
                    TaskUpdateView {
                        status: TaskStatusType::Processing,
                        progress: Option::Some(written),
                        error: Option::None,
                    },
                )
            }
        },
        (IngestPhase::Embedding { .. }, IngestEvent::EmbeddingFailed { message }) => (
            IngestPhase::Finished { succeeded: false },
            IngestAction::Stop,
            TaskUpdateView {
                status: TaskStatusType::Failed,
                progress: Option::None,
                error: Option::Some(message@),
            },
        ),
        (IngestPhase::Indexing { .. }, IngestEvent::IndexingDone) => (
            IngestPhase::Finished { succeeded: true },
            IngestAction::Stop,
            TaskUpdateView {
                status: TaskStatusType::Succeeded,
                progress: Option::Some(1000),
                error: Option::None,
            },
        ),
        (IngestPhase::Indexing { .. }, IngestEvent::IndexingFailed { message }) => (
            IngestPhase::Finished { succeeded: false },
            IngestAction::Stop,
            TaskUpdateView {
                status: TaskStatusType::Failed,
                progress: Option::None,
                error: Option::Some(message@),
            },
        ),
        _ => (phase, IngestAction::Stop, TaskUpdateView {
            status: TaskStatusType::Processing,
            progress: Option::None,
            error: Option::None,
        }),
    }
}

/// The first write a job's run makes: the task turns `Processing` before
/// chunking begins, with progress and error untouched.
pub fn start_update() -> (u: TaskUpdate)
    ensures
        u@.status == TaskStatusType::Processing,
        u@.progress is None,
        u@.error is None,
{
    TaskUpdate { status: TaskStatusType::Processing, progress: Option::None, error: Option::None }
}

/// Executable form of [`spec_ingest_step`], with the lifecycle guarantees:
/// the update is `Processing` exactly until the job finishes, an error
/// message is written exactly on failure — and then no progress value, so
/// the store keeps the last one reached — and any progress written lies on
/// the permille scale, at or above the phase's floor.
pub fn ingest_step(phase: IngestPhase, event: IngestEvent) -> (r: (
    IngestPhase,
    IngestAction,
    TaskUpdate,
))
    requires
        phase.wf(),
        !(phase is Finished),
        spec_compat(phase, event),
    ensures
        (r.0, r.1, r.2@) == spec_ingest_step(phase, event),
        r.0.wf(),
        (r.2@.status == TaskStatusType::Processing) <==> !(r.0 is Finished),
        r.2@.status.spec_is_terminal() <==> r.0 is Finished,
        (r.2@.error is Some) <==> (r.2@.status == TaskStatusType::Failed),
        r.2@.progress matches Option::Some(p) ==> 0 <= p <= 1000
            && phase.spec_progress_floor() <= p && p == r.0.spec_progress_floor(),
        r.0.spec_progress_floor() >= phase.spec_progress_floor(),
        r.2@.status == TaskStatusType::Failed ==> r.2@.progress is None,
{
    proof {
        lemma_ingest_progress_monotone(phase, event);
    }
    match (phase, event) {
        (IngestPhase::Chunking, IngestEvent::ChunkingDone { total }) => {
            let update = TaskUpdate {
                status: TaskStatusType::Processing,
                progress: Option::None,
                error: Option::None,
            };
            if total == 0 {
                (IngestPhase::Indexing { total: 0 }, IngestAction::IndexChunks, update)
            } else {
                (
                    IngestPhase::Embedding { done: 0, total },
                    IngestAction::EmbedChunk { index: 0 },
                    update,
                )
            }
        },
        (IngestPhase::Chunking, IngestEvent::ChunkingFailed { message }) => (
            IngestPhase::Finished { succeeded: false },
            IngestAction::Stop,
            TaskUpdate {
                status: TaskStatusType::Failed,
                progress: Option::None,
                error: Option::Some(message),
            },
        ),
        (IngestPhase::Embedding { done, total }, IngestEvent::EmbeddingDone) => {
            let newly_done = done + 1;
            let written = embedding_progress(newly_done, total);
            let update = TaskUpdate {
                status: TaskStatusType::Processing,
                progress: Option::Some(written),
                error: Option::None,
            };
            if newly_done == total {
                (IngestPhase::Indexing { total }, IngestAction::IndexChunks, update)
            } else {
                (
                    IngestPhase::Embedding { done: newly_done, total },
                    IngestAction::EmbedChunk { index: newly_done },
                    update,
                )
            }
        },
        (IngestPhase::Embedding { .. }, IngestEvent::EmbeddingFailed { message }) => (
            IngestPhase::Finished { succeeded: false },
            IngestAction::Stop,
            TaskUpdate {
                status: TaskStatusType::Failed,
                progress: Option::None,
                error: Option::Some(message),
            },
        ),
        (IngestPhase::Indexing { total: _ }, IngestEvent::IndexingDone) => (
            IngestPhase::Finished { succeeded: true },
            IngestAction::Stop,
            TaskUpdate {
                status: TaskStatusType::Succeeded,
                progress: Option::Some(1000),
                error: Option::None,
            },
        ),
        (IngestPhase::Indexing { total: _ }, IngestEvent::IndexingFailed { message }) => (
            IngestPhase::Finished { succeeded: false },
            IngestAction::Stop,
            TaskUpdate {
                status: TaskStatusType::Failed,
                progress: Option::None,
                error: Option::Some(message),
            },
        ),
        (_, _) => {
            proof {
                assert(false);
            }
            (phase, IngestAction::Stop, start_update())
        },
    }
}

/// A task's status only moves forward along `Pending`, `Processing`,
/// terminal: every update the machine emits before the job finishes is
/// `Processing`, the one that finishes it is terminal, and no event at all
/// is accepted in a finished phase — together with the store's refusal to
/// touch a terminal record, a terminal state is never left.
pub proof fn lemma_ingest_terminal(phase: IngestPhase, event: IngestEvent)
    requires
        phase.wf(),
        spec_compat(phase, event),
    ensures
        !(phase is Finished),
        ({
            let step = spec_ingest_step(phase, event);
            &&& (step.2.status == TaskStatusType::Processing) <==> !(step.0 is Finished)
            &&& step.2.status.spec_is_terminal() <==> step.0 is Finished
            &&& step.0 is Finished ==> forall|e: IngestEvent| !spec_compat(step.0, e)
        }),
{
}

/// Progress is non-decreasing while a task is processing: any progress
/// value an accepted event writes lies at or above the floor already
/// reached, and the floor itself never goes down, so the written values
/// form a non-decreasing sequence over any run of the machine.
pub proof fn lemma_ingest_progress_monotone(phase: IngestPhase, event: IngestEvent)
    requires
        phase.wf(),
        !(phase is Finished),
        spec_compat(phase, event),
    ensures
        ({
            let step = spec_ingest_step(phase, event);
            &&& (step.2.progress matches Option::Some(p) ==> 0 <= p <= 1000
                && phase.spec_progress_floor() <= p && p == step.0.spec_progress_floor())
            &&& step.0.spec_progress_floor() >= phase.spec_progress_floor()
            &&& step.2.status == TaskStatusType::Failed ==> step.2.progress is None
        }),
{
    match (phase, event) {
        (IngestPhase::Embedding { done, total }, IngestEvent::EmbeddingDone) => {
            lemma_embedding_progress_bounds(done as int, total as int);
            lemma_embedding_progress_bounds(done + 1, total as int);
            lemma_embedding_progress_monotone(done as int, done + 1, total as int);
            lemma_embedding_progress_monotone(done + 1, total as int, total as int);
        },
        (IngestPhase::Embedding { done, total }, IngestEvent::EmbeddingFailed { .. }) => {
            lemma_embedding_progress_bounds(done as int, total as int);
        },
        (IngestPhase::Chunking, IngestEvent::ChunkingDone { total }) => {
            if total > 0 {
                lemma_embedding_progress_bounds(0, total as int);
            }
        },
        _ => {},
    }
}

/// Embedding progress stays on the scale's embedding share.
pub proof fn lemma_embedding_progress_bounds(done: int, total: int)
    requires
        1 <= total,
        0 <= done <= total,
    ensures
        0 <= spec_embedding_progress(done, total) <= 700,
{
    lemma_div_is_ordered(0, 700 * done, total);
    lemma_div_multiples_vanish(0, total);
    lemma_div_is_ordered(700 * done, 700 * total, total);
    lemma_div_multiples_vanish(700, total);
}

/// The task-record updates a run of the machine emits, starting in
/// `phase`: one per event, as long as each event is one its phase accepts;
/// a finished job, or an event for the wrong stage, ends the run.
pub open spec fn spec_run_updates(phase: IngestPhase, events: Seq<IngestEvent>) -> Seq<
    TaskUpdateView,
>
    decreases events.len(),
{
    if events.len() == 0 || phase is Finished || !spec_compat(phase, events[0]) {
        Seq::empty()
    } else {
        let step = spec_ingest_step(phase, events[0]);
        seq![step.2] + spec_run_updates(step.0, events.drop_first())
    }
}

/// Over any run of the machine from a well-formed phase: every update but
/// the last is `Processing` and only the last can be terminal — the status
/// sequence follows `Pending`, `Processing`, terminal, and nothing follows
/// a terminal state — and every progress value written lies between the
/// starting phase's floor and the scale's top, in non-decreasing order.
pub proof fn lemma_run_lifecycle(phase: IngestPhase, events: Seq<IngestEvent>)
    requires
        phase.wf(),
    ensures
        ({
            let us = spec_run_updates(phase, events);
            &&& forall|k: int|
                0 <= k < us.len() ==> ((#[trigger] us[k]).progress matches Option::Some(p)
                    ==> phase.spec_progress_floor() <= p <= 1000)
            &&& forall|i: int, j: int|
                0 <= i < j < us.len() ==> ((#[trigger] us[i]).progress is Some && (
                #[trigger] us[j]).progress is Some ==> us[i].progress->0 <= us[j].progress->0)
            &&& forall|k: int|
                0 <= k < us.len() - 1 ==> (#[trigger] us[k]).status == TaskStatusType::Processing
            &&& forall|k: int|
                0 <= k < us.len() ==> ((#[trigger] us[k]).status.spec_is_terminal() ==> k
                    == us.len() - 1)
        }),
    decreases events.len(),
{
    let us = spec_run_updates(phase, events);
    if events.len() == 0 || phase is Finished || !spec_compat(phase, events[0]) {
    } else {
        let step = spec_ingest_step(phase, events[0]);
        lemma_ingest_progress_monotone(phase, events[0]);
        lemma_ingest_terminal(phase, events[0]);
        lemma_run_lifecycle(step.0, events.drop_first());
        let rest = spec_run_updates(step.0, events.drop_first());
        assert(us == seq![step.2] + rest);
        assert(us[0] == step.2);
        assert(forall|k: int| 0 <= k < rest.len() ==> rest[k] == #[trigger] us[k + 1]);
        if step.0 is Finished {
            assert(rest =~= Seq::<TaskUpdateView>::empty());
        }
        assert forall|k: int|
            0 <= k < us.len() implies ((#[trigger] us[k]).progress matches Option::Some(p)
            ==> phase.spec_progress_floor() <= p <= 1000) by {
            if k > 0 {
                assert(us[k] == rest[k - 1]);
            }
        }
        assert forall|i: int, j: int|
            0 <= i < j < us.len() implies ((#[trigger] us[i]).progress is Some && (
        #[trigger] us[j]).progress is Some ==> us[i].progress->0 <= us[j].progress->0) by {
            if i > 0 {
                assert(us[i] == rest[i - 1]);
                assert(us[j] == rest[j - 1]);
            } else {
                assert(us[j] == rest[j - 1]);
                if us[0].progress is Some && us[j].progress is Some {
                    assert(us[0].progress->0 == step.0.spec_progress_floor());
                    assert(step.0.spec_progress_floor() <= us[j].progress->0);
                }
            }
        }
        assert forall|k: int|
            0 <= k < us.len() - 1 implies (#[trigger] us[k]).status == TaskStatusType::Processing
            by {
            if k > 0 {
                assert(us[k] == rest[k - 1]);
            } else {
                assert(!(step.0 is Finished));
            }
        }
        assert forall|k: int|
            0 <= k < us.len() implies ((#[trigger] us[k]).status.spec_is_terminal() ==> k
            == us.len() - 1) by {
            if k > 0 {
                assert(us[k] == rest[k - 1]);
            } else {
                if us[0].status.spec_is_terminal() {
                    assert(step.0 is Finished);
                }
            }
        }
    }
}

/// A batch embedding reply must carry one vector per text sent; a count
/// mismatch is a hard error naming both counts.
pub fn check_embedding_batch(expected: usize, actual: usize) -> (r: Result<(), RagError>)
    ensures
        r is Ok <==> expected == actual,
        r matches Result::Err(e) ==> (e matches RagError::EmbeddingFailed(m) && m@ == (
        "Expected "@ + crate::text::spec_decimal(expected as int) + " embeddings, got "@
            + crate::text::spec_decimal(actual as int))),
{
    if expected == actual {
        return Result::Ok(());
    }
    proof {
        reveal_strlit("Expected ");
        reveal_strlit(" embeddings, got ");
    }
    let mut message = String::from_str("Expected ");
    message.append(crate::text::usize_to_string(expected).as_str());
    message.append(" embeddings, got ");
    message.append(crate::text::usize_to_string(actual).as_str());
    proof {
        assert(message@ =~= "Expected "@ + crate::text::spec_decimal(expected as int)
            + " embeddings, got "@ + crate::text::spec_decimal(actual as int));
    }
    Result::Err(RagError::EmbeddingFailed(message))
}

/// The kind of processing an upload receives.
#[derive(Debug, Clone, Copy, PartialEq, Eq, Structural)]
pub enum UploadKind {
    /// Parsed as a markdown document, chunks tagged with heading hierarchy.
    Markdown,
    /// Chunked as plain text under a synthetic document.
    PlainText,
}

/// An upload may be accepted exactly when its content is non-empty; an
/// empty body is rejected before any task is created.
pub fn upload_is_valid(content: &str) -> (b: bool)
    ensures
        b <==> content@.len() > 0,
{
    !content.is_empty()
}

/// An upload is treated as markdown when its title ends in `.md` or its
/// content carries a heading marker; otherwise it is plain text.
pub fn classify_upload(title: &str, content: &str) -> (k: UploadKind)
    ensures
        (k == UploadKind::Markdown) <==> (spec_ends_with(title@, ".md"@) || spec_contains_char(
            content@,
            '#',
        )),
{
    proof {
        reveal_strlit(".md");
    }
    if crate::text::ends_with_str(title, ".md") || crate::text::contains_char(content, '#') {
        UploadKind::Markdown
    } else {
        UploadKind::PlainText
    }
}

} // verus!
