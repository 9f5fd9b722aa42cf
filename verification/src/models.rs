//! Data model: documents, chunks, search results, task lifecycle records and
//! the request/response shapes of the service's surface.
//!
//! Each record type carries a ghost view — a mathematical image of its
//! fields — and every contract in the crate is stated over those views.
//! Progress and relevance are carried as integers so that every rule about
//! them can be stated exactly: task progress in permille (1000 = done) and
//! relevance scores in thousandths.

use vstd::prelude::*;

verus! {

/// Clone of an optional string, precise enough to reason about.
pub fn clone_opt_string(o: &Option<String>) -> (r: Option<String>)
    ensures
        r.deep_view() == o.deep_view(),
{
    match o {
        Option::None => Option::None,
        Option::Some(s) => Option::Some(s.clone()),
    }
}

/// Clone of a string vector, precise enough to reason about.
pub fn clone_string_vec(v: &Vec<String>) -> (r: Vec<String>)
    ensures
        r.deep_view() == v.deep_view(),
{
    let r = v.clone();
    proof {
        assert(forall|i: int| 0 <= i < v@.len() ==> r@[i]@ == #[trigger] v@[i]@);
        assert(r.deep_view() =~= v.deep_view());
    }
    r
}

/// Mathematical image of [`DocumentMetadata`].
#[verifier::ext_equal]
pub ghost struct MetadataView {
    pub title: Option<Seq<char>>,
    pub author: Option<Seq<char>>,
    pub tags: Option<Seq<Seq<char>>>,
    pub document_type: Option<Seq<char>>,
    pub created_at: Option<Seq<char>>,
    pub updated_at: Option<Seq<char>>,
}

/// Metadata attached to a document, taken from its frontmatter where one is
/// present. `title` holds only what the frontmatter gave; the resolved
/// document title lives on `Document`.
#[derive(Debug)]
pub struct DocumentMetadata {
    pub title: Option<String>,
    pub author: Option<String>,
    pub tags: Option<Vec<String>>,
    pub document_type: Option<String>,
    pub created_at: Option<String>,
    pub updated_at: Option<String>,
}

impl View for DocumentMetadata {
    type V = MetadataView;

    open spec fn view(&self) -> MetadataView {
        MetadataView {
            title: self.title.deep_view(),
            author: self.author.deep_view(),
            tags: self.tags.deep_view(),
            document_type: self.document_type.deep_view(),
            created_at: self.created_at.deep_view(),
            updated_at: self.updated_at.deep_view(),
        }
    }
}

impl Clone for DocumentMetadata {
    /// Clones every field, so that a chunk provably inherits its document's
    /// metadata unchanged.
    fn clone(&self) -> (r: Self)
        ensures
            r@ == self@,
    {
        let r = DocumentMetadata {
            title: clone_opt_string(&self.title),
            author: clone_opt_string(&self.author),
            tags: match &self.tags {
                Option::None => Option::None,
                Option::Some(v) => Option::Some(clone_string_vec(v)),
            },
            document_type: clone_opt_string(&self.document_type),
            created_at: clone_opt_string(&self.created_at),
            updated_at: clone_opt_string(&self.updated_at),
        };
        proof {
            assert(r@ =~= self@);
        }
        r
    }
}

/// Mathematical image of [`DocumentChunk`].
#[verifier::ext_equal]
pub ghost struct ChunkView {
    pub id: Seq<char>,
    pub content: Seq<char>,
    pub metadata: MetadataView,
    pub hierarchy_lvl1: Option<Seq<char>>,
    pub hierarchy_lvl2: Option<Seq<char>>,
    pub hierarchy_lvl3: Option<Seq<char>>,
    pub chunk_index: int,
    pub source_file: Seq<char>,
}

/// One bounded excerpt of a document: the unit of embedding, indexing and
/// retrieval. `hierarchy_lvl1..3` carry the text of the nearest enclosing
/// heading at each level, tracked across the whole document in emission
/// order. `chunk_index` is 0-based and gapless per document.
#[derive(Debug, Clone)]
pub struct DocumentChunk {
    pub id: String,
    pub content: String,
    pub metadata: DocumentMetadata,
    pub hierarchy_lvl1: Option<String>,
    pub hierarchy_lvl2: Option<String>,
    pub hierarchy_lvl3: Option<String>,
    pub chunk_index: usize,
    pub source_file: String,
}

impl View for DocumentChunk {
    type V = ChunkView;

    open spec fn view(&self) -> ChunkView {
        ChunkView {
            id: self.id@,
            content: self.content@,
            metadata: self.metadata@,
            hierarchy_lvl1: self.hierarchy_lvl1.deep_view(),
            hierarchy_lvl2: self.hierarchy_lvl2.deep_view(),
            hierarchy_lvl3: self.hierarchy_lvl3.deep_view(),
            chunk_index: self.chunk_index as int,
            source_file: self.source_file@,
        }
    }
}

/// Mathematical image of [`Document`].
#[verifier::ext_equal]
pub ghost struct DocumentView {
    pub id: Seq<char>,
    pub title: Seq<char>,
    pub content: Seq<char>,
    pub html: Seq<char>,
    pub metadata: MetadataView,
    pub chunks: Seq<ChunkView>,
}

/// A parsed upload. `content` is the body with any frontmatter removed, the
/// text the chunker works on; `html` is the rendered form produced by the
/// markdown renderer.
#[derive(Debug, Clone)]
pub struct Document {
    pub id: String,
    pub title: String,
    pub content: String,
    pub html: String,
    pub metadata: DocumentMetadata,
    pub chunks: Vec<DocumentChunk>,
}

impl View for Document {
    type V = DocumentView;

    open spec fn view(&self) -> DocumentView {
        DocumentView {
            id: self.id@,
            title: self.title@,
            content: self.content@,
            html: self.html@,
            metadata: self.metadata@,
            chunks: Seq::new(self.chunks@.len(), |i: int| self.chunks@[i]@),
        }
    }
}

/// Mathematical image of [`SearchResult`].
#[verifier::ext_equal]
pub ghost struct SearchResultView {
    pub id: Seq<char>,
    pub content: Seq<char>,
    pub metadata: MetadataView,
    pub hierarchy_lvl1: Option<Seq<char>>,
    pub hierarchy_lvl2: Option<Seq<char>>,
    pub hierarchy_lvl3: Option<Seq<char>>,
    pub chunk_index: int,
    pub source_file: Seq<char>,
    pub score_milli: int,
}

/// One ranked hit handed back by the search engine, already converted to
/// plain values. `score_milli` is the relevance score in thousandths; no
/// particular range is assumed of it.
#[derive(Debug, Clone)]
pub struct SearchResult {
    pub id: String,
    pub content: String,
    pub metadata: DocumentMetadata,
    pub hierarchy_lvl1: Option<String>,
    pub hierarchy_lvl2: Option<String>,
    pub hierarchy_lvl3: Option<String>,
    pub chunk_index: usize,
    pub source_file: String,
    pub score_milli: i64,
}

impl View for SearchResult {
    type V = SearchResultView;

    open spec fn view(&self) -> SearchResultView {
        SearchResultView {
            id: self.id@,
            content: self.content@,
            metadata: self.metadata@,
            hierarchy_lvl1: self.hierarchy_lvl1.deep_view(),
            hierarchy_lvl2: self.hierarchy_lvl2.deep_view(),
            hierarchy_lvl3: self.hierarchy_lvl3.deep_view(),
            chunk_index: self.chunk_index as int,
            source_file: self.source_file@,
            score_milli: self.score_milli as int,
        }
    }
}

#[derive(Debug, Clone)]
pub struct ChatRequest {
    pub message: String,
    pub session_id: Option<String>,
}

#[derive(Debug, Clone)]
pub struct ChatResponse {
    pub response: String,
    pub sources: Vec<SearchResult>,
    pub session_id: Option<String>,
}

#[derive(Debug, Clone)]
pub struct UploadRequest {
    pub title: String,
    pub content: String,
    pub metadata: Option<DocumentMetadata>,
}

#[derive(Debug, Clone)]
pub struct UploadResponse {
    pub task_id: String,
    pub status: String,
}

/// Lifecycle state of an ingestion task. `Succeeded` and `Failed` are
/// terminal: a record that reached one of them never changes again.
#[derive(Debug, Clone, Copy, PartialEq, Eq, Structural)]
pub enum TaskStatusType {
    Pending,
    Processing,
    Succeeded,
    Failed,
}

impl TaskStatusType {
    /// Whether this status accepts no further transitions.
    pub open spec fn spec_is_terminal(self) -> bool {
        self == TaskStatusType::Succeeded || self == TaskStatusType::Failed
    }

    /// Executable twin of [`Self::spec_is_terminal`].
    #[verifier::when_used_as_spec(spec_is_terminal)]
    pub fn is_terminal(self) -> (b: bool)
        ensures
            b == self.spec_is_terminal(),
    {
        match self {
            TaskStatusType::Succeeded => true,
            TaskStatusType::Failed => true,
            _ => false,
        }
    }
}

/// Mathematical image of [`TaskStatus`].
#[verifier::ext_equal]
pub ghost struct TaskStatusView {
    pub id: Seq<char>,
    pub status: TaskStatusType,
    pub progress_permille: Option<u32>,
    pub error: Option<Seq<char>>,
    pub created_at: Seq<char>,
    pub updated_at: Seq<char>,
}

impl TaskStatusView {
    /// Record invariant: progress stays on the permille scale and an error
    /// message is carried exactly by failed tasks.
    pub open spec fn wf(self) -> bool {
        &&& (self.progress_permille is Some ==> self.progress_permille->0 <= 1000)
        &&& (self.error is Some <==> self.status == TaskStatusType::Failed)
    }
}

/// One ingestion task's record. `progress_permille` is in [0, 1000] when
/// present; `error` is present exactly when the task failed.
#[derive(Debug)]
pub struct TaskStatus {
    pub id: String,
    pub status: TaskStatusType,
    pub progress_permille: Option<u32>,
    pub error: Option<String>,
    pub created_at: String,
    pub updated_at: String,
}

impl View for TaskStatus {
    type V = TaskStatusView;

    open spec fn view(&self) -> TaskStatusView {
        TaskStatusView {
            id: self.id@,
            status: self.status,
            progress_permille: self.progress_permille,
            error: self.error.deep_view(),
            created_at: self.created_at@,
            updated_at: self.updated_at@,
        }
    }
}

impl Clone for TaskStatus {
    /// Clones every field, so that a status query provably reports the
    /// stored record.
    fn clone(&self) -> (r: Self)
        ensures
            r@ == self@,
    {
        let r = TaskStatus {
            id: self.id.clone(),
            status: self.status,
            progress_permille: self.progress_permille,
            error: clone_opt_string(&self.error),
            created_at: self.created_at.clone(),
            updated_at: self.updated_at.clone(),
        };
        proof {
            assert(r@ =~= self@);
        }
        r
    }
}

/// Mathematical image of [`DocumentInfo`].
#[verifier::ext_equal]
pub ghost struct DocumentInfoView {
    pub id: Seq<char>,
    pub title: Seq<char>,
    pub status: Seq<char>,
    pub created_at: Seq<char>,
    pub chunk_count: int,
}

/// Catalogue entry for one indexed document, aggregated over its chunks.
#[derive(Debug, Clone)]
pub struct DocumentInfo {
    pub id: String,
    pub title: String,
    pub status: String,
    pub created_at: String,
    pub chunk_count: usize,
}

impl View for DocumentInfo {
    type V = DocumentInfoView;

    open spec fn view(&self) -> DocumentInfoView {
        DocumentInfoView {
            id: self.id@,
            title: self.title@,
            status: self.status@,
            created_at: self.created_at@,
            chunk_count: self.chunk_count as int,
        }
    }
}

#[derive(Debug, Clone)]
pub struct DocumentListResponse {
    pub documents: Vec<DocumentInfo>,
}

} // verus!
