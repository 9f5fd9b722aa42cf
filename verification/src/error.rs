//! Error taxonomy of the service. Failures coming from collaborators are
//! carried as plain text; the shell that talks to them converts their error
//! values into the matching variant.

use vstd::prelude::*;
use vstd::string::*;

verus! {

/// Every failure the service can report. Variants that mirror a
/// collaborator's failure carry that collaborator's message; the rest carry
/// a description produced here.
#[derive(Debug, Clone, PartialEq, Eq)]
pub enum RagError {
    Meilisearch(String),
    OpenAi(String),
    Http(String),
    Serialization(String),
    Yaml(String),
    Io(String),
    InvalidFileType(String),
    TaskNotFound(String),
    IndexingFailed(String),
    ChunkingFailed(String),
    EmbeddingFailed(String),
    LlmFailed(String),
}

/// The rendered form of an error: a fixed label for the variant followed by
/// the carried detail.
pub open spec fn spec_error_message(e: RagError) -> Seq<char> {
    match e {
        RagError::Meilisearch(d) => "Meilisearch error: "@ + d@,
        RagError::OpenAi(d) => "OpenAI API error: "@ + d@,
        RagError::Http(d) => "HTTP client error: "@ + d@,
        RagError::Serialization(d) => "Serialization error: "@ + d@,
        RagError::Yaml(d) => "YAML parsing error: "@ + d@,
        RagError::Io(d) => "IO error: "@ + d@,
        RagError::InvalidFileType(d) => "Invalid file type: "@ + d@,
        RagError::TaskNotFound(d) => "Task not found: "@ + d@,
        RagError::IndexingFailed(d) => "Indexing failed: "@ + d@,
        RagError::ChunkingFailed(d) => "Chunking failed: "@ + d@,
        RagError::EmbeddingFailed(d) => "Embedding generation failed: "@ + d@,
        RagError::LlmFailed(d) => "LLM generation failed: "@ + d@,
    }
}

impl RagError {
    /// Human-readable message, used wherever the error is surfaced.
    pub fn message(&self) -> (m: String)
        ensures
            m@ == spec_error_message(*self),
    {
        match self {
            RagError::Meilisearch(d) => String::from_str("Meilisearch error: ").concat(d.as_str()),
            RagError::OpenAi(d) => String::from_str("OpenAI API error: ").concat(d.as_str()),
            RagError::Http(d) => String::from_str("HTTP client error: ").concat(d.as_str()),
            RagError::Serialization(d) => String::from_str("Serialization error: ").concat(
                d.as_str(),
            ),
            RagError::Yaml(d) => String::from_str("YAML parsing error: ").concat(d.as_str()),
            RagError::Io(d) => String::from_str("IO error: ").concat(d.as_str()),
            RagError::InvalidFileType(d) => String::from_str("Invalid file type: ").concat(
                d.as_str(),
            ),
            RagError::TaskNotFound(d) => String::from_str("Task not found: ").concat(d.as_str()),
            RagError::IndexingFailed(d) => String::from_str("Indexing failed: ").concat(d.as_str()),
            RagError::ChunkingFailed(d) => String::from_str("Chunking failed: ").concat(d.as_str()),
            RagError::EmbeddingFailed(d) => String::from_str(
                "Embedding generation failed: ",
            ).concat(d.as_str()),
            RagError::LlmFailed(d) => String::from_str("LLM generation failed: ").concat(
                d.as_str(),
            ),
        }
    }
}

} // verus!
