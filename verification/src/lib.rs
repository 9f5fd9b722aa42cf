//! Core of a retrieval-augmented knowledge-base service: parsing uploaded
//! documents, splitting them into bounded chunks tagged with their heading
//! hierarchy, tracking asynchronous ingestion tasks through a terminal-state
//! lifecycle, assembling citation-numbered context for retrieval, and
//! adapting a streamed generation response with in-band error handling.
//!
//! Network collaborators (embedding provider, search engine, language model)
//! are driven by a thin unverified shell; every decision and every data
//! transformation lives here.

pub mod chunker;
pub mod clock;
pub mod error;
pub mod generation;
pub mod headings;
pub mod ids;
pub mod ingest;
pub mod models;
pub mod parser;
pub mod retrieval;
pub mod task_store;
pub mod text;
