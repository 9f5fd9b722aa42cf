//! Fresh identifiers for tasks, documents and chunks.

use vstd::prelude::*;

verus! {

/// Relies on `uuid::Uuid::new_v4` and its `Display` form: a random
/// version-4 UUID rendered as the 36-character hyphenated string. The value
/// is random, so nothing is assumed of it beyond its length.
#[verifier::external_body]
fn fresh_uuid() -> (r: String)
    ensures
        r@.len() == 36,
{
    uuid::Uuid::new_v4().to_string()
}

/// Identifier for a new ingestion task.
pub fn generate_task_id() -> (r: String)
    ensures
        r@.len() == 36,
{
    fresh_uuid()
}

/// Identifier for a new document.
pub fn generate_document_id() -> (r: String)
    ensures
        r@.len() == 36,
{
    fresh_uuid()
}

/// Identifier for a new chunk.
pub fn generate_chunk_id() -> (r: String)
    ensures
        r@.len() == 36,
{
    fresh_uuid()
}

} // verus!
