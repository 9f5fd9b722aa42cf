use rag_core::chunker::DocumentChunker;
use rag_core::error::RagError;
use rag_core::models::{Document, DocumentMetadata};
use rag_core::parser::MarkdownParser;

fn plain_metadata() -> DocumentMetadata {
    DocumentMetadata {
        title: None,
        author: None,
        tags: None,
        document_type: Some(String::from("markdown")),
        created_at: None,
        updated_at: None,
    }
}

fn document_with_content(content: &str) -> Document {
    Document {
        id: String::from("doc-1"),
        title: String::from("Doc"),
        content: String::from(content),
        html: String::new(),
        metadata: plain_metadata(),
        chunks: Vec::new(),
    }
}

#[test]
fn single_chunk_document_carries_heading() {
    let document = MarkdownParser::parse_document("# Title\n\nHello world.", "scenario.md")
        .unwrap();
    assert_eq!(document.title, "Title");
    let chunker = DocumentChunker::default();
    let chunks = chunker.chunk_document(&document).unwrap();
    assert_eq!(chunks.len(), 1);
    assert_eq!(chunks[0].chunk_index, 0);
    assert_eq!(chunks[0].hierarchy_lvl1.as_deref(), Some("Title"));
    assert_eq!(chunks[0].hierarchy_lvl2, None);
    assert_eq!(chunks[0].hierarchy_lvl3, None);
    assert_eq!(chunks[0].content, "# Title\n\nHello world.");
    assert_eq!(chunks[0].source_file, "Title");
}

#[test]
fn chunk_indices_are_contiguous_from_zero() {
    let mut text = String::new();
    let words = [
        "alpha", "bravo", "charlie", "delta", "echo", "foxtrot", "golf", "hotel", "india",
        "juliet", "kilo", "lima", "mike", "november", "oscar", "papa", "quebec", "romeo",
    ];
    for w in words.iter() {
        text.push_str(w);
        text.push_str(" word word word word word. ");
    }
    let document = document_with_content(&text);
    let chunker = DocumentChunker::new(40, 10);
    let chunks = chunker.chunk_document(&document).unwrap();
    assert!(chunks.len() > 1);
    for (i, chunk) in chunks.iter().enumerate() {
        assert_eq!(chunk.chunk_index, i);
    }
}

#[test]
fn chunks_stay_within_the_size_bound() {
    let text = "one two three four five six seven eight nine ten eleven twelve thirteen \
                fourteen fifteen sixteen seventeen eighteen nineteen twenty";
    let document = document_with_content(text);
    let chunker = DocumentChunker::new(25, 5);
    let chunks = chunker.chunk_document(&document).unwrap();
    assert!(chunks.len() > 1);
    for chunk in chunks.iter() {
        assert!(chunk.content.chars().count() <= 25);
    }
}

#[test]
fn adjacent_chunks_share_at_most_the_overlap() {
    // Distinct words, so the longest shared suffix/prefix is the real overlap.
    let text = "alpha bravo charlie delta echo foxtrot golf hotel india juliet kilo lima mike";
    let chunker = DocumentChunker::new(20, 8);
    let chunks = chunker.chunk_text(text, "src.txt").unwrap();
    assert!(chunks.len() > 1);
    for pair in chunks.windows(2) {
        let a: Vec<char> = pair[0].content.chars().collect();
        let b: Vec<char> = pair[1].content.chars().collect();
        let mut shared = 0usize;
        for k in (1..=a.len().min(b.len())).rev() {
            if a[a.len() - k..] == b[..k] {
                shared = k;
                break;
            }
        }
        assert!(shared <= 8, "chunks share {} characters", shared);
    }
}

#[test]
fn heading_state_is_carried_across_chunks() {
    let mut text = String::from("# Top\n\n");
    for _ in 0..12 {
        text.push_str("carried words flow onward here. ");
    }
    text.push_str("\n## Inner\n\n");
    for _ in 0..12 {
        text.push_str("more words continue the flow. ");
    }
    let document = document_with_content(&text);
    let chunker = DocumentChunker::new(60, 0);
    let chunks = chunker.chunk_document(&document).unwrap();
    assert!(chunks.len() > 2);
    // Every chunk sees the top-level heading even far past its own text.
    for chunk in chunks.iter() {
        assert_eq!(chunk.hierarchy_lvl1.as_deref(), Some("Top"));
    }
    // After the subsection appears, it stays attached to later chunks.
    let last = chunks.last().unwrap();
    assert_eq!(last.hierarchy_lvl2.as_deref(), Some("Inner"));
}

#[test]
fn deeper_heading_resets_on_new_section() {
    let text = "# One\n## Sub\ncontent here\n# Two\nmore content";
    let document = document_with_content(text);
    let chunker = DocumentChunker::default();
    let chunks = chunker.chunk_document(&document).unwrap();
    assert_eq!(chunks.len(), 1);
    // The chunk's tag is the state at the end of its text: the new section
    // cleared the subsection.
    assert_eq!(chunks[0].hierarchy_lvl1.as_deref(), Some("Two"));
    assert_eq!(chunks[0].hierarchy_lvl2, None);
}

#[test]
fn empty_content_yields_no_chunks() {
    let document = document_with_content("");
    let chunker = DocumentChunker::default();
    let chunks = chunker.chunk_document(&document).unwrap();
    assert!(chunks.is_empty());
}

#[test]
fn whitespace_only_content_is_a_chunking_failure() {
    let document = document_with_content("   \n\t  \n");
    let chunker = DocumentChunker::default();
    let result = chunker.chunk_document(&document);
    match result {
        Err(RagError::ChunkingFailed(m)) => {
            assert!(!m.is_empty());
        },
        other => panic!("expected a chunking failure, got {:?}", other),
    }
}

#[test]
fn chunk_text_uses_synthetic_metadata() {
    let chunker = DocumentChunker::default();
    let chunks = chunker.chunk_text("Just a short note.", "note.txt").unwrap();
    assert_eq!(chunks.len(), 1);
    assert_eq!(chunks[0].chunk_index, 0);
    assert_eq!(chunks[0].hierarchy_lvl1, None);
    assert_eq!(chunks[0].hierarchy_lvl2, None);
    assert_eq!(chunks[0].hierarchy_lvl3, None);
    assert_eq!(chunks[0].source_file, "note.txt");
    assert_eq!(chunks[0].metadata.title.as_deref(), Some("note.txt"));
    assert_eq!(chunks[0].metadata.document_type.as_deref(), Some("text"));
    assert!(chunks[0].metadata.created_at.is_some());
    assert!(chunks[0].metadata.updated_at.is_some());
    assert_eq!(chunks[0].metadata.author, None);
    assert_eq!(chunks[0].metadata.tags, None);
}

#[test]
fn chunk_ids_are_fresh_uuids() {
    let chunker = DocumentChunker::default();
    let chunks = chunker
        .chunk_text("alpha beta gamma delta epsilon zeta eta theta", "ids.txt")
        .unwrap();
    assert_eq!(chunks[0].id.len(), 36);
    let more = chunker.chunk_text("another text body", "ids.txt").unwrap();
    assert_ne!(chunks[0].id, more[0].id);
}

#[test]
fn hierarchy_level_lookup_is_exact_per_level() {
    let chunker = DocumentChunker::default();
    let content = "intro\n## Second\nbody text";
    assert_eq!(chunker.extract_hierarchy_level(content, 2).as_deref(), Some("Second"));
    // A level without a heading of exactly that depth is absent.
    assert_eq!(chunker.extract_hierarchy_level(content, 3), None);
    assert_eq!(chunker.extract_hierarchy_level(content, 1), None);
    let deep = "# Top\ntext\n### Deep\nmore";
    assert_eq!(chunker.extract_hierarchy_level(deep, 1).as_deref(), Some("Top"));
    assert_eq!(chunker.extract_hierarchy_level(deep, 2), None);
    assert_eq!(chunker.extract_hierarchy_level(deep, 3).as_deref(), Some("Deep"));
    assert_eq!(chunker.extract_hierarchy_level("no headings at all", 3), None);
}

#[test]
fn chunker_bounds_are_stored() {
    let chunker = DocumentChunker::new(128, 16);
    assert_eq!(chunker.chunk_size, 128);
    assert_eq!(chunker.chunk_overlap, 16);
    let default_chunker = DocumentChunker::default();
    assert_eq!(default_chunker.chunk_size, 512);
    assert_eq!(default_chunker.chunk_overlap, 50);
}

#[test]
fn chunks_inherit_the_document_metadata() {
    let content = "---\ntitle: Tagged\nauthor: Bo\ntags:\n  - one\n---\n# H\nShort body.";
    let document = MarkdownParser::parse_document(content, "tagged.md").unwrap();
    let chunker = DocumentChunker::default();
    let chunks = chunker.chunk_document(&document).unwrap();
    assert_eq!(chunks.len(), 1);
    assert_eq!(chunks[0].metadata.title.as_deref(), Some("Tagged"));
    assert_eq!(chunks[0].metadata.author.as_deref(), Some("Bo"));
    assert_eq!(chunks[0].metadata.tags, Some(vec![String::from("one")]));
    assert_eq!(chunks[0].source_file, "Tagged");
}
