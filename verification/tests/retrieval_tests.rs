use rag_core::models::{DocumentMetadata, SearchResult};
use rag_core::retrieval::{build_context, format_score, summarize_documents};
use rag_core::text::{u64_to_string, usize_to_string};

fn metadata(title: Option<&str>, created_at: Option<&str>) -> DocumentMetadata {
    DocumentMetadata {
        title: title.map(String::from),
        author: None,
        tags: None,
        document_type: None,
        created_at: created_at.map(String::from),
        updated_at: None,
    }
}

fn result(source: &str, content: &str, score_milli: i64) -> SearchResult {
    SearchResult {
        id: format!("id-{}", source),
        content: String::from(content),
        metadata: metadata(None, None),
        hierarchy_lvl1: None,
        hierarchy_lvl2: None,
        hierarchy_lvl3: None,
        chunk_index: 0,
        source_file: String::from(source),
        score_milli,
    }
}

#[test]
fn context_block_is_rendered_exactly() {
    let mut r = result("guide.md", "How to search.", 875);
    r.hierarchy_lvl1 = Some(String::from("Guide"));
    r.hierarchy_lvl2 = Some(String::from("Search"));
    r.hierarchy_lvl3 = Some(String::from("Basics"));
    let context = build_context(&vec![r]);
    let expected = "[Source 1: guide.md]\n\
                    Section: Guide\n\
                    Subsection: Search\n\
                    Sub-subsection: Basics\n\
                    Content: How to search.\n\
                    Relevance Score: 0.875\n\
                    \n---\n\n";
    assert_eq!(context, expected);
}

#[test]
fn three_results_give_three_numbered_blocks_in_order() {
    let results = vec![
        result("a.md", "first", 900),
        result("b.md", "second", 800),
        result("c.md", "third", 700),
    ];
    let context = build_context(&results);
    assert_eq!(context.matches("[Source ").count(), 3);
    let p1 = context.find("[Source 1: a.md]").unwrap();
    let p2 = context.find("[Source 2: b.md]").unwrap();
    let p3 = context.find("[Source 3: c.md]").unwrap();
    assert!(p1 < p2 && p2 < p3);
    assert!(context.find("[Source 4:").is_none());
}

#[test]
fn absent_hierarchy_lines_are_omitted() {
    let context = build_context(&vec![result("s.md", "text", 500)]);
    assert!(!context.contains("Section:"));
    assert!(!context.contains("Subsection:"));
    assert!(context.contains("Content: text\n"));
}

#[test]
fn scores_are_rendered_with_three_decimals() {
    assert_eq!(format_score(875), "0.875");
    assert_eq!(format_score(35), "0.035");
    assert_eq!(format_score(5), "0.005");
    assert_eq!(format_score(1000), "1.000");
    assert_eq!(format_score(1234), "1.234");
    assert_eq!(format_score(0), "0.000");
    assert_eq!(format_score(-5), "-0.005");
    assert_eq!(format_score(-1250), "-1.250");
}

#[test]
fn decimal_rendering_matches() {
    assert_eq!(u64_to_string(0), "0");
    assert_eq!(u64_to_string(42), "42");
    assert_eq!(u64_to_string(1234567890), "1234567890");
    assert_eq!(usize_to_string(7), "7");
}

#[test]
fn documents_are_grouped_by_source_with_chunk_counts() {
    let mut first = result("alpha.md", "one", 0);
    first.metadata = metadata(Some("Alpha"), Some("2024-01-01"));
    let rows = vec![
        first,
        result("beta.md", "two", 0),
        result("alpha.md", "three", 0),
        result("alpha.md", "four", 0),
    ];
    let infos = summarize_documents(&rows);
    assert_eq!(infos.len(), 2);
    assert_eq!(infos[0].id, "alpha.md");
    assert_eq!(infos[0].title, "Alpha");
    assert_eq!(infos[0].created_at, "2024-01-01");
    assert_eq!(infos[0].chunk_count, 3);
    assert_eq!(infos[0].status, "indexed");
    assert_eq!(infos[1].id, "beta.md");
    // No metadata title: the source file stands in; no timestamp: empty.
    assert_eq!(infos[1].title, "beta.md");
    assert_eq!(infos[1].created_at, "");
    assert_eq!(infos[1].chunk_count, 1);
}
