use rag_core::error::RagError;
use rag_core::text::{
    contains_char, ends_with_str, find_str, replace_all, split_lines, starts_with_str, str_eq,
    trim_str,
};

#[test]
fn trimming_removes_edge_whitespace_only() {
    assert_eq!(trim_str("  hello world \t"), "hello world");
    assert_eq!(trim_str("\r\n x \r\n"), "x");
    assert_eq!(trim_str("   "), "");
    assert_eq!(trim_str("inner  space"), "inner  space");
}

#[test]
fn line_splitting_matches_line_semantics() {
    let lines = split_lines("a\r\nb\nc");
    assert_eq!(lines, vec!["a", "b", "c"]);
    let trailing = split_lines("one\ntwo\n");
    assert_eq!(trailing, vec!["one", "two"]);
    assert_eq!(split_lines(""), Vec::<String>::new());
    assert_eq!(split_lines("\n\n"), vec!["", ""]);
}

#[test]
fn searching_finds_the_first_occurrence() {
    assert_eq!(find_str("abcabc", "bc"), Some(1));
    assert_eq!(find_str("abcabc", "zz"), None);
    assert!(starts_with_str("prefix rest", "prefix"));
    assert!(!starts_with_str("pre", "prefix"));
    assert!(ends_with_str("name.md", ".md"));
    assert!(!ends_with_str("name.txt", ".md"));
    assert!(contains_char("hash # here", '#'));
    assert!(!contains_char("no marker", '#'));
    assert!(str_eq("same", "same"));
    assert!(!str_eq("same", "Same"));
}

#[test]
fn replacement_rewrites_every_occurrence() {
    assert_eq!(replace_all("a_b_c", "_", " "), "a b c");
    assert_eq!(replace_all("report.md", ".md", ""), "report");
    assert_eq!(replace_all("aaa", "aa", "b"), "ba");
    assert_eq!(replace_all("none", "xyz", "q"), "none");
}

#[test]
fn error_messages_carry_their_label_and_detail() {
    assert_eq!(
        RagError::ChunkingFailed(String::from("bad split")).message(),
        "Chunking failed: bad split"
    );
    assert_eq!(
        RagError::TaskNotFound(String::from("t-9")).message(),
        "Task not found: t-9"
    );
    assert_eq!(
        RagError::EmbeddingFailed(String::from("x")).message(),
        "Embedding generation failed: x"
    );
    assert_eq!(
        RagError::IndexingFailed(String::from("y")).message(),
        "Indexing failed: y"
    );
    assert_eq!(RagError::Meilisearch(String::from("m")).message(), "Meilisearch error: m");
    assert_eq!(RagError::OpenAi(String::from("o")).message(), "OpenAI API error: o");
    assert_eq!(RagError::Http(String::from("h")).message(), "HTTP client error: h");
    assert_eq!(
        RagError::Serialization(String::from("s")).message(),
        "Serialization error: s"
    );
    assert_eq!(RagError::Yaml(String::from("v")).message(), "YAML parsing error: v");
    assert_eq!(RagError::Io(String::from("i")).message(), "IO error: i");
    assert_eq!(
        RagError::InvalidFileType(String::from("f")).message(),
        "Invalid file type: f"
    );
    assert_eq!(RagError::LlmFailed(String::from("l")).message(), "LLM generation failed: l");
}
