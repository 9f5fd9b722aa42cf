use rag_core::parser::{normalize_filename, MarkdownParser};

#[test]
fn frontmatter_fields_reach_the_metadata() {
    let content = "---\ntitle: My Doc\nauthor: Ann\ntags:\n  - search\n  - rag\ntype: note\n---\n# Heading\nBody text.";
    let document = MarkdownParser::parse_document(content, "upload.md").unwrap();
    assert_eq!(document.metadata.title.as_deref(), Some("My Doc"));
    assert_eq!(document.metadata.author.as_deref(), Some("Ann"));
    assert_eq!(
        document.metadata.tags,
        Some(vec![String::from("search"), String::from("rag")])
    );
    assert_eq!(document.metadata.document_type.as_deref(), Some("note"));
    assert!(document.metadata.created_at.is_some());
    assert!(document.metadata.updated_at.is_some());
    assert_eq!(document.title, "My Doc");
    assert_eq!(document.content, "# Heading\nBody text.");
    assert_eq!(document.id.len(), 36);
    assert!(document.chunks.is_empty());
}

#[test]
fn malformed_frontmatter_falls_back_to_defaults() {
    let content = "---\nnot yaml: [unclosed\n---\n# Saved\nBody.";
    let document = MarkdownParser::parse_document(content, "broken_file.md").unwrap();
    assert_eq!(document.metadata.title, None);
    assert_eq!(document.metadata.author, None);
    assert_eq!(document.metadata.tags, None);
    assert_eq!(document.metadata.document_type.as_deref(), Some("markdown"));
    // Parsing still succeeded and the body survived.
    assert_eq!(document.content, "# Saved\nBody.");
    // Title resolution moved on to the first level-1 heading.
    assert_eq!(document.title, "Saved");
}

#[test]
fn absent_frontmatter_keeps_the_whole_content() {
    let content = "No dashes here.\nJust text.";
    let document = MarkdownParser::parse_document(content, "plain_notes.md").unwrap();
    assert_eq!(document.metadata.document_type.as_deref(), Some("markdown"));
    assert_eq!(document.content, content);
    // No frontmatter title, no level-1 heading: the filename is normalized.
    assert_eq!(document.title, "plain notes");
}

#[test]
fn title_prefers_frontmatter_over_heading_and_filename() {
    let with_both = "---\ntitle: From Frontmatter\n---\n# From Heading\ntext";
    let d1 = MarkdownParser::parse_document(with_both, "from_file.md").unwrap();
    assert_eq!(d1.title, "From Frontmatter");

    let with_heading = "# From Heading\ntext";
    let d2 = MarkdownParser::parse_document(with_heading, "from_file.md").unwrap();
    assert_eq!(d2.title, "From Heading");

    let with_neither = "plain text only";
    let d3 = MarkdownParser::parse_document(with_neither, "from_file.md").unwrap();
    assert_eq!(d3.title, "from file");
}

#[test]
fn non_string_frontmatter_title_is_ignored() {
    let content = "---\ntitle: 123\n---\nbody";
    let document = MarkdownParser::parse_document(content, "numeric_title.md").unwrap();
    assert_eq!(document.metadata.title, None);
    assert_eq!(document.title, "numeric title");
}

#[test]
fn frontmatter_split_edges() {
    let (fm, body) = MarkdownParser::extract_frontmatter("---\na: b\n---\nrest").unwrap();
    assert_eq!(fm.as_deref(), Some("a: b"));
    assert_eq!(body, "rest");

    let (fm2, body2) = MarkdownParser::extract_frontmatter("---\n---\nrest").unwrap();
    assert_eq!(fm2.as_deref(), Some(""));
    assert_eq!(body2, "rest");

    let (fm3, body3) = MarkdownParser::extract_frontmatter("---\nnever closed").unwrap();
    assert_eq!(fm3, None);
    assert_eq!(body3, "---\nnever closed");

    let (fm4, body4) = MarkdownParser::extract_frontmatter("no frontmatter").unwrap();
    assert_eq!(fm4, None);
    assert_eq!(body4, "no frontmatter");
}

#[test]
fn first_level_one_heading_is_found() {
    let content = "intro line\n   # Spaced Heading\n# Second";
    assert_eq!(
        MarkdownParser::extract_title_from_content(content).as_deref(),
        Some("Spaced Heading")
    );
    assert_eq!(MarkdownParser::extract_title_from_content("## only deeper"), None);
}

#[test]
fn hierarchy_catalogue_lists_activated_headings_in_order() {
    let markdown = "# A\n## B\ntext\n### C\n# D\n## B\n";
    let entries = MarkdownParser::extract_hierarchy(markdown).unwrap();
    let keys: Vec<&str> = entries.iter().map(|e| e.0.as_str()).collect();
    assert_eq!(keys, vec!["A", "B", "C", "D"]);
    for entry in entries.iter() {
        assert!(entry.1.is_empty());
    }
}

#[test]
fn deeper_heading_without_ancestor_is_not_catalogued() {
    let markdown = "## Orphan\n# Root\n";
    let entries = MarkdownParser::extract_hierarchy(markdown).unwrap();
    let keys: Vec<&str> = entries.iter().map(|e| e.0.as_str()).collect();
    // The subsection seen before any section has no full ancestor chain.
    assert_eq!(keys, vec!["Root"]);
}

#[test]
fn markdown_is_rendered_to_html() {
    let document = MarkdownParser::parse_document("# Title\n\nHello world.", "render.md")
        .unwrap();
    assert!(document.html.contains("<h1>"));
    assert!(document.html.contains("Hello world."));
    assert_ne!(document.html, document.content);
}

#[test]
fn filename_normalization_rewrites_separators() {
    assert_eq!(normalize_filename("my_file-v2.md"), "my file v2");
    assert_eq!(normalize_filename("a.md.md"), "a");
    assert_eq!(normalize_filename("plain"), "plain");
}

#[test]
fn duplicate_frontmatter_keys_fall_back_to_defaults() {
    // YAML rejects a mapping that repeats a key; the parse failure is
    // recovered with defaults, never fatal.
    let content = "---\ntitle: First\ntitle: Second\n---\nbody";
    let document = MarkdownParser::parse_document(content, "dup_keys.md").unwrap();
    assert_eq!(document.metadata.title, None);
    assert_eq!(document.metadata.document_type.as_deref(), Some("markdown"));
    assert_eq!(document.title, "dup keys");
    assert_eq!(document.content, "body");
}
