//! Parsing an uploaded markdown document: the optional frontmatter block is
//! cut off and read as a key-to-value map, metadata defaults are applied —
//! a malformed frontmatter is never fatal — the title is resolved from
//! frontmatter, first level-1 heading or filename, in that order, and the
//! body is rendered by the markdown renderer behind a trusted wrapper.

use vstd::prelude::*;
use vstd::string::*;
use crate::clock::now_rfc3339;
use crate::error::RagError;
use crate::headings::{
    spec_collect_headings, spec_collect_line, spec_first_heading_with_prefix, spec_no_headings,
    HeadingContext,
};
use crate::ids::generate_document_id;
use crate::models::{clone_string_vec, Document, DocumentMetadata};
use crate::text::{
    find_str_from, replace_all, spec_find_from, spec_lines, spec_replace_all, spec_starts_with,
    spec_trim, split_lines, starts_with_str, str_eq, trim_str,
};

verus! {

/// One value of the frontmatter map, reduced to plain shape: a scalar
/// string, a sequence keeping only its string items, or anything else.
#[derive(Debug)]
pub enum FrontmatterValue {
    Text(String),
    List(Vec<String>),
    Other,
}

/// What the YAML reader produces for a frontmatter block: its top-level
/// mapping in document order with each value reduced to a
/// [`FrontmatterValue`], or nothing where the block is not such a mapping.
/// The reader's behaviour on a given block is its own; this name stands
/// for whatever it returns.
pub uninterp spec fn yaml_entries_of(s: Seq<char>) -> Option<Vec<(String, FrontmatterValue)>>;

/// Relies on `serde_yaml::from_str` deserialising into `serde_yaml::Mapping`,
/// which keeps document order: the top-level mapping of the block, each
/// value reduced variant by variant, or `None` where the block does not
/// parse as a mapping with string keys.
#[verifier::external_body]
fn parse_yaml_entries(s: &str) -> (r: Option<Vec<(String, FrontmatterValue)>>)
    ensures
        r == yaml_entries_of(s@),
{
    let m: serde_yaml::Mapping = match serde_yaml::from_str(s) { Ok(m) => m, Err(_) => return None };
    let mut out: Vec<(String, FrontmatterValue)> = Vec::new();
    for (k, v) in m {
        let key = match k { serde_yaml::Value::String(t) => t, _ => return None };
        out.push((key, match v {
            serde_yaml::Value::String(t) => FrontmatterValue::Text(t),
            serde_yaml::Value::Sequence(x) => FrontmatterValue::List(x.into_iter().filter_map(|i| match i { serde_yaml::Value::String(t) => Some(t), _ => None }).collect()),
            _ => FrontmatterValue::Other,
        }));
    }
    Some(out)
}

/// The rendered form of a markdown text. The renderer's output is its own;
/// this name stands for whatever it returns.
pub uninterp spec fn html_of(markdown: Seq<char>) -> Seq<char>;

/// Relies on `pulldown_cmark::Parser::new_ext` with all extensions and
/// `pulldown_cmark::html::push_html`: the rendered HTML of the text, empty
/// for an empty text.
#[verifier::external_body]
fn markdown_to_html(markdown: &str) -> (r: String)
    ensures
        r@ == html_of(markdown@),
        markdown@.len() == 0 ==> r@.len() == 0,
{
    let parser = pulldown_cmark::Parser::new_ext(markdown, pulldown_cmark::Options::all());
    let mut out = String::new();
    pulldown_cmark::html::push_html(&mut out, parser);
    out
}

/// Where the frontmatter block ends: the first closing delimiter line at or
/// after the opening one.
pub open spec fn spec_frontmatter_close(content: Seq<char>) -> Option<int> {
    spec_find_from(content, "\n---\n"@, 3)
}

/// The frontmatter block of `content` (without its delimiters) and the
/// remaining body. A block exists when the content opens with a dash line
/// and a closing dash line follows; otherwise the whole content is body.
pub open spec fn spec_frontmatter_split(content: Seq<char>) -> (Option<Seq<char>>, Seq<char>) {
    if spec_starts_with(content, "---\n"@) {
        match spec_frontmatter_close(content) {
            Option::Some(p) => (
                Option::Some(content.subrange(4, if p < 4 { 4 } else { p })),
                content.skip(p + 5),
            ),
            Option::None => (Option::None, content),
        }
    } else {
        (Option::None, content)
    }
}

/// First value in `entries` stored under `key`.
pub open spec fn spec_lookup(entries: Seq<(String, FrontmatterValue)>, key: Seq<char>) -> Option<
    FrontmatterValue,
>
    decreases entries.len(),
{
    if entries.len() == 0 {
        Option::None
    } else if entries[0].0@ == key {
        Option::Some(entries[0].1)
    } else {
        spec_lookup(entries.drop_first(), key)
    }
}

/// The scalar string carried by a looked-up value, if it is one.
pub open spec fn spec_text_of(v: Option<FrontmatterValue>) -> Option<Seq<char>> {
    match v {
        Option::Some(FrontmatterValue::Text(t)) => Option::Some(t@),
        _ => Option::None,
    }
}

/// The string list carried by a looked-up value, if it is one.
pub open spec fn spec_list_of(v: Option<FrontmatterValue>) -> Option<Seq<Seq<char>>> {
    match v {
        Option::Some(FrontmatterValue::List(xs)) => Option::Some(xs.deep_view()),
        _ => Option::None,
    }
}

/// The frontmatter entries reachable from an optional block: none where
/// there is no block or it does not read as a string-keyed mapping.
pub open spec fn spec_entries_of(fm: Option<Seq<char>>) -> Option<Seq<(String, FrontmatterValue)>> {
    match fm {
        Option::None => Option::None,
        Option::Some(f) => match yaml_entries_of(f) {
            Option::None => Option::None,
            Option::Some(es) => Option::Some(es@),
        },
    }
}

/// Metadata title: the frontmatter's `title` scalar, where one exists.
pub open spec fn spec_meta_title(fm: Option<Seq<char>>) -> Option<Seq<char>> {
    match spec_entries_of(fm) {
        Option::None => Option::None,
        Option::Some(es) => spec_text_of(spec_lookup(es, "title"@)),
    }
}

/// Metadata author: the frontmatter's `author` scalar, where one exists.
pub open spec fn spec_meta_author(fm: Option<Seq<char>>) -> Option<Seq<char>> {
    match spec_entries_of(fm) {
        Option::None => Option::None,
        Option::Some(es) => spec_text_of(spec_lookup(es, "author"@)),
    }
}

/// Metadata tags: the string items of the frontmatter's `tags` sequence,
/// where one exists.
pub open spec fn spec_meta_tags(fm: Option<Seq<char>>) -> Option<Seq<Seq<char>>> {
    match spec_entries_of(fm) {
        Option::None => Option::None,
        Option::Some(es) => spec_list_of(spec_lookup(es, "tags"@)),
    }
}

/// Metadata document type: the frontmatter's `type` scalar where the key
/// exists — even when its value is no scalar — and `markdown` otherwise.
pub open spec fn spec_meta_document_type(fm: Option<Seq<char>>) -> Option<Seq<char>> {
    match spec_entries_of(fm) {
        Option::None => Option::Some("markdown"@),
        Option::Some(es) => match spec_lookup(es, "type"@) {
            Option::None => Option::Some("markdown"@),
            Option::Some(v) => spec_text_of(Option::Some(v)),
        },
    }
}

/// A filename reduced to a title: `.md` removed and separators turned into
/// spaces.
pub open spec fn spec_normalize_filename(f: Seq<char>) -> Seq<char> {
    spec_replace_all(
        spec_replace_all(spec_replace_all(f, ".md"@, ""@), "_"@, " "@),
        "-"@,
        " "@,
    )
}

/// The resolved title of a document: frontmatter `title`, else the first
/// level-1 heading of the body, else the normalized filename.
pub open spec fn spec_document_title(content: Seq<char>, filename: Seq<char>) -> Seq<char> {
    let fm = spec_frontmatter_split(content).0;
    let body = spec_frontmatter_split(content).1;
    match spec_meta_title(fm) {
        Option::Some(t) => t,
        Option::None => match spec_first_heading_with_prefix(spec_lines(body), "# "@) {
            Option::Some(t) => t,
            Option::None => spec_normalize_filename(filename),
        },
    }
}

/// Reads markdown uploads into [`Document`] values.
pub struct MarkdownParser;

impl MarkdownParser {
    /// Splits `content` into its frontmatter block and body. Never fails:
    /// content without a well-delimited block is all body.
    pub fn extract_frontmatter(content: &str) -> (r: Result<(Option<String>, String), RagError>)
        ensures
            r is Ok,
            r->Ok_0.0.deep_view() == spec_frontmatter_split(content@).0,
            r->Ok_0.1@ == spec_frontmatter_split(content@).1,
    {
        proof {
            reveal_strlit("---\n");
            reveal_strlit("\n---\n");
        }
        let n: usize = content.unicode_len();
        if !starts_with_str(content, "---\n") {
            return Result::Ok((Option::None, String::from_str(content)));
        }
        match find_str_from(content, "\n---\n", 3) {
            Option::Some(p) => {
                let close: usize = if p < 4 {
                    4
                } else {
                    p
                };
                let fm = String::from_str(content.substring_char(4, close));
                let body = String::from_str(content.substring_char(p + 5, n));
                proof {
                    assert(body@ =~= content@.skip(p + 5));
                }
                Result::Ok((Option::Some(fm), body))
            },
            Option::None => {
                Result::Ok((Option::None, String::from_str(content)))
            },
        }
    }

    /// Reads the frontmatter block into metadata, applying defaults for
    /// everything it does not give. A block that does not parse yields the
    /// defaults alone: frontmatter failure is never fatal.
    pub fn parse_metadata(frontmatter: &Option<String>) -> (m: DocumentMetadata)
        ensures
            m@.title == spec_meta_title(frontmatter.deep_view()),
            m@.author == spec_meta_author(frontmatter.deep_view()),
            m@.tags == spec_meta_tags(frontmatter.deep_view()),
            m@.document_type == spec_meta_document_type(frontmatter.deep_view()),
            m@.created_at is Some,
            m@.updated_at is Some,
    {
        let entries: Option<Vec<(String, FrontmatterValue)>> = match frontmatter {
            Option::None => Option::None,
            Option::Some(f) => parse_yaml_entries(f.as_str()),
        };
        match &entries {
            Option::None => DocumentMetadata {
                title: Option::None,
                author: Option::None,
                tags: Option::None,
                document_type: Option::Some(String::from_str("markdown")),
                created_at: Option::Some(now_rfc3339()),
                updated_at: Option::Some(now_rfc3339()),
            },
            Option::Some(es) => {
                let title = match lookup_entry(es, "title") {
                    Option::Some(FrontmatterValue::Text(t)) => Option::Some(t.clone()),
                    _ => Option::None,
                };
                let author = match lookup_entry(es, "author") {
                    Option::Some(FrontmatterValue::Text(t)) => Option::Some(t.clone()),
                    _ => Option::None,
                };
                let tags = match lookup_entry(es, "tags") {
                    Option::Some(FrontmatterValue::List(xs)) => Option::Some(clone_string_vec(xs)),
                    _ => Option::None,
                };
                let document_type = match lookup_entry(es, "type") {
                    Option::None => Option::Some(String::from_str("markdown")),
                    Option::Some(FrontmatterValue::Text(t)) => Option::Some(t.clone()),
                    Option::Some(_) => Option::None,
                };
                DocumentMetadata {
                    title,
                    author,
                    tags,
                    document_type,
                    created_at: Option::Some(now_rfc3339()),
                    updated_at: Option::Some(now_rfc3339()),
                }
            },
        }
    }

    /// The first level-1 heading of `content`, where one exists.
    pub fn extract_title_from_content(content: &str) -> (r: Option<String>)
        ensures
            r.deep_view() == spec_first_heading_with_prefix(spec_lines(content@), "# "@),
    {
        proof {
            reveal_strlit("# ");
        }
        let lines = split_lines(content);
        let ghost all = spec_lines(content@);
        let mut i: usize = 0;
        proof {
            assert(all.skip(0) =~= all);
        }
        while i < lines.len()
            invariant
                0 <= i <= lines.len(),
                all == spec_lines(content@),
                lines.deep_view() == all,
                spec_first_heading_with_prefix(all, "# "@) == spec_first_heading_with_prefix(
                    all.skip(i as int),
                    "# "@,
                ),
            decreases lines.len() - i,
        {
            let ghost rest = all.skip(i as int);
            let t = trim_str(lines[i].as_str());
            let n: usize = t.unicode_len();
            if starts_with_str(t, "# ") {
                proof {
                    reveal_strlit("# ");
                }
                let txt = String::from_str(t.substring_char(2, n));
                proof {
                    assert(rest[0] == all[i as int]);
                    assert(lines@[i as int]@ == all[i as int]);
                    assert(t@ == spec_trim(rest[0]));
                    assert(t@.subrange(2, n as int) =~= spec_trim(rest[0]).skip(2));
                    assert(spec_first_heading_with_prefix(rest, "# "@) == Option::Some(txt@));
                }
                return Option::Some(txt);
            }
            proof {
                assert(rest[0] == all[i as int]);
                assert(rest.drop_first() =~= all.skip(i + 1));
            }
            i = i + 1;
        }
        proof {
            assert(all.skip(lines.deep_view().len() as int) =~= Seq::<Seq<char>>::empty());
        }
        Option::None
    }

    /// Every heading that becomes active with its full ancestor chain while
    /// scanning `markdown` line by line, in first-activation order, each
    /// paired with an empty list. Never fails.
    pub fn extract_hierarchy(markdown: &str) -> (r: Result<Vec<(String, Vec<String>)>, RagError>)
        ensures
            r is Ok,
            ({
                let keys = spec_collect_headings(
                    spec_no_headings(),
                    Seq::empty(),
                    spec_lines(markdown@),
                ).1;
                &&& r->Ok_0@.len() == keys.len()
                &&& forall|k: int|
                    0 <= k < keys.len() ==> (#[trigger] r->Ok_0@[k]).0@ == keys[k]
                        && r->Ok_0@[k].1@.len() == 0
            }),
    {
        let lines = split_lines(markdown);
        let ghost all = spec_lines(markdown@);
        let mut ctx = HeadingContext::empty();
        let mut keys: Vec<String> = Vec::new();
        let mut i: usize = 0;
        proof {
            assert(all.skip(0) =~= all);
            assert(keys.deep_view() =~= Seq::<Seq<char>>::empty());
        }
        while i < lines.len()
            invariant
                0 <= i <= lines.len(),
                all == spec_lines(markdown@),
                lines.deep_view() == all,
                spec_collect_headings(spec_no_headings(), Seq::empty(), all)
                    == spec_collect_headings(ctx@, keys.deep_view(), all.skip(i as int)),
            decreases lines.len() - i,
        {
            let ghost rest = all.skip(i as int);
            let ghost pc = ctx@;
            let ghost pk = keys.deep_view();
            let line = lines[i].as_str();
            ctx = ctx.apply_line(line);
            if let Option::Some(h1) = &ctx.lvl1 {
                push_if_new(&mut keys, h1);
                if let Option::Some(h2) = &ctx.lvl2 {
                    push_if_new(&mut keys, h2);
                    if let Option::Some(h3) = &ctx.lvl3 {
                        push_if_new(&mut keys, h3);
                    }
                }
            }
            proof {
                assert(rest[0] == all[i as int]);
                assert(keys.deep_view() == spec_collect_line(pc, pk, rest[0]).1);
                assert(ctx@ == spec_collect_line(pc, pk, rest[0]).0);
                assert(rest.drop_first() =~= all.skip(i + 1));
            }
            i = i + 1;
        }
        proof {
            assert(all.skip(lines.deep_view().len() as int) =~= Seq::<Seq<char>>::empty());
        }
        let mut out: Vec<(String, Vec<String>)> = Vec::new();
        let mut k: usize = 0;
        while k < keys.len()
            invariant
                0 <= k <= keys.len(),
                out@.len() == k,
                forall|j: int|
                    0 <= j < k ==> (#[trigger] out@[j]).0@ == keys@[j]@ && out@[j].1@.len() == 0,
            decreases keys.len() - k,
        {
            out.push((keys[k].clone(), Vec::new()));
            k = k + 1;
        }
        Result::Ok(out)
    }

    /// Parses an upload into a document: frontmatter read into metadata
    /// with defaults, title resolved from frontmatter, first level-1
    /// heading or filename, body kept for chunking and rendered to HTML.
    /// Never fails: a malformed frontmatter only means defaults.
    pub fn parse_document(content: &str, filename: &str) -> (r: Result<Document, RagError>)
        ensures
            r is Ok,
            ({
                let fm = spec_frontmatter_split(content@).0;
                let body = spec_frontmatter_split(content@).1;
                let d = r->Ok_0;
                &&& d@.content == body
                &&& d@.html == html_of(body)
                &&& d@.title == spec_document_title(content@, filename@)
                &&& d@.metadata.title == spec_meta_title(fm)
                &&& d@.metadata.author == spec_meta_author(fm)
                &&& d@.metadata.tags == spec_meta_tags(fm)
                &&& d@.metadata.document_type == spec_meta_document_type(fm)
                &&& d@.metadata.created_at is Some
                &&& d@.metadata.updated_at is Some
                &&& d@.id.len() == 36
                &&& d@.chunks.len() == 0
            }),
    {
        let (frontmatter, body) = match Self::extract_frontmatter(content) {
            Result::Ok(pair) => pair,
            Result::Err(e) => {
                return Result::Err(e);
            },
        };
        let metadata = Self::parse_metadata(&frontmatter);
        let html = markdown_to_html(body.as_str());
        let title: String = match &metadata.title {
            Option::Some(t) => t.clone(),
            Option::None => match Self::extract_title_from_content(body.as_str()) {
                Option::Some(t) => t,
                Option::None => normalize_filename(filename),
            },
        };
        let document = Document {
            id: generate_document_id(),
            title,
            content: body,
            html,
            metadata,
            chunks: Vec::new(),
        };
        Result::Ok(document)
    }
}

/// First entry in `es` stored under `key`, by reference.
fn lookup_entry<'a>(es: &'a Vec<(String, FrontmatterValue)>, key: &str) -> (r: Option<
    &'a FrontmatterValue,
>)
    ensures
        match r {
            Option::Some(v) => spec_lookup(es@, key@) == Option::Some(*v),
            Option::None => spec_lookup(es@, key@) is None,
        },
{
    let ghost all = es@;
    let mut i: usize = 0;
    proof {
        assert(all.skip(0) =~= all);
    }
    while i < es.len()
        invariant
            0 <= i <= es.len(),
            all == es@,
            spec_lookup(all, key@) == spec_lookup(all.skip(i as int), key@),
        decreases es.len() - i,
    {
        let ghost rest = all.skip(i as int);
        if str_eq(es[i].0.as_str(), key) {
            proof {
                assert(rest[0] == all[i as int]);
            }
            return Option::Some(&es[i].1);
        }
        proof {
            assert(rest[0] == all[i as int]);
            assert(rest.drop_first() =~= all.skip(i + 1));
        }
        i = i + 1;
    }
    proof {
        assert(all.skip(es@.len() as int) =~= Seq::<(String, FrontmatterValue)>::empty());
    }
    Option::None
}

/// Appends `x` to `acc` unless it is already there.
fn push_if_new(acc: &mut Vec<String>, x: &String)
    ensures
        final(acc).deep_view() == crate::headings::spec_insert_new(old(acc).deep_view(), x@),
{
    let n: usize = acc.len();
    let mut i: usize = 0;
    while i < n
        invariant
            0 <= i <= n,
            n == acc@.len(),
            *acc == *old(acc),
            forall|j: int| 0 <= j < i ==> acc.deep_view()[j] != x@,
        decreases n - i,
    {
        if str_eq(acc[i].as_str(), x.as_str()) {
            proof {
                assert(acc.deep_view().contains(x@)) by {
                    assert(acc.deep_view()[i as int] == x@);
                }
            }
            return;
        }
        i = i + 1;
    }
    proof {
        assert(!old(acc).deep_view().contains(x@));
    }
    let ghost prev = acc.deep_view();
    acc.push(x.clone());
    proof {
        assert(acc.deep_view() =~= prev.push(x@));
    }
}

/// Executable form of [`spec_normalize_filename`].
pub fn normalize_filename(filename: &str) -> (r: String)
    ensures
        r@ == spec_normalize_filename(filename@),
{
    proof {
        reveal_strlit(".md");
        reveal_strlit("_");
        reveal_strlit("-");
    }
    let step1 = replace_all(filename, ".md", "");
    let step2 = replace_all(step1.as_str(), "_", " ");
    replace_all(step2.as_str(), "-", " ")
}

} // verus!
