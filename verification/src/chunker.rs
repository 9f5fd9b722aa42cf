//! Splitting a document into bounded chunks. The split positions are
//! delegated to the `text-splitter` crate, which prefers natural breaks;
//! everything stated about the pieces it returns is collected in one
//! trusted wrapper. Chunk numbering, metadata inheritance and the
//! document-wide propagation of heading hierarchy are verified here.

use vstd::prelude::*;
use vstd::string::*;
use crate::error::RagError;
use crate::headings::{
    spec_first_heading_with_prefix, spec_headings_of_text, spec_no_headings, HeadingContext,
    HeadingsView,
};
use crate::ids::generate_chunk_id;
use crate::clock::now_rfc3339;
use crate::models::{clone_opt_string, Document, DocumentChunk, DocumentMetadata, MetadataView};
use crate::text::{spec_starts_with, spec_trim, split_lines, starts_with_str, trim_str};

verus! {

/// The pieces the underlying splitter produces for a text with a given
/// maximum piece size and overlap, each with the character offset at which
/// it starts in the text. The splitter's choice of break positions is its
/// own; this name stands for whatever it returns.
pub uninterp spec fn split_pieces_of(text: Seq<char>, max_size: usize, overlap: usize) -> Seq<
    (int, Seq<char>),
>;

/// The offsets and character sequences of returned pieces.
pub open spec fn pieces_view(v: Seq<(usize, String)>) -> Seq<(int, Seq<char>)> {
    Seq::new(v.len(), |i: int| (v[i].0 as int, v[i].1@))
}

/// A printable ASCII character; such a character is never whitespace, so
/// the splitter cannot trim it away.
pub open spec fn is_ascii_graphic(c: char) -> bool {
    33 <= c as u32 && c as u32 <= 126
}

/// Relies on `text_splitter::TextSplitter` with the default character
/// sizer, trimming enabled and the given capacity and overlap, through
/// `chunk_char_indices`: every piece is a non-empty whitespace-trimmed
/// slice of the text of at most `max_size` characters, reported at its
/// character offset; pieces come in order of strictly increasing end
/// positions, and a piece starts at most `overlap` characters before the
/// previous piece's end. A text containing a printable ASCII character
/// yields at least one piece.
#[verifier::external_body]
fn split_text_pieces(text: &str, max_size: usize, overlap: usize) -> (r: Vec<(usize, String)>)
    requires
        overlap < max_size,
    ensures
        pieces_view(r@) == split_pieces_of(text@, max_size, overlap),
        forall|i: int|
            0 <= i < r@.len() ==> 1 <= (#[trigger] r@[i]).1@.len() <= max_size,
        forall|i: int|
            0 <= i < r@.len() ==> (#[trigger] r@[i]).0 + r@[i].1@.len() <= text@.len()
                && r@[i].1@ == text@.subrange(
                r@[i].0 as int,
                r@[i].0 + r@[i].1@.len(),
            ),
        forall|i: int|
            0 <= i < r@.len() - 1 ==> (#[trigger] r@[i]).0 <= r@[i + 1].0 && r@[i].0
                + r@[i].1@.len() < r@[i + 1].0 + r@[i + 1].1@.len() && r@[i].0 + r@[i].1@.len()
                <= r@[i + 1].0 + overlap,
        text@.len() == 0 ==> r@.len() == 0,
        (exists|k: int| 0 <= k < text@.len() && is_ascii_graphic(#[trigger] text@[k]))
            ==> r@.len() >= 1,
{
    let config = match text_splitter::ChunkConfig::new(max_size).with_overlap(overlap) {
        Ok(c) => c,
        Err(_) => {
            return Vec::new();
        },
    };
    let splitter = text_splitter::TextSplitter::new(config);
    let mut out: Vec<(usize, String)> = Vec::new();
    for piece in splitter.chunk_char_indices(text) {
        out.push((piece.char_offset, piece.chunk.to_string()));
    }
    out
}

/// The splitter wrapper's clauses, carried over to the named piece
/// sequence.
proof fn lemma_pieces_transfer(
    pieces: Seq<(usize, String)>,
    ps: Seq<(int, Seq<char>)>,
    text: Seq<char>,
    max_size: usize,
    overlap: usize,
)
    requires
        ps == pieces_view(pieces),
        forall|i: int|
            0 <= i < pieces.len() ==> 1 <= (#[trigger] pieces[i]).1@.len() <= max_size,
        forall|i: int|
            0 <= i < pieces.len() ==> (#[trigger] pieces[i]).0 + pieces[i].1@.len() <= text.len()
                && pieces[i].1@ == text.subrange(
                pieces[i].0 as int,
                pieces[i].0 + pieces[i].1@.len(),
            ),
        forall|i: int|
            0 <= i < pieces.len() - 1 ==> (#[trigger] pieces[i]).0 <= pieces[i + 1].0 && pieces[
                i
            ].0 + pieces[i].1@.len() < pieces[i + 1].0 + pieces[i + 1].1@.len() && pieces[i].0
                + pieces[i].1@.len() <= pieces[i + 1].0 + overlap,
    ensures
        spec_pieces_ok(ps, text, max_size, overlap),
{
    assert forall|k: int| 0 <= k < ps.len() implies 1 <= (#[trigger] ps[k]).1.len() <= max_size
        && 0 <= ps[k].0 && ps[k].0 + ps[k].1.len() <= text.len() && ps[k].1 == text.subrange(
        ps[k].0,
        ps[k].0 + ps[k].1.len(),
    ) by {
        assert(ps[k] == (pieces[k].0 as int, pieces[k].1@));
        assert(1 <= pieces[k].1@.len() <= max_size);
        assert(pieces[k].0 + pieces[k].1@.len() <= text.len());
    }
    assert forall|k: int| 0 <= k < ps.len() - 1 implies (#[trigger] ps[k]).0 <= ps[k + 1].0 && ps[
        k
    ].0 + ps[k].1.len() < ps[k + 1].0 + ps[k + 1].1.len() && ps[k].0 + ps[k].1.len() <= ps[k
        + 1].0 + overlap by {
        assert(ps[k] == (pieces[k].0 as int, pieces[k].1@));
        assert(ps[k + 1] == (pieces[k + 1].0 as int, pieces[k + 1].1@));
        assert(pieces[k].0 <= pieces[k + 1].0 && pieces[k].0 + pieces[k].1@.len() < pieces[k
            + 1].0 + pieces[k + 1].1@.len() && pieces[k].0 + pieces[k].1@.len() <= pieces[k + 1].0
            + overlap);
    }
}

/// Heading state after reading pieces `0..=i`, starting from no headings.
pub open spec fn spec_headings_through(ps: Seq<(int, Seq<char>)>, i: int) -> HeadingsView
    decreases i + 1,
{
    if i < 0 {
        spec_no_headings()
    } else {
        spec_headings_of_text(spec_headings_through(ps, i - 1), ps[i].1)
    }
}

/// What one emitted chunk of a markdown document must hold: its position,
/// the piece's text, the document's metadata and title, a fresh 36-byte
/// identifier, and the heading state reached at the end of its piece.
pub open spec fn spec_document_chunk_ok(
    c: crate::models::ChunkView,
    ps: Seq<(int, Seq<char>)>,
    k: int,
    meta: MetadataView,
    source: Seq<char>,
) -> bool {
    &&& c.chunk_index == k
    &&& c.content == ps[k].1
    &&& c.metadata == meta
    &&& c.source_file == source
    &&& c.id.len() == 36
    &&& c.hierarchy_lvl1 == spec_headings_through(ps, k).lvl1
    &&& c.hierarchy_lvl2 == spec_headings_through(ps, k).lvl2
    &&& c.hierarchy_lvl3 == spec_headings_through(ps, k).lvl3
}

/// What one emitted chunk of plain text must hold: no hierarchy tags, a
/// synthetic metadata block naming the source, and the piece's text.
pub open spec fn spec_text_chunk_ok(
    c: crate::models::ChunkView,
    ps: Seq<(int, Seq<char>)>,
    k: int,
    source: Seq<char>,
) -> bool {
    &&& c.chunk_index == k
    &&& c.content == ps[k].1
    &&& c.source_file == source
    &&& c.id.len() == 36
    &&& c.hierarchy_lvl1 is None
    &&& c.hierarchy_lvl2 is None
    &&& c.hierarchy_lvl3 is None
    &&& c.metadata.title == Option::Some(source)
    &&& c.metadata.author is None
    &&& c.metadata.tags is None
    &&& c.metadata.document_type == Option::Some("text"@)
    &&& c.metadata.created_at is Some
    &&& c.metadata.updated_at is Some
}

/// The facts the splitter guarantees of its pieces for `text`, restated
/// of the named result: bounded size, slices of the text in order, and at
/// most `overlap` shared characters between neighbouring pieces.
pub open spec fn spec_pieces_ok(
    ps: Seq<(int, Seq<char>)>,
    text: Seq<char>,
    max_size: usize,
    overlap: usize,
) -> bool {
    &&& forall|k: int| 0 <= k < ps.len() ==> 1 <= (#[trigger] ps[k]).1.len() <= max_size
    &&& forall|k: int|
        0 <= k < ps.len() ==> 0 <= (#[trigger] ps[k]).0 && ps[k].0 + ps[k].1.len() <= text.len()
            && ps[k].1 == text.subrange(ps[k].0, ps[k].0 + ps[k].1.len())
    &&& forall|k: int|
        0 <= k < ps.len() - 1 ==> (#[trigger] ps[k]).0 <= ps[k + 1].0 && ps[k].0 + ps[k].1.len()
            < ps[k + 1].0 + ps[k + 1].1.len() && ps[k].0 + ps[k].1.len() <= ps[k + 1].0 + overlap
}

/// Splits text into chunks of at most `chunk_size` tokens, neighbouring
/// chunks sharing at most `chunk_overlap` tokens.
#[derive(Debug, Clone)]
pub struct DocumentChunker {
    pub chunk_size: usize,
    pub chunk_overlap: usize,
}

impl DocumentChunker {
    /// A chunker with the given bounds. The overlap must leave room for new
    /// text in every chunk, as the underlying splitter demands.
    pub fn new(chunk_size: usize, chunk_overlap: usize) -> (r: Self)
        requires
            chunk_overlap < chunk_size,
        ensures
            r.chunk_size == chunk_size,
            r.chunk_overlap == chunk_overlap,
    {
        DocumentChunker { chunk_size, chunk_overlap }
    }

    /// The default bounds: 512 tokens per chunk with an overlap of 50.
    pub fn default() -> (r: Self)
        ensures
            r.chunk_size == 512,
            r.chunk_overlap == 50,
    {
        Self::new(512, 50)
    }

    /// Chunks a markdown document: each piece the splitter returns becomes
    /// one chunk, numbered in order from 0, inheriting the document's
    /// metadata and tagged with the heading state reached at the end of its
    /// piece, carried across chunks in document order. Fails exactly when
    /// the splitter produces nothing for non-empty content.
    pub fn chunk_document(&self, document: &Document) -> (r: Result<Vec<DocumentChunk>, RagError>)
        requires
            self.chunk_overlap < self.chunk_size,
        ensures
            ({
                let ps = split_pieces_of(document.content@, self.chunk_size, self.chunk_overlap);
                &&& spec_pieces_ok(ps, document.content@, self.chunk_size, self.chunk_overlap)
                &&& (r is Err <==> (ps.len() == 0 && document.content@.len() > 0))
                &&& (r matches Result::Err(e) ==> e matches RagError::ChunkingFailed(m) && m@
                    == "splitter produced no output for non-empty content"@)
                &&& (r matches Result::Ok(cs) ==> cs@.len() == ps.len() && forall|k: int|
                    0 <= k < ps.len() ==> spec_document_chunk_ok(
                        (#[trigger] cs@[k])@,
                        ps,
                        k,
                        document.metadata@,
                        document.title@,
                    ))
                &&& ((exists|k: int|
                    0 <= k < document.content@.len() && is_ascii_graphic(
                        #[trigger] document.content@[k],
                    )) ==> r is Ok && ps.len() >= 1)
            }),
    {
        let pieces = split_text_pieces(
            document.content.as_str(),
            self.chunk_size,
            self.chunk_overlap,
        );
        let ghost ps = split_pieces_of(document.content@, self.chunk_size, self.chunk_overlap);
        proof {
            assert(ps == pieces_view(pieces@));
            lemma_pieces_transfer(
                pieces@,
                ps,
                document.content@,
                self.chunk_size,
                self.chunk_overlap,
            );
        }
        if pieces.len() == 0 {
            if document.content.as_str().unicode_len() > 0 {
                return Result::Err(
                    RagError::ChunkingFailed(
                        String::from_str("splitter produced no output for non-empty content"),
                    ),
                );
            } else {
                return Result::Ok(Vec::new());
            }
        }
        let mut chunks: Vec<DocumentChunk> = Vec::new();
        let mut ctx = HeadingContext::empty();
        let mut i: usize = 0;
        while i < pieces.len()
            invariant
                0 <= i <= pieces.len(),
                ps == pieces_view(pieces@),
                spec_pieces_ok(ps, document.content@, self.chunk_size, self.chunk_overlap),
                chunks@.len() == i,
                ctx@ == spec_headings_through(ps, i - 1),
                forall|k: int|
                    0 <= k < i ==> spec_document_chunk_ok(
                        (#[trigger] chunks@[k])@,
                        ps,
                        k,
                        document.metadata@,
                        document.title@,
                    ),
            decreases pieces.len() - i,
        {
            ctx = ctx.apply_text(pieces[i].1.as_str());
            proof {
                assert(pieces@[i as int].1@ == ps[i as int].1);
            }
            let chunk = DocumentChunk {
                id: generate_chunk_id(),
                content: pieces[i].1.clone(),
                metadata: document.metadata.clone(),
                hierarchy_lvl1: clone_opt_string(&ctx.lvl1),
                hierarchy_lvl2: clone_opt_string(&ctx.lvl2),
                hierarchy_lvl3: clone_opt_string(&ctx.lvl3),
                chunk_index: i,
                source_file: document.title.clone(),
            };
            chunks.push(chunk);
            proof {
                assert(spec_document_chunk_ok(
                    chunks@[i as int]@,
                    ps,
                    i as int,
                    document.metadata@,
                    document.title@,
                ));
            }
            i = i + 1;
        }
        Result::Ok(chunks)
    }

    /// Chunks plain text under a synthetic single-section document: no
    /// hierarchy tags, metadata naming `source` as title and `text` as the
    /// document type. Fails exactly when the splitter produces nothing for
    /// non-empty text.
    pub fn chunk_text(&self, text: &str, source: &str) -> (r: Result<Vec<DocumentChunk>, RagError>)
        requires
            self.chunk_overlap < self.chunk_size,
        ensures
            ({
                let ps = split_pieces_of(text@, self.chunk_size, self.chunk_overlap);
                &&& spec_pieces_ok(ps, text@, self.chunk_size, self.chunk_overlap)
                &&& (r is Err <==> (ps.len() == 0 && text@.len() > 0))
                &&& (r matches Result::Err(e) ==> e matches RagError::ChunkingFailed(m) && m@
                    == "splitter produced no output for non-empty content"@)
                &&& (r matches Result::Ok(cs) ==> cs@.len() == ps.len() && forall|k: int|
                    0 <= k < ps.len() ==> spec_text_chunk_ok((#[trigger] cs@[k])@, ps, k, source@))
                &&& ((exists|k: int|
                    0 <= k < text@.len() && is_ascii_graphic(#[trigger] text@[k])) ==> r is Ok
                    && ps.len() >= 1)
            }),
    {
        let pieces = split_text_pieces(text, self.chunk_size, self.chunk_overlap);
        let ghost ps = split_pieces_of(text@, self.chunk_size, self.chunk_overlap);
        proof {
            assert(ps == pieces_view(pieces@));
            lemma_pieces_transfer(pieces@, ps, text@, self.chunk_size, self.chunk_overlap);
        }
        if pieces.len() == 0 {
            if text.unicode_len() > 0 {
                return Result::Err(
                    RagError::ChunkingFailed(
                        String::from_str("splitter produced no output for non-empty content"),
                    ),
                );
            } else {
                return Result::Ok(Vec::new());
            }
        }
        let mut chunks: Vec<DocumentChunk> = Vec::new();
        let mut i: usize = 0;
        while i < pieces.len()
            invariant
                0 <= i <= pieces.len(),
                ps == pieces_view(pieces@),
                spec_pieces_ok(ps, text@, self.chunk_size, self.chunk_overlap),
                chunks@.len() == i,
                forall|k: int|
                    0 <= k < i ==> spec_text_chunk_ok((#[trigger] chunks@[k])@, ps, k, source@),
            decreases pieces.len() - i,
        {
            let metadata = DocumentMetadata {
                title: Option::Some(String::from_str(source)),
                author: Option::None,
                tags: Option::None,
                document_type: Option::Some(String::from_str("text")),
                created_at: Option::Some(now_rfc3339()),
                updated_at: Option::Some(now_rfc3339()),
            };
            let chunk = DocumentChunk {
                id: generate_chunk_id(),
                content: pieces[i].1.clone(),
                metadata,
                hierarchy_lvl1: Option::None,
                hierarchy_lvl2: Option::None,
                hierarchy_lvl3: Option::None,
                chunk_index: i,
                source_file: String::from_str(source),
            };
            chunks.push(chunk);
            proof {
                assert(pieces@[i as int].1@ == ps[i as int].1);
                assert(spec_text_chunk_ok(chunks@[i as int]@, ps, i as int, source@));
            }
            i = i + 1;
        }
        Result::Ok(chunks)
    }

    /// The first heading of exactly `level` number signs on a trimmed line
    /// of `content`; where the content holds no heading of that level, the
    /// level is absent.
    pub fn extract_hierarchy_level(&self, content: &str, level: usize) -> (r: Option<String>)
        requires
            1 <= level <= 3,
        ensures
            r.deep_view() == spec_first_heading_with_prefix(
                crate::text::spec_lines(content@),
                spec_level_prefix(level as int),
            ),
    {
        let prefix = level_prefix(level);
        let lines = split_lines(content);
        let ghost all = crate::text::spec_lines(content@);
        let mut i: usize = 0;
        proof {
            assert(all.skip(0) =~= all);
        }
        while i < lines.len()
            invariant
                0 <= i <= lines.len(),
                1 <= level <= 3,
                all == crate::text::spec_lines(content@),
                lines.deep_view() == all,
                prefix@ == spec_level_prefix(level as int),
                prefix@.len() == level + 1,
                spec_first_heading_with_prefix(all, prefix@) == spec_first_heading_with_prefix(
                    all.skip(i as int),
                    prefix@,
                ),
            decreases lines.len() - i,
        {
            let ghost rest = all.skip(i as int);
            let t = trim_str(lines[i].as_str());
            let n: usize = t.unicode_len();
            if starts_with_str(t, prefix.as_str()) {
                let txt = String::from_str(t.substring_char(level + 1, n));
                proof {
                    assert(rest[0] == all[i as int]);
                    assert(lines@[i as int]@ == all[i as int]);
                    assert(t@ == spec_trim(rest[0]));
                    assert(t@.subrange((level + 1) as int, n as int) =~= spec_trim(rest[0]).skip(
                        prefix@.len() as int,
                    ));
                    assert(spec_first_heading_with_prefix(rest, prefix@) == Option::Some(
                        spec_trim(rest[0]).skip(prefix@.len() as int),
                    ));
                    assert(txt@ == spec_trim(rest[0]).skip(prefix@.len() as int));
                    assert(spec_first_heading_with_prefix(all, spec_level_prefix(level as int))
                        == Option::Some(txt@));
                }
                return Option::Some(txt);
            }
            proof {
                assert(rest[0] == all[i as int]);
                assert(rest.drop_first() =~= all.skip(i + 1));
            }
            i = i + 1;
        }
        proof {
            assert(all.skip(lines.deep_view().len() as int) =~= Seq::<Seq<char>>::empty());
        }
        Option::None
    }
}

/// The marker that opens a heading of the given level: that many number
/// signs and a space.
pub open spec fn spec_level_prefix(level: int) -> Seq<char> {
    Seq::new(level as nat, |i: int| '#') + seq![' ']
}

/// The executable marker for a heading level.
fn level_prefix(level: usize) -> (p: String)
    requires
        level < usize::MAX,
    ensures
        p@ == spec_level_prefix(level as int),
        p@.len() == level + 1,
{
    proof {
        reveal_strlit("#");
        reveal_strlit(" ");
    }
    let mut p = String::new();
    let mut i: usize = 0;
    while i < level
        invariant
            0 <= i <= level,
            p@ =~= Seq::new(i as nat, |k: int| '#'),
        decreases level - i,
    {
        p.append("#");
        proof {
            reveal_strlit("#");
            assert(p@ =~= Seq::new((i + 1) as nat, |k: int| '#'));
        }
        i = i + 1;
    }
    p.append(" ");
    proof {
        assert(p@ =~= spec_level_prefix(level as int));
    }
    p
}

} // verus!
