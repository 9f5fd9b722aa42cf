//! Assembling the textual context handed to the generation step: one block
//! per retrieved chunk, numbered from 1 in the order the search engine
//! ranked them — the number is the citation key the answer refers to — and
//! the catalogue view that groups indexed chunks into documents.

use vstd::prelude::*;
use vstd::string::*;
use crate::models::{DocumentInfo, DocumentInfoView, SearchResult, SearchResultView};
use crate::text::{spec_decimal, str_eq, u64_to_string, usize_to_string};

verus! {

/// A relevance score in thousandths, rendered with three decimals.
pub open spec fn spec_score_string(milli: int) -> Seq<char> {
    if milli < 0 {
        seq!['-'] + spec_magnitude_string(-milli)
    } else {
        spec_magnitude_string(milli)
    }
}

/// A non-negative count of thousandths as `<integer>.<three digits>`.
pub open spec fn spec_magnitude_string(m: int) -> Seq<char> {
    spec_decimal(m / 1000) + seq!['.'] + spec_frac3(m % 1000)
}

/// Three digits, zero-padded on the left.
pub open spec fn spec_frac3(f: int) -> Seq<char> {
    if f < 10 {
        "00"@ + spec_decimal(f)
    } else if f < 100 {
        "0"@ + spec_decimal(f)
    } else {
        spec_decimal(f)
    }
}

/// Executable form of [`spec_score_string`].
pub fn format_score(milli: i64) -> (r: String)
    requires
        milli != i64::MIN,
    ensures
        r@ == spec_score_string(milli as int),
{
    proof {
        reveal_strlit("-");
        reveal_strlit(".");
        reveal_strlit("00");
        reveal_strlit("0");
        reveal_strlit("");
    }
    let magnitude: u64 = if milli < 0 {
        (-milli) as u64
    } else {
        milli as u64
    };
    let whole: u64 = magnitude / 1000;
    let frac: u64 = magnitude % 1000;
    let mut out = if milli < 0 {
        String::from_str("-")
    } else {
        String::from_str("")
    };
    out.append(u64_to_string(whole).as_str());
    out.append(".");
    if frac < 10 {
        out.append("00");
    } else if frac < 100 {
        out.append("0");
    }
    out.append(u64_to_string(frac).as_str());
    proof {
        assert(out@ =~= spec_score_string(milli as int));
    }
    out
}

/// One context block: the bracketed source number — the citation key — the
/// hierarchy lines that exist, the chunk's content and its score, closed
/// by a separator rule.
pub open spec fn spec_context_block(r: SearchResultView, k: int) -> Seq<char> {
    "[Source "@ + spec_decimal(k) + ": "@ + r.source_file + "]\n"@ + (match r.hierarchy_lvl1 {
        Option::Some(h) => "Section: "@ + h + "\n"@,
        Option::None => Seq::empty(),
    }) + (match r.hierarchy_lvl2 {
        Option::Some(h) => "Subsection: "@ + h + "\n"@,
        Option::None => Seq::empty(),
    }) + (match r.hierarchy_lvl3 {
        Option::Some(h) => "Sub-subsection: "@ + h + "\n"@,
        Option::None => Seq::empty(),
    }) + "Content: "@ + r.content + "\n"@ + "Relevance Score: "@ + spec_score_string(
        r.score_milli,
    ) + "\n"@ + "\n---\n\n"@
}

/// The blocks for `rs`, numbered from `k` upward.
pub open spec fn spec_context_from(rs: Seq<SearchResultView>, k: int) -> Seq<char>
    decreases rs.len(),
{
    if rs.len() == 0 {
        Seq::empty()
    } else {
        spec_context_block(rs[0], k) + spec_context_from(rs.drop_first(), k + 1)
    }
}

/// The whole context: blocks numbered from 1 in ranked order.
pub open spec fn spec_build_context(rs: Seq<SearchResultView>) -> Seq<char> {
    spec_context_from(rs, 1)
}

/// The views of a result list.
pub open spec fn spec_results(rs: Seq<SearchResult>) -> Seq<SearchResultView> {
    Seq::new(rs.len(), |i: int| rs[i]@)
}

/// The context block for one result under citation number `k`.
fn context_block(r: &SearchResult, k: usize) -> (b: String)
    requires
        r.score_milli != i64::MIN,
    ensures
        b@ == spec_context_block(r@, k as int),
{
    proof {
        reveal_strlit("[Source ");
        reveal_strlit(": ");
        reveal_strlit("]\n");
        reveal_strlit("Section: ");
        reveal_strlit("Subsection: ");
        reveal_strlit("Sub-subsection: ");
        reveal_strlit("Content: ");
        reveal_strlit("Relevance Score: ");
        reveal_strlit("\n");
        reveal_strlit("\n---\n\n");
    }
    let mut out = String::from_str("[Source ");
    out.append(usize_to_string(k).as_str());
    out.append(": ");
    out.append(r.source_file.as_str());
    out.append("]\n");
    if let Option::Some(h) = &r.hierarchy_lvl1 {
        out.append("Section: ");
        out.append(h.as_str());
        out.append("\n");
    }
    if let Option::Some(h) = &r.hierarchy_lvl2 {
        out.append("Subsection: ");
        out.append(h.as_str());
        out.append("\n");
    }
    if let Option::Some(h) = &r.hierarchy_lvl3 {
        out.append("Sub-subsection: ");
        out.append(h.as_str());
        out.append("\n");
    }
    out.append("Content: ");
    out.append(r.content.as_str());
    out.append("\n");
    out.append("Relevance Score: ");
    out.append(format_score(r.score_milli).as_str());
    out.append("\n");
    out.append("\n---\n\n");
    proof {
        assert(out@ =~= spec_context_block(r@, k as int));
    }
    out
}

/// The assembled context for a ranked result list: one block per result,
/// numbered from 1 in the given order.
pub fn build_context(results: &Vec<SearchResult>) -> (r: String)
    requires
        forall|i: int|
            0 <= i < results@.len() ==> (#[trigger] results@[i]).score_milli != i64::MIN,
    ensures
        r@ == spec_build_context(spec_results(results@)),
{
    let ghost views = spec_results(results@);
    let mut out = String::new();
    let mut i: usize = 0;
    proof {
        assert(views.skip(0) =~= views);
        assert(out@ + spec_context_from(views, 1) =~= spec_context_from(views, 1));
    }
    while i < results.len()
        invariant
            0 <= i <= results@.len(),
            views == spec_results(results@),
            forall|j: int|
                0 <= j < results@.len() ==> (#[trigger] results@[j]).score_milli != i64::MIN,
            spec_context_from(views, 1) == out@ + spec_context_from(
                views.skip(i as int),
                i + 1,
            ),
        decreases results@.len() - i,
    {
        let ghost rest = views.skip(i as int);
        let block = context_block(&results[i], i + 1);
        out.append(block.as_str());
        proof {
            assert(rest[0] == views[i as int]);
            assert(rest.drop_first() =~= views.skip(i + 1));
        }
        i = i + 1;
    }
    proof {
        assert(views.skip(results@.len() as int) =~= Seq::<SearchResultView>::empty());
    }
    out
}

/// Index of the catalogue entry for a document id.
pub open spec fn spec_find_info(acc: Seq<DocumentInfoView>, id: Seq<char>) -> Option<int>
    decreases acc.len(),
{
    if acc.len() == 0 {
        Option::None
    } else if acc[0].id == id {
        Option::Some(0int)
    } else {
        match spec_find_info(acc.drop_first(), id) {
            Option::Some(j) => Option::Some(j + 1),
            Option::None => Option::None,
        }
    }
}

/// The catalogue after taking one more indexed chunk into account: a chunk
/// of a known document raises that document's count; a chunk of a new one
/// opens an entry named by its source file, titled by its metadata title
/// where one exists.
pub open spec fn spec_add_row(acc: Seq<DocumentInfoView>, row: SearchResultView) -> Seq<
    DocumentInfoView,
> {
    match spec_find_info(acc, row.source_file) {
        Option::Some(j) => acc.update(
            j,
            DocumentInfoView {
                id: acc[j].id,
                title: acc[j].title,
                status: acc[j].status,
                created_at: acc[j].created_at,
                chunk_count: acc[j].chunk_count + 1,
            },
        ),
        Option::None => acc.push(
            DocumentInfoView {
                id: row.source_file,
                title: match row.metadata.title {
                    Option::Some(t) => t,
                    Option::None => row.source_file,
                },
                status: "indexed"@,
                created_at: match row.metadata.created_at {
                    Option::Some(c) => c,
                    Option::None => ""@,
                },
                chunk_count: 1,
            },
        ),
    }
}

/// The catalogue for a list of indexed chunks, in first-appearance order.
pub open spec fn spec_summarize(acc: Seq<DocumentInfoView>, rows: Seq<SearchResultView>) -> Seq<
    DocumentInfoView,
>
    decreases rows.len(),
{
    if rows.len() == 0 {
        acc
    } else {
        spec_summarize(spec_add_row(acc, rows[0]), rows.drop_first())
    }
}

/// Groups indexed chunks into one catalogue entry per document, counting
/// each document's chunks, in the order documents first appear.
pub fn summarize_documents(rows: &Vec<SearchResult>) -> (r: Vec<DocumentInfo>)
    ensures
        Seq::new(r@.len(), |i: int| r@[i]@) == spec_summarize(Seq::empty(), spec_results(rows@)),
{
    proof {
        reveal_strlit("indexed");
        reveal_strlit("");
    }
    let ghost views = spec_results(rows@);
    let mut acc: Vec<DocumentInfo> = Vec::new();
    let mut i: usize = 0;
    proof {
        assert(views.skip(0) =~= views);
        assert(Seq::new(acc@.len(), |j: int| acc@[j]@) =~= Seq::<DocumentInfoView>::empty());
    }
    while i < rows.len()
        invariant
            0 <= i <= rows@.len(),
            views == spec_results(rows@),
            spec_summarize(Seq::empty(), views) == spec_summarize(
                Seq::new(acc@.len(), |j: int| acc@[j]@),
                views.skip(i as int),
            ),
            forall|j: int| 0 <= j < acc@.len() ==> (#[trigger] acc@[j]).chunk_count <= i,
        decreases rows@.len() - i,
    {
        let ghost rest = views.skip(i as int);
        let ghost accv = Seq::new(acc@.len(), |j: int| acc@[j]@);
        let row = &rows[i];
        let found = find_info_index(&acc, row.source_file.as_str());
        match found {
            Option::Some(j) => {
                let bumped = DocumentInfo {
                    id: acc[j].id.clone(),
                    title: acc[j].title.clone(),
                    status: acc[j].status.clone(),
                    created_at: acc[j].created_at.clone(),
                    chunk_count: acc[j].chunk_count + 1,
                };
                acc.set(j, bumped);
                proof {
                    assert(Seq::new(acc@.len(), |m: int| acc@[m]@) =~= spec_add_row(
                        accv,
                        rest[0],
                    ));
                }
            },
            Option::None => {
                let entry = DocumentInfo {
                    id: row.source_file.clone(),
                    title: match &row.metadata.title {
                        Option::Some(t) => t.clone(),
                        Option::None => row.source_file.clone(),
                    },
                    status: String::from_str("indexed"),
                    created_at: match &row.metadata.created_at {
                        Option::Some(c) => c.clone(),
                        Option::None => String::from_str(""),
                    },
                    chunk_count: 1,
                };
                acc.push(entry);
                proof {
                    assert(Seq::new(acc@.len(), |m: int| acc@[m]@) =~= spec_add_row(
                        accv,
                        rest[0],
                    ));
                }
            },
        }
        proof {
            assert(rest[0] == views[i as int]);
            assert(rest.drop_first() =~= views.skip(i + 1));
        }
        i = i + 1;
    }
    proof {
        assert(views.skip(rows@.len() as int) =~= Seq::<SearchResultView>::empty());
    }
    acc
}

/// Index of the catalogue entry whose id is `id`, mirroring
/// [`spec_find_info`].
fn find_info_index(acc: &Vec<DocumentInfo>, id: &str) -> (r: Option<usize>)
    ensures
        match r {
            Option::Some(j) => j < acc@.len() && spec_find_info(
                Seq::new(acc@.len(), |m: int| acc@[m]@),
                id@,
            ) == Option::Some(j as int),
            Option::None => spec_find_info(Seq::new(acc@.len(), |m: int| acc@[m]@), id@) is None,
        },
{
    let ghost accv = Seq::new(acc@.len(), |m: int| acc@[m]@);
    let n: usize = acc.len();
    let mut j: usize = 0;
    while j < n
        invariant
            0 <= j <= n,
            n == acc@.len(),
            accv == Seq::new(acc@.len(), |m: int| acc@[m]@),
            forall|k: int| 0 <= k < j ==> (#[trigger] accv[k]).id != id@,
        decreases n - j,
    {
        if str_eq(acc[j].id.as_str(), id) {
            proof {
                lemma_find_info_unique(accv, id@, j as int);
            }
            return Option::Some(j);
        }
        j = j + 1;
    }
    proof {
        lemma_find_info_none(accv, id@);
    }
    Option::None
}

proof fn lemma_find_info_unique(acc: Seq<DocumentInfoView>, id: Seq<char>, k: int)
    requires
        0 <= k < acc.len(),
        acc[k].id == id,
        forall|j: int| 0 <= j < k ==> (#[trigger] acc[j]).id != id,
    ensures
        spec_find_info(acc, id) == Option::Some(k),
    decreases acc.len(),
{
    if k > 0 {
        lemma_find_info_unique(acc.drop_first(), id, k - 1);
    }
}

proof fn lemma_find_info_none(acc: Seq<DocumentInfoView>, id: Seq<char>)
    requires
        forall|j: int| 0 <= j < acc.len() ==> (#[trigger] acc[j]).id != id,
    ensures
        spec_find_info(acc, id) is None,
    decreases acc.len(),
{
    if acc.len() > 0 {
        lemma_find_info_none(acc.drop_first(), id);
    }
}

} // verus!
