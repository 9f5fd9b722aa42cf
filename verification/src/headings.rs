//! Heading hierarchy of a markdown text. A heading line sets the state at
//! its level and clears every deeper level; the state is carried forward
//! line by line across the whole document, so a chunk taken from anywhere
//! in the text can be tagged with the nearest enclosing headings.

use vstd::prelude::*;
use vstd::string::*;
use crate::text::{
    spec_lines, spec_starts_with, spec_trim, split_lines, starts_with_str, trim_str,
};

verus! {

/// Mathematical image of [`HeadingContext`].
#[verifier::ext_equal]
pub ghost struct HeadingsView {
    pub lvl1: Option<Seq<char>>,
    pub lvl2: Option<Seq<char>>,
    pub lvl3: Option<Seq<char>>,
}

/// The state with no heading seen at any level.
pub open spec fn spec_no_headings() -> HeadingsView {
    HeadingsView { lvl1: Option::None, lvl2: Option::None, lvl3: Option::None }
}

/// The heading a single line declares: its level and its text, or nothing.
/// The line is trimmed first; the text is everything after the marker.
pub open spec fn spec_line_heading(line: Seq<char>) -> Option<(int, Seq<char>)> {
    let t = spec_trim(line);
    if spec_starts_with(t, "# "@) {
        Option::Some((1int, t.skip(2)))
    } else if spec_starts_with(t, "## "@) {
        Option::Some((2int, t.skip(3)))
    } else if spec_starts_with(t, "### "@) {
        Option::Some((3int, t.skip(4)))
    } else {
        Option::None
    }
}

/// Heading state after reading one more line.
pub open spec fn spec_apply_heading(h: HeadingsView, line: Seq<char>) -> HeadingsView {
    match spec_line_heading(line) {
        Option::None => h,
        Option::Some((level, txt)) => {
            if level == 1 {
                HeadingsView { lvl1: Option::Some(txt), lvl2: Option::None, lvl3: Option::None }
            } else if level == 2 {
                HeadingsView { lvl1: h.lvl1, lvl2: Option::Some(txt), lvl3: Option::None }
            } else {
                HeadingsView { lvl1: h.lvl1, lvl2: h.lvl2, lvl3: Option::Some(txt) }
            }
        },
    }
}

/// Heading state after reading a sequence of lines.
pub open spec fn spec_advance_headings(h: HeadingsView, lines: Seq<Seq<char>>) -> HeadingsView
    decreases lines.len(),
{
    if lines.len() == 0 {
        h
    } else {
        spec_advance_headings(spec_apply_heading(h, lines[0]), lines.drop_first())
    }
}

/// Heading state after reading a whole text.
pub open spec fn spec_headings_of_text(h: HeadingsView, s: Seq<char>) -> HeadingsView {
    spec_advance_headings(h, spec_lines(s))
}

/// `acc` with `x` appended unless it is already there.
pub open spec fn spec_insert_new(acc: Seq<Seq<char>>, x: Seq<char>) -> Seq<Seq<char>> {
    if acc.contains(x) {
        acc
    } else {
        acc.push(x)
    }
}

/// One line's contribution to the catalogue of headings: the new heading
/// state, and the catalogue extended by every heading that is now active
/// with its full ancestor chain.
pub open spec fn spec_collect_line(h: HeadingsView, acc: Seq<Seq<char>>, line: Seq<char>) -> (
    HeadingsView,
    Seq<Seq<char>>,
) {
    let h2 = spec_apply_heading(h, line);
    let a1 = if h2.lvl1 is Some {
        spec_insert_new(acc, h2.lvl1->0)
    } else {
        acc
    };
    let a2 = if h2.lvl1 is Some && h2.lvl2 is Some {
        spec_insert_new(a1, h2.lvl2->0)
    } else {
        a1
    };
    let a3 = if h2.lvl1 is Some && h2.lvl2 is Some && h2.lvl3 is Some {
        spec_insert_new(a2, h2.lvl3->0)
    } else {
        a2
    };
    (h2, a3)
}

/// The heading state and catalogue after scanning a sequence of lines.
pub open spec fn spec_collect_headings(
    h: HeadingsView,
    acc: Seq<Seq<char>>,
    lines: Seq<Seq<char>>,
) -> (HeadingsView, Seq<Seq<char>>)
    decreases lines.len(),
{
    if lines.len() == 0 {
        (h, acc)
    } else {
        let st = spec_collect_line(h, acc, lines[0]);
        spec_collect_headings(st.0, st.1, lines.drop_first())
    }
}

/// First heading text among `lines` whose trimmed form starts with
/// `prefix`.
pub open spec fn spec_first_heading_with_prefix(lines: Seq<Seq<char>>, prefix: Seq<char>) -> Option<
    Seq<char>,
>
    decreases lines.len(),
{
    if lines.len() == 0 {
        Option::None
    } else {
        let t = spec_trim(lines[0]);
        if spec_starts_with(t, prefix) {
            Option::Some(t.skip(prefix.len() as int))
        } else {
            spec_first_heading_with_prefix(lines.drop_first(), prefix)
        }
    }
}

/// Carried heading state: the text of the nearest enclosing heading at each
/// of the three levels tracked.
#[derive(Debug, Clone)]
pub struct HeadingContext {
    pub lvl1: Option<String>,
    pub lvl2: Option<String>,
    pub lvl3: Option<String>,
}

impl View for HeadingContext {
    type V = HeadingsView;

    open spec fn view(&self) -> HeadingsView {
        HeadingsView {
            lvl1: self.lvl1.deep_view(),
            lvl2: self.lvl2.deep_view(),
            lvl3: self.lvl3.deep_view(),
        }
    }
}

impl HeadingContext {
    /// The state with no heading seen at any level.
    pub fn empty() -> (h: Self)
        ensures
            h@ == spec_no_headings(),
    {
        let h = HeadingContext { lvl1: Option::None, lvl2: Option::None, lvl3: Option::None };
        proof {
            assert(h@ =~= spec_no_headings());
        }
        h
    }

    /// The state after reading one more line.
    pub fn apply_line(self, line: &str) -> (h: Self)
        ensures
            h@ == spec_apply_heading(self@, line@),
    {
        proof {
            reveal_strlit("# ");
            reveal_strlit("## ");
            reveal_strlit("### ");
        }
        let t = trim_str(line);
        let n: usize = t.unicode_len();
        if starts_with_str(t, "# ") {
            let txt = String::from_str(t.substring_char(2, n));
            let h = HeadingContext {
                lvl1: Option::Some(txt),
                lvl2: Option::None,
                lvl3: Option::None,
            };
            proof {
                assert(t@.subrange(2, n as int) =~= spec_trim(line@).skip(2));
                assert(h@ =~= spec_apply_heading(self@, line@));
            }
            h
        } else if starts_with_str(t, "## ") {
            let txt = String::from_str(t.substring_char(3, n));
            let h = HeadingContext { lvl1: self.lvl1, lvl2: Option::Some(txt), lvl3: Option::None };
            proof {
                assert(t@.subrange(3, n as int) =~= spec_trim(line@).skip(3));
                assert(h@ =~= spec_apply_heading(self@, line@));
            }
            h
        } else if starts_with_str(t, "### ") {
            let txt = String::from_str(t.substring_char(4, n));
            let h = HeadingContext { lvl1: self.lvl1, lvl2: self.lvl2, lvl3: Option::Some(txt) };
            proof {
                assert(t@.subrange(4, n as int) =~= spec_trim(line@).skip(4));
                assert(h@ =~= spec_apply_heading(self@, line@));
            }
            h
        } else {
            self
        }
    }

    /// The state after reading a whole text, line by line.
    pub fn apply_text(self, text: &str) -> (h: Self)
        ensures
            h@ == spec_headings_of_text(self@, text@),
    {
        let lines = split_lines(text);
        let ghost all = spec_lines(text@);
        let ghost start = self@;
        let mut cur = self;
        let mut i: usize = 0;
        proof {
            assert(all.skip(0) =~= all);
        }
        while i < lines.len()
            invariant
                0 <= i <= lines.len(),
                lines.deep_view() == all,
                spec_advance_headings(start, all) == spec_advance_headings(
                    cur@,
                    all.skip(i as int),
                ),
            decreases lines.len() - i,
        {
            let ghost rest = all.skip(i as int);
            cur = cur.apply_line(lines[i].as_str());
            proof {
                assert(rest[0] == all[i as int]);
                assert(rest.drop_first() =~= all.skip(i + 1));
            }
            i = i + 1;
        }
        proof {
            assert(all.skip(lines.deep_view().len() as int) =~= Seq::<Seq<char>>::empty());
        }
        cur
    }
}

} // verus!
