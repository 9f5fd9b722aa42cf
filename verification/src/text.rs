//! Verified string primitives: trimming, line splitting, searching,
//! replacement and decimal formatting. Everything is specified over
//! character sequences.

use vstd::prelude::*;
use vstd::string::*;

verus! {

/// The whitespace characters this crate trims and strips.
pub open spec fn is_space(c: char) -> bool {
    c == ' ' || c == '\t' || c == '\r' || c == '\n'
}

/// Executable twin of [`is_space`].
#[verifier::when_used_as_spec(is_space)]
pub fn is_space_char(c: char) -> (b: bool)
    ensures
        b == is_space(c),
{
    c == ' ' || c == '\t' || c == '\r' || c == '\n'
}

/// `s` without its leading whitespace.
pub open spec fn spec_trim_start(s: Seq<char>) -> Seq<char>
    decreases s.len(),
{
    if s.len() > 0 && is_space(s[0]) {
        spec_trim_start(s.drop_first())
    } else {
        s
    }
}

/// `s` without its trailing whitespace.
pub open spec fn spec_trim_end(s: Seq<char>) -> Seq<char>
    decreases s.len(),
{
    if s.len() > 0 && is_space(s.last()) {
        spec_trim_end(s.drop_last())
    } else {
        s
    }
}

/// `s` without leading and trailing whitespace.
pub open spec fn spec_trim(s: Seq<char>) -> Seq<char> {
    spec_trim_end(spec_trim_start(s))
}

proof fn lemma_trim_start_skip(s: Seq<char>, i: int)
    requires
        0 <= i <= s.len(),
        forall|k: int| 0 <= k < i ==> is_space(#[trigger] s[k]),
    ensures
        spec_trim_start(s) == spec_trim_start(s.subrange(i, s.len() as int)),
    decreases i,
{
    if i > 0 {
        assert(s.drop_first() =~= s.subrange(1, s.len() as int));
        lemma_trim_start_skip(s.drop_first(), i - 1);
        assert(s.drop_first().subrange(i - 1, s.drop_first().len() as int) =~= s.subrange(
            i,
            s.len() as int,
        ));
    } else {
        assert(s.subrange(0, s.len() as int) =~= s);
    }
}

proof fn lemma_trim_end_keep(s: Seq<char>, j: int)
    requires
        0 <= j <= s.len(),
        forall|k: int| j <= k < s.len() ==> is_space(#[trigger] s[k]),
        j > 0 ==> !is_space(s[j - 1]),
    ensures
        spec_trim_end(s) == s.subrange(0, j),
    decreases s.len() - j,
{
    if j == s.len() {
        if s.len() > 0 && is_space(s.last()) {
            lemma_trim_end_keep(s.drop_last(), j - 1);
            assert(j - 1 == s.drop_last().len());
            assert(s.drop_last().subrange(0, j - 1) =~= s.subrange(0, j - 1));
            assert(false);
        } else {
            assert(s.subrange(0, j) =~= s);
        }
    } else {
        assert(is_space(s.last()));
        lemma_trim_end_keep(s.drop_last(), j);
        assert(s.drop_last().subrange(0, j) =~= s.subrange(0, j));
    }
}

/// Whitespace-trimmed view of `s`, as a borrowed slice.
pub fn trim_str(s: &str) -> (r: &str)
    ensures
        r@ == spec_trim(s@),
{
    let n: usize = s.unicode_len();
    let mut i: usize = 0;
    while i < n && is_space_char(s.get_char(i))
        invariant
            0 <= i <= n,
            n == s@.len(),
            forall|k: int| 0 <= k < i ==> is_space(#[trigger] s@[k]),
        decreases n - i,
    {
        i = i + 1;
    }
    let mut j: usize = n;
    while j > i && is_space_char(s.get_char(j - 1))
        invariant
            i <= j <= n,
            n == s@.len(),
            forall|k: int| j <= k < n ==> is_space(#[trigger] s@[k]),
        decreases j,
    {
        j = j - 1;
    }
    let r = s.substring_char(i, j);
    proof {
        lemma_trim_start_skip(s@, i as int);
        let t = s@.subrange(i as int, n as int);
        if i < n {
            assert(!is_space(t[0]));
        }
        assert(spec_trim_start(t) == t);
        lemma_trim_end_keep(t, j - i);
        assert(t.subrange(0, j - i) =~= s@.subrange(i as int, j as int));
    }
    r
}

/// `pat` occurs in `s` at position `i`.
pub open spec fn spec_match_at(s: Seq<char>, pat: Seq<char>, i: int) -> bool {
    0 <= i && i + pat.len() <= s.len() && s.subrange(i, i + pat.len() as int) == pat
}

/// Executable test for [`spec_match_at`].
pub fn match_at(s: &str, pat: &str, i: usize) -> (b: bool)
    ensures
        b == spec_match_at(s@, pat@, i as int),
{
    let n: usize = s.unicode_len();
    let m: usize = pat.unicode_len();
    if m > n || i > n - m {
        proof {
            assert(!spec_match_at(s@, pat@, i as int));
        }
        return false;
    }
    let mut k: usize = 0;
    while k < m
        invariant
            0 <= k <= m,
            i + m <= n,
            n == s@.len(),
            m == pat@.len(),
            forall|t: int| 0 <= t < k ==> s@[i + t] == #[trigger] pat@[t],
        decreases m - k,
    {
        if s.get_char(i + k) != pat.get_char(k) {
            proof {
                assert(s@.subrange(i as int, i + m) != pat@) by {
                    assert(s@.subrange(i as int, i + m)[k as int] == s@[i + k]);
                }
            }
            return false;
        }
        k = k + 1;
    }
    proof {
        assert(s@.subrange(i as int, i + m) =~= pat@);
    }
    true
}

/// First position at which `pat` occurs in `s`, if any.
pub fn find_str(s: &str, pat: &str) -> (r: Option<usize>)
    requires
        pat@.len() >= 1,
    ensures
        match r {
            Option::Some(i) => spec_match_at(s@, pat@, i as int) && forall|j: int|
                0 <= j < i ==> !spec_match_at(s@, pat@, j),
            Option::None => forall|j: int| !spec_match_at(s@, pat@, j),
        },
{
    let n: usize = s.unicode_len();
    let m: usize = pat.unicode_len();
    if m > n {
        return Option::None;
    }
    let mut i: usize = 0;
    while i <= n - m
        invariant
            1 <= m <= n,
            n == s@.len(),
            m == pat@.len(),
            0 <= i <= n - m + 1,
            forall|j: int| 0 <= j < i ==> !spec_match_at(s@, pat@, j),
        decreases n + 1 - m - i,
    {
        if match_at(s, pat, i) {
            return Option::Some(i);
        }
        i = i + 1;
    }
    proof {
        assert(forall|j: int| j > n - m ==> !spec_match_at(s@, pat@, j));
    }
    Option::None
}

/// First position at or after `i` at which a non-empty `pat` occurs in
/// `s`, if any.
pub open spec fn spec_find_from(s: Seq<char>, pat: Seq<char>, i: int) -> Option<int>
    decreases s.len() - i,
{
    if i < 0 || pat.len() == 0 || i + pat.len() > s.len() {
        Option::None
    } else if spec_match_at(s, pat, i) {
        Option::Some(i)
    } else {
        spec_find_from(s, pat, i + 1)
    }
}

/// A position that matches, with none before it from the start, is what
/// [`spec_find_from`] returns.
pub proof fn lemma_find_from_some(s: Seq<char>, pat: Seq<char>, i0: int, k: int)
    requires
        pat.len() >= 1,
        0 <= i0 <= k,
        spec_match_at(s, pat, k),
        forall|j: int| i0 <= j < k ==> !spec_match_at(s, pat, j),
    ensures
        spec_find_from(s, pat, i0) == Option::Some(k),
    decreases k - i0,
{
    if i0 < k {
        lemma_find_from_some(s, pat, i0 + 1, k);
    }
}

/// With no matching position at or after the start, [`spec_find_from`]
/// returns nothing.
pub proof fn lemma_find_from_none(s: Seq<char>, pat: Seq<char>, i0: int)
    requires
        pat.len() >= 1,
        0 <= i0,
        forall|j: int| i0 <= j ==> !spec_match_at(s, pat, j),
    ensures
        spec_find_from(s, pat, i0) is None,
    decreases s.len() - i0,
{
    if i0 + pat.len() <= s.len() {
        lemma_find_from_none(s, pat, i0 + 1);
    }
}

/// Executable form of [`spec_find_from`].
pub fn find_str_from(s: &str, pat: &str, start: usize) -> (r: Option<usize>)
    requires
        pat@.len() >= 1,
    ensures
        match r {
            Option::Some(i) => i >= start && spec_match_at(s@, pat@, i as int) && spec_find_from(
                s@,
                pat@,
                start as int,
            ) == Option::Some(i as int),
            Option::None => spec_find_from(s@, pat@, start as int) is None,
        },
{
    let n: usize = s.unicode_len();
    let m: usize = pat.unicode_len();
    if m > n || start > n - m {
        proof {
            lemma_find_from_none(s@, pat@, start as int);
        }
        return Option::None;
    }
    let mut i: usize = start;
    while i <= n - m
        invariant
            1 <= m <= n,
            n == s@.len(),
            m == pat@.len(),
            start <= i <= n - m + 1,
            forall|j: int| start <= j < i ==> !spec_match_at(s@, pat@, j),
        decreases n + 1 - m - i,
    {
        if match_at(s, pat, i) {
            proof {
                lemma_find_from_some(s@, pat@, start as int, i as int);
            }
            return Option::Some(i);
        }
        i = i + 1;
    }
    proof {
        assert(forall|j: int| j > n - m ==> !spec_match_at(s@, pat@, j));
        lemma_find_from_none(s@, pat@, start as int);
    }
    Option::None
}

/// `s` begins with `pat`.
pub open spec fn spec_starts_with(s: Seq<char>, pat: Seq<char>) -> bool {
    spec_match_at(s, pat, 0)
}

/// Executable test for [`spec_starts_with`].
pub fn starts_with_str(s: &str, pat: &str) -> (b: bool)
    ensures
        b == spec_starts_with(s@, pat@),
{
    match_at(s, pat, 0)
}

/// `s` ends with `pat`.
pub open spec fn spec_ends_with(s: Seq<char>, pat: Seq<char>) -> bool {
    spec_match_at(s, pat, s.len() - pat.len())
}

/// Executable test for [`spec_ends_with`].
pub fn ends_with_str(s: &str, pat: &str) -> (b: bool)
    ensures
        b == spec_ends_with(s@, pat@),
{
    let n: usize = s.unicode_len();
    let m: usize = pat.unicode_len();
    if m > n {
        return false;
    }
    match_at(s, pat, n - m)
}

/// Some character of `s` is `c`.
pub open spec fn spec_contains_char(s: Seq<char>, c: char) -> bool {
    exists|k: int| 0 <= k < s.len() && s[k] == c
}

/// Executable test for [`spec_contains_char`].
pub fn contains_char(s: &str, c: char) -> (b: bool)
    ensures
        b == spec_contains_char(s@, c),
{
    let n: usize = s.unicode_len();
    let mut i: usize = 0;
    while i < n
        invariant
            0 <= i <= n,
            n == s@.len(),
            forall|k: int| 0 <= k < i ==> s@[k] != c,
        decreases n - i,
    {
        if s.get_char(i) == c {
            return true;
        }
        i = i + 1;
    }
    false
}

/// Character-wise equality of two string slices.
pub fn str_eq(a: &str, b: &str) -> (r: bool)
    ensures
        r == (a@ == b@),
{
    let n: usize = a.unicode_len();
    let m: usize = b.unicode_len();
    if n != m {
        return false;
    }
    let mut i: usize = 0;
    while i < n
        invariant
            0 <= i <= n,
            n == a@.len(),
            n == b@.len(),
            forall|k: int| 0 <= k < i ==> a@[k] == b@[k],
        decreases n - i,
    {
        if a.get_char(i) != b.get_char(i) {
            proof {
                assert(a@ != b@) by {
                    assert(a@[i as int] != b@[i as int]);
                }
            }
            return false;
        }
        i = i + 1;
    }
    proof {
        assert(a@ =~= b@);
    }
    true
}

/// `s` with every non-overlapping occurrence of `pat`, scanned left to
/// right, replaced by `rep`.
pub open spec fn spec_replace_all(s: Seq<char>, pat: Seq<char>, rep: Seq<char>) -> Seq<char>
    decreases s.len(),
{
    if s.len() == 0 {
        Seq::empty()
    } else if pat.len() >= 1 && spec_match_at(s, pat, 0) {
        rep + spec_replace_all(s.skip(pat.len() as int), pat, rep)
    } else {
        seq![s[0]] + spec_replace_all(s.drop_first(), pat, rep)
    }
}

/// Executable form of [`spec_replace_all`].
pub fn replace_all(s: &str, pat: &str, rep: &str) -> (r: String)
    requires
        pat@.len() >= 1,
    ensures
        r@ == spec_replace_all(s@, pat@, rep@),
{
    let n: usize = s.unicode_len();
    let m: usize = pat.unicode_len();
    let mut out = String::new();
    let mut i: usize = 0;
    proof {
        assert(s@.skip(0) =~= s@);
        assert(out@ + spec_replace_all(s@, pat@, rep@) =~= spec_replace_all(s@, pat@, rep@));
    }
    while i < n
        invariant
            0 <= i <= n,
            n == s@.len(),
            m == pat@.len(),
            m >= 1,
            spec_replace_all(s@, pat@, rep@) == out@ + spec_replace_all(
                s@.skip(i as int),
                pat@,
                rep@,
            ),
        decreases n - i,
    {
        let ghost t = s@.skip(i as int);
        if match_at(s, pat, i) {
            out.append(rep);
            proof {
                assert(t.subrange(0, m as int) =~= s@.subrange(i as int, i + m));
                assert(spec_match_at(t, pat@, 0));
                assert(t.skip(m as int) =~= s@.skip(i + m));
            }
            i = i + m;
        } else {
            let piece = s.substring_char(i, i + 1);
            out.append(piece);
            proof {
                assert(t.len() > 0);
                if spec_match_at(t, pat@, 0) {
                    assert(t.subrange(0, m as int) =~= s@.subrange(i as int, i + m));
                    assert(spec_match_at(s@, pat@, i as int));
                }
                assert(seq![t[0]] =~= s@.subrange(i as int, i + 1));
                assert(t.drop_first() =~= s@.skip(i + 1));
            }
            i = i + 1;
        }
    }
    proof {
        assert(s@.skip(n as int) =~= Seq::<char>::empty());
    }
    out
}

/// Position of the first line break in `s`, or its length if there is none.
pub open spec fn spec_line_break(s: Seq<char>) -> nat
    decreases s.len(),
{
    if s.len() == 0 {
        0
    } else if s[0] == '\n' {
        0
    } else {
        1 + spec_line_break(s.drop_first())
    }
}

proof fn lemma_line_break_char(s: Seq<char>)
    ensures
        spec_line_break(s) <= s.len(),
        forall|j: int| 0 <= j < spec_line_break(s) ==> s[j] != '\n',
        spec_line_break(s) < s.len() ==> s[spec_line_break(s) as int] == '\n',
    decreases s.len(),
{
    if s.len() > 0 && s[0] != '\n' {
        lemma_line_break_char(s.drop_first());
        assert forall|j: int| 0 <= j < spec_line_break(s) implies s[j] != '\n' by {
            if j > 0 {
                assert(s.drop_first()[j - 1] == s[j]);
            }
        }
        if spec_line_break(s) < s.len() {
            assert(s.drop_first()[spec_line_break(s.drop_first()) as int] == s[
                spec_line_break(s) as int
            ]);
        }
    }
}

proof fn lemma_line_break_unique(s: Seq<char>, k: int)
    requires
        0 <= k <= s.len(),
        forall|j: int| 0 <= j < k ==> s[j] != '\n',
        k < s.len() ==> s[k] == '\n',
    ensures
        spec_line_break(s) == k,
    decreases s.len(),
{
    if s.len() > 0 && s[0] != '\n' {
        lemma_line_break_unique(s.drop_first(), k - 1);
    }
}

/// A line with a trailing carriage return removed.
pub open spec fn spec_strip_cr(line: Seq<char>) -> Seq<char> {
    if line.len() > 0 && line.last() == '\r' {
        line.drop_last()
    } else {
        line
    }
}

/// The lines of `s`: segments between line feeds, each without a trailing
/// carriage return, with no empty final segment after a trailing line feed.
pub open spec fn spec_lines(s: Seq<char>) -> Seq<Seq<char>>
    decreases s.len(),
{
    if s.len() == 0 {
        Seq::empty()
    } else {
        let k = spec_line_break(s);
        if k >= s.len() {
            seq![spec_strip_cr(s)]
        } else {
            seq![spec_strip_cr(s.subrange(0, k as int))] + spec_lines(
                s.subrange(k as int + 1, s.len() as int),
            )
        }
    }
}

/// Executable form of [`spec_lines`].
pub fn split_lines(s: &str) -> (r: Vec<String>)
    ensures
        r.deep_view() == spec_lines(s@),
{
    let n: usize = s.unicode_len();
    let mut out: Vec<String> = Vec::new();
    let mut start: usize = 0;
    proof {
        assert(s@.skip(0) =~= s@);
        assert(out.deep_view() =~= Seq::<Seq<char>>::empty());
        assert(out.deep_view() + spec_lines(s@) =~= spec_lines(s@));
    }
    while start < n
        invariant
            0 <= start <= n,
            n == s@.len(),
            spec_lines(s@) == out.deep_view() + spec_lines(s@.skip(start as int)),
        decreases n - start,
    {
        let ghost t = s@.skip(start as int);
        let mut p: usize = start;
        while p < n && s.get_char(p) != '\n'
            invariant
                start <= p <= n,
                n == s@.len(),
                forall|k: int| start <= k < p ==> s@[k] != '\n',
            decreases n - p,
        {
            p = p + 1;
        }
        proof {
            assert(forall|j: int| 0 <= j < p - start ==> t[j] != '\n');
            lemma_line_break_unique(t, p - start);
        }
        let line_end: usize = if p > start && s.get_char(p - 1) == '\r' {
            p - 1
        } else {
            p
        };
        let line = s.substring_char(start, line_end);
        let ghost prev = out.deep_view();
        out.push(String::from_str(line));
        proof {
            assert(out.deep_view() =~= prev + seq![line@]);
            let k = (p - start) as nat;
            if p == n {
                assert(spec_strip_cr(t) =~= s@.subrange(start as int, line_end as int)) by {
                    if p > start && s@[p - 1] == '\r' {
                        assert(t.last() == s@[p - 1]);
                        assert(t.drop_last() =~= s@.subrange(start as int, (p - 1) as int));
                    } else {
                        assert(t =~= s@.subrange(start as int, p as int));
                    }
                }
                assert(spec_lines(t) =~= seq![line@]);
                assert(s@.skip(n as int) =~= Seq::<char>::empty());
            } else {
                assert(t.subrange(0, k as int) =~= s@.subrange(start as int, p as int));
                assert(spec_strip_cr(t.subrange(0, k as int)) =~= s@.subrange(
                    start as int,
                    line_end as int,
                )) by {
                    let u = t.subrange(0, k as int);
                    if p > start && s@[p - 1] == '\r' {
                        assert(u.last() == s@[p - 1]);
                        assert(u.drop_last() =~= s@.subrange(start as int, (p - 1) as int));
                    }
                }
                assert(t.subrange(k as int + 1, t.len() as int) =~= s@.skip(p + 1));
                assert(spec_lines(t) =~= seq![line@] + spec_lines(s@.skip(p + 1)));
            }
        }
        start = if p < n {
            p + 1
        } else {
            n
        };
    }
    proof {
        assert(s@.skip(n as int) =~= Seq::<char>::empty());
        assert(out.deep_view() =~= spec_lines(s@));
    }
    out
}

/// The decimal digit character for `d`.
pub open spec fn spec_digit_char(d: int) -> char {
    if d == 0 {
        '0'
    } else if d == 1 {
        '1'
    } else if d == 2 {
        '2'
    } else if d == 3 {
        '3'
    } else if d == 4 {
        '4'
    } else if d == 5 {
        '5'
    } else if d == 6 {
        '6'
    } else if d == 7 {
        '7'
    } else if d == 8 {
        '8'
    } else {
        '9'
    }
}

/// Decimal rendering of a non-negative integer, without leading zeros.
pub open spec fn spec_decimal(n: int) -> Seq<char>
    decreases n,
{
    if n < 10 {
        seq![spec_digit_char(n)]
    } else {
        spec_decimal(n / 10) + seq![spec_digit_char(n % 10)]
    }
}

/// The single-character string for decimal digit `d`.
fn digit_str(d: u64) -> (r: &'static str)
    requires
        d < 10,
    ensures
        r@ == seq![spec_digit_char(d as int)],
{
    proof {
        reveal_strlit("0");
        reveal_strlit("1");
        reveal_strlit("2");
        reveal_strlit("3");
        reveal_strlit("4");
        reveal_strlit("5");
        reveal_strlit("6");
        reveal_strlit("7");
        reveal_strlit("8");
        reveal_strlit("9");
    }
    if d == 0 {
        "0"
    } else if d == 1 {
        "1"
    } else if d == 2 {
        "2"
    } else if d == 3 {
        "3"
    } else if d == 4 {
        "4"
    } else if d == 5 {
        "5"
    } else if d == 6 {
        "6"
    } else if d == 7 {
        "7"
    } else if d == 8 {
        "8"
    } else {
        "9"
    }
}

/// Decimal rendering of `n`.
pub fn u64_to_string(n: u64) -> (r: String)
    ensures
        r@ == spec_decimal(n as int),
    decreases n,
{
    if n < 10 {
        String::from_str(digit_str(n))
    } else {
        proof {
            assert(n / 10 < n && n / 10 >= 1) by (nonlinear_arith)
                requires
                    n >= 10,
            ;
        }
        let rest = u64_to_string(n / 10);
        rest.concat(digit_str(n % 10))
    }
}

/// Decimal rendering of a count.
pub fn usize_to_string(n: usize) -> (r: String)
    ensures
        r@ == spec_decimal(n as int),
{
    u64_to_string(n as u64)
}

} // verus!
