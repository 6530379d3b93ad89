//! Lexical groundwork for the configuration format: spacing,
//! trimming, character search and line splitting, with the lemmas
//! that connect index-based scans to the recursive definitions.

use vstd::prelude::*;

verus! {

/// Characters treated as insignificant spacing within a line.
pub open spec fn is_ws(c: char) -> bool {
    c == ' ' || c == '\t' || c == '\r'
}

/// Runtime test for [`is_ws`].
pub fn is_ws_char(c: char) -> (b: bool)
    ensures
        b == is_ws(c),
{
    c == ' ' || c == '\t' || c == '\r'
}

/// How many spacing characters the line starts with.
pub open spec fn leading_ws(l: Seq<char>) -> nat
    decreases l.len(),
{
    if l.len() == 0 {
        0
    } else if is_ws(l[0]) {
        1 + leading_ws(l.drop_first())
    } else {
        0
    }
}

/// How many spacing characters the line ends with.
pub open spec fn trailing_ws(l: Seq<char>) -> nat
    decreases l.len(),
{
    if l.len() == 0 {
        0
    } else if is_ws(l[l.len() - 1]) {
        1 + trailing_ws(l.drop_last())
    } else {
        0
    }
}

/// The line without its leading spacing.
pub open spec fn ltrim(l: Seq<char>) -> Seq<char> {
    l.skip(leading_ws(l) as int)
}

/// The line without its trailing spacing.
pub open spec fn rtrim(l: Seq<char>) -> Seq<char> {
    l.take(l.len() - trailing_ws(l) as int)
}

/// The line without leading and trailing spacing.
pub open spec fn trim(l: Seq<char>) -> Seq<char> {
    rtrim(ltrim(l))
}

/// The index of the first occurrence of `c`, or the length when `c`
/// does not occur.
pub open spec fn find_char(l: Seq<char>, c: char) -> int
    decreases l.len(),
{
    if l.len() == 0 {
        0
    } else if l[0] == c {
        0
    } else {
        1 + find_char(l.drop_first(), c)
    }
}

pub proof fn lemma_trailing_ws_le(l: Seq<char>)
    ensures
        trailing_ws(l) <= l.len(),
    decreases l.len(),
{
    if l.len() > 0 && is_ws(l[l.len() - 1]) {
        lemma_trailing_ws_le(l.drop_last());
    }
}

pub proof fn lemma_find_char_bounds(l: Seq<char>, c: char)
    ensures
        0 <= find_char(l, c) <= l.len(),
        find_char(l, c) < l.len() ==> l[find_char(l, c)] == c,
        forall|j: int| 0 <= j < find_char(l, c) ==> l[j] != c,
    decreases l.len(),
{
    if l.len() > 0 && l[0] != c {
        lemma_find_char_bounds(l.drop_first(), c);
        assert(forall|j: int| 0 <= j < l.len() - 1 ==> l.drop_first()[j] == l[j + 1]);
        assert forall|j: int| 0 <= j < find_char(l, c) implies l[j] != c by {
            if j > 0 {
                assert(l.drop_first()[j - 1] != c);
            }
        }
    }
}

pub proof fn lemma_leading_ws_is(l: Seq<char>, k: int)
    requires
        0 <= k <= l.len(),
        forall|j: int| 0 <= j < k ==> is_ws(l[j]),
        k < l.len() ==> !is_ws(l[k]),
    ensures
        leading_ws(l) == k,
    decreases k,
{
    if k > 0 {
        assert(forall|j: int| 0 <= j < k - 1 ==> l.drop_first()[j] == l[j + 1]);
        lemma_leading_ws_is(l.drop_first(), k - 1);
    }
}

pub proof fn lemma_trailing_ws_is(l: Seq<char>, k: int)
    requires
        0 <= k <= l.len(),
        forall|j: int| l.len() - k <= j < l.len() ==> is_ws(l[j]),
        k < l.len() ==> !is_ws(l[l.len() - k - 1]),
    ensures
        trailing_ws(l) == k,
    decreases k,
{
    if k > 0 {
        assert(forall|j: int| 0 <= j < l.len() - 1 ==> l.drop_last()[j] == l[j]);
        lemma_trailing_ws_is(l.drop_last(), k - 1);
    }
}

pub proof fn lemma_find_char_is(l: Seq<char>, c: char, k: int)
    requires
        0 <= k <= l.len(),
        forall|j: int| 0 <= j < k ==> l[j] != c,
        k < l.len() ==> l[k] == c,
    ensures
        find_char(l, c) == k,
    decreases k,
{
    if k > 0 {
        assert(forall|j: int| 0 <= j < k - 1 ==> l.drop_first()[j] == l[j + 1]);
        lemma_find_char_is(l.drop_first(), c, k - 1);
    }
}

/// The text as a sequence of lines: maximal runs of characters
/// between `'\n'` separators; the separators themselves are dropped.
pub open spec fn spec_lines(s: Seq<char>) -> Seq<Seq<char>>
    decreases s.len(),
{
    let i = find_char(s, '\n');
    if i < 0 || i >= s.len() {
        seq![s]
    } else {
        seq![s.take(i)] + spec_lines(s.skip(i + 1))
    }
}

/// Views of a sequence of strings.
pub open spec fn views_of(ss: Seq<String>) -> Seq<Seq<char>> {
    ss.map_values(|s: String| s@)
}

/// The indices of the trimmed core of `line`: `trim(line@)` equals
/// `line@` between the two returned char positions.
pub fn trim_bounds(line: &str) -> (r: (usize, usize))
    ensures
        r.0 <= r.1 <= line@.len(),
        trim(line@) == line@.subrange(r.0 as int, r.1 as int),
{
    let n = line.unicode_len();
    let mut lo: usize = 0;
    while lo < n && is_ws_char(line.get_char(lo))
        invariant
            0 <= lo <= n,
            n == line@.len(),
            forall|j: int| 0 <= j < lo ==> is_ws(line@[j]),
        decreases n - lo,
    {
        lo += 1;
    }
    let mut hi: usize = n;
    while hi > lo && is_ws_char(line.get_char(hi - 1))
        invariant
            lo <= hi <= n,
            n == line@.len(),
            forall|j: int| hi <= j < n ==> is_ws(line@[j]),
        decreases hi,
    {
        hi -= 1;
    }
    proof {
        lemma_leading_ws_is(line@, lo as int);
        let lt = ltrim(line@);
        assert(lt =~= line@.subrange(lo as int, n as int));
        assert(forall|j: int| lt.len() - (n - hi) <= j < lt.len() ==> is_ws(lt[j])) by {
            assert(forall|j: int| 0 <= j < lt.len() ==> lt[j] == line@[j + lo]);
        }
        lemma_trailing_ws_is(lt, n - hi);
        assert(rtrim(lt) =~= line@.subrange(lo as int, hi as int));
    }
    (lo, hi)
}

/// Splits the text into its lines, as [`spec_lines`] describes.
pub fn split_lines(text: &str) -> (r: Vec<String>)
    ensures
        views_of(r@) == spec_lines(text@),
{
    let n = text.unicode_len();
    let mut r: Vec<String> = Vec::new();
    proof {
        assert(text@.skip(0) =~= text@);
        assert(views_of(r@) =~= Seq::<Seq<char>>::empty());
        assert(views_of(r@) + spec_lines(text@) =~= spec_lines(text@));
    }
    let mut start: usize = 0;
    let mut i: usize = 0;
    while i < n
        invariant
            0 <= start <= i <= n,
            n == text@.len(),
            forall|j: int| start <= j < i ==> text@[j] != '\n',
            spec_lines(text@) == views_of(r@) + spec_lines(text@.skip(start as int)),
        decreases n - i,
    {
        if text.get_char(i) == '\n' {
            let line = String::from_str(text.substring_char(start, i));
            proof {
                let rest = text@.skip(start as int);
                assert(forall|j: int| 0 <= j < i - start ==> rest[j] == text@[j + start]);
                lemma_find_char_is(rest, '\n', i - start);
                assert(rest.take(i - start) =~= text@.subrange(start as int, i as int));
                assert(rest.skip(i - start + 1) =~= text@.skip(i + 1));
                assert(views_of(r@.push(line)) =~= views_of(r@) + seq![line@]);
                assert(spec_lines(text@) =~= views_of(r@.push(line)) + spec_lines(
                    text@.skip(i + 1),
                ));
            }
            r.push(line);
            start = i + 1;
        }
        i += 1;
    }
    let last = String::from_str(text.substring_char(start, n));
    proof {
        let rest = text@.skip(start as int);
        assert(forall|j: int| 0 <= j < rest.len() ==> rest[j] == text@[j + start]);
        lemma_find_char_is(rest, '\n', rest.len() as int);
        assert(rest =~= text@.subrange(start as int, n as int));
        assert(views_of(r@.push(last)) =~= views_of(r@) + seq![last@]);
        assert(spec_lines(text@) =~= views_of(r@.push(last)));
    }
    r.push(last);
    r
}

} // verus!
