//! Pattern matching over a document's lines.
//!
//! The regex crate decides what a pattern means; this module gives each of
//! its answers a name (`pattern_ok`, `regex_match`, `regex_split`) and builds
//! the verified operations on top: splitting a document into lines, keeping
//! only the matching lines, and computing the ordered index of matching line
//! numbers used for jump-to-match navigation.

use vstd::prelude::*;
use vstd::seq_lib::*;

verus! {

/// Whether the regex crate accepts `pattern` as a regular expression
/// (under its default configuration); names the success of `Regex::new`.
pub uninterp spec fn pattern_ok(pattern: Seq<char>) -> bool;

/// Whether `pattern` matches anywhere in `line`; names the result of
/// `Regex::is_match`, which depends on the pattern and the haystack alone.
pub uninterp spec fn regex_match(pattern: Seq<char>, line: Seq<char>) -> bool;

/// The pieces that `find_iter` of the derived pattern `P|.` yields on `line`,
/// in order.  Styling uses them as candidate runs.
pub uninterp spec fn regex_split(pattern: Seq<char>, line: Seq<char>) -> Seq<Seq<char>>;

/// The pager rejects a pattern the regex crate cannot compile.
#[derive(PartialEq, Eq, Structural, Clone, Copy, Debug)]
pub struct InvalidPatternError {}

/// Relies on `regex::Regex::new`: it returns `Ok` exactly on the patterns it
/// accepts, a fixed set for a fixed default configuration; the empty pattern
/// is a valid regular expression and is accepted.
#[verifier::external_body]
pub(crate) fn regex_is_valid(pattern: &str) -> (b: bool)
    ensures
        b == pattern_ok(pattern@),
        pattern@.len() == 0 ==> b,
{
    regex::Regex::new(pattern).is_ok()
}

/// Relies on `regex::Regex::new` and `regex::Regex::is_match`: whether a
/// match exists anywhere in the haystack is a function of pattern and
/// haystack alone, and the empty pattern matches every haystack (it matches
/// the empty string at position zero).  The precondition keeps the `unwrap`
/// from panicking.
#[verifier::external_body]
pub(crate) fn regex_line_match(pattern: &str, line: &str) -> (b: bool)
    requires
        pattern_ok(pattern@),
    ensures
        b == regex_match(pattern@, line@),
        pattern@.len() == 0 ==> b,
{
    regex::Regex::new(pattern).unwrap().is_match(line)
}

/// Relies on `regex::Regex::new` and `regex::Regex::find_iter` on the
/// derived pattern `P|.`: the non-overlapping matches it yields are a
/// function of pattern and haystack alone, which is what `regex_split`
/// names.  `P|.` is an alternation whose first branch is the accepted
/// pattern `P`; in the rare case that the derived pattern still fails to
/// compile (the crate's compiled-size limit), no pieces come back, and the
/// caller falls back to one whole-line run.
#[verifier::external_body]
pub(crate) fn regex_split_line(pattern: &str, line: &str) -> (r: Vec<String>)
    requires
        pattern_ok(pattern@),
        pattern@.len() > 0,
    ensures
        r.deep_view() == regex_split(pattern@, line@),
{
    match regex::Regex::new(&format!("{}|.", pattern)) {
        Ok(splitter) => splitter.find_iter(line).map(|m| m.as_str().to_string()).collect(),
        Err(_) => Vec::new(),
    }
}

/// Index of the first `'\n'` in `s`, or `s.len()` if there is none.
pub open spec fn first_newline(s: Seq<char>) -> int
    decreases s.len(),
{
    if s.len() == 0 {
        0
    } else if s[0] == '\n' {
        0
    } else {
        1 + first_newline(s.drop_first())
    }
}

/// A line terminated by `'\n'` also loses a `'\r'` directly before it.
pub open spec fn strip_carriage_return(l: Seq<char>) -> Seq<char> {
    if l.len() > 0 && l.last() == '\r' {
        l.drop_last()
    } else {
        l
    }
}

/// The lines of a document, as `str::lines` cuts them: split at `'\n'`,
/// dropping the terminator and a `'\r'` directly before it; a trailing line
/// break yields no final empty line.
pub open spec fn lines_spec(s: Seq<char>) -> Seq<Seq<char>>
    decreases s.len(),
{
    if s.len() == 0 {
        Seq::empty()
    } else {
        let brk = first_newline(s);
        if 0 <= brk < s.len() {
            seq![strip_carriage_return(s.take(brk))] + lines_spec(s.skip(brk + 1))
        } else {
            seq![s]
        }
    }
}

/// Relies on `str::lines`: it splits at `'\n'`, drops the terminator and a
/// `'\r'` directly before it, and yields no final empty line after a trailing
/// line break; `lines_spec` states the same cut.
#[verifier::external_body]
pub(crate) fn split_lines(text: &str) -> (r: Vec<String>)
    ensures
        r.deep_view() == lines_spec(text@),
{
    text.lines().map(|line| line.to_string()).collect()
}

/// The predicate a displayed line must satisfy under `pattern`.
pub open spec fn line_matches(pattern: Seq<char>) -> spec_fn(Seq<char>) -> bool {
    |l: Seq<char>| regex_match(pattern, l)
}

/// The lines of the document that match, in original order.
pub open spec fn filtered_lines(pattern: Seq<char>, lines: Seq<Seq<char>>) -> Seq<Seq<char>> {
    lines.filter(line_matches(pattern))
}

/// An index is strictly increasing: later entries name later lines.
pub open spec fn strictly_increasing(numbers: Seq<usize>) -> bool {
    forall|j: int, k: int| 0 <= j < k < numbers.len() ==> numbers[j] < numbers[k]
}

/// Every line number below `count`, in order.
pub open spec fn all_line_indices(count: int) -> Seq<usize> {
    Seq::new(count as nat, |i: int| i as usize)
}

/// The ordered, duplicate-free line numbers of the matching lines.
pub open spec fn match_line_indices(pattern: Seq<char>, lines: Seq<Seq<char>>) -> Seq<usize>
    decreases lines.len(),
{
    if lines.len() == 0 {
        Seq::empty()
    } else {
        let prefix = match_line_indices(pattern, lines.drop_last());
        if regex_match(pattern, lines.last()) {
            prefix.push((lines.len() - 1) as usize)
        } else {
            prefix
        }
    }
}

/// Keeps only the lines that match `pattern`, in their original order.
pub fn filter_lines(pattern: &str, lines: &Vec<String>) -> (r: Vec<String>)
    requires
        pattern_ok(pattern@),
    ensures
        r.deep_view() == filtered_lines(pattern@, lines.deep_view()),
{
    let ghost lv = lines.deep_view();
    let mut kept: Vec<String> = Vec::new();
    let mut i: usize = 0;
    while i < lines.len()
        invariant
            pattern_ok(pattern@),
            i <= lines.len(),
            lv == lines.deep_view(),
            kept.deep_view() == lv.take(i as int).filter(line_matches(pattern@)),
        decreases lines.len() - i,
    {
        let line = &lines[i];
        proof {
            reveal(Seq::filter);
            assert(lv.take(i + 1).drop_last() =~= lv.take(i as int));
            assert(lv.take(i + 1).last() == line@);
        }
        if regex_line_match(pattern, line.as_str()) {
            kept.push(line.clone());
            proof {
                assert(kept.deep_view() =~= lv.take(i + 1).filter(line_matches(pattern@)));
            }
        } else {
            proof {
                assert(kept.deep_view() =~= lv.take(i + 1).filter(line_matches(pattern@)));
            }
        }
        i += 1;
    }
    proof {
        assert(lv.take(lines.len() as int) =~= lv);
    }
    kept
}

/// The line numbers of the lines that match `pattern`, in increasing order.
/// The empty pattern matches every line, so it indexes them all.
pub fn get_match_line_numbers(pattern: &str, lines: &Vec<String>) -> (r: Vec<usize>)
    requires
        pattern_ok(pattern@),
    ensures
        r@ == match_line_indices(pattern@, lines.deep_view()),
        pattern@.len() == 0 ==> r@ == all_line_indices(lines.deep_view().len() as int),
{
    let ghost lv = lines.deep_view();
    let mut numbers: Vec<usize> = Vec::new();
    let mut i: usize = 0;
    while i < lines.len()
        invariant
            pattern_ok(pattern@),
            i <= lines.len(),
            lv == lines.deep_view(),
            numbers@ == match_line_indices(pattern@, lv.take(i as int)),
            pattern@.len() == 0 ==> forall|j: int|
                0 <= j < i ==> regex_match(pattern@, #[trigger] lv[j]),
        decreases lines.len() - i,
    {
        let line = &lines[i];
        proof {
            assert(lv.take(i + 1).drop_last() =~= lv.take(i as int));
            assert(lv.take(i + 1).last() == line@);
        }
        if regex_line_match(pattern, line.as_str()) {
            numbers.push(i);
        }
        i += 1;
    }
    proof {
        assert(lv.take(lines.len() as int) =~= lv);
        if pattern@.len() == 0 {
            lemma_all_match_all_indices(pattern@, lv);
        }
    }
    numbers
}

/// When every line matches, the index lists every line number in order.
pub proof fn lemma_all_match_all_indices(pattern: Seq<char>, lines: Seq<Seq<char>>)
    requires
        lines.len() <= usize::MAX,
        forall|j: int| 0 <= j < lines.len() ==> regex_match(pattern, #[trigger] lines[j]),
    ensures
        match_line_indices(pattern, lines) == all_line_indices(lines.len() as int),
    decreases lines.len(),
{
    if lines.len() > 0 {
        assert forall|j: int| 0 <= j < lines.drop_last().len() implies regex_match(
            pattern,
            #[trigger] lines.drop_last()[j],
        ) by {
            assert(lines.drop_last()[j] == lines[j]);
        }
        lemma_all_match_all_indices(pattern, lines.drop_last());
        assert(regex_match(pattern, lines[lines.len() - 1]));
        assert(match_line_indices(pattern, lines) =~= all_line_indices(lines.len() as int));
    } else {
        assert(match_line_indices(pattern, lines) =~= all_line_indices(0));
    }
}

/// The match index lists exactly the numbers of the matching lines, in
/// strictly increasing order, each below the line count.
pub proof fn lemma_match_line_indices(pattern: Seq<char>, lines: Seq<Seq<char>>)
    requires
        lines.len() <= usize::MAX,
    ensures
        strictly_increasing(match_line_indices(pattern, lines)),
        forall|j: int|
            0 <= j < match_line_indices(pattern, lines).len() ==> #[trigger] match_line_indices(
                pattern,
                lines,
            )[j] < lines.len(),
        forall|n: usize|
            #[trigger] match_line_indices(pattern, lines).contains(n) <==> n < lines.len()
                && regex_match(pattern, lines[n as int]),
    decreases lines.len(),
{
    if lines.len() > 0 {
        lemma_match_line_indices(pattern, lines.drop_last());
        let prefix = match_line_indices(pattern, lines.drop_last());
        let whole = match_line_indices(pattern, lines);
        assert(forall|j: int| 0 <= j < prefix.len() ==> whole[j] == #[trigger] prefix[j]);
        assert forall|j: int, k: int| 0 <= j < k < whole.len() implies whole[j] < whole[k] by {
            if k >= prefix.len() {
                assert(whole[j] == prefix[j]);
                assert(prefix[j] < lines.drop_last().len());
            }
        }
        assert forall|n: usize| n < lines.len() && regex_match(
            pattern,
            lines[n as int],
        ) implies #[trigger] whole.contains(n) by {
            if n < lines.len() - 1 {
                assert(lines.drop_last()[n as int] == lines[n as int]);
                assert(prefix.contains(n));
                let j = choose|j: int| 0 <= j < prefix.len() && prefix[j] == n;
                assert(whole[j] == n);
            } else {
                assert(regex_match(pattern, lines.last()));
                assert(whole[whole.len() - 1] == n);
            }
        }
        assert forall|n: usize| #[trigger] whole.contains(n) implies n < lines.len()
            && regex_match(pattern, lines[n as int]) by {
            let j = choose|j: int| 0 <= j < whole.len() && whole[j] == n;
            if j < prefix.len() {
                assert(prefix[j] == n);
                assert(prefix.contains(n));
                assert(lines.drop_last()[n as int] == lines[n as int]);
            } else {
                assert(whole[j] == (lines.len() - 1) as usize);
            }
        }
    }
}

/// Filtering keeps only matching lines, never grows, and agrees with the
/// match index: the kept lines are exactly the lines at the matching line
/// numbers, in the same order.
pub proof fn lemma_filtered_lines_are_indexed(pattern: Seq<char>, lines: Seq<Seq<char>>)
    requires
        lines.len() <= usize::MAX,
    ensures
        filtered_lines(pattern, lines).len() <= lines.len(),
        forall|i: int|
            0 <= i < filtered_lines(pattern, lines).len() ==> regex_match(
                pattern,
                #[trigger] filtered_lines(pattern, lines)[i],
            ),
        filtered_lines(pattern, lines).len() == match_line_indices(pattern, lines).len(),
        forall|i: int|
            0 <= i < filtered_lines(pattern, lines).len() ==> #[trigger] filtered_lines(
                pattern,
                lines,
            )[i] == lines[match_line_indices(pattern, lines)[i] as int],
    decreases lines.len(),
{
    broadcast use Seq::lemma_filter_len, Seq::lemma_filter_pred;

    reveal(Seq::filter);
    if lines.len() > 0 {
        lemma_filtered_lines_are_indexed(pattern, lines.drop_last());
        lemma_match_line_indices(pattern, lines.drop_last());
        let fprev = filtered_lines(pattern, lines.drop_last());
        let iprev = match_line_indices(pattern, lines.drop_last());
        let fall = filtered_lines(pattern, lines);
        let iall = match_line_indices(pattern, lines);
        assert(fall == if regex_match(pattern, lines.last()) {
            fprev.push(lines.last())
        } else {
            fprev
        });
        assert forall|i: int| 0 <= i < fall.len() implies #[trigger] fall[i] == lines[iall[i] as int] by {
            if i < fprev.len() {
                assert(fall[i] == fprev[i]);
                assert(iall[i] == iprev[i]);
                assert(fprev[i] == lines.drop_last()[iprev[i] as int]);
                assert(iprev[i] < lines.drop_last().len());
                assert(lines.drop_last()[iprev[i] as int] == lines[iprev[i] as int]);
            } else {
                assert(fall[i] == lines.last());
                assert(iall[i] == (lines.len() - 1) as usize);
            }
        }
    }
}

} // verus!
