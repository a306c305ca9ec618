//! Span styling: a line split into runs, with the runs that match the active
//! pattern marked for emphasis.
//!
//! A line is cut into the pieces that the derived pattern `P|.` finds, and
//! each piece is marked according to whether `P` matches it.  Whatever the
//! regex crate answers, the runs concatenate back to the original line: when
//! the pieces do not cover the line, the whole line becomes a single run.
//! An empty pattern marks nothing.

use vstd::prelude::*;

use crate::matching::{
    lines_spec, pattern_ok, regex_line_match, regex_match, regex_split, regex_split_line,
    split_lines,
};

verus! {

/// One maximal piece of a styled line: its text, and whether it is shown
/// emphasized as a pattern match.
pub struct StyledRun {
    pub text: String,
    pub matched: bool,
}

impl View for StyledRun {
    type V = (Seq<char>, bool);

    open spec fn view(&self) -> (Seq<char>, bool) {
        (self.text@, self.matched)
    }
}

impl DeepView for StyledRun {
    type V = (Seq<char>, bool);

    open spec fn deep_view(&self) -> (Seq<char>, bool) {
        (self.text@, self.matched)
    }
}

/// One displayed line: its runs, in order.
pub struct StyledLine {
    pub runs: Vec<StyledRun>,
}

impl View for StyledLine {
    type V = Seq<(Seq<char>, bool)>;

    open spec fn view(&self) -> Seq<(Seq<char>, bool)> {
        self.runs.deep_view()
    }
}

impl DeepView for StyledLine {
    type V = Seq<(Seq<char>, bool)>;

    open spec fn deep_view(&self) -> Seq<(Seq<char>, bool)> {
        self.runs.deep_view()
    }
}

/// The displayed text: one styled line per displayed line, in order.
pub struct DisplayText {
    pub lines: Vec<StyledLine>,
}

impl View for DisplayText {
    type V = Seq<Seq<(Seq<char>, bool)>>;

    open spec fn view(&self) -> Seq<Seq<(Seq<char>, bool)>> {
        self.lines.deep_view()
    }
}

/// The concatenation of a sequence of pieces.
pub open spec fn concat_pieces(pieces: Seq<Seq<char>>) -> Seq<char>
    decreases pieces.len(),
{
    if pieces.len() == 0 {
        Seq::empty()
    } else {
        concat_pieces(pieces.drop_last()) + pieces.last()
    }
}

/// The texts of a sequence of runs, in order.
pub open spec fn run_texts(runs: Seq<(Seq<char>, bool)>) -> Seq<Seq<char>> {
    runs.map_values(|run: (Seq<char>, bool)| run.0)
}

/// Each piece paired with whether the pattern matches it.
pub open spec fn mark_runs(pattern: Seq<char>, pieces: Seq<Seq<char>>) -> Seq<
    (Seq<char>, bool),
> {
    pieces.map_values(|piece: Seq<char>| (piece, regex_match(pattern, piece)))
}

/// The runs a line is displayed as under `pattern`: the pieces of the
/// derived split, marked, when they cover the line exactly; otherwise the
/// whole line as one run.  An empty pattern marks no run as a match.
pub open spec fn styled_runs(pattern: Seq<char>, line: Seq<char>) -> Seq<(Seq<char>, bool)> {
    if pattern.len() == 0 {
        seq![(line, false)]
    } else {
        let pieces = regex_split(pattern, line);
        if concat_pieces(pieces) == line {
            mark_runs(pattern, pieces)
        } else {
            seq![(line, regex_match(pattern, line))]
        }
    }
}

/// A whole document styled under `pattern`, line by line.
pub open spec fn search_styled(pattern: Seq<char>, lines: Seq<Seq<char>>) -> Seq<
    Seq<(Seq<char>, bool)>,
> {
    lines.map_values(|l: Seq<char>| styled_runs(pattern, l))
}

/// A line shown without any emphasis: one unmarked run.
pub open spec fn plain_run(line: Seq<char>) -> Seq<(Seq<char>, bool)> {
    seq![(line, false)]
}

/// A whole document shown without any emphasis.
pub open spec fn plain_styled(lines: Seq<Seq<char>>) -> Seq<Seq<(Seq<char>, bool)>> {
    lines.map_values(|l: Seq<char>| plain_run(l))
}

/// Splits `line` into maximal runs and marks the ones matching `pattern`.
pub fn style_line(pattern: &str, line: &str) -> (r: StyledLine)
    requires
        pattern_ok(pattern@),
    ensures
        r@ == styled_runs(pattern@, line@),
{
    if pattern.is_empty() {
        let mut runs: Vec<StyledRun> = Vec::new();
        runs.push(StyledRun { text: line.to_owned(), matched: false });
        proof {
            assert(runs.deep_view() =~~= styled_runs(pattern@, line@));
        }
        return StyledLine { runs };
    }
    let pieces = regex_split_line(pattern, line);
    let ghost pv = pieces.deep_view();
    let mut runs: Vec<StyledRun> = Vec::new();
    let mut rebuilt = String::new();
    let mut i: usize = 0;
    while i < pieces.len()
        invariant
            pattern_ok(pattern@),
            i <= pieces.len(),
            pv == pieces.deep_view(),
            runs.deep_view() == mark_runs(pattern@, pv.take(i as int)),
            rebuilt@ == concat_pieces(pv.take(i as int)),
        decreases pieces.len() - i,
    {
        let piece = &pieces[i];
        proof {
            assert(pv.take(i as int).len() == i);
            assert(mark_runs(pattern@, pv.take(i as int)).len() == i);
            assert(runs.deep_view().len() == i);
            assert(runs@.len() == i);
        }
        let matched = regex_line_match(pattern, piece.as_str());
        rebuilt.append(piece.as_str());
        runs.push(StyledRun { text: piece.clone(), matched });
        proof {
            assert(pv.take(i + 1).drop_last() =~= pv.take(i as int));
            assert(pv.take(i + 1).last() == piece@);
            assert(runs.deep_view().len() == i + 1);
            assert(runs.deep_view()[i as int] == (piece@, matched));
            assert(mark_runs(pattern@, pv.take(i + 1))[i as int] == (pv[i as int], regex_match(pattern@, pv[i as int])));
            assert(pv[i as int] == piece@);
            assert forall|j: int| 0 <= j < i implies runs.deep_view()[j] == mark_runs(pattern@, pv.take(i + 1))[j] by {
                assert(runs.deep_view()[j] == mark_runs(pattern@, pv.take(i as int))[j]);
            }
            assert(runs.deep_view() =~~= mark_runs(pattern@, pv.take(i + 1)));
        }
        i += 1;
    }
    proof {
        assert(pv.take(pieces.len() as int) =~= pv);
    }
    let original = line.to_owned();
    if rebuilt == original {
        StyledLine { runs }
    } else {
        let matched = regex_line_match(pattern, line);
        let mut fallback: Vec<StyledRun> = Vec::new();
        fallback.push(StyledRun { text: original, matched });
        proof {
            assert(fallback.deep_view() =~~= styled_runs(pattern@, line@));
        }
        StyledLine { runs: fallback }
    }
}

/// Styles every line of the document under `pattern`.
pub fn get_bolded_match_text(pattern: &str, lines: &Vec<String>) -> (r: DisplayText)
    requires
        pattern_ok(pattern@),
    ensures
        r@ == search_styled(pattern@, lines.deep_view()),
{
    let ghost lv = lines.deep_view();
    let mut styled: Vec<StyledLine> = Vec::new();
    let mut i: usize = 0;
    while i < lines.len()
        invariant
            pattern_ok(pattern@),
            i <= lines.len(),
            lv == lines.deep_view(),
            styled.deep_view() == search_styled(pattern@, lv.take(i as int)),
        decreases lines.len() - i,
    {
        proof {
            assert(lv.take(i as int).len() == i);
            assert(search_styled(pattern@, lv.take(i as int)).len() == i);
            assert(styled.deep_view().len() == i);
            assert(lv[i as int] == lines@[i as int]@);
        }
        let line = style_line(pattern, lines[i].as_str());
        let ghost lview = line@;
        styled.push(line);
        proof {
            assert(styled.deep_view().len() == i + 1);
            assert(styled.deep_view()[i as int] == lview);
            assert(lview == styled_runs(pattern@, lv[i as int]));
            assert forall|j: int| 0 <= j < i implies styled.deep_view()[j] == search_styled(
                pattern@,
                lv.take(i + 1),
            )[j] by {
                assert(styled.deep_view()[j] == search_styled(pattern@, lv.take(i as int))[j]);
            }
            assert(styled.deep_view() =~~= search_styled(pattern@, lv.take(i + 1)));
        }
        i += 1;
    }
    proof {
        assert(lv.take(lines.len() as int) =~= lv);
    }
    DisplayText { lines: styled }
}

/// A document split into lines and shown plain, as after opening a file.
pub fn plain_text(content: &str) -> (r: DisplayText)
    ensures
        r@ == plain_styled(lines_spec(content@)),
{
    let lines = split_lines(content);
    let ghost lv = lines.deep_view();
    let mut plain: Vec<StyledLine> = Vec::new();
    let mut i: usize = 0;
    while i < lines.len()
        invariant
            i <= lines.len(),
            lv == lines.deep_view(),
            plain.deep_view() == plain_styled(lv.take(i as int)),
        decreases lines.len() - i,
    {
        proof {
            assert(lv.take(i as int).len() == i);
            assert(plain_styled(lv.take(i as int)).len() == i);
            assert(plain.deep_view().len() == i);
            assert(lv[i as int] == lines@[i as int]@);
        }
        let mut runs: Vec<StyledRun> = Vec::new();
        runs.push(StyledRun { text: lines[i].clone(), matched: false });
        proof {
            assert(runs.deep_view() =~~= plain_run(lv[i as int]));
        }
        let ghost rview = runs.deep_view();
        plain.push(StyledLine { runs });
        proof {
            assert(plain.deep_view().len() == i + 1);
            assert(plain.deep_view()[i as int] == rview);
            assert forall|j: int| 0 <= j < i implies plain.deep_view()[j] == plain_styled(
                lv.take(i + 1),
            )[j] by {
                assert(plain.deep_view()[j] == plain_styled(lv.take(i as int))[j]);
            }
            assert(plain.deep_view() =~~= plain_styled(lv.take(i + 1)));
        }
        i += 1;
    }
    proof {
        assert(lv.take(lines.len() as int) =~= lv);
    }
    DisplayText { lines: plain }
}

/// A filtered document: the matching lines, each shown as one plain run.
pub fn filtered_text(kept: Vec<String>) -> (r: DisplayText)
    ensures
        r@ == plain_styled(kept.deep_view()),
{
    let ghost lv = kept.deep_view();
    let mut plain: Vec<StyledLine> = Vec::new();
    let mut i: usize = 0;
    while i < kept.len()
        invariant
            i <= kept.len(),
            lv == kept.deep_view(),
            plain.deep_view() == plain_styled(lv.take(i as int)),
        decreases kept.len() - i,
    {
        proof {
            assert(lv.take(i as int).len() == i);
            assert(plain_styled(lv.take(i as int)).len() == i);
            assert(plain.deep_view().len() == i);
            assert(lv[i as int] == kept@[i as int]@);
        }
        let mut runs: Vec<StyledRun> = Vec::new();
        runs.push(StyledRun { text: kept[i].clone(), matched: false });
        proof {
            assert(runs.deep_view() =~~= plain_run(lv[i as int]));
        }
        let ghost rview = runs.deep_view();
        plain.push(StyledLine { runs });
        proof {
            assert(plain.deep_view().len() == i + 1);
            assert(plain.deep_view()[i as int] == rview);
            assert forall|j: int| 0 <= j < i implies plain.deep_view()[j] == plain_styled(
                lv.take(i + 1),
            )[j] by {
                assert(plain.deep_view()[j] == plain_styled(lv.take(i as int))[j]);
            }
            assert(plain.deep_view() =~~= plain_styled(lv.take(i + 1)));
        }
        i += 1;
    }
    proof {
        assert(lv.take(kept.len() as int) =~= lv);
    }
    DisplayText { lines: plain }
}

/// Concatenating the pieces marked for a pattern loses nothing.
proof fn lemma_concat_mark_runs(pattern: Seq<char>, pieces: Seq<Seq<char>>)
    ensures
        concat_pieces(run_texts(mark_runs(pattern, pieces))) == concat_pieces(pieces),
    decreases pieces.len(),
{
    if pieces.len() == 0 {
        assert(run_texts(mark_runs(pattern, pieces)) =~= pieces);
    } else {
        lemma_concat_mark_runs(pattern, pieces.drop_last());
        let marked = run_texts(mark_runs(pattern, pieces));
        assert(marked.drop_last() =~= run_texts(mark_runs(pattern, pieces.drop_last())));
        assert(marked.last() == pieces.last());
    }
}

/// Round trip: however a line is styled, concatenating the texts of its runs
/// reproduces the line exactly.
pub proof fn lemma_styled_runs_round_trip(pattern: Seq<char>, line: Seq<char>)
    ensures
        concat_pieces(run_texts(styled_runs(pattern, line))) == line,
{
    let runs = styled_runs(pattern, line);
    if pattern.len() == 0 || concat_pieces(regex_split(pattern, line)) != line {
        let single = run_texts(runs);
        assert(single =~~= seq![line]);
        assert(single.drop_last() =~= Seq::<Seq<char>>::empty());
        assert(concat_pieces(single) == concat_pieces(single.drop_last()) + single.last());
        assert(concat_pieces(Seq::<Seq<char>>::empty()) == Seq::<char>::empty());
        assert(concat_pieces(single) =~~= line);
    } else {
        lemma_concat_mark_runs(pattern, regex_split(pattern, line));
    }
}

/// An empty pattern marks no run of any line as a match.
pub proof fn lemma_empty_pattern_marks_nothing(line: Seq<char>)
    ensures
        forall|i: int|
            0 <= i < styled_runs(Seq::<char>::empty(), line).len() ==> !styled_runs(
                Seq::<char>::empty(),
                line,
            )[i].1,
{
}

} // verus!
