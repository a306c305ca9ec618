//! The text model: the document, what of it is displayed and how, the match
//! index for jump-to-match, and the pattern history.
//!
//! Every operation is a pure transformation of the model: a search restyles
//! the same document, a filter keeps only its matching lines, and a file
//! change replaces the document wholesale.  A pattern the regex crate
//! rejects leaves the model untouched and surfaces `InvalidPatternError`.

use vstd::prelude::*;

use crate::matching::{
    all_line_indices, filter_lines, filtered_lines, get_match_line_numbers,
    lemma_match_line_indices, lines_spec, match_line_indices, pattern_ok, regex_is_valid,
    split_lines, strictly_increasing, InvalidPatternError,
};
use crate::pattern_history::{recorded, PatternHistory};
use crate::styling::{
    filtered_text, get_bolded_match_text, plain_styled, plain_text, search_styled, DisplayText,
};

verus! {

pub struct TextState {
    pub pattern_history: PatternHistory,
    pub next_pattern: Vec<usize>,
    pub text: DisplayText,
    pub content: String,
}

/// The history after a submission: a non-empty pattern is recorded, an empty
/// one is not (only the sentinel may be empty).
pub open spec fn history_after_submit(patterns: Seq<Seq<char>>, pattern: Seq<char>) -> Seq<
    Seq<char>,
> {
    if pattern.len() == 0 {
        patterns
    } else {
        recorded(patterns, pattern)
    }
}

impl TextState {
    /// The history is sound and the match index is strictly increasing, as
    /// an index of document line numbers must be.
    pub open spec fn wf(&self) -> bool {
        &&& self.pattern_history.wf()
        &&& strictly_increasing(self.next_pattern@)
    }

    /// A fresh model: the document shown plain, nothing matched, an empty
    /// history.
    pub fn new(content_in: String) -> (r: TextState)
        ensures
            r.wf(),
            r.content@ == content_in@,
            r.text@ == plain_styled(lines_spec(content_in@)),
            r.next_pattern@ == Seq::<usize>::empty(),
            r.pattern_history.patterns() == seq![Seq::<char>::empty()],
            r.pattern_history.cursor() == 0,
    {
        let text = plain_text(content_in.as_str());
        TextState {
            pattern_history: PatternHistory::new(),
            next_pattern: Vec::new(),
            text,
            content: content_in,
        }
    }

    /// Records a submitted pattern, leaving empty submissions out.
    fn record_pattern(&mut self, pattern: &str)
        requires
            old(self).wf(),
        ensures
            final(self).wf(),
            final(self).pattern_history.patterns() == history_after_submit(
                old(self).pattern_history.patterns(),
                pattern@,
            ),
            final(self).pattern_history.cursor() == old(self).pattern_history.cursor(),
            final(self).next_pattern == old(self).next_pattern,
            final(self).text == old(self).text,
            final(self).content == old(self).content,
    {
        if !pattern.is_empty() {
            let mut history = PatternHistory::new();
            core::mem::swap(&mut history, &mut self.pattern_history);
            self.pattern_history = history.add_pattern(pattern.to_owned());
        }
    }

    /// Keeps only the matching lines of the document, records the pattern,
    /// and recomputes the match index over the whole document.
    pub fn match_lines(&mut self, pattern: &str) -> (r: Result<(), InvalidPatternError>)
        requires
            old(self).wf(),
        ensures
            final(self).wf(),
            pattern_ok(pattern@) ==> {
                &&& r is Ok
                &&& final(self).content@ == old(self).content@
                &&& final(self).text@ == plain_styled(
                    filtered_lines(pattern@, lines_spec(old(self).content@)),
                )
                &&& final(self).next_pattern@ == match_line_indices(
                    pattern@,
                    lines_spec(old(self).content@),
                )
                &&& final(self).pattern_history.patterns() == history_after_submit(
                    old(self).pattern_history.patterns(),
                    pattern@,
                )
                &&& final(self).pattern_history.cursor() == old(self).pattern_history.cursor()
            },
            !pattern_ok(pattern@) ==> r is Err && *final(self) == *old(self),
            pattern@.len() == 0 ==> r is Ok && final(self).next_pattern@ == all_line_indices(
                lines_spec(old(self).content@).len() as int,
            ),
    {
        if !regex_is_valid(pattern) {
            return Err(InvalidPatternError {});
        }
        let lines = split_lines(self.content.as_str());
        let line_count: usize = lines.len();
        self.next_pattern = get_match_line_numbers(pattern, &lines);
        proof {
            assert(lines.deep_view().len() == line_count);
            lemma_match_line_indices(pattern@, lines.deep_view());
        }
        self.text = filtered_text(filter_lines(pattern, &lines));
        self.record_pattern(pattern);
        Ok(())
    }

    /// Restyles the document with the matching spans emphasized, records the
    /// pattern, and recomputes the match index.
    pub fn perform_search(&mut self, pattern: &str) -> (r: Result<(), InvalidPatternError>)
        requires
            old(self).wf(),
        ensures
            final(self).wf(),
            pattern_ok(pattern@) ==> {
                &&& r is Ok
                &&& final(self).content@ == old(self).content@
                &&& final(self).text@ == search_styled(
                    pattern@,
                    lines_spec(old(self).content@),
                )
                &&& final(self).next_pattern@ == match_line_indices(
                    pattern@,
                    lines_spec(old(self).content@),
                )
                &&& final(self).pattern_history.patterns() == history_after_submit(
                    old(self).pattern_history.patterns(),
                    pattern@,
                )
                &&& final(self).pattern_history.cursor() == old(self).pattern_history.cursor()
            },
            !pattern_ok(pattern@) ==> r is Err && *final(self) == *old(self),
            pattern@.len() == 0 ==> r is Ok && final(self).next_pattern@ == all_line_indices(
                lines_spec(old(self).content@).len() as int,
            ),
    {
        if !regex_is_valid(pattern) {
            return Err(InvalidPatternError {});
        }
        let lines = split_lines(self.content.as_str());
        let line_count: usize = lines.len();
        self.next_pattern = get_match_line_numbers(pattern, &lines);
        proof {
            assert(lines.deep_view().len() == line_count);
            lemma_match_line_indices(pattern@, lines.deep_view());
        }
        self.text = get_bolded_match_text(pattern, &lines);
        self.record_pattern(pattern);
        Ok(())
    }

    /// Replaces the document with freshly read content, shown plain, with no
    /// pattern active: the match index empties, only the history carries
    /// over.  Without content (the read failed) the model stays as it was.
    pub fn change_file(&mut self, read_result: Option<String>)
        requires
            old(self).wf(),
        ensures
            final(self).wf(),
            match read_result {
                Some(content) => {
                    &&& final(self).content@ == content@
                    &&& final(self).text@ == plain_styled(lines_spec(content@))
                    &&& final(self).next_pattern@ == Seq::<usize>::empty()
                    &&& final(self).pattern_history == old(self).pattern_history
                },
                None => *final(self) == *old(self),
            },
    {
        match read_result {
            Some(content) => {
                self.text = plain_text(content.as_str());
                self.content = content;
                self.next_pattern = Vec::new();
            },
            None => {},
        }
    }
}

} // verus!
