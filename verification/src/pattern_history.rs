//! A navigable log of previously submitted search and filter patterns,
//! most-recent-first, traversed like shell history.
//!
//! Position `0` always holds an empty sentinel pattern, meaning "not yet
//! navigated".  The cursor moves within the log: one step toward older
//! entries on `get_prior_pattern`, one step back on `get_next_pattern`,
//! and never past either end.

use std::collections::VecDeque;

use vstd::prelude::*;

verus! {

pub struct PatternHistory {
    current_pattern_index: usize,
    prior_patterns: VecDeque<String>,
}

/// The log after a new pattern is recorded: a fresh sentinel, the new
/// pattern, then every earlier real entry.
pub open spec fn recorded(patterns: Seq<Seq<char>>, pattern: Seq<char>) -> Seq<Seq<char>> {
    seq![Seq::<char>::empty(), pattern] + patterns.drop_first()
}

/// What one step toward older entries yields: `None` when only the sentinel
/// is there or the cursor already stands at the oldest entry, else the entry
/// one step further back.
pub open spec fn prior_pattern(patterns: Seq<Seq<char>>, cursor: int) -> Option<Seq<char>> {
    if patterns.len() <= 1 || cursor >= patterns.len() - 1 {
        None
    } else {
        Some(patterns[cursor + 1])
    }
}

/// What one step back toward the sentinel yields: `None` at or before the
/// most recent real entry, else the entry at the decremented cursor.
pub open spec fn next_pattern(patterns: Seq<Seq<char>>, cursor: int) -> Option<Seq<char>> {
    if patterns.len() <= 1 || cursor <= 1 {
        None
    } else {
        Some(patterns[cursor - 1])
    }
}

impl PatternHistory {
    /// The log, oldest entry last; position 0 is the sentinel.
    pub closed spec fn patterns(&self) -> Seq<Seq<char>> {
        self.prior_patterns.deep_view()
    }

    /// The traversal cursor: 0 means "at the sentinel, not navigating".
    pub closed spec fn cursor(&self) -> int {
        self.current_pattern_index as int
    }

    /// The sentinel is in place and the cursor stands inside the log.
    pub closed spec fn wf(&self) -> bool {
        &&& self.patterns().len() >= 1
        &&& self.patterns()[0] == Seq::<char>::empty()
        &&& 0 <= self.cursor() < self.patterns().len()
    }

    pub fn new() -> (r: PatternHistory)
        ensures
            r.wf(),
            r.patterns() == seq![Seq::<char>::empty()],
            r.cursor() == 0,
    {
        let mut sentinel: VecDeque<String> = VecDeque::new();
        sentinel.push_front(String::new());
        let r = PatternHistory { current_pattern_index: 0, prior_patterns: sentinel };
        proof {
            assert(r.patterns() =~~= seq![Seq::<char>::empty()]);
        }
        r
    }

    /// Moves the cursor back to the sentinel; the log is untouched.
    pub fn reset_index(&mut self)
        requires
            old(self).wf(),
        ensures
            final(self).wf(),
            final(self).patterns() == old(self).patterns(),
            final(self).cursor() == 0,
    {
        self.current_pattern_index = 0
    }

    /// Records a pattern at the front, re-establishing the sentinel; the
    /// cursor is left where it was (resetting it is the caller's step).
    pub fn add_pattern(self, pattern_in: String) -> (r: PatternHistory)
        requires
            self.wf(),
        ensures
            r.wf(),
            r.patterns() == recorded(self.patterns(), pattern_in@),
            r.cursor() == self.cursor(),
    {
        let ghost pattern_view = pattern_in@;
        let mut log = self;
        log.prior_patterns.pop_front();
        log.prior_patterns.push_front(pattern_in);
        log.prior_patterns.push_front(String::new());
        proof {
            assert(log.patterns() =~~= recorded(self.patterns(), pattern_view));
        }
        log
    }

    /// One step toward older entries; at the oldest entry the cursor stays
    /// and nothing comes back.
    pub fn get_prior_pattern(&mut self) -> (r: Option<String>)
        requires
            old(self).wf(),
        ensures
            final(self).wf(),
            final(self).patterns() == old(self).patterns(),
            r.deep_view() == prior_pattern(old(self).patterns(), old(self).cursor()),
            final(self).cursor() == if prior_pattern(old(self).patterns(), old(self).cursor())
                is Some {
                old(self).cursor() + 1
            } else {
                old(self).cursor()
            },
    {
        let index_at_oldest_pattern = self.current_pattern_index == self.prior_patterns.len() - 1;
        if self.is_empty() || index_at_oldest_pattern {
            None
        } else {
            self.move_index_back_history();
            let result = self.prior_patterns[self.current_pattern_index].clone();
            Some(result)
        }
    }

    /// One step back toward the sentinel; a no-op at or before the most
    /// recent real entry.
    pub fn get_next_pattern(&mut self) -> (r: Option<String>)
        requires
            old(self).wf(),
        ensures
            final(self).wf(),
            final(self).patterns() == old(self).patterns(),
            r.deep_view() == next_pattern(old(self).patterns(), old(self).cursor()),
            final(self).cursor() == if old(self).patterns().len() <= 1 || old(self).cursor()
                <= 1 {
                old(self).cursor()
            } else {
                old(self).cursor() - 1
            },
    {
        let index_at_most_recent_pattern_or_sentinel = self.current_pattern_index <= 1;
        if self.is_empty() || index_at_most_recent_pattern_or_sentinel {
            None
        } else {
            self.move_index_forward_history();
            let result = self.prior_patterns[self.current_pattern_index].clone();
            Some(result)
        }
    }

    /// Only the sentinel is in the log.
    fn is_empty(&self) -> (r: bool)
        ensures
            r == (self.patterns().len() == 1),
    {
        self.prior_patterns.len() == 1
    }

    fn move_index_back_history(&mut self)
        requires
            old(self).wf(),
        ensures
            final(self).wf(),
            final(self).patterns() == old(self).patterns(),
            final(self).cursor() == if old(self).cursor() + 1 < old(self).patterns().len() {
                old(self).cursor() + 1
            } else {
                old(self).patterns().len() - 1
            },
    {
        let last_index = self.prior_patterns.len() - 1;
        if self.current_pattern_index < last_index {
            self.current_pattern_index = self.current_pattern_index + 1;
        } else {
            self.current_pattern_index = last_index;
        }
    }

    fn move_index_forward_history(&mut self)
        requires
            old(self).wf(),
            old(self).cursor() >= 1,
        ensures
            final(self).wf(),
            final(self).patterns() == old(self).patterns(),
            final(self).cursor() == old(self).cursor() - 1,
    {
        self.current_pattern_index = self.current_pattern_index - 1;
    }
}

} // verus!
