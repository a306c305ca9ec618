//! The view/input state machine: one key event in, the next on-screen state
//! out.
//!
//! A state is the running flag, the scroll offset into the displayed text,
//! the command prompt, and the text model.  `parse_input` consumes one key
//! and produces the next state; opening another file needs a read this
//! module cannot do, so it hands the path back and `apply_file_read` takes
//! the content in.  Scrolling is clamped to the document: never below the
//! first line, never past the offset where the last page is fully visible.

use vstd::prelude::*;

use crate::command::{mode_of_char, Command, CommandCharacter};
use crate::matching::{
    all_line_indices, filtered_lines, lines_spec, match_line_indices, pattern_ok,
    strictly_increasing,
};
use crate::pattern_history::{next_pattern, prior_pattern};
use crate::styling::{plain_styled, search_styled};
use crate::text_state::{history_after_submit, TextState};

verus! {

/// One key event, as the terminal hands it in: a printable character or one
/// of the named keys the pager reacts to.
#[derive(PartialEq, Eq, Structural, Clone, Copy, Debug)]
pub enum Key {
    Char(char),
    Up,
    Down,
    Enter,
    Backspace,
    Other,
}

pub struct TerminalState {
    pub running: bool,
    pub scroll_offset: usize,
    pub command: Command,
    pub text_state: TextState,
}

/// Relies on `String::push`: appends exactly one character.
#[verifier::external_body]
fn push_char(s: &mut String, c: char)
    ensures
        final(s)@ == old(s)@.push(c),
{
    s.push(c);
}

/// Relies on `String::pop`: removes and returns exactly the last character.
#[verifier::external_body]
fn pop_char(s: &mut String) -> (r: Option<char>)
    ensures
        old(s)@.len() == 0 ==> r is None && final(s)@ == old(s)@,
        old(s)@.len() > 0 ==> r == Some(old(s)@.last()) && final(s)@ == old(s)@.drop_last(),
{
    s.pop()
}

/// The largest offset at which the last page of lines is still fully
/// visible: line count minus page height, floored at zero.
pub open spec fn end_of_file_offset_spec(num_lines: int, page_height: int) -> int {
    if num_lines >= page_height {
        num_lines - page_height
    } else {
        0
    }
}

pub fn end_of_file_offset(num_lines: usize, page_height: usize) -> (r: usize)
    ensures
        r == end_of_file_offset_spec(num_lines as int, page_height as int),
{
    if num_lines >= page_height {
        num_lines - page_height
    } else {
        0
    }
}

/// One line down, stopping at the end-of-file offset.
pub open spec fn scroll_down_spec(scroll: int, num_lines: int, page_height: int) -> int {
    if scroll < end_of_file_offset_spec(num_lines, page_height) {
        scroll + 1
    } else {
        scroll
    }
}

pub fn scroll_down(scroll: usize, num_lines: usize, page_height: usize) -> (r: usize)
    ensures
        r == scroll_down_spec(scroll as int, num_lines as int, page_height as int),
{
    if scroll < end_of_file_offset(num_lines, page_height) {
        scroll + 1
    } else {
        scroll
    }
}

/// One line up, stopping at the first line.
pub open spec fn scroll_up_spec(scroll: int) -> int {
    if scroll > 0 {
        scroll - 1
    } else {
        scroll
    }
}

pub fn scroll_up(scroll: usize) -> (r: usize)
    ensures
        r == scroll_up_spec(scroll as int),
{
    if scroll > 0 {
        scroll - 1
    } else {
        scroll
    }
}

/// One page back, floored at the first line.
pub open spec fn move_back_page_spec(scroll: int, page_height: int) -> int {
    if scroll >= page_height {
        scroll - page_height
    } else {
        0
    }
}

pub fn move_back_page(scroll: usize, page_height: usize) -> (r: usize)
    ensures
        r == move_back_page_spec(scroll as int, page_height as int),
{
    if scroll >= page_height {
        scroll - page_height
    } else {
        0
    }
}

/// One page forward, clamped to the end-of-file offset.
pub open spec fn move_forward_page_spec(num_lines: int, scroll: int, page_height: int) -> int {
    let eof = end_of_file_offset_spec(num_lines, page_height);
    if scroll + page_height <= eof {
        scroll + page_height
    } else {
        eof
    }
}

pub fn move_forward_page(num_lines: usize, scroll: usize, page_height: usize) -> (r: usize)
    ensures
        r == move_forward_page_spec(num_lines as int, scroll as int, page_height as int),
{
    let eof = end_of_file_offset(num_lines, page_height);
    if scroll >= eof {
        eof
    } else if eof - scroll <= page_height {
        eof
    } else {
        scroll + page_height
    }
}

/// The first match line strictly after `curr`, scanning the index in order.
pub open spec fn next_match_spec(curr: usize, numbers: Seq<usize>) -> Option<usize>
    decreases numbers.len(),
{
    if numbers.len() == 0 {
        None
    } else if numbers[0] > curr {
        Some(numbers[0])
    } else {
        next_match_spec(curr, numbers.drop_first())
    }
}

/// The last match line strictly before `curr`, scanning the index backward.
pub open spec fn prior_match_spec(curr: usize, numbers: Seq<usize>) -> Option<usize>
    decreases numbers.len(),
{
    if numbers.len() == 0 {
        None
    } else if numbers.last() < curr {
        Some(numbers.last())
    } else {
        prior_match_spec(curr, numbers.drop_last())
    }
}

pub fn scroll_to_next_match(curr_offset: usize, match_line_numbers: &Vec<usize>) -> (r: Option<
    usize,
>)
    ensures
        r == next_match_spec(curr_offset, match_line_numbers@),
{
    let ghost nv = match_line_numbers@;
    proof {
        assert(nv.skip(0) =~= nv);
    }
    let mut i: usize = 0;
    while i < match_line_numbers.len()
        invariant
            i <= nv.len(),
            nv == match_line_numbers@,
            next_match_spec(curr_offset, nv) == next_match_spec(curr_offset, nv.skip(i as int)),
        decreases nv.len() - i,
    {
        proof {
            assert(nv.skip(i as int)[0] == nv[i as int]);
            assert(nv.skip(i as int).drop_first() =~= nv.skip(i + 1));
        }
        if match_line_numbers[i] > curr_offset {
            return Some(match_line_numbers[i]);
        }
        i += 1;
    }
    proof {
        assert(nv.skip(nv.len() as int) =~= Seq::<usize>::empty());
    }
    None
}

pub fn scroll_to_prior_match(curr_offset: usize, match_line_numbers: &Vec<usize>) -> (r: Option<
    usize,
>)
    ensures
        r == prior_match_spec(curr_offset, match_line_numbers@),
{
    let ghost nv = match_line_numbers@;
    proof {
        assert(nv.take(nv.len() as int) =~= nv);
    }
    let mut i: usize = match_line_numbers.len();
    while i > 0
        invariant
            i <= nv.len(),
            nv == match_line_numbers@,
            prior_match_spec(curr_offset, nv) == prior_match_spec(curr_offset, nv.take(i as int)),
        decreases i,
    {
        let idx = i - 1;
        proof {
            assert(nv.take(i as int).last() == nv[idx as int]);
            assert(nv.take(i as int).drop_last() =~= nv.take(idx as int));
        }
        if match_line_numbers[idx] < curr_offset {
            return Some(match_line_numbers[idx]);
        }
        i = idx;
    }
    proof {
        assert(nv.take(0) =~= Seq::<usize>::empty());
    }
    None
}

/// Jump-to-match is a no-op on an empty index, and a forward jump lands on
/// an index entry strictly after the current offset.
pub proof fn lemma_next_match_lands_on_index(curr: usize, numbers: Seq<usize>)
    ensures
        numbers.len() == 0 ==> next_match_spec(curr, numbers) is None,
        next_match_spec(curr, numbers) matches Some(m) ==> numbers.contains(m) && m > curr,
    decreases numbers.len(),
{
    if numbers.len() > 0 && !(numbers[0] > curr) {
        lemma_next_match_lands_on_index(curr, numbers.drop_first());
        match next_match_spec(curr, numbers) {
            Some(m) => {
                let rest = numbers.drop_first();
                assert(rest.contains(m));
                let j = choose|j: int| 0 <= j < rest.len() && rest[j] == m;
                assert(numbers[j + 1] == m);
            },
            None => {},
        }
    }
}

/// Jump-to-match is a no-op on an empty index, and a backward jump lands on
/// an index entry strictly before the current offset.
pub proof fn lemma_prior_match_lands_on_index(curr: usize, numbers: Seq<usize>)
    ensures
        numbers.len() == 0 ==> prior_match_spec(curr, numbers) is None,
        prior_match_spec(curr, numbers) matches Some(m) ==> numbers.contains(m) && m < curr,
    decreases numbers.len(),
{
    if numbers.len() > 0 && !(numbers.last() < curr) {
        lemma_prior_match_lands_on_index(curr, numbers.drop_last());
        match prior_match_spec(curr, numbers) {
            Some(m) => {
                let rest = numbers.drop_last();
                assert(rest.contains(m));
                let j = choose|j: int| 0 <= j < rest.len() && rest[j] == m;
                assert(numbers[j] == m);
            },
            None => {},
        }
    }
}

/// On a strictly increasing index, a forward jump lands exactly on the
/// smallest entry strictly after the current offset, and comes back empty
/// exactly when no entry lies after it.
pub proof fn lemma_next_match_is_smallest(curr: usize, numbers: Seq<usize>)
    requires
        strictly_increasing(numbers),
    ensures
        next_match_spec(curr, numbers) is None ==> forall|j: int|
            0 <= j < numbers.len() ==> #[trigger] numbers[j] <= curr,
        next_match_spec(curr, numbers) matches Some(m) ==> numbers.contains(m) && m > curr
            && forall|j: int| 0 <= j < numbers.len() && #[trigger] numbers[j] > curr ==> m
            <= numbers[j],
    decreases numbers.len(),
{
    lemma_next_match_lands_on_index(curr, numbers);
    if numbers.len() > 0 && !(numbers[0] > curr) {
        let rest = numbers.drop_first();
        assert forall|j: int, k: int| 0 <= j < k < rest.len() implies rest[j] < rest[k] by {
            assert(rest[j] == numbers[j + 1]);
            assert(rest[k] == numbers[k + 1]);
        }
        assert(strictly_increasing(rest));
        lemma_next_match_is_smallest(curr, rest);
        match next_match_spec(curr, numbers) {
            Some(m) => {
                assert forall|j: int| 0 <= j < numbers.len() && #[trigger] numbers[j]
                    > curr implies m <= numbers[j] by {
                    assert(j > 0);
                    assert(rest[j - 1] == numbers[j]);
                }
            },
            None => {
                assert forall|j: int| 0 <= j < numbers.len() implies #[trigger] numbers[j]
                    <= curr by {
                    if j > 0 {
                        assert(rest[j - 1] == numbers[j]);
                    }
                }
            },
        }
    }
}

/// On a strictly increasing index, a backward jump lands exactly on the
/// largest entry strictly before the current offset, and comes back empty
/// exactly when no entry lies before it.
pub proof fn lemma_prior_match_is_largest(curr: usize, numbers: Seq<usize>)
    requires
        strictly_increasing(numbers),
    ensures
        prior_match_spec(curr, numbers) is None ==> forall|j: int|
            0 <= j < numbers.len() ==> #[trigger] numbers[j] >= curr,
        prior_match_spec(curr, numbers) matches Some(m) ==> numbers.contains(m) && m < curr
            && forall|j: int| 0 <= j < numbers.len() && #[trigger] numbers[j] < curr ==> m
            >= numbers[j],
    decreases numbers.len(),
{
    lemma_prior_match_lands_on_index(curr, numbers);
    if numbers.len() > 0 {
        if numbers.last() < curr {
            let m = numbers.last();
            assert forall|j: int| 0 <= j < numbers.len() && #[trigger] numbers[j]
                < curr implies m >= numbers[j] by {
                if j < numbers.len() - 1 {
                    assert(numbers[j] < numbers[numbers.len() - 1]);
                }
            }
        } else {
            let rest = numbers.drop_last();
            assert forall|j: int, k: int| 0 <= j < k < rest.len() implies rest[j] < rest[k] by {
                assert(rest[j] == numbers[j]);
                assert(rest[k] == numbers[k]);
            }
            assert(strictly_increasing(rest));
            lemma_prior_match_is_largest(curr, rest);
            match prior_match_spec(curr, numbers) {
                Some(m) => {
                    assert forall|j: int| 0 <= j < numbers.len() && #[trigger] numbers[j]
                        < curr implies m >= numbers[j] by {
                        assert(j < numbers.len() - 1);
                        assert(rest[j] == numbers[j]);
                    }
                },
                None => {
                    assert forall|j: int| 0 <= j < numbers.len() implies #[trigger] numbers[j]
                        >= curr by {
                        if j < numbers.len() - 1 {
                            assert(rest[j] == numbers[j]);
                        }
                    }
                },
            }
        }
    }
}

/// Where a forward jump puts the scroll offset: the landing line, or the
/// old offset when there is no later match.
pub open spec fn jump_next(scroll: usize, numbers: Seq<usize>) -> usize {
    match next_match_spec(scroll, numbers) {
        Some(m) => m,
        None => scroll,
    }
}

/// Where a backward jump puts the scroll offset.
pub open spec fn jump_prior(scroll: usize, numbers: Seq<usize>) -> usize {
    match prior_match_spec(scroll, numbers) {
        Some(m) => m,
        None => scroll,
    }
}

impl TerminalState {
    pub open spec fn wf(&self) -> bool {
        self.text_state.wf()
    }

    /// No command mode is active: keys scroll and quit.
    pub open spec fn is_normal_mode(&self) -> bool {
        self.command.prompt == CommandCharacter::Normal
    }

    /// A fresh view over `content`: running, scrolled to the top, idle
    /// prompt, the document shown plain.
    pub fn new(content: String) -> (r: TerminalState)
        ensures
            r.wf(),
            r.running,
            r.scroll_offset == 0,
            r.is_normal_mode(),
            r.command.command_text@ == Seq::<char>::empty(),
            r.text_state.content@ == content@,
            r.text_state.text@ == plain_styled(lines_spec(content@)),
            r.text_state.next_pattern@ == Seq::<usize>::empty(),
            r.text_state.pattern_history.patterns() == seq![Seq::<char>::empty()],
            r.text_state.pattern_history.cursor() == 0,
    {
        TerminalState {
            running: true,
            scroll_offset: 0,
            command: Command::new(CommandCharacter::Normal),
            text_state: TextState::new(content),
        }
    }

    pub fn normal_mode(&self) -> (r: bool)
        ensures
            r == self.is_normal_mode(),
    {
        self.command.prompt == CommandCharacter::Normal
    }

    /// How many lines the displayed text has.
    pub fn line_count(&self) -> (r: usize)
        ensures
            r == self.text_state.text@.len(),
    {
        self.text_state.text.lines.len()
    }

    /// The window of displayed lines the renderer should draw: start and end
    /// offsets into the displayed text, both clamped to its line count.
    pub fn visible_window(&self, page_height: usize) -> (r: (usize, usize))
        ensures
            r.0 == if self.scroll_offset as int <= self.text_state.text@.len() {
                self.scroll_offset as int
            } else {
                self.text_state.text@.len() as int
            },
            r.1 == if r.0 + page_height <= self.text_state.text@.len() {
                r.0 + page_height
            } else {
                self.text_state.text@.len() as int
            },
            r.0 <= r.1 <= self.text_state.text@.len(),
    {
        let count = self.text_state.text.lines.len();
        let start = if self.scroll_offset <= count {
            self.scroll_offset
        } else {
            count
        };
        let end = if count - start <= page_height {
            count
        } else {
            start + page_height
        };
        (start, end)
    }

    /// Takes in what a file read produced: new content replaces the
    /// document, shown plain with an empty match index; no content leaves
    /// the whole state unchanged.
    pub fn apply_file_read(&mut self, read_result: Option<String>)
        requires
            old(self).wf(),
        ensures
            final(self).wf(),
            final(self).running == old(self).running,
            final(self).scroll_offset == old(self).scroll_offset,
            final(self).command == old(self).command,
            match read_result {
                Some(content) => {
                    &&& final(self).text_state.content@ == content@
                    &&& final(self).text_state.text@ == plain_styled(lines_spec(content@))
                    &&& final(self).text_state.next_pattern@ == Seq::<usize>::empty()
                    &&& final(self).text_state.pattern_history == old(
                        self,
                    ).text_state.pattern_history
                },
                None => *final(self) == *old(self),
            },
    {
        self.text_state.change_file(read_result);
    }
}

/// What must hold of the next state when only the scroll offset moves.
pub open spec fn scroll_only(pre: TerminalState, post: TerminalState, scroll: int) -> bool {
    &&& post.running == pre.running
    &&& post.command == pre.command
    &&& post.text_state == pre.text_state
    &&& post.scroll_offset == scroll
}

/// The transition taken from normal mode, one case per key.
pub open spec fn normal_step(
    pre: TerminalState,
    key: Key,
    page_height: usize,
    post: TerminalState,
) -> bool {
    let n = pre.text_state.text@.len() as int;
    let s = pre.scroll_offset as int;
    let p = page_height as int;
    match key {
        Key::Up => scroll_only(pre, post, scroll_up_spec(s)),
        Key::Down => scroll_only(pre, post, scroll_down_spec(s, n, p)),
        Key::Char(c) => if c == 'k' {
            scroll_only(pre, post, scroll_up_spec(s))
        } else if c == 'j' {
            scroll_only(pre, post, scroll_down_spec(s, n, p))
        } else if c == 'q' {
            &&& !post.running
            &&& post.scroll_offset == pre.scroll_offset
            &&& post.command == pre.command
            &&& post.text_state == pre.text_state
        } else if c == 'g' {
            scroll_only(pre, post, 0)
        } else if c == 'G' {
            scroll_only(pre, post, end_of_file_offset_spec(n, p))
        } else if c == 'n' {
            scroll_only(
                pre,
                post,
                jump_next(pre.scroll_offset, pre.text_state.next_pattern@) as int,
            )
        } else if c == 'N' {
            scroll_only(
                pre,
                post,
                jump_prior(pre.scroll_offset, pre.text_state.next_pattern@) as int,
            )
        } else if c == 'b' {
            scroll_only(pre, post, move_back_page_spec(s, p))
        } else if c == 'f' || c == 'B' {
            scroll_only(pre, post, move_forward_page_spec(n, s, p))
        } else {
            match mode_of_char(c) {
                Some(mode) => {
                    &&& post.running == pre.running
                    &&& post.scroll_offset == pre.scroll_offset
                    &&& post.text_state == pre.text_state
                    &&& post.command.prompt == mode
                    &&& post.command.command_text@ == Seq::<char>::empty()
                },
                None => post == pre,
            }
        },
        _ => post == pre,
    }
}

/// What must hold after a command session ends: idle prompt, history cursor
/// back at the sentinel, everything else untouched.
pub open spec fn exit_to_normal(pre: TerminalState, post: TerminalState) -> bool {
    &&& post.running == pre.running
    &&& post.scroll_offset == pre.scroll_offset
    &&& post.command.prompt == CommandCharacter::Normal
    &&& post.command.command_text@ == Seq::<char>::empty()
    &&& post.text_state.pattern_history.patterns() == pre.text_state.pattern_history.patterns()
    &&& post.text_state.pattern_history.cursor() == 0
    &&& post.text_state.next_pattern == pre.text_state.next_pattern
    &&& post.text_state.text == pre.text_state.text
    &&& post.text_state.content == pre.text_state.content
}

/// What dispatching the typed command to the text model does, before the
/// prompt is reset: filter and search transform the model (a rejected
/// pattern leaves it untouched), a file change only asks for a read.
pub open spec fn dispatched(pre: TerminalState, post: TerminalState, req: Option<String>) -> bool {
    let buffer = pre.command.command_text@;
    let content = pre.text_state.content@;
    let patterns = pre.text_state.pattern_history.patterns();
    &&& post.running == pre.running
    &&& post.command == pre.command
    &&& match pre.command.prompt {
        CommandCharacter::MatchLines => {
            &&& req is None
            &&& (buffer.len() == 0 ==> pattern_ok(buffer))
            &&& if pattern_ok(buffer) {
                &&& post.scroll_offset == 0
                &&& post.text_state.content@ == content
                &&& post.text_state.text@ == plain_styled(
                    filtered_lines(buffer, lines_spec(content)),
                )
                &&& post.text_state.next_pattern@ == match_line_indices(
                    buffer,
                    lines_spec(content),
                )
                &&& (buffer.len() == 0 ==> post.text_state.next_pattern@ == all_line_indices(
                    lines_spec(content).len() as int,
                ))
                &&& post.text_state.pattern_history.patterns() == history_after_submit(
                    patterns,
                    buffer,
                )
                &&& post.text_state.pattern_history.cursor()
                    == pre.text_state.pattern_history.cursor()
            } else {
                &&& post.scroll_offset == pre.scroll_offset
                &&& post.text_state == pre.text_state
            }
        },
        CommandCharacter::Search => {
            &&& req is None
            &&& post.scroll_offset == pre.scroll_offset
            &&& (buffer.len() == 0 ==> pattern_ok(buffer))
            &&& if pattern_ok(buffer) {
                &&& post.text_state.content@ == content
                &&& post.text_state.text@ == search_styled(buffer, lines_spec(content))
                &&& post.text_state.next_pattern@ == match_line_indices(
                    buffer,
                    lines_spec(content),
                )
                &&& (buffer.len() == 0 ==> post.text_state.next_pattern@ == all_line_indices(
                    lines_spec(content).len() as int,
                ))
                &&& post.text_state.pattern_history.patterns() == history_after_submit(
                    patterns,
                    buffer,
                )
                &&& post.text_state.pattern_history.cursor()
                    == pre.text_state.pattern_history.cursor()
            } else {
                post.text_state == pre.text_state
            }
        },
        CommandCharacter::ChangeFile => {
            &&& (req matches Some(path) && path@ == buffer)
            &&& post.scroll_offset == 0
            &&& post.text_state == pre.text_state
        },
        CommandCharacter::Normal => post == pre && req is None,
    }
}

/// The transition taken on `Enter`: the command is dispatched, then the
/// session ends (prompt reset, history cursor reset).
pub open spec fn submit_step(pre: TerminalState, post: TerminalState, req: Option<String>) -> bool {
    let buffer = pre.command.command_text@;
    let content = pre.text_state.content@;
    let patterns = pre.text_state.pattern_history.patterns();
    &&& post.running == pre.running
    &&& post.command.prompt == CommandCharacter::Normal
    &&& post.command.command_text@ == Seq::<char>::empty()
    &&& post.text_state.pattern_history.cursor() == 0
    &&& match pre.command.prompt {
        CommandCharacter::MatchLines => {
            &&& req is None
            &&& (buffer.len() == 0 ==> pattern_ok(buffer))
            &&& if pattern_ok(buffer) {
                &&& post.scroll_offset == 0
                &&& post.text_state.content@ == content
                &&& post.text_state.text@ == plain_styled(
                    filtered_lines(buffer, lines_spec(content)),
                )
                &&& post.text_state.next_pattern@ == match_line_indices(
                    buffer,
                    lines_spec(content),
                )
                &&& (buffer.len() == 0 ==> post.text_state.next_pattern@ == all_line_indices(
                    lines_spec(content).len() as int,
                ))
                &&& post.text_state.pattern_history.patterns() == history_after_submit(
                    patterns,
                    buffer,
                )
            } else {
                &&& post.scroll_offset == pre.scroll_offset
                &&& post.text_state.content == pre.text_state.content
                &&& post.text_state.text == pre.text_state.text
                &&& post.text_state.next_pattern == pre.text_state.next_pattern
                &&& post.text_state.pattern_history.patterns() == patterns
            }
        },
        CommandCharacter::Search => {
            &&& req is None
            &&& post.scroll_offset == pre.scroll_offset
            &&& (buffer.len() == 0 ==> pattern_ok(buffer))
            &&& if pattern_ok(buffer) {
                &&& post.text_state.content@ == content
                &&& post.text_state.text@ == search_styled(buffer, lines_spec(content))
                &&& post.text_state.next_pattern@ == match_line_indices(
                    buffer,
                    lines_spec(content),
                )
                &&& (buffer.len() == 0 ==> post.text_state.next_pattern@ == all_line_indices(
                    lines_spec(content).len() as int,
                ))
                &&& post.text_state.pattern_history.patterns() == history_after_submit(
                    patterns,
                    buffer,
                )
            } else {
                &&& post.text_state.content == pre.text_state.content
                &&& post.text_state.text == pre.text_state.text
                &&& post.text_state.next_pattern == pre.text_state.next_pattern
                &&& post.text_state.pattern_history.patterns() == patterns
            }
        },
        CommandCharacter::ChangeFile => {
            &&& (req matches Some(path) && path@ == buffer)
            &&& post.scroll_offset == 0
            &&& post.text_state.content == pre.text_state.content
            &&& post.text_state.text == pre.text_state.text
            &&& post.text_state.next_pattern == pre.text_state.next_pattern
            &&& post.text_state.pattern_history.patterns() == patterns
        },
        CommandCharacter::Normal => true,
    }
}

/// The buffer after the history handed back an entry, or unchanged.
pub open spec fn history_prior_step(pre: TerminalState, post: TerminalState) -> bool {
    let patterns = pre.text_state.pattern_history.patterns();
    let cursor = pre.text_state.pattern_history.cursor();
    &&& post.running == pre.running
    &&& post.scroll_offset == pre.scroll_offset
    &&& post.command.prompt == pre.command.prompt
    &&& post.text_state.next_pattern == pre.text_state.next_pattern
    &&& post.text_state.text == pre.text_state.text
    &&& post.text_state.content == pre.text_state.content
    &&& post.text_state.pattern_history.patterns() == patterns
    &&& match prior_pattern(patterns, cursor) {
        Some(entry) => {
            &&& post.command.command_text@ == entry
            &&& post.text_state.pattern_history.cursor() == cursor + 1
        },
        None => {
            &&& post.command.command_text == pre.command.command_text
            &&& post.text_state.pattern_history.cursor() == cursor
        },
    }
}

/// The buffer after the history stepped back toward the sentinel.
pub open spec fn history_next_step(pre: TerminalState, post: TerminalState) -> bool {
    let patterns = pre.text_state.pattern_history.patterns();
    let cursor = pre.text_state.pattern_history.cursor();
    &&& post.running == pre.running
    &&& post.scroll_offset == pre.scroll_offset
    &&& post.command.prompt == pre.command.prompt
    &&& post.text_state.next_pattern == pre.text_state.next_pattern
    &&& post.text_state.text == pre.text_state.text
    &&& post.text_state.content == pre.text_state.content
    &&& post.text_state.pattern_history.patterns() == patterns
    &&& match next_pattern(patterns, cursor) {
        Some(entry) => {
            &&& post.command.command_text@ == entry
            &&& post.text_state.pattern_history.cursor() == cursor - 1
        },
        None => {
            &&& post.command.command_text == pre.command.command_text
            &&& post.text_state.pattern_history.cursor() == cursor
        },
    }
}

/// The transition taken in command-entry mode, one case per key.
pub open spec fn command_step(
    pre: TerminalState,
    key: Key,
    post: TerminalState,
    req: Option<String>,
) -> bool {
    match key {
        Key::Char(c) => {
            &&& req is None
            &&& post.running == pre.running
            &&& post.scroll_offset == pre.scroll_offset
            &&& post.text_state == pre.text_state
            &&& post.command.prompt == pre.command.prompt
            &&& post.command.command_text@ == pre.command.command_text@.push(c)
        },
        Key::Backspace => req is None && if pre.command.command_text@.len() == 0 {
            exit_to_normal(pre, post)
        } else {
            &&& post.running == pre.running
            &&& post.scroll_offset == pre.scroll_offset
            &&& post.text_state == pre.text_state
            &&& post.command.prompt == pre.command.prompt
            &&& post.command.command_text@ == pre.command.command_text@.drop_last()
        },
        Key::Enter => submit_step(pre, post, req),
        Key::Up => req is None && history_prior_step(pre, post),
        Key::Down => req is None && history_next_step(pre, post),
        _ => req is None && post == pre,
    }
}

/// One key, one transition: in normal mode keys scroll, quit or open a
/// command prompt; in command-entry mode they edit, navigate history, or
/// submit.  A `;`-command hands back the path to read; everything else asks
/// for nothing.
pub fn parse_input(key: Key, terminal_state: TerminalState, page_height: usize) -> (r: (
    TerminalState,
    Option<String>,
))
    requires
        terminal_state.wf(),
    ensures
        r.0.wf(),
        terminal_state.is_normal_mode() ==> normal_step(terminal_state, key, page_height, r.0)
            && r.1 is None,
        !terminal_state.is_normal_mode() ==> command_step(terminal_state, key, r.0, r.1),
{
    if terminal_state.normal_mode() {
        (parse_normal(key, terminal_state, page_height), None)
    } else {
        parse_command(key, terminal_state)
    }
}

fn parse_normal(key: Key, terminal_state: TerminalState, page_height: usize) -> (r: TerminalState)
    requires
        terminal_state.wf(),
    ensures
        r.wf(),
        normal_step(terminal_state, key, page_height, r),
{
    let mut ts = terminal_state;
    match key {
        Key::Up | Key::Char('k') => {
            ts.scroll_offset = scroll_up(ts.scroll_offset);
        },
        Key::Down | Key::Char('j') => {
            let num_lines = ts.text_state.text.lines.len();
            ts.scroll_offset = scroll_down(ts.scroll_offset, num_lines, page_height);
        },
        Key::Char('q') => {
            ts.running = false;
        },
        Key::Char('g') => {
            ts.scroll_offset = 0;
        },
        Key::Char('G') => {
            let num_lines = ts.text_state.text.lines.len();
            ts.scroll_offset = end_of_file_offset(num_lines, page_height);
        },
        Key::Char('n') => {
            if let Some(next_match_scroll_offset) = scroll_to_next_match(
                ts.scroll_offset,
                &ts.text_state.next_pattern,
            ) {
                ts.scroll_offset = next_match_scroll_offset;
            }
        },
        Key::Char('N') => {
            if let Some(prior_match_scroll_offset) = scroll_to_prior_match(
                ts.scroll_offset,
                &ts.text_state.next_pattern,
            ) {
                ts.scroll_offset = prior_match_scroll_offset;
            }
        },
        Key::Char('b') => {
            ts.scroll_offset = move_back_page(ts.scroll_offset, page_height);
        },
        Key::Char('f') | Key::Char('B') => {
            let num_lines = ts.text_state.text.lines.len();
            ts.scroll_offset = move_forward_page(num_lines, ts.scroll_offset, page_height);
        },
        Key::Char(c) => {
            if let Some(command_character) = CommandCharacter::command_character(c) {
                ts.command = Command::new(command_character);
            }
        },
        _ => {},
    }
    ts
}

fn parse_command(key: Key, terminal_state: TerminalState) -> (r: (TerminalState, Option<String>))
    requires
        terminal_state.wf(),
        !terminal_state.is_normal_mode(),
    ensures
        r.0.wf(),
        command_step(terminal_state, key, r.0, r.1),
{
    let mut ts = terminal_state;
    match key {
        Key::Char(c) => {
            push_char(&mut ts.command.command_text, c);
            (ts, None)
        },
        Key::Backspace => {
            if ts.command.command_text.as_str().is_empty() {
                (handle_normal_mode_transition(ts), None)
            } else {
                pop_char(&mut ts.command.command_text);
                (ts, None)
            }
        },
        Key::Enter => {
            let (dispatched_state, request) = update_text_state(ts);
            (handle_normal_mode_transition(dispatched_state), request)
        },
        Key::Up => {
            if let Some(prior) = ts.text_state.pattern_history.get_prior_pattern() {
                ts.command.command_text = prior;
            }
            (ts, None)
        },
        Key::Down => {
            if let Some(next) = ts.text_state.pattern_history.get_next_pattern() {
                ts.command.command_text = next;
            }
            (ts, None)
        },
        _ => (ts, None),
    }
}

/// Ends the command session: idle prompt, history cursor at the sentinel.
fn handle_normal_mode_transition(terminal_state: TerminalState) -> (r: TerminalState)
    requires
        terminal_state.wf(),
    ensures
        r.wf(),
        exit_to_normal(terminal_state, r),
{
    let mut ts = terminal_state;
    ts.command = Command::new(CommandCharacter::Normal);
    ts.text_state.pattern_history.reset_index();
    ts
}

/// Dispatches the typed command: filter and search transform the text model
/// in place (resetting the scroll only for a filter); a file change resets
/// the scroll and hands back the path to read.
fn update_text_state(terminal_state: TerminalState) -> (r: (TerminalState, Option<String>))
    requires
        terminal_state.wf(),
    ensures
        r.0.wf(),
        dispatched(terminal_state, r.0, r.1),
{
    let mut ts = terminal_state;
    match ts.command.prompt {
        CommandCharacter::MatchLines => {
            let submitted = ts.text_state.match_lines(ts.command.command_text.as_str());
            if submitted.is_ok() {
                ts.scroll_offset = 0;
            }
            (ts, None)
        },
        CommandCharacter::Search => {
            let _ = ts.text_state.perform_search(ts.command.command_text.as_str());
            (ts, None)
        },
        CommandCharacter::ChangeFile => {
            ts.scroll_offset = 0;
            let path = ts.command.command_text.clone();
            (ts, Some(path))
        },
        CommandCharacter::Normal => (ts, None),
    }
}

/// One scrolling event, as the lemmas below fold them over a state.
pub enum ScrollEvent {
    LineDown,
    PageForward,
    LineUp,
    PageBack,
}

/// The scroll offset after one event.
pub open spec fn apply_scroll_event(
    scroll: int,
    event: ScrollEvent,
    num_lines: int,
    page_height: int,
) -> int {
    match event {
        ScrollEvent::LineDown => scroll_down_spec(scroll, num_lines, page_height),
        ScrollEvent::PageForward => move_forward_page_spec(num_lines, scroll, page_height),
        ScrollEvent::LineUp => scroll_up_spec(scroll),
        ScrollEvent::PageBack => move_back_page_spec(scroll, page_height),
    }
}

/// The scroll offset after a whole sequence of events, applied in order.
pub open spec fn apply_scroll_events(
    scroll: int,
    events: Seq<ScrollEvent>,
    num_lines: int,
    page_height: int,
) -> int
    decreases events.len(),
{
    if events.len() == 0 {
        scroll
    } else {
        apply_scroll_event(
            apply_scroll_events(scroll, events.drop_last(), num_lines, page_height),
            events.last(),
            num_lines,
            page_height,
        )
    }
}

/// However many line-down and page-forward events arrive, the scroll offset
/// never passes the end-of-file offset.
pub proof fn lemma_forward_scrolling_clamped(
    scroll: int,
    events: Seq<ScrollEvent>,
    num_lines: int,
    page_height: int,
)
    requires
        0 <= num_lines,
        0 <= page_height,
        0 <= scroll <= end_of_file_offset_spec(num_lines, page_height),
        forall|i: int|
            0 <= i < events.len() ==> events[i] == ScrollEvent::LineDown || events[i]
                == ScrollEvent::PageForward,
    ensures
        0 <= apply_scroll_events(scroll, events, num_lines, page_height)
            <= end_of_file_offset_spec(num_lines, page_height),
    decreases events.len(),
{
    if events.len() > 0 {
        assert(forall|i: int|
            0 <= i < events.drop_last().len() ==> events.drop_last()[i] == events[i]);
        lemma_forward_scrolling_clamped(scroll, events.drop_last(), num_lines, page_height);
        assert(events.last() == events[events.len() - 1]);
    }
}

/// However many line-up and page-back events arrive, the scroll offset
/// never drops below zero, and never rises.
pub proof fn lemma_backward_scrolling_floored(
    scroll: int,
    events: Seq<ScrollEvent>,
    num_lines: int,
    page_height: int,
)
    requires
        0 <= scroll,
        0 <= page_height,
        forall|i: int|
            0 <= i < events.len() ==> events[i] == ScrollEvent::LineUp || events[i]
                == ScrollEvent::PageBack,
    ensures
        0 <= apply_scroll_events(scroll, events, num_lines, page_height) <= scroll,
    decreases events.len(),
{
    if events.len() > 0 {
        assert(forall|i: int|
            0 <= i < events.drop_last().len() ==> events.drop_last()[i] == events[i]);
        lemma_backward_scrolling_floored(scroll, events.drop_last(), num_lines, page_height);
        assert(events.last() == events[events.len() - 1]);
    }
}

} // verus!
