//! The editing session: a gap buffer, its line index and a caret, changed only
//! by commands.
use crate::command::{
    alphabetic, command_for, command_of, is_alphabetic, Action, Command, Key, Modifiers,
};
use crate::gap_buffer::{spliced, GapBuffer, GAP_SIZE};
use crate::lines::{
    build_lines, is_line_index, is_line_of, joined, lemma_lines_rebuild_text, lemma_row_of_holds,
    line_chars, newline_terminated, row_of, row_of_offset, saturated, visual_width, Line,
};
use vstd::prelude::*;

verus! {

/// `s`, with a newline put at its end where it does not end with one.
pub open spec fn normalized(s: Seq<char>) -> Seq<char> {
    if newline_terminated(s) {
        s
    } else {
        s.push('\n')
    }
}

/// A character that continues a word: alphabetic, or an underscore.
pub open spec fn word_char(c: char) -> bool {
    alphabetic(c) || c == '_'
}

pub fn is_word_char(c: char) -> (r: bool)
    ensures
        r == word_char(c),
{
    is_alphabetic(c) || c == '_'
}

/// From `p`, step right over characters that cannot start a word; the last
/// character of the text is never stepped over.
pub open spec fn skip_gap_right(s: Seq<char>, p: int) -> int
    decreases s.len() - p,
{
    if 0 <= p < s.len() - 1 && !alphabetic(s[p]) {
        skip_gap_right(s, p + 1)
    } else {
        p
    }
}

/// From `p`, step right over word characters; the last character of the text
/// is never stepped over.
pub open spec fn skip_word_right(s: Seq<char>, p: int) -> int
    decreases s.len() - p,
{
    if 0 <= p < s.len() - 1 && word_char(s[p]) {
        skip_word_right(s, p + 1)
    } else {
        p
    }
}

/// From `p`, step left over characters that cannot start a word.
pub open spec fn skip_gap_left(s: Seq<char>, p: int) -> int
    decreases p,
{
    if 0 < p <= s.len() && !alphabetic(s[p - 1]) {
        skip_gap_left(s, p - 1)
    } else {
        p
    }
}

/// From `p`, step left over word characters.
pub open spec fn skip_word_left(s: Seq<char>, p: int) -> int
    decreases p,
{
    if 0 < p <= s.len() && word_char(s[p - 1]) {
        skip_word_left(s, p - 1)
    } else {
        p
    }
}

/// The end of the next word at or after `p`.
pub open spec fn word_right(s: Seq<char>, p: int) -> int {
    skip_word_right(s, skip_gap_right(s, p))
}

/// The start of the word before `p`.
pub open spec fn word_left(s: Seq<char>, p: int) -> int {
    skip_word_left(s, skip_gap_left(s, p))
}

/// The line that holds `pos`.
pub open spec fn line_at(lines: Seq<Line>, pos: int) -> Line {
    lines[row_of(lines, pos)]
}

/// The screen column of `pos`: its offset in its line, each tab before it on
/// the line counting `tab_size` columns.
pub open spec fn visual_col(s: Seq<char>, lines: Seq<Line>, pos: int, tab_size: nat) -> nat {
    saturated(visual_width(s.subrange(line_at(lines, pos).start as int, pos), tab_size))
}

/// Where a vertical move from `pos` to row `row` lands: the same screen column,
/// or the end of that line where it is shorter.
pub open spec fn vertical_target(
    s: Seq<char>,
    lines: Seq<Line>,
    pos: int,
    tab_size: nat,
    row: int,
) -> int {
    let l = lines[row];
    let col = visual_col(s, lines, pos, tab_size);
    if col <= l.end - l.start {
        l.start + col
    } else {
        l.end as int
    }
}

/// The content after `cmd`, from content `s`, line index `lines` and caret `c`.
pub open spec fn next_content(s: Seq<char>, lines: Seq<Line>, c: int, cmd: Command) -> Seq<
    char,
> {
    match cmd {
        Command::Insert(ch) => s.insert(c, ch),
        Command::Backspace => if c > 0 {
            s.remove(c - 1)
        } else {
            s
        },
        Command::Delete => if c < s.len() - 1 {
            s.remove(c)
        } else {
            s
        },
        Command::DeleteWordLeft => s.subrange(0, word_left(s, c)) + s.subrange(c, s.len() as int),
        Command::DeleteWordRight => s.subrange(0, c) + s.subrange(word_right(s, c), s.len() as int),
        Command::Unindent => if s[line_at(lines, c).start as int] == '\t' {
            s.remove(line_at(lines, c).start as int)
        } else {
            s
        },
        _ => s,
    }
}

/// The caret after `cmd`, from content `s`, line index `lines` and caret `c`.
pub open spec fn next_caret(s: Seq<char>, lines: Seq<Line>, c: int, tab_size: nat, cmd: Command) -> int {
    match cmd {
        Command::Insert(_) => c + 1,
        Command::Backspace => if c > 0 {
            c - 1
        } else {
            c
        },
        Command::Left => if c > 0 {
            c - 1
        } else {
            c
        },
        Command::Right => if c < s.len() - 1 {
            c + 1
        } else {
            c
        },
        Command::WordLeft => word_left(s, c),
        Command::DeleteWordLeft => word_left(s, c),
        Command::WordRight => word_right(s, c),
        Command::Up => if row_of(lines, c) == 0 {
            0
        } else {
            vertical_target(s, lines, c, tab_size, row_of(lines, c) - 1)
        },
        Command::Down => if row_of(lines, c) == lines.len() - 1 {
            s.len() - 1
        } else {
            vertical_target(s, lines, c, tab_size, row_of(lines, c) + 1)
        },
        Command::DocumentStart => 0,
        Command::DocumentEnd => s.len() - 1,
        Command::LineStart => line_at(lines, c).start as int,
        Command::LineEnd => line_at(lines, c).end as int,
        Command::Unindent => if s[line_at(lines, c).start as int] == '\t' && c > line_at(
            lines,
            c,
        ).start {
            c - 1
        } else {
            c
        },
        _ => c,
    }
}

/// The action that `cmd` hands to the editor's surroundings, if any.
pub open spec fn delegated(cmd: Command) -> Option<Action> {
    match cmd {
        Command::Delegate(a) => Some(a),
        _ => None,
    }
}

/// `after` is the well-formed session that `cmd` leads to from `before`.
pub open spec fn follows(after: Editor, before: Editor, cmd: Command) -> bool {
    &&& after.wf()
    &&& after.content() == next_content(before.content(), before.spans(), before.caret(), cmd)
    &&& after.caret() == next_caret(
        before.content(),
        before.spans(),
        before.caret(),
        before.tab_width(),
        cmd,
    )
    &&& after.tab_width() == before.tab_width()
}

proof fn lemma_skip_right_bounds(s: Seq<char>, p: int)
    requires
        0 <= p < s.len(),
    ensures
        p <= skip_gap_right(s, p) < s.len(),
        p <= skip_word_right(s, p) < s.len(),
    decreases s.len() - p,
{
    if p < s.len() - 1 {
        lemma_skip_right_bounds(s, p + 1);
    }
}

proof fn lemma_skip_left_bounds(s: Seq<char>, p: int)
    requires
        0 <= p <= s.len(),
    ensures
        0 <= skip_gap_left(s, p) <= p,
        0 <= skip_word_left(s, p) <= p,
    decreases p,
{
    if p > 0 {
        lemma_skip_left_bounds(s, p - 1);
    }
}

/// Offsets of a word scan stay inside the text: right scans stop before its
/// end, left scans at or after its start.
pub proof fn lemma_word_bounds(s: Seq<char>, p: int)
    requires
        0 <= p < s.len(),
    ensures
        p <= word_right(s, p) < s.len(),
        0 <= word_left(s, p) <= p,
{
    lemma_skip_right_bounds(s, p);
    lemma_skip_right_bounds(s, skip_gap_right(s, p));
    lemma_skip_left_bounds(s, p);
    lemma_skip_left_bounds(s, skip_gap_left(s, p));
}

/// Normalizing twice gives what normalizing once gives: content saved and
/// loaded again is what was loaded.
pub proof fn lemma_normalized_is_stable(t: Seq<char>)
    ensures
        normalized(normalized(t)) == normalized(t),
        newline_terminated(normalized(t)),
{
}

pub struct Editor {
    buffer: GapBuffer,
    lines: Vec<Line>,
    caret: usize,
    tab_size: usize,
}

impl Editor {
    /// The text being edited.
    pub closed spec fn content(&self) -> Seq<char> {
        self.buffer@
    }

    /// The caret's absolute offset into the content.
    pub closed spec fn caret(&self) -> int {
        self.caret as int
    }

    /// The line index of the content.
    pub closed spec fn spans(&self) -> Seq<Line> {
        self.lines@
    }

    /// Columns that a tab takes on screen.
    pub closed spec fn tab_width(&self) -> nat {
        self.tab_size as nat
    }

    /// `n` more characters can be put in, newline and fresh gap included,
    /// without the storage's size leaving `usize`.
    pub closed spec fn has_room(&self, n: nat) -> bool {
        self.buffer.capacity() + n + 2 * GAP_SIZE + 1 <= usize::MAX
    }

    /// The content is newline-terminated, the line index is the content's,
    /// and the caret stands on a character of the content.
    pub closed spec fn wf(&self) -> bool {
        &&& self.buffer.wf()
        &&& newline_terminated(self.buffer@)
        &&& is_line_index(self.buffer@, self.lines@)
        &&& self.caret < self.buffer@.len()
        &&& self.tab_size >= 1
    }

    /// In every state of a session the caret lies within the content, the
    /// content ends with a newline, and the lines' texts, each followed by a
    /// newline, make up the content.
    pub proof fn lemma_session_invariants(&self)
        requires
            self.wf(),
        ensures
            0 <= self.caret() <= self.content().len(),
            newline_terminated(self.content()),
            is_line_index(self.content(), self.spans()),
            joined(self.content(), self.spans()) == self.content(),
    {
        lemma_lines_rebuild_text(self.buffer@, self.lines@);
    }

    /// Puts a newline at the end of the content where it has none, and
    /// rebuilds the line index.
    fn refresh(&mut self)
        requires
            old(self).buffer.wf(),
            old(self).buffer.capacity() + 1 + GAP_SIZE <= usize::MAX,
        ensures
            final(self).buffer.wf(),
            final(self).buffer@ == normalized(old(self).buffer@),
            is_line_index(final(self).buffer@, final(self).lines@),
            final(self).buffer.capacity() <= old(self).buffer.capacity() + 1 + GAP_SIZE,
            final(self).caret == old(self).caret,
            final(self).tab_size == old(self).tab_size,
    {
        let n = self.buffer.len();
        if n == 0 || self.buffer.at(n - 1) != '\n' {
            self.buffer.insert_char('\n', n);
            assert(self.buffer@ =~= old(self).buffer@.push('\n'));
        }
        let v = self.buffer.to_vec();
        self.lines = build_lines(&v);
    }

    /// A session on an empty document: a single empty line.
    pub fn new(tab_size: usize) -> (r: Editor)
        requires
            tab_size >= 1,
        ensures
            r.wf(),
            r.content() == seq!['\n'],
            r.caret() == 0,
            r.tab_width() == tab_size,
            forall|n: nat| n + 5 * GAP_SIZE <= usize::MAX ==> #[trigger] r.has_room(n),
    {
        let mut e = Editor { buffer: GapBuffer::new(), lines: Vec::new(), caret: 0, tab_size };
        e.refresh();
        assert(e.buffer@ =~= seq!['\n']);
        e
    }

    /// Whether `n` more characters can be put in: what inserting, pasting and
    /// key commands ask of the session.
    pub fn has_room_for(&self, n: usize) -> (r: bool)
        ensures
            r == self.has_room(n as nat),
    {
        n <= usize::MAX - GAP_SIZE - 1 && self.buffer.room_for(n + GAP_SIZE + 1)
    }

    /// The caret's absolute offset.
    pub fn caret_pos(&self) -> (r: usize)
        ensures
            r == self.caret(),
    {
        self.caret
    }

    /// Columns that a tab takes on screen.
    pub fn tab_size(&self) -> (r: usize)
        ensures
            r == self.tab_width(),
    {
        self.tab_size
    }

    /// Number of characters of content.
    pub fn len(&self) -> (r: usize)
        requires
            self.wf(),
        ensures
            r == self.content().len(),
    {
        self.buffer.len()
    }

    /// The content as a string: what saving writes.
    pub fn content_as_text(&self) -> (r: String)
        requires
            self.wf(),
        ensures
            r@ == self.content(),
    {
        self.buffer.to_string()
    }

    /// The character under the caret.
    pub fn char_at_caret(&self) -> (r: char)
        requires
            self.wf(),
        ensures
            r == self.content()[self.caret()],
    {
        self.buffer.at(self.caret)
    }

    /// Number of lines.
    pub fn line_count(&self) -> (r: usize)
        requires
            self.wf(),
        ensures
            r == self.spans().len(),
            r >= 1,
    {
        self.lines.len()
    }

    /// The text of line `i`, without its newline.
    pub fn line_text(&self, i: usize) -> (r: String)
        requires
            self.wf(),
            i < self.spans().len(),
        ensures
            r@ == line_chars(self.content(), self.spans()[i as int]),
    {
        let l = self.lines[i];
        proof {
            assert(is_line_of(self.buffer@, self.lines@[i as int]));
        }
        let mut v: Vec<char> = Vec::new();
        let mut j: usize = l.start;
        while j < l.end
            invariant
                self.wf(),
                l == self.lines@[i as int],
                l.start <= j <= l.end < self.buffer@.len(),
                v@ == self.buffer@.subrange(l.start as int, j as int),
            decreases l.end - j,
        {
            v.push(self.buffer.at(j));
            j = j + 1;
            assert(v@ =~= self.buffer@.subrange(l.start as int, j as int));
        }
        crate::gap_buffer::string_of(&v)
    }

    /// The caret's row.
    pub fn caret_row(&self) -> (r: usize)
        requires
            self.wf(),
        ensures
            r == row_of(self.spans(), self.caret()),
            r < self.spans().len(),
            self.spans()[r as int].holds(self.caret()),
    {
        proof {
            lemma_row_of_holds(self.buffer@, self.lines@, self.caret as int);
        }
        row_of_offset(&self.lines, self.caret)
    }

    /// The screen column of offset `pos`, tabs widened.
    fn visual_col_at(&self, pos: usize) -> (r: usize)
        requires
            self.wf(),
            pos < self.content().len(),
        ensures
            r == visual_col(self.content(), self.spans(), pos as int, self.tab_width()),
    {
        proof {
            lemma_row_of_holds(self.buffer@, self.lines@, pos as int);
        }
        let row = row_of_offset(&self.lines, pos);
        let start = self.lines[row].start;
        let ghost s = self.buffer@;
        let mut acc: usize = 0;
        let mut j: usize = start;
        assert(s.subrange(start as int, start as int) =~= Seq::<char>::empty());
        while j < pos
            invariant
                self.wf(),
                s == self.buffer@,
                start <= j <= pos < s.len(),
                acc == saturated(visual_width(s.subrange(start as int, j as int), self.tab_size as nat)),
            decreases pos - j,
        {
            let w: usize = if self.buffer.at(j) == '\t' {
                self.tab_size
            } else {
                1
            };
            let ghost before = s.subrange(start as int, j as int);
            acc = acc.saturating_add(w);
            j = j + 1;
            proof {
                let after = s.subrange(start as int, j as int);
                assert(after.drop_last() =~= before);
                assert(after.last() == s[j - 1]);
            }
        }
        acc
    }

    /// The caret's screen column: its offset in its line, each tab before it
    /// on the line widened to the tab size.
    pub fn caret_col(&self) -> (r: usize)
        requires
            self.wf(),
        ensures
            r == visual_col(self.content(), self.spans(), self.caret(), self.tab_width()),
    {
        self.visual_col_at(self.caret)
    }
}

impl Editor {
    /// Puts `text` in at the caret and moves the caret past it.
    fn insert_text(&mut self, text: &Vec<char>)
        requires
            old(self).wf(),
            old(self).has_room(text@.len()),
        ensures
            final(self).wf(),
            final(self).content() == spliced(old(self).content(), old(self).caret(), text@),
            final(self).caret() == old(self).caret() + text@.len(),
            final(self).tab_width() == old(self).tab_width(),
    {
        let ghost s = self.buffer@;
        let c = self.caret;
        self.buffer.insert_chars(text, c);
        let n = self.buffer.len();
        proof {
            let r = spliced(s, c as int, text@);
            assert(r[r.len() - 1] == s[s.len() - 1]);
            assert(newline_terminated(r));
        }
        self.caret = c + text.len();
        self.refresh();
    }

    fn type_char(&mut self, ch: char)
        requires
            old(self).wf(),
            old(self).has_room(1),
        ensures
            follows(*final(self), *old(self), Command::Insert(ch)),
    {
        let one = vec![ch];
        self.insert_text(&one);
        assert(spliced(old(self).content(), old(self).caret(), one@) =~= old(self).content().insert(
            old(self).caret(),
            ch,
        ));
    }

    fn backspace(&mut self)
        requires
            old(self).wf(),
            old(self).has_room(0),
        ensures
            follows(*final(self), *old(self), Command::Backspace),
    {
        if self.caret > 0 {
            let ghost s = self.buffer@;
            self.buffer.delete_char(self.caret - 1);
            self.caret = self.caret - 1;
            proof {
                assert(s.remove(self.caret as int).last() == s.last());
            }
            self.refresh();
        }
    }

    fn delete_forward(&mut self)
        requires
            old(self).wf(),
            old(self).has_room(0),
        ensures
            follows(*final(self), *old(self), Command::Delete),
    {
        let n = self.buffer.len();
        if self.caret < n - 1 {
            let ghost s = self.buffer@;
            self.buffer.delete_char(self.caret);
            proof {
                assert(s.remove(self.caret as int).last() == s.last());
            }
            self.refresh();
        }
    }

    /// The end of the next word at or after `pos`.
    fn word_right_of(&self, pos: usize) -> (r: usize)
        requires
            self.wf(),
            pos < self.content().len(),
        ensures
            r == word_right(self.content(), pos as int),
            pos <= r < self.content().len(),
    {
        let ghost s = self.buffer@;
        proof {
            lemma_word_bounds(s, pos as int);
        }
        let n = self.buffer.len();
        let mut p: usize = pos;
        while p < n - 1 && !is_alphabetic(self.buffer.at(p))
            invariant
                self.wf(),
                s == self.buffer@,
                n == s.len(),
                pos <= p < n,
                skip_gap_right(s, pos as int) == skip_gap_right(s, p as int),
            decreases n - p,
        {
            p = p + 1;
        }
        let ghost q = p;
        while p < n - 1 && is_word_char(self.buffer.at(p))
            invariant
                self.wf(),
                s == self.buffer@,
                n == s.len(),
                q <= p < n,
                skip_gap_right(s, pos as int) == q,
                skip_word_right(s, q as int) == skip_word_right(s, p as int),
            decreases n - p,
        {
            p = p + 1;
        }
        p
    }

    /// The start of the word before `pos`.
    fn word_left_of(&self, pos: usize) -> (r: usize)
        requires
            self.wf(),
            pos < self.content().len(),
        ensures
            r == word_left(self.content(), pos as int),
            r <= pos,
    {
        let ghost s = self.buffer@;
        let mut p: usize = pos;
        while p > 0 && !is_alphabetic(self.buffer.at(p - 1))
            invariant
                self.wf(),
                s == self.buffer@,
                p <= pos < s.len(),
                skip_gap_left(s, pos as int) == skip_gap_left(s, p as int),
            decreases p,
        {
            p = p - 1;
        }
        let ghost q = p;
        while p > 0 && is_word_char(self.buffer.at(p - 1))
            invariant
                self.wf(),
                s == self.buffer@,
                p <= q <= pos < s.len(),
                skip_gap_left(s, pos as int) == q,
                skip_word_left(s, q as int) == skip_word_left(s, p as int),
            decreases p,
        {
            p = p - 1;
        }
        p
    }

    /// Removes `count` characters at offset `at`, one by one.
    fn remove_run(&mut self, at: usize, count: usize)
        requires
            old(self).wf(),
            at + count < old(self).content().len(),
        ensures
            final(self).buffer.wf(),
            final(self).buffer@ == old(self).buffer@.subrange(0, at as int) + old(
                self,
            ).buffer@.subrange(at + count, old(self).buffer@.len() as int),
            final(self).buffer.capacity() == old(self).buffer.capacity(),
            final(self).caret == old(self).caret,
            final(self).tab_size == old(self).tab_size,
    {
        let ghost s = self.buffer@;
        let mut i: usize = 0;
        assert(s =~= s.subrange(0, at as int) + s.subrange(at as int, s.len() as int));
        while i < count
            invariant
                self.buffer.wf(),
                i <= count,
                at + count < s.len(),
                self.buffer@ == s.subrange(0, at as int) + s.subrange(at + i, s.len() as int),
                self.buffer.capacity() == old(self).buffer.capacity(),
                self.caret == old(self).caret,
                self.tab_size == old(self).tab_size,
            decreases count - i,
        {
            self.buffer.delete_char(at);
            i = i + 1;
            assert(self.buffer@ =~= s.subrange(0, at as int) + s.subrange(at + i, s.len() as int));
        }
    }

    fn move_word_right(&mut self)
        requires
            old(self).wf(),
        ensures
            follows(*final(self), *old(self), Command::WordRight),
    {
        self.caret = self.word_right_of(self.caret);
    }

    fn move_word_left(&mut self)
        requires
            old(self).wf(),
        ensures
            follows(*final(self), *old(self), Command::WordLeft),
    {
        self.caret = self.word_left_of(self.caret);
    }

    fn delete_word_right(&mut self)
        requires
            old(self).wf(),
            old(self).has_room(0),
        ensures
            follows(*final(self), *old(self), Command::DeleteWordRight),
    {
        let ghost s = self.buffer@;
        let c = self.caret;
        let t = self.word_right_of(c);
        self.remove_run(c, t - c);
        proof {
            let r = s.subrange(0, c as int) + s.subrange(t as int, s.len() as int);
            assert(r[r.len() - 1] == s[s.len() - 1]);
        }
        self.refresh();
    }

    fn delete_word_left(&mut self)
        requires
            old(self).wf(),
            old(self).has_room(0),
        ensures
            follows(*final(self), *old(self), Command::DeleteWordLeft),
    {
        let ghost s = self.buffer@;
        let c = self.caret;
        let t = self.word_left_of(c);
        self.remove_run(t, c - t);
        proof {
            let r = s.subrange(0, t as int) + s.subrange(c as int, s.len() as int);
            assert(r[r.len() - 1] == s[s.len() - 1]);
        }
        self.caret = t;
        self.refresh();
    }

    /// Moves the caret to row `row`, keeping its screen column where that
    /// line is long enough.
    fn move_to_line(&mut self, row: usize)
        requires
            old(self).wf(),
            row < old(self).spans().len(),
        ensures
            final(self).wf(),
            final(self).content() == old(self).content(),
            final(self).spans() == old(self).spans(),
            final(self).tab_width() == old(self).tab_width(),
            final(self).caret() == vertical_target(
                old(self).content(),
                old(self).spans(),
                old(self).caret(),
                old(self).tab_width(),
                row as int,
            ),
    {
        let col = self.visual_col_at(self.caret);
        let l = self.lines[row];
        proof {
            assert(is_line_of(self.buffer@, self.lines@[row as int]));
        }
        let width = l.end - l.start;
        if col <= width {
            self.caret = l.start + col;
        } else {
            self.caret = l.end;
        }
    }

    fn move_up(&mut self)
        requires
            old(self).wf(),
        ensures
            follows(*final(self), *old(self), Command::Up),
    {
        let row = self.caret_row();
        if row == 0 {
            self.caret = 0;
        } else {
            self.move_to_line(row - 1);
        }
    }

    fn move_down(&mut self)
        requires
            old(self).wf(),
        ensures
            follows(*final(self), *old(self), Command::Down),
    {
        let row = self.caret_row();
        if row == self.lines.len() - 1 {
            self.caret = self.buffer.len() - 1;
        } else {
            self.move_to_line(row + 1);
        }
    }

    fn move_to_line_edge(&mut self, end: bool)
        requires
            old(self).wf(),
        ensures
            follows(
                *final(self),
                *old(self),
                if end {
                    Command::LineEnd
                } else {
                    Command::LineStart
                },
            ),
    {
        let row = self.caret_row();
        let l = self.lines[row];
        proof {
            assert(is_line_of(self.buffer@, self.lines@[row as int]));
        }
        if end {
            self.caret = l.end;
        } else {
            self.caret = l.start;
        }
    }

    fn unindent(&mut self)
        requires
            old(self).wf(),
            old(self).has_room(0),
        ensures
            follows(*final(self), *old(self), Command::Unindent),
    {
        let ghost s = self.buffer@;
        let row = self.caret_row();
        let start = self.lines[row].start;
        proof {
            assert(is_line_of(s, self.lines@[row as int]));
        }
        if self.buffer.at(start) == '\t' {
            self.buffer.delete_char(start);
            if self.caret > start {
                self.caret = self.caret - 1;
            }
            proof {
                assert(s.remove(start as int).last() == s.last());
            }
            self.refresh();
        }
    }

    /// Carries out `cmd`; a delegated action is handed back, not performed.
    pub fn apply(&mut self, cmd: Command) -> (r: Option<Action>)
        requires
            old(self).wf(),
            old(self).has_room(1),
        ensures
            follows(*final(self), *old(self), cmd),
            r == delegated(cmd),
    {
        match cmd {
            Command::Insert(ch) => self.type_char(ch),
            Command::Backspace => self.backspace(),
            Command::Delete => self.delete_forward(),
            Command::DeleteWordLeft => self.delete_word_left(),
            Command::DeleteWordRight => self.delete_word_right(),
            Command::Left => {
                if self.caret > 0 {
                    self.caret = self.caret - 1;
                }
            },
            Command::Right => {
                if self.caret < self.buffer.len() - 1 {
                    self.caret = self.caret + 1;
                }
            },
            Command::WordLeft => self.move_word_left(),
            Command::WordRight => self.move_word_right(),
            Command::Up => self.move_up(),
            Command::Down => self.move_down(),
            Command::DocumentStart => {
                self.caret = 0;
            },
            Command::DocumentEnd => {
                self.caret = self.buffer.len() - 1;
            },
            Command::LineStart => self.move_to_line_edge(false),
            Command::LineEnd => self.move_to_line_edge(true),
            Command::Unindent => self.unindent(),
            Command::Delegate(a) => {
                return Some(a);
            },
            Command::Nothing => {},
        }
        None
    }

    /// Handles one key press: `key`, with `mods` held, producing `chr`.
    /// Edits and caret moves are carried out; file and clipboard work is
    /// handed back as an action.
    pub fn process_input(&mut self, key: Key, mods: Modifiers, chr: Option<char>) -> (r: Option<
        Action,
    >)
        requires
            old(self).wf(),
            old(self).has_room(1),
        ensures
            follows(*final(self), *old(self), command_of(key, mods, chr)),
            r == delegated(command_of(key, mods, chr)),
    {
        let cmd = command_for(key, mods, chr);
        self.apply(cmd)
    }

    /// Puts pasted text in at the caret and moves the caret past it.
    pub fn paste(&mut self, text: &str)
        requires
            old(self).wf(),
            old(self).has_room(text@.len()),
        ensures
            final(self).wf(),
            final(self).content() == spliced(old(self).content(), old(self).caret(), text@),
            final(self).caret() == old(self).caret() + text@.len(),
            final(self).tab_width() == old(self).tab_width(),
    {
        let chars = crate::gap_buffer::chars_of(text);
        self.insert_text(&chars);
    }

    /// Replaces the document by `text`, newline-terminated, with the caret at
    /// its start.
    pub fn load(&mut self, text: &str)
        requires
            old(self).wf(),
            text@.len() + 3 * GAP_SIZE + 1 <= usize::MAX,
        ensures
            final(self).wf(),
            final(self).content() == normalized(text@),
            final(self).caret() == 0,
            final(self).tab_width() == old(self).tab_width(),
    {
        let mut buffer = GapBuffer::new();
        buffer.insert(text, 0);
        assert(spliced(Seq::<char>::empty(), 0, text@) =~= text@);
        self.buffer = buffer;
        self.caret = 0;
        self.refresh();
    }

    /// Starts an empty document.
    pub fn new_file(&mut self)
        requires
            old(self).wf(),
        ensures
            final(self).wf(),
            final(self).content() == seq!['\n'],
            final(self).caret() == 0,
            final(self).tab_width() == old(self).tab_width(),
    {
        *self = Editor::new(self.tab_size);
    }
}

} // verus!
