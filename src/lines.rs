//! The line index: the spans of the lines of a newline-terminated text, and
//! the projections of an absolute offset onto a row and a column.
use vstd::prelude::*;

verus! {

/// The span of one line: `start` is the offset of its first character, `end`
/// the offset of its terminating newline.
#[derive(Clone, Copy, Debug)]
pub struct Line {
    pub start: usize,
    pub end: usize,
}

impl Line {
    pub fn new(start: usize, end: usize) -> (r: Line)
        ensures
            r.start == start,
            r.end == end,
    {
        Line { start, end }
    }

    /// Whether `pos` lies on this line; its terminating newline included.
    pub open spec fn holds(self, pos: int) -> bool {
        self.start <= pos <= self.end
    }
}

/// A line of `s`: a span that ends on a newline and has none before it.
pub open spec fn is_line_of(s: Seq<char>, l: Line) -> bool {
    &&& l.start <= l.end < s.len()
    &&& s[l.end as int] == '\n'
    &&& forall|j: int| l.start <= j < l.end ==> #[trigger] s[j] != '\n'
}

/// `lines` are the lines of `s` up to offset `upto`, in order.
pub open spec fn covers_up_to(s: Seq<char>, lines: Seq<Line>, upto: int) -> bool {
    &&& lines.len() == 0 ==> upto == 0
    &&& lines.len() > 0 ==> lines[0].start == 0 && lines.last().end + 1 == upto
    &&& forall|k: int| 0 <= k < lines.len() ==> is_line_of(s, #[trigger] lines[k])
    &&& forall|k: int|
        0 <= k < lines.len() - 1 ==> #[trigger] lines[k + 1].start == lines[k].end + 1
}

/// `lines` is the line index of `s`: one span per line, the whole text covered.
pub open spec fn is_line_index(s: Seq<char>, lines: Seq<Line>) -> bool {
    &&& lines.len() >= 1
    &&& covers_up_to(s, lines, s.len() as int)
}

/// The text is not empty and its last character is a newline.
pub open spec fn newline_terminated(s: Seq<char>) -> bool {
    s.len() > 0 && s.last() == '\n'
}

/// The characters of one line, without its newline.
pub open spec fn line_chars(s: Seq<char>, l: Line) -> Seq<char> {
    s.subrange(l.start as int, l.end as int)
}

/// Each line's characters followed by a newline, one line after another.
pub open spec fn joined(s: Seq<char>, lines: Seq<Line>) -> Seq<char>
    decreases lines.len(),
{
    if lines.len() == 0 {
        Seq::empty()
    } else {
        joined(s, lines.drop_last()) + line_chars(s, lines.last()).push('\n')
    }
}

/// The first row at or after `i` whose line holds `pos`; row 0 if none does.
pub open spec fn row_from(lines: Seq<Line>, pos: int, i: int) -> int
    decreases lines.len() - i,
{
    if i < 0 || i >= lines.len() {
        0
    } else if lines[i].holds(pos) {
        i
    } else {
        row_from(lines, pos, i + 1)
    }
}

/// The row of offset `pos`: the first line that holds it, or row 0.
pub open spec fn row_of(lines: Seq<Line>, pos: int) -> int {
    row_from(lines, pos, 0)
}

/// The on-screen width of `s` when each tab takes `tab_size` columns.
pub open spec fn visual_width(s: Seq<char>, tab_size: nat) -> nat
    decreases s.len(),
{
    if s.len() == 0 {
        0
    } else {
        visual_width(s.drop_last(), tab_size) + if s.last() == '\t' {
            tab_size
        } else {
            1nat
        }
    }
}

/// `n`, or the largest `usize` where `n` does not fit.
pub open spec fn saturated(n: nat) -> nat {
    if n <= usize::MAX {
        n
    } else {
        usize::MAX as nat
    }
}

/// The spans of the lines of `s`, in one pass over it.
pub fn build_lines(s: &Vec<char>) -> (r: Vec<Line>)
    requires
        newline_terminated(s@),
    ensures
        is_line_index(s@, r@),
{
    let mut lines: Vec<Line> = Vec::new();
    let mut start: usize = 0;
    let mut i: usize = 0;
    while i < s.len()
        invariant
            start <= i <= s@.len(),
            covers_up_to(s@, lines@, start as int),
            forall|j: int| start <= j < i ==> #[trigger] s@[j] != '\n',
        decreases s@.len() - i,
    {
        if s[i] == '\n' {
            let ghost before = lines@;
            lines.push(Line::new(start, i));
            proof {
                assert(is_line_of(s@, lines@.last()));
                assert forall|k: int| 0 <= k < lines@.len() implies is_line_of(
                    s@,
                    #[trigger] lines@[k],
                ) by {
                    if k < before.len() {
                        assert(lines@[k] == before[k]);
                    }
                }
                assert forall|k: int| 0 <= k < lines@.len() - 1 implies #[trigger] lines@[k
                    + 1].start == lines@[k].end + 1 by {
                    if k + 1 < before.len() {
                        assert(lines@[k + 1] == before[k + 1]);
                    }
                    assert(lines@[k] == before[k]);
                }
            }
            start = i + 1;
        }
        i = i + 1;
    }
    proof {
        assert(s@[s@.len() - 1] == '\n');
    }
    lines
}

/// The text of each line followed by a newline, all lines in order, gives
/// back the whole text.
pub proof fn lemma_lines_rebuild_text(s: Seq<char>, lines: Seq<Line>)
    requires
        is_line_index(s, lines),
    ensures
        joined(s, lines) == s,
{
    lemma_joined_prefix(s, lines);
    assert(s.subrange(0, s.len() as int) =~= s);
}

proof fn lemma_joined_prefix(s: Seq<char>, lines: Seq<Line>)
    requires
        lines.len() >= 1,
        covers_up_to(s, lines, lines.last().end + 1),
    ensures
        joined(s, lines) == s.subrange(0, lines.last().end + 1),
    decreases lines.len(),
{
    let last = lines.last();
    assert(is_line_of(s, lines[lines.len() - 1]));
    if lines.len() == 1 {
        assert(joined(s, lines.drop_last()) =~= Seq::<char>::empty());
        assert(joined(s, lines) =~= s.subrange(0, last.end + 1));
    } else {
        let prefix = lines.drop_last();
        let k = lines.len() - 2;
        assert(lines[k + 1].start == lines[k].end + 1);
        assert(prefix.last() == lines[k]);
        assert forall|j: int| 0 <= j < prefix.len() implies is_line_of(s, #[trigger] prefix[j]) by {
            assert(prefix[j] == lines[j]);
        }
        assert forall|j: int| 0 <= j < prefix.len() - 1 implies #[trigger] prefix[j + 1].start
            == prefix[j].end + 1 by {
            assert(prefix[j + 1] == lines[j + 1]);
            assert(prefix[j] == lines[j]);
        }
        lemma_joined_prefix(s, prefix);
        assert(joined(s, lines) =~= s.subrange(0, last.end + 1));
    }
}

/// The row of `pos`: the first line whose span, newline included, holds it.
pub fn row_of_offset(lines: &Vec<Line>, pos: usize) -> (r: usize)
    ensures
        r == row_of(lines@, pos as int),
{
    let mut i: usize = 0;
    while i < lines.len()
        invariant
            i <= lines@.len(),
            row_from(lines@, pos as int, 0) == row_from(lines@, pos as int, i as int),
        decreases lines@.len() - i,
    {
        if lines[i].start <= pos && pos <= lines[i].end {
            return i;
        }
        i = i + 1;
    }
    0
}

/// In a line index, the row of an offset inside the text is the line that
/// holds it.
pub proof fn lemma_row_of_holds(s: Seq<char>, lines: Seq<Line>, pos: int)
    requires
        is_line_index(s, lines),
        0 <= pos < s.len(),
    ensures
        0 <= row_of(lines, pos) < lines.len(),
        lines[row_of(lines, pos)].holds(pos),
{
    lemma_row_from_finds(s, lines, pos, 0);
}

proof fn lemma_row_from_finds(s: Seq<char>, lines: Seq<Line>, pos: int, i: int)
    requires
        is_line_index(s, lines),
        0 <= i < lines.len(),
        lines[i].start <= pos < s.len(),
    ensures
        i <= row_from(lines, pos, i) < lines.len(),
        lines[row_from(lines, pos, i)].holds(pos),
    decreases lines.len() - i,
{
    assert(is_line_of(s, lines[i]));
    if !lines[i].holds(pos) {
        if i + 1 < lines.len() {
            assert(lines[i + 1].start == lines[i].end + 1);
            lemma_row_from_finds(s, lines, pos, i + 1);
        } else {
            assert(lines.last() == lines[i]);
        }
    }
}

} // verus!
