use vstd::prelude::*;

verus! {

/// A place in the text: 0-based line index and 0-based column, counted in characters.
/// A column equal to the line's length is the end of that line.
#[derive(Clone, Copy, Debug, PartialEq, Eq, Structural)]
pub struct Position {
    pub line: usize,
    pub column: usize,
}

impl View for Position {
    type V = (int, int);

    open spec fn view(&self) -> (int, int) {
        (self.line as int, self.column as int)
    }
}

/// Where a cursor motion goes.
#[derive(Clone, Copy, Debug, PartialEq, Eq, Structural)]
pub enum Direction {
    Left,
    Right,
    Up,
    Down,
    LineStart,
    LineEnd,
    DocumentStart,
    DocumentEnd,
}

/// One discrete edit applied to a buffer.
#[derive(Clone, Debug)]
pub enum EditAction {
    InsertChar(char),
    InsertNewline,
    DeleteBackward,
    DeleteForward,
    /// Move the cursor; with `true` the selection is extended instead of dropped.
    MoveCursor(Direction, bool),
    SelectAll,
    SetText(String),
}

/// Mathematical picture of a buffer: its lines, the cursor, and the
/// selection anchor (the selection runs from the anchor to the cursor).
pub struct BufferModel {
    pub lines: Seq<Seq<char>>,
    pub cursor: (int, int),
    pub anchor: Option<(int, int)>,
}

pub open spec fn in_bounds(lines: Seq<Seq<char>>, p: (int, int)) -> bool {
    &&& 0 <= p.0 < lines.len()
    &&& 0 <= p.1 <= lines[p.0].len()
}

pub open spec fn no_line_breaks(lines: Seq<Seq<char>>) -> bool {
    forall|i: int, j: int|
        0 <= i < lines.len() && 0 <= j < lines[i].len() ==> #[trigger] lines[i][j] != '\n'
}

/// The buffer invariant: at least one line, no line holds a line break, and
/// cursor and anchor lie within the text.
pub open spec fn model_wf(b: BufferModel) -> bool {
    &&& b.lines.len() >= 1
    &&& no_line_breaks(b.lines)
    &&& in_bounds(b.lines, b.cursor)
    &&& (b.anchor is Some ==> in_bounds(b.lines, b.anchor->0))
}

pub open spec fn pos_le(a: (int, int), b: (int, int)) -> bool {
    a.0 < b.0 || (a.0 == b.0 && a.1 <= b.1)
}

pub open spec fn last_line(lines: Seq<Seq<char>>) -> int {
    lines.len() - 1
}

/// The position at the very end of the text.
pub open spec fn end_of_text(lines: Seq<Seq<char>>) -> (int, int) {
    (last_line(lines), lines[last_line(lines)].len() as int)
}

/// Where the cursor goes from `p` in direction `d`; motions past either end of
/// the text stop there.
pub open spec fn moved(lines: Seq<Seq<char>>, p: (int, int), d: Direction) -> (int, int) {
    match d {
        Direction::Left => if p.1 > 0 {
            (p.0, p.1 - 1)
        } else if p.0 > 0 {
            (p.0 - 1, lines[p.0 - 1].len() as int)
        } else {
            p
        },
        Direction::Right => if p.1 < lines[p.0].len() {
            (p.0, p.1 + 1)
        } else if p.0 < last_line(lines) {
            (p.0 + 1, 0)
        } else {
            p
        },
        Direction::Up => if p.0 > 0 {
            (p.0 - 1, if p.1 <= lines[p.0 - 1].len() { p.1 } else { lines[p.0 - 1].len() as int })
        } else {
            (0, 0)
        },
        Direction::Down => if p.0 < last_line(lines) {
            (p.0 + 1, if p.1 <= lines[p.0 + 1].len() { p.1 } else { lines[p.0 + 1].len() as int })
        } else {
            end_of_text(lines)
        },
        Direction::LineStart => (p.0, 0),
        Direction::LineEnd => (p.0, lines[p.0].len() as int),
        Direction::DocumentStart => (0, 0),
        Direction::DocumentEnd => end_of_text(lines),
    }
}

pub open spec fn has_selection(b: BufferModel) -> bool {
    b.anchor is Some && b.anchor->0 != b.cursor
}

pub open spec fn selection_start(b: BufferModel) -> (int, int) {
    if pos_le(b.anchor->0, b.cursor) { b.anchor->0 } else { b.cursor }
}

pub open spec fn selection_end(b: BufferModel) -> (int, int) {
    if pos_le(b.anchor->0, b.cursor) { b.cursor } else { b.anchor->0 }
}

/// The lines with the text between `s` and `e` taken out.
pub open spec fn remove_range(lines: Seq<Seq<char>>, s: (int, int), e: (int, int)) -> Seq<Seq<char>> {
    lines.subrange(0, s.0).push(
        lines[s.0].subrange(0, s.1) + lines[e.0].subrange(e.1, lines[e.0].len() as int),
    ) + lines.subrange(e.0 + 1, lines.len() as int)
}

/// Deletes the text between `s` and `e`; the cursor lands on `s`.
pub open spec fn delete_between(b: BufferModel, s: (int, int), e: (int, int)) -> BufferModel {
    BufferModel { lines: remove_range(b.lines, s, e), cursor: s, anchor: None }
}

/// Deletes the selected text, if any; no selection remains.
pub open spec fn collapse(b: BufferModel) -> BufferModel {
    if has_selection(b) {
        delete_between(b, selection_start(b), selection_end(b))
    } else {
        BufferModel { lines: b.lines, cursor: b.cursor, anchor: None }
    }
}

pub open spec fn insert_char(b: BufferModel, c: char) -> BufferModel {
    let (l, col) = b.cursor;
    BufferModel {
        lines: b.lines.update(l, b.lines[l].insert(col, c)),
        cursor: (l, col + 1),
        anchor: None,
    }
}

/// Splits the cursor's line at the cursor; the cursor goes to the start of the new line.
pub open spec fn insert_newline(b: BufferModel) -> BufferModel {
    let (l, col) = b.cursor;
    let line = b.lines[l];
    BufferModel {
        lines: b.lines.subrange(0, l).push(line.subrange(0, col)).push(
            line.subrange(col, line.len() as int),
        ) + b.lines.subrange(l + 1, b.lines.len() as int),
        cursor: (l + 1, 0),
        anchor: None,
    }
}

/// With a selection, deletes it; otherwise deletes the character before the
/// cursor, or joins the line to the previous one at column 0; nothing at the
/// start of the text.
pub open spec fn delete_backward(b: BufferModel) -> BufferModel {
    if has_selection(b) {
        collapse(b)
    } else if b.cursor == (0int, 0int) {
        collapse(b)
    } else {
        delete_between(b, moved(b.lines, b.cursor, Direction::Left), b.cursor)
    }
}

/// With a selection, deletes it; otherwise deletes the character after the
/// cursor, or joins the next line at the end of a line; nothing at the end of the text.
pub open spec fn delete_forward(b: BufferModel) -> BufferModel {
    if has_selection(b) {
        collapse(b)
    } else if b.cursor == end_of_text(b.lines) {
        collapse(b)
    } else {
        delete_between(b, b.cursor, moved(b.lines, b.cursor, Direction::Right))
    }
}

pub open spec fn move_cursor(b: BufferModel, d: Direction, extend: bool) -> BufferModel {
    BufferModel {
        lines: b.lines,
        cursor: moved(b.lines, b.cursor, d),
        anchor: if !extend {
            None
        } else if b.anchor is Some {
            b.anchor
        } else {
            Some(b.cursor)
        },
    }
}

pub open spec fn select_all(b: BufferModel) -> BufferModel {
    BufferModel { lines: b.lines, cursor: end_of_text(b.lines), anchor: Some((0int, 0int)) }
}

/// The lines of a text: the pieces between line breaks (one empty line for an empty text).
pub open spec fn split_lines(s: Seq<char>) -> Seq<Seq<char>>
    decreases s.len(),
{
    if s.len() == 0 {
        seq![Seq::<char>::empty()]
    } else {
        let prev = split_lines(s.drop_last());
        if s.last() == '\n' {
            prev.push(Seq::<char>::empty())
        } else {
            prev.update(prev.len() - 1, prev.last().push(s.last()))
        }
    }
}

/// The lines joined by line breaks.
pub open spec fn join_lines(lines: Seq<Seq<char>>) -> Seq<char>
    decreases lines.len(),
{
    if lines.len() == 0 {
        Seq::<char>::empty()
    } else if lines.len() == 1 {
        lines[0]
    } else {
        join_lines(lines.drop_last()).push('\n') + lines.last()
    }
}

/// A buffer that holds `s`, with the cursor at the start and no selection.
pub open spec fn from_text(s: Seq<char>) -> BufferModel {
    BufferModel { lines: split_lines(s), cursor: (0, 0), anchor: None }
}

/// The effect of one edit action.
pub open spec fn apply(b: BufferModel, a: EditAction) -> BufferModel {
    match a {
        EditAction::InsertChar(c) => if c == '\n' {
            insert_newline(collapse(b))
        } else {
            insert_char(collapse(b), c)
        },
        EditAction::InsertNewline => insert_newline(collapse(b)),
        EditAction::DeleteBackward => delete_backward(b),
        EditAction::DeleteForward => delete_forward(b),
        EditAction::MoveCursor(d, extend) => move_cursor(b, d, extend),
        EditAction::SelectAll => select_all(b),
        EditAction::SetText(s) => from_text(s@),
    }
}

/// The effect of a sequence of edit actions, applied in order.
pub open spec fn apply_all(b: BufferModel, actions: Seq<EditAction>) -> BufferModel
    decreases actions.len(),
{
    if actions.len() == 0 {
        b
    } else {
        apply(apply_all(b, actions.drop_last()), actions.last())
    }
}

/// An editable text: its lines, a cursor, and an optional selection anchor.
pub struct TextBuffer {
    lines: Vec<Vec<char>>,
    cursor: Position,
    anchor: Option<Position>,
}

impl View for TextBuffer {
    type V = BufferModel;

    closed spec fn view(&self) -> BufferModel {
        BufferModel {
            lines: self.lines@.map_values(|l: Vec<char>| l@),
            cursor: self.cursor@,
            anchor: match self.anchor {
                Some(p) => Some(p@),
                None => None,
            },
        }
    }
}

impl TextBuffer {
    pub open spec fn wf(&self) -> bool {
        model_wf(self@)
    }

    /// An empty buffer: one empty line, cursor at the start, no selection.
    pub fn new() -> (r: TextBuffer)
        ensures
            r.wf(),
            r@ == from_text(Seq::<char>::empty()),
    {
        let mut lines: Vec<Vec<char>> = Vec::new();
        lines.push(Vec::new());
        let r = TextBuffer { lines, cursor: Position { line: 0, column: 0 }, anchor: None };
        assert(r@.lines =~= split_lines(Seq::<char>::empty()));
        r
    }

    /// Takes out the text between `s` and `e` and puts the cursor on `s`.
    fn remove_range(&mut self, s: Position, e: Position)
        requires
            old(self).wf(),
            in_bounds(old(self)@.lines, s@),
            in_bounds(old(self)@.lines, e@),
            pos_le(s@, e@),
        ensures
            final(self)@ == delete_between(old(self)@, s@, e@),
            final(self).wf(),
    {
        let ghost old_lines = self.lines@;
        let ghost ls = self@.lines;
        let n = self.lines.len();
        let mut rest = self.lines.split_off(e.line + 1);
        let mut last = self.lines.pop().unwrap();
        assert(last@ == ls[e@.0]);
        let mut tail = last.split_off(e.column);
        let mut first = if s.line == e.line {
            last
        } else {
            self.lines.truncate(s.line + 1);
            self.lines.pop().unwrap()
        };
        assert(first@ == ls[s@.0].subrange(0, e.column as int) || first@ == ls[s@.0]);
        assert(self.lines@ =~= old_lines.subrange(0, s.line as int));
        first.truncate(s.column);
        assert(first@ =~= ls[s@.0].subrange(0, s@.1));
        first.append(&mut tail);
        let ghost joined = first@;
        self.lines.push(first);
        self.lines.append(&mut rest);
        self.cursor = s;
        self.anchor = None;
        proof {
            let r = remove_range(ls, s@, e@);
            assert(self.lines@ =~= old_lines.subrange(0, s.line as int).push(first) + old_lines.subrange(e.line + 1, n as int));
            assert(r.len() == self@.lines.len());
            assert forall|i: int| 0 <= i < r.len() implies self@.lines[i] == r[i] by {
                if i < s@.0 {
                } else if i == s@.0 {
                    assert(joined =~= r[i]);
                } else {
                    assert(self.lines@[i] == old_lines[e@.0 + 1 + (i - s@.0 - 1)]);
                }
            }
            assert(self@.lines =~= r);
            lemma_remove_range_wf(ls, s@, e@);
        }
    }
}

impl TextBuffer {
    /// Length of line `i`.
    fn line_len(&self, i: usize) -> (r: usize)
        requires
            i < self@.lines.len(),
        ensures
            r == self@.lines[i as int].len(),
    {
        self.lines[i].len()
    }

    /// Where the cursor would go in direction `d`.
    fn moved_position(&self, d: Direction) -> (r: Position)
        requires
            self.wf(),
        ensures
            r@ == moved(self@.lines, self@.cursor, d),
            in_bounds(self@.lines, r@),
    {
        let n = self.lines.len();
        let last = n - 1;
        let l = self.cursor.line;
        let c = self.cursor.column;
        match d {
            Direction::Left => if c > 0 {
                Position { line: l, column: c - 1 }
            } else if l > 0 {
                Position { line: l - 1, column: self.line_len(l - 1) }
            } else {
                self.cursor
            },
            Direction::Right => if c < self.line_len(l) {
                Position { line: l, column: c + 1 }
            } else if l < last {
                Position { line: l + 1, column: 0 }
            } else {
                self.cursor
            },
            Direction::Up => if l > 0 {
                let len = self.line_len(l - 1);
                Position { line: l - 1, column: if c <= len { c } else { len } }
            } else {
                Position { line: 0, column: 0 }
            },
            Direction::Down => if l < last {
                let len = self.line_len(l + 1);
                Position { line: l + 1, column: if c <= len { c } else { len } }
            } else {
                Position { line: last, column: self.line_len(last) }
            },
            Direction::LineStart => Position { line: l, column: 0 },
            Direction::LineEnd => Position { line: l, column: self.line_len(l) },
            Direction::DocumentStart => Position { line: 0, column: 0 },
            Direction::DocumentEnd => Position { line: last, column: self.line_len(last) },
        }
    }

    /// Deletes the selected text, if any, and drops the selection.
    fn collapse(&mut self)
        requires
            old(self).wf(),
        ensures
            final(self)@ == collapse(old(self)@),
            final(self).wf(),
    {
        match self.anchor {
            Some(a) => {
                if a != self.cursor {
                    let c = self.cursor;
                    if a.line < c.line || (a.line == c.line && a.column <= c.column) {
                        self.remove_range(a, c);
                    } else {
                        self.remove_range(c, a);
                    }
                } else {
                    self.anchor = None;
                }
            },
            None => {},
        }
    }

    /// Inserts `c` (not a line break) at the cursor, which moves past it.
    fn insert_char(&mut self, c: char)
        requires
            old(self).wf(),
            old(self)@.anchor is None,
            c != '\n',
        ensures
            final(self)@ == insert_char(old(self)@, c),
            final(self).wf(),
    {
        let l = self.cursor.line;
        let col = self.cursor.column;
        let mut line = self.lines.remove(l);
        line.insert(col, c);
        // the new length is a usize, so `col + 1` fits
        let _len = line.len();
        self.lines.insert(l, line);
        self.cursor = Position { line: l, column: col + 1 };
        proof {
            assert(self@.lines =~= insert_char(old(self)@, c).lines);
            lemma_insert_char_wf(old(self)@, c);
        }
    }

    /// Splits the cursor's line at the cursor.
    fn insert_newline(&mut self)
        requires
            old(self).wf(),
            old(self)@.anchor is None,
        ensures
            final(self)@ == insert_newline(old(self)@),
            final(self).wf(),
    {
        let ghost old_lines = self.lines@;
        // the line count is a usize, so `l + 1` fits
        let _n = self.lines.len();
        let l = self.cursor.line;
        let col = self.cursor.column;
        let mut line = self.lines.remove(l);
        let tail = line.split_off(col);
        let ghost head_v = line@;
        let ghost tail_v = tail@;
        self.lines.insert(l, line);
        self.lines.insert(l + 1, tail);
        self.cursor = Position { line: l + 1, column: 0 };
        proof {
            let r = insert_newline(old(self)@).lines;
            assert(r.len() == self@.lines.len());
            assert forall|i: int| 0 <= i < r.len() implies self@.lines[i] == r[i] by {
                if i < l {
                } else if i == l {
                    assert(head_v =~= r[i]);
                } else if i == l + 1 {
                    assert(tail_v =~= r[i]);
                } else {
                    assert(self.lines@[i] == old_lines[i - 1]);
                }
            }
            assert(self@.lines =~= r);
            lemma_insert_newline_wf(old(self)@);
        }
    }
}

/// Relies on `String::push`: appends the one character to the end of the string.
pub assume_specification[ String::push ](s: &mut String, ch: char)
    ensures
        final(s)@ == old(s)@.push(ch),
;

impl TextBuffer {
    /// Replaces the whole text by `text`, cursor at the start, no selection.
    pub fn set_text(&mut self, text: &str)
        ensures
            final(self)@ == from_text(text@),
            final(self).wf(),
    {
        broadcast use vstd::string::group_string_axioms;
        let mut lines: Vec<Vec<char>> = Vec::new();
        lines.push(Vec::new());
        let ghost chars = text@;
        for c in it: text.chars()
            invariant
                it.seq() == chars,
                lines.len() >= 1,
                lines@.map_values(|l: Vec<char>| l@) == split_lines(chars.take(it.index() as int)),
        {
            let ghost done = chars.take(it.index() as int);
            let ghost next = chars.take(it.index() + 1);
            assert(next.drop_last() =~= done);
            if c == '\n' {
                lines.push(Vec::new());
                assert(lines@.map_values(|l: Vec<char>| l@) =~= split_lines(next));
            } else {
                let mut last = lines.pop().unwrap();
                last.push(c);
                lines.push(last);
                assert(lines@.map_values(|l: Vec<char>| l@) =~= split_lines(next));
            }
        }
        assert(chars.take(chars.len() as int) =~= chars);
        self.lines = lines;
        self.cursor = Position { line: 0, column: 0 };
        self.anchor = None;
        proof {
            lemma_split_lines_wf(chars);
        }
    }

    /// The whole text, lines joined by `'\n'`.
    pub fn text(&self) -> (r: String)
        requires
            self.wf(),
        ensures
            r@ == join_lines(self@.lines),
    {
        let ghost ls = self@.lines;
        let mut out = String::new();
        let n = self.lines.len();
        let mut i: usize = 0;
        while i < n
            invariant
                n == ls.len(),
                ls == self@.lines,
                i <= n,
                out@ == join_lines(ls.take(i as int)),
            decreases n - i,
        {
            let ghost before = out@;
            if i > 0 {
                out.push('\n');
            }
            let line = &self.lines[i];
            let m = line.len();
            let mut j: usize = 0;
            while j < m
                invariant
                    m == line@.len(),
                    line@ == ls[i as int],
                    j <= m,
                    out@ == (if i > 0 { before.push('\n') } else { before }) + ls[i as int].take(j as int),
                decreases m - j,
            {
                out.push(line[j]);
                j = j + 1;
                assert(ls[i as int].take(j as int) =~= ls[i as int].take(j - 1).push(line@[j - 1]));
            }
            assert(ls[i as int].take(m as int) =~= ls[i as int]);
            assert(ls.take(i + 1).drop_last() =~= ls.take(i as int));
            if i == 0 {
                assert(ls.take(1) =~= seq![ls[0]]);
            }
            i = i + 1;
        }
        assert(ls.take(n as int) =~= ls);
        out
    }

    /// The cursor as (line, column), both 0-based.
    pub fn cursor_position(&self) -> (r: (usize, usize))
        ensures
            r.0 as int == self@.cursor.0,
            r.1 as int == self@.cursor.1,
    {
        (self.cursor.line, self.cursor.column)
    }

    /// Applies one edit action; every action is defined on every buffer.
    pub fn apply(&mut self, action: EditAction)
        requires
            old(self).wf(),
        ensures
            final(self)@ == apply(old(self)@, action),
            final(self).wf(),
    {
        match action {
            EditAction::InsertChar(c) => {
                self.collapse();
                if c == '\n' {
                    self.insert_newline();
                } else {
                    self.insert_char(c);
                }
            },
            EditAction::InsertNewline => {
                self.collapse();
                self.insert_newline();
            },
            EditAction::DeleteBackward => {
                if self.has_selection() || (self.cursor.line == 0 && self.cursor.column == 0) {
                    self.collapse();
                } else {
                    let p = self.moved_position(Direction::Left);
                    let c = self.cursor;
                    self.remove_range(p, c);
                }
            },
            EditAction::DeleteForward => {
                let end = self.moved_position(Direction::DocumentEnd);
                if self.has_selection() || self.cursor == end {
                    self.collapse();
                } else {
                    let p = self.moved_position(Direction::Right);
                    let c = self.cursor;
                    self.remove_range(c, p);
                }
            },
            EditAction::MoveCursor(d, extend) => {
                let p = self.moved_position(d);
                if !extend {
                    self.anchor = None;
                } else if self.anchor.is_none() {
                    self.anchor = Some(self.cursor);
                }
                self.cursor = p;
            },
            EditAction::SelectAll => {
                let end = self.moved_position(Direction::DocumentEnd);
                self.anchor = Some(Position { line: 0, column: 0 });
                self.cursor = end;
            },
            EditAction::SetText(t) => {
                self.set_text(t.as_str());
            },
        }
    }

    fn has_selection(&self) -> (r: bool)
        ensures
            r == has_selection(self@),
    {
        match self.anchor {
            Some(a) => a != self.cursor,
            None => false,
        }
    }
}

/// Every text splits into at least one line, none of which holds a line break.
pub proof fn lemma_split_lines_wf(s: Seq<char>)
    ensures
        split_lines(s).len() >= 1,
        no_line_breaks(split_lines(s)),
    decreases s.len(),
{
    if s.len() > 0 {
        lemma_split_lines_wf(s.drop_last());
        let p = split_lines(s.drop_last());
        let r = split_lines(s);
        assert forall|i: int, j: int| 0 <= i < r.len() && 0 <= j < r[i].len() implies #[trigger] r[i][j] != '\n' by {
            if s.last() != '\n' && i == p.len() - 1 && j < p[i].len() {
                assert(r[i][j] == p[i][j]);
            }
        }
    }
}

/// Joining the lines of a text gives the text back.
pub proof fn lemma_join_split(s: Seq<char>)
    ensures
        join_lines(split_lines(s)) == s,
    decreases s.len(),
{
    if s.len() > 0 {
        lemma_join_split(s.drop_last());
        lemma_split_lines_wf(s.drop_last());
        let p = split_lines(s.drop_last());
        let r = split_lines(s);
        if s.last() == '\n' {
            assert(r.drop_last() =~= p);
            assert(join_lines(r) =~= s);
        } else if p.len() == 1 {
            assert(join_lines(r) =~= s);
        } else {
            assert(r.drop_last() =~= p.drop_last());
            assert(join_lines(p) == join_lines(p.drop_last()).push('\n') + p.last());
            assert(r.last() == p.last().push(s.last()));
            assert(join_lines(r) == join_lines(p.drop_last()).push('\n') + r.last());
            assert(join_lines(r) =~= s.drop_last().push(s.last()));
            assert(s.drop_last().push(s.last()) =~= s);
        }
    }
}

proof fn lemma_remove_range_wf(lines: Seq<Seq<char>>, s: (int, int), e: (int, int))
    requires
        lines.len() >= 1,
        no_line_breaks(lines),
        in_bounds(lines, s),
        in_bounds(lines, e),
        pos_le(s, e),
    ensures
        remove_range(lines, s, e).len() >= 1,
        no_line_breaks(remove_range(lines, s, e)),
        in_bounds(remove_range(lines, s, e), s),
{
    let r = remove_range(lines, s, e);
    let joined = lines[s.0].subrange(0, s.1) + lines[e.0].subrange(e.1, lines[e.0].len() as int);
    assert(r[s.0] == joined);
    assert forall|i: int, j: int| 0 <= i < r.len() && 0 <= j < r[i].len() implies #[trigger] r[i][j] != '\n' by {
        if i < s.0 {
            assert(r[i] == lines[i]);
        } else if i == s.0 {
            if j < s.1 {
                assert(r[i][j] == lines[s.0][j]);
            } else {
                assert(r[i][j] == lines[e.0][e.1 + j - s.1]);
            }
        } else {
            assert(r[i] == lines[e.0 + 1 + (i - s.0 - 1)]);
        }
    }
}


proof fn lemma_collapse_wf(b: BufferModel)
    requires
        model_wf(b),
    ensures
        model_wf(collapse(b)),
{
    if has_selection(b) {
        lemma_remove_range_wf(b.lines, selection_start(b), selection_end(b));
    }
}

proof fn lemma_insert_char_wf(b: BufferModel, c: char)
    requires
        model_wf(b),
        c != '\n',
    ensures
        model_wf(insert_char(b, c)),
{
    let (l, col) = b.cursor;
    let r = insert_char(b, c).lines;
    assert forall|i: int, j: int| 0 <= i < r.len() && 0 <= j < r[i].len() implies #[trigger] r[i][j] != '\n' by {
        if i == l && j != col {
            if j < col {
                assert(r[i][j] == b.lines[i][j]);
            } else {
                assert(r[i][j] == b.lines[i][j - 1]);
            }
        }
    }
}

proof fn lemma_insert_newline_wf(b: BufferModel)
    requires
        model_wf(b),
    ensures
        model_wf(insert_newline(b)),
{
    let (l, col) = b.cursor;
    let r = insert_newline(b).lines;
    assert forall|i: int, j: int| 0 <= i < r.len() && 0 <= j < r[i].len() implies #[trigger] r[i][j] != '\n' by {
        if i < l {
            assert(r[i] == b.lines[i]);
        } else if i == l {
            assert(r[i][j] == b.lines[l][j]);
        } else if i == l + 1 {
            assert(r[i][j] == b.lines[l][col + j]);
        } else {
            assert(r[i] == b.lines[i - 1]);
        }
    }
}

/// Every edit action keeps the cursor (and the selection anchor) within the
/// text: line index below the number of lines, column at most that line's length.
pub proof fn lemma_apply_keeps_bounds(b: BufferModel, a: EditAction)
    requires
        model_wf(b),
    ensures
        model_wf(apply(b, a)),
{
    match a {
        EditAction::InsertChar(c) => {
            lemma_collapse_wf(b);
            if c == '\n' {
                lemma_insert_newline_wf(collapse(b));
            } else {
                lemma_insert_char_wf(collapse(b), c);
            }
        },
        EditAction::InsertNewline => {
            lemma_collapse_wf(b);
            lemma_insert_newline_wf(collapse(b));
        },
        EditAction::DeleteBackward => {
            lemma_collapse_wf(b);
            if !has_selection(b) && b.cursor != (0int, 0int) {
                lemma_remove_range_wf(b.lines, moved(b.lines, b.cursor, Direction::Left), b.cursor);
            }
        },
        EditAction::DeleteForward => {
            lemma_collapse_wf(b);
            if !has_selection(b) && b.cursor != end_of_text(b.lines) {
                lemma_remove_range_wf(b.lines, b.cursor, moved(b.lines, b.cursor, Direction::Right));
            }
        },
        EditAction::MoveCursor(d, extend) => {},
        EditAction::SelectAll => {},
        EditAction::SetText(s) => {
            lemma_split_lines_wf(s@);
        },
    }
}

/// Along any sequence of edit actions, the cursor stays within the text after
/// every single action.
pub proof fn lemma_edits_keep_bounds(b: BufferModel, actions: Seq<EditAction>)
    requires
        model_wf(b),
    ensures
        forall|i: int| 0 <= i <= actions.len() ==> #[trigger] model_wf(apply_all(b, actions.take(i))),
    decreases actions.len(),
{
    if actions.len() > 0 {
        lemma_edits_keep_bounds(b, actions.drop_last());
        assert forall|i: int| 0 <= i <= actions.len() implies #[trigger] model_wf(apply_all(b, actions.take(i))) by {
            if i < actions.len() {
                assert(actions.take(i) =~= actions.drop_last().take(i));
            } else {
                assert(actions.take(i) =~= actions);
                assert(actions.drop_last().take(actions.len() - 1) =~= actions.drop_last());
                lemma_apply_keeps_bounds(apply_all(b, actions.drop_last()), actions.last());
            }
        }
    }
}

/// Setting a text and reading it back gives the same text.
pub proof fn lemma_set_text_round_trip(b: BufferModel, s: String)
    ensures
        join_lines(apply(b, EditAction::SetText(s)).lines) == s@,
{
    lemma_join_split(s@);
}

/// `n` copies of the same action.
pub open spec fn repeated(a: EditAction, n: nat) -> Seq<EditAction> {
    Seq::new(n, |i: int| a)
}

/// Moving up from the first line stops at the start of the text, however
/// often it is repeated; the cursor never leaves the first line.
pub proof fn lemma_move_up_clamps(b: BufferModel, extend: bool, n: nat)
    requires
        model_wf(b),
        b.cursor.0 == 0,
    ensures
        apply_all(b, repeated(EditAction::MoveCursor(Direction::Up, extend), n)).cursor.0 == 0,
        n > 0 ==> apply_all(b, repeated(EditAction::MoveCursor(Direction::Up, extend), n)).cursor
            == (0int, 0int),
        apply_all(b, repeated(EditAction::MoveCursor(Direction::Up, extend), n)).lines == b.lines,
    decreases n,
{
    if n > 0 {
        let a = EditAction::MoveCursor(Direction::Up, extend);
        assert(repeated(a, n).drop_last() =~= repeated(a, (n - 1) as nat));
        lemma_move_up_clamps(b, extend, (n - 1) as nat);
    }
}

/// Moving down from the last line stops at the end of the text, however
/// often it is repeated.
pub proof fn lemma_move_down_clamps(b: BufferModel, extend: bool, n: nat)
    requires
        model_wf(b),
        b.cursor.0 == last_line(b.lines),
    ensures
        apply_all(b, repeated(EditAction::MoveCursor(Direction::Down, extend), n)).cursor.0
            == last_line(b.lines),
        n > 0 ==> apply_all(b, repeated(EditAction::MoveCursor(Direction::Down, extend), n)).cursor
            == end_of_text(b.lines),
        apply_all(b, repeated(EditAction::MoveCursor(Direction::Down, extend), n)).lines == b.lines,
    decreases n,
{
    if n > 0 {
        let a = EditAction::MoveCursor(Direction::Down, extend);
        assert(repeated(a, n).drop_last() =~= repeated(a, (n - 1) as nat));
        lemma_move_down_clamps(b, extend, (n - 1) as nat);
    }
}

} // verus!
