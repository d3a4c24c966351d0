//! Text on the screen of a terminal, and the part of it that is selected.

use unicode_width::UnicodeWidthChar;
use vstd::prelude::*;
use crate::text;

verus! {

/// The columns that a character takes, as `UnicodeWidthChar::width` gives them.
pub uninterp spec fn char_columns(c: char) -> Option<usize>;

/// Whether a character is a control character.
pub open spec fn is_control(c: char) -> bool {
    c < '\u{20}' || '\u{7f}' <= c < '\u{a0}'
}

/// `UnicodeWidthChar::width`: the columns that a character takes, a function of the
/// character alone. Control characters have none, printable ASCII characters have one,
/// and no character has more than three.
#[verifier::external_body]
fn column_width(c: char) -> (r: Option<usize>)
    ensures
        r == char_columns(c),
        r is None <==> is_control(c),
        '\u{20}' <= c < '\u{7f}' ==> r == Some(1usize),
        r matches Some(w) ==> w <= 3,
{
    UnicodeWidthChar::width(c)
}

/// The columns that a character takes on the screen; none for a control character.
pub open spec fn columns(c: char) -> nat {
    match char_columns(c) {
        Some(w) => w as nat,
        None => 0,
    }
}

/// The columns that a character takes on the screen; none for a control character.
pub fn char_display_width(c: char) -> (r: usize)
    ensures
        r == columns(c),
        r <= 3,
        '\u{20}' <= c < '\u{7f}' ==> r == 1,
        is_control(c) ==> r == 0,
{
    match column_width(c) {
        Some(w) => w,
        None => 0,
    }
}

/// Texts one after the other.
pub open spec fn all_joined(parts: Seq<Seq<char>>) -> Seq<char>
    decreases parts.len(),
{
    if parts.len() == 0 {
        Seq::empty()
    } else {
        all_joined(parts.drop_last()) + parts.last()
    }
}

/// The number of characters of a text that begin before column `x`, where `used`
/// columns are taken already.
pub open spec fn chars_before(s: Seq<char>, used: nat, x: nat) -> nat
    decreases s.len(),
{
    if s.len() == 0 || used >= x {
        0
    } else {
        1 + chars_before(s.drop_first(), used + columns(s[0]), x)
    }
}

/// The lines of a terminal with the scrollback before them, and the cursor.
pub struct TerminalScreen {
    /// All lines, the oldest first.
    pub lines: Vec<String>,
    /// The number of lines at the end that are on the screen.
    pub physical_rows: usize,
    /// The column of the cursor.
    pub cursor_x: usize,
    /// The row of the cursor, counted from the first line on the screen.
    pub cursor_y: i64,
}

/// `a - b`, or 0 where that is negative.
pub open spec fn less(a: int, b: int) -> int {
    if a > b {
        a - b
    } else {
        0
    }
}

impl TerminalScreen {
    /// The last `max_lines` lines, without white space at their ends, each but the
    /// first with a line break before it.
    pub open spec fn tail_parts(self, max_lines: int) -> Seq<Seq<char>> {
        let start = less(self.lines@.len() as int, max_lines);
        Seq::new(
            (self.lines@.len() - start) as nat,
            |i: int|
                if i == 0 {
                    text::trim_end_of(self.lines@[start]@)
                } else {
                    seq!['\n'] + text::trim_end_of(self.lines@[start + i]@)
                },
        )
    }

    /// The line of the cursor, counted from the first of the last `max_lines` lines.
    pub open spec fn cursor_line(self, max_lines: int) -> int {
        less(self.lines@.len() as int, self.physical_rows as int) + self.cursor_y - less(
            self.lines@.len() as int,
            max_lines,
        )
    }

    /// The place of the cursor in the text of the last `max_lines` lines, where its
    /// line is one of them.
    pub open spec fn cursor_offset(self, max_lines: int) -> Option<int> {
        let parts = self.tail_parts(max_lines);
        let line = self.cursor_line(max_lines);
        if 0 <= line < parts.len() {
            let start = less(self.lines@.len() as int, max_lines);
            let before = all_joined(parts.take(line)).len() + (if line == 0 {
                0int
            } else {
                1
            });
            Some(
                before + chars_before(
                    text::trim_end_of(self.lines@[start + line]@),
                    0,
                    self.cursor_x as nat,
                ),
            )
        } else {
            None
        }
    }

    /// The text of the last `max_lines` lines, without white space at their ends.
    pub fn screen_text(&self, max_lines: usize) -> (r: String)
        ensures
            r@ == all_joined(self.tail_parts(max_lines as int)),
    {
        let total = self.lines.len();
        let start = total.saturating_sub(max_lines);
        let ghost parts = self.tail_parts(max_lines as int);
        let mut r = String::new();
        let mut i: usize = start;
        assert(parts.take(0) =~= Seq::empty());
        while i < total
            invariant
                total == self.lines@.len(),
                start == less(total as int, max_lines as int),
                parts == self.tail_parts(max_lines as int),
                start <= i <= total,
                r@ == all_joined(parts.take(i - start)),
            decreases total - i,
        {
            if i > start {
                text::push_char(&mut r, '\n');
            }
            r.append(text::trim_end(self.lines[i].as_str()));
            proof {
                joined_step(parts, i - start);
                assert(r@ =~= all_joined(parts.take(i - start + 1)));
            }
            i = i + 1;
        }
        assert(parts.take(i - start) =~= parts);
        r
    }

    /// The text of the last `max_lines` lines, and the place of the cursor in it.
    pub fn screen_text_with_cursor(&self, max_lines: usize) -> (r: (String, Option<i32>))
        requires
            all_joined(self.tail_parts(max_lines as int)).len() <= i32::MAX,
        ensures
            r.0@ == all_joined(self.tail_parts(max_lines as int)),
            match r.1 {
                Some(offset) => self.cursor_offset(max_lines as int) == Some(offset as int),
                None => self.cursor_offset(max_lines as int) is None,
            },
    {
        let total = self.lines.len();
        let start = total.saturating_sub(max_lines);
        let visible_start = total.saturating_sub(self.physical_rows);
        let cursor_line: i128 = visible_start as i128 + self.cursor_y as i128 - start as i128;
        let ghost parts = self.tail_parts(max_lines as int);
        let mut r = String::new();
        let mut offset: Option<i32> = None;
        let mut total_chars: i32 = 0;
        let mut i: usize = start;
        assert(parts.take(0) =~= Seq::empty());
        while i < total
            invariant
                total == self.lines@.len(),
                start == less(total as int, max_lines as int),
                parts == self.tail_parts(max_lines as int),
                cursor_line == self.cursor_line(max_lines as int),
                all_joined(parts).len() <= i32::MAX,
                start <= i <= total,
                r@ == all_joined(parts.take(i - start)),
                total_chars == r@.len(),
                match offset {
                    Some(o) => 0 <= cursor_line < i - start && self.cursor_offset(
                        max_lines as int,
                    ) == Some(o as int),
                    None => !(0 <= cursor_line < i - start),
                },
            decreases total - i,
        {
            proof {
                joined_step(parts, i - start);
                joined_prefix_fits(parts, i - start + 1);
            }
            let line = text::trim_end(self.lines[i].as_str());
            let length = line.unicode_len();
            if i > start {
                text::push_char(&mut r, '\n');
                total_chars = total_chars + 1;
            }
            if cursor_line == (i - start) as i128 {
                let chars = text::chars_of(line);
                let mut used: u64 = 0;
                let mut k: usize = 0;
                assert(line@.skip(0) =~= line@);
                while k < chars.len() && used < self.cursor_x as u64
                    invariant
                        chars@ == line@,
                        k <= chars@.len(),
                        chars@.len() <= i32::MAX,
                        used <= 3 * k,
                        chars_before(line@, 0, self.cursor_x as nat) == k + chars_before(
                            line@.skip(k as int),
                            used as nat,
                            self.cursor_x as nat,
                        ),
                    decreases chars@.len() - k,
                {
                    assert(line@.skip(k as int).drop_first() =~= line@.skip(k + 1));
                    used = used + char_display_width(chars[k]) as u64;
                    k = k + 1;
                }
                offset = Some(total_chars + k as i32);
            }
            total_chars = total_chars + length as i32;
            r.append(line);
            assert(r@ =~= all_joined(parts.take(i - start + 1)));
            i = i + 1;
        }
        assert(parts.take(i - start) =~= parts);
        (r, offset)
    }
}

proof fn joined_step(parts: Seq<Seq<char>>, n: int)
    requires
        0 <= n < parts.len(),
    ensures
        all_joined(parts.take(n + 1)) == all_joined(parts.take(n)) + parts[n],
{
    assert(parts.take(n + 1).drop_last() =~= parts.take(n));
}

proof fn joined_prefix_fits(parts: Seq<Seq<char>>, n: int)
    requires
        0 <= n <= parts.len(),
    ensures
        all_joined(parts.take(n)).len() <= all_joined(parts).len(),
    decreases parts.len(),
{
    if n == parts.len() {
        assert(parts.take(n) =~= parts);
    } else {
        joined_prefix_fits(parts.drop_last(), n);
        assert(parts.drop_last().take(n) =~= parts.take(n));
    }
}

/// The cursor is in the text, or right behind it.
pub proof fn cursor_is_in_text(screen: TerminalScreen, max_lines: int)
    requires
        0 <= max_lines,
    ensures
        match screen.cursor_offset(max_lines) {
            Some(offset) => 0 <= offset <= all_joined(screen.tail_parts(max_lines)).len(),
            None => true,
        },
{
    let parts = screen.tail_parts(max_lines);
    let line = screen.cursor_line(max_lines);
    if 0 <= line < parts.len() {
        let start = less(screen.lines@.len() as int, max_lines);
        chars_before_fits(text::trim_end_of(screen.lines@[start + line]@), 0, screen.cursor_x as nat);
        joined_step(parts, line);
        joined_prefix_fits(parts, line + 1);
    }
}

proof fn chars_before_fits(s: Seq<char>, used: nat, x: nat)
    ensures
        chars_before(s, used, x) <= s.len(),
    decreases s.len(),
{
    if s.len() > 0 && used < x {
        chars_before_fits(s.drop_first(), used + columns(s[0]), x);
    }
}

/// A cell of the screen.
#[derive(Debug, Clone, Copy, PartialEq, Eq, Structural)]
pub struct CellCoord {
    pub col: usize,
    pub row: usize,
}

impl Default for CellCoord {
    fn default() -> (r: Self)
        ensures
            r == (CellCoord { col: 0, row: 0 }),
    {
        CellCoord { col: 0, row: 0 }
    }
}

/// Whether cell `a` is `b` or is read before it.
pub open spec fn not_after(a: CellCoord, b: CellCoord) -> bool {
    a.row < b.row || a.row == b.row && a.col <= b.col
}

/// Two cells in the order in which they are read.
pub open spec fn in_reading_order(a: CellCoord, b: CellCoord) -> (CellCoord, CellCoord) {
    if not_after(a, b) {
        (a, b)
    } else {
        (b, a)
    }
}

/// The selection in a pane, from the cell where it was begun to the cell that it was
/// drawn to.
#[derive(Debug, Clone, Copy, PartialEq, Eq)]
pub struct PaneSelection {
    pub range: Option<(CellCoord, CellCoord)>,
}

impl Default for PaneSelection {
    fn default() -> (r: Self)
        ensures
            r.range is None,
    {
        PaneSelection { range: None }
    }
}

impl PaneSelection {
    /// The first and the last selected cell.
    pub open spec fn ends(self) -> Option<(CellCoord, CellCoord)> {
        match self.range {
            Some((a, b)) => Some(in_reading_order(a, b)),
            None => None,
        }
    }

    /// The first and the last selected cell.
    pub fn normalized_selection(&self) -> (r: Option<(CellCoord, CellCoord)>)
        ensures
            r == self.ends(),
    {
        match self.range {
            Some((a, b)) => {
                if a.row < b.row || (a.row == b.row && a.col <= b.col) {
                    Some((a, b))
                } else {
                    Some((b, a))
                }
            },
            None => None,
        }
    }

    /// Begins to drag: nothing is selected yet.
    pub fn begin_drag(&mut self)
        ensures
            final(self).range is None,
    {
        self.range = None;
    }

    /// Drags from `start` to `end`. Within one cell that changes nothing.
    pub fn drag_to(&mut self, start: CellCoord, end: CellCoord)
        ensures
            final(self).range == (if start != end {
                Some((start, end))
            } else {
                old(self).range
            }),
    {
        if start.col != end.col || start.row != end.row {
            self.range = Some((start, end));
        }
    }

    /// Ends to drag from `start` at `end`. A drag that ends where it began selects
    /// nothing; else what is selected ends at `end`.
    pub fn end_drag(&mut self, start: CellCoord, end: CellCoord)
        ensures
            final(self).range == (if start == end {
                None
            } else {
                match old(self).range {
                    Some((a, _)) => Some((a, end)),
                    None => None,
                }
            }),
    {
        if start.col == end.col && start.row == end.row {
            self.range = None;
        } else if let Some((a, _)) = self.range {
            self.range = Some((a, end));
        }
    }

    /// Selects the rows of the screen from the first cell on.
    pub fn select_screen(&mut self, physical_rows: usize)
        ensures
            final(self).range == Some(
                (
                    (CellCoord { col: 0, row: 0 }),
                    (CellCoord {
                        col: usize::MAX,
                        row: less(physical_rows as int, 1) as usize,
                    }),
                ),
            ),
    {
        self.range = Some(
            (
                CellCoord { col: 0, row: 0 },
                CellCoord { col: usize::MAX, row: physical_rows.saturating_sub(1) },
            ),
        );
    }
}

/// The columns that are selected in a row: the first one, and the one behind the
/// last. A selection without a last column reaches to the end of the row.
pub open spec fn span_in_row(start: CellCoord, end: CellCoord, row: int, cols: int) -> (int, int) {
    (
        if row == start.row {
            start.col as int
        } else {
            0
        },
        if row == end.row && end.col < usize::MAX {
            end.col + 1
        } else {
            cols
        },
    )
}

/// The columns that are selected in a row: the first one, and the number of those that
/// follow it.
pub fn selected_span(start: CellCoord, end: CellCoord, row: usize, cols: usize) -> (r: (
    usize,
    usize,
))
    requires
        start.row <= row <= end.row,
    ensures
        ({
            let (first, behind) = span_in_row(start, end, row as int, cols as int);
            r.0 == first && r.1 == less(behind, first)
        }),
{
    let last = if end.col < usize::MAX {
        end.col + 1
    } else {
        cols
    };
    let (first, behind) = if start.row == end.row {
        (start.col, last)
    } else if row == start.row {
        (start.col, cols)
    } else if row == end.row {
        (0, last)
    } else {
        (0, cols)
    };
    (first, behind.saturating_sub(first))
}

/// The cells of a row that are marked as selected are those that are read from the
/// first to the last selected cell.
pub proof fn span_is_selection(start: CellCoord, end: CellCoord, cell: CellCoord, cols: int)
    requires
        not_after(start, end),
        start.row <= cell.row <= end.row,
        cell.col < cols,
    ensures
        ({
            let (first, behind) = span_in_row(start, end, cell.row as int, cols);
            (first <= cell.col < behind) == (not_after(start, cell) && not_after(cell, end))
        }),
{
}

/// The ends of a selection are in reading order, and do not depend on the direction in
/// which it was drawn.
pub proof fn selection_is_ordered(a: CellCoord, b: CellCoord)
    ensures
        ({
            let (start, end) = in_reading_order(a, b);
            &&& not_after(start, end)
            &&& in_reading_order(b, a) == (start, end)
            &&& in_reading_order(start, end) == (start, end)
        }),
{
}

/// The lines that the rows from `start` to `end` of the screen are, given the number
/// of all lines and of those on the screen: the first one, and the one behind the
/// last.
pub fn selected_lines(
    total: usize,
    physical_rows: usize,
    start: CellCoord,
    end: CellCoord,
) -> (r: (usize, usize))
    requires
        less(total as int, physical_rows as int) + start.row <= usize::MAX,
        less(total as int, physical_rows as int) + end.row + 1 <= usize::MAX,
    ensures
        r.0 == less(total as int, physical_rows as int) + start.row,
        r.1 == less(total as int, physical_rows as int) + end.row + 1,
{
    let view_start = total.saturating_sub(physical_rows);
    (view_start + start.row, view_start + end.row + 1)
}

/// The lines that are on the screen: the first one, and the one behind the last.
pub fn visible_lines(total: usize, physical_rows: usize) -> (r: (usize, usize))
    ensures
        r.0 == less(total as int, physical_rows as int),
        r.1 == total,
{
    (total.saturating_sub(physical_rows), total)
}

/// A visible cell of a line: its column and its text.
pub struct ScreenCell {
    pub index: usize,
    pub text: String,
}

/// `s` without the spaces at its end.
pub open spec fn without_trailing_spaces(s: Seq<char>) -> Seq<char>
    decreases s.len(),
{
    if s.len() > 0 && s.last() == ' ' {
        without_trailing_spaces(s.drop_last())
    } else {
        s
    }
}

/// Whether a cell in a row is selected.
pub open spec fn is_selected(cell: ScreenCell, row: int, start: CellCoord, end: CellCoord) -> bool {
    &&& row == start.row ==> start.col <= cell.index
    &&& row == end.row ==> cell.index <= end.col
}

/// The texts of the cells of a line that are selected, empty for those that are not.
pub open spec fn selected_texts(
    cells: Seq<ScreenCell>,
    row: int,
    start: CellCoord,
    end: CellCoord,
) -> Seq<Seq<char>> {
    Seq::new(
        cells.len(),
        |i: int|
            if is_selected(cells[i], row, start, end) {
                cells[i].text@
            } else {
                Seq::empty()
            },
    )
}

/// The selected text of each line, without spaces at its end, and with a line break
/// behind it unless it is the last one.
pub open spec fn selected_parts(
    lines: Seq<Vec<ScreenCell>>,
    start: CellCoord,
    end: CellCoord,
) -> Seq<Seq<char>> {
    Seq::new(
        lines.len(),
        |i: int|
            {
                let line = without_trailing_spaces(
                    all_joined(selected_texts(lines[i]@, start.row + i, start, end)),
                );
                if start.row + i == end.row {
                    line
                } else {
                    line.push('\n')
                }
            },
    )
}

/// The texts of cells.
pub open spec fn cell_texts(cells: Seq<ScreenCell>) -> Seq<Seq<char>> {
    Seq::new(cells.len(), |i: int| cells[i].text@)
}

/// The text of each line, without spaces at its end and with a line break behind it.
pub open spec fn line_parts(lines: Seq<Vec<ScreenCell>>) -> Seq<Seq<char>> {
    Seq::new(
        lines.len(),
        |i: int| without_trailing_spaces(all_joined(cell_texts(lines[i]@))).push('\n'),
    )
}

fn strip_spaces(s: &String) -> (r: String)
    ensures
        r@ == without_trailing_spaces(s@),
{
    let mut chars = text::chars_of(s.as_str());
    while chars.len() > 0 && chars[chars.len() - 1] == ' '
        invariant
            without_trailing_spaces(chars@) == without_trailing_spaces(s@),
        decreases chars@.len(),
    {
        let _ = chars.pop();
    }
    text::text_of(&chars)
}

/// The selected text, given the lines from the first to the last selected row as far
/// as they exist. Nothing is selected where the selection is a single cell.
pub fn selection_text(selection: &PaneSelection, lines: &Vec<Vec<ScreenCell>>) -> (r: Option<String>)
    requires
        selection.ends() matches Some((start, end)) ==> start == end || lines@.len() <= end.row
            - start.row + 1,
    ensures
        match selection.ends() {
            Some((start, end)) => if start == end {
                r is None
            } else {
                r is Some && r->0@ == all_joined(selected_parts(lines@, start, end))
            },
            None => r is None,
        },
{
    let (start, end) = match selection.normalized_selection() {
        Some(ends) => ends,
        None => {
            return None;
        },
    };
    if start.col == end.col && start.row == end.row {
        return None;
    }
    let ghost parts = selected_parts(lines@, start, end);
    let mut r = String::new();
    let mut i: usize = 0;
    assert(parts.take(0) =~= Seq::empty());
    while i < lines.len()
        invariant
            parts == selected_parts(lines@, start, end),
            lines@.len() <= end.row - start.row + 1,
            i <= lines@.len(),
            r@ == all_joined(parts.take(i as int)),
        decreases lines@.len() - i,
    {
        let row = start.row + i;
        let ghost texts = selected_texts(lines@[i as int]@, row as int, start, end);
        let mut line = String::new();
        let mut k: usize = 0;
        assert(texts.take(0) =~= Seq::empty());
        while k < lines[i].len()
            invariant
                i < lines@.len(),
                texts == selected_texts(lines@[i as int]@, row as int, start, end),
                k <= lines@[i as int]@.len(),
                line@ == all_joined(texts.take(k as int)),
            decreases lines@[i as int]@.len() - k,
        {
            let index = lines[i][k].index;
            if (row != start.row || start.col <= index) && (row != end.row || index <= end.col) {
                line.append(lines[i][k].text.as_str());
            }
            proof {
                joined_step(texts, k as int);
                assert(line@ =~= all_joined(texts.take(k + 1)));
            }
            k = k + 1;
        }
        assert(texts.take(k as int) =~= texts);
        let stripped = strip_spaces(&line);
        r.append(stripped.as_str());
        if row != end.row {
            text::push_char(&mut r, '\n');
        }
        proof {
            joined_step(parts, i as int);
            assert(r@ =~= all_joined(parts.take(i + 1)));
        }
        i = i + 1;
    }
    assert(parts.take(i as int) =~= parts);
    Some(r)
}

/// The text of the lines on the screen.
pub fn visible_text(lines: &Vec<Vec<ScreenCell>>) -> (r: String)
    ensures
        r@ == all_joined(line_parts(lines@)),
{
    let ghost parts = line_parts(lines@);
    let mut r = String::new();
    let mut i: usize = 0;
    assert(parts.take(0) =~= Seq::empty());
    while i < lines.len()
        invariant
            parts == line_parts(lines@),
            i <= lines@.len(),
            r@ == all_joined(parts.take(i as int)),
        decreases lines@.len() - i,
    {
        let ghost texts = cell_texts(lines@[i as int]@);
        let mut line = String::new();
        let mut k: usize = 0;
        assert(texts.take(0) =~= Seq::empty());
        while k < lines[i].len()
            invariant
                i < lines@.len(),
                texts == cell_texts(lines@[i as int]@),
                k <= lines@[i as int]@.len(),
                line@ == all_joined(texts.take(k as int)),
            decreases lines@[i as int]@.len() - k,
        {
            line.append(lines[i][k].text.as_str());
            proof {
                joined_step(texts, k as int);
                assert(line@ =~= all_joined(texts.take(k + 1)));
            }
            k = k + 1;
        }
        assert(texts.take(k as int) =~= texts);
        let stripped = strip_spaces(&line);
        r.append(stripped.as_str());
        text::push_char(&mut r, '\n');
        proof {
            joined_step(parts, i as int);
            assert(r@ =~= all_joined(parts.take(i + 1)));
        }
        i = i + 1;
    }
    assert(parts.take(i as int) =~= parts);
    r
}

/// Whether the text of a cell is drawn: not where it is invisible or blank.
pub fn is_drawn(invisible: bool, cell: &str) -> (r: bool)
    ensures
        r == (!invisible && cell@.len() > 0 && cell@ != seq![' ']),
{
    if invisible || cell.unicode_len() == 0 {
        return false;
    }
    let blank = cell.unicode_len() == 1 && cell.get_char(0) == ' ';
    assert(blank ==> cell@ =~= seq![' ']);
    assert(cell@ == seq![' '] ==> cell@.len() == 1 && cell@[0] == ' ');
    !blank
}

/// The colours of a cell, text first: swapped where the cell is shown in reverse.
pub fn cell_colors<T>(foreground: T, background: T, reverse: bool) -> (r: (T, T))
    ensures
        r == (if reverse {
            (background, foreground)
        } else {
            (foreground, background)
        }),
{
    if reverse {
        (background, foreground)
    } else {
        (foreground, background)
    }
}

/// The shapes that a program can ask for its cursor.
#[derive(Debug, Clone, Copy, PartialEq, Eq, Structural)]
pub enum CursorShape {
    Default,
    BlinkingBlock,
    SteadyBlock,
    BlinkingUnderline,
    SteadyUnderline,
    BlinkingBar,
    SteadyBar,
}

/// What is drawn for a cursor.
#[derive(Debug, Clone, Copy, PartialEq, Eq, Structural)]
pub enum CursorMark {
    Block,
    Underline,
    Bar,
}

/// What is drawn for a cursor: nothing where it is hidden or not on the screen.
pub fn cursor_mark(visible: bool, row: usize, rows: usize, shape: CursorShape) -> (r: Option<
    CursorMark,
>)
    ensures
        r is Some <==> visible && row < rows,
        r matches Some(mark) ==> mark == (match shape {
            CursorShape::Default | CursorShape::BlinkingBlock | CursorShape::SteadyBlock =>
                CursorMark::Block,
            CursorShape::BlinkingUnderline | CursorShape::SteadyUnderline => CursorMark::Underline,
            CursorShape::BlinkingBar | CursorShape::SteadyBar => CursorMark::Bar,
        }),
{
    if !visible || row >= rows {
        return None;
    }
    Some(
        match shape {
            CursorShape::Default | CursorShape::BlinkingBlock | CursorShape::SteadyBlock => {
                CursorMark::Block
            },
            CursorShape::BlinkingUnderline | CursorShape::SteadyUnderline => CursorMark::Underline,
            CursorShape::BlinkingBar | CursorShape::SteadyBar => CursorMark::Bar,
        },
    )
}

/// The pieces of a text between its line breaks.
pub open spec fn pieces(s: Seq<char>) -> Seq<Seq<char>>
    decreases s.len(),
{
    if s.len() == 0 {
        seq![Seq::empty()]
    } else {
        let before = pieces(s.drop_last());
        if s.last() == '\n' {
            before.push(Seq::empty())
        } else {
            before.drop_last().push(before.last().push(s.last()))
        }
    }
}

proof fn pieces_exist(s: Seq<char>)
    ensures
        pieces(s).len() > 0,
    decreases s.len(),
{
    if s.len() > 0 {
        pieces_exist(s.drop_last());
    }
}

/// A text without line breaks that is added goes to the last piece.
proof fn pieces_with_line(s: Seq<char>, line: Seq<char>)
    requires
        !line.contains('\n'),
    ensures
        pieces(s + line) == pieces(s).drop_last().push(pieces(s).last() + line),
    decreases line.len(),
{
    pieces_exist(s);
    if line.len() == 0 {
        assert(s + line =~= s);
        assert(pieces(s).last() + line =~= pieces(s).last());
        assert(pieces(s) =~= pieces(s).drop_last().push(pieces(s).last()));
    } else {
        let rest = line.drop_last();
        assert(line.contains(line[line.len() - 1]));
        assert forall|c: char| rest.contains(c) implies line.contains(c) by {
            let i = rest.index_of(c);
            assert(line[i] == c);
        }
        pieces_with_line(s, rest);
        assert((s + line).drop_last() =~= s + rest);
        let before = pieces(s + rest);
        assert(before.drop_last() =~= pieces(s).drop_last());
        assert(before.last().push(line.last()) =~= pieces(s).last() + line);
    }
}

proof fn pieces_with_break(s: Seq<char>)
    ensures
        pieces(s.push('\n')) == pieces(s).push(Seq::empty()),
{
    assert(s.push('\n').drop_last() =~= s);
}

/// The pieces of lines with a line break behind each of them.
proof fn pieces_of_ended(parts: Seq<Seq<char>>, rows: Seq<Seq<char>>)
    requires
        parts.len() == rows.len(),
        forall|i: int| 0 <= i < parts.len() ==> #[trigger] parts[i] == rows[i].push('\n'),
        forall|i: int| 0 <= i < rows.len() ==> !(#[trigger] rows[i]).contains('\n'),
    ensures
        pieces(all_joined(parts)) == rows.push(Seq::empty()),
    decreases parts.len(),
{
    if parts.len() == 0 {
        assert(pieces(all_joined(parts)) =~= rows.push(Seq::empty()));
    } else {
        pieces_of_ended(parts.drop_last(), rows.drop_last());
        let before = all_joined(parts.drop_last());
        let row = rows.last();
        assert(!rows[rows.len() - 1].contains('\n'));
        assert(parts[parts.len() - 1] == row.push('\n'));
        pieces_with_line(before, row);
        assert(all_joined(parts) =~= (before + row).push('\n'));
        pieces_with_break(before + row);
        assert(Seq::<char>::empty() + row =~= row);
        assert(rows.drop_last().push(Seq::empty()).drop_last() =~= rows.drop_last());
        assert(pieces(before + row) =~= rows);
    }
}

/// The pieces of lines with a line break before each of them but the first.
proof fn pieces_of_begun(parts: Seq<Seq<char>>, rows: Seq<Seq<char>>)
    requires
        parts.len() == rows.len(),
        parts.len() > 0,
        parts[0] == rows[0],
        forall|i: int| 0 < i < parts.len() ==> #[trigger] parts[i] == seq!['\n'] + rows[i],
        forall|i: int| 0 <= i < rows.len() ==> !(#[trigger] rows[i]).contains('\n'),
    ensures
        pieces(all_joined(parts)) == rows,
    decreases parts.len(),
{
    let row = rows.last();
    assert(!rows[rows.len() - 1].contains('\n'));
    if parts.len() == 1 {
        assert(parts.drop_last() =~= Seq::empty());
        assert(all_joined(parts.drop_last()) =~= Seq::empty());
        assert(all_joined(parts) =~= Seq::<char>::empty() + row);
        pieces_with_line(Seq::empty(), row);
        assert(Seq::<char>::empty() + row =~= row);
        assert(pieces(Seq::<char>::empty()) =~= seq![Seq::<char>::empty()]);
        assert(pieces(all_joined(parts)) =~= rows);
    } else {
        pieces_of_begun(parts.drop_last(), rows.drop_last());
        let before = all_joined(parts.drop_last());
        assert(parts[parts.len() - 1] == seq!['\n'] + row);
        pieces_with_break(before);
        pieces_with_line(before.push('\n'), row);
        assert(all_joined(parts) =~= before.push('\n') + row);
        assert(Seq::<char>::empty() + row =~= row);
        assert(rows.drop_last().push(Seq::empty()).drop_last() =~= rows.drop_last());
        assert(pieces(all_joined(parts)) =~= rows);
    }
}

/// What is left without trailing spaces begins the text, does not end with a space, and
/// only spaces follow it.
pub proof fn only_trailing_spaces_go(s: Seq<char>)
    ensures
        without_trailing_spaces(s).is_prefix_of(s),
        without_trailing_spaces(s).len() > 0 ==> without_trailing_spaces(s).last() != ' ',
        forall|i: int|
            without_trailing_spaces(s).len() <= i < s.len() ==> #[trigger] s[i] == ' ',
    decreases s.len(),
{
    if s.len() > 0 && s.last() == ' ' {
        let rest = s.drop_last();
        only_trailing_spaces_go(rest);
        let r = without_trailing_spaces(s);
        assert(s.subrange(0, r.len() as int) =~= rest.subrange(0, r.len() as int));
        assert forall|i: int| r.len() <= i < s.len() implies #[trigger] s[i] == ' ' by {
            if i < rest.len() {
                assert(rest[i] == s[i]);
            }
        }
    } else {
        assert(s.subrange(0, s.len() as int) =~= s);
    }
}

/// Texts one after the other begin with those of a first part and end with those of the
/// second, and a single text is itself.
pub proof fn joined_of_both(a: Seq<Seq<char>>, b: Seq<Seq<char>>, one: Seq<char>)
    ensures
        all_joined(a + b) == all_joined(a) + all_joined(b),
        all_joined(seq![one]) == one,
    decreases b.len(),
{
    assert(seq![one].drop_last() =~= Seq::empty());
    assert(all_joined(seq![one].drop_last()) =~= Seq::empty());
    assert(all_joined(seq![one]) =~= one);
    if b.len() == 0 {
        assert(a + b =~= a);
        assert(all_joined(a + b) =~= all_joined(a) + all_joined(b));
    } else {
        joined_of_both(a, b.drop_last(), one);
        assert((a + b).drop_last() =~= a + b.drop_last());
        assert(all_joined(a + b) =~= all_joined(a) + all_joined(b));
    }
}

/// Whether no cell of a line holds a line break.
pub open spec fn is_unbroken(line: Seq<ScreenCell>) -> bool {
    forall|k: int| 0 <= k < line.len() ==> !(#[trigger] line[k]).text@.contains('\n')
}

/// The condition that a cell of a row lies between the first and the last selected cell,
/// in the order in which cells are read.
pub open spec fn lies_between(row: int, start: CellCoord, end: CellCoord) -> spec_fn(ScreenCell) -> bool {
    |c: ScreenCell|
        {
            let at = CellCoord { col: c.index, row: row as usize };
            not_after(start, at) && not_after(at, end)
        }
}

/// The selected text of a row: that of the cells between the ends of the selection, without
/// trailing spaces.
pub open spec fn row_text(cells: Seq<ScreenCell>, row: int, start: CellCoord, end: CellCoord) -> Seq<char> {
    without_trailing_spaces(all_joined(cell_texts(cells.filter(lies_between(row, start, end)))))
}

proof fn selected_are_between(cells: Seq<ScreenCell>, row: int, start: CellCoord, end: CellCoord)
    requires
        start.row <= row <= end.row,
    ensures
        all_joined(selected_texts(cells, row, start, end)) == all_joined(
            cell_texts(cells.filter(lies_between(row, start, end))),
        ),
    decreases cells.len(),
{
    reveal(Seq::filter);
    let p = lies_between(row, start, end);
    let texts = selected_texts(cells, row, start, end);
    if cells.len() > 0 {
        let rest = cells.drop_last();
        let c = cells.last();
        selected_are_between(rest, row, start, end);
        assert(texts.drop_last() =~= selected_texts(rest, row, start, end));
        assert(is_selected(c, row, start, end) == p(c));
        if p(c) {
            let kept = cell_texts(rest.filter(p).push(c));
            assert(kept.drop_last() =~= cell_texts(rest.filter(p)));
            assert(kept.last() == c.text@);
        } else {
            assert(texts.last() =~= Seq::empty());
            assert(all_joined(texts) =~= all_joined(texts.drop_last()));
        }
    } else {
        assert(texts =~= cell_texts(cells.filter(p)));
    }
}

proof fn joined_unbroken(parts: Seq<Seq<char>>)
    requires
        forall|i: int| 0 <= i < parts.len() ==> !(#[trigger] parts[i]).contains('\n'),
    ensures
        !all_joined(parts).contains('\n'),
    decreases parts.len(),
{
    if parts.len() > 0 {
        joined_unbroken(parts.drop_last());
        assert(!parts[parts.len() - 1].contains('\n'));
        let t = all_joined(parts);
        if t.contains('\n') {
            let i = t.index_of('\n');
            let before = all_joined(parts.drop_last());
            if i < before.len() {
                assert(before[i] == '\n');
            } else {
                assert(parts.last()[i - before.len()] == '\n');
            }
        }
    }
}

proof fn prefix_unbroken(a: Seq<char>, b: Seq<char>)
    requires
        a.is_prefix_of(b),
        !b.contains('\n'),
    ensures
        !a.contains('\n'),
{
    if a.contains('\n') {
        let i = a.index_of('\n');
        assert(b.subrange(0, a.len() as int)[i] == '\n');
        assert(b[i] == '\n');
    }
}

/// The text of a selection over rows that exist has one line for each selected row, blank
/// or not: between its line breaks stand the selected texts of the rows, in order. Where
/// the last rows do not exist any more, the text ends with a line break.
pub proof fn each_selected_row_is_a_line(
    selection: &PaneSelection,
    lines: &Vec<Vec<ScreenCell>>,
    r: Option<String>,
)
    requires
        call_ensures(selection_text, (selection, lines), r),
        forall|i: int| 0 <= i < lines@.len() ==> is_unbroken((#[trigger] lines@[i])@),
    ensures
        match selection.range {
            Some((a, b)) => {
                let (start, end) = if not_after(a, b) {
                    (a, b)
                } else {
                    (b, a)
                };
                let rows = Seq::new(
                    lines@.len(),
                    |i: int| row_text(lines@[i]@, start.row + i, start, end),
                );
                &&& a == b ==> r is None
                &&& a != b && lines@.len() == end.row - start.row + 1 ==> r is Some && pieces(r->0@)
                    == rows
                &&& a != b && lines@.len() < end.row - start.row + 1 ==> r is Some && pieces(r->0@)
                    == rows.push(Seq::empty())
            },
            None => r is None,
        },
{
    if let Some((a, b)) = selection.range {
        let (start, end) = if not_after(a, b) {
            (a, b)
        } else {
            (b, a)
        };
        let n = lines@.len() as int;
        if a != b && n <= end.row - start.row + 1 {
            let parts = selected_parts(lines@, start, end);
            let rows = Seq::new(
                lines@.len(),
                |i: int| row_text(lines@[i]@, start.row + i, start, end),
            );
            assert forall|i: int| 0 <= i < n implies !(#[trigger] rows[i]).contains('\n') && parts[i]
                == (if start.row + i == end.row {
                rows[i]
            } else {
                rows[i].push('\n')
            }) by {
                let row = start.row + i;
                selected_are_between(lines@[i]@, row, start, end);
                let texts = selected_texts(lines@[i]@, row, start, end);
                assert(is_unbroken(lines@[i]@));
                assert forall|k: int| 0 <= k < texts.len() implies !(#[trigger] texts[k]).contains(
                    '\n',
                ) by {
                    assert(!lines@[i]@[k].text@.contains('\n'));
                }
                joined_unbroken(texts);
                only_trailing_spaces_go(all_joined(texts));
                prefix_unbroken(rows[i], all_joined(texts));
            }
            if n == end.row - start.row + 1 {
                let before = parts.drop_last();
                pieces_of_ended(before, rows.drop_last());
                assert(parts[n - 1] == rows[n - 1]);
                assert(!rows[n - 1].contains('\n'));
                pieces_with_line(all_joined(before), rows.last());
                assert(Seq::<char>::empty() + rows.last() =~= rows.last());
                assert(rows.drop_last().push(Seq::empty()).drop_last() =~= rows.drop_last());
                assert(pieces(all_joined(parts)) =~= rows);
            } else {
                pieces_of_ended(parts, rows);
            }
        }
    }
}

/// A selection does not depend on the direction in which it was drawn.
pub proof fn direction_does_not_matter(
    forth: &PaneSelection,
    back: &PaneSelection,
    lines: &Vec<Vec<ScreenCell>>,
    r: Option<String>,
    q: Option<String>,
)
    requires
        forth.range is Some,
        back.range is Some,
        (forth.range->0).0 == (back.range->0).1,
        (forth.range->0).1 == (back.range->0).0,
        call_ensures(selection_text, (forth, lines), r),
        call_ensures(selection_text, (back, lines), q),
    ensures
        r is Some <==> q is Some,
        r is Some ==> r->0@ == q->0@,
{
    let (a, b) = forth.range->0;
    selection_is_ordered(a, b);
}

/// The text of the screen has one line for each line on it, blank or not, without the
/// spaces at its end, and ends with a line break.
pub proof fn each_visible_line_is_a_line(lines: &Vec<Vec<ScreenCell>>, r: String)
    requires
        call_ensures(visible_text, (lines,), r),
        forall|i: int| 0 <= i < lines@.len() ==> is_unbroken((#[trigger] lines@[i])@),
    ensures
        pieces(r@) == Seq::new(
            lines@.len(),
            |i: int|
                without_trailing_spaces(
                    all_joined(Seq::new(lines@[i]@.len(), |k: int| lines@[i]@[k].text@)),
                ),
        ).push(Seq::empty()),
{
    let parts = line_parts(lines@);
    let rows = Seq::new(
        lines@.len(),
        |i: int| without_trailing_spaces(all_joined(cell_texts(lines@[i]@))),
    );
    assert forall|i: int| 0 <= i < rows.len() implies !(#[trigger] rows[i]).contains('\n') by {
        let texts = cell_texts(lines@[i]@);
        assert(is_unbroken(lines@[i]@));
        assert forall|k: int| 0 <= k < texts.len() implies !(#[trigger] texts[k]).contains('\n') by {
            assert(!lines@[i]@[k].text@.contains('\n'));
        }
        joined_unbroken(texts);
        only_trailing_spaces_go(all_joined(texts));
        prefix_unbroken(rows[i], all_joined(texts));
    }
    pieces_of_ended(parts, rows);
    assert(rows =~= Seq::new(
        lines@.len(),
        |i: int|
            without_trailing_spaces(
                all_joined(Seq::new(lines@[i]@.len(), |k: int| lines@[i]@[k].text@)),
            ),
    )) by {
        assert forall|i: int| 0 <= i < lines@.len() implies cell_texts(#[trigger] lines@[i]@)
            == Seq::new(lines@[i]@.len(), |k: int| lines@[i]@[k].text@) by {
            assert(cell_texts(lines@[i]@) =~= Seq::new(
                lines@[i]@.len(),
                |k: int| lines@[i]@[k].text@,
            ));
        }
    }
}

/// The text of the last lines of a terminal has a line for each of them, without the white
/// space at its end: as many as are asked for, or all where there are fewer.
pub proof fn each_of_the_last_lines_is_a_line(screen: &TerminalScreen, max_lines: usize, r: String)
    requires
        call_ensures(TerminalScreen::screen_text, (screen, max_lines), r),
        forall|i: int| 0 <= i < screen.lines@.len() ==> !(#[trigger] screen.lines@[i])@.contains('\n'),
    ensures
        ({
            let total = screen.lines@.len() as int;
            let shown = if max_lines <= total {
                max_lines as int
            } else {
                total
            };
            &&& shown == 0 ==> r@.len() == 0
            &&& shown > 0 ==> pieces(r@) == Seq::new(
                shown as nat,
                |i: int| text::trim_end_of(screen.lines@[total - shown + i]@),
            )
        }),
{
    let total = screen.lines@.len() as int;
    let shown = if max_lines <= total {
        max_lines as int
    } else {
        total
    };
    let parts = screen.tail_parts(max_lines as int);
    let rows = Seq::new(
        shown as nat,
        |i: int| text::trim_end_of(screen.lines@[total - shown + i]@),
    );
    assert forall|i: int| 0 <= i < rows.len() implies !(#[trigger] rows[i]).contains('\n') by {
        let line = screen.lines@[total - shown + i]@;
        assert(!screen.lines@[total - shown + i]@.contains('\n'));
        text::trim_end_is_prefix(line);
        assert(line.subrange(0, rows[i].len() as int) =~= rows[i]);
        prefix_unbroken(rows[i], line);
    }
    if shown > 0 {
        pieces_of_begun(parts, rows);
    }
}

/// The columns that a text takes.
pub open spec fn width_of(s: Seq<char>) -> nat
    decreases s.len(),
{
    if s.len() == 0 {
        0
    } else {
        width_of(s.drop_last()) + columns(s.last())
    }
}

proof fn width_of_both(a: Seq<char>, b: Seq<char>)
    ensures
        width_of(a + b) == width_of(a) + width_of(b),
    decreases b.len(),
{
    if b.len() == 0 {
        assert(a + b =~= a);
    } else {
        width_of_both(a, b.drop_last());
        assert((a + b).drop_last() =~= a + b.drop_last());
    }
}

/// The characters that begin before a column are as many as fit: without the last of them
/// the column is not reached, and with all of them it is, unless the text ends.
pub proof fn characters_up_to_a_column(s: Seq<char>, used: nat, x: nat)
    ensures
        ({
            let k = chars_before(s, used, x) as int;
            &&& 0 <= k <= s.len()
            &&& k > 0 ==> used + width_of(s.take(k - 1)) < x
            &&& k < s.len() ==> used + width_of(s.take(k)) >= x
        }),
    decreases s.len(),
{
    if s.len() > 0 && used < x {
        let rest = s.drop_first();
        let one = seq![s[0]];
        characters_up_to_a_column(rest, used + columns(s[0]), x);
        let k = chars_before(s, used, x) as int;
        assert(one.drop_last() =~= Seq::empty());
        assert(width_of(one.drop_last()) == 0);
        assert(width_of(one) == columns(s[0]));
        if k > 1 {
            width_of_both(one, rest.take(k - 2));
            assert(one + rest.take(k - 2) =~= s.take(k - 1));
        } else {
            assert(s.take(0) =~= Seq::empty());
        }
        width_of_both(one, rest.take(k - 1));
        assert(one + rest.take(k - 1) =~= s.take(k));
    } else {
        assert(s.take(0) =~= Seq::empty());
    }
}

/// The place of the cursor in the text is on its line and at its column: before it stand
/// as many line breaks as there are lines above that of the cursor, and of the line the
/// characters that begin before its column. It is given where the line is among those
/// shown.
pub proof fn cursor_stands_in_its_line(
    screen: &TerminalScreen,
    max_lines: usize,
    r: (String, Option<i32>),
    text: String,
)
    requires
        call_ensures(TerminalScreen::screen_text_with_cursor, (screen, max_lines), r),
        call_ensures(TerminalScreen::screen_text, (screen, max_lines), text),
        forall|i: int| 0 <= i < screen.lines@.len() ==> !(#[trigger] screen.lines@[i])@.contains('\n'),
    ensures
        r.0@ == text@,
        ({
            let total = screen.lines@.len() as int;
            let first_shown = if max_lines <= total {
                total - max_lines
            } else {
                0
            };
            let first_visible = if screen.physical_rows <= total {
                total - screen.physical_rows
            } else {
                0
            };
            let row = first_visible + screen.cursor_y;
            &&& r.1 is Some <==> first_shown <= row < total
            &&& r.1 matches Some(offset) ==> {
                let line = text::trim_end_of(screen.lines@[row]@);
                let before = pieces(r.0@.take(offset as int));
                let k = before.last().len() as int;
                &&& 0 <= offset <= r.0@.len()
                &&& before.len() == row - first_shown + 1
                &&& before.last() == line.take(k)
                &&& k > 0 ==> width_of(line.take(k - 1)) < screen.cursor_x
                &&& k < line.len() ==> width_of(line.take(k)) >= screen.cursor_x
            }
        }),
{
    let total = screen.lines@.len() as int;
    let m = max_lines as int;
    let start = less(total, m);
    let n = screen.cursor_line(m);
    let parts = screen.tail_parts(m);
    if 0 <= n < parts.len() {
        let line = text::trim_end_of(screen.lines@[start + n]@);
        let x = screen.cursor_x as nat;
        let k = chars_before(line, 0, x) as int;
        let rows = Seq::new(parts.len(), |i: int| text::trim_end_of(screen.lines@[start + i]@));
        assert forall|i: int| 0 <= i < rows.len() implies !(#[trigger] rows[i]).contains('\n') by {
            let whole = screen.lines@[start + i]@;
            assert(!screen.lines@[start + i]@.contains('\n'));
            text::trim_end_is_prefix(whole);
            assert(whole.subrange(0, rows[i].len() as int) =~= rows[i]);
            prefix_unbroken(rows[i], whole);
        }
        characters_up_to_a_column(line, 0, x);
        cursor_is_in_text(*screen, m);
        let offset = screen.cursor_offset(m)->0;
        let all = all_joined(parts);
        let above = all_joined(parts.take(n));
        let here = if n == 0 {
            line
        } else {
            seq!['\n'] + line
        };
        assert(parts[n] == here);
        joined_step(parts, n);
        joined_begins(parts, n + 1);
        let head = if n == 0 {
            above
        } else {
            above.push('\n')
        };
        assert(head + line =~= all_joined(parts.take(n + 1)));
        assert(all.take(offset) =~= head + line.take(k)) by {
            assert(all.take((head + line).len() as int) =~= head + line);
            assert(all.take(offset) =~= (head + line).take(offset));
        }
        assert(!rows[n].contains('\n'));
        assert(line.take(k).is_prefix_of(line)) by {
            assert(line.subrange(0, k) =~= line.take(k));
        }
        prefix_unbroken(line.take(k), line);
        pieces_with_line(head, line.take(k));
        assert(Seq::<char>::empty() + line.take(k) =~= line.take(k));
        if n == 0 {
            assert(parts.take(0) =~= Seq::empty());
            assert(above =~= Seq::empty());
            assert(pieces(head) =~= seq![Seq::<char>::empty()]);
        } else {
            pieces_of_begun(parts.take(n), rows.take(n));
            pieces_with_break(above);
        }
    }
}

proof fn joined_begins(parts: Seq<Seq<char>>, n: int)
    requires
        0 <= n <= parts.len(),
    ensures
        all_joined(parts.take(n)).len() <= all_joined(parts).len(),
        all_joined(parts).take(all_joined(parts.take(n)).len() as int) == all_joined(parts.take(n)),
    decreases parts.len(),
{
    if n == parts.len() {
        assert(parts.take(n) =~= parts);
        assert(all_joined(parts).take(all_joined(parts).len() as int) =~= all_joined(parts));
    } else {
        let rest = parts.drop_last();
        joined_begins(rest, n);
        assert(rest.take(n) =~= parts.take(n));
        let k = all_joined(parts.take(n)).len() as int;
        assert(all_joined(parts).take(k) =~= all_joined(rest).take(k));
    }
}

/// The columns that are marked in a selected row are those of the cells between the ends of
/// the selection, in the order in which cells are read.
pub proof fn marked_columns_are_selected(
    start: CellCoord,
    end: CellCoord,
    row: usize,
    cols: usize,
    r: (usize, usize),
    col: usize,
)
    requires
        not_after(start, end),
        start.row <= row <= end.row,
        col < cols,
        call_ensures(selected_span, (start, end, row, cols), r),
    ensures
        r.0 <= col < r.0 + r.1 <==> not_after(start, (CellCoord { col, row })) && not_after(
            (CellCoord { col, row }),
            end,
        ),
{
    span_is_selection(start, end, CellCoord { col, row }, cols as int);
}

/// The lines on the screen are the last ones: as many as the screen has rows, or all where
/// there are fewer. The selected rows are counted from the first of them.
pub proof fn screen_shows_the_last_lines(
    total: usize,
    rows: usize,
    start: CellCoord,
    end: CellCoord,
    visible: (usize, usize),
    selected: (usize, usize),
)
    requires
        call_ensures(visible_lines, (total, rows), visible),
        call_ensures(selected_lines, (total, rows, start, end), selected),
    ensures
        visible.1 == total,
        rows <= total ==> visible.1 - visible.0 == rows,
        rows > total ==> visible.0 == 0,
        selected.0 == visible.0 + start.row,
        selected.1 == visible.0 + end.row + 1,
{
}

/// A cursor is marked where it is visible and on the screen, in the shape that the program
/// asked for, blinking or not.
pub proof fn cursors_have_their_shape(
    visible: bool,
    row: usize,
    rows: usize,
    shape: CursorShape,
    r: Option<CursorMark>,
)
    requires
        call_ensures(cursor_mark, (visible, row, rows, shape), r),
    ensures
        r is Some <==> visible && row < rows,
        r is Some && (shape is BlinkingUnderline || shape is SteadyUnderline) ==> r == Some(
            CursorMark::Underline,
        ),
        r is Some && (shape is BlinkingBar || shape is SteadyBar) ==> r == Some(CursorMark::Bar),
        r is Some && (shape is Default || shape is BlinkingBlock || shape is SteadyBlock) ==> r
            == Some(CursorMark::Block),
{
}

/// The text of a cell is drawn unless it is invisible, empty or a space.
pub proof fn blank_cells_are_not_drawn(invisible: bool, cell: &str, r: bool)
    requires
        call_ensures(is_drawn, (invisible, cell), r),
    ensures
        invisible || cell@.len() == 0 ==> !r,
        !invisible && cell@.len() > 1 ==> r,
        !invisible && cell@.len() == 1 ==> (r <==> cell@[0] != ' '),
{
    if cell@.len() == 1 && cell@[0] == ' ' {
        assert(cell@ =~= seq![' ']);
    }
}

/// A drag selects from where it began to where it ends, and one that ends where it began
/// selects nothing.
pub proof fn dragging_selects_from_start_to_end(
    begun: &mut PaneSelection,
    drawn: &mut PaneSelection,
    ended: &mut PaneSelection,
    start: CellCoord,
    between: CellCoord,
    end: CellCoord,
)
    requires
        call_ensures(PaneSelection::begin_drag, (begun,), ()),
        *old(drawn) == *final(begun),
        call_ensures(PaneSelection::drag_to, (drawn, start, between), ()),
        *old(ended) == *final(drawn),
        call_ensures(PaneSelection::end_drag, (ended, start, end), ()),
    ensures
        start == between ==> final(drawn).range is None,
        start != between && start != end ==> final(ended).range == Some((start, end)),
        start == end ==> final(ended).range is None,
{
}

/// Selecting the screen selects every cell of its rows.
pub proof fn whole_screen_is_selected(
    selection: &mut PaneSelection,
    rows: usize,
    ends: Option<(CellCoord, CellCoord)>,
    cell: CellCoord,
)
    requires
        call_ensures(PaneSelection::select_screen, (selection, rows), ()),
        call_ensures(PaneSelection::normalized_selection, (&*final(selection),), ends),
    ensures
        ends is Some,
        cell.row < rows ==> not_after((ends->0).0, cell) && not_after(cell, (ends->0).1),
        cell.row >= rows && cell.row > 0 ==> !not_after(cell, (ends->0).1),
{
}

/// In reverse the colours of a cell are swapped; swapping them again gives them back.
pub proof fn reverse_swaps_colors<T>(foreground: T, background: T, plain: (T, T), reversed: (T, T))
    requires
        call_ensures(cell_colors::<T>, (foreground, background, false), plain),
        call_ensures(cell_colors::<T>, (foreground, background, true), reversed),
    ensures
        plain.0 == foreground && plain.1 == background,
        reversed.0 == background && reversed.1 == foreground,
{
}

/// Cells are read row by row, and in a row from left to right: as if all rows, wide enough
/// for both cells, stood behind one another.
pub proof fn cells_are_read_in_order(a: CellCoord, b: CellCoord, width: int)
    requires
        a.col < width,
        b.col < width,
    ensures
        not_after(a, b) <==> a.row * width + a.col <= b.row * width + b.col,
{
    if a.row < b.row {
        assert(a.row * width + a.col <= b.row * width + b.col) by (nonlinear_arith)
            requires
                0 <= a.col < width,
                0 <= b.col,
                a.row + 1 <= b.row,
        ;
    } else if a.row > b.row {
        assert(a.row * width + a.col > b.row * width + b.col) by (nonlinear_arith)
            requires
                0 <= b.col < width,
                0 <= a.col,
                b.row + 1 <= a.row,
        ;
    }
}

/// The ends of a selection are the two cells between which it was drawn, the one that is
/// read first first.
pub proof fn selections_have_two_ends(selection: &PaneSelection, r: Option<(CellCoord, CellCoord)>)
    requires
        call_ensures(PaneSelection::normalized_selection, (selection,), r),
    ensures
        r is Some <==> selection.range is Some,
        selection.range matches Some((a, b)) ==> (r->0 == (a, b) || r->0 == (b, a)) && not_after(
            (r->0).0,
            (r->0).1,
        ),
{
}

/// A character takes the columns that the width tables give it, and a control character
/// none.
pub proof fn widths_are_those_of_the_tables(c: char, r: usize)
    requires
        call_ensures(char_display_width, (c,), r),
    ensures
        char_columns(c) matches Some(w) ==> r == w,
        char_columns(c) is None ==> r == 0,
        ' ' <= c <= '~' ==> r == 1,
{
}

} // verus!
