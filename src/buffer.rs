//! A text editor over a fixed grid of characters.
//!
//! The document is `DOCUMENT_LENGTH` rows of `LINE_WIDTH` cells. A cell that
//! holds NUL is unused; in a well-kept row every cell after the first NUL is
//! NUL too, so the first NUL marks the row's logical end.
use vstd::prelude::*;
use vstd::string::StringSliceAdditionalSpecFns;
use crate::glyph::{displayed, drawable, shown, Glyph};

verus! {

/// A row of `w` unused cells.
pub open spec fn blank_row(w: int) -> Seq<char> {
    Seq::new(w as nat, |i: int| '\0')
}

/// Index of the first NUL of `row` at or after `k`, or the row's length when
/// there is none.
pub open spec fn end_from(row: Seq<char>, k: int) -> int
    decreases row.len() - k,
{
    if k >= row.len() {
        row.len() as int
    } else if row[k] == '\0' {
        k
    } else {
        end_from(row, k + 1)
    }
}

/// The logical length of a row: the index of its first NUL.
pub open spec fn text_len(row: Seq<char>) -> int {
    end_from(row, 0)
}

/// No NUL stands before a used cell.
pub open spec fn partitioned(row: Seq<char>) -> bool {
    forall|i: int, j: int| 0 <= i < j < row.len() && row[i] == '\0' ==> row[j] == '\0'
}

/// What `end_from` picks out: every cell from `k` up to it is used, and it is
/// the row's length or a NUL.
pub proof fn lemma_end_from(row: Seq<char>, k: int)
    requires
        0 <= k <= row.len(),
    ensures
        k <= end_from(row, k) <= row.len(),
        forall|j: int| k <= j < end_from(row, k) ==> row[j] != '\0',
        end_from(row, k) < row.len() ==> row[end_from(row, k)] == '\0',
    decreases row.len() - k,
{
    if k < row.len() && row[k] != '\0' {
        lemma_end_from(row, k + 1);
    }
}

/// `row` with the cell at `c` removed: the used cells from `c` on move one to
/// the left and the gap at their end becomes NUL; the rest stays.
pub open spec fn shifted_row(row: Seq<char>, c: int) -> Seq<char> {
    let e = end_from(row, c);
    Seq::new(
        row.len(),
        |i: int|
            if c <= i < e {
                if i + 1 < row.len() {
                    row[i + 1]
                } else {
                    '\0'
                }
            } else {
                row[i]
            },
    )
}

/// The abstract state of an editor.
pub struct EditorView {
    pub doc: Seq<Seq<char>>,
    pub cursor_row: int,
    pub cursor_col: int,
    pub target_col: int,
    pub focus_x: int,
    pub focus_y: int,
    pub width: int,
    pub height: int,
    pub focused: bool,
}

impl EditorView {
    /// Rows that the cursor can reach: four screens of `height` rows.
    pub open spec fn rows(self) -> int {
        4 * self.height
    }

    pub open spec fn wf(self) -> bool {
        &&& self.width > 0
        &&& self.height > 0
        &&& self.doc.len() >= self.rows()
        &&& forall|i: int| 0 <= i < self.doc.len() ==> #[trigger] self.doc[i].len() == self.width
        &&& 0 <= self.cursor_row < self.rows()
        &&& 0 <= self.cursor_col < self.width
        &&& 0 <= self.target_col < self.width
        &&& 0 <= self.focus_y <= 3 * self.height
    }

    /// Every row is used up to its first NUL and unused after it.
    pub open spec fn rows_partitioned(self) -> bool {
        forall|i: int| 0 <= i < self.doc.len() ==> partitioned(#[trigger] self.doc[i])
    }

    /// The cursor stands on the used part of its row or just past it.
    pub open spec fn cursor_in_text(self) -> bool {
        forall|j: int| 0 <= j < self.cursor_col ==> self.doc[self.cursor_row][j] != '\0'
    }

    /// The cell at the cursor.
    pub open spec fn cursor_cell(self) -> char {
        self.doc[self.cursor_row][self.cursor_col]
    }

    /// The column where the cursor settles on `row` when it aims at `col`:
    /// `col` itself on a used cell, else the row's logical end.
    pub open spec fn land(self, row: int, col: int) -> int {
        if self.doc[row][col] == '\0' {
            text_len(self.doc[row])
        } else {
            col
        }
    }

    pub open spec fn with_cursor(self, row: int, col: int) -> EditorView {
        EditorView { cursor_row: row, cursor_col: col, ..self }
    }

    pub open spec fn with_target(self) -> EditorView {
        EditorView { target_col: self.cursor_col, ..self }
    }

    pub open spec fn push_char(self, ch: char) -> EditorView {
        let (r, c) = (self.cursor_row, self.cursor_col);
        let written = EditorView { doc: self.doc.update(r, self.doc[r].update(c, ch)), ..self };
        let moved = if c < self.width - 1 {
            written.with_cursor(r, c + 1)
        } else if r < self.rows() - 1 {
            written.with_cursor(r + 1, 0)
        } else {
            written
        };
        moved.with_target()
    }

    pub open spec fn shift(self) -> EditorView {
        let r = self.cursor_row;
        EditorView { doc: self.doc.update(r, shifted_row(self.doc[r], self.cursor_col)), ..self }
    }

    pub open spec fn backspace_char(self) -> EditorView {
        let (r, c) = (self.cursor_row, self.cursor_col);
        if r == 0 && c == 0 {
            self.with_target()
        } else {
            let (r1, c1) = if c > 0 {
                (r, c - 1)
            } else {
                (r - 1, self.width - 1)
            };
            self.with_cursor(r1, self.land(r1, c1)).shift().with_target()
        }
    }

    pub open spec fn delete_line(self) -> EditorView {
        let r = self.cursor_row;
        let last = self.rows() - 1;
        EditorView {
            doc: Seq::new(
                self.doc.len(),
                |i: int|
                    if r <= i < last {
                        self.doc[i + 1]
                    } else if i == last {
                        blank_row(self.width)
                    } else {
                        self.doc[i]
                    },
            ),
            ..self
        }
    }

    pub open spec fn delete_char(self) -> EditorView {
        if self.doc[self.cursor_row][0] == '\0' {
            self.delete_line().with_target()
        } else {
            self.shift().with_target()
        }
    }

    pub open spec fn newline(self) -> EditorView {
        let r = self.cursor_row;
        if r + 1 != self.rows() {
            EditorView {
                doc: self.doc.update(r + 1, blank_row(self.width)),
                ..self.with_cursor(r + 1, 0)
            }
        } else {
            self
        }
    }

    pub open spec fn move_cursor_up(self) -> EditorView {
        let r = self.cursor_row;
        if r > 0 {
            self.with_cursor(r - 1, self.land(r - 1, self.target_col))
        } else {
            self
        }
    }

    pub open spec fn move_cursor_down(self) -> EditorView {
        let r = self.cursor_row;
        if r < self.rows() - 1 {
            self.with_cursor(r + 1, self.land(r + 1, self.target_col))
        } else {
            self
        }
    }

    pub open spec fn move_cursor_left(self) -> EditorView {
        let (r, c) = (self.cursor_row, self.cursor_col);
        let moved = if c > 0 {
            self.with_cursor(r, c - 1)
        } else if r > 0 {
            self.with_cursor(r - 1, self.land(r - 1, self.width - 1))
        } else {
            self
        };
        moved.with_target()
    }

    pub open spec fn move_cursor_right(self) -> EditorView {
        let (r, c) = (self.cursor_row, self.cursor_col);
        let moved = if c < self.width - 1 && self.doc[r][c] != '\0' {
            self.with_cursor(r, c + 1)
        } else if r < self.rows() - 1 {
            self.with_cursor(r + 1, 0)
        } else {
            self
        };
        moved.with_target()
    }

    /// The viewport origin moved just enough to show the cursor row.
    pub open spec fn follow_cursor(self) -> EditorView {
        let (r, fy, h) = (self.cursor_row, self.focus_y, self.height);
        let y = if r < fy && fy != 0 {
            r
        } else if r >= fy + h && fy + h < self.rows() {
            r - h + 1
        } else {
            fy
        };
        EditorView { focus_y: y, ..self }
    }

    /// What the screen shows at column `x` of viewport row `y`.
    pub open spec fn glyph_at(self, x: int, y: int) -> Glyph {
        Glyph {
            ch: shown(self.doc[y + self.focus_y][x]),
            highlighted: self.focused && self.cursor_col == x && self.cursor_row == y + self.focus_y,
        }
    }
}

/// A fixed-size text document with a cursor and a viewport.
pub struct TextEditor<const LINE_WIDTH: usize, const DOCUMENT_LENGTH: usize> {
    document: Vec<Vec<char>>,
    cursor_col: usize,
    cursor_row: usize,
    target_col: usize,
    focus_x: usize,
    focus_y: usize,
    window_size_x: usize,
    window_size_y: usize,
    pub focused: bool,
}

impl<const LINE_WIDTH: usize, const DOCUMENT_LENGTH: usize> View for TextEditor<
    LINE_WIDTH,
    DOCUMENT_LENGTH,
> {
    type V = EditorView;

    closed spec fn view(&self) -> EditorView {
        EditorView {
            doc: self.document@.map_values(|r: Vec<char>| r@),
            cursor_row: self.cursor_row as int,
            cursor_col: self.cursor_col as int,
            target_col: self.target_col as int,
            focus_x: self.focus_x as int,
            focus_y: self.focus_y as int,
            width: self.window_size_x as int,
            height: self.window_size_y as int,
            focused: self.focused,
        }
    }
}

/// The state of the typewriter that lays text out on the grid.
pub struct Typing {
    pub doc: Seq<Seq<char>>,
    pub row: int,
    pub col: int,
}

/// One byte of text typed onto the grid: a line feed starts the next row, a
/// row that is full wraps onto the next, text past the last row is lost, and
/// a NUL byte is skipped (it would mark an unused cell).
pub open spec fn type_byte(t: Typing, b: u8, w: int) -> Typing {
    if t.row >= t.doc.len() || b == 0 {
        t
    } else if b == 10 {
        Typing { row: t.row + 1, col: 0, ..t }
    } else if t.col >= w {
        if t.row + 1 < t.doc.len() {
            Typing {
                doc: t.doc.update(t.row + 1, t.doc[t.row + 1].update(0, b as char)),
                row: t.row + 1,
                col: 1,
            }
        } else {
            Typing { row: t.row + 1, col: 0, ..t }
        }
    } else {
        Typing { doc: t.doc.update(t.row, t.doc[t.row].update(t.col, b as char)), col: t.col + 1, ..t }
    }
}

/// The grid of `h` rows of `w` cells after typing `bytes` onto a blank one.
pub open spec fn typed(bytes: Seq<u8>, w: int, h: int) -> Typing
    decreases bytes.len(),
{
    if bytes.len() == 0 {
        Typing { doc: Seq::new(h as nat, |i: int| blank_row(w)), row: 0, col: 0 }
    } else {
        type_byte(typed(bytes.drop_last(), w, h), bytes.last(), w)
    }
}

/// The typewriter's shape and text invariant: every row is used up to its
/// first NUL; the current row is used exactly before the column; rows below
/// it are blank.
pub open spec fn typing_ok(t: Typing, w: int, h: int) -> bool {
    &&& t.doc.len() == h
    &&& forall|i: int| 0 <= i < h ==> (#[trigger] t.doc[i]).len() == w
    &&& 0 <= t.row <= h
    &&& 0 <= t.col <= w
    &&& forall|i: int| 0 <= i < h ==> partitioned(#[trigger] t.doc[i])
    &&& t.row < h ==> forall|j: int| 0 <= j < w ==> (#[trigger] t.doc[t.row][j] == '\0') == (j >= t.col)
    &&& forall|i: int, j: int| t.row < i < h && 0 <= j < w ==> #[trigger] t.doc[i][j] == '\0'
}

/// Any text lays out into rows that are each used up to their first NUL.
pub proof fn lemma_typed_partitioned(bytes: Seq<u8>, w: int, h: int)
    requires
        w > 0,
        h > 0,
    ensures
        typing_ok(typed(bytes, w, h), w, h),
    decreases bytes.len(),
{
    if bytes.len() > 0 {
        let init = bytes.drop_last();
        lemma_typed_partitioned(init, w, h);
        let t = typed(init, w, h);
        let b = bytes.last();
        let t2 = type_byte(t, b, w);
        assert(typed(bytes, w, h) == t2);
        if b != 0 {
            assert((b as char) != '\0');
        }
        if t.row < h && b != 10 && b != 0 {
            if t.col >= w {
                if t.row + 1 < h {
                    assert(partitioned(t2.doc[t.row + 1]));
                }
            } else {
                assert(partitioned(t2.doc[t.row]));
            }
        }
        assert forall|i: int| 0 <= i < h implies partitioned(#[trigger] t2.doc[i]) by {
            if t.row < h && b != 10 && b != 0 && t.col < w && i == t.row {
            } else if t.row < h && b != 10 && b != 0 && t.col >= w && i == t.row + 1 {
            } else {
                assert(t2.doc[i] == t.doc[i]);
            }
        }
    } else {
        let t = typed(bytes, w, h);
        assert forall|i: int| 0 <= i < h implies partitioned(#[trigger] t.doc[i]) by {
            assert(t.doc[i] == blank_row(w));
        }
    }
}

/// A fresh editor of `w` columns and `len` rows holding `bytes`: the text
/// typed onto a blank grid, the cursor, target column and viewport at the
/// origin.
pub open spec fn loaded(bytes: Seq<u8>, w: int, len: int, focused: bool) -> EditorView {
    EditorView {
        doc: typed(bytes, w, len).doc,
        cursor_row: 0,
        cursor_col: 0,
        target_col: 0,
        focus_x: 0,
        focus_y: 0,
        width: w,
        height: len / 4,
        focused,
    }
}

/// The text of one row: its used cells, then a line feed unless the row is
/// full (a full row runs on into the next).
pub open spec fn row_text(row: Seq<char>) -> Seq<char> {
    if text_len(row) < row.len() {
        row.subrange(0, text_len(row)) + seq!['\n']
    } else {
        row
    }
}

/// The text of a whole document, row after row.
pub open spec fn doc_text(doc: Seq<Seq<char>>) -> Seq<char>
    decreases doc.len(),
{
    if doc.len() == 0 {
        Seq::empty()
    } else {
        doc_text(doc.drop_last()) + row_text(doc.last())
    }
}

impl<const LINE_WIDTH: usize, const DOCUMENT_LENGTH: usize> TextEditor<LINE_WIDTH, DOCUMENT_LENGTH> {
    /// The editor's dimensions agree with its type and its cursor lies on the grid.
    pub open spec fn wf(&self) -> bool {
        &&& self@.wf()
        &&& self@.doc.len() == DOCUMENT_LENGTH
        &&& self@.width == LINE_WIDTH
        &&& self@.height == DOCUMENT_LENGTH / 4
    }

    proof fn lemma_rows(&self)
        ensures
            self@.doc.len() == self.document@.len(),
            forall|i: int| 0 <= i < self.document@.len() ==> #[trigger] self@.doc[i] == self.document@[i]@,
    {
    }

    fn blank_line() -> (r: Vec<char>)
        ensures
            r@ == blank_row(LINE_WIDTH as int),
    {
        let r = vec!['\0'; LINE_WIDTH];
        assert(r@ =~= blank_row(LINE_WIDTH as int));
        r
    }

    /// `DOCUMENT_LENGTH` blank rows.
    fn blank_document() -> (r: Vec<Vec<char>>)
        ensures
            r@.len() == DOCUMENT_LENGTH,
            forall|j: int| 0 <= j < DOCUMENT_LENGTH ==> #[trigger] r@[j]@ == blank_row(LINE_WIDTH as int),
    {
        let mut document: Vec<Vec<char>> = Vec::new();
        let mut k: usize = 0;
        while k < DOCUMENT_LENGTH
            invariant
                k <= DOCUMENT_LENGTH,
                document@.len() == k,
                forall|j: int| 0 <= j < k ==> #[trigger] document@[j]@ == blank_row(LINE_WIDTH as int),
            decreases DOCUMENT_LENGTH - k,
        {
            document.push(Self::blank_line());
            k += 1;
        }
        document
    }

    /// Column where the cursor settles when it aims at `col` on `row`.
    fn land_col(&self, row: usize, col: usize) -> (r: usize)
        requires
            self.wf(),
            row < self@.rows(),
            col < LINE_WIDTH,
        ensures
            r == self@.land(row as int, col as int),
    {
        proof {
            self.lemma_rows();
            assert(self@.doc[row as int].len() == LINE_WIDTH);
        }
        if self.document[row][col] == '\0' {
            let ghost cells = self@.doc[row as int];
            let mut i: usize = 0;
            while i < self.window_size_x && self.document[row][i] != '\0'
                invariant
                    self.wf(),
                    row < self@.rows(),
                    col < LINE_WIDTH,
                    cells == self@.doc[row as int],
                    cells[col as int] == '\0',
                    i <= col,
                    forall|j: int| 0 <= j < i ==> cells[j] != '\0',
                decreases self.window_size_x - i,
            {
                i += 1;
            }
            proof {
                lemma_end_from(cells, 0);
            }
            i
        } else {
            col
        }
    }

    /// An editor holding `file_contents`, typed onto a blank grid: each line
    /// feed starts a new row, a line longer than a row wraps, text past the
    /// last row is dropped and NUL bytes are skipped. The cursor and viewport start at the origin.
    pub fn new(file_contents: &str, focused: bool) -> (r: Self)
        requires
            LINE_WIDTH > 0,
            DOCUMENT_LENGTH >= 4,
        ensures
            r.wf(),
            r@ == loaded(file_contents.spec_bytes(), LINE_WIDTH as int, DOCUMENT_LENGTH as int, focused),
            r@.rows_partitioned(),
            r@.cursor_in_text(),
    {
        let bytes = file_contents.as_bytes();
        let mut document = Self::blank_document();
        let ghost w = LINE_WIDTH as int;
        let ghost h = DOCUMENT_LENGTH as int;
        proof {
            assert(document@.map_values(|r: Vec<char>| r@) =~= typed(bytes@.take(0), w, h).doc);
        }
        let mut i: usize = 0;
        let mut row: usize = 0;
        let mut col: usize = 0;
        while i < bytes.len()
            invariant
                LINE_WIDTH > 0,
                w == LINE_WIDTH as int,
                h == DOCUMENT_LENGTH as int,
                i <= bytes@.len(),
                bytes@ == file_contents.spec_bytes(),
                document@.len() == DOCUMENT_LENGTH,
                forall|j: int| 0 <= j < DOCUMENT_LENGTH ==> #[trigger] document@[j]@.len() == LINE_WIDTH,
                row <= DOCUMENT_LENGTH,
                col <= LINE_WIDTH,
                typed(bytes@.take(i as int), w, h) == (Typing {
                    doc: document@.map_values(|r: Vec<char>| r@),
                    row: row as int,
                    col: col as int,
                }),
            decreases bytes@.len() - i,
        {
            let b = bytes[i];
            let ghost t0 = typed(bytes@.take(i as int), w, h);
            proof {
                assert(bytes@.take(i + 1).drop_last() =~= bytes@.take(i as int));
                assert(bytes@.take(i + 1).last() == b);
                assert(typed(bytes@.take(i + 1), w, h) == type_byte(t0, b, w));
            }
            if row < DOCUMENT_LENGTH && b != 0u8 {
                if b == 10u8 {
                    row += 1;
                    col = 0;
                } else if col >= LINE_WIDTH {
                    if row + 1 < DOCUMENT_LENGTH {
                        document[row + 1][0] = b as char;
                        col = 1;
                        proof {
                            assert(type_byte(t0, b, w).doc =~~= document@.map_values(|r: Vec<char>| r@));
                        }
                    } else {
                        col = 0;
                    }
                    row += 1;
                } else {
                    let ghost d0 = document@;
                    document[row][col] = b as char;
                    proof {
                        assert(t0.doc[row as int] == d0[row as int]@);
                        assert(document@[row as int]@ == d0[row as int]@.update(col as int, b as char));
                        assert(forall|j: int| 0 <= j < DOCUMENT_LENGTH && j != row ==> document@[j] == d0[j]);
                        assert(type_byte(t0, b, w).doc =~= document@.map_values(|r: Vec<char>| r@));
                    }
                    col += 1;
                }
            }
            proof {
                let t = typed(bytes@.take(i + 1), w, h);
                assert(t.doc =~~= document@.map_values(|r: Vec<char>| r@));
            }
            i += 1;
        }
        proof {
            assert(bytes@.take(i as int) =~= bytes@);
            lemma_typed_partitioned(bytes@, w, h);
        }
        let r = TextEditor {
            window_size_x: LINE_WIDTH,
            window_size_y: DOCUMENT_LENGTH / 4,
            document,
            cursor_col: 0,
            cursor_row: 0,
            target_col: 0,
            focus_x: 0,
            focus_y: 0,
            focused,
        };
        r
    }

    /// The cursor's row.
    pub fn cursor_row(&self) -> (r: usize)
        ensures
            r == self@.cursor_row,
    {
        self.cursor_row
    }

    /// The cursor's column.
    pub fn cursor_col(&self) -> (r: usize)
        ensures
            r == self@.cursor_col,
    {
        self.cursor_col
    }

    /// The column the cursor aims at when it moves up or down.
    pub fn target_col(&self) -> (r: usize)
        ensures
            r == self@.target_col,
    {
        self.target_col
    }

    /// The first document row in the viewport.
    pub fn focus_y(&self) -> (r: usize)
        ensures
            r == self@.focus_y,
    {
        self.focus_y
    }

    /// The cell at `row`, `col`.
    pub fn cell(&self, row: usize, col: usize) -> (r: char)
        requires
            self.wf(),
            row < DOCUMENT_LENGTH,
            col < LINE_WIDTH,
        ensures
            r == self@.doc[row as int][col as int],
    {
        proof {
            self.lemma_rows();
            assert(self@.doc[row as int].len() == LINE_WIDTH);
        }
        self.document[row][col]
    }

    /// Sets whether the editor shows its cursor.
    pub fn set_focused(&mut self, focused: bool)
        requires
            old(self).wf(),
        ensures
            final(self)@ == (EditorView { focused, ..old(self)@ }),
            final(self).wf(),
    {
        self.focused = focused;
    }

    /// Writes `c` over the cell at the cursor, then moves the cursor one
    /// cell right, or to the start of the next row from the last column, or
    /// keeps it on the very last cell. The target column follows the cursor.
    pub fn push_char(&mut self, c: char)
        requires
            old(self).wf(),
        ensures
            final(self).wf(),
            final(self)@ == old(self)@.push_char(c),
            final(self)@.target_col == final(self)@.cursor_col,
    {
        proof {
            self.lemma_rows();
            assert(self@.doc[self.cursor_row as int].len() == LINE_WIDTH);
        }
        let ghost pre = self@;
        let r = self.cursor_row;
        let col = self.cursor_col;
        self.document[r][col] = c;
        if self.cursor_col < self.window_size_x - 1 {
            self.cursor_col += 1;
        } else if self.cursor_row < self.window_size_y * 4 - 1 {
            self.cursor_row += 1;
            self.cursor_col = 0;
        }
        self.target_col = self.cursor_col;
        proof {
            assert(self@.doc =~= pre.push_char(c).doc);
        }
    }

    /// Removes the cell at the cursor from the used part of its row, closing
    /// the gap; nothing changes when the cursor is past the row's text.
    pub fn shift(&mut self)
        requires
            old(self).wf(),
        ensures
            final(self).wf(),
            final(self)@ == old(self)@.shift(),
    {
        proof {
            self.lemma_rows();
            assert(self@.doc[self.cursor_row as int].len() == LINE_WIDTH);
        }
        let ghost pre = self@;
        let ghost row0 = self@.doc[self.cursor_row as int];
        let ghost c = self.cursor_col as int;
        proof {
            lemma_end_from(row0, c);
        }
        let r = self.cursor_row;
        let mut i: usize = self.cursor_col;
        while i < self.window_size_x && self.document[r][i] != '\0'
            invariant
                r == self.cursor_row,
                c == self.cursor_col,
                self.cursor_row == pre.cursor_row,
                self.cursor_col == pre.cursor_col,
                self.target_col == pre.target_col,
                self.focus_x == pre.focus_x,
                self.focus_y == pre.focus_y,
                self.focused == pre.focused,
                self.window_size_x == LINE_WIDTH,
                self.window_size_y == DOCUMENT_LENGTH / 4,
                pre.wf(),
                pre.width == LINE_WIDTH,
                pre.doc.len() == DOCUMENT_LENGTH,
                row0 == pre.doc[r as int],
                c <= end_from(row0, c) <= LINE_WIDTH,
                forall|j: int| c <= j < end_from(row0, c) ==> row0[j] != '\0',
                end_from(row0, c) < LINE_WIDTH ==> row0[end_from(row0, c)] == '\0',
                c <= i <= end_from(row0, c),
                self.document@.len() == DOCUMENT_LENGTH,
                forall|j: int| 0 <= j < DOCUMENT_LENGTH && j != r ==> #[trigger] self.document@[j]@ == pre.doc[j],
                self.document@[r as int]@ == Seq::new(
                    LINE_WIDTH as nat,
                    |j: int|
                        if c <= j < i {
                            if j + 1 < LINE_WIDTH {
                                row0[j + 1]
                            } else {
                                '\0'
                            }
                        } else {
                            row0[j]
                        },
                ),
            decreases self.window_size_x - i,
        {
            if i + 1 == self.window_size_x {
                self.document[r][i] = '\0';
            } else {
                let next = self.document[r][i + 1];
                self.document[r][i] = next;
            }
            i += 1;
        }
        proof {
            assert(i == end_from(row0, c));
            assert(self.document@[r as int]@ =~= shifted_row(row0, c));
            assert(self@.doc =~= pre.shift().doc);
        }
    }

    /// Moves the cursor back one cell (to the previous row's logical end when
    /// it was at a row start) and removes that cell. At the origin only the
    /// target column is reset.
    pub fn backspace_char(&mut self)
        requires
            old(self).wf(),
        ensures
            final(self).wf(),
            final(self)@ == old(self)@.backspace_char(),
            final(self)@.target_col == final(self)@.cursor_col,
    {
        if self.cursor_col != 0 || self.cursor_row != 0 {
            if self.cursor_col > 0 {
                self.cursor_col -= 1;
            } else if self.cursor_row > 0 {
                self.cursor_row -= 1;
                self.cursor_col = self.window_size_x - 1;
            }
            let landed = self.land_col(self.cursor_row, self.cursor_col);
            proof {
                self.lemma_rows();
                lemma_end_from(self@.doc[self.cursor_row as int], 0);
            }
            self.cursor_col = landed;
            self.shift();
        }
        self.target_col = self.cursor_col;
    }

    /// Removes the cell at the cursor; on an empty row, removes the row.
    pub fn delete_char(&mut self)
        requires
            old(self).wf(),
        ensures
            final(self).wf(),
            final(self)@ == old(self)@.delete_char(),
            final(self)@.target_col == final(self)@.cursor_col,
    {
        proof {
            self.lemma_rows();
            assert(self@.doc[self.cursor_row as int].len() == LINE_WIDTH);
        }
        if self.document[self.cursor_row][0] == '\0' {
            self.delete_line();
        } else {
            self.shift();
        }
        self.target_col = self.cursor_col;
    }

    /// Moves the cursor to the start of the next row and blanks that row;
    /// nothing happens on the last row.
    pub fn newline(&mut self)
        requires
            old(self).wf(),
        ensures
            final(self).wf(),
            final(self)@ == old(self)@.newline(),
    {
        let ghost pre = self@;
        if self.cursor_row + 1 != self.window_size_y * 4 {
            self.cursor_row += 1;
            self.cursor_col = 0;
            let blank = Self::blank_line();
            let r = self.cursor_row;
            self.document.set(r, blank);
            proof {
                assert(self@.doc =~= pre.newline().doc);
            }
        }
    }

    /// Removes the cursor row: the rows below it move up one and the last
    /// row becomes blank.
    pub fn delete_line(&mut self)
        requires
            old(self).wf(),
        ensures
            final(self).wf(),
            final(self)@ == old(self)@.delete_line(),
    {
        let ghost pre = self@;
        let last = self.window_size_y * 4 - 1;
        let mut i: usize = self.cursor_row;
        while i < last
            invariant
                self.cursor_row == pre.cursor_row,
                self.cursor_col == pre.cursor_col,
                self.target_col == pre.target_col,
                self.focus_x == pre.focus_x,
                self.focus_y == pre.focus_y,
                self.focused == pre.focused,
                self.window_size_x == LINE_WIDTH,
                self.window_size_y == DOCUMENT_LENGTH / 4,
                pre.wf(),
                pre.width == LINE_WIDTH,
                pre.height == DOCUMENT_LENGTH / 4,
                pre.doc.len() == DOCUMENT_LENGTH,
                last == pre.rows() - 1,
                pre.cursor_row <= i <= last,
                self.document@.len() == DOCUMENT_LENGTH,
                forall|j: int|
                    0 <= j < DOCUMENT_LENGTH ==> #[trigger] self.document@[j]@ == if pre.cursor_row <= j < i {
                        pre.doc[j + 1]
                    } else {
                        pre.doc[j]
                    },
            decreases last - i,
        {
            let next = self.document[i + 1].clone();
            self.document.set(i, next);
            i += 1;
        }
        let blank = Self::blank_line();
        self.document.set(last, blank);
        proof {
            assert(self@.doc =~= pre.delete_line().doc);
        }
    }

    /// Moves the cursor up a row, aiming at the target column and settling
    /// on the row's logical end when the target lies past it.
    pub fn move_cursor_up(&mut self)
        requires
            old(self).wf(),
        ensures
            final(self).wf(),
            final(self)@ == old(self)@.move_cursor_up(),
            final(self)@.target_col == old(self)@.target_col,
    {
        if self.cursor_row > 0 {
            self.cursor_row -= 1;
            if self.target_col != self.cursor_col {
                self.cursor_col = self.target_col;
            }
            let landed = self.land_col(self.cursor_row, self.cursor_col);
            proof {
                self.lemma_rows();
                lemma_end_from(self@.doc[self.cursor_row as int], 0);
            }
            self.cursor_col = landed;
        }
    }

    /// Moves the cursor down a row, aiming at the target column and settling
    /// on the row's logical end when the target lies past it.
    pub fn move_cursor_down(&mut self)
        requires
            old(self).wf(),
        ensures
            final(self).wf(),
            final(self)@ == old(self)@.move_cursor_down(),
            final(self)@.target_col == old(self)@.target_col,
    {
        if self.cursor_row < self.window_size_y * 4 - 1 {
            self.cursor_row += 1;
            if self.target_col != self.cursor_col {
                self.cursor_col = self.target_col;
            }
            let landed = self.land_col(self.cursor_row, self.cursor_col);
            proof {
                self.lemma_rows();
                lemma_end_from(self@.doc[self.cursor_row as int], 0);
            }
            self.cursor_col = landed;
        }
    }

    /// Moves the cursor one cell left, or from a row start to the previous
    /// row's logical end. The target column follows the cursor.
    pub fn move_cursor_left(&mut self)
        requires
            old(self).wf(),
        ensures
            final(self).wf(),
            final(self)@ == old(self)@.move_cursor_left(),
            final(self)@.target_col == final(self)@.cursor_col,
    {
        if self.cursor_col > 0 {
            self.cursor_col -= 1;
        } else if self.cursor_row > 0 {
            self.cursor_col = self.window_size_x - 1;
            self.cursor_row -= 1;
            let landed = self.land_col(self.cursor_row, self.cursor_col);
            proof {
                self.lemma_rows();
                lemma_end_from(self@.doc[self.cursor_row as int], 0);
            }
            self.cursor_col = landed;
        }
        self.target_col = self.cursor_col;
    }

    /// Moves the cursor one cell right over used text; from a row's logical
    /// end or last column it goes to the start of the next row. The target
    /// column follows the cursor.
    pub fn move_cursor_right(&mut self)
        requires
            old(self).wf(),
        ensures
            final(self).wf(),
            final(self)@ == old(self)@.move_cursor_right(),
            final(self)@.target_col == final(self)@.cursor_col,
    {
        proof {
            self.lemma_rows();
            assert(self@.doc[self.cursor_row as int].len() == LINE_WIDTH);
        }
        if self.cursor_col < self.window_size_x - 1
            && self.document[self.cursor_row][self.cursor_col] != '\0'
        {
            self.cursor_col += 1;
        } else if self.cursor_row < self.window_size_y * 4 - 1 {
            self.cursor_col = 0;
            self.cursor_row += 1;
        }
        self.target_col = self.cursor_col;
    }

    /// Brings the cursor row into the viewport, then gives what each visible
    /// cell shows: `window_size_y` rows of `LINE_WIDTH` glyphs, starting at
    /// document row `focus_y`. The host draws row `y`, column `x` of the
    /// result at its window origin plus `(x, y)`.
    pub fn draw_window(&mut self) -> (grid: Vec<Vec<Glyph>>)
        requires
            old(self).wf(),
        ensures
            final(self).wf(),
            final(self)@ == old(self)@.follow_cursor(),
            final(self)@.focus_y <= final(self)@.cursor_row < final(self)@.focus_y + final(self)@.height,
            grid@.len() == final(self)@.height,
            forall|y: int| 0 <= y < grid@.len() ==> #[trigger] grid@[y]@.len() == LINE_WIDTH,
            forall|y: int, x: int|
                0 <= y < grid@.len() && 0 <= x < LINE_WIDTH ==> #[trigger] grid@[y]@[x] == final(self)@.glyph_at(x, y),
    {
        if self.cursor_row < self.focus_y && self.focus_y != 0 {
            self.focus_y = self.cursor_row;
        } else if self.cursor_row >= self.focus_y + self.window_size_y
            && self.focus_y + self.window_size_y < self.window_size_y * 4
        {
            self.focus_y = self.cursor_row - self.window_size_y + 1;
        }
        proof {
            self.lemma_rows();
        }
        let mut grid: Vec<Vec<Glyph>> = Vec::new();
        let mut y: usize = 0;
        while y < self.window_size_y
            invariant
                self.wf(),
                y <= self.window_size_y,
                grid@.len() == y,
                forall|k: int| 0 <= k < grid@.len() ==> #[trigger] grid@[k]@.len() == LINE_WIDTH,
                forall|k: int, x: int|
                    0 <= k < grid@.len() && 0 <= x < LINE_WIDTH ==> #[trigger] grid@[k]@[x] == self@.glyph_at(x, k),
            decreases self.window_size_y - y,
        {
            let mut line: Vec<Glyph> = Vec::new();
            let row = y + self.focus_y;
            proof {
                self.lemma_rows();
                assert(self@.doc[row as int].len() == LINE_WIDTH);
            }
            let mut x: usize = 0;
            while x < self.window_size_x
                invariant
                    self.wf(),
                    y < self.window_size_y,
                    row == y + self.focus_y,
                    row < DOCUMENT_LENGTH,
                    self.document@[row as int]@ == self@.doc[row as int],
                    self@.doc[row as int].len() == LINE_WIDTH,
                    x <= self.window_size_x,
                    line@.len() == x,
                    forall|k: int| 0 <= k < x ==> #[trigger] line@[k] == self@.glyph_at(k, y as int),
                decreases self.window_size_x - x,
            {
                let cell = self.document[row][x];
                let highlighted = self.focused && self.cursor_col == x && self.cursor_row == row;
                line.push(Glyph { ch: displayed(cell), highlighted });
                x += 1;
            }
            grid.push(line);
            y += 1;
        }
        grid
    }

    /// The document as text: each row's used cells followed by a line feed,
    /// except that a full row runs on into the next without one.
    pub fn get_file_contents(&self) -> (text: Vec<char>)
        requires
            self.wf(),
        ensures
            text@ == doc_text(self@.doc),
    {
        proof {
            self.lemma_rows();
        }
        let mut text: Vec<char> = Vec::new();
        let mut row: usize = 0;
        while row < DOCUMENT_LENGTH
            invariant
                self.wf(),
                row <= DOCUMENT_LENGTH,
                text@ == doc_text(self@.doc.take(row as int)),
            decreases DOCUMENT_LENGTH - row,
        {
            let ghost cells = self@.doc[row as int];
            let ghost before = text@;
            proof {
                self.lemma_rows();
                assert(cells.len() == LINE_WIDTH);
                lemma_end_from(cells, 0);
            }
            let mut col: usize = 0;
            while col < self.window_size_x && self.document[row][col] != '\0'
                invariant
                    self.wf(),
                    row < DOCUMENT_LENGTH,
                    cells == self@.doc[row as int],
                    cells == self.document@[row as int]@,
                    cells.len() == LINE_WIDTH,
                    0 <= text_len(cells) <= LINE_WIDTH,
                    forall|j: int| 0 <= j < text_len(cells) ==> cells[j] != '\0',
                    text_len(cells) < LINE_WIDTH ==> cells[text_len(cells)] == '\0',
                    col <= text_len(cells),
                    text@ == before + cells.subrange(0, col as int),
                decreases self.window_size_x - col,
            {
                text.push(self.document[row][col]);
                col += 1;
                proof {
                    assert(text@ =~= before + cells.subrange(0, col as int));
                }
            }
            if col < self.window_size_x {
                text.push('\n');
            }
            proof {
                assert(col == text_len(cells));
                assert(cells.subrange(0, col as int) =~= cells || col < LINE_WIDTH);
                assert(text@ =~= before + row_text(cells));
                assert(self@.doc.take(row + 1).drop_last() =~= self@.doc.take(row as int));
            }
            row += 1;
        }
        proof {
            assert(self@.doc.take(row as int) =~= self@.doc);
        }
        text
    }
}

/// The editor after `push_char` of each character of `cs` in turn.
pub open spec fn push_all(s: EditorView, cs: Seq<char>) -> EditorView
    decreases cs.len(),
{
    if cs.len() == 0 {
        s
    } else {
        push_all(s.push_char(cs[0]), cs.drop_first())
    }
}

/// Typing one drawable character keeps every row partitioned by its first
/// NUL and keeps the cursor within or just past its row's text.
pub proof fn lemma_push_char_keeps_text(s: EditorView, ch: char)
    requires
        s.wf(),
        s.rows_partitioned(),
        s.cursor_in_text(),
        drawable(ch),
    ensures
        s.push_char(ch).wf(),
        s.push_char(ch).rows_partitioned(),
        s.push_char(ch).cursor_in_text(),
{
    let t = s.push_char(ch);
    let r = s.cursor_row;
    assert(partitioned(t.doc[r]));
    assert forall|i: int| 0 <= i < t.doc.len() implies partitioned(#[trigger] t.doc[i]) by {
        if i != r {
            assert(t.doc[i] == s.doc[i]);
        }
    }
}

/// After any sequence of drawable characters is typed, within every row no
/// NUL stands before a used cell.
pub proof fn lemma_push_chars_keep_rows_partitioned(s: EditorView, cs: Seq<char>)
    requires
        s.wf(),
        s.rows_partitioned(),
        s.cursor_in_text(),
        forall|i: int| 0 <= i < cs.len() ==> drawable(#[trigger] cs[i]),
    ensures
        push_all(s, cs).wf(),
        push_all(s, cs).rows_partitioned(),
        push_all(s, cs).cursor_in_text(),
    decreases cs.len(),
{
    if cs.len() > 0 {
        lemma_push_char_keeps_text(s, cs[0]);
        assert forall|i: int| 0 <= i < cs.drop_first().len() implies drawable(#[trigger] cs.drop_first()[i]) by {
            assert(cs.drop_first()[i] == cs[i + 1]);
        }
        lemma_push_chars_keep_rows_partitioned(s.push_char(cs[0]), cs.drop_first());
    }
}

/// Typing a character at the logical end of a row, away from the last
/// column, and then erasing it with backspace gives back the document and
/// the cursor position.
pub proof fn lemma_push_then_backspace(s: EditorView, ch: char)
    requires
        s.wf(),
        partitioned(s.doc[s.cursor_row]),
        s.cursor_cell() == '\0',
        s.cursor_col < s.width - 1,
        ch != '\0',
    ensures
        s.push_char(ch).backspace_char().doc == s.doc,
        s.push_char(ch).backspace_char().cursor_row == s.cursor_row,
        s.push_char(ch).backspace_char().cursor_col == s.cursor_col,
{
    let (r, c) = (s.cursor_row, s.cursor_col);
    let p = s.push_char(ch);
    let row1 = p.doc[r];
    assert(row1[c] == ch);
    assert(row1[c + 1] == '\0');
    assert(end_from(row1, c + 1) == c + 1);
    assert(end_from(row1, c) == c + 1);
    let b = p.backspace_char();
    assert(b.doc[r] =~= s.doc[r]);
    assert(b.doc =~= s.doc);
}

/// From the logical end of any row but the last, or from its last column,
/// moving right lands at the start of the next row.
pub proof fn lemma_move_right_from_row_end(s: EditorView)
    requires
        s.wf(),
        s.cursor_cell() == '\0' || s.cursor_col == s.width - 1,
        s.cursor_row < s.rows() - 1,
    ensures
        s.move_cursor_right().cursor_row == s.cursor_row + 1,
        s.move_cursor_right().cursor_col == 0,
        s.move_cursor_right().target_col == 0,
{
}

/// Vertical motion leaves the target column alone; horizontal motion and
/// typing leave it equal to the cursor column.
pub proof fn lemma_target_col(s: EditorView, ch: char)
    ensures
        s.move_cursor_up().target_col == s.target_col,
        s.move_cursor_down().target_col == s.target_col,
        s.move_cursor_left().target_col == s.move_cursor_left().cursor_col,
        s.move_cursor_right().target_col == s.move_cursor_right().cursor_col,
        s.push_char(ch).target_col == s.push_char(ch).cursor_col,
        s.backspace_char().target_col == s.backspace_char().cursor_col,
        s.delete_char().target_col == s.delete_char().cursor_col,
{
}

impl<const LINE_WIDTH: usize, const DOCUMENT_LENGTH: usize> Default for TextEditor<
    LINE_WIDTH,
    DOCUMENT_LENGTH,
> {
    /// A blank, focused editor with the cursor and viewport at the origin.
    fn default() -> (r: Self)
        ensures
            LINE_WIDTH > 0 && DOCUMENT_LENGTH >= 4 ==> r.wf(),
            r@.doc == Seq::new(DOCUMENT_LENGTH as nat, |i: int| blank_row(LINE_WIDTH as int)),
            r@.cursor_row == 0,
            r@.cursor_col == 0,
            r@.target_col == 0,
            r@.focus_y == 0,
            r@.focused,
    {
        let document = Self::blank_document();
        let r = TextEditor {
            window_size_x: LINE_WIDTH,
            window_size_y: DOCUMENT_LENGTH / 4,
            document,
            cursor_col: 0,
            cursor_row: 0,
            target_col: 0,
            focus_x: 0,
            focus_y: 0,
            focused: true,
        };
        assert(r@.doc =~= Seq::new(DOCUMENT_LENGTH as nat, |i: int| blank_row(LINE_WIDTH as int)));
        r
    }
}

} // verus!
