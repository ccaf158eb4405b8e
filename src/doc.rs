//! A snapshot of what the editor view knows about the document: where each
//! logical line starts, how long it is, the inlay texts laid out in it, the
//! pixel x of each laid-out column, and the IME composition in progress.
use vstd::prelude::*;

verus! {

/// Inlay text (a type hint, a parameter name) placed at column `col` of a
/// line and occupying `width` laid-out columns.
#[derive(Clone, Copy, Debug, PartialEq, Eq, Structural)]
pub struct PhantomText {
    pub col: usize,
    pub width: usize,
}

/// One logical line of the document.
#[derive(Clone, Debug)]
pub struct LineLayout {
    /// Offset of the first character of the line.
    pub start: usize,
    /// Number of columns of text, not counting the line break.
    pub len: usize,
    /// Inlay texts of the line, in layout order.
    pub phantoms: Vec<PhantomText>,
    /// Pixel x of each laid-out column boundary (inlays included); a column
    /// past the end of the table takes the last entry.
    pub xs: Vec<u32>,
}

/// An IME composition in progress: the offset it is anchored at, and the
/// column of the cursor inside the composed text, if there is one.
#[derive(Clone, Copy, Debug, PartialEq, Eq, Structural)]
pub struct Preedit {
    pub offset: usize,
    pub cursor: Option<usize>,
}

/// The document as the view sees it.
#[derive(Clone, Debug)]
pub struct DocLayout {
    pub lines: Vec<LineLayout>,
    pub preedit: Option<Preedit>,
}

/// Total width of the inlays `phs[i..]` that stand before column `col`
/// (at `col` itself too, unless `before_cursor`), stopping at the first
/// inlay that does not.
pub open spec fn phantom_shift_from(
    phs: Seq<PhantomText>,
    i: int,
    col: int,
    before_cursor: bool,
) -> int
    decreases phs.len() - i,
{
    if i < 0 || i >= phs.len() {
        0
    } else if phs[i].col > col || (phs[i].col == col && before_cursor) {
        0
    } else {
        phs[i].width + phantom_shift_from(phs, i + 1, col, before_cursor)
    }
}

/// Total width of all the inlays `phs[i..]`.
pub open spec fn phantom_total_from(phs: Seq<PhantomText>, i: int) -> int
    decreases phs.len() - i,
{
    if i < 0 || i >= phs.len() {
        0
    } else {
        phs[i].width + phantom_total_from(phs, i + 1)
    }
}

pub proof fn lemma_shift_le_total(phs: Seq<PhantomText>, i: int, col: int, before_cursor: bool)
    requires
        0 <= i,
    ensures
        0 <= phantom_shift_from(phs, i, col, before_cursor) <= phantom_total_from(phs, i),
    decreases phs.len() - i,
{
    if i < phs.len() {
        lemma_shift_le_total(phs, i + 1, col, before_cursor);
    }
}

/// Index of the line holding `off`, scanning forward from line `i`.
pub open spec fn line_scan(lines: Seq<LineLayout>, i: int, off: int) -> int
    decreases lines.len() - i,
{
    if 0 <= i && i + 1 < lines.len() && lines[i + 1].start <= off {
        line_scan(lines, i + 1, off)
    } else {
        i
    }
}

proof fn lemma_scan_grows(lines: Seq<LineLayout>, i: int, a: int, b: int)
    requires
        a <= b,
    ensures
        line_scan(lines, i, a) <= line_scan(lines, i, b),
    decreases lines.len() - i,
{
    if 0 <= i && i + 1 < lines.len() && lines[i + 1].start <= a {
        lemma_scan_grows(lines, i + 1, a, b);
    } else if 0 <= i && i + 1 < lines.len() && lines[i + 1].start <= b {
        lemma_scan_from(lines, i + 1, b);
    }
}

proof fn lemma_scan_from(lines: Seq<LineLayout>, i: int, off: int)
    ensures
        line_scan(lines, i, off) >= i,
    decreases lines.len() - i,
{
    if 0 <= i && i + 1 < lines.len() && lines[i + 1].start <= off {
        lemma_scan_from(lines, i + 1, off);
    }
}

impl Preedit {
    /// Columns that the caret moves right by on the composition's line.
    pub open spec fn shift(self) -> int {
        match self.cursor {
            Some(c) => c as int,
            None => 0,
        }
    }
}

impl DocLayout {
    pub open spec fn n_lines(&self) -> int {
        self.lines@.len() as int
    }

    pub open spec fn line(&self, l: int) -> LineLayout {
        self.lines@[l]
    }

    /// Offset just past the last character of the document.
    pub open spec fn doc_len(&self) -> int {
        self.line(self.n_lines() - 1).start + self.line(self.n_lines() - 1).len
    }

    pub open spec fn preedit_shift(&self) -> int {
        match self.preedit {
            Some(p) => p.shift(),
            None => 0,
        }
    }

    /// Line `i + 1` starts after the break that ends line `i`, which is one
    /// character long (`\n`) or more (`\r\n`).
    pub open spec fn breaks_after(&self, i: int) -> bool {
        self.line(i + 1).start > self.line(i).start + self.line(i).len
    }

    /// Lines follow one another, each ended by a line break, and
    /// every laid-out column of a line fits in a `usize`.
    pub open spec fn wf(&self) -> bool {
        &&& self.n_lines() > 0
        &&& self.line(0).start == 0
        &&& forall|i: int| 0 <= i < self.n_lines() - 1 ==> #[trigger] self.breaks_after(i)
        &&& self.doc_len() <= usize::MAX
        &&& forall|i: int|
            0 <= i < self.n_lines() ==> #[trigger] self.line(i).len + phantom_total_from(
                self.line(i).phantoms@,
                0,
            ) + self.preedit_shift() <= usize::MAX
    }

    pub open spec fn clamp(&self, offset: int) -> int {
        if offset < self.doc_len() {
            offset
        } else {
            self.doc_len()
        }
    }

    /// The line that holds `offset` (an offset past the end is on the last line).
    pub open spec fn line_of(&self, offset: int) -> int {
        line_scan(self.lines@, 0, self.clamp(offset))
    }

    /// The column of `offset` in its line; an offset inside a line break
    /// stands at the end of the line's text.
    pub open spec fn col_of(&self, offset: int) -> int {
        let c = self.clamp(offset) - self.line(self.line_of(offset)).start;
        let len = self.line(self.line_of(offset)).len as int;
        if c < len {
            c
        } else {
            len
        }
    }

    pub open spec fn len_of(&self, l: int) -> int {
        if 0 <= l < self.n_lines() {
            self.line(l).len as int
        } else {
            0
        }
    }

    /// Offset of the start of line `l`; past the last line, the end of the document.
    pub open spec fn start_of(&self, l: int) -> int {
        if 0 <= l < self.n_lines() {
            self.line(l).start as int
        } else {
            self.doc_len()
        }
    }

    /// Last column of line `l`: past the last character when `caret`, on it otherwise.
    pub open spec fn end_col(&self, l: int, caret: bool) -> int {
        if caret || self.len_of(l) == 0 {
            self.len_of(l)
        } else {
            self.len_of(l) - 1
        }
    }

    /// Column reached by moving one character right of `offset`, without
    /// leaving its line.
    pub open spec fn right_col(&self, offset: int) -> int {
        let c = self.col_of(offset) + 1;
        let e = self.len_of(self.line_of(offset));
        if c < e {
            c
        } else {
            e
        }
    }

    /// Laid-out column of text column `col` of line `l`, after the inlays.
    pub open spec fn laid_out_col(&self, l: int, col: int, before_cursor: bool) -> int {
        col + phantom_shift_from(self.line(l).phantoms@, 0, col, before_cursor)
    }

    /// Pixel x of laid-out column `col` of line `l`.
    pub open spec fn x_at(&self, l: int, col: int) -> int {
        let xs = self.line(l).xs@;
        if xs.len() == 0 {
            0
        } else if col < xs.len() {
            xs[col] as int
        } else {
            xs.last() as int
        }
    }

    /// Columns that the composition moves the caret by on line `l`.
    pub open spec fn ime_shift(&self, l: int) -> int {
        match self.preedit {
            Some(p) => if self.line_of(p.offset as int) == l {
                p.shift()
            } else {
                0
            },
            None => 0,
        }
    }

    /// Laid-out column of a caret at text column `col` of line `l`.
    pub open spec fn caret_laid_out_col(&self, l: int, col: int, block: bool) -> int {
        self.laid_out_col(l, col, block) + self.ime_shift(l)
    }

    pub proof fn lemma_line_scan(&self, i: int, off: int)
        requires
            self.wf(),
            0 <= i < self.n_lines(),
            self.line(i).start <= off,
        ensures
            i <= line_scan(self.lines@, i, off) < self.n_lines(),
            self.line(line_scan(self.lines@, i, off)).start <= off,
            line_scan(self.lines@, i, off) + 1 < self.n_lines() ==> off < self.line(
                line_scan(self.lines@, i, off) + 1,
            ).start,
        decreases self.n_lines() - i,
    {
        if i + 1 < self.n_lines() && self.line(i + 1).start <= off {
            self.lemma_line_scan(i + 1, off);
        }
    }

    /// A later offset is on the same line or a later one.
    pub proof fn lemma_line_of_grows(&self, a: int, b: int)
        requires
            a <= b,
        ensures
            self.line_of(a) <= self.line_of(b),
    {
        lemma_scan_grows(self.lines@, 0, self.clamp(a), self.clamp(b));
    }

    /// The line of an offset holds it, and its column is within the line.
    pub proof fn lemma_line_of(&self, offset: int)
        requires
            self.wf(),
            0 <= offset,
        ensures
            0 <= self.line_of(offset) < self.n_lines(),
            0 <= self.col_of(offset) <= self.len_of(self.line_of(offset)),
            0 <= self.right_col(offset) <= self.len_of(self.line_of(offset)),
    {
        self.lemma_line_scan(0, self.clamp(offset));
        let l = self.line_of(offset);
        if l + 1 < self.n_lines() {
            assert(self.breaks_after(l));
        }
    }

    /// The line that holds `offset`, and the column of `offset` in it.
    pub fn offset_to_line_col(&self, offset: usize) -> (r: (usize, usize))
        requires
            self.wf(),
        ensures
            r.0 == self.line_of(offset as int),
            r.1 == self.col_of(offset as int),
            r.0 < self.n_lines(),
            r.1 <= self.len_of(r.0 as int),
    {
        proof {
            self.lemma_line_of(offset as int);
        }
        let n = self.lines.len();
        let last = &self.lines[n - 1];
        let off = if offset < last.start + last.len {
            offset
        } else {
            last.start + last.len
        };
        let mut i: usize = 0;
        while i + 1 < n && self.lines[i + 1].start <= off
            invariant
                self.wf(),
                n == self.n_lines(),
                off == self.clamp(offset as int),
                i < n,
                line_scan(self.lines@, i as int, off as int) == self.line_of(offset as int),
            decreases n - i,
        {
            i = i + 1;
        }
        let col = off - self.lines[i].start;
        if col < self.lines[i].len {
            (i, col)
        } else {
            (i, self.lines[i].len)
        }
    }
    /// Offset of the start of line `line`; past the last line, the end of the document.
    pub fn offset_of_line(&self, line: usize) -> (r: usize)
        requires
            self.wf(),
        ensures
            r == self.start_of(line as int),
    {
        if line < self.lines.len() {
            self.lines[line].start
        } else {
            let last = &self.lines[self.lines.len() - 1];
            last.start + last.len
        }
    }

    /// Last column of `line`: past its last character when `caret`, on it otherwise.
    pub fn line_end_col(&self, line: usize, caret: bool) -> (r: usize)
        requires
            self.wf(),
        ensures
            r == self.end_col(line as int, caret),
    {
        let len = if line < self.lines.len() {
            self.lines[line].len
        } else {
            0
        };
        if caret || len == 0 {
            len
        } else {
            len - 1
        }
    }

    /// Offset one character right of `offset`, without leaving its line.
    pub fn move_right(&self, offset: usize) -> (r: usize)
        requires
            self.wf(),
        ensures
            self.line_of(r as int) == self.line_of(offset as int),
            self.col_of(r as int) == self.right_col(offset as int),
    {
        let (line, col) = self.offset_to_line_col(offset);
        let start = self.lines[line].start;
        let len = self.lines[line].len;
        let c = if col < len {
            col + 1
        } else {
            len
        };
        proof {
            self.lemma_line_of(offset as int);
            let l = line as int;
            self.lemma_starts_grow(l, self.n_lines() - 1);
            if l + 1 < self.n_lines() {
                self.lemma_starts_grow(l + 1, self.n_lines() - 1);
                assert(self.breaks_after(l));
            }
            self.lemma_scan_in_line(0, l, start + c);
        }
        start + c
    }

    /// Laid-out column of text column `col` of `line`, after the inlays
    /// before it (and those at `col` itself unless `before_cursor`).
    pub fn col_after(&self, line: usize, col: usize, before_cursor: bool) -> (r: usize)
        requires
            self.wf(),
            line < self.n_lines(),
            col <= self.line(line as int).len,
        ensures
            r == self.laid_out_col(line as int, col as int, before_cursor),
            r + self.preedit_shift() <= usize::MAX,
    {
        let phs = &self.lines[line].phantoms;
        let mut shift: usize = 0;
        let mut i: usize = 0;
        proof {
            lemma_shift_le_total(phs@, 0, col as int, before_cursor);
            assert(self.line(line as int).len + phantom_total_from(phs@, 0) + self.preedit_shift()
                <= usize::MAX);
        }
        while i < phs.len()
            invariant_except_break
                i <= phs@.len(),
                shift + phantom_shift_from(phs@, i as int, col as int, before_cursor)
                    == phantom_shift_from(phs@, 0, col as int, before_cursor),
                phantom_shift_from(phs@, 0, col as int, before_cursor) <= phantom_total_from(phs@, 0),
                col + phantom_total_from(phs@, 0) + self.preedit_shift() <= usize::MAX,
            ensures
                shift == phantom_shift_from(phs@, 0, col as int, before_cursor),
            decreases phs@.len() - i,
        {
            let p = phs[i];
            if p.col > col || (p.col == col && before_cursor) {
                break;
            }
            proof {
                lemma_shift_le_total(phs@, i as int + 1, col as int, before_cursor);
            }
            shift = shift + p.width;
            i = i + 1;
        }
        col + shift
    }

    /// Pixel x of laid-out column `col` of `line`.
    pub fn x_of_col(&self, line: usize, col: usize) -> (r: u32)
        requires
            line < self.n_lines(),
        ensures
            r == self.x_at(line as int, col as int),
    {
        let xs = &self.lines[line].xs;
        if xs.len() == 0 {
            0
        } else if col < xs.len() {
            xs[col]
        } else {
            xs[xs.len() - 1]
        }
    }

    /// Laid-out column of a caret at text column `col` of `line`: after the
    /// inlays, and moved by the cursor of a composition anchored on the line.
    pub fn caret_col(&self, line: usize, col: usize, block: bool) -> (r: usize)
        requires
            self.wf(),
            line < self.n_lines(),
            col <= self.line(line as int).len,
        ensures
            r == self.caret_laid_out_col(line as int, col as int, block),
    {
        let c = self.col_after(line, col, block);
        match self.preedit {
            Some(p) => match p.cursor {
                Some(start) => {
                    let (pl, _) = self.offset_to_line_col(p.offset);
                    if pl == line {
                        c + start
                    } else {
                        c
                    }
                },
                None => c,
            },
            None => c,
        }
    }

    proof fn lemma_scan_in_line(&self, i: int, l: int, off: int)
        requires
            self.wf(),
            0 <= i <= l < self.n_lines(),
            self.line(l).start <= off <= self.line(l).start + self.line(l).len,
        ensures
            line_scan(self.lines@, i, off) == l,
        decreases l - i,
    {
        if i < l {
            assert(self.line(i + 1).start <= self.line(l).start) by {
                self.lemma_starts_grow(i + 1, l);
            }
            self.lemma_scan_in_line(i + 1, l, off);
        } else if l + 1 < self.n_lines() {
            assert(self.breaks_after(l));
        }
    }

    proof fn lemma_starts_grow(&self, a: int, b: int)
        requires
            self.wf(),
            0 <= a <= b < self.n_lines(),
        ensures
            self.line(a).start <= self.line(b).start,
        decreases b - a,
    {
        if a < b {
            self.lemma_starts_grow(a, b - 1);
            assert(self.breaks_after(b - 1));
        }
    }
}

} // verus!
