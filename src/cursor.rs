//! What the cursor paints: the current-line highlight, the selection blocks
//! and the caret, for each cursor mode.
use crate::doc::DocLayout;
use crate::screen::ScreenLines;
use vstd::prelude::*;

verus! {

/// Width of a block caret whose right edge cannot be placed (end of a line).
pub const BLOCK_CARET_MIN_WIDTH: i64 = 7;

/// Width of the thin caret of insert mode.
pub const INSERT_CARET_WIDTH: i64 = 2;

/// How a visual selection extends.
#[derive(Clone, Copy, Debug, PartialEq, Eq, Structural)]
pub enum VisualMode {
    /// Character by character.
    Normal,
    /// Whole lines.
    Linewise,
    /// A rectangle of columns.
    Blockwise,
}

/// The horizontal position the cursor keeps when it moves between lines.
#[derive(Clone, Copy, Debug, PartialEq, Eq, Structural)]
pub enum ColPosition {
    FirstNonBlank,
    Start,
    End,
    Col(u32),
}

/// One region of a selection; the caret stands at `end`.
#[derive(Clone, Copy, Debug, PartialEq, Eq, Structural)]
pub struct SelRegion {
    pub start: usize,
    pub end: usize,
}

/// The regions of a multi-cursor selection.
#[derive(Clone, Debug)]
pub struct Selection {
    pub regions: Vec<SelRegion>,
}

/// The state of the cursor.
#[derive(Clone, Debug)]
pub enum CursorMode {
    Normal(usize),
    Visual { start: usize, end: usize, mode: VisualMode },
    Insert(Selection),
}

/// One thing to paint for the cursor, in pixels.
#[derive(Clone, Copy, Debug, PartialEq, Eq, Structural)]
pub enum CursorRender {
    CurrentLine { line: usize },
    Selection { x: i64, width: i64, line: usize },
    Caret { x: i64, width: i64, line: usize },
}

pub open spec fn min_int(a: int, b: int) -> int {
    if a < b {
        a
    } else {
        b
    }
}

pub open spec fn max_int(a: int, b: int) -> int {
    if a < b {
        b
    } else {
        a
    }
}

impl SelRegion {
    pub open spec fn lo(self) -> int {
        min_int(self.start as int, self.end as int)
    }

    pub open spec fn hi(self) -> int {
        max_int(self.start as int, self.end as int)
    }
}

/// The caret for a cursor at `offset`: a block over the next character, or a
/// thin bar just left of the column boundary.
pub open spec fn caret_spec(doc: DocLayout, offset: int, block: bool) -> CursorRender {
    let l = doc.line_of(offset);
    let x0 = doc.x_at(l, doc.caret_laid_out_col(l, doc.col_of(offset), block));
    if block {
        let x1 = doc.x_at(l, doc.caret_laid_out_col(l, doc.right_col(offset), block));
        CursorRender::Caret {
            x: x0 as i64,
            width: if x1 > x0 {
                (x1 - x0) as i64
            } else {
                BLOCK_CARET_MIN_WIDTH
            },
            line: l as usize,
        }
    } else {
        CursorRender::Caret { x: (x0 - 1) as i64, width: INSERT_CARET_WIDTH, line: l as usize }
    }
}

/// The selection block of `line` between text columns `left` and `right`,
/// widened by `char_width` when the selection runs on past the line's end.
pub open spec fn span_spec(
    doc: DocLayout,
    line: int,
    left: int,
    right: int,
    line_end: bool,
    char_width: int,
) -> CursorRender {
    let x0 = doc.x_at(line, doc.laid_out_col(line, left, false));
    let x1 = doc.x_at(line, doc.laid_out_col(line, right, false)) + if line_end {
        char_width
    } else {
        0
    };
    CursorRender::Selection { x: x0 as i64, width: (x1 - x0) as i64, line: line as usize }
}

/// The selection block of `line` in a visual selection between `start` and
/// `end`, if the line gets one. A block spans, on every line, from the smaller
/// of the two ends' columns to one past the larger (to the line's end when the
/// cursor keeps to line ends), and skips lines shorter than its left edge.
pub open spec fn visual_block_spec(
    doc: DocLayout,
    start: int,
    end: int,
    mode: VisualMode,
    horiz: Option<ColPosition>,
    char_width: int,
    line: int,
) -> Seq<CursorRender> {
    let lo = min_int(start, end);
    let hi = max_int(start, end);
    let sl = doc.line_of(lo);
    let sc = doc.col_of(lo);
    let el = doc.line_of(hi);
    let ec = doc.col_of(hi);
    let full = doc.end_col(line, true);
    match mode {
        VisualMode::Normal => {
            let left = if line == sl {
                sc
            } else {
                0
            };
            if line == el {
                seq![span_spec(doc, line, left, min_int(doc.right_col(hi), full), false, char_width)]
            } else {
                seq![span_spec(doc, line, left, full, true, char_width)]
            }
        },
        VisualMode::Linewise => seq![span_spec(doc, line, 0, full, true, char_width)],
        VisualMode::Blockwise => {
            let left = min_int(sc, ec);
            let right = match horiz {
                Some(ColPosition::End) => full,
                _ => min_int(max_int(sc, ec) + 1, full),
            };
            if left > doc.end_col(line, false) {
                seq![]
            } else {
                seq![span_spec(doc, line, left, right, false, char_width)]
            }
        },
    }
}

/// What a visual selection paints on `line`.
pub open spec fn visual_line_spec(
    doc: DocLayout,
    start: int,
    end: int,
    mode: VisualMode,
    horiz: Option<ColPosition>,
    char_width: int,
    is_active: bool,
    line: int,
) -> Seq<CursorRender> {
    let lo = min_int(start, end);
    let hi = max_int(start, end);
    if line < doc.line_of(lo) || line > doc.line_of(hi) {
        seq![]
    } else {
        visual_block_spec(doc, start, end, mode, horiz, char_width, line) + if is_active && line
            == doc.line_of(end) {
            seq![caret_spec(doc, end, true)]
        } else {
            seq![]
        }
    }
}

/// What a visual selection paints over `lines`, line by line.
pub open spec fn visual_spec(
    doc: DocLayout,
    start: int,
    end: int,
    mode: VisualMode,
    horiz: Option<ColPosition>,
    char_width: int,
    is_active: bool,
    lines: Seq<usize>,
) -> Seq<CursorRender>
    decreases lines.len(),
{
    if lines.len() == 0 {
        seq![]
    } else {
        visual_spec(doc, start, end, mode, horiz, char_width, is_active, lines.drop_last())
            + visual_line_spec(
            doc,
            start,
            end,
            mode,
            horiz,
            char_width,
            is_active,
            lines.last() as int,
        )
    }
}

/// What one insert-mode region paints on `line`: the current-line highlight
/// on the caret's line unless an earlier region's caret already lit it (a line
/// of `lit`), the selected span if the region is not empty, and the thin caret.
pub open spec fn insert_line_spec(
    doc: DocLayout,
    region: SelRegion,
    char_width: int,
    is_active: bool,
    lit: Seq<usize>,
    line: int,
) -> Seq<CursorRender> {
    let sl = doc.line_of(region.lo());
    let sc = doc.col_of(region.lo());
    let el = doc.line_of(region.hi());
    let ec = doc.col_of(region.hi());
    let cl = doc.line_of(region.end as int);
    let full = doc.end_col(line, true);
    if line < sl || line > el {
        seq![]
    } else {
        let left = if line == sl {
            sc
        } else {
            0
        };
        let span = if line == el {
            span_spec(doc, line, left, min_int(ec, full), false, char_width)
        } else {
            span_spec(doc, line, left, full, true, char_width)
        };
        (if line == cl && !lit.contains(line as usize) {
            seq![CursorRender::CurrentLine { line: line as usize }]
        } else {
            seq![]
        }) + (if region.start != region.end {
            seq![span]
        } else {
            seq![]
        }) + (if is_active && line == cl {
            seq![caret_spec(doc, region.end as int, false)]
        } else {
            seq![]
        })
    }
}

/// What one insert-mode region paints over `lines`, line by line.
pub open spec fn insert_region_spec(
    doc: DocLayout,
    region: SelRegion,
    char_width: int,
    is_active: bool,
    lit: Seq<usize>,
    lines: Seq<usize>,
) -> Seq<CursorRender>
    decreases lines.len(),
{
    if lines.len() == 0 {
        seq![]
    } else {
        insert_region_spec(doc, region, char_width, is_active, lit, lines.drop_last())
            + insert_line_spec(doc, region, char_width, is_active, lit, lines.last() as int)
    }
}

/// The lines of the carets of `regions`, in order.
pub open spec fn caret_lines(doc: DocLayout, regions: Seq<SelRegion>) -> Seq<usize>
    decreases regions.len(),
{
    if regions.len() == 0 {
        seq![]
    } else {
        caret_lines(doc, regions.drop_last()).push(doc.line_of(regions.last().end as int) as usize)
    }
}

/// A region touches the offsets `[start, end]`.
pub open spec fn region_in_range(region: SelRegion, start: int, end: int) -> bool {
    region.hi() >= start && region.lo() <= end
}

/// The regions among `regions` that touch `[start, end]`, in order.
pub open spec fn regions_in_range_spec(regions: Seq<SelRegion>, start: int, end: int) -> Seq<SelRegion>
    decreases regions.len(),
{
    if regions.len() == 0 {
        seq![]
    } else {
        regions_in_range_spec(regions.drop_last(), start, end) + if region_in_range(
            regions.last(),
            start,
            end,
        ) {
            seq![regions.last()]
        } else {
            seq![]
        }
    }
}

/// What the regions `regions` paint over `lines`, region by region.
pub open spec fn insert_regions_spec(
    doc: DocLayout,
    regions: Seq<SelRegion>,
    char_width: int,
    is_active: bool,
    lines: Seq<usize>,
) -> Seq<CursorRender>
    decreases regions.len(),
{
    if regions.len() == 0 {
        seq![]
    } else {
        insert_regions_spec(doc, regions.drop_last(), char_width, is_active, lines)
            + insert_region_spec(
            doc,
            regions.last(),
            char_width,
            is_active,
            caret_lines(doc, regions.drop_last()),
            lines,
        )
    }
}

/// The regions on screen: those that touch the offsets from the first screen
/// line's start to the start of the line after the last one.
pub open spec fn window_regions(doc: DocLayout, selection: Seq<SelRegion>, lines: Seq<usize>) -> Seq<
    SelRegion,
> {
    regions_in_range_spec(selection, doc.start_of(lines[0] as int), doc.start_of(lines.last() + 1))
}

/// What insert mode paints: what the regions on screen paint.
pub open spec fn insert_spec(
    doc: DocLayout,
    selection: Seq<SelRegion>,
    char_width: int,
    is_active: bool,
    lines: Seq<usize>,
) -> Seq<CursorRender> {
    if lines.len() == 0 {
        seq![]
    } else {
        insert_regions_spec(doc, window_regions(doc, selection, lines), char_width, is_active, lines)
    }
}

/// What a normal-mode cursor at `offset` paints: its line's highlight, and a
/// block caret when the view is active and that line is on screen.
pub open spec fn normal_spec(doc: DocLayout, offset: int, is_active: bool, lines: Seq<usize>) -> Seq<
    CursorRender,
> {
    let l = doc.line_of(offset);
    seq![CursorRender::CurrentLine { line: l as usize }] + if is_active && lines.contains(
        l as usize,
    ) {
        seq![caret_spec(doc, offset, true)]
    } else {
        seq![]
    }
}

/// What the cursor paints, whatever its mode.
pub open spec fn project_spec(
    doc: DocLayout,
    mode: CursorMode,
    horiz: Option<ColPosition>,
    char_width: int,
    is_active: bool,
    lines: Seq<usize>,
) -> Seq<CursorRender> {
    match mode {
        CursorMode::Normal(offset) => normal_spec(doc, offset as int, is_active, lines),
        CursorMode::Visual { start, end, mode } => visual_spec(
            doc,
            start as int,
            end as int,
            mode,
            horiz,
            char_width,
            is_active,
            lines,
        ),
        CursorMode::Insert(selection) => insert_spec(
            doc,
            selection.regions@,
            char_width,
            is_active,
            lines,
        ),
    }
}

/// The caret for a cursor at `offset`: a block over the next character when
/// `block`, else a thin bar one pixel left of the column boundary. Both edges
/// go through the line's inlays and the composition in progress.
pub fn cursor_caret(doc: &DocLayout, offset: usize, block: bool) -> (r: CursorRender)
    requires
        doc.wf(),
    ensures
        r == caret_spec(*doc, offset as int, block),
{
    proof {
        doc.lemma_line_of(offset as int);
    }
    let (line, col) = doc.offset_to_line_col(offset);
    let x0 = doc.x_of_col(line, doc.caret_col(line, col, block));
    if block {
        let (_, right_col) = doc.offset_to_line_col(doc.move_right(offset));
        let x1 = doc.x_of_col(line, doc.caret_col(line, right_col, block));
        let width = if x1 > x0 {
            (x1 - x0) as i64
        } else {
            BLOCK_CARET_MIN_WIDTH
        };
        CursorRender::Caret { x: x0 as i64, width, line }
    } else {
        CursorRender::Caret { x: x0 as i64 - 1, width: INSERT_CARET_WIDTH, line }
    }
}

/// The selection block of `line` between text columns `left` and `right`.
fn selection_span(
    doc: &DocLayout,
    line: usize,
    left: usize,
    right: usize,
    line_end: bool,
    char_width: u32,
) -> (r: CursorRender)
    requires
        doc.wf(),
        line < doc.n_lines(),
        left <= doc.line(line as int).len,
        right <= doc.line(line as int).len,
    ensures
        r == span_spec(*doc, line as int, left as int, right as int, line_end, char_width as int),
{
    let x0 = doc.x_of_col(line, doc.col_after(line, left, false)) as i64;
    let mut x1 = doc.x_of_col(line, doc.col_after(line, right, false)) as i64;
    if line_end {
        x1 = x1 + char_width as i64;
    }
    CursorRender::Selection { x: x0, width: x1 - x0, line }
}

fn min_usize(a: usize, b: usize) -> (r: usize)
    ensures
        r == min_int(a as int, b as int),
{
    if a < b {
        a
    } else {
        b
    }
}

fn max_usize(a: usize, b: usize) -> (r: usize)
    ensures
        r == max_int(a as int, b as int),
{
    if a < b {
        b
    } else {
        a
    }
}

/// Appends what a visual selection paints on `line`.
#[allow(clippy::too_many_arguments)]
fn visual_line(
    doc: &DocLayout,
    start: usize,
    end: usize,
    mode: VisualMode,
    horiz: Option<ColPosition>,
    char_width: u32,
    is_active: bool,
    line: usize,
    renders: &mut Vec<CursorRender>,
)
    requires
        doc.wf(),
    ensures
        final(renders)@ == old(renders)@ + visual_line_spec(
            *doc,
            start as int,
            end as int,
            mode,
            horiz,
            char_width as int,
            is_active,
            line as int,
        ),
{
    let lo = min_usize(start, end);
    let hi = max_usize(start, end);
    proof {
        doc.lemma_line_of(lo as int);
        doc.lemma_line_of(hi as int);
        doc.lemma_line_of(end as int);
    }
    let (start_line, start_col) = doc.offset_to_line_col(lo);
    let (end_line, end_col) = doc.offset_to_line_col(hi);
    let (cursor_line, _) = doc.offset_to_line_col(end);
    if line < start_line || line > end_line {
        let ghost w = char_width as int;
        assert(visual_line_spec(*doc, start as int, end as int, mode, horiz, w, is_active, line as int)
            =~= seq![]);
        return;
    }
    let ghost before = renders@;
    let full = doc.line_end_col(line, true);
    match mode {
        VisualMode::Normal => {
            let left = if line == start_line {
                start_col
            } else {
                0
            };
            if line == end_line {
                let (_, right) = doc.offset_to_line_col(doc.move_right(hi));
                let right = min_usize(right, full);
                renders.push(selection_span(doc, line, left, right, false, char_width));
            } else {
                renders.push(selection_span(doc, line, left, full, true, char_width));
            }
        },
        VisualMode::Linewise => {
            renders.push(selection_span(doc, line, 0, full, true, char_width));
        },
        VisualMode::Blockwise => {
            let left = min_usize(start_col, end_col);
            let right = match horiz {
                Some(ColPosition::End) => full,
                _ => {
                    let widest = max_usize(start_col, end_col);
                    if widest < full {
                        widest + 1
                    } else {
                        full
                    }
                },
            };
            if left <= doc.line_end_col(line, false) {
                renders.push(selection_span(doc, line, left, right, false, char_width));
            }
        },
    }
    let ghost w = char_width as int;
    assert(renders@ =~= before + visual_block_spec(*doc, start as int, end as int, mode, horiz, w, line as int));
    if is_active && line == cursor_line {
        renders.push(cursor_caret(doc, end, true));
    }
    assert(renders@ =~= before + visual_line_spec(
        *doc,
        start as int,
        end as int,
        mode,
        horiz,
        w,
        is_active,
        line as int,
    ));
}

/// What a visual selection between `start` and `end` paints over the screen
/// lines: per line, its selection block, then the caret on the line of `end`.
#[allow(clippy::too_many_arguments)]
pub fn visual_cursor(
    doc: &DocLayout,
    start: usize,
    end: usize,
    mode: VisualMode,
    horiz: Option<ColPosition>,
    char_width: u32,
    is_active: bool,
    screen_lines: &ScreenLines,
) -> (r: Vec<CursorRender>)
    requires
        doc.wf(),
    ensures
        r@ == visual_spec(
            *doc,
            start as int,
            end as int,
            mode,
            horiz,
            char_width as int,
            is_active,
            screen_lines.lines@,
        ),
{
    let lines = &screen_lines.lines;
    let mut renders: Vec<CursorRender> = Vec::new();
    let mut i: usize = 0;
    while i < lines.len()
        invariant
            doc.wf(),
            i <= lines@.len(),
            renders@ == visual_spec(
                *doc,
                start as int,
                end as int,
                mode,
                horiz,
                char_width as int,
                is_active,
                lines@.take(i as int),
            ),
        decreases lines@.len() - i,
    {
        visual_line(doc, start, end, mode, horiz, char_width, is_active, lines[i], &mut renders);
        assert(lines@.take(i as int + 1).drop_last() =~= lines@.take(i as int));
        i = i + 1;
    }
    assert(lines@.take(i as int) =~= lines@);
    renders
}

impl Selection {
    /// The regions that touch the offsets `[start, end]`, in order.
    pub fn regions_in_range(&self, start: usize, end: usize) -> (r: Vec<SelRegion>)
        ensures
            r@ == regions_in_range_spec(self.regions@, start as int, end as int),
    {
        let mut r: Vec<SelRegion> = Vec::new();
        let mut i: usize = 0;
        while i < self.regions.len()
            invariant
                i <= self.regions@.len(),
                r@ == regions_in_range_spec(self.regions@.take(i as int), start as int, end as int),
            decreases self.regions@.len() - i,
        {
            let region = self.regions[i];
            let lo = min_usize(region.start, region.end);
            let hi = max_usize(region.start, region.end);
            if hi >= start && lo <= end {
                r.push(region);
            }
            assert(self.regions@.take(i as int + 1).drop_last() =~= self.regions@.take(i as int));
            i = i + 1;
        }
        assert(self.regions@.take(i as int) =~= self.regions@);
        r
    }
}

/// Appends what one insert-mode region paints on `line`.
fn insert_line(
    doc: &DocLayout,
    region: SelRegion,
    char_width: u32,
    is_active: bool,
    lit: &Vec<usize>,
    line: usize,
    renders: &mut Vec<CursorRender>,
)
    requires
        doc.wf(),
    ensures
        final(renders)@ == old(renders)@ + insert_line_spec(
            *doc,
            region,
            char_width as int,
            is_active,
            lit@,
            line as int,
        ),
{
    let lo = min_usize(region.start, region.end);
    let hi = max_usize(region.start, region.end);
    proof {
        doc.lemma_line_of(lo as int);
        doc.lemma_line_of(hi as int);
    }
    let (start_line, start_col) = doc.offset_to_line_col(lo);
    let (end_line, end_col) = doc.offset_to_line_col(hi);
    let (cursor_line, _) = doc.offset_to_line_col(region.end);
    if line < start_line || line > end_line {
        let ghost w = char_width as int;
        assert(insert_line_spec(*doc, region, w, is_active, lit@, line as int) =~= seq![]);
        return;
    }
    let ghost before = renders@;
    let full = doc.line_end_col(line, true);
    let left = if line == start_line {
        start_col
    } else {
        0
    };
    let span = if line == end_line {
        selection_span(doc, line, left, min_usize(end_col, full), false, char_width)
    } else {
        selection_span(doc, line, left, full, true, char_width)
    };
    if line == cursor_line && !holds_line(lit, line) {
        renders.push(CursorRender::CurrentLine { line });
    }
    if region.start != region.end {
        renders.push(span);
    }
    if is_active && line == cursor_line {
        renders.push(cursor_caret(doc, region.end, false));
    }
    let ghost w = char_width as int;
    assert(renders@ =~= before + insert_line_spec(*doc, region, w, is_active, lit@, line as int));
}

/// What insert mode paints for `selection` over the screen lines: for each
/// region on screen, per line, the current-line highlight on the caret's line
/// (once per line, by the first region whose caret is there), the selected
/// span, and the thin caret.
pub fn insert_cursor(
    doc: &DocLayout,
    selection: &Selection,
    char_width: u32,
    is_active: bool,
    screen_lines: &ScreenLines,
) -> (r: Vec<CursorRender>)
    requires
        doc.wf(),
    ensures
        r@ == insert_spec(*doc, selection.regions@, char_width as int, is_active, screen_lines.lines@),
        screen_lines.lines@.no_duplicates() ==> forall|l: usize|
            #[trigger] highlight_count(r@, l) == if screen_lines.lines@.contains(l) && caret_lines(
                *doc,
                window_regions(*doc, selection.regions@, screen_lines.lines@),
            ).contains(l) {
                1nat
            } else {
                0nat
            },
{
    let n_doc_lines = doc.lines.len();
    let r = insert_renders(doc, selection, char_width, is_active, screen_lines);
    proof {
        if screen_lines.lines@.no_duplicates() {
            assert forall|l: usize|
                #[trigger] highlight_count(r@, l) == if screen_lines.lines@.contains(l)
                    && caret_lines(
                    *doc,
                    window_regions(*doc, selection.regions@, screen_lines.lines@),
                ).contains(l) {
                    1nat
                } else {
                    0nat
                } by {
                lemma_insert_highlight_once(
                    *doc,
                    selection.regions@,
                    char_width as int,
                    is_active,
                    screen_lines.lines@,
                    l,
                );
            }
        }
    }
    r
}

fn insert_renders(
    doc: &DocLayout,
    selection: &Selection,
    char_width: u32,
    is_active: bool,
    screen_lines: &ScreenLines,
) -> (r: Vec<CursorRender>)
    requires
        doc.wf(),
    ensures
        r@ == insert_spec(*doc, selection.regions@, char_width as int, is_active, screen_lines.lines@),
{
    let lines = &screen_lines.lines;
    if lines.len() == 0 {
        return Vec::new();
    }
    let first_line = lines[0];
    let last_line = lines[lines.len() - 1];
    let start = doc.offset_of_line(first_line);
    let end = if last_line < doc.lines.len() - 1 {
        doc.offset_of_line(last_line + 1)
    } else {
        doc.offset_of_line(doc.lines.len())
    };
    let regions = selection.regions_in_range(start, end);
    let mut renders: Vec<CursorRender> = Vec::new();
    let mut lit: Vec<usize> = Vec::new();
    let mut k: usize = 0;
    while k < regions.len()
        invariant
            doc.wf(),
            k <= regions@.len(),
            lit@ == caret_lines(*doc, regions@.take(k as int)),
            renders@ == insert_regions_spec(
                *doc,
                regions@.take(k as int),
                char_width as int,
                is_active,
                lines@,
            ),
        decreases regions@.len() - k,
    {
        let region = regions[k];
        let ghost before = renders@;
        let mut i: usize = 0;
        while i < lines.len()
            invariant
                doc.wf(),
                i <= lines@.len(),
                renders@ == before + insert_region_spec(
                    *doc,
                    region,
                    char_width as int,
                    is_active,
                    lit@,
                    lines@.take(i as int),
                ),
            decreases lines@.len() - i,
        {
            insert_line(doc, region, char_width, is_active, &lit, lines[i], &mut renders);
            assert(lines@.take(i as int + 1).drop_last() =~= lines@.take(i as int));
            assert(renders@ =~= before + insert_region_spec(
                *doc,
                region,
                char_width as int,
                is_active,
                lit@,
                lines@.take(i as int + 1),
            ));
            i = i + 1;
        }
        assert(lines@.take(i as int) =~= lines@);
        assert(regions@.take(k as int + 1).drop_last() =~= regions@.take(k as int));
        let (cursor_line, _) = doc.offset_to_line_col(region.end);
        lit.push(cursor_line);
        k = k + 1;
    }
    assert(regions@.take(k as int) =~= regions@);
    renders
}

/// Whether `line` is one of `lines`.
fn holds_line(lines: &Vec<usize>, line: usize) -> (r: bool)
    ensures
        r == lines@.contains(line),
{
    let mut i: usize = 0;
    while i < lines.len()
        invariant
            i <= lines@.len(),
            forall|j: int| 0 <= j < i ==> lines@[j] != line,
        decreases lines@.len() - i,
    {
        if lines[i] == line {
            assert(lines@[i as int] == line);
            return true;
        }
        i = i + 1;
    }
    false
}

/// What the cursor paints over the screen lines, whatever its mode; `horiz`
/// is the horizontal position the cursor keeps, `char_width` the width added
/// where a selection runs on past the end of a line.
pub fn project_cursor(
    doc: &DocLayout,
    mode: &CursorMode,
    horiz: Option<ColPosition>,
    char_width: u32,
    is_active: bool,
    screen_lines: &ScreenLines,
) -> (r: Vec<CursorRender>)
    requires
        doc.wf(),
    ensures
        r@ == project_spec(*doc, *mode, horiz, char_width as int, is_active, screen_lines.lines@),
{
    match mode {
        CursorMode::Normal(offset) => {
            let (line, _) = doc.offset_to_line_col(*offset);
            let mut renders: Vec<CursorRender> = Vec::new();
            renders.push(CursorRender::CurrentLine { line });
            if is_active && holds_line(&screen_lines.lines, line) {
                renders.push(cursor_caret(doc, *offset, true));
            }
            assert(renders@ =~= normal_spec(*doc, *offset as int, is_active, screen_lines.lines@));
            renders
        },
        CursorMode::Visual { start, end, mode } => visual_cursor(
            doc,
            *start,
            *end,
            *mode,
            horiz,
            char_width,
            is_active,
            screen_lines,
        ),
        CursorMode::Insert(selection) => insert_cursor(
            doc,
            selection,
            char_width,
            is_active,
            screen_lines,
        ),
    }
}

/// How many carets `renders` holds.
pub open spec fn caret_count(renders: Seq<CursorRender>) -> nat
    decreases renders.len(),
{
    if renders.len() == 0 {
        0
    } else {
        caret_count(renders.drop_last()) + if renders.last() is Caret {
            1nat
        } else {
            0nat
        }
    }
}

/// The selection blocks among `renders`, in order.
pub open spec fn selection_blocks(renders: Seq<CursorRender>) -> Seq<CursorRender>
    decreases renders.len(),
{
    if renders.len() == 0 {
        seq![]
    } else {
        selection_blocks(renders.drop_last()) + if renders.last() is Selection {
            seq![renders.last()]
        } else {
            seq![]
        }
    }
}

proof fn lemma_caret_count_concat(a: Seq<CursorRender>, b: Seq<CursorRender>)
    ensures
        caret_count(a + b) == caret_count(a) + caret_count(b),
    decreases b.len(),
{
    if b.len() > 0 {
        lemma_caret_count_concat(a, b.drop_last());
        assert((a + b).drop_last() =~= a + b.drop_last());
    } else {
        assert(a + b =~= a);
    }
}

proof fn lemma_selection_blocks_concat(a: Seq<CursorRender>, b: Seq<CursorRender>)
    ensures
        selection_blocks(a + b) == selection_blocks(a) + selection_blocks(b),
    decreases b.len(),
{
    if b.len() > 0 {
        lemma_selection_blocks_concat(a, b.drop_last());
        assert((a + b).drop_last() =~= a + b.drop_last());
        assert(selection_blocks(a + b) =~= selection_blocks(a) + selection_blocks(b));
    } else {
        assert(a + b =~= a);
        assert(selection_blocks(a + b) =~= selection_blocks(a) + selection_blocks(b));
    }
}

/// Every caret among `renders` is `caret`.
pub open spec fn carets_are(renders: Seq<CursorRender>, caret: CursorRender) -> bool {
    forall|i: int| 0 <= i < renders.len() && (#[trigger] renders[i]) is Caret ==> renders[i] == caret
}

proof fn lemma_carets_are_concat(a: Seq<CursorRender>, b: Seq<CursorRender>, caret: CursorRender)
    requires
        carets_are(a, caret),
        carets_are(b, caret),
    ensures
        carets_are(a + b, caret),
{
    assert forall|i: int| 0 <= i < (a + b).len() && (#[trigger] (a + b)[i]) is Caret implies (a
        + b)[i] == caret by {
        if i < a.len() {
            assert((a + b)[i] == a[i]);
        } else {
            assert((a + b)[i] == b[i - a.len()]);
        }
    }
}

proof fn lemma_visual_line_carets(
    doc: DocLayout,
    start: int,
    end: int,
    mode: VisualMode,
    horiz: Option<ColPosition>,
    char_width: int,
    is_active: bool,
    line: int,
)
    ensures
        caret_count(visual_line_spec(doc, start, end, mode, horiz, char_width, is_active, line))
            == if is_active && line == doc.line_of(end) {
            1nat
        } else {
            0nat
        },
        carets_are(
            visual_line_spec(doc, start, end, mode, horiz, char_width, is_active, line),
            caret_spec(doc, end, true),
        ),
        selection_blocks(visual_line_spec(doc, start, end, mode, horiz, char_width, is_active, line))
            == if line < doc.line_of(min_int(start, end)) || line > doc.line_of(max_int(start, end)) {
            seq![]
        } else {
            visual_block_spec(doc, start, end, mode, horiz, char_width, line)
        },
{
    let block = visual_block_spec(doc, start, end, mode, horiz, char_width, line);
    let caret = if is_active && line == doc.line_of(end) {
        seq![caret_spec(doc, end, true)]
    } else {
        seq![]
    };
    let none: Seq<CursorRender> = seq![];
    assert(caret_count(none) == 0 && selection_blocks(none) == none);
    assert(caret_count(block) == 0 && selection_blocks(block) == block) by {
        if block.len() > 0 {
            assert(block.drop_last() == none);
            assert(selection_blocks(block) =~= block);
        }
    }
    assert(caret_count(caret) == caret.len() && selection_blocks(caret) == none) by {
        if caret.len() > 0 {
            assert(caret.drop_last() == none);
        }
    }
    let lo = min_int(start, end);
    let hi = max_int(start, end);
    doc.lemma_line_of_grows(lo, hi);
    if line < doc.line_of(lo) || line > doc.line_of(hi) {
        assert(line != doc.line_of(end));
    } else {
        lemma_caret_count_concat(block, caret);
        lemma_selection_blocks_concat(block, caret);
        lemma_carets_are_concat(block, caret, caret_spec(doc, end, true));
        assert(block + seq![] =~= block);
    }
}

proof fn lemma_visual_carets(
    doc: DocLayout,
    start: int,
    end: int,
    mode: VisualMode,
    horiz: Option<ColPosition>,
    char_width: int,
    is_active: bool,
    lines: Seq<usize>,
)
    requires
        lines.no_duplicates(),
        0 <= doc.line_of(end) <= usize::MAX,
    ensures
        caret_count(visual_spec(doc, start, end, mode, horiz, char_width, is_active, lines))
            == if is_active && lines.contains(doc.line_of(end) as usize) {
            1nat
        } else {
            0nat
        },
        carets_are(
            visual_spec(doc, start, end, mode, horiz, char_width, is_active, lines),
            caret_spec(doc, end, true),
        ),
    decreases lines.len(),
{
    if lines.len() == 0 {
        let none: Seq<CursorRender> = seq![];
        assert(caret_count(none) == 0);
    } else {
        let rest = lines.drop_last();
        assert(rest.no_duplicates());
        lemma_visual_carets(doc, start, end, mode, horiz, char_width, is_active, rest);
        let a = visual_spec(doc, start, end, mode, horiz, char_width, is_active, rest);
        let b = visual_line_spec(
            doc,
            start,
            end,
            mode,
            horiz,
            char_width,
            is_active,
            lines.last() as int,
        );
        lemma_caret_count_concat(a, b);
        lemma_visual_line_carets(
            doc,
            start,
            end,
            mode,
            horiz,
            char_width,
            is_active,
            lines.last() as int,
        );
        lemma_carets_are_concat(a, b, caret_spec(doc, end, true));
        lemma_contains_split(lines, doc.line_of(end) as usize);
    }
}

/// In normal and visual mode, an active view paints exactly one caret when
/// the line of the cursor (the end of a visual selection) is one of the
/// screen lines, and none when it is not; an inactive view paints none. The
/// caret painted is the block caret at the cursor.
pub proof fn lemma_one_caret(
    doc: DocLayout,
    mode: CursorMode,
    horiz: Option<ColPosition>,
    char_width: int,
    is_active: bool,
    lines: Seq<usize>,
)
    requires
        doc.wf(),
        doc.lines@.len() <= usize::MAX,
        lines.no_duplicates(),
    ensures
        match mode {
            CursorMode::Normal(offset) => {
                &&& caret_count(project_spec(doc, mode, horiz, char_width, is_active, lines))
                    == if is_active && lines.contains(doc.line_of(offset as int) as usize) {
                    1nat
                } else {
                    0nat
                }
                &&& carets_are(
                    project_spec(doc, mode, horiz, char_width, is_active, lines),
                    caret_spec(doc, offset as int, true),
                )
            },
            CursorMode::Visual { end, .. } => {
                &&& caret_count(project_spec(doc, mode, horiz, char_width, is_active, lines))
                    == if is_active && lines.contains(doc.line_of(end as int) as usize) {
                    1nat
                } else {
                    0nat
                }
                &&& carets_are(
                    project_spec(doc, mode, horiz, char_width, is_active, lines),
                    caret_spec(doc, end as int, true),
                )
            },
            CursorMode::Insert(_) => true,
        },
{
    match mode {
        CursorMode::Normal(offset) => {
            let l = doc.line_of(offset as int);
            let c = caret_spec(doc, offset as int, true);
            let head = seq![CursorRender::CurrentLine { line: l as usize }];
            let tail = if is_active && lines.contains(l as usize) {
                seq![c]
            } else {
                seq![]
            };
            lemma_caret_count_concat(head, tail);
            let none: Seq<CursorRender> = seq![];
            assert(caret_count(none) == 0);
            assert(head.drop_last() == none);
            if tail.len() > 0 {
                assert(tail.drop_last() == none);
            }
            assert(carets_are(head, c));
            assert(carets_are(tail, c));
            lemma_carets_are_concat(head, tail, c);
        },
        CursorMode::Visual { start, end, mode: vmode } => {
            doc.lemma_line_of(end as int);
            lemma_visual_carets(
                doc,
                start as int,
                end as int,
                vmode,
                horiz,
                char_width,
                is_active,
                lines,
            );
        },
        CursorMode::Insert(_) => {},
    }
}

/// A visual selection paints the same selection blocks whichever of its ends
/// the cursor is at: swapping the two ends of a block (or of any visual
/// selection) moves the caret and nothing else.
pub proof fn lemma_visual_blocks_symmetric(
    doc: DocLayout,
    start: int,
    end: int,
    mode: VisualMode,
    horiz: Option<ColPosition>,
    char_width: int,
    is_active: bool,
    lines: Seq<usize>,
)
    ensures
        selection_blocks(visual_spec(doc, start, end, mode, horiz, char_width, is_active, lines))
            == selection_blocks(
            visual_spec(doc, end, start, mode, horiz, char_width, is_active, lines),
        ),
    decreases lines.len(),
{
    if lines.len() > 0 {
        let rest = lines.drop_last();
        let line = lines.last() as int;
        lemma_visual_blocks_symmetric(doc, start, end, mode, horiz, char_width, is_active, rest);
        lemma_selection_blocks_concat(
            visual_spec(doc, start, end, mode, horiz, char_width, is_active, rest),
            visual_line_spec(doc, start, end, mode, horiz, char_width, is_active, line),
        );
        lemma_selection_blocks_concat(
            visual_spec(doc, end, start, mode, horiz, char_width, is_active, rest),
            visual_line_spec(doc, end, start, mode, horiz, char_width, is_active, line),
        );
        lemma_line_blocks(doc, start, end, mode, horiz, char_width, is_active, line);
        lemma_line_blocks(doc, end, start, mode, horiz, char_width, is_active, line);
        assert(min_int(start, end) == min_int(end, start));
        assert(max_int(start, end) == max_int(end, start));
        assert(visual_block_spec(doc, start, end, mode, horiz, char_width, line)
            == visual_block_spec(doc, end, start, mode, horiz, char_width, line));
    }
}

/// The selection blocks that a visual selection paints on `line`.
proof fn lemma_line_blocks(
    doc: DocLayout,
    start: int,
    end: int,
    mode: VisualMode,
    horiz: Option<ColPosition>,
    char_width: int,
    is_active: bool,
    line: int,
)
    ensures
        selection_blocks(visual_line_spec(doc, start, end, mode, horiz, char_width, is_active, line))
            == if line < doc.line_of(min_int(start, end)) || line > doc.line_of(max_int(start, end)) {
            seq![]
        } else {
            visual_block_spec(doc, start, end, mode, horiz, char_width, line)
        },
{
    lemma_visual_line_carets(doc, start, end, mode, horiz, char_width, is_active, line);
}

/// How many times `renders` highlights line `l`.
pub open spec fn highlight_count(renders: Seq<CursorRender>, l: usize) -> nat
    decreases renders.len(),
{
    if renders.len() == 0 {
        0
    } else {
        highlight_count(renders.drop_last(), l) + if renders.last() == (CursorRender::CurrentLine {
            line: l,
        }) {
            1nat
        } else {
            0nat
        }
    }
}

proof fn lemma_highlight_count_concat(a: Seq<CursorRender>, b: Seq<CursorRender>, l: usize)
    ensures
        highlight_count(a + b, l) == highlight_count(a, l) + highlight_count(b, l),
    decreases b.len(),
{
    if b.len() > 0 {
        lemma_highlight_count_concat(a, b.drop_last(), l);
        assert((a + b).drop_last() =~= a + b.drop_last());
    } else {
        assert(a + b =~= a);
    }
}

proof fn lemma_highlight_count_small(a: Seq<CursorRender>, l: usize)
    requires
        a.len() <= 1,
    ensures
        highlight_count(a, l) == if a.len() == 1 && a[0] == (CursorRender::CurrentLine { line: l }) {
            1nat
        } else {
            0nat
        },
{
    if a.len() == 1 {
        let none: Seq<CursorRender> = seq![];
        assert(a.drop_last() == none);
        assert(highlight_count(none, l) == 0);
    }
}

proof fn lemma_insert_line_highlight(
    doc: DocLayout,
    region: SelRegion,
    char_width: int,
    is_active: bool,
    lit: Seq<usize>,
    line: usize,
    l: usize,
)
    requires
        doc.wf(),
        doc.lines@.len() <= usize::MAX,
    ensures
        highlight_count(insert_line_spec(doc, region, char_width, is_active, lit, line as int), l)
            == if line == l && doc.line_of(region.end as int) == l && !lit.contains(l) {
            1nat
        } else {
            0nat
        },
{
    let cl = doc.line_of(region.end as int);
    doc.lemma_line_of(region.end as int);
    doc.lemma_line_of_grows(region.lo(), region.hi());
    let sl = doc.line_of(region.lo());
    let el = doc.line_of(region.hi());
    let rs = insert_line_spec(doc, region, char_width, is_active, lit, line as int);
    if line < sl || line > el {
        let none: Seq<CursorRender> = seq![];
        assert(highlight_count(none, l) == 0);
        assert(cl != line);
    } else {
        let hl = if line == cl && !lit.contains(line) {
            seq![CursorRender::CurrentLine { line: line }]
        } else {
            seq![]
        };
        let sel = if region.start != region.end {
            seq![
                if line == el {
                    span_spec(
                        doc,
                        line as int,
                        if line == sl {
                            doc.col_of(region.lo())
                        } else {
                            0
                        },
                        min_int(doc.col_of(region.hi()), doc.end_col(line as int, true)),
                        false,
                        char_width,
                    )
                } else {
                    span_spec(
                        doc,
                        line as int,
                        if line == sl {
                            doc.col_of(region.lo())
                        } else {
                            0
                        },
                        doc.end_col(line as int, true),
                        true,
                        char_width,
                    )
                },
            ]
        } else {
            seq![]
        };
        let car = if is_active && line == cl {
            seq![caret_spec(doc, region.end as int, false)]
        } else {
            seq![]
        };
        assert(rs == hl + sel + car);
        lemma_highlight_count_concat(hl + sel, car, l);
        lemma_highlight_count_concat(hl, sel, l);
        lemma_highlight_count_small(hl, l);
        lemma_highlight_count_small(sel, l);
        lemma_highlight_count_small(car, l);
    }
}

proof fn lemma_insert_region_highlight(
    doc: DocLayout,
    region: SelRegion,
    char_width: int,
    is_active: bool,
    lit: Seq<usize>,
    lines: Seq<usize>,
    l: usize,
)
    requires
        doc.wf(),
        doc.lines@.len() <= usize::MAX,
        lines.no_duplicates(),
    ensures
        highlight_count(insert_region_spec(doc, region, char_width, is_active, lit, lines), l)
            == if lines.contains(l) && doc.line_of(region.end as int) == l && !lit.contains(l) {
            1nat
        } else {
            0nat
        },
    decreases lines.len(),
{
    if lines.len() == 0 {
        let none: Seq<CursorRender> = seq![];
        assert(highlight_count(none, l) == 0);
    } else {
        let rest = lines.drop_last();
        assert(rest.no_duplicates());
        lemma_insert_region_highlight(doc, region, char_width, is_active, lit, rest, l);
        lemma_highlight_count_concat(
            insert_region_spec(doc, region, char_width, is_active, lit, rest),
            insert_line_spec(doc, region, char_width, is_active, lit, lines.last() as int),
            l,
        );
        lemma_insert_line_highlight(doc, region, char_width, is_active, lit, lines.last(), l);
        lemma_contains_split(lines, l);
    }
}

/// A line is among `lines` when it is the last one or among the others, and
/// then, without repeats, only in one of the two places.
proof fn lemma_contains_split(lines: Seq<usize>, l: usize)
    requires
        lines.len() > 0,
        lines.no_duplicates(),
    ensures
        lines.contains(l) == (lines.last() == l || lines.drop_last().contains(l)),
        lines.last() == l ==> !lines.drop_last().contains(l),
{
    let rest = lines.drop_last();
    if lines.contains(l) && lines.last() != l {
        let j = choose|j: int| 0 <= j < lines.len() && lines[j] == l;
        assert(rest[j] == l);
    }
    if rest.contains(l) {
        let j = choose|j: int| 0 <= j < rest.len() && rest[j] == l;
        assert(lines[j] == l);
        assert(j != lines.len() - 1);
    }
    if lines.last() == l {
        assert(lines[lines.len() - 1] == l);
    }
}

proof fn lemma_insert_regions_highlight(
    doc: DocLayout,
    regions: Seq<SelRegion>,
    char_width: int,
    is_active: bool,
    lines: Seq<usize>,
    l: usize,
)
    requires
        doc.wf(),
        doc.lines@.len() <= usize::MAX,
        lines.no_duplicates(),
    ensures
        highlight_count(insert_regions_spec(doc, regions, char_width, is_active, lines), l)
            == if lines.contains(l) && caret_lines(doc, regions).contains(l) {
            1nat
        } else {
            0nat
        },
    decreases regions.len(),
{
    if regions.len() == 0 {
        let none: Seq<CursorRender> = seq![];
        assert(highlight_count(none, l) == 0);
    } else {
        let rest = regions.drop_last();
        let last = regions.last();
        let lit = caret_lines(doc, rest);
        lemma_insert_regions_highlight(doc, rest, char_width, is_active, lines, l);
        lemma_highlight_count_concat(
            insert_regions_spec(doc, rest, char_width, is_active, lines),
            insert_region_spec(doc, last, char_width, is_active, lit, lines),
            l,
        );
        lemma_insert_region_highlight(doc, last, char_width, is_active, lit, lines, l);
        doc.lemma_line_of(last.end as int);
        let cl = doc.line_of(last.end as int);
        let all = caret_lines(doc, regions);
        assert(all == lit.push(cl as usize));
        assert(all.contains(l) == (lit.contains(l) || cl == l)) by {
            if all.contains(l) && !(cl == l) {
                let j = choose|j: int| 0 <= j < all.len() && all[j] == l;
                assert(j < lit.len());
                assert(lit[j] == l);
            }
            if lit.contains(l) {
                let j = choose|j: int| 0 <= j < lit.len() && lit[j] == l;
                assert(all[j] == l);
            }
            if cl == l {
                assert(all[lit.len() as int] == l);
            }
        }
    }
}

/// In insert mode no line is highlighted twice: with screen lines that do not
/// repeat, line `l` is highlighted once when it is on screen and the caret of
/// some region on screen is on it, and not at all otherwise.
pub proof fn lemma_insert_highlight_once(
    doc: DocLayout,
    selection: Seq<SelRegion>,
    char_width: int,
    is_active: bool,
    lines: Seq<usize>,
    l: usize,
)
    requires
        doc.wf(),
        doc.lines@.len() <= usize::MAX,
        lines.no_duplicates(),
    ensures
        highlight_count(insert_spec(doc, selection, char_width, is_active, lines), l) == if lines.contains(
            l,
        ) && caret_lines(doc, window_regions(doc, selection, lines)).contains(l) {
            1nat
        } else {
            0nat
        },
{
    if lines.len() == 0 {
        let none: Seq<CursorRender> = seq![];
        assert(highlight_count(none, l) == 0);
    } else {
        lemma_insert_regions_highlight(
            doc,
            window_regions(doc, selection, lines),
            char_width,
            is_active,
            lines,
            l,
        );
    }
}

} // verus!
