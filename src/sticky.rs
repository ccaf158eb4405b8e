//! Sticky headers: the enclosing structural lines (a function's signature, a
//! class) that stay pinned at the top of the viewport while their body
//! scrolls, the last one sliding away as the next context takes over.
use vstd::arithmetic::div_mod::lemma_fundamental_div_mod;
use vstd::prelude::*;

verus! {

/// For each line of the document, the header lines of the scopes enclosing
/// it, outermost first; a line past the table has none.
#[derive(Clone, Debug)]
pub struct HeaderTable {
    pub headers: Vec<Vec<usize>>,
}

/// The pinned headers published for one scroll position.
#[derive(Clone, Debug)]
pub struct StickyHeaderInfo {
    /// The pinned lines, outermost first.
    pub sticky_lines: Vec<usize>,
    /// The last pinned line is sliding out by `y_diff` pixels.
    pub last_sticky_should_scroll: bool,
    /// How far the viewport's top is past the top of its first line.
    pub y_diff: usize,
}

/// One pinned header as painted: its line, the y of its row (the viewport's
/// top plus the rows above it), the height of the row that shows, and how far
/// its text is lifted out of the row.
#[derive(Clone, Copy, Debug, PartialEq, Eq, Structural)]
pub struct StickyRow {
    pub line: usize,
    pub y: u128,
    pub height: usize,
    pub lift: usize,
}

impl StickyHeaderInfo {
    /// The offset stays within a line.
    pub open spec fn wf(&self, line_height: int) -> bool {
        self.y_diff < line_height
    }

    /// Row `i` of the pinned headers at `viewport_top`: only the last row
    /// slides, by `y_diff`, when it is sliding out.
    pub open spec fn row_spec(&self, viewport_top: int, line_height: int, i: int) -> StickyRow {
        let lift = if i == self.sticky_lines@.len() - 1 && self.last_sticky_should_scroll {
            self.y_diff as int
        } else {
            0
        };
        StickyRow {
            line: self.sticky_lines@[i],
            y: (viewport_top + line_height * i) as u128,
            height: (line_height - lift) as usize,
            lift: lift as usize,
        }
    }

    /// The rows of the pinned headers at `viewport_top`, top to bottom.
    pub fn rows(&self, viewport_top: usize, line_height: usize) -> (r: Vec<StickyRow>)
        requires
            self.wf(line_height as int),
        ensures
            r@.len() == self.sticky_lines@.len(),
            forall|i: int|
                0 <= i < r@.len() ==> #[trigger] r@[i] == self.row_spec(
                    viewport_top as int,
                    line_height as int,
                    i,
                ),
    {
        let n = self.sticky_lines.len();
        let mut rows: Vec<StickyRow> = Vec::new();
        let mut y: u128 = viewport_top as u128;
        let mut i: usize = 0;
        while i < n
            invariant
                self.wf(line_height as int),
                n == self.sticky_lines@.len(),
                i <= n,
                rows@.len() == i,
                y == viewport_top + line_height * i,
                forall|j: int|
                    0 <= j < i ==> #[trigger] rows@[j] == self.row_spec(
                        viewport_top as int,
                        line_height as int,
                        j,
                    ),
            decreases n - i,
        {
            let lift = if i == n - 1 && self.last_sticky_should_scroll {
                self.y_diff
            } else {
                0
            };
            rows.push(
                StickyRow { line: self.sticky_lines[i], y, height: line_height - lift, lift },
            );
            assert(line_height * (i + 1) == line_height * i + line_height) by (nonlinear_arith);
            assert(line_height * (i + 1) <= usize::MAX * usize::MAX) by (nonlinear_arith)
                requires
                    i + 1 <= usize::MAX,
                    line_height <= usize::MAX,
            ;
            assert(usize::MAX * usize::MAX + usize::MAX <= u128::MAX) by (nonlinear_arith)
                requires
                    usize::MAX <= u64::MAX,
            ;
            i = i + 1;
            y = y + line_height as u128;
        }
        rows
    }
}

impl HeaderTable {
    /// The headers of `line`.
    pub open spec fn at(&self, line: int) -> Seq<usize> {
        if 0 <= line < self.headers@.len() {
            self.headers@[line]@
        } else {
            seq![]
        }
    }

    /// The headers pinned when `top` is the first line on screen, and whether
    /// the last of them is sliding out: a deeper context right below the
    /// pinned ones takes over at once; a shallower one makes the last header
    /// slide, unless it has already gone.
    pub open spec fn pinned(&self, top: int) -> (Seq<usize>, bool) {
        let l0 = self.at(top);
        let n0 = l0.len() as int;
        let l1 = self.at(top + n0);
        if n0 == 0 {
            (seq![], false)
        } else if l1.len() > n0 {
            (l1, false)
        } else if l1.len() == n0 {
            (l0, false)
        } else if self.at(top + n0 - 1).len() < n0 {
            (l0.drop_last(), false)
        } else {
            (l0, true)
        }
    }

    /// Whether the last pinned header must be painted at `viewport_top`: not
    /// when it is sliding, the viewport is mid-line, or it stands in its own
    /// place right below the others.
    pub open spec fn paints_last(&self, viewport_top: int, line_height: int) -> bool {
        let s = viewport_top / line_height;
        let lines = self.pinned(s).0;
        let n = lines.len() as int;
        n > 0 && (self.pinned(s).1 || viewport_top % line_height != 0 || s + n - 1
            != lines.last())
    }

    /// The pinned headers published at `viewport_top`.
    pub open spec fn sticky_lines(&self, viewport_top: int, line_height: int) -> Seq<usize> {
        let lines = self.pinned(viewport_top / line_height).0;
        if self.paints_last(viewport_top, line_height) {
            lines
        } else if lines.len() > 0 {
            lines.drop_last()
        } else {
            seq![]
        }
    }

    /// Whether the last published header slides out at `viewport_top`.
    pub open spec fn sticky_scrolls(&self, viewport_top: int, line_height: int) -> bool {
        self.sticky_lines(viewport_top, line_height).len() > 0 && self.pinned(
            viewport_top / line_height,
        ).1
    }

    /// The y offset published at `viewport_top`.
    pub open spec fn sticky_y_diff(&self, viewport_top: int, line_height: int) -> int {
        if self.sticky_lines(viewport_top, line_height).len() > 0 {
            viewport_top % line_height
        } else {
            0
        }
    }

    /// Height that the pinned headers take at `viewport_top`: a line each,
    /// less what the sliding one has already scrolled out.
    pub open spec fn sticky_height(&self, viewport_top: int, line_height: int) -> int {
        self.sticky_lines(viewport_top, line_height).len() * line_height - if self.sticky_scrolls(
            viewport_top,
            line_height,
        ) {
            self.sticky_y_diff(viewport_top, line_height)
        } else {
            0
        }
    }

    /// How many headers `line + k` has.
    fn depth_at(&self, line: usize, k: usize) -> (r: usize)
        ensures
            r == self.at(line + k).len(),
            r > 0 ==> line + k < usize::MAX,
    {
        let n = self.headers.len();
        if k <= n && line < n - k {
            self.headers[line + k].len()
        } else {
            0
        }
    }
}

/// The first `n` lines of `v`.
fn prefix_of(v: &Vec<usize>, n: usize) -> (r: Vec<usize>)
    requires
        n <= v@.len(),
    ensures
        r@ == v@.take(n as int),
{
    let mut r: Vec<usize> = Vec::new();
    let mut i: usize = 0;
    while i < n
        invariant
            i <= n <= v@.len(),
            r@ == v@.take(i as int),
        decreases n - i,
    {
        r.push(v[i]);
        assert(v@.take(i as int + 1) =~= v@.take(i as int).push(v@[i as int]));
        i = i + 1;
    }
    r
}

/// The sticky headers at scroll position `viewport_top` (in pixels) with
/// lines `line_height` pixels high, and the height they take.
pub fn get_sticky_header_info(
    table: &HeaderTable,
    viewport_top: usize,
    line_height: usize,
) -> (r: (StickyHeaderInfo, u128))
    requires
        line_height > 0,
    ensures
        r.0.sticky_lines@ == table.sticky_lines(viewport_top as int, line_height as int),
        r.0.last_sticky_should_scroll == table.sticky_scrolls(
            viewport_top as int,
            line_height as int,
        ),
        r.0.y_diff == table.sticky_y_diff(viewport_top as int, line_height as int),
        r.1 == table.sticky_height(viewport_top as int, line_height as int),
        0 <= r.1 <= r.0.sticky_lines@.len() * line_height,
        r.0.wf(line_height as int),
{
    let start_line = viewport_top / line_height;
    let y_diff = viewport_top % line_height;
    let ghost s = start_line as int;
    let n0 = table.depth_at(start_line, 0);
    // The pinned lines are the first `keep` headers of line `source`.
    let mut source = start_line;
    let mut keep: usize = 0;
    let mut scroll = false;
    if n0 > 0 {
        let n1 = table.depth_at(start_line, n0);
        if n1 > n0 {
            source = start_line + n0;
            keep = n1;
        } else {
            keep = n0;
            if n1 < n0 {
                scroll = true;
                if table.depth_at(start_line, n0 - 1) < n0 {
                    keep = n0 - 1;
                    scroll = false;
                }
            }
        }
    }
    assert(table.pinned(s).0 =~= table.at(source as int).take(keep as int));
    assert(table.pinned(s).1 == scroll);
    let paint_last = if keep == 0 {
        false
    } else {
        let last = table.headers[source][keep - 1];
        scroll || y_diff != 0 || last < start_line || last - start_line != keep - 1
    };
    assert(paint_last == table.paints_last(viewport_top as int, line_height as int));
    let count = if paint_last {
        keep
    } else if keep > 0 {
        keep - 1
    } else {
        0
    };
    if count == 0 {
        let info = StickyHeaderInfo {
            sticky_lines: Vec::new(),
            last_sticky_should_scroll: false,
            y_diff: 0,
        };
        assert(info.sticky_lines@ =~= table.sticky_lines(viewport_top as int, line_height as int));
        assert(table.sticky_height(viewport_top as int, line_height as int) == 0) by {
            let n = table.sticky_lines(viewport_top as int, line_height as int).len();
            assert(n == 0);
            assert(!table.sticky_scrolls(viewport_top as int, line_height as int));
            assert(n * line_height == 0) by (nonlinear_arith)
                requires
                    n == 0,
            ;
        }
        return (info, 0);
    }
    let sticky_lines = prefix_of(&table.headers[source], count);
    assert(sticky_lines@ =~= table.sticky_lines(viewport_top as int, line_height as int));
    assert(count as u128 * line_height as u128 <= u128::MAX) by (nonlinear_arith)
        requires
            count <= usize::MAX,
            line_height <= usize::MAX,
            usize::MAX <= u64::MAX,
    ;
    let full = count as u128 * line_height as u128;
    assert(full >= line_height) by (nonlinear_arith)
        requires
            count >= 1,
            full == count * line_height,
            line_height > 0,
    ;
    let height = if scroll {
        full - y_diff as u128
    } else {
        full
    };
    (StickyHeaderInfo { sticky_lines, last_sticky_should_scroll: scroll, y_diff }, height)
}

/// What published sticky headers are computed from: whether sticky headers
/// are switched on, the document's revision, the scroll position and the line
/// height.
#[derive(Clone, Copy, Debug, PartialEq, Eq, Structural)]
pub struct StickyKey {
    pub enabled: bool,
    pub revision: u64,
    pub viewport_top: usize,
    pub line_height: usize,
}

/// The sticky headers last published, and what they were computed from.
#[derive(Clone, Debug)]
pub struct StickyHeaderCache {
    pub key: Option<StickyKey>,
    pub info: StickyHeaderInfo,
    pub height: u128,
}

impl StickyHeaderCache {
    /// Nothing published yet.
    pub fn new() -> (r: StickyHeaderCache)
        ensures
            r.key is None,
            r.info.sticky_lines@.len() == 0,
            !r.info.last_sticky_should_scroll,
            r.info.y_diff == 0,
            r.height == 0,
    {
        StickyHeaderCache {
            key: None,
            info: StickyHeaderInfo {
                sticky_lines: Vec::new(),
                last_sticky_should_scroll: false,
                y_diff: 0,
            },
            height: 0,
        }
    }

    /// Brings the published headers up to `key`, reading the headers of the
    /// document at that revision from `table`: they are computed afresh only
    /// when `key` differs from the last one, and kept as they are otherwise.
    /// With sticky headers switched off nothing is computed, and nothing
    /// pinned is published. Returns whether the published headers were set.
    pub fn update(&mut self, table: &HeaderTable, key: StickyKey) -> (changed: bool)
        requires
            key.enabled ==> key.line_height > 0,
        ensures
            changed == (old(self).key != Some(key)),
            final(self).key == Some(key),
            changed && !key.enabled ==> {
                &&& final(self).info.sticky_lines@.len() == 0
                &&& !final(self).info.last_sticky_should_scroll
                &&& final(self).info.y_diff == 0
                &&& final(self).height == 0
            },
            changed && key.enabled ==> {
                &&& final(self).info.sticky_lines@ == table.sticky_lines(
                    key.viewport_top as int,
                    key.line_height as int,
                )
                &&& final(self).info.last_sticky_should_scroll == table.sticky_scrolls(
                    key.viewport_top as int,
                    key.line_height as int,
                )
                &&& final(self).info.y_diff == table.sticky_y_diff(
                    key.viewport_top as int,
                    key.line_height as int,
                )
                &&& final(self).height == table.sticky_height(
                    key.viewport_top as int,
                    key.line_height as int,
                )
            },
            !changed ==> {
                &&& final(self).info.sticky_lines@ == old(self).info.sticky_lines@
                &&& final(self).info.last_sticky_should_scroll
                    == old(self).info.last_sticky_should_scroll
                &&& final(self).info.y_diff == old(self).info.y_diff
                &&& final(self).height == old(self).height
            },
    {
        let same = match self.key {
            Some(k) => k == key,
            None => false,
        };
        if same {
            return false;
        }
        self.key = Some(key);
        if !key.enabled {
            self.info = StickyHeaderInfo {
                sticky_lines: Vec::new(),
                last_sticky_should_scroll: false,
                y_diff: 0,
            };
            self.height = 0;
            return true;
        }
        let (info, height) = get_sticky_header_info(table, key.viewport_top, key.line_height);
        self.info = info;
        self.height = height;
        self.key = Some(key);
        true
    }
}

/// Scrolling further within one line never makes the pinned headers taller:
/// they stay, and a sliding last header only slides further out. The one
/// exception is the scroll position exactly at a line's top where the last
/// header stands in its own place and so is not pinned; a pixel further, it is
/// pinned and the height grows by a line. The published height is never
/// negative and never more than a line per published header.
pub proof fn lemma_sticky_height_settles(table: HeaderTable, t1: int, t2: int, line_height: int)
    requires
        line_height > 0,
        0 <= t1 <= t2,
        t1 / line_height == t2 / line_height,
        t1 == t2 || table.paints_last(t1, line_height) || table.pinned(t1 / line_height).0.len() == 0,
    ensures
        table.sticky_height(t2, line_height) <= table.sticky_height(t1, line_height),
        0 <= table.sticky_height(t1, line_height) <= table.sticky_lines(t1, line_height).len()
            * line_height,
{
    let s = t1 / line_height;
    let r1 = t1 % line_height;
    let r2 = t2 % line_height;
    lemma_fundamental_div_mod(t1, line_height);
    lemma_fundamental_div_mod(t2, line_height);
    assert(r1 <= r2);
    lemma_height_bounds(table, t1, line_height);
}

/// The published height lies between nothing and a line per published header.
proof fn lemma_height_bounds(table: HeaderTable, t: int, line_height: int)
    requires
        line_height > 0,
        0 <= t,
    ensures
        0 <= table.sticky_height(t, line_height) <= table.sticky_lines(t, line_height).len()
            * line_height,
{
    let n = table.sticky_lines(t, line_height).len();
    let r = t % line_height;
    assert(0 <= n * line_height) by (nonlinear_arith)
        requires
            n >= 0,
            line_height > 0,
    ;
    if table.sticky_scrolls(t, line_height) {
        assert(0 <= n * line_height - r) by (nonlinear_arith)
            requires
                n >= 1,
                0 <= r < line_height,
        ;
    }
}

} // verus!
