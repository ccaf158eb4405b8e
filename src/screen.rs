//! The window of logical lines that a viewport shows, and where each of them
//! stands on screen.
use std::collections::HashMap;
use vstd::prelude::*;

verus! {

/// What a diff view shows in a band of lines beside the text.
#[derive(Clone, Copy, Debug, PartialEq, Eq, Structural)]
pub enum DiffSectionKind {
    NoCode,
    Added,
    Removed,
}

/// A band of `height` lines from `start_line` that a diff view decorates.
#[derive(Clone, Copy, Debug, PartialEq, Eq, Structural)]
pub struct DiffSection {
    pub start_line: usize,
    pub height: usize,
    pub kind: DiffSectionKind,
}

/// Where a visible line stands: the y of its top, in the viewport's space.
#[derive(Clone, Copy, Debug, PartialEq, Eq, Structural)]
pub struct LineInfo {
    pub y: usize,
}

/// The logical lines that a viewport shows, in increasing order, with the
/// position of each, and the diff bands drawn among them.
pub struct ScreenLines {
    pub lines: Vec<usize>,
    pub info: HashMap<usize, LineInfo>,
    pub diff_sections: Vec<DiffSection>,
}

/// Top of line `i`: the heights of the lines above it.
pub open spec fn line_top(heights: Seq<usize>, i: int) -> int
    decreases i,
{
    if i <= 0 || i > heights.len() {
        0
    } else {
        line_top(heights, i - 1) + heights[i - 1]
    }
}

/// Line `i` covers `[top, top + height)`, which meets the viewport `[y0, y1]`:
/// a line starting at `y1` still shows its first row, and a line of no height
/// shows nothing.
pub open spec fn line_visible(heights: Seq<usize>, y0: int, y1: int, i: int) -> bool {
    &&& 0 <= i < heights.len()
    &&& heights[i] > 0
    &&& line_top(heights, i) <= y1
    &&& line_top(heights, i) + heights[i] > y0
}

/// The visible lines among the first `k`, in order.
pub open spec fn window_upto(heights: Seq<usize>, y0: int, y1: int, k: int) -> Seq<usize>
    decreases k,
{
    if k <= 0 || k > heights.len() {
        seq![]
    } else {
        window_upto(heights, y0, y1, k - 1) + if line_visible(heights, y0, y1, k - 1) {
            seq![(k - 1) as usize]
        } else {
            seq![]
        }
    }
}

/// The visible lines, in order.
pub open spec fn window(heights: Seq<usize>, y0: int, y1: int) -> Seq<usize> {
    window_upto(heights, y0, y1, heights.len() as int)
}

proof fn lemma_top_grows(heights: Seq<usize>, a: int, b: int)
    requires
        0 <= a <= b <= heights.len(),
    ensures
        line_top(heights, a) <= line_top(heights, b),
    decreases b - a,
{
    if a < b {
        lemma_top_grows(heights, a, b - 1);
    }
}

/// Lines from `k` on start past `y1` once line `k` does; the window then
/// stops growing.
proof fn lemma_window_stops(heights: Seq<usize>, y0: int, y1: int, k: int, j: int)
    requires
        0 <= k <= j <= heights.len(),
        line_top(heights, k) > y1,
    ensures
        window_upto(heights, y0, y1, j) == window_upto(heights, y0, y1, k),
        forall|l: int| k <= l < j ==> !line_visible(heights, y0, y1, l),
    decreases j - k,
{
    if k < j {
        lemma_window_stops(heights, y0, y1, k, j - 1);
        lemma_top_grows(heights, k, j - 1);
        assert(window_upto(heights, y0, y1, j) =~= window_upto(heights, y0, y1, j - 1));
    }
}

proof fn lemma_window_upto(heights: Seq<usize>, y0: int, y1: int, k: int)
    requires
        0 <= k <= heights.len() <= usize::MAX,
    ensures
        forall|j: int|
            0 <= j < window_upto(heights, y0, y1, k).len() ==> (#[trigger] window_upto(
                heights,
                y0,
                y1,
                k,
            )[j]) < k && line_visible(heights, y0, y1, window_upto(heights, y0, y1, k)[j] as int),
        forall|l: int|
            0 <= l < k && line_visible(heights, y0, y1, l) ==> window_upto(
                heights,
                y0,
                y1,
                k,
            ).contains(l as usize),
        forall|a: int, b: int|
            0 <= a < b < window_upto(heights, y0, y1, k).len() ==> window_upto(heights, y0, y1, k)[a]
                < window_upto(heights, y0, y1, k)[b],
    decreases k,
{
    if k > 0 {
        lemma_window_upto(heights, y0, y1, k - 1);
        let prev = window_upto(heights, y0, y1, k - 1);
        let w = window_upto(heights, y0, y1, k);
        if line_visible(heights, y0, y1, k - 1) {
            assert(w == prev.push((k - 1) as usize));
            assert forall|j: int| 0 <= j < w.len() implies (#[trigger] w[j]) < k && line_visible(
                heights,
                y0,
                y1,
                w[j] as int,
            ) by {
                if j < prev.len() {
                    assert(w[j] == prev[j]);
                }
            }
            assert forall|a: int, b: int| 0 <= a < b < w.len() implies w[a] < w[b] by {
                assert(w[a] == prev[a]);
                if b < prev.len() {
                    assert(w[b] == prev[b]);
                }
            }
            assert forall|l: int|
                0 <= l < k && line_visible(heights, y0, y1, l) implies w.contains(l as usize) by {
                if l < k - 1 {
                    let j = choose|j: int| 0 <= j < prev.len() && prev[j] == l as usize;
                    assert(w[j] == l as usize);
                } else {
                    assert(w[prev.len() as int] == l as usize);
                }
            }
        } else {
            assert(w =~= prev);
        }
    }
}

/// Every line whose extent meets the viewport `[y0, y1]` is in the window
/// exactly once, and no other line is; the window's lines increase, and so do
/// their tops.
pub proof fn lemma_window_coverage(heights: Seq<usize>, y0: int, y1: int)
    requires
        heights.len() <= usize::MAX,
    ensures
        forall|l: usize|
            line_visible(heights, y0, y1, l as int) <==> #[trigger] window(heights, y0, y1).contains(
                l,
            ),
        forall|a: int, b: int|
            0 <= a < b < window(heights, y0, y1).len() ==> window(heights, y0, y1)[a] < window(
                heights,
                y0,
                y1,
            )[b],
        forall|a: int, b: int|
            0 <= a < b < window(heights, y0, y1).len() ==> line_top(
                heights,
                window(heights, y0, y1)[a] as int,
            ) < line_top(heights, window(heights, y0, y1)[b] as int),
{
    let w = window(heights, y0, y1);
    lemma_window_upto(heights, y0, y1, heights.len() as int);
    assert forall|a: int, b: int| 0 <= a < b < w.len() implies line_top(heights, w[a] as int)
        < line_top(heights, w[b] as int) by {
        let la = w[a] as int;
        let lb = w[b] as int;
        lemma_top_grows(heights, la + 1, lb);
    }
}

/// The lines that the viewport `[y0, y1]` shows, given each line's height in
/// pixels (a wrapped line is as high as its rows), each with the y of its top.
/// No diff band is set here: a diff view adds its own.
pub fn compute_screen_lines(heights: &Vec<usize>, y0: usize, y1: usize) -> (r: ScreenLines)
    ensures
        r.lines@ == window(heights@, y0 as int, y1 as int),
        forall|l: usize|
            #[trigger] r.info@.contains_key(l) <==> line_visible(
                heights@,
                y0 as int,
                y1 as int,
                l as int,
            ),
        forall|l: usize| #[trigger] r.info@.contains_key(l) ==> r.info@[l].y == line_top(heights@, l as int),
        r.diff_sections@.len() == 0,
{
    broadcast use vstd::std_specs::hash::group_hash_axioms;

    let n = heights.len();
    let mut lines: Vec<usize> = Vec::new();
    let mut info: HashMap<usize, LineInfo> = HashMap::new();
    let mut top: usize = 0;
    let mut i: usize = 0;
    while i < n
        invariant_except_break
            n == heights@.len(),
            i <= n,
            top == line_top(heights@, i as int),
            top <= y1,
            lines@ == window_upto(heights@, y0 as int, y1 as int, i as int),
            forall|l: usize|
                #[trigger] info@.contains_key(l) <==> (l < i && line_visible(
                    heights@,
                    y0 as int,
                    y1 as int,
                    l as int,
                )),
            forall|l: usize| #[trigger] info@.contains_key(l) ==> info@[l].y == line_top(heights@, l as int),
        ensures
            lines@ == window(heights@, y0 as int, y1 as int),
            forall|l: usize|
                #[trigger] info@.contains_key(l) <==> line_visible(
                    heights@,
                    y0 as int,
                    y1 as int,
                    l as int,
                ),
            forall|l: usize| #[trigger] info@.contains_key(l) ==> info@[l].y == line_top(heights@, l as int),
        decreases n - i,
    {
        let h = heights[i];
        if h > 0 && (y0 < top || y0 - top < h) {
            lines.push(i);
            info.insert(i, LineInfo { y: top });
        }
        assert(lines@ =~= window_upto(heights@, y0 as int, y1 as int, i as int + 1));
        if h > y1 - top {
            proof {
                lemma_window_stops(heights@, y0 as int, y1 as int, i as int + 1, n as int);
            }
            break;
        }
        top = top + h;
        i = i + 1;
    }
    ScreenLines { lines, info, diff_sections: Vec::new() }
}

} // verus!
