//! Colouring of line diffs for the gutter and the scroll bar: a run-length
//! list of removed, added and unchanged lines becomes coloured bands, a
//! removal followed by an addition showing as one modified band.
use vstd::prelude::*;

verus! {

/// A run of lines of a diff against the base version. Removed lines are not
/// in the document, so they take no line of it.
#[derive(Clone, Copy, Debug, PartialEq, Eq, Structural)]
pub enum DiffRun {
    Removed(usize),
    Added(usize),
    Unchanged(usize),
}

/// The colour a band is painted with.
#[derive(Clone, Copy, Debug, PartialEq, Eq, Structural)]
pub enum ChangeColor {
    Removed,
    Added,
    Modified,
}

/// `height` lines from `start_line` painted with `color`; `removed` marks a
/// band of no height, where lines were taken out.
#[derive(Clone, Copy, Debug, PartialEq, Eq, Structural)]
pub struct ColorBand {
    pub start_line: usize,
    pub height: usize,
    pub removed: bool,
    pub color: ChangeColor,
}

#[verifier::external_type_specification]
#[verifier::external_body]
#[verifier::reject_recursive_types(A)]
pub struct ExVector<A>(im::Vector<A>);

/// The runs that an `im::Vector` holds, in order.
pub uninterp spec fn diff_runs(v: im::Vector<DiffRun>) -> Seq<DiffRun>;

/// Relies on im::Vector::len: the number of elements the vector holds.
#[verifier::external_body]
fn runs_len(v: &im::Vector<DiffRun>) -> (r: usize)
    ensures
        r == diff_runs(*v).len(),
{
    v.len()
}

/// Relies on im::Vector's `Index`: the element at position `i`, which
/// panics past the end.
#[verifier::external_body]
fn run_at(v: &im::Vector<DiffRun>, i: usize) -> (r: DiffRun)
    requires
        i < diff_runs(*v).len(),
    ensures
        r == diff_runs(*v)[i as int],
{
    v[i]
}

impl DiffRun {
    /// Lines of the document that the run covers.
    pub open spec fn lines(self) -> int {
        match self {
            DiffRun::Removed(_) => 0,
            DiffRun::Added(n) => n as int,
            DiffRun::Unchanged(n) => n as int,
        }
    }
}

/// The walk over the first `k` runs: the line reached, the bands so far,
/// and whether the walk has passed `max_line` and stopped. Runs that end
/// before `min_line` give no band; an addition right after a removal turns
/// the removal's band into one modified band.
pub open spec fn colors_upto(runs: Seq<DiffRun>, min_line: int, max_line: int, k: int) -> (
    int,
    Seq<ColorBand>,
    bool,
)
    decreases k,
{
    if k <= 0 || k > runs.len() {
        (0, seq![], false)
    } else {
        let prev = colors_upto(runs, min_line, max_line, k - 1);
        let line = prev.0;
        let colors = prev.1;
        let run = runs[k - 1];
        let next = line + run.lines();
        if prev.2 {
            prev
        } else if next < min_line {
            (next, colors, false)
        } else {
            let modified = run is Added && k >= 2 && runs[k - 2] is Removed;
            let kept = if modified && colors.len() > 0 {
                colors.drop_last()
            } else {
                colors
            };
            let band = ColorBand {
                start_line: line as usize,
                height: run.lines() as usize,
                removed: run.lines() == 0,
                color: match run {
                    DiffRun::Removed(_) => ChangeColor::Removed,
                    _ => if modified {
                        ChangeColor::Modified
                    } else {
                        ChangeColor::Added
                    },
                },
            };
            let bands = match run {
                DiffRun::Unchanged(_) => colors,
                _ => kept.push(band),
            };
            (next, bands, next > max_line)
        }
    }
}

/// The bands for `runs` over the lines `[min_line, max_line]`.
pub open spec fn colors_spec(runs: Seq<DiffRun>, min_line: int, max_line: int) -> Seq<ColorBand> {
    colors_upto(runs, min_line, max_line, runs.len() as int).1
}

/// Once the walk has stopped, later runs change nothing.
proof fn lemma_stopped_stays(runs: Seq<DiffRun>, min_line: int, max_line: int, k: int, j: int)
    requires
        0 <= k <= j <= runs.len(),
        colors_upto(runs, min_line, max_line, k).2,
    ensures
        colors_upto(runs, min_line, max_line, j) == colors_upto(runs, min_line, max_line, k),
    decreases j - k,
{
    if k < j {
        lemma_stopped_stays(runs, min_line, max_line, k, j - 1);
    }
}

/// The bands that the diff `changes` paints over the lines from `min_line`
/// to `max_line`: a removed band of no height where lines were taken out, an
/// added band over added lines, and one modified band, in place of both,
/// where lines were taken out and others put in.
pub fn changes_colors(changes: im::Vector<DiffRun>, min_line: usize, max_line: usize) -> (r: Vec<
    ColorBand,
>)
    ensures
        r@ == colors_spec(diff_runs(changes), min_line as int, max_line as int),
{
    let ghost runs = diff_runs(changes);
    let n = runs_len(&changes);
    let mut line: usize = 0;
    let mut colors: Vec<ColorBand> = Vec::new();
    let mut prev_removed = false;
    let mut i: usize = 0;
    while i < n
        invariant_except_break
            i <= n,
            n == runs.len(),
            runs == diff_runs(changes),
            colors_upto(runs, min_line as int, max_line as int, i as int) == (
                line as int,
                colors@,
                false,
            ),
            prev_removed == (i > 0 && runs[i - 1] is Removed),
        ensures
            colors@ == colors_spec(runs, min_line as int, max_line as int),
        decreases n - i,
    {
        let run = run_at(&changes, i);
        let len = match run {
            DiffRun::Removed(_) => 0,
            DiffRun::Added(k) => k,
            DiffRun::Unchanged(k) => k,
        };
        let over = len > usize::MAX - line;
        if !over && line + len < min_line {
            line = line + len;
        } else {
            let modified = match run {
                DiffRun::Added(_) => prev_removed,
                _ => false,
            };
            let color = match run {
                DiffRun::Removed(_) => Some(ChangeColor::Removed),
                DiffRun::Added(_) => Some(
                    if modified {
                        ChangeColor::Modified
                    } else {
                        ChangeColor::Added
                    },
                ),
                DiffRun::Unchanged(_) => None,
            };
            if let Some(color) = color {
                if modified {
                    colors.pop();
                }
                colors.push(ColorBand { start_line: line, height: len, removed: len == 0, color });
            }
            if over || line + len > max_line {
                proof {
                    lemma_stopped_stays(
                        runs,
                        min_line as int,
                        max_line as int,
                        i as int + 1,
                        n as int,
                    );
                }
                break;
            }
            line = line + len;
        }
        prev_removed = match run {
            DiffRun::Removed(_) => true,
            _ => false,
        };
        i = i + 1;
    }
    colors
}

/// Lines of the document that the first `k` runs cover.
pub open spec fn lines_upto(runs: Seq<DiffRun>, k: int) -> int
    decreases k,
{
    if k <= 0 || k > runs.len() {
        0
    } else {
        lines_upto(runs, k - 1) + runs[k - 1].lines()
    }
}

/// Added lines among the first `k` runs.
pub open spec fn added_upto(runs: Seq<DiffRun>, k: int) -> int
    decreases k,
{
    if k <= 0 || k > runs.len() {
        0
    } else {
        added_upto(runs, k - 1) + match runs[k - 1] {
            DiffRun::Added(n) => n as int,
            _ => 0,
        }
    }
}

/// Runs among the first `k` that are not unchanged.
pub open spec fn changed_upto(runs: Seq<DiffRun>, k: int) -> int
    decreases k,
{
    if k <= 0 || k > runs.len() {
        0
    } else {
        changed_upto(runs, k - 1) + if runs[k - 1] is Unchanged {
            0int
        } else {
            1int
        }
    }
}

/// Additions among the first `k` runs that come right after a removal.
pub open spec fn pairs_upto(runs: Seq<DiffRun>, k: int) -> int
    decreases k,
{
    if k <= 0 || k > runs.len() {
        0
    } else {
        pairs_upto(runs, k - 1) + if k >= 2 && runs[k - 2] is Removed && runs[k - 1] is Added {
            1int
        } else {
            0int
        }
    }
}

/// Total height of `bands`.
pub open spec fn band_heights(bands: Seq<ColorBand>) -> int
    decreases bands.len(),
{
    if bands.len() == 0 {
        0
    } else {
        band_heights(bands.drop_last()) + bands.last().height
    }
}

/// How many of `bands` are modified bands.
pub open spec fn modified_count(bands: Seq<ColorBand>) -> int
    decreases bands.len(),
{
    if bands.len() == 0 {
        0
    } else {
        modified_count(bands.drop_last()) + if bands.last().color == ChangeColor::Modified {
            1int
        } else {
            0int
        }
    }
}

proof fn lemma_lines_upto_grows(runs: Seq<DiffRun>, k: int, j: int)
    requires
        0 <= k <= j <= runs.len(),
    ensures
        0 <= lines_upto(runs, k) <= lines_upto(runs, j),
    decreases j,
{
    if k < j {
        lemma_lines_upto_grows(runs, k, j - 1);
    } else if k > 0 {
        lemma_lines_upto_grows(runs, k - 1, k - 1);
    }
}

proof fn lemma_whole_walk(runs: Seq<DiffRun>, max_line: int, k: int)
    requires
        0 <= k <= runs.len(),
        max_line >= lines_upto(runs, runs.len() as int),
    ensures
        ({
            let w = colors_upto(runs, 0, max_line, k);
            &&& w.0 == lines_upto(runs, k)
            &&& !w.2
            &&& band_heights(w.1) == added_upto(runs, k)
            &&& modified_count(w.1) == pairs_upto(runs, k)
            &&& w.1.len() == changed_upto(runs, k) - pairs_upto(runs, k)
            &&& (k >= 1 && runs[k - 1] is Removed) ==> w.1.len() > 0 && w.1.last().height == 0
                && w.1.last().color == ChangeColor::Removed
        }),
    decreases k,
{
    if k > 0 {
        lemma_whole_walk(runs, max_line, k - 1);
        lemma_lines_upto_grows(runs, k, runs.len() as int);
        let prev = colors_upto(runs, 0, max_line, k - 1);
        let colors = prev.1;
        let run = runs[k - 1];
        let modified = run is Added && k >= 2 && runs[k - 2] is Removed;
        if modified {
            let kept = colors.drop_last();
            assert(kept.push(colors.last()) =~= colors);
            assert(band_heights(kept) == band_heights(colors));
            assert(modified_count(kept) == modified_count(colors));
        }
        let w = colors_upto(runs, 0, max_line, k);
        match run {
            DiffRun::Unchanged(_) => {},
            _ => {
                let kept = if modified {
                    colors.drop_last()
                } else {
                    colors
                };
                assert(w.1.drop_last() =~= kept);
            },
        }
    }
}

/// Over the whole document (from line 0 to at least its last line) the bands
/// add up to the added lines, there is one modified band per removal followed
/// by an addition, and every run that is not unchanged gives one band, but a
/// removal followed by an addition gives one band for the two, never two.
pub proof fn lemma_diff_conservation(runs: Seq<DiffRun>, max_line: int)
    requires
        max_line >= lines_upto(runs, runs.len() as int),
    ensures
        band_heights(colors_spec(runs, 0, max_line)) == added_upto(runs, runs.len() as int),
        modified_count(colors_spec(runs, 0, max_line)) == pairs_upto(runs, runs.len() as int),
        colors_spec(runs, 0, max_line).len() == changed_upto(runs, runs.len() as int) - pairs_upto(
            runs,
            runs.len() as int,
        ),
{
    lemma_whole_walk(runs, max_line, runs.len() as int);
}

/// Before the walk reaches `min_line` it has no band.
proof fn lemma_no_band_before_window(runs: Seq<DiffRun>, min_line: int, max_line: int, k: int)
    requires
        0 <= k <= runs.len(),
        colors_upto(runs, min_line, max_line, k).0 < min_line,
    ensures
        colors_upto(runs, min_line, max_line, k).1.len() == 0,
        !colors_upto(runs, min_line, max_line, k).2,
    decreases k,
{
    if k > 0 {
        lemma_stopped_or_before(runs, min_line, max_line, k);
        lemma_no_band_before_window(runs, min_line, max_line, k - 1);
    }
}

/// One step of the walk: the line reached never goes back, a walk still
/// before the window has not stopped, and a stopped walk stays stopped.
proof fn lemma_stopped_or_before(runs: Seq<DiffRun>, min_line: int, max_line: int, k: int)
    requires
        0 < k <= runs.len(),
    ensures
        colors_upto(runs, min_line, max_line, k - 1).0 <= colors_upto(runs, min_line, max_line, k).0,
        colors_upto(runs, min_line, max_line, k).0 < min_line ==> !colors_upto(
            runs,
            min_line,
            max_line,
            k,
        ).2,
        colors_upto(runs, min_line, max_line, k - 1).2 ==> colors_upto(runs, min_line, max_line, k).2,
{
    if colors_upto(runs, min_line, max_line, k - 1).2 {
        lemma_stopped_in_window(runs, min_line, max_line, k - 1);
    }
}

/// A walk stops only once it has passed into the window.
proof fn lemma_stopped_in_window(runs: Seq<DiffRun>, min_line: int, max_line: int, k: int)
    requires
        0 <= k <= runs.len(),
        colors_upto(runs, min_line, max_line, k).2,
    ensures
        colors_upto(runs, min_line, max_line, k).0 >= min_line,
    decreases k,
{
    if k > 0 && colors_upto(runs, min_line, max_line, k - 1).2 {
        lemma_stopped_in_window(runs, min_line, max_line, k - 1);
    }
}

/// Within the window a removal followed by an addition leaves one modified
/// band over the added lines in place of both: the bands after the pair are
/// those before the removal and that one band.
pub proof fn lemma_modified_pair(runs: Seq<DiffRun>, min_line: int, max_line: int, k: int)
    requires
        2 <= k <= runs.len(),
        runs[k - 2] is Removed,
        runs[k - 1] is Added,
        !colors_upto(runs, min_line, max_line, k - 1).2,
        colors_upto(runs, min_line, max_line, k).0 >= min_line,
    ensures
        colors_upto(runs, min_line, max_line, k).1 == colors_upto(
            runs,
            min_line,
            max_line,
            k - 2,
        ).1.push(
            ColorBand {
                start_line: colors_upto(runs, min_line, max_line, k - 2).0 as usize,
                height: runs[k - 1].lines() as usize,
                removed: runs[k - 1].lines() == 0,
                color: ChangeColor::Modified,
            },
        ),
{
    let before = colors_upto(runs, min_line, max_line, k - 2);
    let mid = colors_upto(runs, min_line, max_line, k - 1);
    lemma_stopped_or_before(runs, min_line, max_line, k - 1);
    assert(!before.2);
    assert(mid.0 == before.0);
    if before.0 < min_line {
        lemma_no_band_before_window(runs, min_line, max_line, k - 2);
        assert(mid.1 == before.1);
        assert(mid.1.len() == 0);
    } else {
        assert(mid.1.drop_last() =~= before.1);
    }
}

} // verus!
