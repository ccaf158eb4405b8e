//! The outlines drawn around the search matches on screen.
use crate::cursor::{min_int, regions_in_range_spec, span_spec, CursorRender, SelRegion, Selection};
use crate::doc::DocLayout;
use crate::screen::ScreenLines;
use vstd::prelude::*;

verus! {

/// The outline of a non-empty match on `line`.
pub open spec fn find_line_spec(doc: DocLayout, region: SelRegion, line: int) -> Seq<CursorRender> {
    let sl = doc.line_of(region.lo());
    let el = doc.line_of(region.hi());
    let full = doc.end_col(line, true);
    if line < sl || line > el || region.start == region.end {
        seq![]
    } else {
        let left = if line == sl {
            doc.col_of(region.lo())
        } else {
            0
        };
        let right = if line == el {
            min_int(doc.col_of(region.hi()), full)
        } else {
            full
        };
        seq![span_spec(doc, line, left, right, false, 0)]
    }
}

/// The outlines of one match over `lines`, line by line.
pub open spec fn find_region_spec(doc: DocLayout, region: SelRegion, lines: Seq<usize>) -> Seq<
    CursorRender,
>
    decreases lines.len(),
{
    if lines.len() == 0 {
        seq![]
    } else {
        find_region_spec(doc, region, lines.drop_last()) + find_line_spec(
            doc,
            region,
            lines.last() as int,
        )
    }
}

/// The outlines of the matches `regions` over `lines`, match by match.
pub open spec fn find_regions_spec(doc: DocLayout, regions: Seq<SelRegion>, lines: Seq<usize>) -> Seq<
    CursorRender,
>
    decreases regions.len(),
{
    if regions.len() == 0 {
        seq![]
    } else {
        find_regions_spec(doc, regions.drop_last(), lines) + find_region_spec(
            doc,
            regions.last(),
            lines,
        )
    }
}

/// The outlines of the matches that touch the screen lines.
pub open spec fn find_spec(doc: DocLayout, occurrences: Seq<SelRegion>, lines: Seq<usize>) -> Seq<
    CursorRender,
> {
    if lines.len() == 0 {
        seq![]
    } else {
        find_regions_spec(
            doc,
            regions_in_range_spec(
                occurrences,
                doc.start_of(lines[0] as int),
                doc.start_of(lines.last() + 1),
            ),
            lines,
        )
    }
}

/// Appends the outline of `region` on `line`.
fn find_line(
    doc: &DocLayout,
    region: SelRegion,
    line: usize,
    rects: &mut Vec<CursorRender>,
)
    requires
        doc.wf(),
    ensures
        final(rects)@ == old(rects)@ + find_line_spec(*doc, region, line as int),
{
    let (lo, hi) = if region.start < region.end {
        (region.start, region.end)
    } else {
        (region.end, region.start)
    };
    proof {
        doc.lemma_line_of(lo as int);
        doc.lemma_line_of(hi as int);
    }
    let (start_line, start_col) = doc.offset_to_line_col(lo);
    let (end_line, end_col) = doc.offset_to_line_col(hi);
    if line < start_line || line > end_line || region.start == region.end {
        assert(find_line_spec(*doc, region, line as int) =~= seq![]);
        return;
    }
    let full = doc.line_end_col(line, true);
    let left = if line == start_line {
        start_col
    } else {
        0
    };
    let right = if line == end_line {
        if end_col < full {
            end_col
        } else {
            full
        }
    } else {
        full
    };
    let x0 = doc.x_of_col(line, doc.col_after(line, left, false)) as i64;
    let x1 = doc.x_of_col(line, doc.col_after(line, right, false)) as i64;
    rects.push(CursorRender::Selection { x: x0, width: x1 - x0, line });
}

/// The outlines of the search matches `occurrences` on the screen lines: for
/// each match that touches them, a box per line it spans.
pub fn find_rects(doc: &DocLayout, occurrences: &Selection, screen_lines: &ScreenLines) -> (r: Vec<
    CursorRender,
>)
    requires
        doc.wf(),
    ensures
        r@ == find_spec(*doc, occurrences.regions@, screen_lines.lines@),
{
    let lines = &screen_lines.lines;
    if lines.len() == 0 {
        return Vec::new();
    }
    let first_line = lines[0];
    let last_line = lines[lines.len() - 1];
    let start = doc.offset_of_line(first_line);
    let end = if last_line < doc.lines.len() - 1 {
        doc.offset_of_line(last_line + 1)
    } else {
        doc.offset_of_line(doc.lines.len())
    };
    let regions = occurrences.regions_in_range(start, end);
    let mut rects: Vec<CursorRender> = Vec::new();
    let mut k: usize = 0;
    while k < regions.len()
        invariant
            doc.wf(),
            k <= regions@.len(),
            rects@ == find_regions_spec(*doc, regions@.take(k as int), lines@),
        decreases regions@.len() - k,
    {
        let region = regions[k];
        let ghost before = rects@;
        let mut i: usize = 0;
        while i < lines.len()
            invariant
                doc.wf(),
                i <= lines@.len(),
                rects@ == before + find_region_spec(*doc, region, lines@.take(i as int)),
            decreases lines@.len() - i,
        {
            find_line(doc, region, lines[i], &mut rects);
            assert(lines@.take(i as int + 1).drop_last() =~= lines@.take(i as int));
            assert(rects@ =~= before + find_region_spec(*doc, region, lines@.take(i as int + 1)));
            i = i + 1;
        }
        assert(lines@.take(i as int) =~= lines@);
        assert(regions@.take(k as int + 1).drop_last() =~= regions@.take(k as int));
        k = k + 1;
    }
    assert(regions@.take(k as int) =~= regions@);
    rects
}

} // verus!
