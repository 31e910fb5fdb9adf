//! What a greedy extraction is: the rule that fixes each rectangle, and the
//! properties of the rectangles that follow from it.

use crate::color::Color;
use crate::raster::PixelGrid;
use crate::rectangle::Rectangle;
use vstd::prelude::*;

verus! {

/// Whether some rectangle of the sequence has `(x, y)` in its footprint.
pub open spec fn covered(rects: Seq<Rectangle>, x: int, y: int) -> bool {
    exists|i: int| 0 <= i < rects.len() && #[trigger] rects[i].covers(x, y)
}

/// Whether pixel `(x, y)` may join a rectangle of the given color: it lies in
/// the grid, no earlier rectangle holds it, and it has exactly that color.
pub open spec fn joins(
    grid: PixelGrid,
    earlier: Seq<Rectangle>,
    color: Color,
    x: int,
    y: int,
) -> bool {
    grid.contains(x, y) && !covered(earlier, x, y) && grid.pixel(x, y) == color
}

/// Whether each of the `width` pixels of row `y` from column `x` on may join.
pub open spec fn span_joins(
    grid: PixelGrid,
    earlier: Seq<Rectangle>,
    color: Color,
    x: int,
    y: int,
    width: int,
) -> bool {
    forall|cx: int| x <= cx < x + width ==> #[trigger] joins(grid, earlier, color, cx, y)
}

/// The rule for one rectangle, given those emitted before it. Its color
/// reaches the threshold. Its width is the run of joining pixels along the
/// row of its top-left pixel: the pixel after the run does not join. Its
/// height is the number of rows, from that row down, in which the whole run
/// of columns joins: in the row after them some pixel of the run does not.
pub open spec fn is_greedy_rectangle(
    grid: PixelGrid,
    threshold: u8,
    earlier: Seq<Rectangle>,
    r: Rectangle,
) -> bool {
    &&& r.color.a >= threshold
    &&& r.width >= 1
    &&& r.height >= 1
    &&& forall|cy: int|
        r.y <= cy < r.y + r.height ==> #[trigger] span_joins(
            grid,
            earlier,
            r.color,
            r.x as int,
            cy,
            r.width as int,
        )
    &&& !joins(grid, earlier, r.color, r.x + r.width, r.y as int)
    &&& !span_joins(grid, earlier, r.color, r.x as int, r.y + r.height, r.width as int)
}

/// Whether the top-left pixel of `a` comes before that of `b` when rows are
/// read from the top and each row from the left.
pub open spec fn raster_before(a: Rectangle, b: Rectangle) -> bool {
    a.y < b.y || (a.y == b.y && a.x < b.x)
}

/// The rectangles of a greedy extraction: each follows the rule given those
/// before it, their top-left pixels come in raster order, and no pixel of the
/// grid whose alpha reaches the threshold is left out.
pub open spec fn is_greedy_extraction(
    grid: PixelGrid,
    threshold: u8,
    rects: Seq<Rectangle>,
) -> bool {
    &&& forall|i: int|
        #![trigger rects[i]]
        0 <= i < rects.len() ==> is_greedy_rectangle(grid, threshold, rects.take(i), rects[i])
    &&& forall|i: int, j: int|
        0 <= i < j < rects.len() ==> raster_before(#[trigger] rects[i], #[trigger] rects[j])
    &&& forall|x: int, y: int|
        grid.contains(x, y) && #[trigger] grid.opaque_at(x, y, threshold) ==> covered(rects, x, y)
}

/// The greedy extraction of a grid at a threshold. There is one for every
/// grid whose dimensions fit 32 bits, and never more than one.
pub open spec fn greedy_extraction(grid: PixelGrid, threshold: u8) -> Seq<Rectangle> {
    choose|rects: Seq<Rectangle>| is_greedy_extraction(grid, threshold, rects)
}

/// The footprints cover exactly the pixels of the grid whose alpha reaches
/// the threshold, and no pixel lies in two of them.
pub open spec fn tiles_opaque_pixels(
    grid: PixelGrid,
    threshold: u8,
    rects: Seq<Rectangle>,
) -> bool {
    &&& forall|x: int, y: int|
        grid.contains(x, y) && #[trigger] grid.opaque_at(x, y, threshold) ==> covered(rects, x, y)
    &&& forall|i: int, x: int, y: int|
        0 <= i < rects.len() && #[trigger] rects[i].covers(x, y) ==> grid.contains(x, y)
            && grid.opaque_at(x, y, threshold)
    &&& forall|i: int, j: int, x: int, y: int|
        0 <= i < rects.len() && 0 <= j < rects.len() && #[trigger] rects[i].covers(x, y)
            && #[trigger] rects[j].covers(x, y) ==> i == j
}

/// Every pixel in a footprint has the color of its rectangle, in all four
/// channels.
pub open spec fn uniformly_colored(grid: PixelGrid, rects: Seq<Rectangle>) -> bool {
    forall|i: int, x: int, y: int|
        0 <= i < rects.len() && #[trigger] rects[i].covers(x, y) ==> grid.pixel(x, y)
            == rects[i].color
}

/// One more rectangle covers what the others covered and its own footprint.
pub proof fn lemma_covered_push(rects: Seq<Rectangle>, r: Rectangle, x: int, y: int)
    ensures
        covered(rects.push(r), x, y) <==> covered(rects, x, y) || r.covers(x, y),
{
    let more = rects.push(r);
    if covered(rects, x, y) {
        let i = choose|i: int| 0 <= i < rects.len() && #[trigger] rects[i].covers(x, y);
        assert(more[i].covers(x, y));
    }
    if r.covers(x, y) {
        assert(more[rects.len() as int].covers(x, y));
    }
    if covered(more, x, y) {
        let i = choose|i: int| 0 <= i < more.len() && #[trigger] more[i].covers(x, y);
        if i < rects.len() {
            assert(rects[i].covers(x, y));
        }
    }
}

/// Each pixel in the footprint of a rectangle of a greedy extraction joined
/// it: no earlier rectangle holds the pixel, and the pixel has the
/// rectangle's color.
pub proof fn lemma_footprint_joins(
    grid: PixelGrid,
    threshold: u8,
    rects: Seq<Rectangle>,
    i: int,
    x: int,
    y: int,
)
    requires
        is_greedy_extraction(grid, threshold, rects),
        0 <= i < rects.len(),
        rects[i].covers(x, y),
    ensures
        joins(grid, rects.take(i), rects[i].color, x, y),
{
    let r = rects[i];
    assert(span_joins(grid, rects.take(i), r.color, r.x as int, y, r.width as int));
}

/// The rectangles of a greedy extraction tile the pixels whose alpha reaches
/// the threshold: together with the pixels below the threshold, their
/// footprints make up the grid, each pixel once. A pixel below the threshold
/// lies in no footprint.
pub proof fn lemma_greedy_extraction_tiles(grid: PixelGrid, threshold: u8, rects: Seq<Rectangle>)
    requires
        is_greedy_extraction(grid, threshold, rects),
    ensures
        tiles_opaque_pixels(grid, threshold, rects),
{
    assert forall|i: int, x: int, y: int|
        0 <= i < rects.len() && #[trigger] rects[i].covers(x, y) implies grid.contains(x, y)
        && grid.opaque_at(x, y, threshold) by {
        lemma_footprint_joins(grid, threshold, rects, i, x, y);
    }
    assert forall|i: int, j: int, x: int, y: int|
        0 <= i < rects.len() && 0 <= j < rects.len() && #[trigger] rects[i].covers(x, y)
            && #[trigger] rects[j].covers(x, y) implies i == j by {
        if i < j {
            lemma_footprint_joins(grid, threshold, rects, j, x, y);
            assert(rects.take(j)[i].covers(x, y));
        }
        if j < i {
            lemma_footprint_joins(grid, threshold, rects, i, x, y);
            assert(rects.take(i)[j].covers(x, y));
        }
    }
}

/// A pixel whose alpha lies below the threshold is in the footprint of no
/// rectangle of a greedy extraction.
pub proof fn lemma_transparent_pixels_excluded(
    grid: PixelGrid,
    threshold: u8,
    rects: Seq<Rectangle>,
    x: int,
    y: int,
)
    requires
        is_greedy_extraction(grid, threshold, rects),
        grid.pixel(x, y).a < threshold,
    ensures
        !covered(rects, x, y),
{
    lemma_greedy_extraction_tiles(grid, threshold, rects);
}

/// Each rectangle of a greedy extraction is of one color: every pixel in its
/// footprint has its color in all four channels.
pub proof fn lemma_greedy_extraction_uniform(grid: PixelGrid, threshold: u8, rects: Seq<Rectangle>)
    requires
        is_greedy_extraction(grid, threshold, rects),
    ensures
        uniformly_colored(grid, rects),
{
    assert forall|i: int, x: int, y: int|
        0 <= i < rects.len() && #[trigger] rects[i].covers(x, y) implies grid.pixel(x, y)
        == rects[i].color by {
        lemma_footprint_joins(grid, threshold, rects, i, x, y);
    }
}

/// A pixel that reaches the threshold and lies in none of the first `i`
/// rectangles of a greedy extraction is still to be covered: the `i`-th
/// rectangle exists, and its top-left pixel is that pixel or comes before it
/// in raster order.
proof fn lemma_cover_from(
    grid: PixelGrid,
    threshold: u8,
    rects: Seq<Rectangle>,
    i: int,
    x: int,
    y: int,
)
    requires
        is_greedy_extraction(grid, threshold, rects),
        0 <= i <= rects.len(),
        grid.contains(x, y),
        grid.opaque_at(x, y, threshold),
        !covered(rects.take(i), x, y),
    ensures
        i < rects.len(),
        rects[i].y < y || (rects[i].y == y && rects[i].x <= x),
{
    assert(covered(rects, x, y));
    let k = choose|k: int| 0 <= k < rects.len() && #[trigger] rects[k].covers(x, y);
    if k < i {
        assert(rects.take(i)[k].covers(x, y));
    }
    if i < k {
        assert(raster_before(rects[i], rects[k]));
    }
}

/// Two rectangles that follow the rule from the same top-left pixel, given
/// the same earlier rectangles, are the same rectangle.
proof fn lemma_greedy_rectangle_unique(
    grid: PixelGrid,
    threshold: u8,
    earlier: Seq<Rectangle>,
    a: Rectangle,
    b: Rectangle,
)
    requires
        is_greedy_rectangle(grid, threshold, earlier, a),
        is_greedy_rectangle(grid, threshold, earlier, b),
        a.x == b.x,
        a.y == b.y,
    ensures
        a == b,
{
    assert(span_joins(grid, earlier, a.color, a.x as int, a.y as int, a.width as int));
    assert(span_joins(grid, earlier, b.color, b.x as int, b.y as int, b.width as int));
    assert(joins(grid, earlier, a.color, a.x as int, a.y as int));
    assert(joins(grid, earlier, b.color, b.x as int, b.y as int));
    if a.width < b.width {
        assert(joins(grid, earlier, b.color, a.x + a.width, a.y as int));
    }
    if b.width < a.width {
        assert(joins(grid, earlier, a.color, b.x + b.width, b.y as int));
    }
    if a.height < b.height {
        assert(span_joins(grid, earlier, b.color, b.x as int, a.y + a.height, b.width as int));
    }
    if b.height < a.height {
        assert(span_joins(grid, earlier, a.color, a.x as int, b.y + b.height, a.width as int));
    }
}

/// Two greedy extractions of one grid at one threshold agree on their first
/// `n` rectangles.
proof fn lemma_greedy_prefix_unique(
    grid: PixelGrid,
    threshold: u8,
    a: Seq<Rectangle>,
    b: Seq<Rectangle>,
    n: nat,
)
    requires
        is_greedy_extraction(grid, threshold, a),
        is_greedy_extraction(grid, threshold, b),
        n <= a.len(),
    ensures
        n <= b.len(),
        a.take(n as int) == b.take(n as int),
    decreases n,
{
    if n == 0 {
        assert(a.take(0) =~= b.take(0));
    } else {
        let i = (n - 1) as int;
        lemma_greedy_prefix_unique(grid, threshold, a, b, i as nat);
        let earlier = a.take(i);
        let ra = a[i];
        lemma_footprint_joins(grid, threshold, a, i, ra.x as int, ra.y as int);
        lemma_cover_from(grid, threshold, b, i, ra.x as int, ra.y as int);
        let rb = b[i];
        lemma_footprint_joins(grid, threshold, b, i, rb.x as int, rb.y as int);
        lemma_cover_from(grid, threshold, a, i, rb.x as int, rb.y as int);
        lemma_greedy_rectangle_unique(grid, threshold, earlier, ra, rb);
        assert(a.take(n as int) =~= a.take(i).push(ra));
        assert(b.take(n as int) =~= b.take(i).push(rb));
    }
}

/// A grid and a threshold have one greedy extraction only: the rule leaves no
/// choice, so the same pixels and the same threshold always give the same
/// rectangles in the same order.
pub proof fn lemma_greedy_extraction_unique(
    grid: PixelGrid,
    threshold: u8,
    a: Seq<Rectangle>,
    b: Seq<Rectangle>,
)
    requires
        is_greedy_extraction(grid, threshold, a),
        is_greedy_extraction(grid, threshold, b),
    ensures
        a == b,
{
    lemma_greedy_prefix_unique(grid, threshold, a, b, a.len());
    lemma_greedy_prefix_unique(grid, threshold, b, a, b.len());
    assert(a.take(a.len() as int) =~= a);
    assert(b.take(b.len() as int) =~= b);
}

/// Whatever satisfies the rule is the greedy extraction.
pub proof fn lemma_is_greedy_extraction(grid: PixelGrid, threshold: u8, rects: Seq<Rectangle>)
    requires
        is_greedy_extraction(grid, threshold, rects),
    ensures
        rects == greedy_extraction(grid, threshold),
{
    lemma_greedy_extraction_unique(grid, threshold, rects, greedy_extraction(grid, threshold));
}

/// A grid in which no pixel reaches the threshold has no rectangle.
pub proof fn lemma_transparent_grid_extraction(grid: PixelGrid, threshold: u8)
    requires
        forall|x: int, y: int| grid.contains(x, y) ==> !#[trigger] grid.opaque_at(x, y, threshold),
    ensures
        greedy_extraction(grid, threshold) == Seq::<Rectangle>::empty(),
{
    lemma_is_greedy_extraction(grid, threshold, Seq::<Rectangle>::empty());
}

/// A grid of one color that reaches the threshold has one rectangle: the
/// whole grid.
pub proof fn lemma_uniform_grid_extraction(grid: PixelGrid, threshold: u8, whole: Rectangle)
    requires
        whole.x == 0,
        whole.y == 0,
        whole.width == grid.width >= 1,
        whole.height == grid.height >= 1,
        whole.color.a >= threshold,
        forall|x: int, y: int| grid.contains(x, y) ==> #[trigger] grid.pixel(x, y) == whole.color,
    ensures
        greedy_extraction(grid, threshold) == seq![whole],
{
    let rects = seq![whole];
    let none = rects.take(0);
    assert forall|x: int, y: int| grid.contains(x, y) implies #[trigger] joins(
        grid,
        none,
        whole.color,
        x,
        y,
    ) by {
        assert(grid.pixel(x, y) == whole.color);
    }
    assert(!joins(grid, none, whole.color, 0, grid.height as int));
    assert forall|x: int, y: int|
        grid.contains(x, y) && #[trigger] grid.opaque_at(x, y, threshold) implies covered(
        rects,
        x,
        y,
    ) by {
        assert(rects[0].covers(x, y));
    }
    lemma_is_greedy_extraction(grid, threshold, rects);
}

} // verus!
