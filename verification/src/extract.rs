//! The greedy scan that covers an image's opaque pixels with rectangles.

use crate::color::Color;
use crate::raster::{decoded_grid, dimensions, get_pixel, to_rgba8, PixelGrid, RgbaBuffer};
use crate::rectangle::Rectangle;
use crate::tiling::{
    covered, greedy_extraction, is_greedy_extraction, is_greedy_rectangle, joins,
    lemma_covered_push, lemma_greedy_extraction_tiles, lemma_greedy_extraction_uniform,
    lemma_is_greedy_extraction, raster_before, span_joins, tiles_opaque_pixels,
    uniformly_colored,
};
use vstd::prelude::*;

verus! {

/// An image together with its coverage grid: one mark for each pixel, set
/// once the pixel lies in an emitted rectangle or was passed over as
/// transparent.
pub struct ImageProcessor {
    image: RgbaBuffer,
    width: u32,
    height: u32,
    processed: Vec<Vec<bool>>,
    alpha_threshold: u8,
}

impl ImageProcessor {
    /// The pixels of the image.
    pub closed spec fn grid(&self) -> PixelGrid {
        self.image@
    }

    /// The alpha below which a pixel counts as transparent.
    pub closed spec fn threshold(&self) -> u8 {
        self.alpha_threshold
    }

    /// Whether the mark of pixel `(x, y)` is set.
    pub closed spec fn marked(&self, x: int, y: int) -> bool {
        self.processed[y][x]
    }

    /// The coverage grid has one mark for each pixel of the image.
    pub closed spec fn wf(&self) -> bool {
        &&& self.width == self.image@.width
        &&& self.height == self.image@.height
        &&& self.processed.len() == self.height
        &&& forall|y: int| 0 <= y < self.height ==> (#[trigger] self.processed[y]).len() == self.width
    }

    /// No mark is set.
    pub open spec fn untouched(&self) -> bool {
        forall|x: int, y: int| self.grid().contains(x, y) ==> !#[trigger] self.marked(x, y)
    }

    /// Every mark is set.
    pub open spec fn finished(&self) -> bool {
        forall|x: int, y: int| self.grid().contains(x, y) ==> #[trigger] self.marked(x, y)
    }

    /// The marks record the rectangles: a pixel that is marked lies in one of
    /// them or is transparent, and each pixel in one of them is marked.
    spec fn records(&self, rects: Seq<Rectangle>) -> bool {
        forall|x: int, y: int|
            #![trigger self.marked(x, y)]
            self.grid().contains(x, y) ==> {
                &&& covered(rects, x, y) ==> self.marked(x, y)
                &&& self.marked(x, y) ==> covered(rects, x, y) || !self.grid().opaque_at(
                    x,
                    y,
                    self.alpha_threshold,
                )
            }
    }

    /// Converts the image to RGBA with eight bits for each channel and gives
    /// it a coverage grid with no mark set.
    pub fn new(image: &image::DynamicImage, alpha_threshold: u8) -> (processor: ImageProcessor)
        ensures
            processor.wf(),
            processor.untouched(),
            processor.grid() == decoded_grid(*image),
            processor.threshold() == alpha_threshold,
    {
        let rgba_image = to_rgba8(image);
        let (width, height) = dimensions(&rgba_image);
        let mut processed: Vec<Vec<bool>> = Vec::new();
        let mut y: u32 = 0;
        while y < height
            invariant
                y <= height,
                processed.len() == y,
                forall|j: int| 0 <= j < y ==> (#[trigger] processed[j]).len() == width,
                forall|i: int, j: int|
                    0 <= j < y && 0 <= i < width ==> !#[trigger] processed[j][i],
            decreases height - y,
        {
            let mut row: Vec<bool> = Vec::new();
            let mut x: u32 = 0;
            while x < width
                invariant
                    x <= width,
                    row.len() == x,
                    forall|i: int| 0 <= i < x ==> !#[trigger] row[i],
                decreases width - x,
            {
                row.push(false);
                x += 1;
            }
            processed.push(row);
            y += 1;
        }
        ImageProcessor { image: rgba_image, width, height, processed, alpha_threshold }
    }

    /// The color of pixel `(x, y)`, unless the pixel lies outside the image
    /// or is transparent.
    fn get_pixel_color(&self, x: u32, y: u32) -> (color: Option<Color>)
        requires
            self.wf(),
        ensures
            color == if self.grid().contains(x as int, y as int) && self.grid().opaque_at(
                x as int,
                y as int,
                self.alpha_threshold,
            ) {
                Some(self.grid().pixel(x as int, y as int))
            } else {
                None
            },
    {
        if x >= self.width || y >= self.height {
            return None;
        }
        let pixel = get_pixel(&self.image, x, y);
        let color = Color::from_rgba(pixel);
        if color.is_transparent(self.alpha_threshold) {
            None
        } else {
            Some(color)
        }
    }

    /// Whether the mark of pixel `(x, y)` is set.
    pub fn is_processed(&self, x: u32, y: u32) -> (marked: bool)
        requires
            self.wf(),
            self.grid().contains(x as int, y as int),
        ensures
            marked == self.marked(x as int, y as int),
    {
        self.processed[y as usize][x as usize]
    }

    /// Sets the mark of every pixel in the rectangle's footprint.
    fn mark_processed(&mut self, rect: &Rectangle)
        requires
            old(self).wf(),
            rect.x + rect.width <= old(self).grid().width,
            rect.y + rect.height <= old(self).grid().height,
        ensures
            final(self).wf(),
            final(self).grid() == old(self).grid(),
            final(self).threshold() == old(self).threshold(),
            forall|x: int, y: int|
                old(self).grid().contains(x, y) ==> (#[trigger] final(self).marked(x, y) <==> old(
                    self,
                ).marked(x, y) || rect.covers(x, y)),
    {
        let mut y: u32 = rect.y;
        while y < rect.y + rect.height
            invariant
                self.wf(),
                self.grid() == old(self).grid(),
                self.threshold() == old(self).threshold(),
                rect.x + rect.width <= self.width,
                rect.y + rect.height <= self.height,
                rect.y <= y <= rect.y + rect.height,
                forall|cx: int, cy: int|
                    self.grid().contains(cx, cy) ==> (#[trigger] self.marked(cx, cy) <==> old(
                        self,
                    ).marked(cx, cy) || (rect.covers(cx, cy) && cy < y)),
            decreases rect.y + rect.height - y,
        {
            let mut x: u32 = rect.x;
            while x < rect.x + rect.width
                invariant
                    self.wf(),
                    self.grid() == old(self).grid(),
                    self.threshold() == old(self).threshold(),
                    rect.x + rect.width <= self.width,
                    rect.y + rect.height <= self.height,
                    rect.y <= y < rect.y + rect.height,
                    rect.x <= x <= rect.x + rect.width,
                    forall|cx: int, cy: int|
                        self.grid().contains(cx, cy) ==> (#[trigger] self.marked(cx, cy) <==> old(
                            self,
                        ).marked(cx, cy) || (rect.covers(cx, cy) && (cy < y || (cy == y && cx
                            < x)))),
                decreases rect.x + rect.width - x,
            {
                self.set_processed(x, y);
                x += 1;
            }
            y += 1;
        }
    }

    /// Sets the mark of pixel `(x, y)`.
    fn set_processed(&mut self, x: u32, y: u32)
        requires
            old(self).wf(),
            old(self).grid().contains(x as int, y as int),
        ensures
            final(self).wf(),
            final(self).grid() == old(self).grid(),
            final(self).threshold() == old(self).threshold(),
            forall|cx: int, cy: int|
                old(self).grid().contains(cx, cy) ==> (#[trigger] final(self).marked(cx, cy) <==> old(
                    self,
                ).marked(cx, cy) || (cx == x && cy == y)),
    {
        self.processed[y as usize][x as usize] = true;
    }

    /// Whether pixel `(x, y)` may join a rectangle of the given color: it is
    /// not marked, not transparent, and has exactly that color.
    fn can_join(
        &self,
        x: u32,
        y: u32,
        color: Color,
        Ghost(earlier): Ghost<Seq<Rectangle>>,
    ) -> (j: bool)
        requires
            self.wf(),
            self.records(earlier),
            color.a >= self.alpha_threshold,
            self.grid().contains(x as int, y as int),
        ensures
            j == joins(self.grid(), earlier, color, x as int, y as int),
    {
        if self.is_processed(x, y) {
            return false;
        }
        match self.get_pixel_color(x, y) {
            Some(pixel_color) => pixel_color == color,
            None => false,
        }
    }

    /// Grows the rectangle of the given color whose top-left pixel is
    /// `(start_x, start_y)`: first to the right along the row, then downwards
    /// with the width found.
    fn find_max_rectangle(
        &self,
        start_x: u32,
        start_y: u32,
        color: Color,
        Ghost(earlier): Ghost<Seq<Rectangle>>,
    ) -> (rect: Rectangle)
        requires
            self.wf(),
            self.records(earlier),
            color.a >= self.alpha_threshold,
            joins(self.grid(), earlier, color, start_x as int, start_y as int),
        ensures
            rect.x == start_x,
            rect.y == start_y,
            rect.color == color,
            rect.x + rect.width <= self.grid().width,
            rect.y + rect.height <= self.grid().height,
            is_greedy_rectangle(self.grid(), self.alpha_threshold, earlier, rect),
    {
        let ghost grid = self.grid();
        let mut max_width: u32 = 0;
        let mut x: u32 = start_x;
        while x < self.width
            invariant
                self.wf(),
                self.records(earlier),
                color.a >= self.alpha_threshold,
                grid == self.grid(),
                start_y < self.height,
                start_x <= x <= self.width,
                max_width == x - start_x,
                span_joins(grid, earlier, color, start_x as int, start_y as int, max_width as int),
            ensures
                start_x + max_width <= self.width,
                span_joins(grid, earlier, color, start_x as int, start_y as int, max_width as int),
                !joins(grid, earlier, color, start_x + max_width, start_y as int),
            decreases self.width - x,
        {
            if !self.can_join(x, start_y, color, Ghost(earlier)) {
                break;
            }
            max_width = x - start_x + 1;
            x += 1;
        }

        let mut max_height: u32 = 0;
        let mut y: u32 = start_y;
        while y < self.height
            invariant
                self.wf(),
                self.records(earlier),
                color.a >= self.alpha_threshold,
                grid == self.grid(),
                max_width >= 1,
                !joins(grid, earlier, color, start_x as int, self.height as int),
                start_x + max_width <= self.width,
                start_y <= y <= self.height,
                max_height == y - start_y,
                forall|cy: int|
                    start_y <= cy < y ==> #[trigger] span_joins(
                        grid,
                        earlier,
                        color,
                        start_x as int,
                        cy,
                        max_width as int,
                    ),
            ensures
                start_y + max_height <= self.height,
                forall|cy: int|
                    start_y <= cy < start_y + max_height ==> #[trigger] span_joins(
                        grid,
                        earlier,
                        color,
                        start_x as int,
                        cy,
                        max_width as int,
                    ),
                !span_joins(
                    grid,
                    earlier,
                    color,
                    start_x as int,
                    start_y + max_height,
                    max_width as int,
                ),
            decreases self.height - y,
        {
            let mut can_extend = true;
            let mut x: u32 = start_x;
            while x < start_x + max_width
                invariant_except_break
                    can_extend,
                    span_joins(grid, earlier, color, start_x as int, y as int, x - start_x),
                invariant
                    self.wf(),
                    self.records(earlier),
                    color.a >= self.alpha_threshold,
                    grid == self.grid(),
                    y < self.height,
                    start_x + max_width <= self.width,
                    start_x <= x <= start_x + max_width,
                ensures
                    can_extend == span_joins(
                        grid,
                        earlier,
                        color,
                        start_x as int,
                        y as int,
                        max_width as int,
                    ),
                decreases start_x + max_width - x,
            {
                if !self.can_join(x, y, color, Ghost(earlier)) {
                    can_extend = false;
                    break;
                }
                x += 1;
            }
            if !can_extend {
                break;
            }
            max_height = y - start_y + 1;
            y += 1;
        }
        Rectangle::new(start_x, start_y, max_width, max_height, color)
    }

    /// Covers the pixels that are not transparent with rectangles. Pixels are
    /// visited row by row from the top and from the left within a row; each
    /// one that is neither marked nor transparent becomes the top-left pixel of
    /// a new rectangle, which is grown, marked and emitted.
    ///
    /// The rectangles are the greedy extraction of the image at the
    /// processor's threshold, of which there is only one. Their footprints
    /// cover exactly the pixels whose alpha reaches the threshold, each pixel
    /// once, and each rectangle has the color of every pixel in its footprint.
    /// In the end every mark is set.
    pub fn extract_rectangles(&mut self) -> (rectangles: Vec<Rectangle>)
        requires
            old(self).wf(),
            old(self).untouched(),
        ensures
            final(self).wf(),
            final(self).grid() == old(self).grid(),
            final(self).threshold() == old(self).threshold(),
            final(self).finished(),
            rectangles@ == greedy_extraction(old(self).grid(), old(self).threshold()),
            is_greedy_extraction(old(self).grid(), old(self).threshold(), rectangles@),
            tiles_opaque_pixels(old(self).grid(), old(self).threshold(), rectangles@),
            uniformly_colored(old(self).grid(), rectangles@),
    {
        let mut rectangles: Vec<Rectangle> = Vec::new();
        let mut y: u32 = 0;
        while y < self.height
            invariant
                self.grid() == old(self).grid(),
                self.threshold() == old(self).threshold(),
                y <= self.height,
                self.scanned(rectangles@, 0, y as int),
            decreases self.height - y,
        {
            let mut x: u32 = 0;
            while x < self.width
                invariant
                    self.grid() == old(self).grid(),
                    self.threshold() == old(self).threshold(),
                    y < self.height,
                    x <= self.width,
                    self.scanned(rectangles@, x as int, y as int),
                decreases self.width - x,
            {
                if !self.is_processed(x, y) {
                    match self.get_pixel_color(x, y) {
                        Some(color) => {
                            let ghost earlier = rectangles@;
                            let rect = self.find_max_rectangle(x, y, color, Ghost(earlier));
                            let ghost before = *self;
                            self.mark_processed(&rect);
                            rectangles.push(rect);
                            proof {
                                before.lemma_scanned_emit(*self, earlier, rect);
                            }
                        },
                        None => {
                            self.set_processed(x, y);
                        },
                    }
                }
                x += 1;
            }
            y += 1;
        }
        proof {
            self.lemma_scanned_all(rectangles@);
            lemma_is_greedy_extraction(self.grid(), self.alpha_threshold, rectangles@);
            lemma_greedy_extraction_tiles(self.grid(), self.alpha_threshold, rectangles@);
            lemma_greedy_extraction_uniform(self.grid(), self.alpha_threshold, rectangles@);
        }
        rectangles
    }

    /// The state of the scan when it stands before pixel `(x, y)`, having
    /// emitted `rects`: the marks record them, each follows the rule given
    /// those before it, their top-left pixels are in raster order and come
    /// before `(x, y)`, and every pixel before `(x, y)` is marked.
    spec fn scanned(&self, rects: Seq<Rectangle>, x: int, y: int) -> bool {
        &&& self.wf()
        &&& self.records(rects)
        &&& forall|i: int|
            #![trigger rects[i]]
            0 <= i < rects.len() ==> {
                &&& is_greedy_rectangle(self.grid(), self.alpha_threshold, rects.take(i), rects[i])
                &&& rects[i].x < self.width
                &&& comes_before(rects[i].x as int, rects[i].y as int, x, y)
            }
        &&& forall|i: int, j: int|
            0 <= i < j < rects.len() ==> raster_before(
                #[trigger] rects[i],
                #[trigger] rects[j],
            )
        &&& forall|px: int, py: int|
            self.grid().contains(px, py) && comes_before(px, py, x, y) ==> #[trigger] self.marked(
                px,
                py,
            )
    }

    /// Once the scan stands after the last row, the rectangles emitted are the
    /// greedy extraction and every mark is set.
    proof fn lemma_scanned_all(self, rects: Seq<Rectangle>)
        requires
            self.scanned(rects, 0, self.height as int),
        ensures
            self.finished(),
            is_greedy_extraction(self.grid(), self.alpha_threshold, rects),
    {
        assert forall|x: int, y: int|
            self.grid().contains(x, y) && #[trigger] self.grid().opaque_at(
                x,
                y,
                self.alpha_threshold,
            ) implies covered(rects, x, y) by {
            assert(self.marked(x, y));
        }
    }

    /// Emitting the rectangle grown at the pixel where the scan stands, and
    /// marking its footprint, moves the scan one pixel on.
    proof fn lemma_scanned_emit(
        self,
        after: ImageProcessor,
        earlier: Seq<Rectangle>,
        rect: Rectangle,
    )
        requires
            self.scanned(earlier, rect.x as int, rect.y as int),
            self.grid().contains(rect.x as int, rect.y as int),
            is_greedy_rectangle(self.grid(), self.alpha_threshold, earlier, rect),
            after.wf(),
            after.grid() == self.grid(),
            after.alpha_threshold == self.alpha_threshold,
            forall|x: int, y: int|
                self.grid().contains(x, y) ==> (#[trigger] after.marked(x, y) <==> self.marked(x, y)
                    || rect.covers(x, y)),
        ensures
            after.scanned(earlier.push(rect), rect.x + 1, rect.y as int),
    {
        let rects = earlier.push(rect);
        assert forall|x: int, y: int|
            #![trigger after.marked(x, y)]
            after.grid().contains(x, y) implies {
            &&& covered(rects, x, y) ==> after.marked(x, y)
            &&& after.marked(x, y) ==> covered(rects, x, y) || !after.grid().opaque_at(
                x,
                y,
                after.alpha_threshold,
            )
        } by {
            lemma_covered_push(earlier, rect, x, y);
        }
        assert forall|i: int| #![trigger rects[i]] 0 <= i < rects.len() implies {
            &&& is_greedy_rectangle(after.grid(), after.alpha_threshold, rects.take(i), rects[i])
            &&& rects[i].x < after.width
            &&& comes_before(rects[i].x as int, rects[i].y as int, rect.x + 1, rect.y as int)
        } by {
            if i < earlier.len() {
                assert(rects.take(i) =~= earlier.take(i));
            } else {
                assert(rects.take(i) =~= earlier);
            }
        }
        assert(rect.covers(rect.x as int, rect.y as int));
    }
}

/// Whether pixel `(px, py)` is visited before pixel `(x, y)`: rows from the
/// top, each row from the left.
pub open spec fn comes_before(px: int, py: int, x: int, y: int) -> bool {
    py < y || (py == y && px < x)
}

} // verus!
