//! The SVG document of a rectangle list, and the conversion of a decoded
//! image into one.

use crate::extract::ImageProcessor;
use crate::raster::{decoded_grid, decoded_height, decoded_width, image_height, image_width};
use crate::rectangle::{lemma_element_scale_linear, magnified_element, scaled, Rectangle};
use crate::text::{decimal, push_decimal};
use crate::tiling::greedy_extraction;
use vstd::prelude::*;

verus! {

/// How an image is converted.
#[derive(Debug, Clone, Copy)]
pub struct ConversionOptions {
    /// The factor by which every coordinate and the document's size are
    /// multiplied. Callers keep it between 1 and 1000; whatever it is, the
    /// products are exact.
    pub scale: u32,
    /// The alpha that a pixel must reach to take part in the output.
    pub alpha_threshold: u8,
    /// Has no effect: pixels below the threshold are always left out.
    pub skip_transparent: bool,
    /// Whether the document asks for rendering without smoothing.
    pub crisp_edges: bool,
}

impl Default for ConversionOptions {
    /// Scale 1, threshold 1, transparent pixels left out, crisp edges asked
    /// for.
    fn default() -> (options: ConversionOptions)
        ensures
            options.scale == 1,
            options.alpha_threshold == 1,
            options.skip_transparent,
            options.crisp_edges,
    {
        ConversionOptions { scale: 1, alpha_threshold: 1, skip_transparent: true, crisp_edges: true }
    }
}

/// The XML declaration and the opening `svg` tag of a document of the given
/// size, each on a line of its own.
pub open spec fn svg_header(width: nat, height: nat, crisp_edges: bool) -> Seq<char> {
    ("<?xml version=\"1.0\" encoding=\"UTF-8\"?>"@.push('\n')
        + "<svg version=\"1.1\" width=\""@ + decimal(width) + "\" height=\""@ + decimal(height)
        + "\" xmlns=\"http://www.w3.org/2000/svg\""@ + if crisp_edges {
        " shape-rendering=\"crispEdges\""@
    } else {
        Seq::empty()
    }).push('>').push('\n')
}

/// The elements of the rectangles in their order, each on a line of its own.
pub open spec fn svg_elements(rects: Seq<Rectangle>, scale: u32) -> Seq<char>
    decreases rects.len(),
{
    if rects.len() == 0 {
        Seq::empty()
    } else {
        (svg_elements(rects.drop_last(), scale) + rects.last().svg_text(scale)).push('\n')
    }
}

/// The whole document: header, elements, closing tag and a final newline.
pub open spec fn svg_document(
    rects: Seq<Rectangle>,
    width: u32,
    height: u32,
    options: ConversionOptions,
) -> Seq<char> {
    (svg_header((width * options.scale) as nat, (height * options.scale) as nat, options.crisp_edges)
        + svg_elements(rects, options.scale) + "</svg>"@).push('\n')
}

/// The given texts one after the other, each followed by a newline.
pub open spec fn svg_lines(lines: Seq<Seq<char>>) -> Seq<char>
    decreases lines.len(),
{
    if lines.len() == 0 {
        Seq::empty()
    } else {
        (svg_lines(lines.drop_last()) + lines.last()).push('\n')
    }
}

/// The document of the rectangles over an image of the given size with every
/// number multiplied by `k`: the width and height in the header, and the
/// position and size in each element.
pub open spec fn magnified_document(
    rects: Seq<Rectangle>,
    width: u32,
    height: u32,
    k: nat,
    crisp_edges: bool,
) -> Seq<char> {
    (svg_header((k * width) as nat, (k * height) as nat, crisp_edges) + svg_lines(
        Seq::new(rects.len(), |i: int| magnified_element(rects[i], k)),
    ) + "</svg>"@).push('\n')
}

/// The elements at scale `k` are the lines of the rectangles' elements with
/// every number multiplied by `k`, in the rectangles' order.
pub proof fn lemma_elements_scale_linear(rects: Seq<Rectangle>, k: u32)
    ensures
        svg_elements(rects, k) == svg_lines(
            Seq::new(rects.len(), |i: int| magnified_element(rects[i], k as nat)),
        ),
    decreases rects.len(),
{
    let lines = Seq::new(rects.len(), |i: int| magnified_element(rects[i], k as nat));
    if rects.len() > 0 {
        let front = rects.drop_last();
        lemma_elements_scale_linear(front, k);
        lemma_element_scale_linear(rects.last(), k);
        assert(lines.drop_last() =~= Seq::new(
            front.len(),
            |i: int| magnified_element(front[i], k as nat),
        ));
    }
}

/// The document is linear in the scale. At scale 1 its width and height are
/// those of the image and its elements hold the rectangles' own positions and
/// sizes; at scale `k` every one of these numbers is multiplied by `k`. The
/// elements stay one for each rectangle, in the same order, and nothing else
/// differs.
pub proof fn lemma_document_scale_linear(
    rects: Seq<Rectangle>,
    width: u32,
    height: u32,
    options: ConversionOptions,
)
    ensures
        svg_document(rects, width, height, (ConversionOptions { scale: 1, ..options }))
            == magnified_document(rects, width, height, 1, options.crisp_edges),
        svg_document(rects, width, height, options) == magnified_document(
            rects,
            width,
            height,
            options.scale as nat,
            options.crisp_edges,
        ),
{
    lemma_elements_scale_linear(rects, options.scale);
    lemma_elements_scale_linear(rects, 1);
    assert(width * options.scale == options.scale * width && height * options.scale
        == options.scale * height) by (nonlinear_arith);
}

/// Writes the document that draws the rectangles, in their order, over an
/// image of the given size.
pub fn create_svg(
    rectangles: &[Rectangle],
    width: u32,
    height: u32,
    options: &ConversionOptions,
) -> (svg: String)
    ensures
        svg@ == svg_document(rectangles@, width, height, *options),
{
    let mut svg = String::new();
    svg.append("<?xml version=\"1.0\" encoding=\"UTF-8\"?>");
    svg.push('\n');

    let mut svg_tag = String::new();
    svg_tag.append("<svg version=\"1.1\" width=\"");
    push_decimal(&mut svg_tag, scaled(width, options.scale));
    svg_tag.append("\" height=\"");
    push_decimal(&mut svg_tag, scaled(height, options.scale));
    svg_tag.append("\" xmlns=\"http://www.w3.org/2000/svg\"");
    if options.crisp_edges {
        svg_tag.append(" shape-rendering=\"crispEdges\"");
    }
    svg_tag.push('>');
    svg.append(svg_tag.as_str());
    svg.push('\n');

    let ghost header = svg_header(
        (width * options.scale) as nat,
        (height * options.scale) as nat,
        options.crisp_edges,
    );
    assert(svg@ =~= header);

    let mut i: usize = 0;
    while i < rectangles.len()
        invariant
            i <= rectangles.len(),
            svg@ == header + svg_elements(rectangles@.take(i as int), options.scale),
        decreases rectangles.len() - i,
    {
        let element = rectangles[i].to_svg(options.scale);
        svg.append(element.as_str());
        svg.push('\n');
        proof {
            let next = rectangles@.take(i + 1);
            assert(next.drop_last() =~= rectangles@.take(i as int));
            assert(svg@ =~= header + svg_elements(next, options.scale));
        }
        i += 1;
    }
    assert(rectangles@.take(i as int) =~= rectangles@);

    svg.append("</svg>");
    svg.push('\n');
    assert(svg@ =~= svg_document(rectangles@, width, height, *options));
    svg
}

/// What a conversion gives: the document, and what it was made of.
#[derive(Debug)]
pub struct ConversionResult {
    /// The SVG document.
    pub svg_content: String,
    /// The number of rectangles in the document.
    pub rectangle_count: usize,
    /// The width and height of the image.
    pub image_dimensions: (u32, u32),
}

impl Clone for ConversionResult {
    fn clone(&self) -> (copy: ConversionResult)
        ensures
            copy.svg_content@ == self.svg_content@,
            copy.rectangle_count == self.rectangle_count,
            copy.image_dimensions == self.image_dimensions,
    {
        ConversionResult {
            svg_content: self.svg_content.clone(),
            rectangle_count: self.rectangle_count,
            image_dimensions: (self.image_dimensions.0, self.image_dimensions.1),
        }
    }
}

impl ConversionResult {
    /// The length of the document in bytes, as UTF-8: for text that is all
    /// ASCII, the number of its characters.
    pub fn svg_size_bytes(&self) -> (n: usize)
        ensures
            n == vstd::utf8::encode_utf8(self.svg_content@).len(),
            vstd::utf8::is_ascii_chars(self.svg_content@) ==> n == self.svg_content@.len(),
    {
        proof {
            if vstd::utf8::is_ascii_chars(self.svg_content@) {
                vstd::utf8::is_ascii_chars_encode_utf8(self.svg_content@);
            }
        }
        self.svg_content.as_str().as_bytes().len()
    }
}

/// Converts a decoded image: its pixels that reach the threshold are covered
/// by the rectangles of the greedy extraction, and the document draws these
/// in their order. The same image and options always give the same result.
///
/// No option is checked and nothing can fail: a scale outside 1 to 1000 is
/// used as it is, and `skip_transparent` is not read.
pub fn convert_image_to_svg(
    image: &image::DynamicImage,
    options: ConversionOptions,
) -> (result: ConversionResult)
    ensures
        result.svg_content@ == svg_document(
            greedy_extraction(decoded_grid(*image), options.alpha_threshold),
            decoded_width(*image),
            decoded_height(*image),
            options,
        ),
        result.rectangle_count == greedy_extraction(
            decoded_grid(*image),
            options.alpha_threshold,
        ).len(),
        result.image_dimensions == (decoded_width(*image), decoded_height(*image)),
{
    let width = image_width(image);
    let height = image_height(image);

    let mut processor = ImageProcessor::new(image, options.alpha_threshold);
    let rectangles = processor.extract_rectangles();

    let svg_content = create_svg(rectangles.as_slice(), width, height, &options);

    ConversionResult {
        svg_content,
        rectangle_count: rectangles.len(),
        image_dimensions: (width, height),
    }
}

} // verus!
