//! Rectangles of one color and the SVG element that draws one.

use crate::color::Color;
use crate::text::{
    decimal, lemma_opacity_millis_nearest, opacity_millis, opacity_text, push_decimal,
    push_opacity,
};
use vstd::prelude::*;

verus! {

/// An axis-aligned rectangle of one color: `(x, y)` is its top-left pixel.
#[derive(Debug, Clone, Copy, PartialEq, Eq, Structural)]
pub struct Rectangle {
    pub x: u32,
    pub y: u32,
    pub width: u32,
    pub height: u32,
    pub color: Color,
}

/// The attribute that carries the opacity of a color that is not fully
/// opaque; nothing for alpha 255.
pub open spec fn opacity_attribute(color: Color) -> Seq<char> {
    if color.a != 255 {
        "opacity=\""@ + opacity_text(color.a) + "\" "@
    } else {
        Seq::empty()
    }
}

/// The `rect` element with the given position, size and fill.
pub open spec fn rect_element(x: nat, y: nat, width: nat, height: nat, color: Color) -> Seq<char> {
    "<rect x=\""@ + decimal(x) + "\" y=\""@ + decimal(y) + "\" width=\""@ + decimal(width)
        + "\" height=\""@ + decimal(height) + "\" fill=\"#"@ + color.hex() + "\" "@
        + opacity_attribute(color) + "/>"@
}

/// The product of a coordinate and a scale factor, which always fits 64 bits.
pub fn scaled(value: u32, scale: u32) -> (product: u64)
    ensures
        product == value * scale,
{
    assert(value * scale <= 0xFFFF_FFFF * 0xFFFF_FFFF) by (nonlinear_arith)
        requires
            0 <= value <= 0xFFFF_FFFF,
            0 <= scale <= 0xFFFF_FFFF,
    ;
    (value as u64) * (scale as u64)
}

impl Rectangle {
    /// Whether pixel `(x, y)` lies in the rectangle's footprint.
    pub open spec fn covers(self, x: int, y: int) -> bool {
        self.x <= x < self.x + self.width && self.y <= y < self.y + self.height
    }

    /// The rectangle's element with every coordinate multiplied by `scale`.
    pub open spec fn svg_text(self, scale: u32) -> Seq<char> {
        rect_element(
            (self.x * scale) as nat,
            (self.y * scale) as nat,
            (self.width * scale) as nat,
            (self.height * scale) as nat,
            self.color,
        )
    }

    /// Builds a rectangle from its top-left pixel, its size and its color.
    pub fn new(x: u32, y: u32, width: u32, height: u32, color: Color) -> (r: Rectangle)
        ensures
            r == (Rectangle { x, y, width, height, color }),
    {
        Rectangle { x, y, width, height, color }
    }

    /// The SVG element of the rectangle at the given scale. The products are
    /// exact: they are taken in 64 bits.
    pub fn to_svg(&self, scale: u32) -> (svg: String)
        ensures
            svg@ == self.svg_text(scale),
    {
        let mut svg = String::new();
        svg.append("<rect x=\"");
        push_decimal(&mut svg, scaled(self.x, scale));
        svg.append("\" y=\"");
        push_decimal(&mut svg, scaled(self.y, scale));
        svg.append("\" width=\"");
        push_decimal(&mut svg, scaled(self.width, scale));
        svg.append("\" height=\"");
        push_decimal(&mut svg, scaled(self.height, scale));
        svg.append("\" fill=\"#");
        let hex = self.color.to_hex();
        svg.append(hex.as_str());
        svg.append("\" ");
        if self.color.a != 255 {
            svg.append("opacity=\"");
            push_opacity(&mut svg, self.color.a);
            svg.append("\" ");
        }
        svg.append("/>");
        assert(svg@ =~= self.svg_text(scale));
        svg
    }

    /// The number of pixels in the footprint.
    pub fn area(&self) -> (a: u64)
        ensures
            a == self.width * self.height,
    {
        assert(self.width * self.height <= 0xFFFF_FFFF * 0xFFFF_FFFF) by (nonlinear_arith)
            requires
                0 <= self.width <= 0xFFFF_FFFF,
                0 <= self.height <= 0xFFFF_FFFF,
        ;
        (self.width as u64) * (self.height as u64)
    }
}

/// The element of the rectangle `r` with each of its four numbers
/// multiplied by `k`.
pub open spec fn magnified_element(r: Rectangle, k: nat) -> Seq<char> {
    rect_element(
        (k * r.x) as nat,
        (k * r.y) as nat,
        (k * r.width) as nat,
        (k * r.height) as nat,
        r.color,
    )
}

/// The element is linear in the scale: at scale 1 it holds the rectangle's
/// own position and size, and at scale `k` each of these four numbers is
/// multiplied by `k`, while nothing else differs.
pub proof fn lemma_element_scale_linear(r: Rectangle, k: u32)
    ensures
        r.svg_text(1) == rect_element(
            r.x as nat,
            r.y as nat,
            r.width as nat,
            r.height as nat,
            r.color,
        ),
        r.svg_text(k) == magnified_element(r, k as nat),
{
    assert(r.x * k == k * r.x && r.y * k == k * r.y && r.width * k == k * r.width && r.height * k
        == k * r.height) by (nonlinear_arith);
}

/// A rectangle whose alpha is 255 carries no opacity attribute. Any other
/// carries one, whose value is `alpha / 255` with three decimals: it is off
/// by less than half a thousandth.
pub proof fn lemma_opacity_formatting(color: Color)
    ensures
        color.a == 255 ==> opacity_attribute(color) == Seq::<char>::empty(),
        color.a != 255 ==> opacity_attribute(color) == "opacity=\""@ + opacity_text(color.a)
            + "\" "@,
        -255 < 2 * (255 * opacity_millis(color.a) - 1000 * color.a) < 255,
{
    lemma_opacity_millis_nearest(color.a);
}

} // verus!
