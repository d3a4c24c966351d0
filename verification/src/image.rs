//! Pixels of images in the form in which they are drawn.

use vstd::prelude::*;

verus! {

/// The colour channel `value` scaled by the opacity `alpha`.
pub open spec fn premultiplied(value: u8, alpha: u8) -> u8 {
    (value * alpha / 255) as u8
}

/// Byte `j` of a surface with rows of `stride` bytes that shows an image. A pixel of
/// the image is four bytes, red, green, blue and opacity; on the surface it is blue,
/// green and red, scaled by the opacity, and the opacity. Pixels that the image data
/// does not hold in full, and the rest of each row, are 0.
pub open spec fn surface_byte(rgba: Seq<u8>, width: int, stride: int, j: int) -> u8 {
    let y = j / stride;
    let x = (j % stride) / 4;
    let source = (y * width + x) * 4;
    if x < width && source + 3 < rgba.len() {
        let channel = (j % stride) % 4;
        let alpha = rgba[source + 3];
        if channel == 3 {
            alpha
        } else {
            premultiplied(rgba[source + 2 - channel], alpha)
        }
    } else {
        0
    }
}

fn premultiply(value: u8, alpha: u8) -> (r: u8)
    ensures
        r == premultiplied(value, alpha),
{
    assert(0 <= value * alpha <= 255 * 255) by (nonlinear_arith)
        requires
            0 <= value <= 255,
            0 <= alpha <= 255,
    ;
    (value as u32 * alpha as u32 / 255) as u8
}

/// The bytes of a surface with rows of `stride` bytes that shows an image of the given
/// size.
pub fn surface_bytes(rgba: &Vec<u8>, width: u32, height: u32, stride: usize) -> (r: Vec<u8>)
    requires
        width * 4 <= stride,
        stride * height <= usize::MAX,
    ensures
        r@ == Seq::new(
            (stride * height) as nat,
            |j: int| surface_byte(rgba@, width as int, stride as int, j),
        ),
{
    let size: usize = stride * height as usize;
    let mut r: Vec<u8> = Vec::new();
    while r.len() < size
        invariant
            size == stride * height,
            width * 4 <= stride,
            stride * height <= usize::MAX,
            r@.len() <= size,
            forall|j: int|
                0 <= j < r@.len() ==> #[trigger] r@[j] == surface_byte(
                    rgba@,
                    width as int,
                    stride as int,
                    j,
                ),
        decreases size - r@.len(),
    {
        let j = r.len();
        proof {
            row_in_range(j as int, stride as int, height as int, width as int);
        }
        let y = j / stride;
        let column = j % stride;
        let x = column / 4;
        let mut byte: u8 = 0;
        if x < width as usize {
            let source: usize = (y * width as usize + x) * 4;
            if rgba.len() > 3 && source < rgba.len() - 3 {
                let alpha = rgba[source + 3];
                let channel = column % 4;
                byte =
                if channel == 3 {
                    alpha
                } else {
                    premultiply(rgba[source + 2 - channel], alpha)
                };
            }
        }
        r.push(byte);
    }
    assert(r@ =~= Seq::new(
        (stride * height) as nat,
        |j: int| surface_byte(rgba@, width as int, stride as int, j),
    ));
    r
}

/// The place of a byte of a surface, and that its source fits where the surface does.
proof fn row_in_range(j: int, stride: int, height: int, width: int)
    requires
        0 <= j < stride * height,
        0 <= width,
        width * 4 <= stride,
        0 <= height,
    ensures
        0 < stride,
        0 <= j / stride < height,
        0 <= j % stride < stride,
        j == (j / stride) * stride + j % stride,
        0 <= (j / stride) * width,
        (j % stride) / 4 < width ==> ((j / stride) * width + (j % stride) / 4) * 4 <= j,
{
    assert(0 < stride) by (nonlinear_arith)
        requires
            0 <= j < stride * height,
            0 <= height,
            0 <= stride,
    ;
    vstd::arithmetic::div_mod::lemma_fundamental_div_mod(j, stride);
    vstd::arithmetic::div_mod::lemma_mod_bound(j, stride);
    let y = j / stride;
    let c = j % stride;
    assert(j == y * stride + c) by (nonlinear_arith)
        requires
            j == stride * y + c,
    ;
    assert(0 <= y < height) by (nonlinear_arith)
        requires
            0 <= j < stride * height,
            j == y * stride + c,
            0 <= c < stride,
    ;
    assert(0 <= y * width) by (nonlinear_arith)
        requires
            0 <= y,
            0 <= width,
    ;
    assert((y * width) * 4 <= y * stride) by (nonlinear_arith)
        requires
            0 <= y,
            width * 4 <= stride,
    ;
}

/// No colour channel is stronger than the opacity of its pixel.
pub proof fn premultiplied_at_most_alpha(value: u8, alpha: u8)
    ensures
        premultiplied(value, alpha) <= alpha,
{
    assert(0 <= value * alpha <= 255 * alpha) by (nonlinear_arith)
        requires
            0 <= value <= 255,
            0 <= alpha <= 255,
    ;
}

/// A pixel that is opaque keeps its colours, one that is transparent has none.
pub proof fn premultiplied_ends(value: u8)
    ensures
        premultiplied(value, 255) == value,
        premultiplied(value, 0) == 0,
{
}

/// A colour channel is scaled by the opacity, rounded down.
pub proof fn premultiplied_rounds_down(value: u8, alpha: u8)
    ensures
        premultiplied(value, alpha) * 255 <= value * alpha < premultiplied(value, alpha) * 255 + 255,
{
    assert(0 <= value * alpha <= 255 * 255) by (nonlinear_arith)
        requires
            0 <= value <= 255,
            0 <= alpha <= 255,
    ;
}

/// Every pixel that the image holds is on the surface at its row and column: blue, green
/// and red scaled by the opacity, then the opacity.
pub proof fn every_pixel_is_at_its_place(
    rgba: &Vec<u8>,
    width: u32,
    height: u32,
    stride: usize,
    r: Vec<u8>,
    x: int,
    y: int,
)
    requires
        width * 4 <= stride,
        call_ensures(surface_bytes, (rgba, width, height, stride), r),
        0 <= x < width,
        0 <= y < height,
        (y * width + x) * 4 + 3 < rgba@.len(),
    ensures
        ({
            let source = (y * width + x) * 4;
            let place = y * stride + x * 4;
            let alpha = rgba@[source + 3];
            &&& 0 <= place && place + 3 < r@.len()
            &&& r@[place] == rgba@[source + 2] * alpha / 255
            &&& r@[place + 1] == rgba@[source + 1] * alpha / 255
            &&& r@[place + 2] == rgba@[source] * alpha / 255
            &&& r@[place + 3] == alpha
        }),
{
    let s = stride as int;
    let w = width as int;
    let source = (y * width + x) * 4;
    let place = y * stride + x * 4;
    assert(0 <= source) by (nonlinear_arith)
        requires
            0 <= y,
            0 <= width,
            0 <= x,
            source == (y * width + x) * 4,
    ;
    assert(place + 3 < s * height && 0 <= place) by (nonlinear_arith)
        requires
            0 <= y,
            y + 1 <= height,
            0 <= x,
            x + 1 <= width,
            width * 4 <= s,
            place == y * s + x * 4,
    ;
    assert forall|c: int| 0 <= c < 4 implies (#[trigger] (place + c)) / s == y && (place + c) % s == x
        * 4 + c by {
        vstd::arithmetic::div_mod::lemma_fundamental_div_mod_converse(place + c, s, y, x * 4 + c);
    }
    let alpha = rgba@[source + 3];
    assert forall|v: u8| #![trigger premultiplied(v, alpha)] premultiplied(v, alpha) == v * alpha
        / 255 by {
        assert(0 <= v * alpha <= 255 * 255) by (nonlinear_arith)
            requires
                0 <= v <= 255,
                0 <= alpha <= 255,
        ;
    }
    assert((place + 0) / s == y && (place + 0) % s == x * 4);
    assert((place + 1) / s == y && (place + 1) % s == x * 4 + 1);
    assert((place + 2) / s == y && (place + 2) % s == x * 4 + 2);
    assert((place + 3) / s == y && (place + 3) % s == x * 4 + 3);
    assert(r@[place] == surface_byte(rgba@, w, s, place));
    assert(r@[place + 1] == surface_byte(rgba@, w, s, place + 1));
    assert(r@[place + 2] == surface_byte(rgba@, w, s, place + 2));
    assert(r@[place + 3] == surface_byte(rgba@, w, s, place + 3));
    assert(surface_byte(rgba@, w, s, place) == premultiplied(rgba@[source + 2], alpha));
    assert(surface_byte(rgba@, w, s, place + 1) == premultiplied(rgba@[source + 1], alpha));
    assert(surface_byte(rgba@, w, s, place + 2) == premultiplied(rgba@[source], alpha));
}

/// What is no pixel of the image is transparent: the rest of each row, and the pixels that
/// the image data does not hold in full.
pub proof fn the_rest_is_transparent(
    rgba: &Vec<u8>,
    width: u32,
    height: u32,
    stride: usize,
    r: Vec<u8>,
    column: int,
    y: int,
)
    requires
        width * 4 <= stride,
        call_ensures(surface_bytes, (rgba, width, height, stride), r),
        0 <= column < stride,
        0 <= y < height,
        column >= width * 4 || (y * width + column / 4) * 4 + 3 >= rgba@.len(),
    ensures
        r@.len() == stride * height,
        r@[y * stride + column] == 0,
{
    let s = stride as int;
    let place = y * stride + column;
    assert(0 <= place < s * height) by (nonlinear_arith)
        requires
            0 <= y,
            y + 1 <= height,
            0 <= column < s,
            place == y * s + column,
    ;
    vstd::arithmetic::div_mod::lemma_fundamental_div_mod_converse(place, s, y, column);
    assert(r@[place] == surface_byte(rgba@, width as int, s, place));
}

} // verus!
