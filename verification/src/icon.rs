//! The pixels of the icon: colours that do not depend on how much of them is
//! seen.

use vstd::prelude::*;

verus! {

/// A pixel whose colours are scaled by its opacity, without that scaling.
pub uninterp spec fn demultiplied(red: u8, green: u8, blue: u8, alpha: u8) -> (u8, u8, u8, u8);

/// `tiny_skia::PremultipliedColorU8::demultiply`, of the colour that
/// `from_rgba` makes of four numbers, which it does where no colour is more than
/// the opacity: the result depends on the pixel alone, the opacity stays, and an
/// opaque pixel stays as it is.
#[verifier::external_body]
fn demultiply(red: u8, green: u8, blue: u8, alpha: u8) -> (r: (u8, u8, u8, u8))
    requires
        red <= alpha,
        green <= alpha,
        blue <= alpha,
    ensures
        r == demultiplied(red, green, blue, alpha),
        r.3 == alpha,
        alpha == 255 ==> r == (red, green, blue, alpha),
{
    let scaled = resvg::tiny_skia::PremultipliedColorU8::from_rgba(red, green, blue, alpha).unwrap();
    let color = scaled.demultiply();
    (color.red(), color.green(), color.blue(), color.alpha())
}

/// Whether some numbers are pixels, four numbers each, in which no colour is
/// more than the opacity.
pub open spec fn are_pixels(data: Seq<u8>) -> bool {
    &&& data.len() % 4 == 0
    &&& forall|i: int|
        0 <= i < data.len() / 4 ==> #[trigger] is_scaled(data, i)
}

/// Whether no colour of a pixel is more than its opacity.
pub open spec fn is_scaled(data: Seq<u8>, i: int) -> bool {
    &&& data[4 * i] <= data[4 * i + 3]
    &&& data[4 * i + 1] <= data[4 * i + 3]
    &&& data[4 * i + 2] <= data[4 * i + 3]
}

/// A pixel of some numbers.
pub open spec fn pixel(data: Seq<u8>, i: int) -> (u8, u8, u8, u8) {
    (data[4 * i], data[4 * i + 1], data[4 * i + 2], data[4 * i + 3])
}

/// A pixel of some numbers, without the scaling of its colours.
pub open spec fn plain_pixel(data: Seq<u8>, i: int) -> (u8, u8, u8, u8) {
    demultiplied(data[4 * i], data[4 * i + 1], data[4 * i + 2], data[4 * i + 3])
}

/// Pixels without the scaling of their colours.
pub fn demultiply_rgba(data: &Vec<u8>) -> (r: Vec<u8>)
    requires
        are_pixels(data@),
    ensures
        r@.len() == data@.len(),
        forall|i: int|
            0 <= i < data@.len() / 4 ==> #[trigger] pixel(r@, i) == plain_pixel(data@, i),
        forall|i: int|
            0 <= i < data@.len() / 4 && data@[4 * i + 3] == 255 ==> #[trigger] pixel(r@, i)
                == pixel(data@, i),
{
    let mut rgba: Vec<u8> = Vec::new();
    let mut i: usize = 0;
    while i < data.len() / 4
        invariant
            i <= data@.len() / 4,
            are_pixels(data@),
            rgba@.len() == 4 * i,
            forall|j: int| 0 <= j < i ==> #[trigger] pixel(rgba@, j) == plain_pixel(data@, j),
            forall|j: int|
                0 <= j < i && data@[4 * j + 3] == 255 ==> #[trigger] pixel(rgba@, j) == pixel(
                    data@,
                    j,
                ),
        decreases data@.len() / 4 - i,
    {
        let ghost before = rgba@;
        proof {
            assert(is_scaled(data@, i as int));
        }
        let (red, green, blue, alpha): (u8, u8, u8, u8) = demultiply(
            data[4 * i],
            data[4 * i + 1],
            data[4 * i + 2],
            data[4 * i + 3],
        );
        rgba.push(red);
        rgba.push(green);
        rgba.push(blue);
        rgba.push(alpha);
        proof {
            assert forall|j: int| 0 <= j < i implies #[trigger] pixel(rgba@, j) == pixel(
                before,
                j,
            ) by {}
        }
        i = i + 1;
    }
    rgba
}

} // verus!
