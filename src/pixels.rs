use vstd::prelude::*;

verus! {

/// One RGBA pixel, a byte per channel.
#[derive(Debug, Clone, Copy, PartialEq, Eq, Structural)]
pub struct PixelValue {
    pub r: u8,
    pub g: u8,
    pub b: u8,
    pub a: u8,
}

/// The pixel held by the four bytes of `bytes` from `4 * i` on.
pub open spec fn pixel_at(bytes: Seq<u8>, i: int) -> PixelValue {
    PixelValue { r: bytes[4 * i], g: bytes[4 * i + 1], b: bytes[4 * i + 2], a: bytes[4 * i + 3] }
}

/// Writes `mapping_function` of every cell into `pixels` as four bytes, red,
/// green, blue, alpha, in the order of the cells.
pub fn map_field_to_pixels<C, F: Fn(&C) -> PixelValue>(
    field: &[C],
    pixels: &mut [u8],
    mapping_function: F,
)
    requires
        old(pixels)@.len() == 4 * field@.len(),
        forall|c: &C| mapping_function.requires((c,)),
    ensures
        final(pixels)@.len() == old(pixels)@.len(),
        forall|i: int|
            0 <= i < field@.len() ==> mapping_function.ensures(
                (&field@[i],),
                #[trigger] pixel_at(final(pixels)@, i),
            ),
{
    let n = field.len();
    let m = pixels.len();
    let mut i: usize = 0;
    while i < n
        invariant
            n == field@.len(),
            pixels@.len() == 4 * n,
            m == pixels@.len(),
            i <= n,
            forall|c: &C| mapping_function.requires((c,)),
            forall|j: int|
                0 <= j < i ==> mapping_function.ensures(
                    (&field@[j],),
                    #[trigger] pixel_at(pixels@, j),
                ),
        decreases n - i,
    {
        let pixel = mapping_function(&field[i]);
        let ghost before = pixels@;
        pixels[4 * i] = pixel.r;
        pixels[4 * i + 1] = pixel.g;
        pixels[4 * i + 2] = pixel.b;
        pixels[4 * i + 3] = pixel.a;
        assert(pixel_at(pixels@, i as int) == pixel);
        assert forall|j: int| 0 <= j < i implies #[trigger] pixel_at(pixels@, j) == pixel_at(
            before,
            j,
        ) by {}
        i += 1;
    }
}

} // verus!
