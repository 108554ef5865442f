//! Integer upscaling of a packed row-major pixel buffer: every source
//! pixel becomes a `scale` by `scale` block in the result. The renderer
//! uses this to blow the framebuffer up to a window-sized image.

use vstd::prelude::*;

verus! {

/// Scales `buffer`, a `width` by `height` row-major image, by the factor
/// `scale` in both directions. In the result, whose rows are `width *
/// scale` pixels long, the pixel at flat index `p` — row `p / (width *
/// scale)`, column `p % (width * scale)` — takes the color of the source
/// pixel at row `row / scale`, column `column / scale`.
pub fn scale_buffer(buffer: &Vec<u32>, width: usize, height: usize, scale: usize) -> (r: Vec<u32>)
    requires
        buffer@.len() == width * height,
        width * height <= usize::MAX,
        scale >= 1,
        width * scale <= usize::MAX,
        height * scale <= usize::MAX,
        (width * scale) * (height * scale) <= usize::MAX,
    ensures
        r@.len() == (width * scale) * (height * scale),
        forall|p: int|
            0 <= p < r@.len() ==> r@[p] == buffer@[((p / ((width * scale) as int)) / (
            scale as int)) * width + (p % ((width * scale) as int)) / (scale as int)],
{
    let sw = width * scale;
    let sh = height * scale;
    let mut r: Vec<u32> = Vec::new();
    let mut sy: usize = 0;
    while sy < sh
        invariant
            sy <= sh,
            sw == width * scale,
            sh == height * scale,
            scale >= 1,
            buffer@.len() == width * height,
            width * height <= usize::MAX,
            sw * sh <= usize::MAX,
            r@.len() == sy * sw,
            forall|p: int|
                0 <= p < r@.len() ==> r@[p] == buffer@[((p / (sw as int)) / (scale as int)) * width
                    + (p % (sw as int)) / (scale as int)],
        decreases sh - sy,
    {
        proof {
            vstd::arithmetic::mul::lemma_mul_is_commutative(sw as int, sh as int);
            vstd::arithmetic::mul::lemma_mul_inequality(sy as int + 1, sh as int, sw as int);
        }
        let mut sx: usize = 0;
        while sx < sw
            invariant
                sx <= sw,
                sy < sh,
                sw == width * scale,
                sh == height * scale,
                scale >= 1,
                buffer@.len() == width * height,
                width * height <= usize::MAX,
                sw * sh <= usize::MAX,
                (sy + 1) * sw <= usize::MAX,
                r@.len() == sy * sw + sx,
                forall|p: int|
                    0 <= p < r@.len() ==> r@[p] == buffer@[((p / (sw as int)) / (scale as int))
                        * width + (p % (sw as int)) / (scale as int)],
            decreases sw - sx,
        {
            proof {
                vstd::arithmetic::mul::lemma_mul_is_commutative(scale as int, height as int);
                vstd::arithmetic::mul::lemma_mul_is_commutative(scale as int, width as int);
                vstd::arithmetic::div_mod::lemma_multiply_divide_lt(
                    sy as int,
                    scale as int,
                    height as int,
                );
                vstd::arithmetic::div_mod::lemma_multiply_divide_lt(
                    sx as int,
                    scale as int,
                    width as int,
                );
                assert(sy as int / (scale as int) <= height as int - 1);
                vstd::arithmetic::mul::lemma_mul_inequality(
                    sy as int / (scale as int),
                    height as int - 1,
                    width as int,
                );
                vstd::arithmetic::mul::lemma_mul_is_distributive_add_other_way(
                    width as int,
                    height as int - 1,
                    1,
                );
                vstd::arithmetic::mul::lemma_mul_basics(width as int);
                vstd::arithmetic::mul::lemma_mul_is_commutative(width as int, height as int);
                assert((sy as int / (scale as int)) * width + width <= height as int * width);
                vstd::arithmetic::mul::lemma_mul_is_distributive_add_other_way(
                    sw as int,
                    sy as int,
                    1,
                );
                vstd::arithmetic::div_mod::lemma_fundamental_div_mod_converse(
                    sy as int * sw as int + sx as int,
                    sw as int,
                    sy as int,
                    sx as int,
                );
            }
            let qy = sy / scale;
            let qx = sx / scale;
            proof {
                assert(qy * (width as int) + qx < (width as int) * (height as int));
            }
            let src = buffer[qy * width + qx];
            r.push(src);
            sx = sx + 1;
        }
        proof {
            vstd::arithmetic::mul::lemma_mul_is_distributive_add_other_way(
                sw as int,
                sy as int,
                1,
            );
        }
        sy = sy + 1;
    }
    proof {
        vstd::arithmetic::mul::lemma_mul_is_commutative(sw as int, sh as int);
    }
    r
}

} // verus!
