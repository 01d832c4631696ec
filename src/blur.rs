use vstd::prelude::*;

verus! {

use crate::layout::{
    ImageError, check_dimensions, is_border, lemma_decompose, lemma_pixel_channel_inverse, pixel_channel,
    read_channel, sample,
};
use vstd::slice::slice_to_vec;

/// Sum of channel `c` over the 3×3 neighbourhood centred on `(x, y)`.
pub open spec fn box_sum(s: Seq<u8>, w: int, x: int, y: int, c: int) -> int {
    sample(s, w, x - 1, y - 1, c) + sample(s, w, x, y - 1, c) + sample(s, w, x + 1, y - 1, c)
        + sample(s, w, x - 1, y, c) + sample(s, w, x, y, c) + sample(s, w, x + 1, y, c)
        + sample(s, w, x - 1, y + 1, c) + sample(s, w, x, y + 1, c) + sample(s, w, x + 1, y + 1, c)
}

/// Unweighted mean of the 3×3 neighbourhood, truncated toward zero.
pub open spec fn box_mean(s: Seq<u8>, w: int, x: int, y: int, c: int) -> u8 {
    (box_sum(s, w, x, y, c) / 9) as u8
}

/// The `w` × `h` buffer `s` after a box blur: each R, G, B byte of an
/// interior pixel is the mean of its neighbourhood in `s`; Alpha bytes and
/// border pixels are carried over.
pub open spec fn blurred(s: Seq<u8>, w: int, h: int) -> Seq<u8> {
    Seq::new(
        s.len(),
        |i: int|
            {
                let p = i / 4;
                if i % 4 == 3 || is_border(w, h, i) {
                    s[i]
                } else {
                    box_mean(s, w, p % w, p / w, i % 4)
                }
            },
    )
}

/// Blurs the interior of a `width` × `height` RGBA buffer in place with a
/// 3×3 box kernel, reading every neighbour from a snapshot of the input.
///
/// Fails, leaving the buffer as it was, with `DegenerateDimension` when either
/// dimension is below 2, else with `LengthMismatch` when the buffer is not
/// `width * height * 4` bytes long.
pub fn blur(data: &mut [u8], width: usize, height: usize) -> (r: Result<(), ImageError>)
    ensures
        r == Err::<(), ImageError>(ImageError::DegenerateDimension) <==> width < 2 || height < 2,
        r == Err::<(), ImageError>(ImageError::LengthMismatch) <==> width >= 2 && height >= 2
            && old(data)@.len() != width * height * 4,
        r is Ok ==> final(data)@ == blurred(old(data)@, width as int, height as int),
        r is Err ==> final(data)@ == old(data)@,
{
    check_dimensions(data.len(), width, height)?;
    let snapshot = slice_to_vec(data);
    let ghost src = data@;
    let ghost target = blurred(src, width as int, height as int);
    let len = data.len();
    let mut i: usize = 0;
    while i < len
        invariant
            len == src.len(),
            len == width * height * 4,
            width >= 2,
            height >= 2,
            data@.len() == len,
            snapshot@ == src,
            target == blurred(src, width as int, height as int),
            i <= len,
            forall|j: int| 0 <= j < i ==> data@[j] == target[j],
            forall|j: int| i <= j < len ==> data@[j] == src[j],
        decreases len - i,
    {
        proof {
            lemma_decompose(width as int, height as int, i as int);
        }
        let p = i / 4;
        let c = i % 4;
        let x = p % width;
        let y = p / width;
        if c != 3 && x != 0 && x != width - 1 && y != 0 && y != height - 1 {
            let sum: u32 = read_channel(&snapshot, width, height, x - 1, y - 1, c) as u32
                + read_channel(&snapshot, width, height, x, y - 1, c) as u32
                + read_channel(&snapshot, width, height, x + 1, y - 1, c) as u32
                + read_channel(&snapshot, width, height, x - 1, y, c) as u32
                + read_channel(&snapshot, width, height, x, y, c) as u32
                + read_channel(&snapshot, width, height, x + 1, y, c) as u32
                + read_channel(&snapshot, width, height, x - 1, y + 1, c) as u32
                + read_channel(&snapshot, width, height, x, y + 1, c) as u32
                + read_channel(&snapshot, width, height, x + 1, y + 1, c) as u32;
            data[i] = (sum / 9) as u8;
        }
        i = i + 1;
    }
    assert(data@ =~= target);
    Ok(())
}

/// A box blur keeps every Alpha byte.
pub proof fn lemma_blur_keeps_alpha(s: Seq<u8>, w: int, h: int, i: int)
    requires
        0 <= i < s.len(),
        i % 4 == 3,
    ensures
        blurred(s, w, h)[i] == s[i],
{
}

/// A box blur keeps every byte of every border pixel.
pub proof fn lemma_blur_keeps_border(s: Seq<u8>, w: int, h: int, x: int, y: int, c: int)
    requires
        w >= 2,
        h >= 2,
        s.len() == w * h * 4,
        0 <= x < w,
        0 <= y < h,
        0 <= c < 4,
        x == 0 || x == w - 1 || y == 0 || y == h - 1,
    ensures
        blurred(s, w, h)[pixel_channel(w, x, y, c)]
            == sample(s, w, x, y, c),
{
    lemma_pixel_channel_inverse(w, h, x, y, c);
}

} // verus!
