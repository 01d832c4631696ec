use vstd::prelude::*;

verus! {

use vstd::arithmetic::div_mod::{
    lemma_fundamental_div_mod, lemma_fundamental_div_mod_converse, lemma_mod_bound,
};

/// Why a filter refused to touch a buffer.
#[derive(Debug, Clone, Copy, PartialEq, Eq, Structural)]
pub enum ImageError {
    /// The buffer's length is not `width * height * 4`
    /// (for `grayscale`: not a multiple of 4).
    LengthMismatch,
    /// `width` or `height` is below 2, so the image has no interior.
    DegenerateDimension,
}

impl ImageError {
    /// A short human-readable description of the error.
    pub fn message(&self) -> (r: String)
        ensures
            r@ == match *self {
                ImageError::LengthMismatch => "buffer length does not match the image dimensions"@,
                ImageError::DegenerateDimension => "width and height must both be at least 2"@,
            },
    {
        match self {
            ImageError::LengthMismatch => "buffer length does not match the image dimensions".to_owned(),
            ImageError::DegenerateDimension => "width and height must both be at least 2".to_owned(),
        }
    }
}

/// Byte offset of channel `c` of pixel `(x, y)` in a row-major RGBA buffer
/// whose rows are `w` pixels wide.
pub open spec fn pixel_channel(w: int, x: int, y: int, c: int) -> int {
    (y * w + x) * 4 + c
}

/// Channel `c` of pixel `(x, y)` in the buffer `s`, `w` pixels wide.
pub open spec fn sample(s: Seq<u8>, w: int, x: int, y: int, c: int) -> u8 {
    s[pixel_channel(w, x, y, c)]
}

/// Whether byte `i` of a `w` × `h` buffer belongs to a pixel on the
/// outermost row or column.
pub open spec fn is_border(w: int, h: int, i: int) -> bool {
    let p = i / 4;
    let x = p % w;
    let y = p / w;
    x == 0 || x == w - 1 || y == 0 || y == h - 1
}

/// Checks that a `width` × `height` buffer has an interior and that `len`
/// is exactly `width * height * 4`.
pub(crate) fn check_dimensions(len: usize, width: usize, height: usize) -> (r: Result<(), ImageError>)
    ensures
        r == Err::<(), ImageError>(ImageError::DegenerateDimension) <==> width < 2 || height < 2,
        r == Err::<(), ImageError>(ImageError::LengthMismatch) <==> width >= 2 && height >= 2
            && len != width * height * 4,
        r is Ok <==> width >= 2 && height >= 2 && len == width * height * 4,
{
    if width < 2 || height < 2 {
        return Err(ImageError::DegenerateDimension);
    }
    match width.checked_mul(height) {
        Some(pixels) => match pixels.checked_mul(4) {
            Some(bytes) => {
                if bytes == len {
                    Ok(())
                } else {
                    Err(ImageError::LengthMismatch)
                }
            },
            None => Err(ImageError::LengthMismatch),
        },
        None => {
            assert(width * height * 4 > usize::MAX) by (nonlinear_arith)
                requires width * height > usize::MAX;
            Err(ImageError::LengthMismatch)
        },
    }
}

/// Reads channel `c` of pixel `(x, y)` from a `w` × `h` buffer.
pub(crate) fn read_channel(s: &Vec<u8>, w: usize, h: usize, x: usize, y: usize, c: usize) -> (v: u8)
    requires
        s@.len() == w * h * 4,
        x < w,
        y < h,
        c < 4,
    ensures
        v == sample(s@, w as int, x as int, y as int, c as int),
{
    proof {
        lemma_pixel_channel_inverse(w as int, h as int, x as int, y as int, c as int);
    }
    let n = s.len();
    assert((y * w + x) * 4 + c < n);
    s[(y * w + x) * 4 + c]
}

/// For byte `i < w * h * 4`, its pixel `(x, y)` and channel `c` satisfy
/// `i == pixel_channel(w, x, y, c)` with `x < w`, `y < h`, `c < 4`.
pub(crate) proof fn lemma_decompose(w: int, h: int, i: int)
    requires
        w > 0,
        h > 0,
        0 <= i < w * h * 4,
    ensures
        ({
            let p = i / 4;
            let x = p % w;
            let y = p / w;
            let c = i % 4;
            &&& 0 <= x < w
            &&& 0 <= y < h
            &&& 0 <= c < 4
            &&& i == pixel_channel(w, x, y, c)
        }),
{
    let p = i / 4;
    let x = p % w;
    let y = p / w;
    let c = i % 4;
    lemma_fundamental_div_mod(i, 4);
    lemma_fundamental_div_mod(p, w);
    lemma_mod_bound(p, w);
    assert(p == y * w + x) by (nonlinear_arith) requires p == w * y + x;
    assert(p < w * h) by (nonlinear_arith) requires i == p * 4 + c, 0 <= c < 4, i < w * h * 4, p >= 0;
    assert(y < h) by (nonlinear_arith) requires p == y * w + x, 0 <= x, p < w * h, w > 0;
    assert(y >= 0) by (nonlinear_arith) requires w > 0, y == p / w, p >= 0;
}

/// The byte offset of channel `c` of pixel `(x, y)` lies in the buffer and
/// decomposes back into `x`, `y` and `c`.
pub(crate) proof fn lemma_pixel_channel_inverse(w: int, h: int, x: int, y: int, c: int)
    requires
        0 <= x < w,
        0 <= y < h,
        0 <= c < 4,
    ensures
        ({
            let i = pixel_channel(w, x, y, c);
            &&& 0 <= i < w * h * 4
            &&& i % 4 == c
            &&& i / 4 == y * w + x
            &&& (i / 4) % w == x
            &&& (i / 4) / w == y
        }),
{
    let p = y * w + x;
    let i = p * 4 + c;
    assert(0 <= y * w) by (nonlinear_arith) requires 0 <= y, 0 <= w;
    assert(y * w <= (h - 1) * w) by (nonlinear_arith) requires 0 <= y <= h - 1, 0 <= w;
    assert((h - 1) * w == h * w - w) by (nonlinear_arith);
    assert(h * w == w * h) by (nonlinear_arith);
    lemma_fundamental_div_mod_converse(i, 4, p, c);
    assert(p == y * w + x);
    lemma_fundamental_div_mod_converse(p, w, y, x);
}

} // verus!
