use vstd::prelude::*;

verus! {

use crate::layout::ImageError;

/// Luma of one pixel, `0.299 R + 0.587 G + 0.114 B`, truncated toward zero.
/// The weights are kept in thousandths, so the value is exact.
pub open spec fn luma_of(r: u8, g: u8, b: u8) -> u8 {
    ((299 * r + 587 * g + 114 * b) / 1000) as u8
}

/// The buffer after every pixel's R, G and B have been set to its luma;
/// Alpha bytes are carried over.
pub open spec fn grayscale_of(s: Seq<u8>) -> Seq<u8> {
    Seq::new(
        s.len(),
        |i: int|
            if i % 4 == 3 {
                s[i]
            } else {
                let base = i - i % 4;
                luma_of(s[base], s[base + 1], s[base + 2])
            },
    )
}

/// Truncated luma of the colour `(r, g, b)`.
pub fn luma(r: u8, g: u8, b: u8) -> (l: u8)
    ensures
        l == luma_of(r, g, b),
{
    let weighted: u32 = 299 * (r as u32) + 587 * (g as u32) + 114 * (b as u32);
    (weighted / 1000) as u8
}

/// Replaces R, G and B of each pixel with its luma, in place.
pub(crate) fn apply_grayscale(data: &mut [u8])
    requires
        old(data)@.len() % 4 == 0,
    ensures
        final(data)@ == grayscale_of(old(data)@),
{
    let ghost src = data@;
    let len = data.len();
    let mut i: usize = 0;
    while i < len
        invariant
            len == src.len(),
            data@.len() == len,
            i % 4 == 0,
            i <= len,
            len % 4 == 0,
            forall|j: int| 0 <= j < i ==> data@[j] == grayscale_of(src)[j],
            forall|j: int| i <= j < len ==> data@[j] == src[j],
        decreases len - i,
    {
        let l = luma(data[i], data[i + 1], data[i + 2]);
        data[i] = l;
        data[i + 1] = l;
        data[i + 2] = l;
        i = i + 4;
    }
    assert(data@ =~= grayscale_of(src));
}

/// Converts every pixel of an RGBA buffer to gray: R, G and B become the
/// pixel's truncated luma and Alpha is kept.
///
/// Fails with `LengthMismatch`, leaving the buffer as it was, when the
/// length is not a whole number of pixels.
pub fn grayscale(data: &mut [u8]) -> (r: Result<(), ImageError>)
    ensures
        r is Ok <==> old(data)@.len() % 4 == 0,
        r is Ok ==> final(data)@ == grayscale_of(old(data)@),
        r is Err ==> r == Err::<(), ImageError>(ImageError::LengthMismatch)
            && final(data)@ == old(data)@,
{
    if data.len() % 4 != 0 {
        return Err(ImageError::LengthMismatch);
    }
    apply_grayscale(data);
    Ok(())
}

/// Graying an already gray buffer changes nothing.
pub proof fn lemma_grayscale_idempotent(s: Seq<u8>)
    requires
        s.len() % 4 == 0,
    ensures
        grayscale_of(grayscale_of(s)) == grayscale_of(s),
{
    let g = grayscale_of(s);
    assert forall|i: int| 0 <= i < s.len() implies grayscale_of(g)[i] == g[i] by {
        if i % 4 != 3 {
            let base = i - i % 4;
            assert((base) % 4 == 0 && (base + 1) % 4 == 1 && (base + 2) % 4 == 2);
            assert(base + 2 < s.len());
            let l = g[i];
            assert(g[base] == l && g[base + 1] == l && g[base + 2] == l);
            assert(luma_of(l, l, l) == l);
        }
    }
    assert(grayscale_of(g) =~= g);
}

/// Graying keeps every Alpha byte.
pub proof fn lemma_grayscale_keeps_alpha(s: Seq<u8>, i: int)
    requires
        0 <= i < s.len(),
        i % 4 == 3,
    ensures
        grayscale_of(s)[i] == s[i],
{
}

} // verus!
