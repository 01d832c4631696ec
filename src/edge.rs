use vstd::prelude::*;

verus! {

use crate::gray::{apply_grayscale, grayscale_of};
use crate::layout::{ImageError, check_dimensions, is_border, lemma_decompose, read_channel, sample};
use vstd::slice::slice_to_vec;

/// Magnitudes strictly above this mark an edge.
pub const EDGE_THRESHOLD: u8 = 100;

/// Horizontal Sobel response `[-1 0 1; -2 0 2; -1 0 1]` of the Red channel
/// around `(x, y)`.
pub open spec fn gradient_x(g: Seq<u8>, w: int, x: int, y: int) -> int {
    -(sample(g, w, x - 1, y - 1, 0) as int) + sample(g, w, x + 1, y - 1, 0)
        - 2 * sample(g, w, x - 1, y, 0) + 2 * sample(g, w, x + 1, y, 0)
        - sample(g, w, x - 1, y + 1, 0) + sample(g, w, x + 1, y + 1, 0)
}

/// Vertical Sobel response `[-1 -2 -1; 0 0 0; 1 2 1]` of the Red channel
/// around `(x, y)`.
pub open spec fn gradient_y(g: Seq<u8>, w: int, x: int, y: int) -> int {
    -(sample(g, w, x - 1, y - 1, 0) as int) - 2 * sample(g, w, x, y - 1, 0)
        - sample(g, w, x + 1, y - 1, 0) + sample(g, w, x - 1, y + 1, 0)
        + 2 * sample(g, w, x, y + 1, 0) + sample(g, w, x + 1, y + 1, 0)
}

/// The largest `m <= k` with `m * m <= n` (0 if there is none).
pub open spec fn clamped_root(n: int, k: nat) -> nat
    decreases k,
{
    if k == 0 {
        0
    } else if k * k <= n {
        k
    } else {
        clamped_root(n, (k - 1) as nat)
    }
}

/// `sqrt(gx² + gy²)` truncated toward zero and clamped to 255.
pub open spec fn magnitude_of(gx: int, gy: int) -> u8 {
    clamped_root(gx * gx + gy * gy, 255) as u8
}

/// The channel value written for a pixel of gradient magnitude `m`.
pub open spec fn edge_of(m: u8) -> u8 {
    if m > EDGE_THRESHOLD {
        255
    } else {
        0
    }
}

/// The `w` × `h` buffer `s` after edge detection: it is first grayed; then
/// each R, G, B byte of an interior pixel becomes 255 or 0 according to the
/// Sobel magnitude of the gray image there. Alpha bytes and border pixels
/// keep their grayed value.
pub open spec fn edge_map(s: Seq<u8>, w: int, h: int) -> Seq<u8> {
    let g = grayscale_of(s);
    Seq::new(
        s.len(),
        |i: int|
            {
                let p = i / 4;
                let x = p % w;
                let y = p / w;
                if i % 4 == 3 || is_border(w, h, i) {
                    g[i]
                } else {
                    edge_of(magnitude_of(gradient_x(g, w, x, y), gradient_y(g, w, x, y)))
                }
            },
    )
}

proof fn lemma_clamped_root(n: int, k: nat, r: nat)
    requires
        r <= k,
        r * r <= n,
        r == k || (r + 1) * (r + 1) > n,
    ensures
        clamped_root(n, k) == r,
    decreases k,
{
    if k > r {
        assert(k * k >= (r + 1) * (r + 1)) by (nonlinear_arith) requires k >= r + 1, r >= 0;
        lemma_clamped_root(n, (k - 1) as nat, r);
    } else if k > 0 {
        assert(k * k <= n);
    }
}

/// Gradient magnitude `sqrt(gx² + gy²)`, truncated toward zero and clamped
/// to 255 rather than wrapped.
pub fn sobel_magnitude(gx: i32, gy: i32) -> (m: u8)
    ensures
        m == magnitude_of(gx as int, gy as int),
{
    let ax: u64 = if gx < 0 { (-(gx as i64)) as u64 } else { gx as u64 };
    let ay: u64 = if gy < 0 { (-(gy as i64)) as u64 } else { gy as u64 };
    proof {
        assert(ax * ax <= 0x4000_0000_0000_0000) by (nonlinear_arith) requires ax <= 0x8000_0000;
        assert(ay * ay <= 0x4000_0000_0000_0000) by (nonlinear_arith) requires ay <= 0x8000_0000;
        assert(ax * ax == gx * gx) by (nonlinear_arith) requires ax == gx || ax == -gx;
        assert(ay * ay == gy * gy) by (nonlinear_arith) requires ay == gy || ay == -gy;
    }
    let squared: u64 = ax * ax + ay * ay;
    let mut root: u64 = 0;
    let mut next_square: u64 = 1;
    while root < 255 && next_square <= squared
        invariant
            root <= 255,
            root * root <= squared,
            next_square == (root + 1) * (root + 1),
            squared <= 0x8000_0000_0000_0000,
        decreases 255 - root,
    {
        assert((root + 2) * (root + 2) == next_square + 2 * root + 3) by (nonlinear_arith)
            requires next_square == (root + 1) * (root + 1);
        root = root + 1;
        next_square = next_square + 2 * root + 1;
    }
    proof {
        lemma_clamped_root(squared as int, 255, root as nat);
    }
    root as u8
}

/// 255 (edge) for a magnitude above the threshold of 100, else 0.
pub fn edge_value(mag: u8) -> (v: u8)
    ensures
        v == edge_of(mag),
        v == (if mag > 100 { 255u8 } else { 0u8 }),
{
    if mag > EDGE_THRESHOLD {
        255
    } else {
        0
    }
}

/// Replaces a `width` × `height` RGBA buffer, in place, with a binary edge
/// map: the image is grayed, then every interior pixel's R, G and B become
/// 255 where the Sobel magnitude of the gray snapshot exceeds 100 and 0
/// elsewhere. Border pixels stay gray; Alpha is kept.
///
/// Fails, leaving the buffer as it was, with `DegenerateDimension` when either
/// dimension is below 2, else with `LengthMismatch` when the buffer is not
/// `width * height * 4` bytes long.
pub fn edge_detection(data: &mut [u8], width: usize, height: usize) -> (r: Result<(), ImageError>)
    ensures
        r == Err::<(), ImageError>(ImageError::DegenerateDimension) <==> width < 2 || height < 2,
        r == Err::<(), ImageError>(ImageError::LengthMismatch) <==> width >= 2 && height >= 2
            && old(data)@.len() != width * height * 4,
        r is Ok ==> final(data)@ == edge_map(old(data)@, width as int, height as int),
        r is Err ==> final(data)@ == old(data)@,
{
    check_dimensions(data.len(), width, height)?;
    let ghost src = data@;
    assert((width * height * 4) % 4 == 0) by (nonlinear_arith);
    apply_grayscale(data);
    let gray = slice_to_vec(data);
    let ghost g = grayscale_of(src);
    let ghost target = edge_map(src, width as int, height as int);
    let len = data.len();
    let mut i: usize = 0;
    while i < len
        invariant
            len == src.len(),
            len == width * height * 4,
            width >= 2,
            height >= 2,
            data@.len() == len,
            gray@ == g,
            g == grayscale_of(src),
            target == edge_map(src, width as int, height as int),
            i <= len,
            i % 4 == 0,
            forall|j: int| 0 <= j < i ==> data@[j] == target[j],
            forall|j: int| i <= j < len ==> data@[j] == g[j],
        decreases len - i,
    {
        proof {
            lemma_decompose(width as int, height as int, i as int);
            assert(i + 3 < len);
        }
        let p = i / 4;
        let x = p % width;
        let y = p / width;
        if x != 0 && x != width - 1 && y != 0 && y != height - 1 {
            let nw = read_channel(&gray, width, height, x - 1, y - 1, 0) as i32;
            let n = read_channel(&gray, width, height, x, y - 1, 0) as i32;
            let ne = read_channel(&gray, width, height, x + 1, y - 1, 0) as i32;
            let west = read_channel(&gray, width, height, x - 1, y, 0) as i32;
            let east = read_channel(&gray, width, height, x + 1, y, 0) as i32;
            let sw = read_channel(&gray, width, height, x - 1, y + 1, 0) as i32;
            let s = read_channel(&gray, width, height, x, y + 1, 0) as i32;
            let se = read_channel(&gray, width, height, x + 1, y + 1, 0) as i32;
            let gx = -nw + ne - 2 * west + 2 * east - sw + se;
            let gy = -nw - 2 * n - ne + sw + 2 * s + se;
            let v = edge_value(sobel_magnitude(gx, gy));
            data[i] = v;
            data[i + 1] = v;
            data[i + 2] = v;
        }
        assert((i + 1) / 4 == p && (i + 2) / 4 == p && (i + 3) / 4 == p);
        assert((i + 1) % 4 == 1 && (i + 2) % 4 == 2 && (i + 3) % 4 == 3);
        i = i + 4;
    }
    assert(data@ =~= target);
    Ok(())
}

/// Edge detection keeps every Alpha byte.
pub proof fn lemma_edge_keeps_alpha(s: Seq<u8>, w: int, h: int, i: int)
    requires
        0 <= i < s.len(),
        i % 4 == 3,
    ensures
        edge_map(s, w, h)[i] == s[i],
{
}

/// Every R, G or B byte of an interior pixel of an edge map is 0 or 255.
pub proof fn lemma_edge_interior_binary(s: Seq<u8>, w: int, h: int, i: int)
    requires
        0 <= i < s.len(),
        i % 4 != 3,
        !is_border(w, h, i),
    ensures
        edge_map(s, w, h)[i] == 0 || edge_map(s, w, h)[i] == 255,
{
}

} // verus!
