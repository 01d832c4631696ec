//! In-place filters over row-major RGBA pixel buffers: luma grayscale,
//! a 3×3 box blur and a thresholded Sobel edge map.
//!
//! Every filter leaves the Alpha channel alone, rejects a buffer whose
//! length does not fit its dimensions, and reads neighbouring pixels from a
//! snapshot taken before it writes, so the result does not depend on the
//! order in which pixels are visited.

mod layout;
mod gray;
mod blur;
mod edge;

pub use layout::{ImageError, pixel_channel, is_border, sample};
pub use gray::{grayscale, luma, luma_of, grayscale_of, lemma_grayscale_idempotent, lemma_grayscale_keeps_alpha};
pub use blur::{blur, blurred, box_sum, box_mean, lemma_blur_keeps_alpha, lemma_blur_keeps_border};
pub use edge::{
    EDGE_THRESHOLD, clamped_root, edge_detection, edge_map, edge_of, edge_value, gradient_x, gradient_y,
    lemma_edge_interior_binary, lemma_edge_keeps_alpha, magnitude_of, sobel_magnitude,
};
