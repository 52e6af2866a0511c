//! Noise for the compute backend: a texture of random bytes, as large as the
//! grid over which a tile is dispatched.

use vstd::prelude::*;

verus! {

/// A texture of random RGBA pixels.
pub struct NoiseImage {
    /// Number of pixel columns.
    pub width: u32,
    /// Number of pixel rows.
    pub height: u32,
    /// Four bytes for each pixel, row by row.
    pub pixels: Vec<u8>,
}

/// Number of bytes of an RGBA texture of the given extents.
pub open spec fn noise_len(width: u32, height: u32) -> nat {
    4 * ((width as nat) * (height as nat))
}

/// Makes a vector of `len` bytes and fills it by `rand::Rng::fill` from
/// `rand::thread_rng()`. The bytes are random: only their number is known.
/// Allocating more than `isize::MAX` bytes panics, which the precondition
/// rules out; the generator itself gives up only where the operating system
/// has no entropy to seed it with.
#[verifier::external_body]
fn random_bytes(len: usize) -> (bytes: Vec<u8>)
    requires
        len <= isize::MAX,
    ensures
        bytes@.len() == len,
{
    let mut bytes = vec![0u8; len];
    rand::Rng::fill(&mut rand::thread_rng(), bytes.as_mut_slice());
    bytes
}

/// A texture of the given extents, every byte of it random, or `None` where
/// its bytes would not fit in memory.
pub fn get_random_image(width: u32, height: u32) -> (noise: Option<NoiseImage>)
    ensures
        noise is Some <==> noise_len(width, height) <= isize::MAX,
        noise matches Some(image) ==> image.width == width && image.height == height
            && image.pixels@.len() == noise_len(width, height),
{
    let wide: u64 = width as u64;
    let high: u64 = height as u64;
    assert(wide * high <= 0xFFFF_FFFE_0000_0001) by (nonlinear_arith)
        requires
            wide <= 0xFFFF_FFFF,
            high <= 0xFFFF_FFFF,
    ;
    let texels: u64 = wide * high;
    if texels <= (isize::MAX as u64) / 4 {
        let len: usize = (4 * texels) as usize;
        Some(NoiseImage { width, height, pixels: random_bytes(len) })
    } else {
        None
    }
}

} // verus!
