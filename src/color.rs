//! Gamma-2 encoding of averaged linear radiance into 8-bit channels.
//!
//! A channel reaches the encoder as a fixed-point value `q`: the linear
//! radiance averaged over the pixel's samples, in steps of `1 / CHANNEL_ONE`
//! (rounded down; averaging the rounded-down sum with integer division rounds
//! the same way).
//! The 8-bit value is `floor(min(sqrt(q / CHANNEL_ONE), 0.999) * 256)`, which,
//! because `CHANNEL_ONE == 256 * 256`, is `min(255, floor(sqrt(q)))`.
use vstd::prelude::*;

verus! {

/// One unit of linear radiance, in the encoder's fixed-point steps.
pub const CHANNEL_ONE: u64 = 65536;

/// `b` is the 8-bit gamma-2 encoding of the fixed-point channel `q`:
/// the integer square root of `q`, capped at 255.
pub open spec fn encodes_channel(q: int, b: int) -> bool {
    &&& 0 <= b <= 255
    &&& b * b <= q
    &&& (b == 255 || q < (b + 1) * (b + 1))
}

/// Encodes one fixed-point channel: the largest `b <= 255` with `b * b <= q`.
pub fn encode_channel(q: u64) -> (b: u8)
    ensures
        encodes_channel(q as int, b as int),
{
    let mut lo: u64 = 0;
    let mut hi: u64 = 256;
    while hi - lo > 1
        invariant
            lo < hi <= 256,
            lo * lo <= q,
            hi == 256 || q < hi * hi,
        decreases hi - lo,
    {
        let mid: u64 = lo + (hi - lo) / 2;
        assert(mid * mid <= 256 * 256) by (nonlinear_arith)
            requires
                mid < 256,
        ;
        if mid * mid <= q {
            lo = mid;
        } else {
            hi = mid;
        }
    }
    lo as u8
}

/// Averages the summed samples of one pixel (red, green, blue, each in the
/// fixed-point steps of `CHANNEL_ONE`) over `samples_per_pixel`, encodes them,
/// and writes the three bytes of pixel `index` into the row buffer `buf`.
pub fn write_color(buf: &mut Vec<u8>, index: usize, sums: [u64; 3], samples_per_pixel: u64)
    requires
        3 * index + 3 <= old(buf)@.len(),
        samples_per_pixel > 0,
    ensures
        final(buf)@.len() == old(buf)@.len(),
        forall|k: int|
            0 <= k < old(buf)@.len() && !(3 * index <= k < 3 * index + 3) ==> final(buf)@[k]
                == old(buf)@[k],
        forall|c: int|
            0 <= c < 3 ==> encodes_channel(
                #[trigger] sums@[c] as int / samples_per_pixel as int,
                final(buf)@[3 * index + c] as int,
            ),
{
    let len = buf.len();
    let base: usize = 3 * index;
    let r = encode_channel(sums[0] / samples_per_pixel);
    let g = encode_channel(sums[1] / samples_per_pixel);
    let b = encode_channel(sums[2] / samples_per_pixel);
    buf.set(base, r);
    buf.set(base + 1, g);
    buf.set(base + 2, b);
}

} // verus!
