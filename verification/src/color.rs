//! The integer colour transform between RGB and luma/chroma values.
//!
//! The transform is the BT.601 studio-range matrix in fixed point: luma lies
//! in 16..=235 and chroma is centred on 128. Chroma is computed for a whole
//! two-by-two block of pixels at once. A plain average of the four pixels
//! would let colour bleed across a luminance edge that runs through the
//! block, so each pixel is weighted by how close its luma lies to the
//! block's mean luma: a pixel on the far side of an edge contributes less
//! colour than the pixels that dominate the block. In a block of pixels of
//! equal luma all weights are equal and the result is the plain average.

use vstd::prelude::*;

verus! {

/// One pixel's colour channels.
#[derive(Clone, Copy, Debug, PartialEq, Eq, Structural)]
pub struct Rgb {
    pub r: u8,
    pub g: u8,
    pub b: u8,
}

/// Number of fractional bits of the forward matrix, as a scale factor.
pub const FORWARD_SCALE: u64 = 65536;

/// Luma offset of 16 together with the rounding half, scaled.
pub const LUMA_BIAS: u64 = 1081344;

/// Chroma offset of 128 together with the rounding half, scaled.
pub const CHROMA_BIAS: u64 = 8421376;

/// Weight of a pixel whose luma equals the mean luma of its block.
pub const FULL_WEIGHT: u64 = 256;

/// Weight that a pixel loses for every step of luma between it and the mean
/// luma of its block.
pub const EDGE_GAIN: u64 = 4;

/// A value limited to the range of a byte.
pub open spec fn clamp_byte(value: int) -> int {
    if value < 0 {
        0
    } else if value > 255 {
        255
    } else {
        value
    }
}

/// Luma of a pixel: the weighted sum of its channels, offset by 16 and
/// rounded to the nearest integer.
pub open spec fn luma_of(p: Rgb) -> int {
    (16839 * p.r + 33059 * p.g + 6420 * p.b + LUMA_BIAS) / (FORWARD_SCALE as int)
}

/// Mean luma of a block of four pixels, rounded to the nearest integer.
pub open spec fn block_mean_luma(a: Rgb, b: Rgb, c: Rgb, d: Rgb) -> int {
    (luma_of(a) + luma_of(b) + luma_of(c) + luma_of(d) + 2) / 4
}

/// Distance between two luma values.
pub open spec fn luma_distance(y: int, mean: int) -> int {
    if y >= mean {
        y - mean
    } else {
        mean - y
    }
}

/// Weight of a pixel in its block: the full weight, less [`EDGE_GAIN`] for
/// every step of luma between the pixel and the block's mean luma, and never
/// less than one.
pub open spec fn edge_weight(p: Rgb, mean: int) -> int {
    let loss = EDGE_GAIN * luma_distance(luma_of(p), mean);
    if loss < FULL_WEIGHT {
        FULL_WEIGHT - loss
    } else {
        1
    }
}

/// The weighted channel sums of a block and the sum of the weights.
pub struct BlockSums {
    pub r: int,
    pub g: int,
    pub b: int,
    pub weight: int,
}

/// Sums over a block of four pixels, each pixel weighted by [`edge_weight`].
pub open spec fn block_sums(a: Rgb, b: Rgb, c: Rgb, d: Rgb) -> BlockSums {
    let mean = block_mean_luma(a, b, c, d);
    let wa = edge_weight(a, mean);
    let wb = edge_weight(b, mean);
    let wc = edge_weight(c, mean);
    let wd = edge_weight(d, mean);
    BlockSums {
        r: wa * a.r + wb * b.r + wc * c.r + wd * d.r,
        g: wa * a.g + wb * b.g + wc * c.g + wd * d.g,
        b: wa * a.b + wb * b.b + wc * c.b + wd * d.b,
        weight: wa + wb + wc + wd,
    }
}

/// Blue-difference chroma of weighted channel sums.
pub open spec fn chroma_u_of_sums(s: BlockSums) -> int {
    clamp_byte(
        (28800 * s.b - 9719 * s.r - 19081 * s.g + s.weight * CHROMA_BIAS) / (s.weight
            * FORWARD_SCALE),
    )
}

/// Red-difference chroma of weighted channel sums.
pub open spec fn chroma_v_of_sums(s: BlockSums) -> int {
    clamp_byte(
        (28800 * s.r - 24116 * s.g - 4684 * s.b + s.weight * CHROMA_BIAS) / (s.weight
            * FORWARD_SCALE),
    )
}

/// Blue-difference chroma of a block of four pixels.
pub open spec fn chroma_u_of(a: Rgb, b: Rgb, c: Rgb, d: Rgb) -> int {
    chroma_u_of_sums(block_sums(a, b, c, d))
}

/// Red-difference chroma of a block of four pixels.
pub open spec fn chroma_v_of(a: Rgb, b: Rgb, c: Rgb, d: Rgb) -> int {
    chroma_v_of_sums(block_sums(a, b, c, d))
}

/// A fixed-point channel value with six fractional bits, limited to a byte.
pub open spec fn clip8(value: int) -> int {
    if value < 0 {
        0
    } else if value >= 16384 {
        255
    } else {
        value / 64
    }
}

/// Red channel of a luma value and a red-difference chroma value.
pub open spec fn red_of(y: int, v: int) -> int {
    clip8((y * 19077) / 256 + (v * 26149) / 256 - 14234)
}

/// Green channel of a luma value and both chroma values.
pub open spec fn green_of(y: int, u: int, v: int) -> int {
    clip8((y * 19077) / 256 + 8708 - (u * 6419) / 256 - (v * 13320) / 256)
}

/// Blue channel of a luma value and a blue-difference chroma value.
pub open spec fn blue_of(y: int, u: int) -> int {
    clip8((y * 19077) / 256 + (u * 33050) / 256 - 17685)
}

/// Luma stays within the studio range.
pub proof fn lemma_luma_range(p: Rgb)
    ensures
        16 <= luma_of(p) <= 235,
{
}

/// The mean luma of a block stays within the studio range, and every weight
/// is positive and at most the full weight.
pub proof fn lemma_weight_range(p: Rgb, a: Rgb, b: Rgb, c: Rgb, d: Rgb)
    ensures
        16 <= block_mean_luma(a, b, c, d) <= 235,
        1 <= edge_weight(p, block_mean_luma(a, b, c, d)) <= FULL_WEIGHT,
{
    lemma_luma_range(p);
    lemma_luma_range(a);
    lemma_luma_range(b);
    lemma_luma_range(c);
    lemma_luma_range(d);
}

/// Of two pixels of a block, the one whose luma lies farther from the mean
/// luma of the block has no more weight than the other.
pub proof fn lemma_weight_falls_with_distance(p: Rgb, q: Rgb, mean: int)
    requires
        luma_distance(luma_of(p), mean) <= luma_distance(luma_of(q), mean),
    ensures
        edge_weight(p, mean) >= edge_weight(q, mean),
{
}

/// The plain channel sums of a block, every pixel with the weight one.
pub open spec fn plain_sums(a: Rgb, b: Rgb, c: Rgb, d: Rgb) -> BlockSums {
    BlockSums {
        r: a.r + b.r + c.r + d.r,
        g: a.g + b.g + c.g + d.g,
        b: a.b + b.b + c.b + d.b,
        weight: 4,
    }
}

/// A block without an edge, one whose four pixels have the same luma, has
/// the chroma of the plain average of its pixels.
pub proof fn lemma_flat_block(a: Rgb, b: Rgb, c: Rgb, d: Rgb)
    requires
        luma_of(a) == luma_of(b),
        luma_of(a) == luma_of(c),
        luma_of(a) == luma_of(d),
    ensures
        chroma_u_of(a, b, c, d) == chroma_u_of_sums(plain_sums(a, b, c, d)),
        chroma_v_of(a, b, c, d) == chroma_v_of_sums(plain_sums(a, b, c, d)),
{
    let s = block_sums(a, b, c, d);
    let plain = plain_sums(a, b, c, d);
    let full = FULL_WEIGHT as int;
    // The mean luma is the luma of every pixel, so every pixel has the full
    // weight, and the weighted sums are the plain sums scaled by it.
    let mean = block_mean_luma(a, b, c, d);
    assert(mean == luma_of(a));
    let wa = edge_weight(a, mean);
    let wb = edge_weight(b, mean);
    let wc = edge_weight(c, mean);
    let wd = edge_weight(d, mean);
    assert(wa == full && wb == full && wc == full && wd == full);
    assert(s.weight == full * plain.weight);
    assert(s.r == full * plain.r && s.g == full * plain.g && s.b == full * plain.b)
        by (nonlinear_arith)
        requires
            wa == full && wb == full && wc == full && wd == full,
            s.r == wa * a.r + wb * b.r + wc * c.r + wd * d.r,
            s.g == wa * a.g + wb * b.g + wc * c.g + wd * d.g,
            s.b == wa * a.b + wb * b.b + wc * c.b + wd * d.b,
            plain.r == a.r + b.r + c.r + d.r,
            plain.g == a.g + b.g + c.g + d.g,
            plain.b == a.b + b.b + c.b + d.b,
    ;
    let nu = 28800 * plain.b - 9719 * plain.r - 19081 * plain.g + plain.weight * CHROMA_BIAS;
    let nv = 28800 * plain.r - 24116 * plain.g - 4684 * plain.b + plain.weight * CHROMA_BIAS;
    lemma_scaled_quotient(nu, plain.weight * FORWARD_SCALE, full);
    lemma_scaled_quotient(nv, plain.weight * FORWARD_SCALE, full);
}

/// A block of four equal pixels has the chroma of that pixel alone, whatever
/// the weights.
pub proof fn lemma_uniform_block(p: Rgb)
    ensures
        chroma_u_of(p, p, p, p) == clamp_byte(
            (28800 * p.b - 9719 * p.r - 19081 * p.g + CHROMA_BIAS) / (FORWARD_SCALE as int),
        ),
        chroma_v_of(p, p, p, p) == clamp_byte(
            (28800 * p.r - 24116 * p.g - 4684 * p.b + CHROMA_BIAS) / (FORWARD_SCALE as int),
        ),
{
    lemma_weight_range(p, p, p, p, p);
    let s = block_sums(p, p, p, p);
    let w = edge_weight(p, block_mean_luma(p, p, p, p));
    let t = 4 * w;
    assert(s.r == t * p.r && s.g == t * p.g && s.b == t * p.b) by (nonlinear_arith)
        requires
            s.r == w * p.r + w * p.r + w * p.r + w * p.r,
            s.g == w * p.g + w * p.g + w * p.g + w * p.g,
            s.b == w * p.b + w * p.b + w * p.b + w * p.b,
            t == 4 * w,
    ;
    let nu = 28800 * p.b - 9719 * p.r - 19081 * p.g + CHROMA_BIAS;
    let nv = 28800 * p.r - 24116 * p.g - 4684 * p.b + CHROMA_BIAS;
    lemma_scaled_quotient(nu, FORWARD_SCALE as int, t);
    lemma_scaled_quotient(nv, FORWARD_SCALE as int, t);
    assert(28800 * s.b - 9719 * s.r - 19081 * s.g + s.weight * CHROMA_BIAS == t * nu)
        by (nonlinear_arith)
        requires
            s.r == t * p.r,
            s.g == t * p.g,
            s.b == t * p.b,
            s.weight == t,
            nu == 28800 * p.b - 9719 * p.r - 19081 * p.g + CHROMA_BIAS,
    ;
    assert(28800 * s.r - 24116 * s.g - 4684 * s.b + s.weight * CHROMA_BIAS == t * nv)
        by (nonlinear_arith)
        requires
            s.r == t * p.r,
            s.g == t * p.g,
            s.b == t * p.b,
            s.weight == t,
            nv == 28800 * p.r - 24116 * p.g - 4684 * p.b + CHROMA_BIAS,
    ;
}

/// Scaling numerator and denominator by the same positive factor leaves the
/// quotient unchanged.
pub proof fn lemma_scaled_quotient(n: int, d: int, t: int)
    requires
        d > 0,
        t > 0,
    ensures
        (t * n) / (t * d) == n / d,
{
    vstd::arithmetic::div_mod::lemma_fundamental_div_mod(n, d);
    let q = n / d;
    let r = n % d;
    assert(t * n == q * (t * d) + t * r) by (nonlinear_arith)
        requires
            n == d * q + r,
    ;
    assert(0 <= t * r < t * d) by (nonlinear_arith)
        requires
            0 <= r < d,
            t > 0,
    ;
    assert(t * d > 0) by (nonlinear_arith)
        requires
            d > 0,
            t > 0,
    ;
    vstd::arithmetic::div_mod::lemma_fundamental_div_mod_converse(t * n, t * d, q, t * r);
}

/// Computes the luma of a pixel.
pub fn luma(p: Rgb) -> (y: u8)
    ensures
        y == luma_of(p),
{
    let sum: u64 = 16839 * (p.r as u64) + 33059 * (p.g as u64) + 6420 * (p.b as u64) + LUMA_BIAS;
    (sum / FORWARD_SCALE) as u8
}

/// The weight of a pixel with luma `y` in a block with mean luma `mean`.
fn weight(y: u64, mean: u64) -> (w: u64)
    requires
        16 <= y <= 235,
        16 <= mean <= 235,
    ensures
        1 <= w <= FULL_WEIGHT,
        w == if EDGE_GAIN * luma_distance(y as int, mean as int) < FULL_WEIGHT {
            FULL_WEIGHT - EDGE_GAIN * luma_distance(y as int, mean as int)
        } else {
            1
        },
{
    let distance: u64 = if y >= mean {
        y - mean
    } else {
        mean - y
    };
    let loss: u64 = EDGE_GAIN * distance;
    if loss < FULL_WEIGHT {
        FULL_WEIGHT - loss
    } else {
        1
    }
}

/// One channel value multiplied by its pixel's weight.
fn weighted(w: u64, channel: u8) -> (product: u64)
    requires
        w <= FULL_WEIGHT,
    ensures
        product == w * channel,
        product <= 65280,
{
    assert(w * channel <= 256 * 255) by (nonlinear_arith)
        requires
            w <= 256,
            channel <= 255,
    ;
    w * (channel as u64)
}

/// The quotient of a difference, limited to a byte.
fn clamped_quotient(pos: u64, neg: u64, den: u64) -> (q: u8)
    requires
        den > 0,
    ensures
        q == clamp_byte((pos - neg) / (den as int)),
{
    if pos < neg {
        assert((pos - neg) / (den as int) < 0) by (nonlinear_arith)
            requires
                pos - neg < 0,
                den > 0,
        ;
        0
    } else {
        let quotient: u64 = (pos - neg) / den;
        if quotient > 255 {
            255
        } else {
            quotient as u8
        }
    }
}

/// The weights of the four pixels of a block.
fn block_weights(a: Rgb, b: Rgb, c: Rgb, d: Rgb) -> (w: (u64, u64, u64, u64))
    ensures
        w.0 == edge_weight(a, block_mean_luma(a, b, c, d)),
        w.1 == edge_weight(b, block_mean_luma(a, b, c, d)),
        w.2 == edge_weight(c, block_mean_luma(a, b, c, d)),
        w.3 == edge_weight(d, block_mean_luma(a, b, c, d)),
        1 <= w.0 <= FULL_WEIGHT,
        1 <= w.1 <= FULL_WEIGHT,
        1 <= w.2 <= FULL_WEIGHT,
        1 <= w.3 <= FULL_WEIGHT,
{
    proof {
        lemma_luma_range(a);
        lemma_luma_range(b);
        lemma_luma_range(c);
        lemma_luma_range(d);
    }
    let ya: u64 = luma(a) as u64;
    let yb: u64 = luma(b) as u64;
    let yc: u64 = luma(c) as u64;
    let yd: u64 = luma(d) as u64;
    let mean: u64 = (ya + yb + yc + yd + 2) / 4;
    (weight(ya, mean), weight(yb, mean), weight(yc, mean), weight(yd, mean))
}

/// The sum of four channel values, each multiplied by its pixel's weight.
fn weighted_sum(w: (u64, u64, u64, u64), a: u8, b: u8, c: u8, d: u8) -> (sum: u64)
    requires
        w.0 <= FULL_WEIGHT,
        w.1 <= FULL_WEIGHT,
        w.2 <= FULL_WEIGHT,
        w.3 <= FULL_WEIGHT,
    ensures
        sum == w.0 * a + w.1 * b + w.2 * c + w.3 * d,
        sum <= 261120,
{
    weighted(w.0, a) + weighted(w.1, b) + weighted(w.2, c) + weighted(w.3, d)
}

/// Computes both chroma values of a block of four pixels.
pub fn chroma(a: Rgb, b: Rgb, c: Rgb, d: Rgb) -> (uv: (u8, u8))
    ensures
        uv.0 == chroma_u_of(a, b, c, d),
        uv.1 == chroma_v_of(a, b, c, d),
{
    let w = block_weights(a, b, c, d);
    let red: u64 = weighted_sum(w, a.r, b.r, c.r, d.r);
    let green: u64 = weighted_sum(w, a.g, b.g, c.g, d.g);
    let blue: u64 = weighted_sum(w, a.b, b.b, c.b, d.b);
    let total: u64 = w.0 + w.1 + w.2 + w.3;
    let bias: u64 = total * CHROMA_BIAS;
    let den: u64 = total * FORWARD_SCALE;
    let u: u8 = clamped_quotient(28800 * blue + bias, 9719 * red + 19081 * green, den);
    let v: u8 = clamped_quotient(28800 * red + bias, 24116 * green + 4684 * blue, den);
    (u, v)
}

/// A fixed-point channel value, given as a difference, limited to a byte.
fn clip(pos: u32, neg: u32) -> (c: u8)
    ensures
        c == clip8(pos - neg),
{
    if pos < neg {
        0
    } else if pos - neg >= 16384 {
        255
    } else {
        ((pos - neg) / 64) as u8
    }
}

/// Computes the colour channels of a luma value and its two chroma values.
pub fn rgb(y: u8, u: u8, v: u8) -> (p: Rgb)
    ensures
        p.r == red_of(y as int, v as int),
        p.g == green_of(y as int, u as int, v as int),
        p.b == blue_of(y as int, u as int),
{
    let base: u32 = ((y as u32) * 19077) / 256;
    let r: u8 = clip(base + ((v as u32) * 26149) / 256, 14234);
    let g: u8 = clip(base + 8708, ((u as u32) * 6419) / 256 + ((v as u32) * 13320) / 256);
    let b: u8 = clip(base + ((u as u32) * 33050) / 256, 17685);
    Rgb { r, g, b }
}

/// Black has the lowest luma and neutral chroma, and that luma with neutral
/// chroma is black again.
pub proof fn lemma_black(p: Rgb)
    requires
        p.r == 0,
        p.g == 0,
        p.b == 0,
    ensures
        luma_of(p) == 16,
        chroma_u_of(p, p, p, p) == 128,
        chroma_v_of(p, p, p, p) == 128,
        red_of(16, 128) == 0,
        green_of(16, 128, 128) == 0,
        blue_of(16, 128) == 0,
{
    lemma_uniform_block(p);
}

} // verus!
