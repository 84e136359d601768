//! The per-pixel compositing rule, in exact integer arithmetic.
//!
//! With `la` the layer's alpha scaled by its opacity and `ba` the alpha
//! beneath it, the alpha that results is `la + ba * (1 - la)`, and each
//! colour channel is `(mixed * la + base * ba * (1 - la))` divided by that
//! alpha, where `mixed` is what the blend mode makes of the two colours.
//! The blend mode never touches the alpha.

use vstd::prelude::*;
use crate::mode::BlendMode;
use crate::opacity::{Opacity, OPACITY_ONE};

verus! {

/// One pixel with straight alpha.
#[derive(Clone, Copy, Debug, PartialEq, Eq, Structural)]
pub struct Rgba {
    pub r: u8,
    pub g: u8,
    pub b: u8,
    pub a: u8,
}

/// The coverage of a fully opaque pixel at full opacity: the denominator of
/// every coverage.
pub open spec fn coverage_one() -> int {
    255 * OPACITY_ONE as int
}

/// The effective alpha of a layer pixel, as a numerator over
/// `coverage_one()`.
pub open spec fn coverage(layer_alpha: u8, opacity: int) -> int {
    layer_alpha as int * opacity
}

/// `n / d` rounded to the nearest integer, halves upwards.
pub open spec fn round_div(n: int, d: int) -> int {
    (2 * n + d) / (2 * d)
}

/// The resulting alpha `la + ba * (1 - la)` as a numerator over
/// `255 * coverage_one()`.
pub open spec fn out_alpha_num(base_alpha: u8, cov: int) -> int {
    255 * cov + base_alpha as int * (coverage_one() - cov)
}

/// The alpha byte that results from laying a pixel of alpha `layer_alpha`
/// at the given opacity over one of alpha `base_alpha`.
pub open spec fn out_alpha(base_alpha: u8, layer_alpha: u8, opacity: int) -> int {
    round_div(out_alpha_num(base_alpha, coverage(layer_alpha, opacity)), coverage_one())
}

/// What a blend mode makes of two colour bytes, as a numerator over
/// `255 * 255`.
pub open spec fn mixed(mode: BlendMode, base: u8, layer: u8) -> int {
    match mode {
        BlendMode::Over => 255 * layer as int,
        BlendMode::Multiply => base as int * layer as int,
        BlendMode::Screen => 65025 - (255 - base as int) * (255 - layer as int),
        BlendMode::Add => if base as int + layer as int > 255 {
            65025
        } else {
            255 * (base as int + layer as int)
        },
    }
}

/// The premultiplied colour `mixed * la + base * ba * (1 - la)` as a
/// numerator over `255 * 255 * coverage_one()`.
pub open spec fn channel_num(mode: BlendMode, base: u8, layer: u8, base_alpha: u8, cov: int) -> int {
    mixed(mode, base, layer) * cov + base as int * base_alpha as int * (coverage_one() - cov)
}

/// The colour byte that results for one channel, for a coverage above zero.
pub open spec fn blended_channel(
    mode: BlendMode,
    base: u8,
    layer: u8,
    base_alpha: u8,
    cov: int,
) -> int {
    round_div(channel_num(mode, base, layer, base_alpha, cov), out_alpha_num(base_alpha, cov))
}

/// The pixel that results from laying `layer` at `opacity` parts over
/// `base`. A layer pixel of no coverage leaves the base as it is.
pub open spec fn blended_pixel(base: Rgba, layer: Rgba, opacity: int, mode: BlendMode) -> Rgba {
    let cov = coverage(layer.a, opacity);
    if cov == 0 {
        base
    } else {
        Rgba {
            r: blended_channel(mode, base.r, layer.r, base.a, cov) as u8,
            g: blended_channel(mode, base.g, layer.g, base.a, cov) as u8,
            b: blended_channel(mode, base.b, layer.b, base.a, cov) as u8,
            a: out_alpha(base.a, layer.a, opacity) as u8,
        }
    }
}

/// A coverage never exceeds `coverage_one()`.
pub proof fn lemma_coverage_bounds(layer_alpha: u8, opacity: int)
    requires
        0 <= opacity <= OPACITY_ONE,
    ensures
        0 <= coverage(layer_alpha, opacity) <= coverage_one(),
        coverage(layer_alpha, opacity) == 0 <==> (layer_alpha == 0 || opacity == 0),
{
    let a = layer_alpha as int;
    assert(0 <= a * opacity <= 255 * OPACITY_ONE as int && (a * opacity == 0 <==> (a == 0
        || opacity == 0))) by (nonlinear_arith)
        requires
            0 <= opacity <= OPACITY_ONE,
            0 <= a <= 255,
    ;
}

/// The resulting alpha lies between the coverage and one; it is above zero
/// wherever the coverage is.
pub proof fn lemma_out_alpha_num_bounds(base_alpha: u8, cov: int)
    requires
        0 <= cov <= coverage_one(),
    ensures
        255 * cov <= out_alpha_num(base_alpha, cov) <= 255 * coverage_one(),
{
    let rest = coverage_one() - cov;
    assert(0 <= base_alpha as int * rest <= 255 * rest) by (nonlinear_arith)
        requires
            0 <= rest,
            0 <= base_alpha <= 255,
    ;
}

/// A mixed colour is a fraction of one.
pub proof fn lemma_mixed_bounds(mode: BlendMode, base: u8, layer: u8)
    ensures
        0 <= mixed(mode, base, layer) <= 65025,
{
    let b = base as int;
    let l = layer as int;
    assert(0 <= b * l <= 65025 && 0 <= (255 - b) * (255 - l) <= 65025) by (nonlinear_arith)
        requires
            0 <= b <= 255,
            0 <= l <= 255,
    ;
}

/// A premultiplied colour never exceeds the alpha it is divided by.
pub proof fn lemma_channel_num_bounds(
    mode: BlendMode,
    base: u8,
    layer: u8,
    base_alpha: u8,
    cov: int,
)
    requires
        0 <= cov <= coverage_one(),
    ensures
        0 <= channel_num(mode, base, layer, base_alpha, cov) <= 255 * out_alpha_num(
            base_alpha,
            cov,
        ),
{
    lemma_mixed_bounds(mode, base, layer);
    let m = mixed(mode, base, layer);
    let rest = coverage_one() - cov;
    let b = base as int;
    let a = base_alpha as int;
    assert(0 <= m * cov <= 65025 * cov) by (nonlinear_arith)
        requires
            0 <= m <= 65025,
            0 <= cov,
    ;
    assert(0 <= b * a * rest <= 255 * (a * rest)) by (nonlinear_arith)
        requires
            0 <= b <= 255,
            0 <= a,
            0 <= rest,
    ;
}

/// A rounded quotient of a fraction of 255 is a byte.
pub proof fn lemma_round_div_byte(n: int, d: int)
    requires
        0 < d,
        0 <= n <= 255 * d,
    ensures
        0 <= round_div(n, d) <= 255,
{
    assert(0 <= (2 * n + d) / (2 * d) <= 255) by (nonlinear_arith)
        requires
            0 < d,
            0 <= n <= 255 * d,
    ;
}

/// A whole number is its own rounded quotient.
pub proof fn lemma_round_div_exact(k: int, d: int)
    requires
        0 < d,
        0 <= k,
    ensures
        round_div(k * d, d) == k,
{
    assert((2 * (k * d) + d) / (2 * d) == k) by (nonlinear_arith)
        requires
            0 < d,
            0 <= k,
    ;
}

/// Rounding keeps order.
pub proof fn lemma_round_div_monotone(n1: int, n2: int, d: int)
    requires
        0 < d,
        n1 <= n2,
    ensures
        round_div(n1, d) <= round_div(n2, d),
{
    assert((2 * n1 + d) / (2 * d) <= (2 * n2 + d) / (2 * d)) by (nonlinear_arith)
        requires
            0 < d,
            n1 <= n2,
    ;
}

/// Every blended colour is a byte: the quotient of the premultiplied colour
/// by the resulting alpha never exceeds one, so nothing is clamped or cut.
pub proof fn lemma_blended_channel_is_byte(
    mode: BlendMode,
    base: u8,
    layer: u8,
    base_alpha: u8,
    cov: int,
)
    requires
        0 < cov <= coverage_one(),
    ensures
        0 <= blended_channel(mode, base, layer, base_alpha, cov) <= 255,
{
    lemma_out_alpha_num_bounds(base_alpha, cov);
    lemma_channel_num_bounds(mode, base, layer, base_alpha, cov);
    lemma_round_div_byte(
        channel_num(mode, base, layer, base_alpha, cov),
        out_alpha_num(base_alpha, cov),
    );
}

/// What the blend mode makes of two colour bytes, over `255 * 255`.
pub fn apply_mode(base: u8, layer: u8, mode: BlendMode) -> (m: u32)
    ensures
        m as int == mixed(mode, base, layer),
        m <= 65025,
{
    proof {
        lemma_mixed_bounds(mode, base, layer);
    }
    let b: u32 = base as u32;
    let l: u32 = layer as u32;
    match mode {
        BlendMode::Over => 255 * l,
        BlendMode::Multiply => {
            assert(b * l <= 65025) by (nonlinear_arith)
                requires
                    b <= 255,
                    l <= 255,
            ;
            b * l
        },
        BlendMode::Screen => {
            assert((255 - b) * (255 - l) <= 65025) by (nonlinear_arith)
                requires
                    b <= 255,
                    l <= 255,
            ;
            65025 - (255 - b) * (255 - l)
        },
        BlendMode::Add => if b + l > 255 {
            65025
        } else {
            255 * (b + l)
        },
    }
}

fn rounded_quotient(n: u64, d: u64) -> (q: u64)
    requires
        0 < d,
        2 * n + d <= u64::MAX,
        2 * d <= u64::MAX,
    ensures
        q as int == round_div(n as int, d as int),
{
    (2 * n + d) / (2 * d)
}

fn blend_channel(base: u8, layer: u8, base_alpha: u8, cov: u64, mode: BlendMode) -> (c: u8)
    requires
        0 < cov <= coverage_one(),
    ensures
        c as int == blended_channel(mode, base, layer, base_alpha, cov as int),
{
    let one: u64 = 255 * (OPACITY_ONE as u64);
    let rest: u64 = one - cov;
    let m: u64 = apply_mode(base, layer, mode) as u64;
    assert((base as u64) * (base_alpha as u64) <= 65025) by (nonlinear_arith)
        requires
            base <= 255,
            base_alpha <= 255,
    ;
    let weight: u64 = (base as u64) * (base_alpha as u64);
    proof {
        lemma_out_alpha_num_bounds(base_alpha, cov as int);
        lemma_channel_num_bounds(mode, base, layer, base_alpha, cov as int);
        lemma_blended_channel_is_byte(mode, base, layer, base_alpha, cov as int);
        assert(m * cov <= 65025 * cov && weight * rest <= 65025 * rest
            && base_alpha * rest <= 255 * rest) by (nonlinear_arith)
            requires
                m <= 65025,
                weight <= 65025,
                base_alpha <= 255,
                0 <= cov,
                0 <= rest,
        ;
        assert(base as int * base_alpha as int * rest as int == weight as int * rest as int)
            by (nonlinear_arith)
            requires
                weight as int == base as int * base_alpha as int,
        ;
    }
    let num: u64 = m * cov + weight * rest;
    let den: u64 = 255 * cov + (base_alpha as u64) * rest;
    let q: u64 = rounded_quotient(num, den);
    q as u8
}

/// Lays one layer pixel at the given opacity over a base pixel.
pub fn blend_pixel(base: Rgba, layer: Rgba, opacity: Opacity, mode: BlendMode) -> (out: Rgba)
    ensures
        out == blended_pixel(base, layer, opacity.parts(), mode),
{
    let q: u64 = opacity.get() as u64;
    proof {
        lemma_coverage_bounds(layer.a, q as int);
    }
    let cov: u64 = (layer.a as u64) * q;
    if cov == 0 {
        return base;
    }
    let one: u64 = 255 * (OPACITY_ONE as u64);
    let rest: u64 = one - cov;
    proof {
        lemma_out_alpha_num_bounds(base.a, cov as int);
        lemma_round_div_byte(out_alpha_num(base.a, cov as int), coverage_one());
    }
    let alpha: u64 = rounded_quotient(255 * cov + (base.a as u64) * rest, one);
    Rgba {
        r: blend_channel(base.r, layer.r, base.a, cov, mode),
        g: blend_channel(base.g, layer.g, base.a, cov, mode),
        b: blend_channel(base.b, layer.b, base.a, cov, mode),
        a: alpha as u8,
    }
}

} // verus!
