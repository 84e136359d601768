//! Laws of the compositing rule.

use vstd::prelude::*;
use crate::compose::{blended_buffer, channel_of, composite, folded, pixel_at, shared_pixels};
use crate::layer::{buffer_len, Layer};
use crate::mode::BlendMode;
use crate::opacity::OPACITY_ONE;
use crate::pixel::{
    blended_channel, blended_pixel, channel_num, coverage, coverage_one, lemma_coverage_bounds,
    lemma_out_alpha_num_bounds, lemma_round_div_byte, lemma_round_div_exact,
    lemma_round_div_monotone, out_alpha, out_alpha_num, Rgba,
};
use crate::reconcile::reconciled;

verus! {

/// Whatever the blend mode, the alpha of a blended pixel is the alpha that
/// the over operator gives, also where the layer pixel has no coverage.
pub proof fn lemma_alpha_ignores_mode(base: Rgba, layer: Rgba, opacity: int, mode: BlendMode)
    requires
        0 <= opacity <= OPACITY_ONE,
    ensures
        blended_pixel(base, layer, opacity, mode).a as int == out_alpha(base.a, layer.a, opacity),
{
    let cov = coverage(layer.a, opacity);
    lemma_coverage_bounds(layer.a, opacity);
    lemma_out_alpha_num_bounds(base.a, cov);
    lemma_round_div_byte(out_alpha_num(base.a, cov), coverage_one());
    if cov == 0 {
        assert(out_alpha_num(base.a, cov) == base.a as int * coverage_one());
        lemma_round_div_exact(base.a as int, coverage_one());
    }
}

/// The alpha of the result does not fall as the opacity rises, for a fixed
/// base and layer.
pub proof fn lemma_alpha_monotone_in_opacity(
    base: Rgba,
    layer: Rgba,
    mode: BlendMode,
    low: int,
    high: int,
)
    requires
        0 <= low <= high <= OPACITY_ONE,
    ensures
        blended_pixel(base, layer, low, mode).a <= blended_pixel(base, layer, high, mode).a,
{
    lemma_alpha_ignores_mode(base, layer, low, mode);
    lemma_alpha_ignores_mode(base, layer, high, mode);
    let c1 = coverage(layer.a, low);
    let c2 = coverage(layer.a, high);
    let a = layer.a as int;
    assert(a * low <= a * high) by (nonlinear_arith)
        requires
            0 <= a,
            low <= high,
    ;
    let spare = 255 - base.a as int;
    assert(spare * c1 <= spare * c2) by (nonlinear_arith)
        requires
            0 <= spare,
            c1 <= c2,
    ;
    assert(out_alpha_num(base.a, c1) == base.a as int * coverage_one() + spare * c1)
        by (nonlinear_arith)
        requires
            out_alpha_num(base.a, c1) == 255 * c1 + base.a as int * (coverage_one() - c1),
            spare == 255 - base.a as int,
    ;
    assert(out_alpha_num(base.a, c2) == base.a as int * coverage_one() + spare * c2)
        by (nonlinear_arith)
        requires
            out_alpha_num(base.a, c2) == 255 * c2 + base.a as int * (coverage_one() - c2),
            spare == 255 - base.a as int,
    ;
    lemma_round_div_monotone(
        out_alpha_num(base.a, c1),
        out_alpha_num(base.a, c2),
        coverage_one(),
    );
}

/// A layer pixel at opacity zero, or with alpha zero, leaves the pixel
/// beneath it unchanged, whatever the blend mode.
pub proof fn lemma_no_coverage_keeps_base(base: Rgba, layer: Rgba, opacity: int, mode: BlendMode)
    requires
        opacity == 0 || layer.a == 0,
    ensures
        blended_pixel(base, layer, opacity, mode) == base,
{
    assert(layer.a as int * opacity == 0) by (nonlinear_arith)
        requires
            opacity == 0 || layer.a as int == 0,
    ;
}

/// An opaque layer pixel laid at full opacity with `Over` replaces whatever
/// is beneath it.
pub proof fn lemma_opaque_over_replaces(base: Rgba, layer: Rgba)
    requires
        layer.a == 255,
    ensures
        blended_pixel(base, layer, OPACITY_ONE as int, BlendMode::Over) == layer,
{
    let one = coverage_one();
    assert(coverage(layer.a, OPACITY_ONE as int) == one);
    assert(out_alpha_num(base.a, one) == 255 * one);
    lemma_round_div_exact(255, one);
    lemma_over_channel(base.r, layer.r, base.a);
    lemma_over_channel(base.g, layer.g, base.a);
    lemma_over_channel(base.b, layer.b, base.a);
}

proof fn lemma_over_channel(base: u8, layer: u8, base_alpha: u8)
    ensures
        blended_channel(BlendMode::Over, base, layer, base_alpha, coverage_one()) == layer as int,
{
    let one = coverage_one();
    assert(out_alpha_num(base_alpha, one) == 255 * one);
    assert(channel_num(BlendMode::Over, base, layer, base_alpha, one) == layer as int * (255
        * one)) by (nonlinear_arith)
        requires
            channel_num(BlendMode::Over, base, layer, base_alpha, one) == (255 * layer as int)
                * one + base as int * base_alpha as int * (one - one),
    ;
    lemma_round_div_exact(layer as int, 255 * one);
}

/// Compositing an opaque pixel over itself with `Over` at full opacity
/// gives that pixel back.
pub proof fn lemma_over_itself_is_idempotent(pixel: Rgba)
    requires
        pixel.a == 255,
    ensures
        blended_pixel(pixel, pixel, OPACITY_ONE as int, BlendMode::Over) == pixel,
{
    lemma_opaque_over_replaces(pixel, pixel);
}

proof fn lemma_multiply_white_channel(base: u8)
    ensures
        blended_channel(BlendMode::Multiply, base, 255, 255, coverage_one()) == base as int,
{
    let one = coverage_one();
    assert(out_alpha_num(255, one) == 255 * one);
    assert(channel_num(BlendMode::Multiply, base, 255, 255, one) == base as int * (255 * one))
        by (nonlinear_arith)
        requires
            channel_num(BlendMode::Multiply, base, 255, 255, one) == (base as int * 255) * one
                + base as int * 255 * (one - one),
    ;
    lemma_round_div_exact(base as int, 255 * one);
}

/// White is the identity of `Multiply`: an opaque white layer pixel at full
/// opacity leaves an opaque base pixel as it is.
pub proof fn lemma_multiply_white_keeps_base(base: Rgba)
    requires
        base.a == 255,
    ensures
        blended_pixel(
            base,
            (Rgba { r: 255, g: 255, b: 255, a: 255 }),
            OPACITY_ONE as int,
            BlendMode::Multiply,
        ) == base,
{
    let one = coverage_one();
    assert(coverage(255, OPACITY_ONE as int) == one);
    assert(out_alpha_num(255, one) == 255 * one);
    lemma_round_div_exact(255, one);
    lemma_multiply_white_channel(base.r);
    lemma_multiply_white_channel(base.g);
    lemma_multiply_white_channel(base.b);
}

/// Every whole pixel of the buffer has an alpha of 255.
pub open spec fn all_opaque(buffer: Seq<u8>) -> bool {
    forall|p: int| 0 <= p < buffer.len() as int / 4 ==> #[trigger] buffer[4 * p + 3] == 255
}

/// A byte of a buffer is its pixel's byte at its channel.
proof fn lemma_channel_of_pixel_at(buffer: Seq<u8>, i: int)
    requires
        0 <= i < buffer.len(),
    ensures
        channel_of(pixel_at(buffer, i / 4), i % 4) == buffer[i],
{
}

/// A layer at opacity zero leaves the whole accumulator as it is.
pub proof fn lemma_zero_opacity_keeps_buffer(base: Seq<u8>, layer: Seq<u8>, mode: BlendMode)
    ensures
        blended_buffer(base, layer, 0, mode) == base,
{
    let out = blended_buffer(base, layer, 0, mode);
    assert forall|i: int| 0 <= i < base.len() implies out[i] == base[i] by {
        if i / 4 < shared_pixels(base, layer) {
            lemma_no_coverage_keeps_base(pixel_at(base, i / 4), pixel_at(layer, i / 4), 0, mode);
            lemma_channel_of_pixel_at(base, i);
        }
    }
    assert(out =~= base);
}

/// An opaque buffer laid over itself with `Over` at full opacity comes out
/// unchanged.
pub proof fn lemma_over_itself_keeps_buffer(layer: Seq<u8>)
    requires
        all_opaque(layer),
    ensures
        blended_buffer(layer, layer, OPACITY_ONE as int, BlendMode::Over) == layer,
{
    let out = blended_buffer(layer, layer, OPACITY_ONE as int, BlendMode::Over);
    assert forall|i: int| 0 <= i < layer.len() implies out[i] == layer[i] by {
        if i / 4 < shared_pixels(layer, layer) {
            let p = i / 4;
            assert(layer[4 * p + 3] == 255);
            lemma_over_itself_is_idempotent(pixel_at(layer, p));
            lemma_channel_of_pixel_at(layer, i);
        }
    }
    assert(out =~= layer);
}

/// A fold that succeeds keeps the length of the accumulator.
pub proof fn lemma_folded_len(acc: Seq<u8>, layers: Seq<Layer>, from: int, width: u32, height: u32)
    ensures
        folded(acc, layers, from, width, height) matches Ok(pixels) ==> pixels.len() == acc.len(),
    decreases layers.len() - from,
{
    if 0 <= from < layers.len() {
        match reconciled(layers[from], width, height) {
            Err(e) => {},
            Ok(pixels) => {
                lemma_folded_len(
                    blended_buffer(acc, pixels, layers[from].opacity, layers[from].blend_mode),
                    layers,
                    from + 1,
                    width,
                    height,
                );
            },
        }
    }
}

/// A composite holds four bytes for each pixel of the canvas, which is the
/// first layer's size, however many layers lie on it.
pub proof fn lemma_composite_len(layers: Seq<Layer>)
    requires
        layers.len() > 0,
        layers[0].wf(),
    ensures
        composite(layers) matches Ok(pixels) ==> pixels.len() == buffer_len(
            layers[0].width,
            layers[0].height,
        ),
{
    lemma_folded_len(layers[0].pixels, layers, 1, layers[0].width, layers[0].height);
}

} // verus!
