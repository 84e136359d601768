//! Folding a stack of layers into one image.

use vstd::prelude::*;
use crate::layer::{
    buffer_len, copy_bytes, first_unsized, normalized_all, prepare_layers, sized_before,
    CompositeError, Layer, LayerInput, LayerParams,
};
use crate::mode::BlendMode;
use crate::opacity::Opacity;
use crate::pixel::{blend_pixel, blended_pixel, Rgba};
use crate::reconcile::{ensure_dimensions, reconciled};

verus! {

/// The finished image: RGBA bytes at the size of the canvas.
#[derive(Debug)]
pub struct ComposedImage {
    pub pixels: Vec<u8>,
    pub width: u32,
    pub height: u32,
}

/// The pixel that starts at byte `4 * p` of a buffer.
pub open spec fn pixel_at(buffer: Seq<u8>, p: int) -> Rgba {
    Rgba { r: buffer[4 * p], g: buffer[4 * p + 1], b: buffer[4 * p + 2], a: buffer[4 * p + 3] }
}

/// The byte of a pixel at channel `c`, in the order red, green, blue, alpha.
pub open spec fn channel_of(pixel: Rgba, c: int) -> u8 {
    if c == 0 {
        pixel.r
    } else if c == 1 {
        pixel.g
    } else if c == 2 {
        pixel.b
    } else {
        pixel.a
    }
}

/// The number of whole pixels that both buffers hold.
pub open spec fn shared_pixels(base: Seq<u8>, layer: Seq<u8>) -> int {
    if base.len() <= layer.len() {
        base.len() as int / 4
    } else {
        layer.len() as int / 4
    }
}

/// The base after one layer has been laid over it: each pixel that both
/// buffers hold is blended on its own, and every other byte of the base
/// stays.
pub open spec fn blended_buffer(base: Seq<u8>, layer: Seq<u8>, opacity: int, mode: BlendMode) -> Seq<
    u8,
> {
    Seq::new(
        base.len(),
        |i: int|
            if i / 4 < shared_pixels(base, layer) {
                channel_of(
                    blended_pixel(pixel_at(base, i / 4), pixel_at(layer, i / 4), opacity, mode),
                    i % 4,
                )
            } else {
                base[i]
            },
    )
}

/// The accumulator after the layers from index `from` on have been laid
/// over it in order, each brought to the canvas's size first. The first
/// layer that cannot be reconciled ends the fold with its error.
pub open spec fn folded(
    acc: Seq<u8>,
    layers: Seq<Layer>,
    from: int,
    width: u32,
    height: u32,
) -> Result<Seq<u8>, CompositeError>
    decreases layers.len() - from,
{
    if from < 0 || from >= layers.len() {
        Ok(acc)
    } else {
        match reconciled(layers[from], width, height) {
            Err(e) => Err(e),
            Ok(pixels) => folded(
                blended_buffer(acc, pixels, layers[from].opacity, layers[from].blend_mode),
                layers,
                from + 1,
                width,
                height,
            ),
        }
    }
}

/// The composite of a stack of layers: the first layer is the canvas, and
/// the others are laid over it from the bottom up.
pub open spec fn composite(layers: Seq<Layer>) -> Result<Seq<u8>, CompositeError> {
    folded(layers[0].pixels, layers, 1, layers[0].width, layers[0].height)
}

/// Lays `layer` over `base` in place, pixel by pixel.
pub fn blend_rgba(base: &mut Vec<u8>, layer: &Vec<u8>, opacity: Opacity, mode: BlendMode)
    ensures
        final(base)@ == blended_buffer(old(base)@, layer@, opacity.parts(), mode),
{
    let shorter: usize = if base.len() <= layer.len() {
        base.len()
    } else {
        layer.len()
    };
    let count: usize = shorter / 4;
    let ghost before = base@;
    let ghost goal = blended_buffer(before, layer@, opacity.parts(), mode);
    let mut p: usize = 0;
    while p < count
        invariant
            count as int == shared_pixels(before, layer@),
            4 * count <= before.len() <= usize::MAX,
            4 * count <= layer@.len(),
            p <= count,
            base@.len() == before.len(),
            goal == blended_buffer(before, layer@, opacity.parts(), mode),
            forall|i: int| 0 <= i < 4 * p ==> base@[i] == goal[i],
            forall|i: int| 4 * p <= i < base@.len() ==> base@[i] == before[i],
        decreases count - p,
    {
        let at: usize = 4 * p;
        let under = Rgba { r: base[at], g: base[at + 1], b: base[at + 2], a: base[at + 3] };
        let over = Rgba { r: layer[at], g: layer[at + 1], b: layer[at + 2], a: layer[at + 3] };
        assert(under == pixel_at(before, p as int));
        assert(over == pixel_at(layer@, p as int));
        let out = blend_pixel(under, over, opacity, mode);
        base.set(at, out.r);
        base.set(at + 1, out.g);
        base.set(at + 2, out.b);
        base.set(at + 3, out.a);
        proof {
            assert forall|i: int| 0 <= i < 4 * (p + 1) implies base@[i] == goal[i] by {
                if i >= 4 * p {
                    assert(i / 4 == p as int);
                    assert(i % 4 == i - 4 * p);
                }
            }
        }
        p += 1;
    }
    proof {
        assert forall|i: int| 0 <= i < base@.len() implies base@[i] == goal[i] by {
            if i >= 4 * p {
                assert(i / 4 >= count as int);
            }
        }
        assert(base@ =~= goal);
    }
}

/// Composites a stack of layers, bottom first, into one image of the first
/// layer's size.
///
/// An empty stack is refused, and so is a stack with a layer whose buffer
/// length disagrees with its dimensions: the error names the first such
/// layer. Otherwise the result is the composite of the normalised layers,
/// or the error of the first layer that could not be reconciled.
pub fn compose_layers(inputs: Vec<LayerInput>) -> (out: Result<ComposedImage, CompositeError>)
    ensures
        inputs@.len() == 0 ==> out == Err::<ComposedImage, CompositeError>(
            CompositeError::EmptyInput,
        ),
        inputs@.len() > 0 && !sized_before(inputs@, inputs@.len() as int) ==> exists|k: usize|
            out == Err::<ComposedImage, CompositeError>(CompositeError::BufferSizeMismatch(k))
                && first_unsized(inputs@, k as int),
        inputs@.len() > 0 && sized_before(inputs@, inputs@.len() as int) ==> match out {
            Ok(image) => composite(normalized_all(inputs@)) == Ok::<Seq<u8>, CompositeError>(
                image.pixels@,
            ) && image.width == inputs@[0].width && image.height == inputs@[0].height,
            Err(e) => composite(normalized_all(inputs@)) == Err::<Seq<u8>, CompositeError>(e),
        },
        out matches Ok(image) ==> image.pixels@.len() == buffer_len(image.width, image.height),
{
    if inputs.len() == 0 {
        return Err(CompositeError::EmptyInput);
    }
    let ghost layers = normalized_all(inputs@);
    let prepared: Vec<LayerParams> = match prepare_layers(inputs) {
        Ok(prepared) => prepared,
        Err(e) => {
            return Err(e);
        },
    };
    let width: u32 = prepared[0].width;
    let height: u32 = prepared[0].height;
    let mut accumulator: Vec<u8> = copy_bytes(&prepared[0].pixels);
    assert(prepared@[0]@ == layers[0]);
    let mut k: usize = 1;
    while k < prepared.len()
        invariant
            1 <= k <= prepared@.len(),
            prepared@.len() == layers.len(),
            layers == normalized_all(inputs@),
            inputs@.len() > 0,
            sized_before(inputs@, inputs@.len() as int),
            forall|i: int|
                0 <= i < prepared@.len() ==> (#[trigger] prepared@[i])@ == layers[i]
                    && prepared@[i]@.wf(),
            accumulator@.len() == buffer_len(width, height),
            folded(accumulator@, layers, k as int, width, height) == composite(layers),
            width == layers[0].width,
            height == layers[0].height,
        decreases prepared@.len() - k,
    {
        let layer: &LayerParams = &prepared[k];
        assert(layer@ == layers[k as int]);
        match ensure_dimensions(layer, (width, height)) {
            Ok(pixels) => {
                blend_rgba(&mut accumulator, &pixels, layer.opacity, layer.blend_mode);
            },
            Err(e) => {
                return Err(e);
            },
        }
        k += 1;
    }
    Ok(ComposedImage { pixels: accumulator, width, height })
}

} // verus!
