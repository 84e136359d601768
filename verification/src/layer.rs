//! Raw layer descriptions and their normal form.

use vstd::prelude::*;
use crate::mode::{resolved_optional_mode, BlendMode};
use crate::opacity::{default_opacity, parts_of_f32_bits, Opacity, OPACITY_ONE};

verus! {

/// Why a stack of layers could not be composited.
#[derive(Clone, Copy, Debug, PartialEq, Eq, Structural)]
pub enum CompositeError {
    /// The stack holds no layer.
    EmptyInput,
    /// The buffer of the layer at this index does not hold
    /// `width * height * 4` bytes.
    BufferSizeMismatch(usize),
    /// A layer could not be brought to the size of the canvas.
    ReconciliationFailure,
    /// The finished buffer was refused by the host's image type.
    OutputConstructionFailure,
}

/// A layer as a caller hands it in.
#[derive(Debug)]
pub struct LayerInput {
    /// RGBA bytes, row by row, with straight alpha.
    pub data: Vec<u8>,
    pub width: u32,
    pub height: u32,
    /// The opacity as the bit pattern of a single-precision number. Values
    /// outside the unit interval are clamped, and an absent value means
    /// fully opaque.
    pub opacity: Option<u32>,
    /// The name of a blend mode, in any letter case.
    pub blend_mode: Option<String>,
}

/// A layer after validation.
#[derive(Debug)]
pub struct LayerParams {
    pub pixels: Vec<u8>,
    pub width: u32,
    pub height: u32,
    pub opacity: Opacity,
    pub blend_mode: BlendMode,
}

/// The mathematical content of a validated layer.
pub struct Layer {
    pub pixels: Seq<u8>,
    pub width: u32,
    pub height: u32,
    pub opacity: int,
    pub blend_mode: BlendMode,
}

/// The number of bytes of an RGBA buffer of the given dimensions.
pub open spec fn buffer_len(width: u32, height: u32) -> int {
    width as int * height as int * 4
}

impl Layer {
    /// The buffer has the length that the dimensions call for, and the
    /// opacity lies in the unit interval.
    pub open spec fn wf(self) -> bool {
        self.pixels.len() == buffer_len(self.width, self.height) && 0 <= self.opacity
            <= OPACITY_ONE
    }
}

impl View for LayerParams {
    type V = Layer;

    open spec fn view(&self) -> Layer {
        Layer {
            pixels: self.pixels@,
            width: self.width,
            height: self.height,
            opacity: self.opacity.parts(),
            blend_mode: self.blend_mode,
        }
    }
}

impl LayerInput {
    /// The buffer holds exactly `width * height * 4` bytes.
    pub open spec fn is_sized(&self) -> bool {
        self.data@.len() == buffer_len(self.width, self.height)
    }

    /// The opacity after defaulting and clamping.
    pub open spec fn normal_opacity(&self) -> int {
        match self.opacity {
            Some(bits) => parts_of_f32_bits(bits),
            None => OPACITY_ONE as int,
        }
    }

    /// The blend mode that the optional name resolves to.
    pub open spec fn normal_mode(&self) -> BlendMode {
        match self.blend_mode {
            Some(name) => resolved_optional_mode(Some(name@)),
            None => resolved_optional_mode(None),
        }
    }

    /// The layer that a well-sized input stands for.
    pub open spec fn normalized(&self) -> Layer {
        Layer {
            pixels: self.data@,
            width: self.width,
            height: self.height,
            opacity: self.normal_opacity(),
            blend_mode: self.normal_mode(),
        }
    }
}

/// The normal forms of a sequence of inputs, in the same order.
pub open spec fn normalized_all(inputs: Seq<LayerInput>) -> Seq<Layer> {
    Seq::new(inputs.len(), |i: int| inputs[i].normalized())
}

/// Every input before `upto` is well sized.
pub open spec fn sized_before(inputs: Seq<LayerInput>, upto: int) -> bool {
    forall|j: int| 0 <= j < upto ==> (#[trigger] inputs[j]).is_sized()
}

/// `index` is the first input whose buffer length is wrong.
pub open spec fn first_unsized(inputs: Seq<LayerInput>, index: int) -> bool {
    0 <= index < inputs.len() && !inputs[index].is_sized() && sized_before(inputs, index)
}

/// A copy of a byte buffer.
pub fn copy_bytes(source: &Vec<u8>) -> (out: Vec<u8>)
    ensures
        out@ == source@,
{
    let mut out: Vec<u8> = Vec::with_capacity(source.len());
    let mut i: usize = 0;
    while i < source.len()
        invariant
            i <= source@.len(),
            out@ == source@.subrange(0, i as int),
        decreases source@.len() - i,
    {
        out.push(source[i]);
        assert(out@ =~= source@.subrange(0, i + 1));
        i += 1;
    }
    assert(out@ =~= source@);
    out
}

/// Whether `len` is the number of bytes of an RGBA buffer of the given
/// dimensions.
pub fn has_buffer_len(len: usize, width: u32, height: u32) -> (ok: bool)
    ensures
        ok == (len as int == buffer_len(width, height)),
{
    let w: u128 = width as u128;
    let h: u128 = height as u128;
    assert(w * h * 4 <= 0x4_0000_0000_0000_0000) by (nonlinear_arith)
        requires
            w <= 0xffff_ffff,
            h <= 0xffff_ffff,
    ;
    assert(w * h <= 0x1_0000_0000_0000_0000) by (nonlinear_arith)
        requires
            w <= 0xffff_ffff,
            h <= 0xffff_ffff,
    ;
    len as u128 == w * h * 4
}

/// Validates one input and puts it in normal form.
pub fn prepare_layer(input: &LayerInput, index: usize) -> (out: Result<LayerParams, CompositeError>)
    ensures
        match out {
            Ok(layer) => input.is_sized() && layer@ == input.normalized() && layer@.wf(),
            Err(e) => !input.is_sized() && e == CompositeError::BufferSizeMismatch(index),
        },
{
    if !has_buffer_len(input.data.len(), input.width, input.height) {
        return Err(CompositeError::BufferSizeMismatch(index));
    }
    let opacity = match input.opacity {
        Some(bits) => Opacity::from_f32_bits(bits),
        None => default_opacity(),
    };
    let blend_mode = match &input.blend_mode {
        Some(name) => BlendMode::from_str(name.as_str()),
        None => BlendMode::Over,
    };
    Ok(
        LayerParams {
            pixels: copy_bytes(&input.data),
            width: input.width,
            height: input.height,
            opacity,
            blend_mode,
        },
    )
}

/// Validates every input and puts it in normal form, keeping the order.
/// Fails on the first input whose buffer length disagrees with its
/// dimensions, and names its index.
pub fn prepare_layers(inputs: Vec<LayerInput>) -> (out: Result<Vec<LayerParams>, CompositeError>)
    ensures
        match out {
            Ok(layers) => sized_before(inputs@, inputs@.len() as int) && layers@.len()
                == inputs@.len() && forall|i: int|
                0 <= i < layers@.len() ==> (#[trigger] layers@[i])@ == inputs@[i].normalized()
                    && layers@[i]@.wf(),
            Err(e) => exists|k: usize|
                e == CompositeError::BufferSizeMismatch(k) && first_unsized(inputs@, k as int),
        },
{
    let mut layers: Vec<LayerParams> = Vec::with_capacity(inputs.len());
    let mut i: usize = 0;
    while i < inputs.len()
        invariant
            i <= inputs@.len(),
            layers@.len() == i,
            sized_before(inputs@, i as int),
            forall|j: int|
                0 <= j < i ==> (#[trigger] layers@[j])@ == inputs@[j].normalized()
                    && layers@[j]@.wf(),
        decreases inputs@.len() - i,
    {
        match prepare_layer(&inputs[i], i) {
            Ok(layer) => {
                layers.push(layer);
            },
            Err(e) => {
                assert(first_unsized(inputs@, i as int));
                return Err(e);
            },
        }
        i += 1;
    }
    Ok(layers)
}

} // verus!
