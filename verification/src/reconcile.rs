//! Bringing a layer to the size of the canvas.

use vstd::prelude::*;
use photon_rs::transform::{resize, SamplingFilter};
use photon_rs::PhotonImage;
use crate::layer::{buffer_len, copy_bytes, has_buffer_len, CompositeError, Layer, LayerParams};

verus! {

/// The bytes that nearest-neighbour resampling makes of an RGBA buffer of
/// `width` by `height` pixels when it is brought to `target_width` by
/// `target_height` pixels.
pub uninterp spec fn resized_pixels(
    pixels: Seq<u8>,
    width: u32,
    height: u32,
    target_width: u32,
    target_height: u32,
) -> Seq<u8>;

/// The resampler can take the job: the source holds at least one pixel, and
/// neither its intermediate image (the source's width by the target's
/// height) nor its result outgrows what one allocation can hold.
pub open spec fn can_resize(width: u32, height: u32, target_width: u32, target_height: u32) -> bool {
    &&& width > 0
    &&& height > 0
    &&& 32 * (width as int * target_height as int) <= usize::MAX
    &&& 32 * (target_width as int * target_height as int) <= usize::MAX
}

/// What reconciliation accepts of a resampled buffer: exactly the bytes of
/// a canvas-sized image, and nothing else.
pub open spec fn checked_resize(resized: Seq<u8>, target_width: u32, target_height: u32) -> Result<
    Seq<u8>,
    CompositeError,
> {
    if resized.len() == buffer_len(target_width, target_height) {
        Ok(resized)
    } else {
        Err(CompositeError::ReconciliationFailure)
    }
}

/// The canvas-sized buffer of a layer: its own where the dimensions agree,
/// the resampled one otherwise.
pub open spec fn reconciled(layer: Layer, target_width: u32, target_height: u32) -> Result<
    Seq<u8>,
    CompositeError,
> {
    if layer.width == target_width && layer.height == target_height {
        Ok(layer.pixels)
    } else if !can_resize(layer.width, layer.height, target_width, target_height) {
        Err(CompositeError::ReconciliationFailure)
    } else {
        checked_resize(
            resized_pixels(layer.pixels, layer.width, layer.height, target_width, target_height),
            target_width,
            target_height,
        )
    }
}

/// Calls `photon_rs::transform::resize` with the nearest-neighbour filter on
/// an image built by `PhotonImage::new`, and takes the bytes out with
/// `get_raw_pixels`. Trusted: the bytes that come back depend on the
/// arguments alone, and the call returns for a source of at least one pixel
/// whose buffer matches its dimensions, as long as the images it allocates
/// fit. Nothing is claimed of the length or content of the result.
#[verifier::external_body]
fn resize_nearest(
    pixels: &Vec<u8>,
    width: u32,
    height: u32,
    target_width: u32,
    target_height: u32,
) -> (out: Vec<u8>)
    requires
        pixels@.len() == buffer_len(width, height),
        can_resize(width, height, target_width, target_height),
    ensures
        out@ == resized_pixels(pixels@, width, height, target_width, target_height),
{
    let image = PhotonImage::new(pixels.clone(), width, height);
    resize(&image, target_width, target_height, SamplingFilter::Nearest).get_raw_pixels()
}

fn area_fits(a: u32, b: u32) -> (ok: bool)
    ensures
        ok == (32 * (a as int * b as int) <= usize::MAX),
{
    assert((a as u64) * (b as u64) <= 0xffff_ffff_0000_0000) by (nonlinear_arith)
        requires
            a <= 0xffff_ffff,
            b <= 0xffff_ffff,
    ;
    let area: u64 = (a as u64) * (b as u64);
    let limit: u64 = (usize::MAX as u64) / 32;
    area <= limit
}

/// Whether the resampler can take the job.
pub fn resize_possible(width: u32, height: u32, target_width: u32, target_height: u32) -> (ok: bool)
    ensures
        ok == can_resize(width, height, target_width, target_height),
{
    width > 0 && height > 0 && area_fits(width, target_height) && area_fits(
        target_width,
        target_height,
    )
}

/// Accepts a resampled buffer if it has exactly the canvas's size.
pub fn check_reconciled(resized: Vec<u8>, target: (u32, u32)) -> (out: Result<
    Vec<u8>,
    CompositeError,
>)
    ensures
        match out {
            Ok(buffer) => checked_resize(resized@, target.0, target.1) == Ok::<
                Seq<u8>,
                CompositeError,
            >(buffer@),
            Err(e) => checked_resize(resized@, target.0, target.1) == Err::<
                Seq<u8>,
                CompositeError,
            >(e),
        },
{
    if has_buffer_len(resized.len(), target.0, target.1) {
        Ok(resized)
    } else {
        Err(CompositeError::ReconciliationFailure)
    }
}

/// The layer's pixels at the size of the canvas. A layer of the canvas's
/// size keeps its pixels; any other is resampled, and the result is
/// accepted only at exactly the canvas's size.
pub fn ensure_dimensions(layer: &LayerParams, target: (u32, u32)) -> (out: Result<
    Vec<u8>,
    CompositeError,
>)
    requires
        layer@.wf(),
    ensures
        match out {
            Ok(buffer) => reconciled(layer@, target.0, target.1) == Ok::<Seq<u8>, CompositeError>(
                buffer@,
            ),
            Err(e) => reconciled(layer@, target.0, target.1) == Err::<Seq<u8>, CompositeError>(e),
        },
{
    if layer.width == target.0 && layer.height == target.1 {
        return Ok(copy_bytes(&layer.pixels));
    }
    if !resize_possible(layer.width, layer.height, target.0, target.1) {
        return Err(CompositeError::ReconciliationFailure);
    }
    let resized = resize_nearest(&layer.pixels, layer.width, layer.height, target.0, target.1);
    check_reconciled(resized, target)
}

} // verus!
