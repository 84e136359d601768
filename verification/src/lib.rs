//! Alpha compositing of an ordered stack of RGBA8 layers.
//!
//! All pixel arithmetic is exact: an opacity is a fixed-point fraction, every
//! intermediate quantity is an integer numerator over a known denominator, and
//! each stored byte is the quotient rounded to the nearest integer.

pub mod mode;
pub mod opacity;
pub mod pixel;
pub mod layer;
pub mod reconcile;
pub mod compose;
pub mod failure;
pub mod laws;

pub use crate::compose::{blend_rgba, compose_layers, ComposedImage};
pub use crate::failure::ManufacturingError;
pub use crate::layer::{prepare_layers, CompositeError, LayerInput, LayerParams};
pub use crate::mode::BlendMode;
pub use crate::opacity::{default_opacity, Opacity, OPACITY_ONE};
pub use crate::pixel::{apply_mode, blend_pixel, Rgba};
pub use crate::reconcile::{check_reconciled, ensure_dimensions};
