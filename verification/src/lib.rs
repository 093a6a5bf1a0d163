//! A procedural gradient renderer with a typed colour pipeline.
//!
//! Every sample in this crate is the IEEE-754 binary32 bit pattern of a
//! floating-point value, held in a `u32`.  The crate lays samples out, moves
//! them and checks the space and context they are tagged with; it never
//! computes on them.  The arithmetic itself (interpolation, colour-space
//! transforms, the tone curve, quantisation) is supplied by the caller as a
//! [`ColorMath`], and every contract states which of those operations
//! produced which sample.

pub mod codec;
pub mod color;
pub mod display;
pub mod error;
pub mod framebuffer;
pub mod gradient;
pub mod scene;

pub use codec::{encode, Attributes, Channel, ImageDocument};
pub use color::{Color, ColorMath, ColorSpace, Context, Rgb8, TonemapParams, Triple};
pub use display::{DisplayBuffer, DisplayPixel};
pub use error::Error;
pub use framebuffer::{BufferMode, Framebuffer};
pub use gradient::{render_bg_image, Palette};
pub use scene::{SceneBuffer, ScenePixel, MIDPOINT, OPAQUE};
