//! A minimal fantasy-console runtime: a fixed 128x128 indexed-color
//! framebuffer with drawing primitives, a seedable random source, and the
//! frame-lifecycle state machine that drives a game's `init`/`update`/`draw`
//! callbacks. Presentation to a real display is left to an unverified shell.

pub mod frame;
pub mod palette;
pub mod raster;
pub mod rng;
pub mod system;
