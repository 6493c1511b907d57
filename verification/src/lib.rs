//! Screen captures held as 32-bit pixel buffers: the capture protocol that a
//! platform layer drives, the BGRA to RGBA conversion, and BMP and PNG encoding.

pub mod capture;
pub mod errors;
pub mod png_encoding;
pub mod screenshots;
pub mod types;

pub use errors::Error;
