//! Discrete core of a Mandelbrot zoom animation renderer.
//!
//! The crate fixes everything about a frame sequence that can be stated over
//! integers:
//!
//! - `layout`: where a pixel lies in a row-major buffer of three-byte pixels;
//! - `raster`: a frame kept in an `image::ImageBuffer`;
//! - `render`: filling a frame from a function of column and row;
//! - `escape`: running a bounded escape-time iteration and colouring its
//!   outcome;
//! - `palette`: which colour channel gets which share in each hue sector;
//! - `path`: the anchors of the camera path, as exact decimals;
//! - `schedule`: which frame is due next and how far along it lies;
//! - `naming`: file names and report lines.
//!
//! The arithmetic on complex points and colours is supplied by the caller as
//! functions; every contract here holds for whatever functions are supplied.

pub mod color;
pub mod escape;
pub mod layout;
pub mod naming;
pub mod palette;
pub mod path;
pub mod raster;
pub mod render;
pub mod schedule;
