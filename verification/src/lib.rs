//! Escape-time computation for the Mandelbrot set over a rectangular
//! viewport, at arbitrary zoom depth.
//!
//! The engine works in two precision domains.  The standard domain is an
//! exact binary fixed-point arithmetic defined in [`fixed`], with an explicit
//! accumulated-error account on complex values ([`complex`]).  The deep-zoom
//! domain delegates its arithmetic to an arbitrary-precision decimal library
//! through the narrow trusted interface in [`bigfloat`], with complex values
//! carried as decimal text ([`highprec`]).  [`frame`] owns the viewport,
//! selects the domain, computes the reference orbits and produces one
//! smoothed iteration count per pixel.  [`raster`] holds the verified parts
//! of the surrounding rendering glue.

pub mod fixed;

pub mod complex;

pub mod bigfloat;

pub mod highprec;

pub mod frame;

pub mod raster;
