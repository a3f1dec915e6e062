//! Core of an interactive 2D curve editor.
//!
//! The library owns the curve engine: a store of ordered control points with
//! at most one selected at a time, pure tessellation of the point sequence
//! into polylines (control polygon, uniform cubic B-spline, Catmull-Rom
//! cardinal spline, and a single cubic Bezier segment when exactly four
//! points are present), and the per-frame interaction rules that turn
//! pointer and key edges into store mutations.
//!
//! Coordinates are fixed-point integers: `geom::SCALE` subunits per world
//! unit. The shell that polls input and rasterizes the emitted polylines and
//! circles lives outside the library.

pub mod geom;
pub mod spline;
pub mod store;
pub mod interact;
pub mod frame;
