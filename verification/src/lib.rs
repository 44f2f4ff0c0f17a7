//! Small verified exercises: archery scoring over fixed-point coordinates,
//! counting and doubling loops, string transformations, and simple arithmetic.

pub mod archery;
pub mod controlflow;
pub mod functions;
pub mod ownership;
pub mod text;
