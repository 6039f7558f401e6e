//! A complex scalar field on a toroidal grid: periodic addressing, the
//! nine-tap Laplacian stencil, a double-buffered field that steps by reading
//! neighbourhoods, and RGBA packing of per-cell colours.
pub mod field;
pub mod grid;
pub mod pixels;
