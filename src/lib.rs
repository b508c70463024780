//! Whitted-style ray tracing: the integer decisions of the tracer
//! (checkerboard tiles, reflection depth, nearest hit, shadows) and the
//! pixel-grid render loop that fills a `bmp::Image`, sequentially or in
//! parallel.
pub mod image;
pub mod material;
pub mod reflection;
pub mod render;
pub mod search;
