//! Discrete core of a sphere ray tracer: which surface a ray sees, how deep a
//! light path may bounce, how the image is split among workers, and how the
//! finished pixels are written out. The floating-point geometry that feeds
//! these decisions lives with the program that drives them.

pub mod geometry;
pub mod image;
pub mod integrator;
pub mod material;
pub mod scene;
pub mod ppm;
