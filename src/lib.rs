//! Braitenberg vehicles: light-driven agents whose actuators are wired to
//! their sensors by a short list of genes.
//!
//! All quantities are fixed-point integers, so that every step of the
//! simulation is exact and proved:
//! - activations, speeds, headings (in degrees), directions and body-frame
//!   offsets (in pixels) are counted in thousandths;
//! - world positions, distances and light radii are counted in millionths of
//!   a pixel, so that a speed or an offset (thousandths) times a direction
//!   (thousandths) lands on a world length without rounding.
pub mod gene;
pub mod light;
pub mod math;
pub mod text;
pub mod vehicle;
pub mod world;
