// Calibration of raw rover camera frames: decompanding, debayering, defect
// inpainting, colour weighting and bit-depth normalization on an in-memory
// pixel buffer, with the instrument profiles they read. The chrominance
// filter itself runs outside the library, between
// `noise::prepare_color_noise_reduction` and
// `noise::finish_color_noise_reduction`.
use vstd::prelude::*;

pub mod buffer;
pub mod profile;
pub mod decompand;
pub mod debayer;
pub mod inpaint;
pub mod scale;
pub mod noise;
pub mod catalog;
pub mod pipeline;
pub mod laws;

verus! {

} // verus!
