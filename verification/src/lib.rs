//! Preset, parameter and room-selection logic of the GoldSrc reverb plugin.
//!
//! Audio parameters that the plugin host stores as `f32` are carried here as
//! their IEEE-754 bit patterns (`u32`), so that every decision the plugin makes
//! about them (knob comparison, preset matching) is stated and proved over
//! integers.

pub mod float_bits;
pub mod text;
pub mod params;
pub mod presets;
pub mod rooms;
pub mod state;
pub mod editor;
