//! The plugin's parameters as plain values, and the nine DSP knobs drawn from them.
use vstd::prelude::*;
use crate::float_bits::{F32_ONE, F32_TWO, F32_ZERO};
use crate::text::{chars_to_string, push_signed_decimal, push_str_chars, signed_decimal};

verus! {

/// The current value of every plugin parameter. `f32` parameters are held as
/// their IEEE-754 bit patterns.
#[derive(Debug, Clone, Copy, PartialEq, Eq, Structural)]
pub struct ParamValues {
    /// Room type: a factory room index, or the custom room (one past the last).
    pub room: i32,
    pub reverb_mix: u32,
    /// When set, loading a user preset keeps the current reverb mix.
    pub lock_reverb_mix: bool,
    pub delay_mix: u32,
    /// Output limiter mode: 0 off, 1 soft, anything else hard.
    pub clip_soft: i32,
    pub enable_amplp: bool,
    pub enable_ampmod: bool,
    pub reverb_size: u32,
    pub reverb_feedback: u32,
    pub enable_revlp: bool,
    pub delay_time: u32,
    pub delay_feedback: u32,
    pub enable_dellp: bool,
    pub haas_time: u32,
    pub seed: i32,
    pub input_gain_db: u32,
    pub output_gain_db: u32,
    pub user_preset_idx: i32,
    pub preset_source_idx: i32,
    pub preset_display_idx: i32,
    pub window_size_idx: i32,
}

/// The nine DSP knobs of a room preset, as `f32` bit patterns, in the order
/// `[lp, mod, size, refl, rvblp, delay, feedback, dlylp, left]`.
pub type Knobs = [u32; 9];

/// A switch as a knob: `1.0` when on, `0.0` when off.
pub open spec fn switch_knob(on: bool) -> u32 {
    if on {
        F32_ONE
    } else {
        F32_ZERO
    }
}

/// The echo low-pass switch as a knob, inverted: `0.0` when on, `2.0` when off.
pub open spec fn dellp_knob(on: bool) -> u32 {
    if on {
        F32_ZERO
    } else {
        F32_TWO
    }
}

/// The knob row that the individual knob settings stand for.
pub open spec fn knob_row(
    amplp: bool,
    ampmod: bool,
    size: u32,
    refl: u32,
    revlp: bool,
    delay: u32,
    feedback: u32,
    dellp: bool,
    haas: u32,
) -> Seq<u32> {
    seq![
        switch_knob(amplp),
        switch_knob(ampmod),
        size,
        refl,
        switch_knob(revlp),
        delay,
        feedback,
        dellp_knob(dellp),
        haas,
    ]
}

impl ParamValues {
    /// The knob row of these parameters.
    pub open spec fn knobs(self) -> Seq<u32> {
        knob_row(
            self.enable_amplp,
            self.enable_ampmod,
            self.reverb_size,
            self.reverb_feedback,
            self.enable_revlp,
            self.delay_time,
            self.delay_feedback,
            self.enable_dellp,
            self.haas_time,
        )
    }
}

fn switch_bits(on: bool) -> (r: u32)
    ensures
        r == switch_knob(on),
{
    if on {
        F32_ONE
    } else {
        F32_ZERO
    }
}

fn dellp_bits(on: bool) -> (r: u32)
    ensures
        r == dellp_knob(on),
{
    if on {
        F32_ZERO
    } else {
        F32_TWO
    }
}

/// Builds a knob row from individual knob settings.
pub fn make_knobs(
    amplp: bool,
    ampmod: bool,
    size: u32,
    refl: u32,
    revlp: bool,
    delay: u32,
    feedback: u32,
    dellp: bool,
    haas: u32,
) -> (r: Knobs)
    ensures
        r@ == knob_row(amplp, ampmod, size, refl, revlp, delay, feedback, dellp, haas),
{
    let r = [
        switch_bits(amplp),
        switch_bits(ampmod),
        size,
        refl,
        switch_bits(revlp),
        delay,
        feedback,
        dellp_bits(dellp),
        haas,
    ];
    assert(r@ =~= knob_row(amplp, ampmod, size, refl, revlp, delay, feedback, dellp, haas));
    r
}

/// Reads the nine individual knobs into a preset row.
pub fn build_preset_from_params(p: &ParamValues) -> (r: Knobs)
    ensures
        r@ == p.knobs(),
{
    make_knobs(
        p.enable_amplp,
        p.enable_ampmod,
        p.reverb_size,
        p.reverb_feedback,
        p.enable_revlp,
        p.delay_time,
        p.delay_feedback,
        p.enable_dellp,
        p.haas_time,
    )
}

/// The output limiter mode of the DSP engine.
#[derive(Debug, Clone, Copy, PartialEq, Eq, Structural)]
pub enum ClipMode {
    Off,
    Soft,
    Hard,
}

/// The limiter mode for the clip parameter: 0 off, 1 soft, any other value hard.
pub open spec fn clip_mode_of(v: i32) -> ClipMode {
    if v == 0 {
        ClipMode::Off
    } else if v == 1 {
        ClipMode::Soft
    } else {
        ClipMode::Hard
    }
}

/// The limiter mode for the clip parameter.
pub fn clip_mode_for(v: i32) -> (r: ClipMode)
    ensures
        r == clip_mode_of(v),
{
    match v {
        0 => ClipMode::Off,
        1 => ClipMode::Soft,
        _ => ClipMode::Hard,
    }
}

/// How the host shows the clip parameter.
pub open spec fn clip_mode_text(v: i32) -> Seq<char> {
    if v == 0 {
        "Off"@
    } else if v == 1 {
        "Soft"@
    } else {
        "Hard"@
    }
}

/// How the host shows the clip parameter.
pub fn clip_mode_label(v: i32) -> (r: String)
    ensures
        r@ == clip_mode_text(v),
{
    match v {
        0 => String::from_str("Off"),
        1 => String::from_str("Soft"),
        _ => String::from_str("Hard"),
    }
}

/// How the host shows the echo low-pass switch.
pub fn on_off_label(on: bool) -> (r: String)
    ensures
        r@ == if on { "On"@ } else { "Off"@ },
{
    if on {
        String::from_str("On")
    } else {
        String::from_str("Off")
    }
}

/// How the host shows the room parameter: the value, a dash, and the room's
/// name (`?` when there is no name for it; negative values take the first).
pub open spec fn room_text(v: i32, names: Seq<Seq<char>>) -> Seq<char> {
    let idx = if v < 0 {
        0
    } else {
        v as int
    };
    signed_decimal(v as int) + " \u{2013} "@ + if idx < names.len() {
        names[idx]
    } else {
        "?"@
    }
}

/// How the host shows the room parameter.
pub fn room_value_label(v: i32, names: &Vec<String>) -> (r: String)
    ensures
        r@ == room_text(v, names@.map_values(|s: String| s@)),
{
    let idx: usize = if v < 0 {
        0
    } else {
        v as usize
    };
    let mut out: Vec<char> = Vec::new();
    push_signed_decimal(&mut out, v as i64);
    push_str_chars(&mut out, " \u{2013} ");
    if idx < names.len() {
        push_str_chars(&mut out, names[idx].as_str());
    } else {
        push_str_chars(&mut out, "?");
    }
    chars_to_string(&out)
}

} // verus!
