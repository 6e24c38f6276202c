use goldsrc_plugin::params::{build_preset_from_params, Knobs, ParamValues};
use goldsrc_plugin::presets::PluginParamsSnapshot;
use goldsrc_plugin::rooms::{apply_snapshot_to_params, snapshot_for_loaded_params};
use goldsrc_plugin::state::{PresetTracker, SharedUserPresetState};

fn bits(v: f32) -> u32 {
    v.to_bits()
}

fn row(v: [f32; 9]) -> Knobs {
    v.map(f32::to_bits)
}

fn table() -> Vec<Knobs> {
    let mut t = Vec::new();
    for i in 0..29 {
        t.push(row([0.0, 0.0, 0.0, 0.0, 1.0, 0.01 * i as f32, 0.5, 2.0, 0.01]));
    }
    t[5] = row([0.0, 0.0, 0.05, 0.85, 1.0, 0.008, 0.96, 2.0, 0.01]);
    t
}

fn params() -> ParamValues {
    ParamValues {
        room: 5,
        reverb_mix: bits(0.17),
        lock_reverb_mix: false,
        delay_mix: bits(0.25),
        clip_soft: 2,
        enable_amplp: false,
        enable_ampmod: false,
        reverb_size: bits(0.05),
        reverb_feedback: bits(0.85),
        enable_revlp: true,
        delay_time: bits(0.008),
        delay_feedback: bits(0.96),
        enable_dellp: false,
        haas_time: bits(0.01),
        seed: 42,
        input_gain_db: bits(0.0),
        output_gain_db: bits(0.0),
        user_preset_idx: 0,
        preset_source_idx: 1,
        preset_display_idx: -1,
        window_size_idx: 0,
    }
}

/// Applies the writes of a loaded user preset to the parameters.
fn load_into(p: &ParamValues, s: &PluginParamsSnapshot, t: &[Knobs]) -> ParamValues {
    let w = apply_snapshot_to_params(p.lock_reverb_mix, s, t);
    ParamValues {
        reverb_mix: w.reverb_mix.unwrap_or(p.reverb_mix),
        delay_mix: w.delay_mix,
        clip_soft: w.clip_soft,
        enable_amplp: w.enable_amplp,
        enable_ampmod: w.enable_ampmod,
        reverb_size: w.reverb_size,
        reverb_feedback: w.reverb_feedback,
        enable_revlp: w.enable_revlp,
        delay_time: w.delay_time,
        delay_feedback: w.delay_feedback,
        enable_dellp: w.enable_dellp,
        haas_time: w.haas_time,
        seed: w.seed,
        input_gain_db: w.input_gain_db,
        output_gain_db: w.output_gain_db,
        room: w.room,
        ..*p
    }
}

#[test]
fn fresh_state_matches_anything() {
    let mut st = SharedUserPresetState::new();
    assert!(st.matches_current());
    assert!(st.matches_params(&params()));
    st.update_match_flag(&params());
    assert!(st.matches_current());
}

#[test]
fn moved_parameter_breaks_the_match() {
    let t = table();
    let p = params();
    let mut st = SharedUserPresetState::new();
    st.set_snapshot(&PluginParamsSnapshot::from_params(&p));
    assert!(st.matches_params(&p));
    let mut q = p;
    q.haas_time = bits(0.02);
    assert!(!st.matches_params(&q));
    st.update_match_flag(&q);
    assert!(!st.matches_current());
    st.update_match_flag(&p);
    assert!(st.matches_current());
    let mut r = p;
    r.output_gain_db = bits(-0.0);
    assert!(!st.matches_params(&r), "the comparison is bit for bit");
    let _ = t;
}

#[test]
fn loaded_user_preset_matches_unless_mix_locked() {
    let t = table();
    let mut s = PluginParamsSnapshot::from_params(&params());
    s.room = 12;
    s.reverb_mix = bits(0.6);
    s.delay_time = bits(0.3);
    let mut st = SharedUserPresetState::new();
    st.set_snapshot(&snapshot_for_loaded_params(&s, &t));
    let loaded = load_into(&params(), &s, &t);
    assert_eq!(loaded.room, 29);
    assert!(st.matches_params(&loaded));

    let mut locked = params();
    locked.lock_reverb_mix = true;
    let loaded = load_into(&locked, &s, &t);
    assert_eq!(loaded.reverb_mix, bits(0.17));
    assert!(!st.matches_params(&loaded));
}

#[test]
fn tracker_starts_on_the_default_room() {
    let t = table();
    let tr = PresetTracker::new(&t);
    assert_eq!(tr.current_preset, t[5]);
    assert_eq!(tr.knob_snapshot, [0u32; 9]);
    assert_eq!(tr.last_room, -1);
    assert_eq!(tr.last_seed, -1);
}

#[test]
fn room_change_loads_row_with_moved_knobs_on_top() {
    let t = table();
    let mut tr = PresetTracker::new(&t);
    let mut p = params();
    p.room = 3;
    p.haas_time = bits(0.05);
    let knobs = build_preset_from_params(&p);
    tr.sync_room(3, &knobs, &t);
    let mut expected = t[3];
    for i in 0..9 {
        if f32::from_bits(knobs[i]) != f32::from_bits(t[3][i]) {
            expected[i] = knobs[i];
        }
    }
    assert_eq!(tr.current_preset, expected);
    assert_eq!(tr.current_preset[8], bits(0.05));
    assert_eq!(tr.knob_snapshot, knobs);
    assert_eq!(tr.last_room, 3);
}

#[test]
fn equal_knobs_keep_the_factory_bits() {
    let t = table();
    let mut tr = PresetTracker::new(&t);
    let mut knobs = t[5];
    knobs[2] = bits(-0.0);
    let mut zero_row = t[5];
    zero_row[2] = bits(0.0);
    let mut table2 = t.clone();
    table2[5] = zero_row;
    tr.sync_room(5, &knobs, &table2);
    assert_eq!(tr.current_preset, zero_row);
}

#[test]
fn custom_room_takes_the_knobs() {
    let t = table();
    let mut tr = PresetTracker::new(&t);
    let knobs = row([1.0, 1.0, 0.3, 0.4, 0.0, 0.2, 0.1, 0.0, 0.05]);
    tr.sync_room(29, &knobs, &t);
    assert_eq!(tr.current_preset, knobs);
    assert_eq!(tr.knob_snapshot, knobs);
}

#[test]
fn negative_room_loads_the_last_row() {
    let t = table();
    let mut tr = PresetTracker::new(&t);
    tr.sync_room(-1, &t[28], &t);
    assert_eq!(tr.last_room, -1);
    let mut tr = PresetTracker::new(&t);
    tr.sync_room(-2, &t[28], &t);
    assert_eq!(tr.current_preset, t[28]);
}

#[test]
fn steady_room_applies_only_moved_knobs() {
    let t = table();
    let mut tr = PresetTracker::new(&t);
    let p = params();
    let knobs = build_preset_from_params(&p);
    tr.sync_room(5, &knobs, &t);
    // The DSP row is patched behind the knobs' back; unmoved knobs keep it.
    tr.current_preset[3] = bits(0.5);
    let mut moved = knobs;
    moved[6] = bits(0.5);
    tr.sync_room(5, &moved, &t);
    assert_eq!(tr.current_preset[6], bits(0.5));
    assert_eq!(tr.current_preset[3], bits(0.5));
    assert_eq!(tr.knob_snapshot, moved);
    tr.forget_room();
    assert_eq!(tr.last_room, -1);
    tr.sync_room(5, &moved, &t);
    assert_eq!(tr.current_preset[3], t[5][3]);
}

#[test]
fn seed_is_handed_over_once_per_change() {
    let t = table();
    let mut tr = PresetTracker::new(&t);
    assert_eq!(tr.seed_change(42), Some(42));
    assert_eq!(tr.seed_change(42), None);
    assert_eq!(tr.seed_change(7), Some(7));
    assert_eq!(tr.last_seed, 7);
    assert_eq!(tr.seed_change(-1), Some(u64::MAX));
}

#[test]
fn every_block_leaves_the_dsp_row_on_the_knobs() {
    let t = table();
    let mut tr = PresetTracker::new(&t);
    let mut p = params();
    for (room, size) in [(5, 0.05f32), (5, 0.3), (29, 0.3), (29, 0.4), (3, -0.0), (3, 0.0)] {
        p.room = room;
        p.reverb_size = bits(size);
        let knobs = build_preset_from_params(&p);
        tr.sync_room(room, &knobs, &t);
        for i in 0..9 {
            assert_eq!(f32::from_bits(tr.current_preset[i]), f32::from_bits(knobs[i]));
            assert_eq!(f32::from_bits(tr.knob_snapshot[i]), f32::from_bits(knobs[i]));
        }
        assert_eq!(tr.last_room, room);
    }
}
