use goldsrc_plugin::float_bits::{f32_bits_eq, f32_bits_ge_half, f32_bits_is_zero};
use goldsrc_plugin::params::{build_preset_from_params, Knobs, ParamValues};
use goldsrc_plugin::presets::PluginParamsSnapshot;
use goldsrc_plugin::rooms::{
    apply_factory_preset, apply_snapshot_to_params, custom_room, effective_room_index,
    knobs_match, snapshot_for_loaded_params, snapshot_knobs, snapshot_target_room,
};

fn row(v: [f32; 9]) -> Knobs {
    let mut r = [0u32; 9];
    for i in 0..9 {
        r[i] = v[i].to_bits();
    }
    r
}

/// A room table of the factory's shape (29 rows of
/// `[lp, mod, size, refl, rvblp, delay, feedback, dlylp, left]`). Room 1 has
/// no reverb size, room 5 is the small tunnel (echo low-pass off, `2.0`),
/// room 23 a cavern with the echo low-pass on (`0.0`).
fn factory_table() -> Vec<Knobs> {
    let mut t = Vec::new();
    for i in 0..29 {
        let f = i as f32;
        t.push(row([0.0, 0.0, 0.0, 0.0, 1.0, 0.01 * f, 0.5, 2.0, 0.01]));
    }
    t[1] = row([0.0, 0.0, 0.0, 0.0, 1.0, 0.065, 0.1, 0.0, 0.01]);
    t[5] = row([0.0, 0.0, 0.05, 0.85, 1.0, 0.008, 0.96, 2.0, 0.01]);
    t[23] = row([0.0, 0.0, 0.0, 0.0, 1.0, 0.2, 0.85, 0.0, 0.01]);
    t
}

fn bits(v: f32) -> u32 {
    v.to_bits()
}

/// A snapshot whose knobs mirror room `room_index` of the table exactly.
fn snapshot_from_preset(table: &[Knobs], room_index: usize, room_value: i32) -> PluginParamsSnapshot {
    let p = table[room_index].map(f32::from_bits);
    PluginParamsSnapshot {
        room: room_value,
        reverb_mix: bits(0.17),
        delay_mix: bits(0.25),
        clip_soft: 0,
        enable_amplp: p[0] >= 0.5,
        enable_ampmod: p[1] >= 0.5,
        reverb_size: bits(p[2]),
        reverb_feedback: bits(p[3]),
        enable_revlp: p[4] >= 0.5,
        delay_time: bits(p[5]),
        delay_feedback: bits(p[6]),
        enable_dellp: p[7] == 0.0,
        haas_time: bits(p[8]),
        seed: 0,
        input_gain_db: bits(0.0),
        output_gain_db: bits(0.0),
    }
}

fn default_params() -> ParamValues {
    ParamValues {
        room: 5,
        reverb_mix: bits(0.17),
        lock_reverb_mix: false,
        delay_mix: bits(0.25),
        clip_soft: 2,
        enable_amplp: false,
        enable_ampmod: false,
        reverb_size: bits(0.05),
        reverb_feedback: bits(0.85),
        enable_revlp: true,
        delay_time: bits(0.008),
        delay_feedback: bits(0.96),
        enable_dellp: false,
        haas_time: bits(0.01),
        seed: 42,
        input_gain_db: bits(0.0),
        output_gain_db: bits(0.0),
        user_preset_idx: 0,
        preset_source_idx: 1,
        preset_display_idx: -1,
        window_size_idx: 0,
    }
}

#[test]
fn explicit_custom_room_returns_custom_room() {
    let table = factory_table();
    let mut s = snapshot_from_preset(&table, 5, 5);
    s.room = custom_room(&table);
    assert_eq!(
        snapshot_target_room(&s, &table),
        custom_room(&table),
        "snapshot.room == CUSTOM_ROOM must always return CUSTOM_ROOM"
    );
}

#[test]
fn exact_knob_match_resolves_to_room_index() {
    let table = factory_table();
    let s = snapshot_from_preset(&table, 5, 5);
    assert_eq!(snapshot_target_room(&s, &table), 5, "room 5 exact match must return 5");
    let s = snapshot_from_preset(&table, 23, 23);
    assert_eq!(snapshot_target_room(&s, &table), 23, "room 23 exact match must return 23");
}

#[test]
fn mismatched_knobs_fall_through_to_custom_room() {
    let table = factory_table();
    let mut s = snapshot_from_preset(&table, 1, 1);
    s.reverb_size = bits(0.99);
    assert_eq!(
        snapshot_target_room(&s, &table),
        custom_room(&table),
        "modified knobs must resolve to CUSTOM_ROOM even if room field is valid"
    );
}

#[test]
fn enable_dellp_inversion_round_trips_correctly() {
    let table = factory_table();
    let s = snapshot_from_preset(&table, 23, 23);
    assert!(s.enable_dellp, "PRESETS[23][7]=0.0 should map to enable_dellp=true");
    assert_eq!(
        f32::from_bits(snapshot_knobs(&s)[7]),
        0.0,
        "snapshot_knobs must emit 0.0 when enable_dellp=true"
    );
    let s = snapshot_from_preset(&table, 5, 5);
    assert!(!s.enable_dellp, "PRESETS[5][7]=2.0 should map to enable_dellp=false");
    assert_eq!(
        f32::from_bits(snapshot_knobs(&s)[7]),
        2.0,
        "snapshot_knobs must emit 2.0 when enable_dellp=false"
    );
}

#[test]
fn custom_room_is_one_past_the_factory_rooms() {
    assert_eq!(custom_room(&factory_table()), 29);
}

#[test]
fn float_equality_follows_ieee() {
    assert!(f32_bits_eq(bits(0.0), bits(-0.0)));
    assert!(f32_bits_eq(bits(0.85), bits(0.85)));
    assert!(!f32_bits_eq(bits(0.85), bits(0.86)));
    assert!(!f32_bits_eq(bits(f32::NAN), bits(f32::NAN)));
    assert!(f32_bits_ge_half(bits(0.5)));
    assert!(f32_bits_ge_half(bits(f32::INFINITY)));
    assert!(!f32_bits_ge_half(bits(0.49)));
    assert!(!f32_bits_ge_half(bits(-1.0)));
    assert!(!f32_bits_ge_half(bits(f32::NAN)));
    assert!(f32_bits_is_zero(bits(-0.0)));
    assert!(!f32_bits_is_zero(bits(2.0)));
}

#[test]
fn knobs_match_compares_as_floats() {
    let a = row([0.0, 0.0, 0.05, 0.85, 1.0, 0.008, 0.96, 2.0, 0.01]);
    let b = row([-0.0, 0.0, 0.05, 0.85, 1.0, 0.008, 0.96, 2.0, 0.01]);
    assert!(knobs_match(&a, &b));
    let c = row([0.0, 0.0, 0.05, 0.85, 1.0, 0.008, 0.96, 2.0, f32::NAN]);
    assert!(!knobs_match(&c, &c));
}

#[test]
fn build_preset_maps_switches_to_knobs() {
    let mut p = default_params();
    p.enable_amplp = true;
    p.enable_dellp = true;
    let k = build_preset_from_params(&p).map(f32::from_bits);
    assert_eq!(k, [1.0, 0.0, 0.05, 0.85, 1.0, 0.008, 0.96, 0.0, 0.01]);
}

#[test]
fn effective_room_follows_the_knobs() {
    let table = factory_table();
    let mut p = default_params();
    assert_eq!(effective_room_index(&p, &table), 5);
    p.reverb_size = bits(0.5);
    assert_eq!(effective_room_index(&p, &table), 29);
    let mut q = default_params();
    q.room = 29;
    assert_eq!(effective_room_index(&q, &table), 29);
    q.room = 400;
    assert_eq!(effective_room_index(&q, &table), 29);
    q.room = -7;
    assert_eq!(effective_room_index(&q, &table), 29);
}

#[test]
fn snapshot_target_room_clamps_negative_rooms() {
    let table = factory_table();
    let s = snapshot_from_preset(&table, 0, -4);
    assert_eq!(snapshot_target_room(&s, &table), 0);
}

#[test]
fn snapshot_for_loaded_params_only_replaces_the_room() {
    let table = factory_table();
    let mut s = snapshot_from_preset(&table, 5, 5);
    s.haas_time = bits(0.09);
    let n = snapshot_for_loaded_params(&s, &table);
    assert_eq!(n.room, 29);
    assert_eq!(PluginParamsSnapshot { room: s.room, ..n }, s);
}

#[test]
fn factory_preset_settings_follow_the_row() {
    let table = factory_table();
    let f = apply_factory_preset(&table, 23);
    assert_eq!(f.room, 23);
    assert!(!f.enable_amplp);
    assert!(f.enable_revlp);
    assert!(f.enable_dellp);
    assert_eq!(f.delay_time, bits(0.2));
    let last = apply_factory_preset(&table, 1000);
    assert_eq!(last.room, 28);
    let five = apply_factory_preset(&table, 5);
    assert!(!five.enable_dellp);
    assert_eq!(five.reverb_size, bits(0.05));
}

#[test]
fn snapshot_writes_respect_the_mix_lock() {
    let table = factory_table();
    let mut s = snapshot_from_preset(&table, 5, 5);
    s.reverb_mix = bits(0.4);
    s.seed = 7;
    let w = apply_snapshot_to_params(false, &s, &table);
    assert_eq!(w.reverb_mix, Some(bits(0.4)));
    assert_eq!(w.room, 5);
    assert_eq!(w.seed, 7);
    let locked = apply_snapshot_to_params(true, &s, &table);
    assert_eq!(locked.reverb_mix, None);
    s.delay_time = bits(0.3);
    assert_eq!(apply_snapshot_to_params(false, &s, &table).room, 29);
}

#[test]
fn selected_factory_room_is_not_marked_modified() {
    let table = factory_table();
    let mut p = default_params();
    p.reverb_size = bits(0.7);
    p.enable_amplp = true;
    let f = apply_factory_preset(&table, 23);
    let q = ParamValues {
        room: f.room,
        enable_amplp: f.enable_amplp,
        enable_ampmod: f.enable_ampmod,
        reverb_size: f.reverb_size,
        reverb_feedback: f.reverb_feedback,
        enable_revlp: f.enable_revlp,
        delay_time: f.delay_time,
        delay_feedback: f.delay_feedback,
        enable_dellp: f.enable_dellp,
        haas_time: f.haas_time,
        ..p
    };
    assert_eq!(effective_room_index(&q, &table), 23);
    let s = PluginParamsSnapshot::from_params(&q);
    assert_eq!(snapshot_target_room(&s, &table), 23);
}
