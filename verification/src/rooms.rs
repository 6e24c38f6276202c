//! Which room a set of knob values stands for, and what selecting a factory
//! room or loading a user preset writes into the parameters.
use vstd::prelude::*;
use crate::float_bits::{
    f32_bits_eq, f32_bits_ge_half, f32_bits_is_zero, f32_eq, f32_ge_half, is_nan, is_zero, F32_ONE,
    F32_TWO, F32_ZERO,
};
use crate::params::{make_knobs, Knobs, ParamValues};
use crate::presets::{snapshot_of, PluginParamsSnapshot};

verus! {

/// Two knob rows are equal as `[f32; 9]` values.
pub open spec fn rows_equal(a: Seq<u32>, b: Seq<u32>) -> bool {
    forall|i: int| 0 <= i < 9 ==> f32_eq(#[trigger] a[i], b[i])
}

/// `i32::clamp`.
pub open spec fn clamp(v: int, lo: int, hi: int) -> int {
    if v < lo {
        lo
    } else if v > hi {
        hi
    } else {
        v
    }
}

/// The custom room: the room index one past the last factory room.
pub fn custom_room(presets: &[Knobs]) -> (r: i32)
    requires
        presets@.len() <= i32::MAX,
    ensures
        r == presets@.len(),
{
    presets.len() as i32
}

/// Whether two knob rows are equal as `[f32; 9]` values.
pub fn knobs_match(a: &Knobs, b: &Knobs) -> (r: bool)
    ensures
        r == rows_equal(a@, b@),
{
    let mut i: usize = 0;
    while i < 9
        invariant
            i <= 9,
            forall|j: int| 0 <= j < i ==> f32_eq(#[trigger] a@[j], b@[j]),
        decreases 9 - i,
    {
        if !f32_bits_eq(a[i], b[i]) {
            assert(!f32_eq(a@[i as int], b@[i as int]));
            return false;
        }
        i = i + 1;
    }
    true
}

/// The room that the parameters stand for: their room when it is a factory
/// room whose row equals the knobs, else the custom room.
pub open spec fn effective_room(p: ParamValues, table: Seq<Knobs>) -> int {
    let custom = table.len() as int;
    let room = clamp(p.room as int, 0, custom);
    if room >= table.len() {
        custom
    } else if rows_equal(p.knobs(), table[room]@) {
        room
    } else {
        custom
    }
}

/// The room that the parameters stand for: their (clamped) room when it is a
/// factory room whose row equals the current knobs, else the custom room.
pub fn effective_room_index(params: &ParamValues, presets: &[Knobs]) -> (r: usize)
    requires
        presets@.len() <= i32::MAX,
    ensures
        r == effective_room(*params, presets@),
        // A factory room is reported only for the parameters' own (clamped)
        // room, and only when all nine knobs equal its row as `f32` values.
        r == presets@.len() || r == clamp(params.room as int, 0, presets@.len() as int),
        r < presets@.len() ==> forall|i: int|
            0 <= i < 9 ==> f32_eq(#[trigger] params.knobs()[i], presets@[r as int]@[i]),
        // A knob that differs from the row of the selected room makes it custom.
        ({
            let room = clamp(params.room as int, 0, presets@.len() as int);
            room < presets@.len() && (exists|i: int|
                0 <= i < 9 && !f32_eq(#[trigger] params.knobs()[i], presets@[room]@[i]))
                ==> r == presets@.len()
        }),
        // All nine knobs equal to the row of the selected room keep it.
        ({
            let room = clamp(params.room as int, 0, presets@.len() as int);
            room < presets@.len() && (forall|i: int|
                0 <= i < 9 ==> f32_eq(#[trigger] params.knobs()[i], presets@[room]@[i]))
                ==> r == room
        }),
{
    let custom = custom_room(presets);
    let room = if params.room < 0 {
        0
    } else if params.room > custom {
        custom
    } else {
        params.room
    } as usize;
    if room >= presets.len() {
        return custom as usize;
    }
    let knobs = crate::params::build_preset_from_params(params);
    if knobs_match(&knobs, &presets[room]) {
        room
    } else {
        custom as usize
    }
}

/// The knob row of a snapshot.
pub fn snapshot_knobs(snapshot: &PluginParamsSnapshot) -> (r: Knobs)
    ensures
        r@ == snapshot.knobs(),
{
    make_knobs(
        snapshot.enable_amplp,
        snapshot.enable_ampmod,
        snapshot.reverb_size,
        snapshot.reverb_feedback,
        snapshot.enable_revlp,
        snapshot.delay_time,
        snapshot.delay_feedback,
        snapshot.enable_dellp,
        snapshot.haas_time,
    )
}

/// The room that loading a snapshot selects: the custom room when the
/// snapshot names it, else the snapshot's (clamped) factory room if its row
/// equals the snapshot's knobs, else the custom room.
pub open spec fn target_room(s: PluginParamsSnapshot, table: Seq<Knobs>) -> int {
    let custom = table.len() as int;
    let room = clamp(s.room as int, 0, custom);
    if room == custom {
        custom
    } else if rows_equal(s.knobs(), table[room]@) {
        room
    } else {
        custom
    }
}

/// The room that loading a snapshot selects.
pub fn snapshot_target_room(snapshot: &PluginParamsSnapshot, presets: &[Knobs]) -> (r: i32)
    requires
        presets@.len() <= i32::MAX,
    ensures
        r == target_room(*snapshot, presets@),
        r == presets@.len() || r == clamp(snapshot.room as int, 0, presets@.len() as int),
        0 <= r <= presets@.len(),
        r != presets@.len() ==> rows_equal(snapshot.knobs(), presets@[r as int]@),
{
    let custom = custom_room(presets);
    let room = if snapshot.room < 0 {
        0
    } else if snapshot.room > custom {
        custom
    } else {
        snapshot.room
    };
    if room == custom {
        return custom;
    }
    let room_index = room as usize;
    if room_index >= presets.len() {
        return custom;
    }
    let knobs = snapshot_knobs(snapshot);
    if knobs_match(&knobs, &presets[room_index]) {
        room
    } else {
        custom
    }
}

/// The snapshot with its room replaced by the room that loading it selects.
pub open spec fn normalized_snapshot(s: PluginParamsSnapshot, table: Seq<Knobs>) -> PluginParamsSnapshot {
    PluginParamsSnapshot { room: target_room(s, table) as i32, ..s }
}

/// The snapshot that loaded parameters are compared against: the snapshot
/// with its room replaced by the room that loading it selects.
pub fn snapshot_for_loaded_params(snapshot: &PluginParamsSnapshot, presets: &[Knobs]) -> (r:
    PluginParamsSnapshot)
    requires
        presets@.len() <= i32::MAX,
    ensures
        r == normalized_snapshot(*snapshot, presets@),
{
    let mut normalized = *snapshot;
    normalized.room = snapshot_target_room(snapshot, presets);
    normalized
}

/// What selecting a factory room writes into the parameters.
#[derive(Debug, Clone, Copy, PartialEq, Eq, Structural)]
pub struct FactoryPresetSettings {
    pub room: i32,
    pub enable_amplp: bool,
    pub enable_ampmod: bool,
    pub reverb_size: u32,
    pub reverb_feedback: u32,
    pub enable_revlp: bool,
    pub delay_time: u32,
    pub delay_feedback: u32,
    pub enable_dellp: bool,
    pub haas_time: u32,
}

/// The factory room that selecting entry `idx` picks: `idx`, or the last room
/// when `idx` lies past it.
pub open spec fn factory_room(idx: int, n: int) -> int {
    if idx < n - 1 {
        idx
    } else {
        n - 1
    }
}

/// The settings that select factory room `room` of the table: switches are on
/// when their knob is at least `0.5`, the echo low-pass when its knob is
/// `0.0`, and the other knobs are copied.
pub open spec fn factory_settings(table: Seq<Knobs>, room: int) -> FactoryPresetSettings {
    let row = table[room]@;
    FactoryPresetSettings {
        room: room as i32,
        enable_amplp: f32_ge_half(row[0]),
        enable_ampmod: f32_ge_half(row[1]),
        reverb_size: row[2],
        reverb_feedback: row[3],
        enable_revlp: f32_ge_half(row[4]),
        delay_time: row[5],
        delay_feedback: row[6],
        enable_dellp: is_zero(row[7]),
        haas_time: row[8],
    }
}

/// What selecting factory entry `room_idx` writes into the parameters.
pub fn apply_factory_preset(presets: &[Knobs], room_idx: usize) -> (r: FactoryPresetSettings)
    requires
        1 <= presets@.len() <= i32::MAX,
    ensures
        r == factory_settings(presets@, factory_room(room_idx as int, presets@.len() as int)),
        // The picked room itself, or the last room for an entry past it.
        r.room == if room_idx < presets@.len() {
            room_idx as int
        } else {
            presets@.len() - 1
        },
        // The knob settings come from that room's row.
        r.enable_amplp == f32_ge_half(presets@[r.room as int]@[0]),
        r.enable_ampmod == f32_ge_half(presets@[r.room as int]@[1]),
        r.reverb_size == presets@[r.room as int]@[2],
        r.reverb_feedback == presets@[r.room as int]@[3],
        r.enable_revlp == f32_ge_half(presets@[r.room as int]@[4]),
        r.delay_time == presets@[r.room as int]@[5],
        r.delay_feedback == presets@[r.room as int]@[6],
        r.enable_dellp == is_zero(presets@[r.room as int]@[7]),
        r.haas_time == presets@[r.room as int]@[8],
{
    let last = presets.len() - 1;
    let room = if room_idx < last {
        room_idx
    } else {
        last
    };
    let preset = &presets[room];
    FactoryPresetSettings {
        room: room as i32,
        enable_amplp: f32_bits_ge_half(preset[0]),
        enable_ampmod: f32_bits_ge_half(preset[1]),
        reverb_size: preset[2],
        reverb_feedback: preset[3],
        enable_revlp: f32_bits_ge_half(preset[4]),
        delay_time: preset[5],
        delay_feedback: preset[6],
        enable_dellp: f32_bits_is_zero(preset[7]),
        haas_time: preset[8],
    }
}

/// The parameters after a factory room has been selected.
pub open spec fn with_factory_settings(p: ParamValues, f: FactoryPresetSettings) -> ParamValues {
    ParamValues {
        room: f.room,
        enable_amplp: f.enable_amplp,
        enable_ampmod: f.enable_ampmod,
        reverb_size: f.reverb_size,
        reverb_feedback: f.reverb_feedback,
        enable_revlp: f.enable_revlp,
        delay_time: f.delay_time,
        delay_feedback: f.delay_feedback,
        enable_dellp: f.enable_dellp,
        haas_time: f.haas_time,
        ..p
    }
}

/// What loading a user preset writes into the parameters; the reverb mix is
/// left out (`None`) while it is locked.
#[derive(Debug, Clone, Copy, PartialEq, Eq, Structural)]
pub struct SnapshotWrites {
    pub reverb_mix: Option<u32>,
    pub delay_mix: u32,
    pub clip_soft: i32,
    pub enable_amplp: bool,
    pub enable_ampmod: bool,
    pub reverb_size: u32,
    pub reverb_feedback: u32,
    pub enable_revlp: bool,
    pub delay_time: u32,
    pub delay_feedback: u32,
    pub enable_dellp: bool,
    pub haas_time: u32,
    pub seed: i32,
    pub input_gain_db: u32,
    pub output_gain_db: u32,
    pub room: i32,
}

/// The writes that load snapshot `s`: every value of the snapshot, the reverb
/// mix only when it is not locked, and the room that loading it selects.
pub open spec fn snapshot_writes(lock_reverb_mix: bool, s: PluginParamsSnapshot, table: Seq<Knobs>) -> SnapshotWrites {
    SnapshotWrites {
        reverb_mix: if lock_reverb_mix {
            None
        } else {
            Some(s.reverb_mix)
        },
        delay_mix: s.delay_mix,
        clip_soft: s.clip_soft,
        enable_amplp: s.enable_amplp,
        enable_ampmod: s.enable_ampmod,
        reverb_size: s.reverb_size,
        reverb_feedback: s.reverb_feedback,
        enable_revlp: s.enable_revlp,
        delay_time: s.delay_time,
        delay_feedback: s.delay_feedback,
        enable_dellp: s.enable_dellp,
        haas_time: s.haas_time,
        seed: s.seed,
        input_gain_db: s.input_gain_db,
        output_gain_db: s.output_gain_db,
        room: target_room(s, table) as i32,
    }
}

/// The parameters after the writes of a user preset.
pub open spec fn with_snapshot_writes(p: ParamValues, w: SnapshotWrites) -> ParamValues {
    ParamValues {
        reverb_mix: match w.reverb_mix {
            Some(v) => v,
            None => p.reverb_mix,
        },
        delay_mix: w.delay_mix,
        clip_soft: w.clip_soft,
        enable_amplp: w.enable_amplp,
        enable_ampmod: w.enable_ampmod,
        reverb_size: w.reverb_size,
        reverb_feedback: w.reverb_feedback,
        enable_revlp: w.enable_revlp,
        delay_time: w.delay_time,
        delay_feedback: w.delay_feedback,
        enable_dellp: w.enable_dellp,
        haas_time: w.haas_time,
        seed: w.seed,
        input_gain_db: w.input_gain_db,
        output_gain_db: w.output_gain_db,
        room: w.room,
        ..p
    }
}

/// What loading user preset `snapshot` writes into the parameters, given
/// whether the reverb mix is locked.
pub fn apply_snapshot_to_params(lock_reverb_mix: bool, snapshot: &PluginParamsSnapshot, presets: &[Knobs]) -> (r: SnapshotWrites)
    requires
        presets@.len() <= i32::MAX,
    ensures
        r == snapshot_writes(lock_reverb_mix, *snapshot, presets@),
{
    let reverb_mix = if lock_reverb_mix {
        None
    } else {
        Some(snapshot.reverb_mix)
    };
    let room = snapshot_target_room(snapshot, presets);
    SnapshotWrites {
        reverb_mix,
        delay_mix: snapshot.delay_mix,
        clip_soft: snapshot.clip_soft,
        enable_amplp: snapshot.enable_amplp,
        enable_ampmod: snapshot.enable_ampmod,
        reverb_size: snapshot.reverb_size,
        reverb_feedback: snapshot.reverb_feedback,
        enable_revlp: snapshot.enable_revlp,
        delay_time: snapshot.delay_time,
        delay_feedback: snapshot.delay_feedback,
        enable_dellp: snapshot.enable_dellp,
        haas_time: snapshot.haas_time,
        seed: snapshot.seed,
        input_gain_db: snapshot.input_gain_db,
        output_gain_db: snapshot.output_gain_db,
        room,
    }
}

/// A factory row that the individual knobs can hold exactly: its switches
/// are `0.0` or `1.0`, its echo low-pass is `0.0` or `2.0`, and no value is NaN.
pub open spec fn row_is_representable(row: Seq<u32>) -> bool {
    &&& row[0] == F32_ZERO || row[0] == F32_ONE
    &&& row[1] == F32_ZERO || row[1] == F32_ONE
    &&& row[4] == F32_ZERO || row[4] == F32_ONE
    &&& row[7] == F32_ZERO || row[7] == F32_TWO
    &&& !is_nan(row[2])
    &&& !is_nan(row[3])
    &&& !is_nan(row[5])
    &&& !is_nan(row[6])
    &&& !is_nan(row[8])
}

/// Selecting a factory room whose row the knobs can hold leaves the
/// parameters standing for that room (no ` *` is shown), and a snapshot of
/// them, when loaded, selects that room again.
pub proof fn law_factory_preset_selects_its_room(p: ParamValues, table: Seq<Knobs>, idx: int)
    requires
        1 <= table.len() <= i32::MAX,
        0 <= idx,
        row_is_representable(table[factory_room(idx, table.len() as int)]@),
    ensures
        ({
            let room = factory_room(idx, table.len() as int);
            let q = with_factory_settings(p, factory_settings(table, room));
            &&& effective_room(q, table) == room
            &&& target_room(snapshot_of(q), table) == room
        }),
{
    let room = factory_room(idx, table.len() as int);
    let row = table[room]@;
    let q = with_factory_settings(p, factory_settings(table, room));
    assert(q.knobs() =~= row);
    assert forall|i: int| 0 <= i < 9 implies f32_eq(#[trigger] q.knobs()[i], row[i]) by {
        assert(q.knobs()[i] == row[i]);
    }
    assert(snapshot_of(q).knobs() == q.knobs());
}

/// The room that the parameters stand for is a factory room only when it is
/// their own (clamped) room and all nine knobs equal its row as `f32`
/// values; a single knob that differs from that row makes it the custom
/// room, and a room whose row all knobs equal is kept.
pub proof fn law_effective_room_compares_every_knob(p: ParamValues, table: Seq<Knobs>)
    requires
        table.len() <= i32::MAX,
    ensures
        ({
            let r = effective_room(p, table);
            let room = clamp(p.room as int, 0, table.len() as int);
            &&& r == table.len() || r == room
            &&& r < table.len() ==> forall|i: int|
                0 <= i < 9 ==> f32_eq(#[trigger] p.knobs()[i], table[r]@[i])
            &&& room < table.len() && (exists|i: int|
                0 <= i < 9 && !f32_eq(#[trigger] p.knobs()[i], table[room]@[i]))
                ==> r == table.len()
            &&& room < table.len() && (forall|i: int|
                0 <= i < 9 ==> f32_eq(#[trigger] p.knobs()[i], table[room]@[i]))
                ==> r == room
        }),
{
}

/// Picking factory entry `idx` selects room `idx` itself when there is such
/// a room, and the last room only for an entry past it; the settings carry
/// that room and the values of its row.
pub proof fn law_factory_entry_selects_that_room(table: Seq<Knobs>, idx: int)
    requires
        1 <= table.len() <= i32::MAX,
        0 <= idx,
    ensures
        idx < table.len() ==> factory_room(idx, table.len() as int) == idx,
        idx >= table.len() ==> factory_room(idx, table.len() as int) == table.len() - 1,
        ({
            let room = if idx < table.len() {
                idx
            } else {
                table.len() - 1
            };
            let f = factory_settings(table, factory_room(idx, table.len() as int));
            let row = table[room]@;
            &&& f.room == room
            &&& f.enable_amplp == f32_ge_half(row[0])
            &&& f.enable_ampmod == f32_ge_half(row[1])
            &&& f.reverb_size == row[2]
            &&& f.reverb_feedback == row[3]
            &&& f.enable_revlp == f32_ge_half(row[4])
            &&& f.delay_time == row[5]
            &&& f.delay_feedback == row[6]
            &&& f.enable_dellp == is_zero(row[7])
            &&& f.haas_time == row[8]
        }),
{
}

/// A snapshot whose knobs equal the row of the factory room it names
/// resolves back to that room when loaded; one naming the custom room stays
/// custom whatever its knobs.
pub proof fn law_matching_snapshot_resolves_to_its_room(s: PluginParamsSnapshot, table: Seq<Knobs>)
    requires
        table.len() <= i32::MAX,
    ensures
        0 <= s.room < table.len() && rows_equal(s.knobs(), table[s.room as int]@) ==> target_room(
            s,
            table,
        ) == s.room,
        s.room == table.len() ==> target_room(s, table) == table.len(),
{
}

} // verus!
