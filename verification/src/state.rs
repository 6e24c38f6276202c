//! State that the plugin keeps across audio blocks and editor events: the user
//! preset that was last loaded, and the DSP preset row built from the knobs.
use vstd::prelude::*;
use crate::float_bits::{f32_bits_eq, f32_eq, is_nan, same_value, lemma_same_value_equivalence};
use crate::params::{Knobs, ParamValues};
use crate::presets::{snapshot_of, PluginParamsSnapshot};
use crate::rooms::{normalized_snapshot, rows_equal, snapshot_writes, with_snapshot_writes};

verus! {

/// What the user preset state holds.
pub struct UserPresetView {
    /// A user preset has been loaded since the editor opened.
    pub has_snapshot: bool,
    /// The parameters matched that preset when last compared.
    pub matches_current: bool,
    /// The values of the loaded preset, as the parameters should show them.
    pub snapshot: PluginParamsSnapshot,
}

/// The user preset that was last loaded, and whether the parameters still
/// match it (the editor marks a modified preset with ` *`).
pub struct SharedUserPresetState {
    has_snapshot: bool,
    matches_current: bool,
    snapshot: PluginParamsSnapshot,
}

/// The snapshot with every value zero.
pub open spec fn zero_snapshot() -> PluginParamsSnapshot {
    PluginParamsSnapshot {
        room: 0,
        reverb_mix: 0,
        delay_mix: 0,
        clip_soft: 0,
        enable_amplp: false,
        enable_ampmod: false,
        reverb_size: 0,
        reverb_feedback: 0,
        enable_revlp: false,
        delay_time: 0,
        delay_feedback: 0,
        enable_dellp: false,
        haas_time: 0,
        seed: 0,
        input_gain_db: 0,
        output_gain_db: 0,
    }
}

/// Whether the parameters match the loaded preset: always when none was
/// loaded, else when every stored value equals the parameter's, bit for bit.
pub open spec fn preset_matches(v: UserPresetView, p: ParamValues) -> bool {
    !v.has_snapshot || v.snapshot == snapshot_of(p)
}

impl View for SharedUserPresetState {
    type V = UserPresetView;

    closed spec fn view(&self) -> UserPresetView {
        UserPresetView {
            has_snapshot: self.has_snapshot,
            matches_current: self.matches_current,
            snapshot: self.snapshot,
        }
    }
}

impl SharedUserPresetState {
    /// No preset loaded; the parameters count as matching.
    pub fn new() -> (r: Self)
        ensures
            r@ == (UserPresetView {
                has_snapshot: false,
                matches_current: true,
                snapshot: zero_snapshot(),
            }),
    {
        SharedUserPresetState {
            has_snapshot: false,
            matches_current: true,
            snapshot: PluginParamsSnapshot {
                room: 0,
                reverb_mix: 0,
                delay_mix: 0,
                clip_soft: 0,
                enable_amplp: false,
                enable_ampmod: false,
                reverb_size: 0,
                reverb_feedback: 0,
                enable_revlp: false,
                delay_time: 0,
                delay_feedback: 0,
                enable_dellp: false,
                haas_time: 0,
                seed: 0,
                input_gain_db: 0,
                output_gain_db: 0,
            },
        }
    }

    /// Records a loaded preset; the parameters count as matching it.
    pub fn set_snapshot(&mut self, snapshot: &PluginParamsSnapshot)
        ensures
            final(self)@ == (UserPresetView {
                has_snapshot: true,
                matches_current: true,
                snapshot: *snapshot,
            }),
    {
        self.snapshot = *snapshot;
        self.has_snapshot = true;
        self.matches_current = true;
    }

    /// Whether the parameters match the loaded preset.
    pub fn matches_params(&self, params: &ParamValues) -> (r: bool)
        ensures
            r == preset_matches(self@, *params),
            // With no preset loaded the parameters always match; with one
            // loaded, they match exactly when all sixteen stored values equal
            // the parameters bit for bit.
            !self@.has_snapshot ==> r,
            self@.has_snapshot ==> (r <==> (self@.snapshot.room == params.room
                && self@.snapshot.reverb_mix == params.reverb_mix
                && self@.snapshot.delay_mix == params.delay_mix
                && self@.snapshot.clip_soft == params.clip_soft
                && self@.snapshot.enable_amplp == params.enable_amplp
                && self@.snapshot.enable_ampmod == params.enable_ampmod
                && self@.snapshot.reverb_size == params.reverb_size
                && self@.snapshot.reverb_feedback == params.reverb_feedback
                && self@.snapshot.enable_revlp == params.enable_revlp
                && self@.snapshot.delay_time == params.delay_time
                && self@.snapshot.delay_feedback == params.delay_feedback
                && self@.snapshot.enable_dellp == params.enable_dellp
                && self@.snapshot.haas_time == params.haas_time
                && self@.snapshot.seed == params.seed
                && self@.snapshot.input_gain_db == params.input_gain_db
                && self@.snapshot.output_gain_db == params.output_gain_db)),
    {
        if !self.has_snapshot {
            return true;
        }
        let s = &self.snapshot;
        s.room == params.room && s.reverb_mix == params.reverb_mix && s.delay_mix
            == params.delay_mix && s.clip_soft == params.clip_soft && s.enable_amplp
            == params.enable_amplp && s.enable_ampmod == params.enable_ampmod && s.reverb_size
            == params.reverb_size && s.reverb_feedback == params.reverb_feedback && s.enable_revlp
            == params.enable_revlp && s.delay_time == params.delay_time && s.delay_feedback
            == params.delay_feedback && s.enable_dellp == params.enable_dellp && s.haas_time
            == params.haas_time && s.seed == params.seed && s.input_gain_db
            == params.input_gain_db && s.output_gain_db == params.output_gain_db
    }

    /// Compares the parameters with the loaded preset and records the outcome.
    pub fn update_match_flag(&mut self, params: &ParamValues)
        ensures
            final(self)@ == (UserPresetView {
                matches_current: preset_matches(old(self)@, *params),
                ..old(self)@
            }),
            final(self)@.has_snapshot == old(self)@.has_snapshot,
            final(self)@.snapshot == old(self)@.snapshot,
            !old(self)@.has_snapshot ==> final(self)@.matches_current,
            old(self)@.has_snapshot ==> (final(self)@.matches_current <==> (old(self)@.snapshot.room == params.room
                && old(self)@.snapshot.reverb_mix == params.reverb_mix
                && old(self)@.snapshot.delay_mix == params.delay_mix
                && old(self)@.snapshot.clip_soft == params.clip_soft
                && old(self)@.snapshot.enable_amplp == params.enable_amplp
                && old(self)@.snapshot.enable_ampmod == params.enable_ampmod
                && old(self)@.snapshot.reverb_size == params.reverb_size
                && old(self)@.snapshot.reverb_feedback == params.reverb_feedback
                && old(self)@.snapshot.enable_revlp == params.enable_revlp
                && old(self)@.snapshot.delay_time == params.delay_time
                && old(self)@.snapshot.delay_feedback == params.delay_feedback
                && old(self)@.snapshot.enable_dellp == params.enable_dellp
                && old(self)@.snapshot.haas_time == params.haas_time
                && old(self)@.snapshot.seed == params.seed
                && old(self)@.snapshot.input_gain_db == params.input_gain_db
                && old(self)@.snapshot.output_gain_db == params.output_gain_db)),
    {
        self.matches_current = self.matches_params(params);
    }

    /// Whether the parameters matched the loaded preset when last compared.
    pub fn matches_current(&self) -> (r: bool)
        ensures
            r == self@.matches_current,
    {
        self.matches_current
    }
}

/// Loading a user preset leaves the parameters matching it, so no ` *` is
/// shown, unless the reverb mix is locked at a value other than the preset's:
/// after the preset's writes and the recording of its comparison snapshot,
/// the parameters match exactly when the mix is unlocked or already equal.
pub proof fn law_loaded_preset_matches(
    params: ParamValues,
    snapshot: PluginParamsSnapshot,
    table: Seq<Knobs>,
    lock_reverb_mix: bool,
)
    ensures
        preset_matches(
            UserPresetView {
                has_snapshot: true,
                matches_current: true,
                snapshot: normalized_snapshot(snapshot, table),
            },
            with_snapshot_writes(params, snapshot_writes(lock_reverb_mix, snapshot, table)),
        ) <==> (!lock_reverb_mix || params.reverb_mix == snapshot.reverb_mix),
{
    let loaded = with_snapshot_writes(params, snapshot_writes(lock_reverb_mix, snapshot, table));
    if !lock_reverb_mix || params.reverb_mix == snapshot.reverb_mix {
        assert(normalized_snapshot(snapshot, table) == snapshot_of(loaded));
    } else {
        assert(normalized_snapshot(snapshot, table).reverb_mix != snapshot_of(loaded).reverb_mix);
    }
}

/// With a preset loaded, the parameters match it exactly when every one of
/// the sixteen stored values equals the corresponding parameter bit for bit:
/// a change to any single one of them (the echo level among them) is seen.
pub proof fn law_preset_matches_field_by_field(v: UserPresetView, p: ParamValues)
    ensures
        !v.has_snapshot ==> preset_matches(v, p),
        v.has_snapshot ==> (preset_matches(v, p) <==> (v.snapshot.room == p.room
            && v.snapshot.reverb_mix == p.reverb_mix
            && v.snapshot.delay_mix == p.delay_mix
            && v.snapshot.clip_soft == p.clip_soft
            && v.snapshot.enable_amplp == p.enable_amplp
            && v.snapshot.enable_ampmod == p.enable_ampmod
            && v.snapshot.reverb_size == p.reverb_size
            && v.snapshot.reverb_feedback == p.reverb_feedback
            && v.snapshot.enable_revlp == p.enable_revlp
            && v.snapshot.delay_time == p.delay_time
            && v.snapshot.delay_feedback == p.delay_feedback
            && v.snapshot.enable_dellp == p.enable_dellp
            && v.snapshot.haas_time == p.haas_time
            && v.snapshot.seed == p.seed
            && v.snapshot.input_gain_db == p.input_gain_db
            && v.snapshot.output_gain_db == p.output_gain_db)),
{
}

/// Moving one parameter away from a loaded preset (here the echo level, the
/// delay mix) makes the parameters stop matching it, whatever else holds.
pub proof fn law_moved_delay_mix_breaks_match(v: UserPresetView, p: ParamValues, delay_mix: u32)
    requires
        v.has_snapshot,
        v.snapshot == snapshot_of(p),
        delay_mix != p.delay_mix,
    ensures
        preset_matches(v, p),
        !preset_matches(v, ParamValues { delay_mix, ..p }),
{
}

/// A snapshot taken of the current parameters matches them.
pub proof fn law_snapshot_of_params_matches(params: ParamValues)
    ensures
        preset_matches(
            UserPresetView { has_snapshot: true, matches_current: true, snapshot: snapshot_of(params) },
            params,
        ),
{
}

/// The factory room whose row is loaded when the room parameter changes to
/// `room`: a negative room, or one past the last, loads the last room.
pub open spec fn loaded_room(room: int, n: int) -> int {
    if room < 0 || room >= n - 1 {
        n - 1
    } else {
        room
    }
}

/// The DSP row after a factory row is loaded: each knob whose value differs
/// (as `f32`) from the row replaces the row's value.
pub open spec fn patched_row(row: Seq<u32>, knobs: Seq<u32>) -> Seq<u32> {
    Seq::new(9, |i: int| if !f32_eq(knobs[i], row[i]) { knobs[i] } else { row[i] })
}

/// The DSP row after a block in the same room: each knob that moved (differs,
/// as `f32`, from its last seen value) replaces the DSP row's value.
pub open spec fn tweaked_row(current: Seq<u32>, seen: Seq<u32>, knobs: Seq<u32>) -> Seq<u32> {
    Seq::new(9, |i: int| if !f32_eq(knobs[i], seen[i]) { knobs[i] } else { current[i] })
}

/// The last seen knob values after a block in the same room.
pub open spec fn tweaked_seen(seen: Seq<u32>, knobs: Seq<u32>) -> Seq<u32> {
    Seq::new(9, |i: int| if !f32_eq(knobs[i], seen[i]) { knobs[i] } else { seen[i] })
}

/// Every value of the DSP row stands for the same value as the last seen knob.
pub open spec fn rows_in_step(current: Seq<u32>, seen: Seq<u32>) -> bool {
    forall|i: int| 0 <= i < 9 ==> same_value(#[trigger] current[i], seen[i])
}

/// The row of the DSP engine, built from a factory room and the knobs the
/// user has moved since.
pub struct PresetTracker {
    /// The nine values that the DSP engine runs with.
    pub current_preset: Knobs,
    /// The knob values seen in the last block, to detect moved knobs.
    pub knob_snapshot: Knobs,
    /// The room of the last block; `-1` before the first block.
    pub last_room: i32,
    /// The seed last handed to the DSP engine; `-1` before the first.
    pub last_seed: i64,
}

/// A tracker state that blocks can reach: before the first block (or after
/// the room was forgotten) no room is applied yet; otherwise the DSP row is
/// in step with the last seen knobs.
pub open spec fn tracker_ok(t: PresetTracker) -> bool {
    t.last_room == -1 || rows_in_step(t.current_preset@, t.knob_snapshot@)
}

/// `new` is `old` brought up to date with the room and knobs of a block.
pub open spec fn sync_step(
    old: PresetTracker,
    new: PresetTracker,
    room: i32,
    knobs: Seq<u32>,
    table: Seq<Knobs>,
) -> bool {
    &&& new.last_room == room
    &&& new.last_seed == old.last_seed
    &&& if room != old.last_room {
        if room == table.len() {
            new.current_preset@ == knobs && new.knob_snapshot@ == knobs
        } else {
            new.current_preset@ == patched_row(
                table[loaded_room(room as int, table.len() as int)]@,
                knobs,
            ) && new.knob_snapshot@ == knobs
        }
    } else {
        new.current_preset@ == tweaked_row(old.current_preset@, old.knob_snapshot@, knobs)
            && new.knob_snapshot@ == tweaked_seen(old.knob_snapshot@, knobs)
    }
}

/// `new` is `old` after the seed of a block was offered, `handed` being what
/// was handed to the DSP engine.
pub open spec fn seed_step(old: PresetTracker, new: PresetTracker, seed: i32, handed: Option<u64>) -> bool {
    &&& (seed as i64) != old.last_seed ==> handed == Some((seed as i64) as u64) && new.last_seed
        == seed as i64
    &&& (seed as i64) == old.last_seed ==> handed is None && new.last_seed == old.last_seed
    &&& new.current_preset == old.current_preset
    &&& new.knob_snapshot == old.knob_snapshot
    &&& new.last_room == old.last_room
}

proof fn lemma_in_step_through(a: Seq<u32>, b: Seq<u32>, c: Seq<u32>)
    requires
        rows_in_step(a, c),
        rows_in_step(b, c),
    ensures
        rows_in_step(a, b),
{
    assert forall|i: int| 0 <= i < 9 implies same_value(#[trigger] a[i], b[i]) by {
        lemma_same_value_equivalence(b[i], c[i], a[i]);
        lemma_same_value_equivalence(a[i], c[i], b[i]);
    }
}

/// What a sync step leaves in step: the last seen knobs always stand for the
/// knobs; the DSP row does after a room change or when it was in step before;
/// and reachable states stay reachable.
pub proof fn lemma_sync_step_in_step(
    old: PresetTracker,
    new: PresetTracker,
    room: i32,
    knobs: Seq<u32>,
    table: Seq<Knobs>,
)
    requires
        knobs.len() == 9,
        1 <= table.len(),
        sync_step(old, new, room, knobs, table),
    ensures
        rows_in_step(new.knob_snapshot@, knobs),
        room != old.last_room || rows_in_step(old.current_preset@, old.knob_snapshot@)
            ==> rows_in_step(new.current_preset@, knobs),
        tracker_ok(old) ==> tracker_ok(new),
{
    let oc = old.current_preset@;
    let os = old.knob_snapshot@;
    if room != old.last_room {
        let row = if room == table.len() {
            knobs
        } else {
            table[loaded_room(room as int, table.len() as int)]@
        };
        assert forall|i: int| 0 <= i < 9 implies same_value(#[trigger] new.current_preset@[i], knobs[i])
            && same_value(new.knob_snapshot@[i], knobs[i]) by {
            lemma_same_value_equivalence(knobs[i], row[i], knobs[i]);
        }
    } else {
        assert forall|i: int| 0 <= i < 9 implies same_value(#[trigger] new.knob_snapshot@[i], knobs[i]) by {
            lemma_same_value_equivalence(knobs[i], os[i], knobs[i]);
        }
        if rows_in_step(oc, os) {
            assert forall|i: int| 0 <= i < 9 implies same_value(#[trigger] new.current_preset@[i], knobs[i]) by {
                lemma_same_value_equivalence(oc[i], os[i], knobs[i]);
                lemma_same_value_equivalence(knobs[i], os[i], knobs[i]);
            }
        }
    }
    if tracker_ok(old) && new.last_room != -1 {
        lemma_in_step_through(new.current_preset@, new.knob_snapshot@, knobs);
    }
}

/// The preset management of one audio block keeps its promises: from any
/// reachable tracker state, once a block with room `room` (not negative) and
/// knobs free of NaN has been synced and its seed offered, the room is
/// applied, the DSP row and the last seen knobs equal the knobs (as `f32`
/// rows), the state is still reachable, the seed was handed over exactly
/// when it changed, and the user preset state records whether the
/// parameters match the loaded preset.
pub proof fn law_block_preset_management(
    old: PresetTracker,
    synced: PresetTracker,
    new: PresetTracker,
    params: ParamValues,
    table: Seq<Knobs>,
    handed: Option<u64>,
    user_before: UserPresetView,
    user_after: UserPresetView,
)
    requires
        tracker_ok(old),
        1 <= table.len(),
        0 <= params.room,
        forall|i: int| 0 <= i < 9 ==> !is_nan(#[trigger] params.knobs()[i]),
        sync_step(old, synced, params.room, params.knobs(), table),
        seed_step(synced, new, params.seed, handed),
        user_after == (UserPresetView {
            matches_current: preset_matches(user_before, params),
            ..user_before
        }),
    ensures
        new.last_room == params.room,
        rows_equal(new.current_preset@, params.knobs()),
        rows_equal(new.knob_snapshot@, params.knobs()),
        tracker_ok(new),
        handed == if (params.seed as i64) != old.last_seed {
            Some((params.seed as i64) as u64)
        } else {
            None
        },
        new.last_seed == params.seed as i64,
        user_after.matches_current == preset_matches(user_after, params),
{
    let knobs = params.knobs();
    lemma_sync_step_in_step(old, synced, params.room, knobs, table);
    assert(rows_in_step(synced.current_preset@, knobs));
    assert forall|i: int| 0 <= i < 9 implies f32_eq(#[trigger] new.current_preset@[i], knobs[i])
        && f32_eq(new.knob_snapshot@[i], knobs[i]) by {
        assert(!is_nan(knobs[i]));
        assert(same_value(synced.current_preset@[i], knobs[i]));
        assert(same_value(synced.knob_snapshot@[i], knobs[i]));
    }
}

/// Room index loaded on start-up.
pub const DEFAULT_ROOM: usize = 5;

impl PresetTracker {
    /// The state before the first block: the default room's row, no knobs
    /// seen, and no room or seed applied yet.
    pub fn new(presets: &[Knobs]) -> (r: Self)
        requires
            presets@.len() > DEFAULT_ROOM,
        ensures
            r.current_preset@ == presets@[DEFAULT_ROOM as int]@,
            r.knob_snapshot@ == Seq::new(9, |i: int| 0u32),
            r.last_room == -1,
            r.last_seed == -1,
            tracker_ok(r),
    {
        let r = PresetTracker {
            current_preset: presets[DEFAULT_ROOM],
            knob_snapshot: [0u32; 9],
            last_room: -1,
            last_seed: -1,
        };
        assert(r.knob_snapshot@ =~= Seq::new(9, |i: int| 0u32));
        r
    }

    /// Forgets the room, so that the next block loads its room's row again.
    pub fn forget_room(&mut self)
        ensures
            final(self).last_room == -1,
            final(self).current_preset == old(self).current_preset,
            final(self).knob_snapshot == old(self).knob_snapshot,
            final(self).last_seed == old(self).last_seed,
            tracker_ok(*final(self)),
    {
        self.last_room = -1;
    }

    /// Brings the DSP row up to date with the room and knobs of a block.
    ///
    /// When the room changed, the custom room takes the knobs as they are,
    /// and a factory room loads its row with the knobs that differ from it
    /// applied on top. When the room stayed, every knob that moved since the
    /// last block is applied.
    pub fn sync_room(&mut self, room: i32, knobs: &Knobs, presets: &[Knobs])
        requires
            1 <= presets@.len() <= i32::MAX,
        ensures
            sync_step(*old(self), *final(self), room, knobs@, presets@),
            tracker_ok(*old(self)) ==> tracker_ok(*final(self)),
            final(self).last_seed == old(self).last_seed,
            final(self).last_room == room,
            room != old(self).last_room && room == presets@.len() ==> final(self).current_preset@
                == knobs@ && final(self).knob_snapshot@ == knobs@,
            room != old(self).last_room && room != presets@.len() ==> final(self).current_preset@
                == patched_row(presets@[loaded_room(room as int, presets@.len() as int)]@, knobs@)
                && final(self).knob_snapshot@ == knobs@,
            room == old(self).last_room ==> final(self).current_preset@ == tweaked_row(
                old(self).current_preset@,
                old(self).knob_snapshot@,
                knobs@,
            ) && final(self).knob_snapshot@ == tweaked_seen(old(self).knob_snapshot@, knobs@),
            // The last seen knobs always stand for the current knobs.
            rows_in_step(final(self).knob_snapshot@, knobs@),
            // After a room change, or when the row was in step before, the DSP
            // row stands for the current knobs.
            room != old(self).last_room || rows_in_step(
                old(self).current_preset@,
                old(self).knob_snapshot@,
            ) ==> rows_in_step(final(self).current_preset@, knobs@),
            // Loading a factory room whose row equals the knobs runs that row
            // exactly.
            room != old(self).last_room && room != presets@.len() && rows_equal(
                knobs@,
                presets@[loaded_room(room as int, presets@.len() as int)]@,
            ) ==> final(self).current_preset@ == presets@[loaded_room(
                room as int,
                presets@.len() as int,
            )]@,
    {
        let custom = presets.len() as i32;
        let ghost old_current = self.current_preset@;
        let ghost old_seen = self.knob_snapshot@;
        if room != self.last_room {
            self.last_room = room;
            if room == custom {
                self.current_preset = *knobs;
                self.knob_snapshot = *knobs;
                proof {
                    assert forall|i: int| 0 <= i < 9 implies same_value(
                        #[trigger] knobs@[i],
                        knobs@[i],
                    ) by {
                        lemma_same_value_equivalence(knobs@[i], knobs@[i], knobs@[i]);
                    }
                }
            } else {
                let last = presets.len() - 1;
                let idx: usize = if room < 0 {
                    last
                } else if (room as usize) < last {
                    room as usize
                } else {
                    last
                };
                let row = presets[idx];
                self.current_preset = row;
                let mut i: usize = 0;
                while i < 9
                    invariant
                        i <= 9,
                        forall|j: int|
                            0 <= j < i ==> #[trigger] self.current_preset@[j] == patched_row(
                                row@,
                                knobs@,
                            )[j],
                        forall|j: int| i <= j < 9 ==> #[trigger] self.current_preset@[j] == row@[j],
                        self.last_room == room,
                        self.last_seed == old(self).last_seed,
                    decreases 9 - i,
                {
                    if !f32_bits_eq(knobs[i], self.current_preset[i]) {
                        self.current_preset[i] = knobs[i];
                    }
                    i = i + 1;
                }
                self.knob_snapshot = *knobs;
                proof {
                    assert(self.current_preset@ =~= patched_row(row@, knobs@));
                    assert forall|i: int| 0 <= i < 9 implies same_value(
                        #[trigger] self.current_preset@[i],
                        knobs@[i],
                    ) by {
                        lemma_same_value_equivalence(knobs@[i], row@[i], knobs@[i]);
                    }
                    assert forall|i: int| 0 <= i < 9 implies same_value(
                        #[trigger] self.knob_snapshot@[i],
                        knobs@[i],
                    ) by {
                        lemma_same_value_equivalence(knobs@[i], knobs@[i], knobs@[i]);
                    }
                    if rows_equal(knobs@, row@) {
                        assert(self.current_preset@ =~= row@);
                    }
                }
            }
        } else {
            let mut i: usize = 0;
            while i < 9
                invariant
                    i <= 9,
                    forall|j: int|
                        0 <= j < i ==> #[trigger] self.current_preset@[j] == tweaked_row(
                            old_current,
                            old_seen,
                            knobs@,
                        )[j],
                    forall|j: int|
                        0 <= j < i ==> #[trigger] self.knob_snapshot@[j] == tweaked_seen(
                            old_seen,
                            knobs@,
                        )[j],
                    forall|j: int| i <= j < 9 ==> #[trigger] self.current_preset@[j] == old_current[j],
                    forall|j: int| i <= j < 9 ==> #[trigger] self.knob_snapshot@[j] == old_seen[j],
                    self.last_room == room,
                    self.last_seed == old(self).last_seed,
                    old_current.len() == 9,
                    old_seen.len() == 9,
                decreases 9 - i,
            {
                if !f32_bits_eq(knobs[i], self.knob_snapshot[i]) {
                    self.current_preset[i] = knobs[i];
                    self.knob_snapshot[i] = knobs[i];
                }
                i = i + 1;
            }
            proof {
                assert(self.current_preset@ =~= tweaked_row(old_current, old_seen, knobs@));
                assert(self.knob_snapshot@ =~= tweaked_seen(old_seen, knobs@));
                assert forall|i: int| 0 <= i < 9 implies same_value(
                    #[trigger] self.knob_snapshot@[i],
                    knobs@[i],
                ) by {
                    lemma_same_value_equivalence(knobs@[i], old_seen[i], knobs@[i]);
                }
                if rows_in_step(old_current, old_seen) {
                    assert forall|i: int| 0 <= i < 9 implies same_value(
                        #[trigger] self.current_preset@[i],
                        knobs@[i],
                    ) by {
                        lemma_same_value_equivalence(old_current[i], old_seen[i], knobs@[i]);
                        lemma_same_value_equivalence(knobs@[i], old_seen[i], knobs@[i]);
                    }
                }
            }
        }
    }

    /// The seed to hand to the DSP engine for a block, if it changed since the
    /// last one handed over.
    pub fn seed_change(&mut self, seed: i32) -> (r: Option<u64>)
        ensures
            seed_step(*old(self), *final(self), seed, r),
            tracker_ok(*old(self)) ==> tracker_ok(*final(self)),
            (seed as i64) != old(self).last_seed ==> r == Some((seed as i64) as u64)
                && final(self).last_seed == seed as i64,
            (seed as i64) == old(self).last_seed ==> r is None && final(self).last_seed
                == old(self).last_seed,
            final(self).current_preset == old(self).current_preset,
            final(self).knob_snapshot == old(self).knob_snapshot,
            final(self).last_room == old(self).last_room,
    {
        let seed = seed as i64;
        if seed != self.last_seed {
            self.last_seed = seed;
            Some(seed as u64)
        } else {
            None
        }
    }
}

} // verus!
