//! Decisions of the plugin editor: window sizes, the entries and selection of
//! the preset picker, and the labels and order of user presets.
use vstd::prelude::*;
use crate::params::{Knobs, ParamValues};
use crate::rooms::{clamp, custom_room, effective_room, effective_room_index};
use crate::text::{
    ascii_lower, chars_to_ascii_lowercase, chars_to_string, decimal, digits_value,
    law_decimal_injective, law_decimal_reads_back, push_decimal, push_str_chars, str_to_chars,
};

verus! {

broadcast use vstd::string::group_string_axioms;

/// The views of a list of strings.
pub open spec fn views(v: Seq<String>) -> Seq<Seq<char>> {
    v.map_values(|s: String| s@)
}

/// The window sizes offered, as `(label, width, height)`.
pub open spec fn window_sizes() -> Seq<(Seq<char>, u32, u32)> {
    seq![
        ("Compact (500x650)"@, 500u32, 650u32),
        ("Default (620x760)"@, 620u32, 760u32),
        ("Large (760x900)"@, 760u32, 900u32),
    ]
}

/// The labels of the window sizes offered.
pub fn window_size_labels() -> (r: Vec<String>)
    ensures
        views(r@) == window_sizes().map_values(|w: (Seq<char>, u32, u32)| w.0),
{
    let mut r: Vec<String> = Vec::new();
    r.push(String::from_str("Compact (500x650)"));
    r.push(String::from_str("Default (620x760)"));
    r.push(String::from_str("Large (760x900)"));
    assert(views(r@) =~= window_sizes().map_values(|w: (Seq<char>, u32, u32)| w.0));
    r
}

/// The window size to apply for choice `index`: that size, or the last one
/// when `index` lies past it.
pub fn apply_window_size_preset(index: usize) -> (r: (u32, u32))
    ensures
        ({
            let w = window_sizes()[if index < 2 { index as int } else { 2 }];
            r == (w.1, w.2)
        }),
{
    if index == 0 {
        (500, 650)
    } else if index == 1 {
        (620, 760)
    } else {
        (760, 900)
    }
}

/// The window size choice that a stored window parameter value selects: the
/// value clamped to the choices offered.
pub open spec fn window_choice_of(value: int) -> int {
    clamp(value, 0, 2)
}

/// The window parameter value stored for a picked choice: the choice, or the
/// last one for choices past it.
pub open spec fn window_param_of(index: int) -> int {
    if index < 2 {
        index
    } else {
        2
    }
}

/// The window size choice that the stored window parameter selects.
pub fn window_size_choice(value: i32) -> (r: usize)
    ensures
        r == window_choice_of(value as int),
{
    if value < 0 {
        0
    } else if value > 2 {
        2
    } else {
        value as usize
    }
}

/// The window parameter value stored when the user picks choice `index`.
pub fn window_size_param_value(index: usize) -> (r: i32)
    ensures
        r == window_param_of(index as int),
{
    if index < 2 {
        index as i32
    } else {
        2
    }
}

/// The number of picker entries that the user presets take: one placeholder
/// entry when there are none.
pub open spec fn user_display_count(user_count: int) -> int {
    if user_count == 0 {
        1
    } else {
        user_count
    }
}

/// The picker entry of the selected user preset.
pub open spec fn selected_user_entry(p: ParamValues, user_count: int) -> int {
    if user_count == 0 {
        0
    } else {
        let i = if p.user_preset_idx < 0 {
            0
        } else {
            p.user_preset_idx as int
        };
        if i < user_count - 1 {
            i
        } else {
            user_count - 1
        }
    }
}

/// The picker entry of the selected factory room.
pub open spec fn selected_factory_entry(p: ParamValues, user_count: int, n_rooms: int) -> int {
    user_display_count(user_count) + clamp(p.room as int, 0, n_rooms - 1)
}

/// Whether the picker shows factory rooms (source 1) rather than user presets.
pub open spec fn factory_source(p: ParamValues) -> bool {
    clamp(p.preset_source_idx as int, 0, 1) == 1
}

/// The picker entry shown as selected: the stored entry when it is one of the
/// entries, else the selected factory room or user preset by the source.
pub open spec fn picker_index(p: ParamValues, user_count: int, n_rooms: int) -> int {
    let combined = user_display_count(user_count) + n_rooms;
    if 0 <= p.preset_display_idx && p.preset_display_idx < combined {
        p.preset_display_idx as int
    } else if factory_source(p) {
        selected_factory_entry(p, user_count, n_rooms)
    } else {
        selected_user_entry(p, user_count)
    }
}

fn user_entry(params: &ParamValues, user_count: usize) -> (r: usize)
    ensures
        r == selected_user_entry(*params, user_count as int),
{
    if user_count == 0 {
        0
    } else {
        let i: usize = if params.user_preset_idx < 0 {
            0
        } else {
            params.user_preset_idx as usize
        };
        if i < user_count - 1 {
            i
        } else {
            user_count - 1
        }
    }
}

fn factory_entry(params: &ParamValues, user_count: usize, n_rooms: usize) -> (r: usize)
    requires
        1 <= n_rooms <= i32::MAX,
        user_count + n_rooms <= usize::MAX,
    ensures
        r == selected_factory_entry(*params, user_count as int, n_rooms as int),
{
    let last = (n_rooms - 1) as i32;
    let room = if params.room < 0 {
        0
    } else if params.room > last {
        last
    } else {
        params.room
    } as usize;
    (if user_count == 0 {
        1
    } else {
        user_count
    }) + room
}

/// The picker entry shown as selected, for `user_count` user presets and
/// `n_rooms` factory rooms.
pub fn preset_picker_index(params: &ParamValues, user_count: usize, n_rooms: usize) -> (r: usize)
    requires
        1 <= n_rooms <= i32::MAX,
        user_count + n_rooms < usize::MAX,
    ensures
        r == picker_index(*params, user_count as int, n_rooms as int),
{
    let combined = (if user_count == 0 {
        1
    } else {
        user_count
    }) + n_rooms;
    let stored = params.preset_display_idx;
    if stored >= 0 && (stored as usize) < combined {
        stored as usize
    } else if params.preset_source_idx >= 1 {
        factory_entry(params, user_count, n_rooms)
    } else {
        user_entry(params, user_count)
    }
}

/// What picking an entry of the preset picker selects.
#[derive(Debug, Clone, Copy, PartialEq, Eq, Structural)]
pub enum PresetSelection {
    /// A factory room, by its index.
    Factory(usize),
    /// A user preset, by its index.
    User(usize),
    /// The placeholder entry shown when there are no user presets.
    Nothing,
}

/// What picking entry `preset_idx` selects, with `user_count` user presets.
pub fn preset_selection(preset_idx: usize, user_count: usize) -> (r: PresetSelection)
    ensures
        preset_idx >= user_display_count(user_count as int) ==> r == PresetSelection::Factory(
            (preset_idx - user_display_count(user_count as int)) as usize,
        ),
        preset_idx < user_display_count(user_count as int) && user_count == 0 ==> r
            == PresetSelection::Nothing,
        preset_idx < user_display_count(user_count as int) && user_count > 0 ==> r
            == PresetSelection::User(preset_idx),
{
    let display = if user_count == 0 {
        1
    } else {
        user_count
    };
    if preset_idx >= display {
        PresetSelection::Factory(preset_idx - display)
    } else if user_count == 0 {
        PresetSelection::Nothing
    } else {
        PresetSelection::User(preset_idx)
    }
}

/// The first index of `labels` that holds `name`.
pub fn label_position(labels: &Vec<String>, name: &str) -> (r: Option<usize>)
    ensures
        r matches Some(i) ==> i < labels@.len() && labels@[i as int]@ == name@ && forall|j: int|
            0 <= j < i ==> labels@[j]@ != name@,
        r is None ==> forall|j: int| 0 <= j < labels@.len() ==> labels@[j]@ != name@,
{
    let target = String::from_str(name);
    let mut i: usize = 0;
    while i < labels.len()
        invariant
            i <= labels@.len(),
            target@ == name@,
            forall|j: int| 0 <= j < i ==> labels@[j]@ != name@,
        decreases labels.len() - i,
    {
        if labels[i] == target {
            return Some(i);
        }
        i = i + 1;
    }
    None
}

/// The picker entries of the user presets: one per listed label (at most
/// `user_count`), or a placeholder when there are none.
pub open spec fn user_entries(user_labels: Seq<Seq<char>>, user_count: int) -> Seq<Seq<char>> {
    if user_count == 0 {
        seq!["User / No presets found"@]
    } else {
        let n = if user_count < user_labels.len() {
            user_count
        } else {
            user_labels.len() as int
        };
        user_labels.take(n).map_values(|l: Seq<char>| "User / "@ + l)
    }
}

/// The picker entries of the factory rooms, numbered from zero.
pub open spec fn factory_entries(names: Seq<Seq<char>>) -> Seq<Seq<char>> {
    Seq::new(names.len(), |i: int| "Factory / "@ + decimal(i as nat) + " - "@ + names[i])
}

/// Whether an entry already carries the modified marker.
pub open spec fn ends_with_star(s: Seq<char>) -> bool {
    s.len() >= 2 && s[s.len() - 2] == ' ' && s[s.len() - 1] == '*'
}

/// The entries with entry `i` marked as modified (` *`), if there is such an
/// entry and it is not marked yet.
pub open spec fn marked(labels: Seq<Seq<char>>, i: int) -> Seq<Seq<char>> {
    if 0 <= i < labels.len() && !ends_with_star(labels[i]) {
        labels.update(i, labels[i] + " *"@)
    } else {
        labels
    }
}

/// The entry to mark as modified: the selected factory room when the knobs no
/// longer match it, or the selected user preset when the parameters no
/// longer match it.
pub open spec fn modified_entry(
    p: ParamValues,
    table: Seq<Knobs>,
    user_count: int,
    matches_current: bool,
) -> Option<int> {
    if factory_source(p) {
        if effective_room(p, table) == table.len() {
            Some(selected_factory_entry(p, user_count, table.len() as int))
        } else {
            None
        }
    } else if !matches_current {
        Some(selected_user_entry(p, user_count))
    } else {
        None
    }
}

/// The entries of the preset picker: user presets, then factory rooms, with
/// the selected entry marked when it has been modified.
pub open spec fn picker_labels(
    p: ParamValues,
    table: Seq<Knobs>,
    names: Seq<Seq<char>>,
    user_labels: Seq<Seq<char>>,
    user_count: int,
    matches_current: bool,
) -> Seq<Seq<char>> {
    let base = user_entries(user_labels, user_count) + factory_entries(names);
    match modified_entry(p, table, user_count, matches_current) {
        Some(i) => marked(base, i),
        None => base,
    }
}

fn chars_end_with_star(s: &Vec<char>) -> (r: bool)
    ensures
        r == ends_with_star(s@),
{
    let n = s.len();
    n >= 2 && s[n - 2] == ' ' && s[n - 1] == '*'
}

/// Appends entry `entry` to `out`, marked when it is the entry to mark.
fn push_entry(out: &mut Vec<String>, entry: Vec<char>, k: usize, mark: Option<usize>)
    ensures
        final(out)@.len() == old(out)@.len() + 1,
        forall|j: int| 0 <= j < old(out)@.len() ==> final(out)@[j] == old(out)@[j],
        final(out)@.last()@ == if mark == Some(k) && !ends_with_star(entry@) {
            entry@ + " *"@
        } else {
            entry@
        },
{
    let mut entry = entry;
    if mark == Some(k) && !chars_end_with_star(&entry) {
        push_str_chars(&mut entry, " *");
    }
    out.push(chars_to_string(&entry));
}

/// The entries of the preset picker.
pub fn preset_picker_labels(
    params: &ParamValues,
    presets: &[Knobs],
    room_names: &Vec<String>,
    user_labels: &Vec<String>,
    user_count: usize,
    matches_current: bool,
) -> (r: Vec<String>)
    requires
        1 <= presets@.len() <= i32::MAX,
        user_count + presets@.len() < usize::MAX,
        user_count + room_names@.len() < usize::MAX,
    ensures
        views(r@) == picker_labels(
            *params,
            presets@,
            views(room_names@),
            views(user_labels@),
            user_count as int,
            matches_current,
        ),
{
    let ghost base = user_entries(views(user_labels@), user_count as int) + factory_entries(
        views(room_names@),
    );
    let mark: Option<usize> = if params.preset_source_idx >= 1 {
        if effective_room_index(params, presets) == presets.len() {
            Some(factory_entry(params, user_count, presets.len()))
        } else {
            None
        }
    } else if !matches_current {
        Some(user_entry(params, user_count))
    } else {
        None
    };
    let ghost m: Option<int> = match mark {
        Some(i) => Some(i as int),
        None => None,
    };
    assert(m == modified_entry(*params, presets@, user_count as int, matches_current));
    let ghost expected = match m {
        Some(i) => marked(base, i),
        None => base,
    };
    let ghost users = user_entries(views(user_labels@), user_count as int);
    let mut out: Vec<String> = Vec::new();
    if user_count == 0 {
        push_entry(&mut out, str_to_chars("User / No presets found"), 0, mark);
    } else {
        let n = if user_count < user_labels.len() {
            user_count
        } else {
            user_labels.len()
        };
        let mut i: usize = 0;
        while i < n
            invariant
                i <= n <= user_labels@.len(),
                n == users.len(),
                user_count > 0,
                n == (if user_count < user_labels@.len() { user_count as int } else { user_labels@.len() as int }),
                users == user_entries(views(user_labels@), user_count as int),
                base == users + factory_entries(views(room_names@)),
                m == (match mark { Some(k) => Some(k as int), None => None::<int> }),
                expected == (match m { Some(k) => marked(base, k), None => base }),
                out@.len() == i,
                forall|j: int| 0 <= j < i ==> #[trigger] out@[j]@ == expected[j],
            decreases n - i,
        {
            let mut entry = str_to_chars("User / ");
            push_str_chars(&mut entry, user_labels[i].as_str());
            assert(views(user_labels@)[i as int] == user_labels@[i as int]@);
            assert(entry@ == users[i as int]);
            assert(base[i as int] == users[i as int]);
            push_entry(&mut out, entry, i, mark);
            i = i + 1;
        }
    }
    let start = out.len();
    assert(start == users.len());
    assert(expected.len() == base.len());
    let mut i: usize = 0;
    while i < room_names.len()
        invariant
            start == users.len(),
            start <= (if user_count == 0 { 1 } else { user_count }),
            user_count + room_names@.len() < usize::MAX,
            base == users + factory_entries(views(room_names@)),
            m == (match mark { Some(k) => Some(k as int), None => None::<int> }),
            expected == (match m { Some(k) => marked(base, k), None => base }),
            expected.len() == base.len(),
            i <= room_names@.len(),
            out@.len() == start + i,
            forall|j: int| 0 <= j < start + i ==> #[trigger] out@[j]@ == expected[j],
        decreases room_names.len() - i,
    {
        let mut entry = str_to_chars("Factory / ");
        push_decimal(&mut entry, i as u64);
        push_str_chars(&mut entry, " - ");
        push_str_chars(&mut entry, room_names[i].as_str());
        assert(entry@ == factory_entries(views(room_names@))[i as int]);
        assert(base[start + i] == entry@);
        push_entry(&mut out, entry, start + i, mark);
        i = i + 1;
    }
    assert(views(out@) =~= expected);
    out
}

/// What `Path::file_stem` returns for a path made of this text, as text.
pub uninterp spec fn path_file_stem(name: Seq<char>) -> Option<Seq<char>>;

/// A name that `Path` reads as one plain file name on every platform: not
/// empty, not `.` or `..`, and without separators or drive colons.
pub open spec fn is_plain_file_name(s: Seq<char>) -> bool {
    &&& s.len() > 0
    &&& s != "."@
    &&& s != ".."@
    &&& forall|i: int| 0 <= i < s.len() ==> #[trigger] s[i] != '/' && s[i] != '\\' && s[i] != ':'
}

/// The index of the last `.` in `s`, or `-1`.
pub open spec fn last_dot(s: Seq<char>) -> int
    decreases s.len(),
{
    if s.len() == 0 {
        -1
    } else if s.last() == '.' {
        s.len() - 1
    } else {
        last_dot(s.drop_last())
    }
}

/// The stem of a plain file name: the whole name when it has no `.` or only
/// a leading one, else the part before the last `.`.
pub open spec fn stem_of(s: Seq<char>) -> Seq<char> {
    if last_dot(s) <= 0 {
        s
    } else {
        s.take(last_dot(s))
    }
}

/// The view of an optional string.
pub open spec fn opt_view(o: Option<String>) -> Option<Seq<char>> {
    match o {
        Some(s) => Some(s@),
        None => None,
    }
}

/// The stem of a file name.
///
/// Trusted: `Path::file_stem`, whose documentation gives the stem of a file
/// name as the whole name when it has no `.`, the whole name when it begins
/// with `.` and has no other, and otherwise the part before the final `.`.
/// For text that is not one plain file name (separators, `..`, drive
/// prefixes) the result is only named, not stated.
#[verifier::external_body]
fn file_stem(name: &str) -> (r: Option<String>)
    ensures
        opt_view(r) == path_file_stem(name@),
        is_plain_file_name(name@) ==> opt_view(r) == Some(stem_of(name@)),
{
    std::path::Path::new(name).file_stem().and_then(|s| s.to_str()).map(|s| s.to_string())
}

/// The parts joined with `sep` between them.
pub open spec fn join(parts: Seq<Seq<char>>, sep: Seq<char>) -> Seq<char>
    decreases parts.len(),
{
    if parts.len() == 0 {
        Seq::empty()
    } else if parts.len() == 1 {
        parts[0]
    } else {
        join(parts.drop_last(), sep) + sep + parts.last()
    }
}

/// How the last part of a preset's path is shown: its stem when it has one.
pub open spec fn shown_name(last: Seq<char>) -> Seq<char> {
    match path_file_stem(last) {
        Some(s) => s,
        None => last,
    }
}

/// The label of a user preset from the parts of its path below the preset
/// folder: the parts joined by ` / `, the last one without its extension.
pub open spec fn preset_label(parts: Seq<Seq<char>>) -> Seq<char> {
    if parts.len() == 0 {
        "Unnamed preset"@
    } else {
        join(parts.drop_last().push(shown_name(parts.last())), " / "@)
    }
}

/// The label of a user preset whose file name is plain: the parts joined by
/// ` / `, the last one cut to its stem (`Subdir / Preset` for
/// `Subdir/Preset.json`).
pub open spec fn stem_label(parts: Seq<Seq<char>>) -> Seq<char> {
    join(parts.drop_last().push(stem_of(parts.last())), " / "@)
}

/// Joining two or more parts puts the first, then the separator, then the
/// rest joined.
pub proof fn lemma_join_front(parts: Seq<Seq<char>>, sep: Seq<char>)
    requires
        parts.len() >= 2,
    ensures
        join(parts, sep) == parts[0] + sep + join(parts.skip(1), sep),
    decreases parts.len(),
{
    if parts.len() == 2 {
        assert(parts.drop_last().len() == 1);
        assert(parts.skip(1).len() == 1);
        assert(join(parts.skip(1), sep) == parts[1]);
        assert(join(parts.drop_last(), sep) == parts[0]);
    } else {
        let front = parts.drop_last();
        lemma_join_front(front, sep);
        assert(front.skip(1) == parts.skip(1).drop_last());
        assert(parts.skip(1).last() == parts.last());
        assert(front[0] == parts[0]);
        assert(join(parts.skip(1), sep) == join(front.skip(1), sep) + sep + parts.last());
        assert(join(parts, sep) == join(front, sep) + sep + parts.last());
        assert(parts[0] + sep + join(front.skip(1), sep) + sep + parts.last() =~= parts[0] + sep + (
        join(front.skip(1), sep) + sep + parts.last()));
    }
}

/// The label of a path of one part is that part shown without its extension;
/// the label of a longer path is its first part exactly as given, then
/// ` / `, then the label of the remaining parts. So every part appears in
/// order, each folder by its name, and only the file name is cut.
pub proof fn law_preset_label_keeps_every_part(parts: Seq<Seq<char>>)
    ensures
        parts.len() == 1 ==> preset_label(parts) == shown_name(parts[0]),
        parts.len() >= 2 ==> preset_label(parts) == parts[0] + " / "@ + preset_label(parts.skip(1)),
{
    if parts.len() >= 2 {
        let q = parts.drop_last().push(shown_name(parts.last()));
        lemma_join_front(q, " / "@);
        assert(q[0] == parts[0]);
        assert(q.skip(1) == parts.skip(1).drop_last().push(shown_name(parts.skip(1).last())));
    } else if parts.len() == 1 {
        let q = parts.drop_last().push(shown_name(parts.last()));
        assert(q.len() == 1);
    }
}

/// The same for a plain file name: one part gives its stem; a longer path
/// gives its first part, ` / `, and the label of the rest.
pub proof fn law_stem_label_keeps_every_part(parts: Seq<Seq<char>>)
    ensures
        parts.len() == 1 ==> stem_label(parts) == stem_of(parts[0]),
        parts.len() >= 2 ==> stem_label(parts) == parts[0] + " / "@ + stem_label(parts.skip(1)),
{
    if parts.len() >= 2 {
        let q = parts.drop_last().push(stem_of(parts.last()));
        lemma_join_front(q, " / "@);
        assert(q[0] == parts[0]);
        assert(q.skip(1) == parts.skip(1).drop_last().push(stem_of(parts.skip(1).last())));
    } else if parts.len() == 1 {
        let q = parts.drop_last().push(stem_of(parts.last()));
        assert(q.len() == 1);
    }
}

/// The label of a user preset from the parts of its path below the preset folder.
pub fn user_preset_label(parts: &Vec<String>) -> (r: String)
    ensures
        r@ == preset_label(views(parts@)),
        parts@.len() > 0 && is_plain_file_name(parts@.last()@) ==> r@ == stem_label(
            views(parts@),
        ),
        // A single part is shown without its extension; a longer path starts
        // with its first folder exactly as given, then ` / ` and the label of
        // the remaining parts.
        parts@.len() == 0 ==> r@ == "Unnamed preset"@,
        parts@.len() == 1 ==> r@ == shown_name(parts@[0]@),
        parts@.len() >= 2 ==> r@ == parts@[0]@ + " / "@ + preset_label(views(parts@).skip(1)),
{
    proof {
        law_preset_label_keeps_every_part(views(parts@));
    }
    let n = parts.len();
    if n == 0 {
        return String::from_str("Unnamed preset");
    }
    let stem = file_stem(parts[n - 1].as_str());
    let ghost vs = views(parts@);
    let ghost shown = vs.drop_last().push(shown_name(vs.last()));
    let mut out: Vec<char> = Vec::new();
    let mut i: usize = 0;
    while i < n
        invariant
            1 <= n == parts@.len(),
            vs == views(parts@),
            shown == vs.drop_last().push(shown_name(vs.last())),
            i <= n,
            i > 0 ==> out@ == join(shown.take(i as int), " / "@),
            i == 0 ==> out@.len() == 0,
            opt_view(stem) == path_file_stem(parts@[n - 1]@),
        decreases n - i,
    {
        if i > 0 {
            push_str_chars(&mut out, " / ");
        }
        if i + 1 == n {
            let last = parts[i].as_str();
            match &stem {
                Some(st) => push_str_chars(&mut out, st.as_str()),
                None => push_str_chars(&mut out, last),
            }
            assert(shown[i as int] == shown_name(vs.last()));
        } else {
            push_str_chars(&mut out, parts[i].as_str());
            assert(shown[i as int] == vs[i as int]);
        }
        assert(shown.take(i + 1).drop_last() == shown.take(i as int));
        assert(shown.take(i + 1).last() == shown[i as int]);
        i = i + 1;
    }
    assert(shown.take(n as int) == shown);
    assert(vs.last() == parts@.last()@);
    chars_to_string(&out)
}

/// A user preset file as listed: its path, the parts of that path below the
/// preset folder, and the text of that relative path.
pub struct UserPresetEntry<P> {
    pub path: P,
    pub relative_parts: Vec<String>,
    pub relative_text: String,
}

/// Presets in sub-folders are listed after those directly in the folder.
pub open spec fn entry_depth<P>(e: UserPresetEntry<P>) -> int {
    if e.relative_parts@.len() > 1 {
        1
    } else {
        0
    }
}

/// The relative path in ASCII lower case, by which presets are ordered.
pub open spec fn entry_text_key<P>(e: UserPresetEntry<P>) -> Seq<char> {
    e.relative_text@.map_values(|c: char| ascii_lower(c))
}

/// Lexicographic order of texts by code point (the order of `String`).
pub open spec fn chars_le(a: Seq<char>, b: Seq<char>) -> bool
    decreases a.len(),
{
    if a.len() == 0 {
        true
    } else if b.len() == 0 {
        false
    } else if a[0] != b[0] {
        (a[0] as int) < (b[0] as int)
    } else {
        chars_le(a.drop_first(), b.drop_first())
    }
}

/// The listing order: by depth, then by lower-cased relative path.
pub open spec fn entry_le<P>(x: UserPresetEntry<P>, y: UserPresetEntry<P>) -> bool {
    entry_depth(x) < entry_depth(y) || (entry_depth(x) == entry_depth(y) && chars_le(
        entry_text_key(x),
        entry_text_key(y),
    ))
}

/// Two entries have the same place in the listing order.
pub open spec fn same_key<P>(x: UserPresetEntry<P>, y: UserPresetEntry<P>) -> bool {
    entry_depth(x) == entry_depth(y) && entry_text_key(x) == entry_text_key(y)
}

/// `out` is `input` sorted stably by the listing order, entry `j` of `out`
/// being entry `pos[j]` of `input`.
pub open spec fn stable_sort_of<P>(
    out: Seq<UserPresetEntry<P>>,
    input: Seq<UserPresetEntry<P>>,
    pos: Seq<int>,
) -> bool {
    &&& out.len() == input.len()
    &&& pos.len() == out.len()
    &&& forall|j: int| 0 <= j < out.len() ==> 0 <= #[trigger] pos[j] < input.len()
    &&& forall|j: int| 0 <= j < out.len() ==> #[trigger] out[j] == input[pos[j]]
    &&& forall|j1: int, j2: int| 0 <= j1 < j2 < out.len() ==> #[trigger] pos[j1] != #[trigger] pos[j2]
    &&& forall|j1: int, j2: int|
        0 <= j1 < j2 < out.len() ==> entry_le(#[trigger] out[j1], #[trigger] out[j2])
    &&& forall|j1: int, j2: int|
        0 <= j1 < j2 < out.len() && same_key(#[trigger] out[j1], #[trigger] out[j2]) ==> pos[j1]
            < pos[j2]
}

proof fn lemma_chars_le_reflexive(a: Seq<char>)
    ensures
        chars_le(a, a),
    decreases a.len(),
{
    if a.len() > 0 {
        lemma_chars_le_reflexive(a.drop_first());
    }
}

proof fn lemma_chars_le_total(a: Seq<char>, b: Seq<char>)
    ensures
        chars_le(a, b) || chars_le(b, a),
    decreases a.len(),
{
    if a.len() > 0 && b.len() > 0 {
        if a[0] == b[0] {
            lemma_chars_le_total(a.drop_first(), b.drop_first());
        } else {
        }
    }
}

proof fn lemma_chars_le_transitive(a: Seq<char>, b: Seq<char>, c: Seq<char>)
    requires
        chars_le(a, b),
        chars_le(b, c),
    ensures
        chars_le(a, c),
    decreases a.len(),
{
    if a.len() > 0 && b.len() > 0 && c.len() > 0 && a[0] == b[0] && b[0] == c[0] {
        lemma_chars_le_transitive(a.drop_first(), b.drop_first(), c.drop_first());
    }
}

proof fn lemma_chars_le_skip(a: Seq<char>, b: Seq<char>, i: int)
    requires
        0 <= i <= a.len(),
        i <= b.len(),
        forall|k: int| 0 <= k < i ==> a[k] == b[k],
    ensures
        chars_le(a, b) == chars_le(a.skip(i), b.skip(i)),
    decreases i,
{
    if i > 0 {
        assert(a.drop_first().skip(i - 1) == a.skip(i));
        assert(b.drop_first().skip(i - 1) == b.skip(i));
        lemma_chars_le_skip(a.drop_first(), b.drop_first(), i - 1);
    } else {
        assert(a.skip(0) == a);
        assert(b.skip(0) == b);
    }
}

proof fn lemma_entry_order<P>(x: UserPresetEntry<P>, y: UserPresetEntry<P>, z: UserPresetEntry<P>)
    ensures
        entry_le(x, x),
        entry_le(x, y) || entry_le(y, x),
        entry_le(x, y) && entry_le(y, z) ==> entry_le(x, z),
        same_key(x, y) ==> entry_le(x, y) && entry_le(y, x),
{
    lemma_chars_le_reflexive(entry_text_key(x));
    lemma_chars_le_total(entry_text_key(x), entry_text_key(y));
    if entry_le(x, y) && entry_le(y, z) && entry_depth(x) == entry_depth(z) {
        lemma_chars_le_transitive(entry_text_key(x), entry_text_key(y), entry_text_key(z));
    }
    if same_key(x, y) {
        lemma_chars_le_reflexive(entry_text_key(y));
    }
}

/// Inserting the next input entry before the first sorted entry that orders
/// after it keeps the sort stable.
proof fn lemma_insert_step<P>(
    out: Seq<UserPresetEntry<P>>,
    input: Seq<UserPresetEntry<P>>,
    pos: Seq<int>,
    i: int,
    j: int,
)
    requires
        0 <= i < input.len(),
        stable_sort_of(out, input.take(i), pos),
        0 <= j <= out.len(),
        forall|t: int| 0 <= t < j ==> entry_le(#[trigger] out[t], input[i]),
        j < out.len() ==> !entry_le(out[j], input[i]),
    ensures
        stable_sort_of(out.insert(j, input[i]), input.take(i + 1), pos.insert(j, i)),
{
    let e = input[i];
    let out2 = out.insert(j, e);
    let pos2 = pos.insert(j, i);
    let inp = input.take(i + 1);
    assert forall|t: int| 0 <= t < out.len() implies pos[t] < i && #[trigger] out[t] == input[pos[t]] by {
        assert(input.take(i)[pos[t]] == input[pos[t]]);
    }
    assert forall|t: int| 0 <= t < out2.len() implies 0 <= #[trigger] pos2[t] < inp.len()
        && out2[t] == inp[pos2[t]] by {
        if t < j {
            assert(out2[t] == out[t] && pos2[t] == pos[t]);
        } else if t > j {
            assert(out2[t] == out[t - 1] && pos2[t] == pos[t - 1]);
        }
    }
    // Everything at or after the insertion point orders strictly after `e`.
    assert forall|t: int| j <= t < out.len() implies entry_le(e, #[trigger] out[t]) && !same_key(
        out[t],
        e,
    ) by {
        lemma_entry_order(out[j], e, e);
        lemma_entry_order(e, out[j], out[t]);
        if j < t {
            assert(entry_le(out[j], out[t]));
        }
        lemma_entry_order(out[t], e, out[j]);
        if same_key(out[t], e) {
            lemma_entry_order(out[j], out[t], e);
            if j < t {
                assert(entry_le(out[j], out[t]));
            } else {
                lemma_entry_order(out[j], out[j], e);
            }
        }
    }
    assert forall|j1: int, j2: int| 0 <= j1 < j2 < out2.len() implies #[trigger] pos2[j1]
        != #[trigger] pos2[j2] && entry_le(out2[j1], out2[j2]) && (same_key(out2[j1], out2[j2])
        ==> pos2[j1] < pos2[j2]) by {
        if j1 < j && j2 < j {
            assert(out2[j1] == out[j1] && out2[j2] == out[j2]);
        } else if j1 < j && j2 == j {
            assert(out2[j1] == out[j1]);
        } else if j1 < j && j2 > j {
            assert(out2[j1] == out[j1] && out2[j2] == out[j2 - 1]);
        } else if j1 == j {
            assert(out2[j2] == out[j2 - 1]);
        } else {
            assert(out2[j1] == out[j1 - 1] && out2[j2] == out[j2 - 1]);
        }
    }
}

fn chars_le_exec(a: &Vec<char>, b: &Vec<char>) -> (r: bool)
    ensures
        r == chars_le(a@, b@),
{
    let mut i: usize = 0;
    while i < a.len() && i < b.len() && a[i] == b[i]
        invariant
            i <= a@.len(),
            i <= b@.len(),
            forall|k: int| 0 <= k < i ==> a@[k] == b@[k],
        decreases a.len() - i,
    {
        i = i + 1;
    }
    proof {
        lemma_chars_le_skip(a@, b@, i as int);
    }
    if i == a.len() {
        true
    } else if i == b.len() {
        false
    } else {
        a[i] < b[i]
    }
}

fn key_le(d1: u8, k1: &Vec<char>, d2: u8, k2: &Vec<char>) -> (r: bool)
    ensures
        r == (d1 < d2 || (d1 == d2 && chars_le(k1@, k2@))),
{
    d1 < d2 || (d1 == d2 && chars_le_exec(k1, k2))
}

/// The user presets in listing order: those directly in the folder first,
/// then by relative path in ASCII lower case, equal keys keeping their order.
pub fn sort_user_presets<P>(entries: Vec<UserPresetEntry<P>>) -> (r: Vec<UserPresetEntry<P>>)
    ensures
        exists|pos: Seq<int>| stable_sort_of(r@, entries@, pos),
{
    let ghost input = entries@;
    let n = entries.len();
    let mut rest = entries;
    let mut out: Vec<UserPresetEntry<P>> = Vec::new();
    let mut keys: Vec<Vec<char>> = Vec::new();
    let mut depths: Vec<u8> = Vec::new();
    let ghost mut pos: Seq<int> = Seq::empty();
    let mut i: usize = 0;
    assert(input.take(0).len() == 0);
    while i < n
        invariant
            n == input.len(),
            i <= n,
            rest@ == input.skip(i as int),
            stable_sort_of(out@, input.take(i as int), pos),
            keys@.len() == out@.len(),
            depths@.len() == out@.len(),
            forall|t: int| 0 <= t < out@.len() ==> #[trigger] keys@[t]@ == entry_text_key(out@[t]),
            forall|t: int| 0 <= t < out@.len() ==> #[trigger] depths@[t] == entry_depth(out@[t]),
        decreases n - i,
    {
        let e = rest.remove(0);
        assert(e == input[i as int]);
        assert(rest@ == input.skip(i + 1));
        let d: u8 = if e.relative_parts.len() > 1 {
            1
        } else {
            0
        };
        let k = chars_to_ascii_lowercase(&str_to_chars(e.relative_text.as_str()));
        let mut j: usize = 0;
        while j < out.len() && key_le(depths[j], &keys[j], d, &k)
            invariant
                j <= out@.len(),
                keys@.len() == out@.len(),
                depths@.len() == out@.len(),
                forall|t: int| 0 <= t < out@.len() ==> #[trigger] keys@[t]@ == entry_text_key(out@[t]),
                forall|t: int| 0 <= t < out@.len() ==> #[trigger] depths@[t] == entry_depth(out@[t]),
                d == entry_depth(e),
                k@ == entry_text_key(e),
                forall|t: int| 0 <= t < j ==> entry_le(#[trigger] out@[t], e),
            decreases out.len() - j,
        {
            j = j + 1;
        }
        proof {
            lemma_insert_step(out@, input, pos, i as int, j as int);
            pos = pos.insert(j as int, i as int);
        }
        let ghost out0 = out@;
        let ghost keys0 = keys@;
        let ghost depths0 = depths@;
        out.insert(j, e);
        keys.insert(j, k);
        depths.insert(j, d);
        proof {
            assert forall|t: int| 0 <= t < out@.len() implies #[trigger] keys@[t]@ == entry_text_key(out@[t]) && depths@[t] == entry_depth(out@[t]) by {
                if t > j as int {
                    assert(keys@[t] == keys0[t - 1] && out@[t] == out0[t - 1] && depths@[t] == depths0[t - 1]);
                } else if t < j as int {
                    assert(keys@[t] == keys0[t] && out@[t] == out0[t] && depths@[t] == depths0[t]);
                }
            }
        }
        i = i + 1;
    }
    assert(input.take(n as int) == input);
    out
}

/// The labels and paths of the user presets listed in `sorted`, in order.
pub open spec fn listed_labels<P>(sorted: Seq<UserPresetEntry<P>>) -> Seq<Seq<char>> {
    sorted.map_values(|e: UserPresetEntry<P>| preset_label(views(e.relative_parts@)))
}

/// Every listed preset whose file name is plain is labelled with its stem.
pub open spec fn labels_use_stems<P>(sorted: Seq<UserPresetEntry<P>>, labels: Seq<Seq<char>>) -> bool {
    forall|t: int|
        0 <= t < sorted.len() && #[trigger] sorted[t].relative_parts@.len() > 0
            && is_plain_file_name(sorted[t].relative_parts@.last()@) ==> labels[t] == stem_label(
            views(sorted[t].relative_parts@),
        )
}

/// The paths of the user presets listed in `sorted`, in order.
pub open spec fn listed_paths<P>(sorted: Seq<UserPresetEntry<P>>) -> Seq<P> {
    sorted.map_values(|e: UserPresetEntry<P>| e.path)
}

/// The user presets offered by the editor, as labels and paths, from the
/// listing of the preset folder (`None` when it could not be listed): in
/// listing order, or a single placeholder label and no path when there are
/// none.
pub fn available_user_presets<P>(listing: Option<Vec<UserPresetEntry<P>>>) -> (r: (
    Vec<String>,
    Vec<P>,
))
    ensures
        (listing is None || listing->0@.len() == 0) ==> views(r.0@) == seq!["No presets found"@]
            && r.1@.len() == 0,
        listing is Some && listing->0@.len() > 0 ==> exists|
            sorted: Seq<UserPresetEntry<P>>,
            pos: Seq<int>,
        |
            stable_sort_of(sorted, listing->0@, pos) && views(r.0@) == listed_labels(sorted) && r.1@
                == listed_paths(sorted) && labels_use_stems(sorted, views(r.0@)),
{
    let entries = match listing {
        None => {
            let mut labels: Vec<String> = Vec::new();
            labels.push(String::from_str("No presets found"));
            assert(views(labels@) =~= seq!["No presets found"@]);
            return (labels, Vec::new());
        },
        Some(entries) => entries,
    };
    if entries.len() == 0 {
        let mut labels: Vec<String> = Vec::new();
        labels.push(String::from_str("No presets found"));
        assert(views(labels@) =~= seq!["No presets found"@]);
        return (labels, Vec::new());
    }
    let ghost input = entries@;
    let mut sorted = sort_user_presets(entries);
    let ghost sorted0 = sorted@;
    let n = sorted.len();
    let mut labels: Vec<String> = Vec::new();
    let mut i: usize = 0;
    while i < n
        invariant
            n == sorted@.len(),
            i <= n,
            labels@.len() == i,
            forall|t: int| 0 <= t < i ==> #[trigger] labels@[t]@ == preset_label(views(sorted@[t].relative_parts@)),
            forall|t: int|
                0 <= t < i && sorted@[t].relative_parts@.len() > 0 && is_plain_file_name(
                    sorted@[t].relative_parts@.last()@,
                ) ==> #[trigger] labels@[t]@ == stem_label(views(sorted@[t].relative_parts@)),
        decreases n - i,
    {
        labels.push(user_preset_label(&sorted[i].relative_parts));
        i = i + 1;
    }
    assert(views(labels@) =~= listed_labels(sorted0));
    assert(labels_use_stems(sorted0, views(labels@)));
    let mut paths: Vec<P> = Vec::new();
    let mut k: usize = 0;
    while k < n
        invariant
            n == sorted0.len(),
            k <= n,
            sorted@ == sorted0.skip(k as int),
            paths@ == listed_paths(sorted0.take(k as int)),
        decreases n - k,
    {
        let e = sorted.remove(0);
        assert(e == sorted0[k as int]);
        assert(sorted@ == sorted0.skip(k + 1));
        paths.push(e.path);
        assert(sorted0.take(k + 1) == sorted0.take(k as int).push(sorted0[k as int]));
        assert(paths@ =~= listed_paths(sorted0.take(k + 1)));
        k = k + 1;
    }
    assert(sorted0.take(n as int) == sorted0);
    (labels, paths)
}

/// Factory room `i` is listed as `Factory / `, the full decimal form of `i`,
/// ` - ` and its name: the number shown reads back as `i`, and distinct rooms
/// carry distinct numbers.
pub proof fn law_factory_entries_number_every_room(names: Seq<Seq<char>>, i: int, j: int)
    requires
        0 <= i < names.len(),
        0 <= j < names.len(),
    ensures
        factory_entries(names).len() == names.len(),
        factory_entries(names)[i] == "Factory / "@ + decimal(i as nat) + " - "@ + names[i],
        digits_value(decimal(i as nat)) == i,
        i != j ==> decimal(i as nat) != decimal(j as nat),
{
    law_decimal_reads_back(i as nat);
    law_decimal_injective(i as nat, j as nat);
}

/// In the preset picker the factory rooms follow the user entries in order,
/// room `i` shown as `Factory / `, the decimal form of `i`, ` - ` and its
/// name, with ` *` added only where it is the modified selection.
pub proof fn law_picker_lists_factory_rooms(
    p: ParamValues,
    table: Seq<Knobs>,
    names: Seq<Seq<char>>,
    user_labels: Seq<Seq<char>>,
    user_count: int,
    matches_current: bool,
    i: int,
)
    requires
        0 <= user_count,
        0 <= i < names.len(),
    ensures
        ({
            let start = user_entries(user_labels, user_count).len();
            let labels = picker_labels(p, table, names, user_labels, user_count, matches_current);
            let entry = "Factory / "@ + decimal(i as nat) + " - "@ + names[i];
            &&& labels.len() == start + names.len()
            &&& labels[start + i] == entry || labels[start + i] == entry + " *"@
            &&& digits_value(decimal(i as nat)) == i
        }),
{
    law_decimal_reads_back(i as nat);
    let users = user_entries(user_labels, user_count);
    let base = users + factory_entries(names);
    assert(base[users.len() + i] == factory_entries(names)[i]);
}

/// The preset picker lists one `User / <label>` entry per user preset (as
/// many as there are, up to the count), or a single placeholder when there
/// are none, then the factory rooms; no entry is changed but the selected
/// one, and that one only while it is modified, when it ends with ` *`
/// (added unless it already did).
pub proof fn law_picker_marks_only_the_modified_selection(
    p: ParamValues,
    table: Seq<Knobs>,
    names: Seq<Seq<char>>,
    user_labels: Seq<Seq<char>>,
    user_count: int,
    matches_current: bool,
)
    requires
        0 <= user_count,
    ensures
        ({
            let users = user_entries(user_labels, user_count);
            let base = users + factory_entries(names);
            let labels = picker_labels(p, table, names, user_labels, user_count, matches_current);
            let m = modified_entry(p, table, user_count, matches_current);
            &&& user_count == 0 ==> users == seq!["User / No presets found"@]
            &&& user_count > 0 ==> users.len() == (if user_count < user_labels.len() {
                user_count
            } else {
                user_labels.len() as int
            })
            &&& user_count > 0 ==> forall|k: int|
                0 <= k < users.len() ==> #[trigger] users[k] == "User / "@ + user_labels[k]
            &&& labels.len() == base.len()
            &&& forall|k: int| 0 <= k < base.len() && m != Some(k) ==> #[trigger] labels[k] == base[k]
            &&& forall|k: int|
                0 <= k < base.len() && m == Some(k) ==> ends_with_star(#[trigger] labels[k]) && (
                labels[k] == base[k] || labels[k] == base[k] + " *"@)
        }),
{
    let users = user_entries(user_labels, user_count);
    let base = users + factory_entries(names);
    let m = modified_entry(p, table, user_count, matches_current);
    assert forall|k: int|
        0 <= k < base.len() && m == Some(k) implies ends_with_star(
        #[trigger] picker_labels(p, table, names, user_labels, user_count, matches_current)[k],
    ) by {
        if !ends_with_star(base[k]) {
            reveal_strlit(" *");
            let t = base[k] + " *"@;
            assert(" *"@.len() == 2);
            assert(t[t.len() - 2] == " *"@[0]);
            assert(t[t.len() - 1] == " *"@[1]);
            assert(t[t.len() - 2] == ' ');
            assert(t[t.len() - 1] == '*');
        }
    }
}

/// A window size picked by the user is the one restored from the stored
/// window parameter (choices past the last stand for the last).
pub proof fn law_window_choice_round_trips(index: int)
    requires
        0 <= index,
    ensures
        window_choice_of(window_param_of(index)) == window_param_of(index),
{
}

/// The picker entry that was picked, once stored, is the one shown selected.
pub proof fn law_picked_entry_is_shown(p: ParamValues, user_count: int, n_rooms: int, entry: int)
    requires
        0 <= user_count,
        1 <= n_rooms,
        0 <= entry < user_display_count(user_count) + n_rooms,
        p.preset_display_idx == entry,
    ensures
        picker_index(p, user_count, n_rooms) == entry,
{
}

} // verus!
