use goldsrc_plugin::editor::{
    apply_window_size_preset, available_user_presets, label_position, preset_picker_index,
    preset_picker_labels, preset_selection, sort_user_presets, user_preset_label,
    window_size_choice, window_size_labels, window_size_param_value, PresetSelection,
    UserPresetEntry,
};
use goldsrc_plugin::params::{Knobs, ParamValues};

fn bits(v: f32) -> u32 {
    v.to_bits()
}

fn strings(v: &[&str]) -> Vec<String> {
    v.iter().map(|s| s.to_string()).collect()
}

fn table() -> Vec<Knobs> {
    let mut t = Vec::new();
    for i in 0..3 {
        t.push([0.0, 0.0, 0.0, 0.0, 1.0, 0.01 * i as f32, 0.5, 2.0, 0.01].map(f32::to_bits));
    }
    t
}

fn params(room: i32) -> ParamValues {
    let r = table()[room as usize].map(f32::from_bits);
    ParamValues {
        room,
        reverb_mix: bits(0.17),
        lock_reverb_mix: false,
        delay_mix: bits(0.25),
        clip_soft: 2,
        enable_amplp: false,
        enable_ampmod: false,
        reverb_size: bits(r[2]),
        reverb_feedback: bits(r[3]),
        enable_revlp: true,
        delay_time: bits(r[5]),
        delay_feedback: bits(r[6]),
        enable_dellp: false,
        haas_time: bits(r[8]),
        seed: 42,
        input_gain_db: bits(0.0),
        output_gain_db: bits(0.0),
        user_preset_idx: 0,
        preset_source_idx: 1,
        preset_display_idx: -1,
        window_size_idx: 0,
    }
}

fn entry(parts: &[&str], text: &str) -> UserPresetEntry<String> {
    UserPresetEntry {
        path: format!("/presets/{text}"),
        relative_parts: strings(parts),
        relative_text: text.to_string(),
    }
}

#[test]
fn window_sizes_are_offered_and_clamped() {
    assert_eq!(
        window_size_labels(),
        strings(&["Compact (500x650)", "Default (620x760)", "Large (760x900)"])
    );
    assert_eq!(apply_window_size_preset(0), (500, 650));
    assert_eq!(apply_window_size_preset(1), (620, 760));
    assert_eq!(apply_window_size_preset(2), (760, 900));
    assert_eq!(apply_window_size_preset(17), (760, 900));
    assert_eq!(window_size_choice(-4), 0);
    assert_eq!(window_size_choice(1), 1);
    assert_eq!(window_size_choice(9), 2);
    assert_eq!(window_size_param_value(5), 2);
    assert_eq!(window_size_choice(window_size_param_value(1)), 1);
}

#[test]
fn picker_lists_user_then_factory_entries() {
    let names = strings(&["Off", "Generic", "Metal"]);
    let labels = preset_picker_labels(&params(1), &table(), &names, &Vec::new(), 0, true);
    assert_eq!(
        labels,
        strings(&[
            "User / No presets found",
            "Factory / 0 - Off",
            "Factory / 1 - Generic",
            "Factory / 2 - Metal",
        ])
    );
    let users = strings(&["mine", "sub / yours", "extra"]);
    let labels = preset_picker_labels(&params(2), &table(), &names, &users, 2, true);
    assert_eq!(
        labels,
        strings(&[
            "User / mine",
            "User / sub / yours",
            "Factory / 0 - Off",
            "Factory / 1 - Generic",
            "Factory / 2 - Metal",
        ])
    );
}

#[test]
fn picker_marks_modified_factory_room() {
    let names = strings(&["Off", "Generic", "Metal"]);
    let mut p = params(1);
    p.delay_feedback = bits(0.9);
    let labels = preset_picker_labels(&p, &table(), &names, &Vec::new(), 0, true);
    assert_eq!(labels[2], "Factory / 1 - Generic *");
    assert_eq!(labels[1], "Factory / 0 - Off");
}

#[test]
fn picker_marks_modified_user_preset() {
    let names = strings(&["Off", "Generic", "Metal"]);
    let users = strings(&["mine", "done *"]);
    let mut p = params(1);
    p.preset_source_idx = 0;
    p.user_preset_idx = 0;
    let labels = preset_picker_labels(&p, &table(), &names, &users, 2, false);
    assert_eq!(labels[0], "User / mine *");
    p.user_preset_idx = 9;
    let labels = preset_picker_labels(&p, &table(), &names, &users, 2, false);
    assert_eq!(labels[1], "User / done *");
    let labels = preset_picker_labels(&p, &table(), &names, &users, 2, true);
    assert_eq!(labels[0], "User / mine");
}

#[test]
fn picker_index_prefers_the_stored_entry() {
    let mut p = params(2);
    p.preset_display_idx = 1;
    assert_eq!(preset_picker_index(&p, 0, 3), 1);
    p.preset_display_idx = 4;
    assert_eq!(preset_picker_index(&p, 0, 3), 3);
    p.preset_display_idx = -1;
    assert_eq!(preset_picker_index(&p, 2, 3), 4);
    p.preset_source_idx = 0;
    p.user_preset_idx = 5;
    assert_eq!(preset_picker_index(&p, 2, 3), 1);
    assert_eq!(preset_picker_index(&p, 0, 3), 0);
}

#[test]
fn picking_an_entry_selects_room_or_user_preset() {
    assert_eq!(preset_selection(0, 0), PresetSelection::Nothing);
    assert_eq!(preset_selection(1, 0), PresetSelection::Factory(0));
    assert_eq!(preset_selection(1, 2), PresetSelection::User(1));
    assert_eq!(preset_selection(5, 2), PresetSelection::Factory(3));
}

#[test]
fn saved_label_is_found_first() {
    let labels = strings(&["a", "b", "a"]);
    assert_eq!(label_position(&labels, "a"), Some(0));
    assert_eq!(label_position(&labels, "b"), Some(1));
    assert_eq!(label_position(&labels, "c"), None);
}

#[test]
fn user_labels_drop_the_extension() {
    assert_eq!(user_preset_label(&strings(&["hall.json"])), "hall");
    assert_eq!(user_preset_label(&strings(&["sub", "b.json"])), "sub / b");
    assert_eq!(user_preset_label(&strings(&["x.tar.json"])), "x.tar");
    assert_eq!(user_preset_label(&strings(&[".hidden"])), ".hidden");
    assert_eq!(user_preset_label(&strings(&["plain"])), "plain");
    assert_eq!(user_preset_label(&Vec::new()), "Unnamed preset");
}

#[test]
fn user_presets_sort_flat_first_then_by_lowercase_path() {
    let sorted = sort_user_presets(vec![
        entry(&["sub", "a.json"], "sub/a.json"),
        entry(&["B.json"], "B.json"),
        entry(&["a.json"], "a.json"),
        entry(&["A.json"], "A.json"),
    ]);
    let texts: Vec<&str> = sorted.iter().map(|e| e.relative_text.as_str()).collect();
    assert_eq!(texts, vec!["a.json", "A.json", "B.json", "sub/a.json"]);
}

#[test]
fn available_user_presets_pairs_labels_and_paths() {
    let (labels, paths) = available_user_presets(Some(vec![
        entry(&["zed.json"], "zed.json"),
        entry(&["Deep", "cave.json"], "Deep/cave.json"),
        entry(&["alpha.json"], "alpha.json"),
    ]));
    assert_eq!(labels, strings(&["alpha", "zed", "Deep / cave"]));
    assert_eq!(
        paths,
        strings(&["/presets/alpha.json", "/presets/zed.json", "/presets/Deep/cave.json"])
    );
    let (labels, paths) = available_user_presets::<String>(None);
    assert_eq!(labels, strings(&["No presets found"]));
    assert!(paths.is_empty());
    let (labels, paths) = available_user_presets::<String>(Some(Vec::new()));
    assert_eq!(labels, strings(&["No presets found"]));
    assert!(paths.is_empty());
}

#[test]
fn sort_agrees_with_std_stable_sort() {
    let texts = [
        "b.json", "B.json", "a.json", "sub/x.json", "Sub/a.json", "ä.json", "A.json", "z.json",
        "sub/X.json", "b.json", "Zed.json", "_.json", "aa.json", "a.JSON",
    ];
    let entries: Vec<UserPresetEntry<String>> = texts
        .iter()
        .enumerate()
        .map(|(i, t)| UserPresetEntry {
            path: format!("{i}:{t}"),
            relative_parts: t.split('/').map(|p| p.to_string()).collect(),
            relative_text: t.to_string(),
        })
        .collect();
    let mut expected: Vec<String> = entries.iter().map(|e| e.path.clone()).collect();
    expected.sort_by_key(|p| {
        let t = p.split_once(':').unwrap().1;
        let depth = if t.split('/').count() > 1 { 1 } else { 0 };
        (depth, t.to_ascii_lowercase())
    });
    let sorted: Vec<String> = sort_user_presets(entries).into_iter().map(|e| e.path).collect();
    assert_eq!(sorted, expected);
}

#[test]
fn labels_agree_with_std_file_stem() {
    for name in ["a.json", "a", ".a", ".a.b", "a.", "a.b.c", "..x", "x..", "ä.ü"] {
        let stem = std::path::Path::new(name).file_stem().unwrap().to_str().unwrap().to_string();
        assert_eq!(user_preset_label(&strings(&[name])), stem, "name {name:?}");
    }
}
