use goldsrc_plugin::params::ParamValues;
use goldsrc_plugin::presets::{
    choose_preset_root, default_snapshot_name, snapshot_name_for_clock, is_snapshot_file, sanitize_name,
    snapshot_name_for_time, snapshot_path, sort_snapshot_files, ListedFile, PluginParamsSnapshot, PresetIoError, PresetRootSource,
};

fn bits(v: f32) -> u32 {
    v.to_bits()
}

#[test]
fn sanitize_replaces_reserved_and_control_characters() {
    assert_eq!(sanitize_name("a<b>c:d\"e/f\\g|h?i*j"), "a_b_c_d_e_f_g_h_i_j");
    assert_eq!(sanitize_name("\u{7}bell\u{9f}"), "_bell_");
    assert_eq!(sanitize_name("tab\tname"), "tab_name");
}

#[test]
fn sanitize_trims_whitespace_then_dots() {
    assert_eq!(sanitize_name("  my:preset?.. "), "my_preset_");
    assert_eq!(sanitize_name(" . a"), " a");
    assert_eq!(sanitize_name("\u{3000}hall\u{a0}"), "hall");
    assert_eq!(sanitize_name("...hidden..."), "hidden");
    assert_eq!(sanitize_name("Große Halle"), "Große Halle");
}

#[test]
fn snapshot_path_appends_json() {
    assert_eq!(snapshot_path("io_test").unwrap(), "io_test.json");
    assert_eq!(snapshot_path(" cave/1 ").unwrap(), "cave_1.json");
}

#[test]
fn snapshot_path_refuses_empty_names() {
    assert!(matches!(snapshot_path(""), Err(PresetIoError::InvalidFileName)));
    assert!(matches!(snapshot_path(" ... "), Err(PresetIoError::InvalidFileName)));
    assert!(matches!(snapshot_path("\u{2003}"), Err(PresetIoError::InvalidFileName)));
}

#[test]
fn snapshot_name_carries_the_time() {
    assert_eq!(snapshot_name_for_time(42), "preset-42");
    assert_eq!(snapshot_name_for_time(0), "preset-0");
    assert_eq!(snapshot_name_for_time(1_741_392_000), "preset-1741392000");
    let name = default_snapshot_name();
    let digits = name.strip_prefix("preset-").expect("prefix");
    assert!(!digits.is_empty() && digits.chars().all(|c| c.is_ascii_digit()));
}

#[test]
fn preset_root_prefers_override_then_profile_then_home() {
    assert_eq!(
        choose_preset_root(Some("o"), Some("u"), Some("h")).unwrap(),
        PresetRootSource::Override("o")
    );
    assert_eq!(
        choose_preset_root(None, Some("u"), Some("h")).unwrap(),
        PresetRootSource::DesktopOf("u")
    );
    assert_eq!(choose_preset_root(None, None, Some("h")).unwrap(), PresetRootSource::DesktopOf("h"));
    assert!(matches!(
        choose_preset_root::<&str>(None, None, None),
        Err(PresetIoError::MissingDesktop)
    ));
}

#[test]
fn json_extension_ignores_ascii_case() {
    assert!(is_snapshot_file(Some("json")));
    assert!(is_snapshot_file(Some("JSON")));
    assert!(is_snapshot_file(Some("Json")));
    assert!(!is_snapshot_file(Some("jsonx")));
    assert!(!is_snapshot_file(Some("txt")));
    assert!(!is_snapshot_file(Some("")));
    assert!(!is_snapshot_file(None));
}

#[test]
fn error_messages_name_the_cause() {
    assert_eq!(
        PresetIoError::MissingDesktop.message(),
        "Could not determine Desktop path (USERPROFILE/HOME not set)"
    );
    assert_eq!(PresetIoError::InvalidFileName.message(), "Preset file name is empty or invalid");
    assert_eq!(PresetIoError::Io("denied".to_string()).message(), "I/O error: denied");
    assert_eq!(
        PresetIoError::Json("eof".to_string()).message(),
        "JSON parse/serialize error: eof"
    );
}

#[test]
fn snapshot_from_params_copies_every_value() {
    let p = ParamValues {
        room: 7,
        reverb_mix: bits(0.22),
        lock_reverb_mix: true,
        delay_mix: bits(0.31),
        clip_soft: 1,
        enable_amplp: true,
        enable_ampmod: false,
        reverb_size: bits(0.12),
        reverb_feedback: bits(0.73),
        enable_revlp: false,
        delay_time: bits(0.015),
        delay_feedback: bits(0.67),
        enable_dellp: false,
        haas_time: bits(0.02),
        seed: 99,
        input_gain_db: bits(-3.0),
        output_gain_db: bits(1.5),
        user_preset_idx: 3,
        preset_source_idx: 0,
        preset_display_idx: 3,
        window_size_idx: 1,
    };
    let s = PluginParamsSnapshot::from_params(&p);
    assert_eq!(
        s,
        PluginParamsSnapshot {
            room: 7,
            reverb_mix: bits(0.22),
            delay_mix: bits(0.31),
            clip_soft: 1,
            enable_amplp: true,
            enable_ampmod: false,
            reverb_size: bits(0.12),
            reverb_feedback: bits(0.73),
            enable_revlp: false,
            delay_time: bits(0.015),
            delay_feedback: bits(0.67),
            enable_dellp: false,
            haas_time: bits(0.02),
            seed: 99,
            input_gain_db: bits(-3.0),
            output_gain_db: bits(1.5),
        }
    );
}

/// The same rule written with std's string functions.
fn std_sanitized(name: &str) -> String {
    let mut out = String::new();
    for ch in name.chars() {
        let invalid = matches!(ch, '<' | '>' | ':' | '"' | '/' | '\\' | '|' | '?' | '*');
        if invalid || ch.is_control() {
            out.push('_');
        } else {
            out.push(ch);
        }
    }
    out.trim().trim_matches('.').to_string()
}

#[test]
fn sanitize_agrees_with_std_trimming() {
    let samples = [
        "", " ", "..", ". .", " .a. ", "\u{85}x\u{85}", "\u{1680}y\u{2000}", "\u{200b}z",
        "\u{2028}\u{2029}\u{202f}\u{205f}w", "\u{feff}v", "a\u{0}b", "caf\u{e9}.json.",
        "\u{180e}m", "tab\t", "\r\nline", "名字 ", "..\u{3000}..",
    ];
    for s in samples {
        assert_eq!(sanitize_name(s), std_sanitized(s), "input {s:?}");
    }
    for c in 0u32..0x3100 {
        if let Some(ch) = char::from_u32(c) {
            let s = format!("{ch}a{ch}");
            assert_eq!(sanitize_name(&s), std_sanitized(&s), "char {c:#x}");
        }
    }
}

#[test]
fn clock_before_epoch_names_preset_zero() {
    assert_eq!(snapshot_name_for_clock(None), "preset-0");
    assert_eq!(snapshot_name_for_clock(Some(5)), "preset-5");
}

#[test]
fn snapshot_files_sort_like_paths() {
    let root = std::path::PathBuf::from("/presets");
    let names = [
        "b.json", "a/z.json", "a.json", "a b.json", "A.json", "a/b/c.json", "ä.json", "ab.json",
        "a-/x.json", "a/a.json", "Z.json",
    ];
    let paths: Vec<std::path::PathBuf> = names.iter().map(|n| root.join(n)).collect();
    let listed = paths
        .iter()
        .map(|p| ListedFile {
            path: p.clone(),
            parts: p
                .strip_prefix(&root)
                .unwrap()
                .iter()
                .map(|part| part.as_encoded_bytes().to_vec())
                .collect(),
        })
        .collect();
    let mut expected = paths.clone();
    expected.sort();
    assert_eq!(sort_snapshot_files(listed), expected);
}
