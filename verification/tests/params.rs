use goldsrc_plugin::params::{clip_mode_for, clip_mode_label, on_off_label, room_value_label, ClipMode};

fn names() -> Vec<String> {
    ["Normal (off)", "Generic", "Metal Small"].iter().map(|s| s.to_string()).collect()
}

#[test]
fn clip_mode_follows_the_parameter() {
    assert_eq!(clip_mode_for(0), ClipMode::Off);
    assert_eq!(clip_mode_for(1), ClipMode::Soft);
    assert_eq!(clip_mode_for(2), ClipMode::Hard);
    assert_eq!(clip_mode_for(-5), ClipMode::Hard);
    assert_eq!(clip_mode_label(0), "Off");
    assert_eq!(clip_mode_label(1), "Soft");
    assert_eq!(clip_mode_label(9), "Hard");
    assert_eq!(on_off_label(true), "On");
    assert_eq!(on_off_label(false), "Off");
}

#[test]
fn room_label_shows_value_and_name() {
    assert_eq!(room_value_label(1, &names()), "1 – Generic");
    assert_eq!(room_value_label(0, &names()), "0 – Normal (off)");
    assert_eq!(room_value_label(29, &names()), "29 – ?");
    assert_eq!(room_value_label(-3, &names()), "-3 – Normal (off)");
    assert_eq!(room_value_label(i32::MIN, &names()), "-2147483648 – Normal (off)");
}
