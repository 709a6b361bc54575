use ascii_webcam::glyphs::build_lut;
use ascii_webcam::state::{output_step, Key, KeyAction, OutputStep, Settings, ViewState};

fn settings(invert: bool, mirror: bool, transpose: bool, bw: bool, output: bool) -> Settings {
    Settings { invert, mirror, transpose, bw, output_enabled: output }
}

#[test]
fn new_state_starts_empty_with_matching_table() {
    let st = ViewState::new(true, false, true, false, true);
    assert_eq!(st.current_settings(), settings(true, false, true, false, true));
    assert_eq!(st.lut, build_lut(true));
    assert_eq!(st.frame_count, 0);
    assert_eq!(st.capture_index, 0);
    assert_eq!(st.last_frame_plain, "");
}

#[test]
fn quit_keys() {
    let mut st = ViewState::new(false, false, false, false, false);
    assert_eq!(st.handle_key(Key::Char('q'), false), KeyAction::Quit);
    assert_eq!(st.handle_key(Key::Char('q'), true), KeyAction::Quit);
    assert_eq!(st.handle_key(Key::Char('c'), true), KeyAction::Quit);
    assert_eq!(st.current_settings(), settings(false, false, false, false, false));
}

#[test]
fn toggles_and_table_rebuild() {
    let mut st = ViewState::new(false, false, false, false, false);
    assert_eq!(st.handle_key(Key::Char('r'), false), KeyAction::Continue);
    assert!(st.invert);
    assert_eq!(st.lut, build_lut(true));
    assert_eq!(st.handle_key(Key::Char('m'), false), KeyAction::Continue);
    assert_eq!(st.handle_key(Key::Char('t'), false), KeyAction::Continue);
    assert_eq!(st.handle_key(Key::Char('b'), false), KeyAction::Continue);
    assert_eq!(st.handle_key(Key::Char('s'), false), KeyAction::Continue);
    assert_eq!(st.current_settings(), settings(true, true, true, true, true));
    // Control does not change what a toggle key does
    assert_eq!(st.handle_key(Key::Char('r'), true), KeyAction::Continue);
    assert!(!st.invert);
    assert_eq!(st.lut, build_lut(false));
}

#[test]
fn same_key_twice_restores_settings() {
    for c in ['r', 'm', 't', 'b', 's', 'x', 'c'] {
        let mut st = ViewState::new(false, true, false, true, false);
        let before = st.current_settings();
        st.handle_key(Key::Char(c), false);
        st.handle_key(Key::Char(c), false);
        assert_eq!(st.current_settings(), before, "key {c}");
        assert_eq!(st.lut, build_lut(st.invert));
    }
}

#[test]
fn other_keys_change_nothing() {
    let mut st = ViewState::new(false, false, false, false, false);
    assert_eq!(st.handle_key(Key::Other, true), KeyAction::Continue);
    assert_eq!(st.handle_key(Key::Char('z'), false), KeyAction::Continue);
    assert_eq!(st.current_settings(), settings(false, false, false, false, false));
}

#[test]
fn capture_only_after_a_frame() {
    let mut st = ViewState::new(false, false, false, false, false);
    assert_eq!(st.handle_key(Key::Char('c'), false), KeyAction::Continue);
    st.last_frame_plain = String::from("@@\n");
    assert_eq!(st.handle_key(Key::Char('c'), false), KeyAction::SaveCapture);
    assert_eq!(st.capture_file_name(), "capture_0.txt");
    st.capture_saved();
    assert_eq!(st.capture_index, 1);
    assert_eq!(st.capture_file_name(), "capture_1.txt");
    st.capture_index = 4095;
    assert_eq!(st.capture_file_name(), "capture_4095.txt");
}

#[test]
fn capture_names_differ_for_each_number() {
    let mut st = ViewState::new(false, false, false, false, false);
    let mut names = Vec::new();
    for _ in 0..120 {
        names.push(st.capture_file_name());
        st.capture_saved();
    }
    let mut sorted = names.clone();
    sorted.sort();
    sorted.dedup();
    assert_eq!(sorted.len(), names.len());
    assert_eq!(names[7], "capture_7.txt");
    assert_eq!(names[110], "capture_110.txt");
}

#[test]
fn each_toggle_flips_once_per_press() {
    let keys = "rmtbsmrrxqbbb";
    let mut st = ViewState::new(false, false, false, false, false);
    for c in keys.chars() {
        st.handle_key(Key::Char(c), false);
    }
    let odd = |c: char| keys.chars().filter(|&k| k == c).count() % 2 == 1;
    assert_eq!(st.current_settings(), settings(odd('r'), odd('m'), odd('t'), odd('b'), odd('s')));
    assert_eq!(output_step(false, true), OutputStep::Stop);
    assert_eq!(output_step(false, false), OutputStep::Stop);
    assert_eq!(output_step(true, false), OutputStep::Start);
    assert_eq!(output_step(true, true), OutputStep::Send);
}
