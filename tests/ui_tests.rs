use voxel_store::ui::{close_pressed, handle_backspace, process_text_input, CloseAction, UIState, UIStateID};

#[test]
fn typed_character_is_appended() {
    let mut t = String::from("ab");
    assert!(process_text_input(&mut t, 'c'));
    assert_eq!(t, "abc");
}

#[test]
fn control_character_is_rejected() {
    let mut t = String::from("ab");
    assert!(!process_text_input(&mut t, '\n'));
    assert!(!process_text_input(&mut t, '\u{7f}'));
    assert!(!process_text_input(&mut t, '\u{9f}'));
    assert!(process_text_input(&mut t, '\u{a0}'));
    assert_eq!(t, "ab\u{a0}");
}

#[test]
fn input_stops_at_the_byte_limit() {
    let mut t = "x".repeat(119);
    assert!(process_text_input(&mut t, 'y'));
    assert_eq!(t.len(), 120);
    assert!(!process_text_input(&mut t, 'z'));
    assert_eq!(t.len(), 120);
    let mut u = "\u{e9}".repeat(60);
    assert!(!process_text_input(&mut u, 'a'));
}

#[test]
fn backspace_removes_last_character() {
    let mut t = String::from("h\u{e9}");
    assert!(handle_backspace(&mut t));
    assert_eq!(t, "h");
    assert!(handle_backspace(&mut t));
    assert!(!handle_backspace(&mut t));
    assert_eq!(t, "");
}

#[test]
fn dialog_states_carry_their_number_and_return_state() {
    let s = UIState::Confirm(UIStateID::new(6), 4);
    assert_eq!(s.inner(), Some(4));
    assert_eq!(s.inner_state(), UIState::InGame);
    let e = UIState::Error(UIStateID::new(7), 9);
    assert_eq!(e.inner(), Some(9));
    assert_eq!(e.inner_state(), UIState::Settings(UIStateID::default()));
    assert_eq!(UIState::Escape.inner(), None);
    assert_eq!(UIState::Escape.inner_state(), UIState::Uninitialized);
    assert_eq!(UIState::Error(UIStateID::new(99), 0).inner_state(), UIState::Uninitialized);
}

#[test]
fn state_identifiers_round_trip() {
    for id in 0..=10u32 {
        let s = UIState::from(UIStateID::new(id));
        assert_eq!(UIStateID::from(&s), UIStateID::new(id));
    }
    assert_eq!(UIStateID::default(), UIStateID::new(0));
    assert_eq!(UIState::default(), UIState::Uninitialized);
}

#[test]
fn close_key_on_each_screen() {
    assert_eq!(close_pressed(&UIState::WorldSelection), CloseAction::Show(UIState::BootScreen));
    assert_eq!(close_pressed(&UIState::Multiplayer), CloseAction::Show(UIState::BootScreen));
    assert_eq!(close_pressed(&UIState::BootScreen), CloseAction::CloseApp);
    assert_eq!(close_pressed(&UIState::InGame), CloseAction::Pause);
    assert_eq!(close_pressed(&UIState::Escape), CloseAction::Resume);
    assert_eq!(close_pressed(&UIState::Loading), CloseAction::Ignore);
    assert_eq!(close_pressed(&UIState::Uninitialized), CloseAction::Ignore);
    assert_eq!(close_pressed(&UIState::NewWorld), CloseAction::Show(UIState::WorldSelection));
    assert_eq!(
        close_pressed(&UIState::Error(UIStateID::new(2), 5)),
        CloseAction::CancelDialog(5, UIState::WorldSelection)
    );
    assert_eq!(
        close_pressed(&UIState::Confirm(UIStateID::new(6), 1)),
        CloseAction::CancelDialog(1, UIState::InGame)
    );
    assert_eq!(close_pressed(&UIState::Settings(UIStateID::new(5))), CloseAction::Show(UIState::Escape));
}
