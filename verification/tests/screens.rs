use typing_test_tui::mode::Mode;
use typing_test_tui::mode_selection::ModeSelection;
use typing_test_tui::screens::{end_screen_step, typing_screen_step, typing_tick_step, ScreenAction, ScreenKey};
use typing_test_tui::typing::typing_test::TypingTest;

#[test]
fn typing_screen_types_and_ends() {
    let mut test = TypingTest::new("ab");
    let mut menu = ModeSelection::new(Mode::Quote);

    assert_eq!(typing_screen_step(&mut test, &mut menu, Mode::Quote, ScreenKey::Char('a')), ScreenAction::Nothing);
    assert!(test.has_started());
    assert_eq!(typing_screen_step(&mut test, &mut menu, Mode::Quote, ScreenKey::Char('b')), ScreenAction::Ended);
    assert!(test.is_done());
}

#[test]
fn typing_screen_backspace_tab_and_esc() {
    let mut test = TypingTest::new("ab cd");
    let mut menu = ModeSelection::new(Mode::Quote);

    typing_screen_step(&mut test, &mut menu, Mode::Quote, ScreenKey::Char('a'));
    assert_eq!(typing_screen_step(&mut test, &mut menu, Mode::Quote, ScreenKey::Backspace), ScreenAction::Nothing);
    assert_eq!(test.letter_index, 0);
    assert_eq!(test.letters_typed(), 0);
    assert_eq!(typing_screen_step(&mut test, &mut menu, Mode::Quote, ScreenKey::Tab), ScreenAction::Restart);
    assert_eq!(typing_screen_step(&mut test, &mut menu, Mode::Quote, ScreenKey::Esc), ScreenAction::Quit);
    assert_eq!(typing_screen_step(&mut test, &mut menu, Mode::Quote, ScreenKey::Other), ScreenAction::Nothing);
}

#[test]
fn typing_screen_arrows_change_the_mode() {
    let mut test = TypingTest::new("ab");
    let mut menu = ModeSelection::new(Mode::Words(25));

    assert_eq!(
        typing_screen_step(&mut test, &mut menu, Mode::Words(25), ScreenKey::Right),
        ScreenAction::ModeChanged(Mode::Words(50))
    );
    assert_eq!(typing_screen_step(&mut test, &mut menu, Mode::Words(50), ScreenKey::Up), ScreenAction::Nothing);
    assert_eq!(
        typing_screen_step(&mut test, &mut menu, Mode::Words(50), ScreenKey::Down),
        ScreenAction::Nothing
    );
    assert_eq!(menu.selected_mode(), Some(Mode::Words(50)));
    assert_eq!(
        typing_screen_step(&mut test, &mut menu, Mode::Words(50), ScreenKey::Left),
        ScreenAction::ModeChanged(Mode::Words(25))
    );
}

#[test]
fn end_screen_keys() {
    assert_eq!(end_screen_step(ScreenKey::Char('q')), ScreenAction::Quit);
    assert_eq!(end_screen_step(ScreenKey::Esc), ScreenAction::Quit);
    assert_eq!(end_screen_step(ScreenKey::Tab), ScreenAction::Restart);
    assert_eq!(end_screen_step(ScreenKey::Char('x')), ScreenAction::Nothing);
}

#[test]
fn timed_tests_end_when_their_time_is_up() {
    let second: u128 = 1_000_000_000;
    assert!(!typing_tick_step(Mode::Time(15), Some(15 * second)));
    assert!(typing_tick_step(Mode::Time(15), Some(15 * second + 1)));
    assert!(!typing_tick_step(Mode::Time(0), Some(second)));
    assert!(typing_tick_step(Mode::Time(0), Some(second + 1)));
    assert!(!typing_tick_step(Mode::Time(15), None));
    assert!(!typing_tick_step(Mode::Words(10), Some(100 * second)));
    assert!(!typing_tick_step(Mode::Quote, Some(100 * second)));
}

#[test]
fn down_after_up_keeps_the_mode_of_a_new_menu() {
    for mode in [Mode::Quote, Mode::Words(25), Mode::Time(60), Mode::Words(3)] {
        let mut menu = ModeSelection::new(mode);
        let before = menu.selected_mode();
        menu.handle_up();
        menu.handle_down();
        assert_eq!(menu.selected_mode(), before);
    }
}

#[test]
fn down_from_a_fresh_heading_takes_the_first_entry() {
    let mut menu = ModeSelection::new(Mode::Quote);
    menu.handle_right();
    assert_eq!(menu.selected_mode(), None);
    menu.handle_down();
    assert_eq!(menu.selected_mode(), Some(Mode::Words(10)));
}

#[test]
fn checks_before_keystrokes() {
    let mut test = TypingTest::new("ab ");
    assert!(test.is_well_formed());
    assert!(test.can_backspace_now());
    assert!(test.can_type_now('a'));
    test.on_type('a');
    test.on_type('b');
    test.on_type(' ');
    // the last word is empty: a letter has nowhere to go
    assert!(!test.can_type_now('x'));
    assert!(test.can_type_now(' '));
    assert_eq!(test.checked_accuracy(), Some(test.accuracy()));
    assert_eq!(test.checked_accuracy(), Some(100));
}
