//! What the keys and the clock do on the single player screens: the typing
//! screen, with the test and the mode menu above it, and the end screen.
use crate::mode::Mode;
use crate::mode_selection::{selected_mode_of, ModeSelection};
use crate::selection::{down_path, left_path, parent_node, right_path, with_last_child};
use crate::typing::typing_test::TypingTest;
use vstd::prelude::*;

verus! {

/// A key pressed on a single player screen.
#[derive(Debug, Clone, Copy, PartialEq, Eq, Structural)]
pub enum ScreenKey {
    Char(char),
    Backspace,
    Tab,
    Esc,
    Left,
    Right,
    Up,
    Down,
    Other,
}

/// What a single player screen asks for after a key.
#[derive(Debug, Clone, Copy, PartialEq, Eq, Structural)]
pub enum ScreenAction {
    Nothing,
    /// The test is done: show the end screen.
    Ended,
    /// Start a new test in the same mode.
    Restart,
    /// The menu selects another mode: start a test in it.
    ModeChanged(Mode),
    Quit,
}

/// The action after the menu moved: a mode change when the menu now
/// selects a mode other than `mode`.
pub open spec fn menu_action(menu: ModeSelection, mode: Mode) -> ScreenAction {
    match selected_mode_of(menu) {
        Some(m) => if m != mode {
            ScreenAction::ModeChanged(m)
        } else {
            ScreenAction::Nothing
        },
        None => ScreenAction::Nothing,
    }
}

/// `b` is the menu `a` after the arrow `key`.
pub open spec fn menu_moved(a: ModeSelection, b: ModeSelection, key: ScreenKey) -> bool {
    match key {
        ScreenKey::Left => b.selection.root == a.selection.root && b.selection.selected_path@
            == left_path(a.selection),
        ScreenKey::Right => b.selection.root == a.selection.root && b.selection.selected_path@
            == right_path(a.selection),
        ScreenKey::Down => b.selection.root == a.selection.root && b.selection.selected_path@
            == down_path(a.selection),
        ScreenKey::Up => if a.selection.selected_path@.len() > 1 {
            &&& b.selection.selected_path@ == a.selection.selected_path@.drop_last()
            &&& with_last_child(
                a.selection.root,
                b.selection.root,
                b.selection.selected_path@,
                a.selection.selected_path@.last(),
            )
        } else {
            b.selection.selected_path@ == a.selection.selected_path@ && b.selection.root
                == a.selection.root
        },
        _ => false,
    }
}

/// A key on the typing screen. A character starts the timer and is typed;
/// the action is `Ended` when that ends the test. Backspace erases. Tab
/// restarts, Esc quits. An arrow moves the mode menu, and asks for the
/// mode it then selects when that differs from `mode`.
pub fn typing_screen_step(test: &mut TypingTest, menu: &mut ModeSelection, mode: Mode, key: ScreenKey) -> (act:
    ScreenAction)
    requires
        old(test).wf(),
        key matches ScreenKey::Char(c) ==> old(test).can_type(c),
        key is Backspace ==> old(test).can_backspace(),
        key is Right ==> (parent_node(old(menu).selection) matches Some(p) && p.children@.len() > 0
            ==> old(menu).selection.selected_path@.last() < usize::MAX),
    ensures
        match key {
            ScreenKey::Char(c) => {
                &&& *final(menu) == *old(menu)
                &&& final(test).wf()
                &&& final(test).time_started is Some
                &&& old(test).time_started is Some ==> final(test).time_started == old(
                    test,
                ).time_started
                &&& if old(test).spec_is_done() {
                    final(test)@ == old(test)@ && act == ScreenAction::Ended
                } else {
                    &&& final(test)@ == old(test)@.type_step(c).0
                    &&& act == if old(test)@.type_step(c).1 {
                        ScreenAction::Ended
                    } else {
                        ScreenAction::Nothing
                    }
                }
            },
            ScreenKey::Backspace => {
                &&& *final(menu) == *old(menu)
                &&& final(test).wf()
                &&& final(test)@ == old(test)@.backspace_step()
                &&& final(test).time_started == old(test).time_started
                &&& final(test).time_ended == old(test).time_ended
                &&& act == ScreenAction::Nothing
            },
            ScreenKey::Tab => *final(test) == *old(test) && *final(menu) == *old(menu) && act
                == ScreenAction::Restart,
            ScreenKey::Esc => *final(test) == *old(test) && *final(menu) == *old(menu) && act
                == ScreenAction::Quit,
            ScreenKey::Other => *final(test) == *old(test) && *final(menu) == *old(menu) && act
                == ScreenAction::Nothing,
            _ => {
                &&& *final(test) == *old(test)
                &&& menu_moved(*old(menu), *final(menu), key)
                &&& act == menu_action(*final(menu), mode)
            },
        },
{
    match key {
        ScreenKey::Char(c) => {
            test.start();
            if test.on_type(c) {
                ScreenAction::Ended
            } else {
                ScreenAction::Nothing
            }
        },
        ScreenKey::Backspace => {
            test.on_backspace();
            ScreenAction::Nothing
        },
        ScreenKey::Tab => ScreenAction::Restart,
        ScreenKey::Esc => ScreenAction::Quit,
        ScreenKey::Other => ScreenAction::Nothing,
        _ => {
            match key {
                ScreenKey::Left => menu.handle_left(),
                ScreenKey::Right => menu.handle_right(),
                ScreenKey::Up => menu.handle_up(),
                _ => menu.handle_down(),
            }
            match menu.selected_mode() {
                Some(m) => if m != mode {
                    ScreenAction::ModeChanged(m)
                } else {
                    ScreenAction::Nothing
                },
                None => ScreenAction::Nothing,
            }
        },
    }
}

/// A key on the end screen: `q` and Esc quit, Tab starts a new test.
pub fn end_screen_step(key: ScreenKey) -> (act: ScreenAction)
    ensures
        act == match key {
            ScreenKey::Char('q') | ScreenKey::Esc => ScreenAction::Quit,
            ScreenKey::Tab => ScreenAction::Restart,
            _ => ScreenAction::Nothing,
        },
{
    match key {
        ScreenKey::Char('q') | ScreenKey::Esc => ScreenAction::Quit,
        ScreenKey::Tab => ScreenAction::Restart,
        _ => ScreenAction::Nothing,
    }
}

/// Nanoseconds in a second.
pub const NANOS_PER_SEC: u128 = 1_000_000_000;

/// Whether a clock tick ends the test: a timed test of `t` seconds ends
/// once more than a second, and more than `t` seconds, have passed since
/// its start (`elapsed_ns`, none before the start).
pub fn typing_tick_step(mode: Mode, elapsed_ns: Option<u128>) -> (end: bool)
    ensures
        end == (mode matches Mode::Time(t) && elapsed_ns matches Some(e) && e > NANOS_PER_SEC
            && e > NANOS_PER_SEC * t),
{
    match (mode, elapsed_ns) {
        (Mode::Time(t), Some(e)) => {
            let limit: u128 = NANOS_PER_SEC * (t as u128);
            e > NANOS_PER_SEC && e > limit
        },
        _ => false,
    }
}

} // verus!
