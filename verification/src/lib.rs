//! A terminal typing test: the typing engine, the menu selection tree, the
//! mode picker, toast queue, word/quote provider and the multiplayer lobby
//! protocol, each with its contract proved by Verus.

pub mod args;
pub mod clock;
pub mod text;
pub mod selection;
pub mod typing;
pub mod mode;
pub mod mode_selection;
pub mod word_mode_selection;
pub mod toast;
pub mod data;
pub mod config;
pub mod multiplayer;
pub mod screens;
