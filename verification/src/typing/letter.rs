//! A single letter of the text to type and what the user typed for it.
use crate::text::push_char;
use vstd::prelude::*;

verus! {

/// What was typed for a letter.
#[derive(Debug, PartialEq, Eq, Clone, Copy, Structural)]
pub enum TypedState {
    /// The user typed this character at the letter's place.
    Typed(char),
    /// Nothing typed yet.
    NotTyped,
    /// A character typed past the end of the word.
    Extra,
}

/// Represents a single letter of a word.
#[derive(Debug, Clone, Copy)]
pub struct Letter {
    /// The expected character (for an extra letter, the character typed).
    pub letter: char,
    /// Typed state, used to style the letter: white (typed), red (error),
    /// gray (not typed).
    pub typed_state: TypedState,
}

impl Letter {
    /// A letter is in error unless the character typed for it is the letter.
    pub open spec fn spec_is_error(self) -> bool {
        match self.typed_state {
            TypedState::Typed(c) => c != self.letter,
            _ => true,
        }
    }

    /// Whether a character was typed at this letter's place (extras excluded).
    pub open spec fn spec_is_typed(self) -> bool {
        self.typed_state is Typed
    }

    /// Creates a new, not yet typed letter.
    pub fn new(letter: char) -> (res: Self)
        ensures
            res.letter == letter,
            res.typed_state == TypedState::NotTyped,
    {
        Letter { letter, typed_state: TypedState::NotTyped }
    }

    /// Returns the letter with the given typed state.
    pub fn with_typed_letter(self, typed_letter: TypedState) -> (res: Self)
        ensures
            res.letter == self.letter,
            res.typed_state == typed_letter,
    {
        Letter { typed_state: typed_letter, ..self }
    }

    /// The letter as a string of one character.
    pub fn to_string(&self) -> (res: String)
        ensures
            res@ == seq![self.letter],
    {
        let mut s = String::new();
        push_char(&mut s, self.letter);
        s
    }

    /// Whether this letter is wrong: anything but the right character typed.
    pub fn is_error(&self) -> (res: bool)
        ensures
            res == self.spec_is_error(),
    {
        match self.typed_state {
            TypedState::Typed(c) => c != self.letter,
            _ => true,
        }
    }
}

} // verus!
