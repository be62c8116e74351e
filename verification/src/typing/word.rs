//! A single word of the text to type.
use super::letter::{Letter, TypedState};
use crate::text::push_char;
use vstd::prelude::*;

verus! {



/// Number of letters in `s` for which a character was typed (extras excluded).
pub open spec fn count_typed(s: Seq<Letter>) -> nat
    decreases s.len(),
{
    if s.len() == 0 {
        0
    } else {
        count_typed(s.drop_last()) + if s.last().spec_is_typed() { 1nat } else { 0nat }
    }
}

/// Number of letters in `s` that are not in error.
pub open spec fn count_correct(s: Seq<Letter>) -> nat
    decreases s.len(),
{
    if s.len() == 0 {
        0
    } else {
        count_correct(s.drop_last()) + if s.last().spec_is_error() { 0nat } else { 1nat }
    }
}

/// The characters typed at the letters' places, in order, extras excluded.
pub open spec fn typed_chars(s: Seq<Letter>) -> Seq<char>
    decreases s.len(),
{
    if s.len() == 0 {
        Seq::empty()
    } else {
        match s.last().typed_state {
            TypedState::Typed(c) => typed_chars(s.drop_last()).push(c),
            _ => typed_chars(s.drop_last()),
        }
    }
}

/// The characters shown for the letters.
pub open spec fn letter_chars(s: Seq<Letter>) -> Seq<char> {
    Seq::new(s.len(), |i: int| s[i].letter)
}

/// Whether some letter of `s` is in error.
pub open spec fn letters_have_error(s: Seq<Letter>) -> bool {
    exists|i: int| 0 <= i < s.len() && #[trigger] s[i].spec_is_error()
}

/// The abstract content of a word.
#[verifier::ext_equal]
pub struct WordView {
    pub letters: Seq<Letter>,
    pub word: Seq<char>,
    pub last_typed_letter_index: int,
}

impl WordView {
    pub open spec fn has_error(self) -> bool {
        letters_have_error(self.letters)
    }

    /// Length in bytes of the UTF-8 encoding of the word to type, as `str::len`
    /// reports it.
    pub open spec fn byte_len(self) -> nat {
        (vstd::utf8::encode_utf8(self.word).len() as usize) as nat
    }

    /// Whether this is the word `word` as it is before anything is typed:
    /// one untyped letter per character.
    pub open spec fn is_fresh(self, word: Seq<char>) -> bool {
        &&& self.word == word
        &&& self.last_typed_letter_index == 0
        &&& self.letters.len() == word.len()
        &&& forall|i: int|
            0 <= i < word.len() ==> #[trigger] self.letters[i] == (Letter {
                letter: word[i],
                typed_state: TypedState::NotTyped,
            })
    }
}

/// Represents a single word of the text to type.
#[derive(Debug)]
pub struct Word {
    /// Its letters, extras included.
    pub letters: Vec<Letter>,
    /// The underlying word.
    pub word: String,
    /// Where the cursor was when the user left this word with a space.
    pub last_typed_letter_index: usize,
}

impl View for Word {
    type V = WordView;

    open spec fn view(&self) -> WordView {
        WordView {
            letters: self.letters@,
            word: self.word@,
            last_typed_letter_index: self.last_typed_letter_index as int,
        }
    }
}

impl Word {
    /// Creates a new word from the given text.
    pub fn new(text: &str) -> (res: Word)
        ensures
            res@.is_fresh(text@),
    {
        let mut letters: Vec<Letter> = Vec::new();
        for c in iter: text.chars()
            invariant
                iter.seq() == text@,
                letters@.len() == iter.index(),
                forall|i: int|
                    0 <= i < letters@.len() ==> #[trigger] letters@[i] == (Letter {
                        letter: text@[i],
                        typed_state: TypedState::NotTyped,
                    }),
        {
            letters.push(Letter::new(c));
        }
        Word { letters, word: text.to_owned(), last_typed_letter_index: 0 }
    }

    /// Whether any letter is in error.
    /// If a word is errored, there will be a red underline.
    /// This is only meaningful for typed words (every word before the current word).
    pub fn is_error(&self) -> (res: bool)
        ensures
            res == self@.has_error(),
    {
        let n = self.letters.len();
        for i in 0..n
            invariant
                n == self.letters@.len(),
                forall|j: int| 0 <= j < i ==> !(#[trigger] self.letters@[j]).spec_is_error(),
        {
            if self.letters[i].is_error() {
                return true;
            }
        }
        false
    }

    /// Pushes a letter to the word.
    pub fn push(&mut self, letter: Letter)
        ensures
            final(self).letters@ == old(self).letters@.push(letter),
            final(self).word@ == old(self).word@,
            final(self).last_typed_letter_index == old(self).last_typed_letter_index,
    {
        self.letters.push(letter)
    }

    /// Pops the last letter.
    pub fn pop(&mut self) -> (res: Option<Letter>)
        ensures
            old(self).letters@.len() > 0 ==> res == Some(old(self).letters@.last())
                && final(self).letters@ == old(self).letters@.drop_last(),
            old(self).letters@.len() == 0 ==> res is None && final(self).letters@ == old(
                self,
            ).letters@,
            final(self).word@ == old(self).word@,
            final(self).last_typed_letter_index == old(self).last_typed_letter_index,
    {
        self.letters.pop()
    }

    /// Number of letters, typed, untyped and extra.
    pub fn letters_len(&self) -> (res: usize)
        ensures
            res == self.letters@.len(),
    {
        self.letters.len()
    }

    /// Number of letters, typed, untyped and extra.
    pub fn len(&self) -> (res: usize)
        ensures
            res == self.letters@.len(),
    {
        self.letters.len()
    }

    /// Length of the word to type, in bytes of its UTF-8 encoding.
    pub fn actual_len(&self) -> (res: usize)
        ensures
            res == self@.byte_len(),
    {
        self.word.as_str().len()
    }

    /// Number of letters typed, extras excluded.
    pub fn n_letters_typed(&self) -> (res: usize)
        ensures
            res == count_typed(self.letters@),
    {
        let n = self.letters.len();
        let mut count: usize = 0;
        for i in 0..n
            invariant
                n == self.letters@.len(),
                count == count_typed(self.letters@.take(i as int)),
                count <= i,
        {
            assert(self.letters@.take(i + 1).drop_last() =~= self.letters@.take(i as int));
            if let TypedState::Typed(_) = self.letters[i].typed_state {
                count = count + 1;
            }
        }
        assert(self.letters@.take(n as int) =~= self.letters@);
        count
    }

    /// Number of letters not in error.
    pub(crate) fn n_correct_letters(&self) -> (res: usize)
        ensures
            res == count_correct(self.letters@),
    {
        let n = self.letters.len();
        let mut count: usize = 0;
        for i in 0..n
            invariant
                n == self.letters@.len(),
                count == count_correct(self.letters@.take(i as int)),
                count <= i,
        {
            assert(self.letters@.take(i + 1).drop_last() =~= self.letters@.take(i as int));
            if !self.letters[i].is_error() {
                count = count + 1;
            }
        }
        assert(self.letters@.take(n as int) =~= self.letters@);
        count
    }

    /// The characters typed, in order, extras excluded.
    pub fn to_string_typed(&self) -> (res: String)
        ensures
            res@ == typed_chars(self.letters@),
    {
        let n = self.letters.len();
        let mut res = String::new();
        for i in 0..n
            invariant
                n == self.letters@.len(),
                res@ == typed_chars(self.letters@.take(i as int)),
        {
            assert(self.letters@.take(i + 1).drop_last() =~= self.letters@.take(i as int));
            if let TypedState::Typed(c) = self.letters[i].typed_state {
                push_char(&mut res, c);
            }
        }
        assert(self.letters@.take(n as int) =~= self.letters@);
        res
    }

    /// The letters as they are shown: each letter's character.
    pub fn to_string(&self) -> (res: String)
        ensures
            res@ == letter_chars(self.letters@),
    {
        let n = self.letters.len();
        let mut res = String::new();
        for i in 0..n
            invariant
                n == self.letters@.len(),
                res@ =~= letter_chars(self.letters@.take(i as int)),
        {
            push_char(&mut res, self.letters[i].letter);
        }
        assert(self.letters@.take(n as int) =~= self.letters@);
        res
    }

    /// The letter at index `i`, if there is one.
    pub fn get_letter(&self, i: usize) -> (res: Option<&Letter>)
        ensures
            i < self.letters@.len() ==> res == Some(&self.letters@[i as int]),
            i >= self.letters@.len() ==> res is None,
    {
        if i < self.letters.len() {
            Some(&self.letters[i])
        } else {
            None
        }
    }

    /// The letter at index `i`, if there is one, to be changed in place.
    pub fn get_letter_mut(&mut self, i: usize) -> (res: Option<&mut Letter>)
        ensures
            i < old(self).letters@.len() ==> res is Some && *res->0 == old(self).letters@[i as int]
                && final(self).letters@ == old(self).letters@.update(i as int, *final(res->0)),
            i >= old(self).letters@.len() ==> res is None && final(self).letters@ == old(
                self,
            ).letters@,
            final(self).word@ == old(self).word@,
            final(self).last_typed_letter_index == old(self).last_typed_letter_index,
    {
        if i < self.letters.len() {
            Some(&mut self.letters[i])
        } else {
            None
        }
    }
}

} // verus!
