//! A single typing test: the words to type, the cursor, and the counters
//! the speed and accuracy are computed from.
use std::time::{Duration, Instant};

use super::letter::{Letter, TypedState};
use super::laws::{lemma_count_typed_none, word_ok};
use super::word::{count_correct, count_typed, Word, WordView};
use crate::clock::{instant_elapsed, instant_now, instant_span, instant_sub};
use crate::text::push_char;
use vstd::prelude::*;

verus! {

/// The words of `s`, split at every space (as `str::split(" ")` does).
pub open spec fn split_on_space(s: Seq<char>) -> Seq<Seq<char>>
    decreases s.len(),
{
    if s.len() == 0 {
        seq![Seq::empty()]
    } else {
        let prev = split_on_space(s.drop_last());
        if s.last() == ' ' {
            prev.push(Seq::empty())
        } else {
            prev.update(prev.len() - 1, prev.last().push(s.last()))
        }
    }
}

/// Splitting always yields at least one word.
pub proof fn lemma_split_nonempty(s: Seq<char>)
    ensures
        split_on_space(s).len() >= 1,
    decreases s.len(),
{
    if s.len() > 0 {
        lemma_split_nonempty(s.drop_last());
    }
}

/// Number of words in error among the first `k` words.
pub open spec fn errors_before(words: Seq<WordView>, k: int) -> nat
    decreases k,
{
    if k <= 0 {
        0
    } else {
        errors_before(words, k - 1) + if words[k - 1].has_error() { 1nat } else { 0nat }
    }
}

/// Letters typed in the first `k` words, plus one for the space that closed each.
pub open spec fn typed_before(words: Seq<WordView>, k: int) -> nat
    decreases k,
{
    if k <= 0 {
        0
    } else {
        typed_before(words, k - 1) + count_typed(words[k - 1].letters) + 1
    }
}

/// Letters not in error in the first `k` words.
pub open spec fn correct_before(words: Seq<WordView>, k: int) -> nat
    decreases k,
{
    if k <= 0 {
        0
    } else {
        correct_before(words, k - 1) + count_correct(words[k - 1].letters)
    }
}

/// Bytes of the words to type among the first `k` words.
pub open spec fn bytes_before(words: Seq<WordView>, k: int) -> nat
    decreases k,
{
    if k <= 0 {
        0
    } else {
        bytes_before(words, k - 1) + words[k - 1].byte_len()
    }
}

proof fn lemma_correct_before_mono(words: Seq<WordView>, j: int, k: int)
    requires
        0 <= j <= k,
    ensures
        correct_before(words, j) <= correct_before(words, k),
    decreases k - j,
{
    if j < k {
        lemma_correct_before_mono(words, j, k - 1);
    }
}

proof fn lemma_bytes_before_mono(words: Seq<WordView>, j: int, k: int)
    requires
        0 <= j <= k,
    ensures
        bytes_before(words, j) <= bytes_before(words, k),
    decreases k - j,
{
    if j < k {
        lemma_bytes_before_mono(words, j, k - 1);
    }
}

/// The abstract state of a typing test (its clock readings aside).
#[verifier::ext_equal]
pub struct TypingView {
    pub words: Seq<WordView>,
    pub word_index: int,
    pub letter_index: int,
    pub n_wrongs: int,
    pub n_letters_typed: int,
}

impl TypingView {
    /// The word under the cursor.
    pub open spec fn curr(self) -> WordView {
        self.words[self.word_index]
    }

    /// Typing a character other than a space, before the end of the test is
    /// recorded: it fills the letter under the cursor, or is appended as an
    /// extra letter past the end of the word. Also tells whether this ends
    /// the test (last letter of the last word, and that word has no error).
    pub open spec fn char_step(self, c: char) -> (TypingView, bool) {
        let w = self.curr();
        let n = w.letters.len() as int;
        let li = self.letter_index;
        let letters = if li >= n {
            w.letters.push(Letter { letter: c, typed_state: TypedState::Extra })
        } else {
            w.letters.update(li, Letter { letter: w.letters[li].letter, typed_state: TypedState::Typed(c) })
        };
        let w2 = WordView { letters, word: w.word, last_typed_letter_index: w.last_typed_letter_index };
        let done = self.word_index >= self.words.len() - 1 && li >= n - 1 && !w2.has_error();
        (
            TypingView {
                words: self.words.update(self.word_index, w2),
                word_index: self.word_index,
                letter_index: li + 1,
                n_wrongs: self.n_wrongs,
                n_letters_typed: self.n_letters_typed + if li < n { 1int } else { 0int },
            },
            done,
        )
    }

    /// Typing a space: the word is left (remembering where the cursor was),
    /// counted as wrong if in error, and the cursor moves to the start of the
    /// next word. On the last word it ends the test instead.
    pub open spec fn space_step(self) -> (TypingView, bool) {
        let w = self.curr();
        let w2 = WordView { letters: w.letters, word: w.word, last_typed_letter_index: self.letter_index };
        let words = self.words.update(self.word_index, w2);
        let n_wrongs = self.n_wrongs + if w.has_error() { 1int } else { 0int };
        if self.word_index >= self.words.len() - 1 {
            (
                TypingView {
                    words,
                    word_index: self.word_index,
                    letter_index: self.letter_index,
                    n_wrongs,
                    n_letters_typed: self.n_letters_typed,
                },
                true,
            )
        } else {
            (
                TypingView {
                    words,
                    word_index: self.word_index + 1,
                    letter_index: 0,
                    n_wrongs,
                    n_letters_typed: self.n_letters_typed + 1,
                },
                false,
            )
        }
    }

    /// Typing `c` on a test that is not done; when this ends the test, the
    /// cursor is moved past the last word.
    pub open spec fn type_step(self, c: char) -> (TypingView, bool) {
        let (v, done) = if c == ' ' { self.space_step() } else { self.char_step(c) };
        if done {
            (
                TypingView {
                    words: v.words,
                    word_index: self.words.len() as int,
                    letter_index: v.letter_index,
                    n_wrongs: v.n_wrongs,
                    n_letters_typed: v.n_letters_typed,
                },
                true,
            )
        } else {
            (v, false)
        }
    }

    /// Clearing the letter under the cursor: a typed letter becomes untyped
    /// again, an extra letter is removed from the end of its word.
    pub open spec fn erase_at_cursor(self) -> TypingView {
        let wi = self.word_index;
        let li = self.letter_index;
        if 0 <= wi < self.words.len() && 0 <= li < self.words[wi].letters.len() {
            let w = self.words[wi];
            let l = w.letters[li];
            match l.typed_state {
                TypedState::Typed(_) => TypingView {
                    words: self.words.update(
                        wi,
                        WordView {
                            letters: w.letters.update(li, Letter { letter: l.letter, typed_state: TypedState::NotTyped }),
                            word: w.word,
                            last_typed_letter_index: w.last_typed_letter_index,
                        },
                    ),
                    n_letters_typed: self.n_letters_typed - 1,
                    ..self
                },
                TypedState::Extra => TypingView {
                    words: self.words.update(
                        wi,
                        WordView {
                            letters: w.letters.drop_last(),
                            word: w.word,
                            last_typed_letter_index: w.last_typed_letter_index,
                        },
                    ),
                    ..self
                },
                TypedState::NotTyped => self,
            }
        } else {
            self
        }
    }

    /// Backspace: at the very start nothing happens; at the start of a word
    /// the cursor goes back to where the previous word was left (undoing
    /// that word's space); otherwise it moves back one letter. Then the
    /// letter under the cursor is cleared.
    pub open spec fn backspace_step(self) -> TypingView {
        if self.letter_index == 0 && self.word_index == 0 {
            self
        } else if self.letter_index == 0 {
            let wi = self.word_index - 1;
            TypingView {
                words: self.words,
                word_index: wi,
                letter_index: self.words[wi].last_typed_letter_index,
                n_wrongs: self.n_wrongs - if self.words[wi].has_error() { 1int } else { 0int },
                n_letters_typed: self.n_letters_typed - 1,
            }.erase_at_cursor()
        } else {
            TypingView { letter_index: self.letter_index - 1, ..self }.erase_at_cursor()
        }
    }

    /// Correct letters up to the cursor, plus one per space typed.
    pub open spec fn total_correct(self) -> int {
        correct_before(self.words, self.word_index) + self.word_index + if self.word_index
            < self.words.len() {
            count_correct(self.curr().letters) as int
        } else {
            0int
        }
    }

    /// Letters to type up to the cursor (in bytes), plus one per space typed.
    pub open spec fn total_letters(self) -> int {
        bytes_before(self.words, self.word_index) + self.word_index + if self.word_index
            < self.words.len() {
            if self.curr().byte_len() <= self.letter_index {
                self.curr().byte_len() as int
            } else {
                self.letter_index
            }
        } else {
            0int
        }
    }

    /// Accuracy in percent, as computed from the totals.
    pub open spec fn accuracy(self) -> int {
        if self.total_letters() == 0 {
            0
        } else {
            100 * self.total_correct() / self.total_letters()
        }
    }
}

/// Represents a single typing test.
pub struct TypingTest {
    /// All the words of the text to type
    ///
    ///  0        1        2       3     4      5       6        7
    /// [[hello], [world], [this], [is], [the], [best], [thing], [ever]]
    ///   01234    01234    0123    01    012    0123    01234    0123
    pub words: Vec<Word>,
    /// The current word the user is typing.
    pub word_index: usize,
    /// The current letter in the current word to be typed.
    pub letter_index: usize,
    /// When the test started.
    pub time_started: Option<Instant>,
    /// When the test ended.
    pub time_ended: Option<Instant>,
    /// Number of wrong words up to the current word (exclusively).
    pub n_wrongs: usize,
    /// Number of letters typed, untyped and extra letters excluded.
    pub n_letters_typed: usize,
}

impl View for TypingTest {
    type V = TypingView;

    open spec fn view(&self) -> TypingView {
        TypingView {
            words: self.words@.map_values(|w: Word| w@),
            word_index: self.word_index as int,
            letter_index: self.letter_index as int,
            n_wrongs: self.n_wrongs as int,
            n_letters_typed: self.n_letters_typed as int,
        }
    }
}

impl TypingTest {
    /// There is at least one word, and the cursor is on a word unless the
    /// test is done.
    pub open spec fn wf(self) -> bool {
        &&& self.words@.len() >= 1
        &&& self.word_index <= self.words@.len()
        &&& self.time_ended is None ==> self.word_index < self.words@.len()
    }

    pub open spec fn spec_is_done(self) -> bool {
        self.time_ended is Some
    }

    /// Typing `c` stays within the machine's integers and hits no empty last
    /// word (where the test could not decide if it ended).
    pub open spec fn can_type(self, c: char) -> bool {
        let v = self@;
        let w = v.curr();
        ||| self.spec_is_done()
        ||| c == ' ' && v.n_wrongs + (if w.has_error() { 1int } else { 0int }) <= usize::MAX && (
        v.word_index < v.words.len() - 1 ==> v.n_letters_typed + 1 <= usize::MAX)
        ||| c != ' ' && (v.word_index >= v.words.len() - 1 ==> w.letters.len() > 0)
            && v.letter_index + 1 <= usize::MAX && (v.letter_index < w.letters.len()
            ==> v.n_letters_typed + 1 <= usize::MAX)
    }

    /// Backspace does not take a counter below zero.
    pub open spec fn can_backspace(self) -> bool {
        let r = self@.backspace_step();
        r.n_wrongs >= 0 && r.n_letters_typed >= 0
    }
}

impl TypingTest {
    /// This is the test `new` makes for `text`: one fresh word per
    /// space-separated piece, nothing typed, not started.
    pub open spec fn is_new_test(self, text: Seq<char>) -> bool {
        &&& self.wf()
        &&& !self.spec_is_done()
        &&& self.time_started is None
        &&& self@.words.len() == split_on_space(text).len()
        &&& forall|j: int|
            0 <= j < self@.words.len() ==> (#[trigger] self@.words[j]).is_fresh(
                split_on_space(text)[j],
            )
        &&& self@.word_index == 0
        &&& self@.letter_index == 0
        &&& self@.n_wrongs == 0
        &&& self@.n_letters_typed == 0
    }
}

impl TypingTest {
    /// Creates a new typing test for the given text: one word per
    /// space-separated piece, nothing typed, the cursor at the start.
    pub fn new(text: &str) -> (res: Self)
        ensures
            res.wf(),
            !res.spec_is_done(),
            res.time_started is None,
            res@.words.len() == split_on_space(text@).len(),
            forall|j: int|
                0 <= j < res@.words.len() ==> (#[trigger] res@.words[j]).is_fresh(
                    split_on_space(text@)[j],
                ),
            res@.word_index == 0,
            res@.letter_index == 0,
            res@.n_wrongs == 0,
            res@.n_letters_typed == 0,
            res@.consistent(),
            res.is_new_test(text@),
    {
        let mut words: Vec<Word> = Vec::new();
        let mut cur = String::new();
        for c in iter: text.chars()
            invariant
                iter.seq() == text@,
                words@.len() + 1 == split_on_space(text@.take(iter.index() as int)).len(),
                forall|j: int|
                    0 <= j < words@.len() ==> (#[trigger] words@[j])@.is_fresh(
                        split_on_space(text@.take(iter.index() as int))[j],
                    ),
                cur@ == split_on_space(text@.take(iter.index() as int)).last(),
        {
            assert(text@.take(iter.index() + 1).drop_last() =~= text@.take(iter.index() as int));
            assert(text@.take(iter.index() + 1).last() == c);
            if c == ' ' {
                let w = Word::new(cur.as_str());
                words.push(w);
                cur = String::new();
            } else {
                push_char(&mut cur, c);
            }
        }
        assert(text@.take(text@.len() as int) =~= text@);
        let w = Word::new(cur.as_str());
        words.push(w);
        proof {
            lemma_split_nonempty(text@);
        }
        let res = TypingTest {
            word_index: 0,
            letter_index: 0,
            time_started: None,
            time_ended: None,
            words,
            n_wrongs: 0,
            n_letters_typed: 0,
        };
        proof {
            assert forall|j: int| 0 <= j < res@.words.len() implies word_ok(#[trigger] res@.words[j], 0) by {
                assert(res@.words[j].is_fresh(split_on_space(text@)[j]));
            }
            lemma_count_typed_none(res@.words[0].letters);
        }
        res
    }

    /// Gets the number of wrong words up to the word the user is typing,
    /// that word excluded.
    pub fn n_wrongs(&self) -> (res: usize)
        ensures
            res == self.n_wrongs,
    {
        self.n_wrongs
    }

    /// Total number of letters typed, extras excluded, up to and including
    /// the word being typed.
    pub fn letters_typed(&self) -> (res: usize)
        ensures
            res == self.n_letters_typed,
    {
        self.n_letters_typed
    }

    /// Whether the test has started.
    pub fn has_started(&self) -> (res: bool)
        ensures
            res == self.time_started is Some,
    {
        self.time_started.is_some()
    }

    /// Whether the test is done.
    pub fn is_done(&self) -> (res: bool)
        ensures
            res == self.spec_is_done(),
    {
        self.time_ended.is_some()
    }

    /// The number of words to type.
    pub fn n_words(&self) -> (res: usize)
        ensures
            res == self.words@.len(),
    {
        self.words.len()
    }

    /// Starts the timer if it has not been started; nothing else changes.
    pub fn start(&mut self)
        ensures
            final(self)@ == old(self)@,
            final(self).words@ == old(self).words@,
            final(self).time_ended == old(self).time_ended,
            old(self).time_started is Some ==> final(self).time_started == old(self).time_started,
            final(self).time_started is Some,
    {
        if self.has_started() {
            return;
        }
        self.time_started = Some(instant_now());
    }

    /// Ends the test now if it has not ended, so that its elapsed time stops
    /// here; an ended test keeps its end.
    pub fn end_now(&mut self)
        ensures
            final(self)@ == old(self)@,
            final(self).words@ == old(self).words@,
            final(self).time_started == old(self).time_started,
            old(self).time_ended is Some ==> final(self).time_ended == old(self).time_ended,
            final(self).time_ended is Some,
    {
        if self.time_ended.is_none() {
            self.time_ended = Some(instant_now());
        }
    }

    /// The time since the start; once the test has ended, up to the end.
    /// `None` until the test has started.
    pub fn elapsed_since_start_sec(&self) -> (res: Option<Duration>)
        ensures
            res is Some <==> self.time_started is Some,
            self.time_started is Some && self.time_ended is Some ==> res == Some(
                instant_span(self.time_ended->0, self.time_started->0),
            ),
    {
        match &self.time_started {
            None => None,
            Some(start_time) => match &self.time_ended {
                None => Some(instant_elapsed(start_time)),
                Some(now) => Some(instant_sub(now, start_time)),
            },
        }
    }

    /// Gets the current word.
    pub fn get_curr_word(&self) -> (res: Option<&Word>)
        ensures
            self.word_index < self.words@.len() ==> res == Some(&self.words@[self.word_index as int]),
            self.word_index >= self.words@.len() ==> res is None,
    {
        if self.word_index < self.words.len() {
            Some(&self.words[self.word_index])
        } else {
            None
        }
    }

    /// Gets the current word, to be changed in place.
    pub fn get_curr_word_mut(&mut self) -> (res: Option<&mut Word>)
        ensures
            old(self).word_index < old(self).words@.len() ==> res is Some && *res->0 == old(
                self,
            ).words@[old(self).word_index as int] && final(self).words@ == old(self).words@.update(
                old(self).word_index as int,
                *final(res->0),
            ),
            old(self).word_index >= old(self).words@.len() ==> res is None && final(self).words@
                == old(self).words@,
            final(self).word_index == old(self).word_index,
            final(self).letter_index == old(self).letter_index,
            final(self).n_wrongs == old(self).n_wrongs,
            final(self).n_letters_typed == old(self).n_letters_typed,
            final(self).time_started == old(self).time_started,
            final(self).time_ended == old(self).time_ended,
    {
        if self.word_index < self.words.len() {
            Some(&mut self.words[self.word_index])
        } else {
            None
        }
    }

    /// Gets the letter under the cursor.
    pub fn get_curr_letter(&self) -> (res: Option<&Letter>)
        ensures
            self.word_index < self.words@.len() && self.letter_index < self.words@[self.word_index as int].letters@.len()
                ==> res == Some(&self.words@[self.word_index as int].letters@[self.letter_index as int]),
            !(self.word_index < self.words@.len() && self.letter_index < self.words@[self.word_index as int].letters@.len())
                ==> res is None,
    {
        match self.get_curr_word() {
            Some(word) => word.get_letter(self.letter_index),
            None => None,
        }
    }

    /// Handles the space character: records where the cursor was, counts the
    /// word as wrong if in error, and moves to the start of the next word.
    /// Returns whether this was the last word (which ends the test).
    pub fn on_space(&mut self) -> (res: bool)
        requires
            old(self).wf(),
            old(self).word_index < old(self).words@.len(),
            old(self).n_wrongs + (if old(self)@.curr().has_error() { 1int } else { 0int })
                <= usize::MAX,
            old(self).word_index < old(self).words@.len() - 1 ==> old(self).n_letters_typed + 1
                <= usize::MAX,
        ensures
            final(self).wf(),
            (final(self)@, res) == old(self)@.space_step(),
            final(self).time_started == old(self).time_started,
            final(self).time_ended == old(self).time_ended,
    {
        let len = self.words.len();
        let wi = self.word_index;
        let li = self.letter_index;
        self.words[wi].last_typed_letter_index = li;
        if self.words[wi].is_error() {
            self.n_wrongs += 1;
        }
        let is_last_word = wi >= len - 1;
        if is_last_word {
            assert(self@.words =~= old(self)@.space_step().0.words);
            return true;
        }
        self.word_index += 1;
        self.letter_index = 0;
        self.n_letters_typed += 1;
        assert(self@.words =~= old(self)@.space_step().0.words);
        false
    }

    /// Gets the letter under the cursor, to be changed in place.
    pub fn get_curr_letter_mut(&mut self) -> (res: Option<&mut Letter>)
        ensures
            ({
                let wi = old(self).word_index as int;
                let li = old(self).letter_index as int;
                if wi < old(self).words@.len() && li < old(self).words@[wi].letters@.len() {
                    &&& res is Some
                    &&& *res->0 == old(self).words@[wi].letters@[li]
                    &&& final(self)@.words == old(self)@.words.update(
                        wi,
                        WordView {
                            letters: old(self)@.words[wi].letters.update(li, *final(res->0)),
                            ..old(self)@.words[wi]
                        },
                    )
                } else {
                    &&& res is None
                    &&& final(self)@.words == old(self)@.words
                }
            }),
            final(self).word_index == old(self).word_index,
            final(self).letter_index == old(self).letter_index,
            final(self).n_wrongs == old(self).n_wrongs,
            final(self).n_letters_typed == old(self).n_letters_typed,
            final(self).time_started == old(self).time_started,
            final(self).time_ended == old(self).time_ended,
    {
        let letter_index = self.letter_index;
        match self.get_curr_word_mut() {
            Some(word) => word.get_letter_mut(letter_index),
            None => None,
        }
    }

    /// Processes the typed character. Returns whether the test is done.
    /// - Moves the cursor to the next character.
    /// - If the letter is wrong, the current word is in error.
    /// - At the end of the current word a space is expected; anything else
    ///   overshoots the word as an extra letter.
    /// - Space completes the current word and goes to the next word; on the
    ///   last word it ends the test. An incomplete word is in error.
    /// - Typing the last letter of the last word without any error ends the test.
    pub fn on_type(&mut self, c: char) -> (done: bool)
        requires
            old(self).wf(),
            old(self).can_type(c),
        ensures
            final(self).wf(),
            final(self).time_started == old(self).time_started,
            old(self).spec_is_done() ==> done && final(self)@ == old(self)@ && final(self).time_ended
                == old(self).time_ended,
            !old(self).spec_is_done() ==> (final(self)@, done) == old(self)@.type_step(c),
            !old(self).spec_is_done() && done ==> final(self).time_ended is Some,
            !old(self).spec_is_done() && !done ==> final(self).time_ended == old(self).time_ended,
    {
        if self.is_done() {
            return true;
        }
        let is_done = if c == ' ' {
            self.on_space()
        } else {
            let wi = self.word_index;
            let li = self.letter_index;
            let word_len = self.words[wi].letters_len();
            let is_overshoot = li >= word_len;
            if is_overshoot {
                self.words[wi].push(Letter::new(c).with_typed_letter(TypedState::Extra));
            } else {
                let curr_letter = self.words[wi].get_letter_mut(li).unwrap();
                curr_letter.typed_state = TypedState::Typed(c);
                self.n_letters_typed += 1;
            }
            let is_last_word_error = self.words[wi].is_error();
            let is_at_last_letter_of_last_word = wi >= self.words.len() - 1 && li >= word_len - 1;
            self.letter_index += 1;
            assert(self@.words =~= old(self)@.char_step(c).0.words);
            assert(self@ == old(self)@.char_step(c).0);
            assert(is_last_word_error == old(self)@.char_step(c).0.words[wi as int].has_error());
            assert((is_at_last_letter_of_last_word && !is_last_word_error) == old(self)@.char_step(c).1);
            is_at_last_letter_of_last_word && !is_last_word_error
        };
        let ghost mid = self@;
        assert((mid, is_done) == (if c == ' ' { old(self)@.space_step() } else { old(self)@.char_step(c) }));
        if is_done {
            self.time_ended = Some(instant_now());
            self.word_index = self.words.len();
            assert(self@.words == mid.words);
            assert(self@.word_index == old(self)@.words.len());
            assert(self@.letter_index == mid.letter_index);
            assert(self@ =~= old(self)@.type_step(c).0);
        } else {
            assert(self@ =~= old(self)@.type_step(c).0);
        }
        is_done
    }

    /// Handles a backspace.
    /// Moves the cursor back one letter. At the start of a word it goes back
    /// to the previous word, where the cursor was when that word was left.
    /// At the very start nothing happens. The letter under the cursor is then
    /// cleared: a typed letter becomes untyped, an extra letter is removed.
    pub fn on_backspace(&mut self)
        requires
            old(self).wf(),
            old(self).can_backspace(),
        ensures
            final(self).wf(),
            final(self)@ == old(self)@.backspace_step(),
            final(self).time_started == old(self).time_started,
            final(self).time_ended == old(self).time_ended,
    {
        let is_first_letter = self.letter_index == 0;
        if is_first_letter {
            let is_first_word = self.word_index == 0;
            if is_first_word {
                return;
            }
            self.word_index -= 1;
            self.letter_index = self.words[self.word_index].last_typed_letter_index;
            if let Some(word) = self.get_curr_word() {
                if word.is_error() {
                    self.n_wrongs -= 1;
                }
            }
            // the space that completed the previous word is taken back
            self.n_letters_typed -= 1;
        } else {
            self.letter_index -= 1;
        }
        let ghost moved = self@;
        let state = match self.get_curr_letter() {
            Some(letter) => Some(letter.typed_state),
            None => None,
        };
        match state {
            Some(TypedState::Typed(_)) => {
                if let Some(letter) = self.get_curr_letter_mut() {
                    letter.typed_state = TypedState::NotTyped;
                }
                self.n_letters_typed -= 1;
            },
            Some(TypedState::Extra) => {
                if let Some(word) = self.get_curr_word_mut() {
                    word.pop();
                }
            },
            _ => {},
        }
        assert(self@ =~= moved.erase_at_cursor());
        assert(self@.words.len() == old(self)@.words.len());
    }

    /// Whether the test is well formed (`wf`).
    pub fn is_well_formed(&self) -> (res: bool)
        ensures
            res == self.wf(),
    {
        self.words.len() >= 1 && self.word_index <= self.words.len() && (self.time_ended.is_some()
            || self.word_index < self.words.len())
    }

    /// Whether a well formed test accepts `c` (`can_type`): it stays within
    /// the machine's integers and hits no empty last word.
    pub fn can_type_now(&self, c: char) -> (res: bool)
        requires
            self.wf(),
        ensures
            res == self.can_type(c),
    {
        if self.is_done() {
            return true;
        }
        let wi = self.word_index;
        let len = self.words.len();
        let w = &self.words[wi];
        if c == ' ' {
            let err: usize = if w.is_error() {
                1
            } else {
                0
            };
            self.n_wrongs <= usize::MAX - err && (wi >= len - 1 || self.n_letters_typed
                < usize::MAX)
        } else {
            let n = w.letters_len();
            (wi < len - 1 || n > 0) && self.letter_index < usize::MAX && (self.letter_index >= n
                || self.n_letters_typed < usize::MAX)
        }
    }

    /// Whether a well formed test accepts a backspace (`can_backspace`): no
    /// counter goes below zero.
    pub fn can_backspace_now(&self) -> (res: bool)
        requires
            self.wf(),
        ensures
            res == self.can_backspace(),
    {
        let wi = self.word_index;
        let li = self.letter_index;
        if li == 0 && wi == 0 {
            return true;
        }
        if li == 0 {
            let prev = &self.words[wi - 1];
            let err: usize = if prev.is_error() {
                1
            } else {
                0
            };
            let lt = prev.last_typed_letter_index;
            let typed: usize = match prev.get_letter(lt) {
                Some(l) => match l.typed_state {
                    TypedState::Typed(_) => 1,
                    _ => 0,
                },
                None => 0,
            };
            self.n_wrongs >= err && self.n_letters_typed >= 1 + typed
        } else {
            let typed: usize = match self.words.get(wi) {
                Some(w) => match w.get_letter(li - 1) {
                    Some(l) => match l.typed_state {
                        TypedState::Typed(_) => 1,
                        _ => 0,
                    },
                    None => 0,
                },
                None => 0,
            };
            self.n_letters_typed >= typed
        }
    }

    /// Correct letters up to the cursor, plus one per space typed; `None`
    /// when that does not fit in a `usize`.
    fn checked_total_correct(&self) -> (res: Option<usize>)
        requires
            self.wf(),
        ensures
            match res {
                Some(r) => r == self@.total_correct(),
                None => self@.total_correct() > usize::MAX,
            },
    {
        let wi = self.word_index;
        let mut sum: usize = 0;
        for j in 0..wi
            invariant
                wi == self.word_index,
                self.wf(),
                sum == correct_before(self@.words, j as int),
        {
            proof {
                lemma_correct_before_mono(self@.words, j + 1, wi as int);
            }
            match sum.checked_add(self.words[j].n_correct_letters()) {
                Some(t) => sum = t,
                None => return None,
            }
        }
        let curr = match self.words.get(wi) {
            Some(word) => word.n_correct_letters(),
            None => 0,
        };
        match sum.checked_add(wi) {
            Some(t) => t.checked_add(curr),
            None => None,
        }
    }

    /// The characters to type so far; `None` when that does not fit in a
    /// `usize`.
    fn checked_total_letters(&self) -> (res: Option<usize>)
        requires
            self.wf(),
        ensures
            match res {
                Some(r) => r == self@.total_letters(),
                None => self@.total_letters() > usize::MAX,
            },
    {
        let wi = self.word_index;
        let mut sum: usize = 0;
        for j in 0..wi
            invariant
                wi == self.word_index,
                self.wf(),
                sum == bytes_before(self@.words, j as int),
        {
            proof {
                lemma_bytes_before_mono(self@.words, j + 1, wi as int);
            }
            match sum.checked_add(self.words[j].actual_len()) {
                Some(t) => sum = t,
                None => return None,
            }
        }
        let curr = match self.words.get(wi) {
            Some(word) => {
                let len = word.actual_len();
                if len <= self.letter_index {
                    len
                } else {
                    self.letter_index
                }
            },
            None => 0,
        };
        match sum.checked_add(wi) {
            Some(t) => t.checked_add(curr),
            None => None,
        }
    }

    /// The accuracy where it can be computed (what `accuracy` requires);
    /// `None` where its totals do not fit in a `usize`.
    pub fn checked_accuracy(&self) -> (res: Option<usize>)
        requires
            self.wf(),
        ensures
            match res {
                Some(a) => 100 * self@.total_correct() <= usize::MAX && self@.total_letters()
                    <= usize::MAX && a == self@.accuracy(),
                None => !(100 * self@.total_correct() <= usize::MAX && self@.total_letters()
                    <= usize::MAX),
            },
    {
        let correct = match self.checked_total_correct() {
            Some(c) => c,
            None => return None,
        };
        let total = match self.checked_total_letters() {
            Some(t) => t,
            None => return None,
        };
        match correct.checked_mul(100) {
            Some(scaled) => if total == 0 {
                Some(0)
            } else {
                Some(scaled / total)
            },
            None => None,
        }
    }

    /// Accuracy in percent: correct characters over characters to type so
    /// far, spaces included; 0 when nothing was to be typed yet.
    pub fn accuracy(&self) -> (res: usize)
        requires
            self.wf(),
            100 * self@.total_correct() <= usize::MAX,
            self@.total_letters() <= usize::MAX,
        ensures
            res == self@.accuracy(),
    {
        let total_correct_letters = self.total_correct_letters_typed();
        let total_letters = self.total_letters();
        if total_letters == 0 {
            return 0;
        }
        100 * total_correct_letters / total_letters
    }

    /// Correct letters up to the cursor, plus one per space typed.
    fn total_correct_letters_typed(&self) -> (res: usize)
        requires
            self.wf(),
            self@.total_correct() <= usize::MAX,
        ensures
            res == self@.total_correct(),
    {
        let wi = self.word_index;
        let mut sum: usize = 0;
        for j in 0..wi
            invariant
                wi == self.word_index,
                self.wf(),
                self@.total_correct() <= usize::MAX,
                sum == correct_before(self@.words, j as int),
        {
            proof {
                lemma_correct_before_mono(self@.words, j + 1, wi as int);
            }
            sum = sum + self.words[j].n_correct_letters();
        }
        let curr = match self.words.get(wi) {
            Some(word) => word.n_correct_letters(),
            None => 0,
        };
        sum + wi + curr
    }

    /// The number of characters to type so far: the words before the cursor
    /// (in bytes), one per space, and the current word up to the cursor.
    fn total_letters(&self) -> (res: usize)
        requires
            self.wf(),
            self@.total_letters() <= usize::MAX,
        ensures
            res == self@.total_letters(),
    {
        let wi = self.word_index;
        let mut sum: usize = 0;
        for j in 0..wi
            invariant
                wi == self.word_index,
                self.wf(),
                self@.total_letters() <= usize::MAX,
                sum == bytes_before(self@.words, j as int),
        {
            proof {
                lemma_bytes_before_mono(self@.words, j + 1, wi as int);
            }
            sum = sum + self.words[j].actual_len();
        }
        let curr = match self.words.get(wi) {
            Some(word) => {
                let len = word.actual_len();
                if len <= self.letter_index {
                    len
                } else {
                    self.letter_index
                }
            },
            None => 0,
        };
        sum + wi + curr
    }
}

} // verus!
