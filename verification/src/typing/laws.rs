//! What every operation of a typing test keeps, and what a backspace undoes.
use super::letter::{Letter, TypedState};
use super::typing_test::{bytes_before, correct_before, errors_before, typed_before, TypingView};
use super::word::letters_have_error;
use super::word::{count_correct, count_typed, WordView};
use vstd::prelude::*;

verus! {

/// 1 when a character was typed at the letter's place, else 0.
pub open spec fn typed_one(l: Letter) -> int {
    if l.spec_is_typed() {
        1
    } else {
        0
    }
}

proof fn lemma_count_typed_update(s: Seq<Letter>, i: int, l: Letter)
    requires
        0 <= i < s.len(),
    ensures
        count_typed(s.update(i, l)) == count_typed(s) - typed_one(s[i]) + typed_one(l),
    decreases s.len(),
{
    let u = s.update(i, l);
    assert(u.drop_last() =~= if i == s.len() - 1 { s.drop_last() } else { s.drop_last().update(i, l) });
    if i < s.len() - 1 {
        lemma_count_typed_update(s.drop_last(), i, l);
    }
}

proof fn lemma_count_typed_push(s: Seq<Letter>, l: Letter)
    ensures
        count_typed(s.push(l)) == count_typed(s) + typed_one(l),
{
    assert(s.push(l).drop_last() =~= s);
}

proof fn lemma_count_typed_at_least(s: Seq<Letter>, i: int)
    requires
        0 <= i < s.len(),
    ensures
        count_typed(s) >= typed_one(s[i]),
{
    lemma_count_typed_update(s, i, Letter { letter: s[i].letter, typed_state: TypedState::NotTyped });
}

pub(crate) proof fn lemma_count_typed_none(s: Seq<Letter>)
    requires
        forall|p: int| 0 <= p < s.len() ==> (#[trigger] s[p]).typed_state is NotTyped,
    ensures
        count_typed(s) == 0,
    decreases s.len(),
{
    if s.len() > 0 {
        lemma_count_typed_none(s.drop_last());
    }
}

proof fn lemma_prefix_update(words: Seq<WordView>, i: int, w: WordView, k: int)
    requires
        0 <= k <= i < words.len(),
    ensures
        errors_before(words.update(i, w), k) == errors_before(words, k),
        typed_before(words.update(i, w), k) == typed_before(words, k),
    decreases k,
{
    if k > 0 {
        lemma_prefix_update(words, i, w, k - 1);
    }
}

/// The letters of a word, seen from a cursor position `k` in it: every
/// character of the word to type has its letter, extra letters follow the
/// word, and nothing is typed from the cursor on.
pub open spec fn word_ok(w: WordView, k: int) -> bool {
    &&& w.letters.len() >= w.word.len()
    &&& forall|p: int|
        0 <= p < w.letters.len() ==> ((#[trigger] w.letters[p]).typed_state is Extra <==> p
            >= w.word.len())
    &&& 0 <= k <= w.letters.len()
    &&& forall|p: int| k <= p < w.letters.len() ==> (#[trigger] w.letters[p]).typed_state is NotTyped
}

impl TypingView {
    /// The counters agree with the words, and the letters agree with the
    /// cursor: the state of a test that is under way.
    pub open spec fn consistent(self) -> bool {
        &&& 0 <= self.word_index < self.words.len()
        &&& self.n_wrongs == errors_before(self.words, self.word_index)
        &&& self.n_letters_typed == typed_before(self.words, self.word_index) + count_typed(
            self.curr().letters,
        )
        &&& word_ok(self.curr(), self.letter_index)
        &&& forall|j: int|
            0 <= j < self.word_index ==> word_ok(
                #[trigger] self.words[j],
                self.words[j].last_typed_letter_index,
            )
        &&& forall|j: int| self.word_index < j < self.words.len() ==> word_ok(#[trigger] self.words[j], 0)
    }
}

/// Typing a character other than a space into a test under way, when it
/// does not end the test, leaves the test consistent.
pub proof fn law_char_keeps_consistent(v: TypingView, c: char)
    requires
        v.consistent(),
        c != ' ',
        !v.type_step(c).1,
    ensures
        v.type_step(c).0.consistent(),
{
    let (v2, done) = v.char_step(c);
    let wi = v.word_index;
    let li = v.letter_index;
    let w = v.curr();
    let w2 = v2.words[wi];
    lemma_prefix_update(v.words, wi, w2, wi);
    if li >= w.letters.len() {
        lemma_count_typed_push(w.letters, Letter { letter: c, typed_state: TypedState::Extra });
        assert(li == w.letters.len());
    } else {
        lemma_count_typed_update(
            w.letters,
            li,
            Letter { letter: w.letters[li].letter, typed_state: TypedState::Typed(c) },
        );
    }
    assert(word_ok(w2, li + 1));
    assert forall|j: int| 0 <= j < wi implies word_ok(
        #[trigger] v2.words[j],
        v2.words[j].last_typed_letter_index,
    ) by {
        assert(v2.words[j] == v.words[j]);
    }
    assert forall|j: int| wi < j < v2.words.len() implies word_ok(#[trigger] v2.words[j], 0) by {
        assert(v2.words[j] == v.words[j]);
    }
}

/// A space typed in a test under way, when it does not end the test, leaves
/// the test consistent.
pub proof fn law_space_keeps_consistent(v: TypingView)
    requires
        v.consistent(),
        !v.type_step(' ').1,
    ensures
        v.type_step(' ').0.consistent(),
{
    let v2 = v.space_step().0;
    let wi = v.word_index;
    let w2 = v2.words[wi];
    lemma_prefix_update(v.words, wi, w2, wi);
    assert(typed_before(v2.words, wi + 1) == typed_before(v.words, wi) + count_typed(w2.letters) + 1);
    assert(errors_before(v2.words, wi + 1) == errors_before(v.words, wi) + if w2.has_error() { 1nat } else { 0nat });
    assert(v2.words[wi + 1] == v.words[wi + 1]);
    lemma_count_typed_none(v.words[wi + 1].letters);
    assert forall|j: int| 0 <= j < wi + 1 implies word_ok(
        #[trigger] v2.words[j],
        v2.words[j].last_typed_letter_index,
    ) by {
        if j < wi {
            assert(v2.words[j] == v.words[j]);
        }
    }
    assert forall|j: int| wi + 1 < j < v2.words.len() implies word_ok(#[trigger] v2.words[j], 0) by {
        assert(v2.words[j] == v.words[j]);
    }
}

/// In a test under way a backspace never takes a counter below zero.
pub proof fn law_backspace_in_range(v: TypingView)
    requires
        v.consistent(),
    ensures
        v.backspace_step().n_wrongs >= 0,
        v.backspace_step().n_letters_typed >= 0,
{
    let wi = v.word_index;
    let li = v.letter_index;
    if li == 0 && wi > 0 {
        let prev = v.words[wi - 1];
        assert(word_ok(prev, prev.last_typed_letter_index));
    } else if li > 0 {
        let w = v.curr();
        if li - 1 < w.letters.len() {
            lemma_count_typed_at_least(w.letters, li - 1);
        }
    }
}

/// A backspace in a test under way leaves the test consistent.
pub proof fn law_backspace_keeps_consistent(v: TypingView)
    requires
        v.consistent(),
    ensures
        v.backspace_step().consistent(),
{
    let wi = v.word_index;
    let li = v.letter_index;
    if li == 0 && wi == 0 {
    } else if li == 0 {
        let m = TypingView {
            words: v.words,
            word_index: wi - 1,
            letter_index: v.words[wi - 1].last_typed_letter_index,
            n_wrongs: v.n_wrongs - if v.words[wi - 1].has_error() { 1int } else { 0int },
            n_letters_typed: v.n_letters_typed - 1,
        };
        assert(word_ok(v.words[wi - 1], v.words[wi - 1].last_typed_letter_index));
        assert(m.erase_at_cursor() == m);
        lemma_count_typed_none(v.curr().letters);
        assert forall|j: int| wi - 1 < j < v.words.len() implies word_ok(#[trigger] v.words[j], 0) by {
            if j == wi {
                assert(word_ok(v.words[j], 0));
            }
        }
    } else {
        let m = TypingView { letter_index: li - 1, ..v };
        let w = v.curr();
        let r = m.erase_at_cursor();
        if li - 1 < w.letters.len() {
            let l = w.letters[li - 1];
            match l.typed_state {
                TypedState::Typed(_) => {
                    let l2 = Letter { letter: l.letter, typed_state: TypedState::NotTyped };
                    lemma_count_typed_update(w.letters, li - 1, l2);
                    lemma_prefix_update(v.words, wi, r.words[wi], wi);
                    assert(word_ok(r.words[wi], li - 1));
                },
                TypedState::Extra => {
                    assert(li == w.letters.len());
                    assert(w.letters.drop_last().push(w.letters.last()) =~= w.letters);
                    lemma_count_typed_push(w.letters.drop_last(), w.letters.last());
                    lemma_prefix_update(v.words, wi, r.words[wi], wi);
                    assert(word_ok(r.words[wi], li - 1));
                },
                TypedState::NotTyped => {},
            }
        }
        assert forall|j: int| 0 <= j < wi implies word_ok(
            #[trigger] r.words[j],
            r.words[j].last_typed_letter_index,
        ) by {
            assert(r.words[j] == v.words[j]);
        }
        assert forall|j: int| wi < j < r.words.len() implies word_ok(#[trigger] r.words[j], 0) by {
            assert(r.words[j] == v.words[j]);
        }
    }
}

/// A backspace right after typing a character (other than a space) that did
/// not end the test gives back the test exactly as it was.
pub proof fn law_backspace_undoes_char(v: TypingView, c: char)
    requires
        v.consistent(),
        c != ' ',
        !v.type_step(c).1,
    ensures
        v.type_step(c).0.backspace_step() == v,
{
    let v2 = v.type_step(c).0;
    let wi = v.word_index;
    let li = v.letter_index;
    let w = v.curr();
    let r = v2.backspace_step();
    if li >= w.letters.len() {
        assert(w.letters.push(Letter { letter: c, typed_state: TypedState::Extra }).drop_last()
            =~= w.letters);
    } else {
        assert(w.letters[li].typed_state is NotTyped);
        assert(w.letters.update(li, Letter { letter: w.letters[li].letter, typed_state: TypedState::Typed(c) }).update(
            li,
            Letter { letter: w.letters[li].letter, typed_state: TypedState::NotTyped },
        ) =~= w.letters);
    }
    assert(r.words[wi] =~= w);
    assert(r.words =~= v.words);
    assert(r =~= v);
}

/// A backspace right after a space that moved to the next word brings the
/// cursor back to where the word was left, with the counters as they were;
/// only the remembered cursor position of that word is updated.
pub proof fn law_backspace_undoes_space(v: TypingView)
    requires
        v.consistent(),
        !v.type_step(' ').1,
    ensures
        v.type_step(' ').0.backspace_step() == (TypingView {
            words: v.words.update(
                v.word_index,
                WordView { last_typed_letter_index: v.letter_index, ..v.curr() },
            ),
            ..v
        }),
{
    let v2 = v.type_step(' ').0;
    let r = v2.backspace_step();
    let wi = v.word_index;
    let m = TypingView {
        words: v2.words,
        word_index: wi,
        letter_index: v.letter_index,
        n_wrongs: v2.n_wrongs - if v2.words[wi].has_error() { 1int } else { 0int },
        n_letters_typed: v2.n_letters_typed - 1,
    };
    assert(m.erase_at_cursor() == m);
    assert(r =~= (TypingView {
        words: v.words.update(wi, WordView { last_typed_letter_index: v.letter_index, ..v.curr() }),
        ..v
    }));
}

/// Where every letter from position `k` on is in error, at most `k` letters
/// are correct, and never more than there are letters.
proof fn lemma_correct_at_most(s: Seq<Letter>, k: int)
    requires
        0 <= k,
        forall|p: int| k <= p < s.len() ==> (#[trigger] s[p]).spec_is_error(),
    ensures
        count_correct(s) <= k,
        count_correct(s) <= s.len(),
    decreases s.len(),
{
    if s.len() > 0 {
        let last = s.len() - 1;
        lemma_correct_at_most(s.drop_last(), if k <= last { k } else { last });
        if k <= last {
            assert(s[last].spec_is_error());
        }
    }
}

/// A word takes at least one byte per character.
proof fn lemma_bytes_at_least_chars(w: Seq<char>)
    ensures
        vstd::utf8::encode_utf8(w).len() >= w.len(),
    decreases w.len(),
{
    if w.len() > 0 {
        lemma_bytes_at_least_chars(w.drop_first());
    }
}

/// The letters of a word left behind that are correct are at most the
/// word's bytes.
proof fn lemma_word_correct_at_most_bytes(w: WordView, k: int)
    requires
        word_ok(w, k),
        vstd::utf8::encode_utf8(w.word).len() <= usize::MAX,
    ensures
        count_correct(w.letters) <= w.byte_len(),
        count_correct(w.letters) <= w.word.len(),
{
    assert forall|p: int| w.word.len() <= p < w.letters.len() implies (
    #[trigger] w.letters[p]).spec_is_error() by {
        assert(w.letters[p].typed_state is Extra);
    }
    lemma_correct_at_most(w.letters, w.word.len() as int);
    lemma_bytes_at_least_chars(w.word);
}

/// Over the words left behind, correct letters are at most their bytes.
proof fn lemma_correct_before_at_most_bytes(v: TypingView, k: int)
    requires
        v.consistent(),
        0 <= k <= v.word_index,
        forall|j: int|
            0 <= j < v.words.len() ==> vstd::utf8::encode_utf8(#[trigger] v.words[j].word).len()
                <= usize::MAX,
    ensures
        correct_before(v.words, k) <= bytes_before(v.words, k),
    decreases k,
{
    if k > 0 {
        lemma_correct_before_at_most_bytes(v, k - 1);
        let w = v.words[k - 1];
        lemma_word_correct_at_most_bytes(w, w.last_typed_letter_index);
    }
}

/// Accuracy is a percentage: in a test under way, the correct characters
/// never outnumber the characters to type so far, so the accuracy never
/// exceeds 100.
pub proof fn law_accuracy_at_most_100(v: TypingView)
    requires
        v.consistent(),
        forall|j: int|
            0 <= j < v.words.len() ==> vstd::utf8::encode_utf8(#[trigger] v.words[j].word).len()
                <= usize::MAX,
    ensures
        v.total_correct() <= v.total_letters(),
        0 <= v.accuracy() <= 100,
{
    let wi = v.word_index;
    let w = v.curr();
    lemma_correct_before_at_most_bytes(v, wi);
    let k = if v.letter_index <= w.word.len() { v.letter_index } else { w.word.len() as int };
    assert forall|p: int| k <= p < w.letters.len() implies (#[trigger] w.letters[p]).spec_is_error() by {
        if p >= w.word.len() {
            assert(w.letters[p].typed_state is Extra);
        } else {
            assert(w.letters[p].typed_state is NotTyped);
        }
    }
    lemma_correct_at_most(w.letters, k);
    lemma_bytes_at_least_chars(w.word);
    let c = v.total_correct();
    let t = v.total_letters();
    if t > 0 {
        assert(0 <= 100 * c / t <= 100) by (nonlinear_arith)
            requires
                0 <= c <= t,
                t > 0,
        ;
    }
}

/// The counters of a test that has ended: the cursor is past the last
/// word and every word in error is counted.
pub open spec fn ended_counts(v: TypingView) -> bool {
    &&& v.word_index == v.words.len()
    &&& v.n_wrongs == errors_before(v.words, v.words.len() as int)
}

/// The keystroke that ends a test counts every word in error, the last one
/// included.
pub proof fn law_end_counts_all_wrong_words(v: TypingView, c: char)
    requires
        v.consistent(),
        v.type_step(c).1,
    ensures
        ended_counts(v.type_step(c).0),
        v.type_step(c).0.words.len() == v.words.len(),
{
    let wi = v.word_index;
    let (v1, done) = if c == ' ' { v.space_step() } else { v.char_step(c) };
    let w2 = v1.words[wi];
    lemma_prefix_update(v.words, wi, w2, wi);
    assert(v1.words == v.words.update(wi, w2));
    assert(wi == v.words.len() - 1);
    if c == ' ' {
        assert(w2.letters == v.curr().letters);
    }
}

/// Every keystroke on a test under way leaves it under way and consistent,
/// or ended with every word in error counted: the count of wrong words is
/// always the number of words in error before the cursor.
pub proof fn law_keystroke_keeps_counts(v: TypingView, c: char)
    requires
        v.consistent(),
    ensures
        v.type_step(c).1 ==> ended_counts(v.type_step(c).0),
        !v.type_step(c).1 ==> v.type_step(c).0.consistent(),
{
    if v.type_step(c).1 {
        law_end_counts_all_wrong_words(v, c);
    } else if c == ' ' {
        law_space_keeps_consistent(v);
    } else {
        law_char_keeps_consistent(v, c);
    }
}

/// A test after a run of keystrokes (`Some(c)` types `c`, `None` is a
/// backspace), and whether it has ended. Once the test has ended, typing
/// changes nothing and a backspace still moves back, as `on_type` and
/// `on_backspace` do.
pub open spec fn run_keys(v: TypingView, keys: Seq<Option<char>>) -> (TypingView, bool)
    decreases keys.len(),
{
    if keys.len() == 0 {
        (v, false)
    } else {
        let (u, ended) = run_keys(v, keys.drop_last());
        match keys.last() {
            Some(c) => if ended {
                (u, true)
            } else {
                u.type_step(c)
            },
            None => (u.backspace_step(), ended),
        }
    }
}

/// The count of wrong words is the number of words in error before the
/// cursor, which is at most one past the last word.
pub open spec fn counts_wrong_words(v: TypingView) -> bool {
    &&& 0 <= v.word_index <= v.words.len()
    &&& v.n_wrongs == errors_before(v.words, v.word_index)
}

/// A backspace keeps the count of wrong words right, whatever the state of
/// the test.
pub proof fn law_backspace_keeps_wrong_count(v: TypingView)
    requires
        counts_wrong_words(v),
    ensures
        counts_wrong_words(v.backspace_step()),
        v.backspace_step().words.len() == v.words.len(),
{
    let wi = v.word_index;
    let li = v.letter_index;
    if li == 0 && wi == 0 {
    } else {
        let m = if li == 0 {
            TypingView {
                words: v.words,
                word_index: wi - 1,
                letter_index: v.words[wi - 1].last_typed_letter_index,
                n_wrongs: v.n_wrongs - if v.words[wi - 1].has_error() { 1int } else { 0int },
                n_letters_typed: v.n_letters_typed - 1,
            }
        } else {
            TypingView { letter_index: li - 1, ..v }
        };
        let r = m.erase_at_cursor();
        assert(counts_wrong_words(m));
        if 0 <= m.word_index < m.words.len() && 0 <= m.letter_index < m.words[m.word_index].letters.len() {
            lemma_prefix_update(m.words, m.word_index, r.words[m.word_index], m.word_index);
            assert(r.words == m.words.update(m.word_index, r.words[m.word_index]));
        }
    }
}

/// Over any run of keystrokes on a test under way (a new test among them),
/// typing and backspaces alike, before and after its end, the count of
/// wrong words is the number of words in error before the cursor; while
/// the test is under way it is consistent, and the keystroke that ends it
/// counts every word in error.
pub proof fn law_run_keeps_counts(v: TypingView, keys: Seq<Option<char>>)
    requires
        v.consistent(),
    ensures
        counts_wrong_words(run_keys(v, keys).0),
        !run_keys(v, keys).1 ==> run_keys(v, keys).0.consistent(),
        run_keys(v, keys).0.words.len() == v.words.len(),
    decreases keys.len(),
{
    if keys.len() > 0 {
        law_run_keeps_counts(v, keys.drop_last());
        let (u, ended) = run_keys(v, keys.drop_last());
        match keys.last() {
            Some(c) => if !ended {
                law_keystroke_keeps_counts(u, c);
                if u.type_step(c).1 {
                    law_end_counts_all_wrong_words(u, c);
                }
            },
            None => {
                law_backspace_keeps_wrong_count(u);
                if !ended {
                    law_backspace_keeps_consistent(u);
                }
            },
        }
    }
}

/// Once a run of keystrokes has ended the test, it stays ended whatever
/// keystrokes follow.
pub proof fn law_end_is_final(v: TypingView, keys: Seq<Option<char>>, more: Seq<Option<char>>)
    requires
        run_keys(v, keys).1,
    ensures
        run_keys(v, keys + more).1,
    decreases more.len(),
{
    if more.len() == 0 {
        assert(keys + more =~= keys);
    } else {
        law_end_is_final(v, keys, more.drop_last());
        assert((keys + more).drop_last() =~= keys + more.drop_last());
    }
}

/// In any run of keystrokes on a test under way (a new test among them),
/// while the test has not ended, a backspace right after a keystroke that
/// does not end it takes that keystroke back: all of it after a letter;
/// after a space, all but the cursor position remembered for the word left.
pub proof fn law_backspace_undoes_keystroke_in_run(v: TypingView, keys: Seq<Option<char>>, c: char)
    requires
        v.consistent(),
        !run_keys(v, keys).1,
        !run_keys(v, keys).0.type_step(c).1,
    ensures
        ({
            let u = run_keys(v, keys).0;
            let after = run_keys(v, keys.push(Some(c)).push(None));
            &&& !after.1
            &&& c != ' ' ==> after.0 == u
            &&& c == ' ' ==> after.0 == (TypingView {
                words: u.words.update(
                    u.word_index,
                    WordView { last_typed_letter_index: u.letter_index, ..u.curr() },
                ),
                ..u
            })
        }),
{
    law_run_keeps_counts(v, keys);
    let u = run_keys(v, keys).0;
    let k1 = keys.push(Some(c));
    let k2 = k1.push(None);
    assert(k2.drop_last() == k1);
    assert(k1.drop_last() == keys);
    assert(run_keys(v, k1) == u.type_step(c));
    assert(run_keys(v, k2) == (run_keys(v, k1).0.backspace_step(), run_keys(v, k1).1));
    if c == ' ' {
        law_backspace_undoes_space(u);
    } else {
        law_backspace_undoes_char(u, c);
    }
}

/// Typing the last letter of the last word ends the test when that word is
/// then typed right, whatever the earlier words hold: every earlier letter
/// of the word was typed as its character, and `c` is the last character.
pub proof fn law_last_right_letter_ends_test(v: TypingView, c: char)
    requires
        v.words.len() >= 1,
        v.word_index == v.words.len() - 1,
        v.curr().letters.len() >= 1,
        v.letter_index == v.curr().letters.len() - 1,
        forall|p: int|
            0 <= p < v.letter_index ==> (#[trigger] v.curr().letters[p]).typed_state == TypedState::Typed(
                v.curr().letters[p].letter,
            ),
        c == v.curr().letters[v.letter_index].letter,
        c != ' ',
    ensures
        v.type_step(c).1,
        v.type_step(c).0.word_index == v.words.len(),
        v.type_step(c).0.n_wrongs == v.n_wrongs,
{
    let w = v.curr();
    let li = v.letter_index;
    let letters = w.letters.update(li, Letter { letter: w.letters[li].letter, typed_state: TypedState::Typed(c) });
    assert(!letters_have_error(letters)) by {
        assert forall|p: int| 0 <= p < letters.len() implies !(#[trigger] letters[p]).spec_is_error() by {
            if p < li {
                assert(letters[p] == w.letters[p]);
            }
        }
    }
}

/// Every letter typed as its character, one byte per letter.
pub open spec fn typed_right(w: WordView) -> bool {
    &&& w.letters.len() == w.byte_len()
    &&& forall|p: int|
        0 <= p < w.letters.len() ==> (#[trigger] w.letters[p]).typed_state == TypedState::Typed(
            w.letters[p].letter,
        )
}

proof fn lemma_all_right_counts_all(s: Seq<Letter>)
    requires
        forall|p: int| 0 <= p < s.len() ==> (#[trigger] s[p]).typed_state == TypedState::Typed(s[p].letter),
    ensures
        count_correct(s) == s.len(),
    decreases s.len(),
{
    if s.len() > 0 {
        lemma_all_right_counts_all(s.drop_last());
        assert(s.last() == s[s.len() - 1]);
    }
}

proof fn lemma_right_words_correct_as_bytes(words: Seq<WordView>, k: int)
    requires
        0 <= k <= words.len(),
        forall|j: int| 0 <= j < words.len() ==> typed_right(#[trigger] words[j]),
    ensures
        correct_before(words, k) == bytes_before(words, k),
    decreases k,
{
    if k > 0 {
        lemma_right_words_correct_as_bytes(words, k - 1);
        assert(typed_right(words[k - 1]));
        lemma_all_right_counts_all(words[k - 1].letters);
    }
}

/// A test that has ended with every word typed right (one byte per letter)
/// shows an accuracy of 100: the correct characters, spaces included, are
/// all the characters to type.
pub proof fn law_perfect_test_accuracy_100(v: TypingView)
    requires
        v.words.len() >= 1,
        v.word_index == v.words.len(),
        forall|j: int| 0 <= j < v.words.len() ==> typed_right(#[trigger] v.words[j]),
    ensures
        v.total_correct() == v.total_letters(),
        v.accuracy() == 100,
{
    lemma_right_words_correct_as_bytes(v.words, v.words.len() as int);
    let t = v.total_letters();
    assert(t > 0);
    assert(100 * t / t == 100) by (nonlinear_arith)
        requires
            t > 0,
    ;
}

} // verus!
