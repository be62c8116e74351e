//! The texts a typing test is made of: random quotes with their source, or
//! random words, picked according to the test's mode.
use crate::mode::Mode;
use crate::text::{decimal, decimal_string, joined, owned};
use rand::rngs::ThreadRng;
use rand::seq::IndexedRandom;
use rand::RngExt;
use vstd::prelude::*;
use vstd::string::StringExecFns;

verus! {

/// A text to type and where it comes from.
#[derive(Clone, Debug, PartialEq)]
pub struct Data {
    pub text: String,
    pub source: String,
}

/// A text and its source, as plain character sequences.
pub open spec fn data_view(d: Data) -> (Seq<char>, Seq<char>) {
    (d.text@, d.source@)
}

impl Data {
    /// A copy of this text and source.
    pub fn duplicate(&self) -> (res: Data)
        ensures
            data_view(res) == data_view(*self),
    {
        Data { text: self.text.clone(), source: self.source.clone() }
    }
}

/// The words of `words` at the positions `picks`, in order.
pub open spec fn picked(words: Seq<String>, picks: Seq<usize>) -> Seq<Seq<char>> {
    picks.map_values(|j: usize| words[j as int]@)
}

/// `picks` are `n` positions into a list of `len` words, no position
/// right after itself.
pub open spec fn valid_picks(picks: Seq<usize>, len: nat, n: nat) -> bool {
    &&& picks.len() == n
    &&& forall|k: int| 0 <= k < picks.len() ==> #[trigger] picks[k] < len
    &&& forall|k: int| 0 < k < picks.len() ==> #[trigger] picks[k] != picks[k - 1]
}

/// The source given to `n` random words.
pub open spec fn words_source(n: nat) -> Seq<char> {
    decimal(n) + " words"@
}

/// The source given to the words of a test of `t` seconds.
pub open spec fn seconds_source(t: nat) -> Seq<char> {
    decimal(t) + " seconds"@
}

/// `text` is what `n` random words from `words` can give: the fallback
/// message when there are none, the single word `n` times when there is
/// one, else `n` words with no word right after itself.
pub open spec fn random_words_text(words: Seq<String>, n: nat, text: Seq<char>) -> bool {
    if words.len() == 0 {
        text == "No words found"@
    } else if words.len() == 1 {
        text == joined(Seq::new(n, |k: int| words[0]@))
    } else {
        exists|picks: Seq<usize>|
            #[trigger] valid_picks(picks, words.len(), n) && text == joined(picked(words, picks))
    }
}

/// `d` is what `n` random words from `words` can give, with the source
/// `"{n} words"`, or the fallback message as source when there are none.
pub open spec fn random_words(words: Seq<String>, n: nat, d: Data) -> bool {
    &&& random_words_text(words, n, d.text@)
    &&& d.source@ == if words.len() == 0 {
        "No words found"@
    } else {
        words_source(n)
    }
}

/// `d` is what a random pick from `quotes` can give: one of them, or the
/// fallback when there is none.
pub open spec fn random_quote(quotes: Seq<Data>, d: Data) -> bool {
    if quotes.len() == 0 {
        d.text@ == "No quotes available"@ && d.source@ == "no quotes available"@
    } else {
        exists|i: int| 0 <= i < quotes.len() && data_view(d) == data_view(#[trigger] quotes[i])
    }
}

/// The quotes of one source, as (text, source), in the order they are taken
/// from the end of its list: those equal to the source and empty ones are
/// left out.
pub open spec fn kept_quotes(source: Seq<char>, quotes: Seq<String>) -> Seq<(Seq<char>, Seq<char>)>
    decreases quotes.len(),
{
    if quotes.len() == 0 {
        Seq::empty()
    } else {
        let q = quotes.last()@;
        let rest = kept_quotes(source, quotes.drop_last());
        if q != source && q.len() > 0 {
            seq![(q, source)] + rest
        } else {
            rest
        }
    }
}

/// The kept quotes of every source, source after source.
pub open spec fn all_kept_quotes(entries: Seq<(String, Vec<String>)>) -> Seq<(Seq<char>, Seq<char>)>
    decreases entries.len(),
{
    if entries.len() == 0 {
        Seq::empty()
    } else {
        all_kept_quotes(entries.drop_last()) + kept_quotes(
            entries.last().0@,
            entries.last().1@,
        )
    }
}

/// Strings as their characters.
pub open spec fn strings_view(v: Seq<String>) -> Seq<Seq<char>> {
    v.map_values(|s: String| s@)
}

/// The words that `serde_json` reads from `json` as an array of strings, or
/// `None` when it does not hold one.
pub uninterp spec fn parsed_words(json: Seq<char>) -> Option<Seq<Seq<char>>>;

/// The map from each source to its quotes that `serde_json` reads from
/// `json` as an object of string arrays, or `None` when it does not hold
/// one.
pub uninterp spec fn parsed_quote_sources(json: Seq<char>) -> Option<Map<Seq<char>, Seq<Seq<char>>>>;

/// The entries list the map, in some order: one entry per source, each with
/// its quotes.
pub open spec fn lists_sources(entries: Seq<(String, Vec<String>)>, m: Map<Seq<char>, Seq<Seq<char>>>) -> bool {
    &&& forall|i: int, j: int|
        0 <= i < j < entries.len() ==> (#[trigger] entries[i]).0@ != (#[trigger] entries[j]).0@
    &&& forall|i: int|
        0 <= i < entries.len() ==> m.contains_key((#[trigger] entries[i]).0@) && m[entries[i].0@]
            == strings_view(entries[i].1@)
    &&& forall|k: Seq<char>|
        m.contains_key(k) ==> exists|i: int| 0 <= i < entries.len() && (#[trigger] entries[i]).0@ == k
}

/// Calls `serde_json::from_str` for an array of strings; its error is
/// given as its message. The words read are named `parsed_words`.
#[verifier::external_body]
fn parse_words(json: &str) -> (res: Result<Vec<String>, String>)
    ensures
        match res {
            Ok(words) => parsed_words(json@) == Some(strings_view(words@)),
            Err(_) => parsed_words(json@) is None,
        },
{
    match serde_json::from_str::<Vec<String>>(json) {
        Ok(words) => Ok(words),
        Err(e) => Err(e.to_string()),
    }
}

/// Calls `serde_json::from_str` for a `HashMap` from each source to its
/// quotes, and hands out its entries; its error is given as its message.
/// The map read is named `parsed_quote_sources`; the order in which the
/// map is walked depends on its hasher, so only the set of entries is
/// stated.
#[verifier::external_body]
fn parse_quote_sources(json: &str) -> (res: Result<Vec<(String, Vec<String>)>, String>)
    ensures
        match res {
            Ok(entries) => parsed_quote_sources(json@) matches Some(m) && lists_sources(entries@, m),
            Err(_) => parsed_quote_sources(json@) is None,
        },
{
    match serde_json::from_str::<std::collections::HashMap<String, Vec<String>>>(json) {
        Ok(by_source) => Ok(by_source.into_iter().collect()),
        Err(e) => Err(e.to_string()),
    }
}

/// `rand::rngs::ThreadRng`, the thread's random number generator.
#[verifier::external_type_specification]
#[verifier::external_body]
pub struct ExThreadRng(ThreadRng);

/// Calls `rand::rng`, a handle to the thread's generator.
#[verifier::external_body]
fn thread_rng() -> (rng: ThreadRng) {
    rand::rng()
}

/// Calls `RngExt::random_range` on `0..bound`, which panics on an empty
/// range: a random number below `bound`.
#[verifier::external_body]
fn random_below(rng: &mut ThreadRng, bound: usize) -> (r: usize)
    requires
        bound > 0,
    ensures
        r < bound,
{
    rng.random_range(0..bound)
}

/// Calls `IndexedRandom::choose` on the items: `None` exactly when there
/// are none, else one of them.
#[verifier::external_body]
fn choose_one<'a, T>(items: &'a Vec<T>, rng: &mut ThreadRng) -> (r: Option<&'a T>)
    ensures
        r is None <==> items@.len() == 0,
        r matches Some(x) ==> exists|i: int| 0 <= i < items@.len() && items@[i] == *x,
{
    items.as_slice().choose(rng)
}

/// The word picked after `last` from a draw `r` below `len - 1`: the draws
/// skip over `last`.
pub open spec fn pick_after(last: int, r: int) -> int {
    if r >= last {
        r + 1
    } else {
        r
    }
}

/// The draw below `len - 1` that picks `t` after `last`.
pub open spec fn draw_for(last: int, t: int) -> int {
    if t > last {
        t - 1
    } else {
        t
    }
}

/// After the word at `last`, each draw below `len - 1` picks a word other
/// than `last`, every such word is picked by exactly one draw, so a
/// uniform draw picks uniformly among the other words.
pub proof fn law_pick_after_reaches_each_other_word_once(last: int, len: int)
    requires
        0 <= last < len,
    ensures
        forall|r: int| 0 <= r < len - 1 ==> 0 <= #[trigger] pick_after(last, r) < len && pick_after(last, r) != last,
        forall|t: int|
            0 <= t < len && t != last ==> 0 <= draw_for(last, t) < len - 1 && #[trigger] pick_after(
                last,
                draw_for(last, t),
            ) == t,
        forall|r1: int, r2: int|
            0 <= r1 < len - 1 && 0 <= r2 < len - 1 && #[trigger] pick_after(last, r1) == #[trigger] pick_after(last, r2)
                ==> r1 == r2,
{
}

/// `n` random positions below `len`, none right after itself.
fn random_picks(rng: &mut ThreadRng, len: usize, n: usize) -> (picks: Vec<usize>)
    requires
        len >= 2,
    ensures
        valid_picks(picks@, len as nat, n as nat),
{
    let mut picks: Vec<usize> = Vec::new();
    for k in 0..n
        invariant
            len >= 2,
            valid_picks(picks@, len as nat, k as nat),
    {
        let ind = if k == 0 {
            random_below(rng, len)
        } else {
            let last = picks[k - 1];
            let r = random_below(rng, len - 1);
            if r >= last {
                r + 1
            } else {
                r
            }
        };
        picks.push(ind);
    }
    picks
}

/// `n` in decimal followed by `" words"`.
fn words_source_string(n: usize) -> (s: String)
    ensures
        s@ == words_source(n as nat),
{
    let mut s = decimal_string(n);
    s.append(" words");
    s
}

/// The words of `words` at the positions `picks`, separated by spaces,
/// with the source `"{n} words"`.
pub fn picked_words_data(words: &Vec<String>, picks: &Vec<usize>) -> (res: Data)
    requires
        forall|k: int| 0 <= k < picks@.len() ==> #[trigger] picks@[k] < words@.len(),
    ensures
        res.text@ == joined(picked(words@, picks@)),
        res.source@ == words_source(picks@.len()),
{
    let mut text = String::new();
    let m = picks.len();
    for k in 0..m
        invariant
            m == picks@.len(),
            forall|k: int| 0 <= k < picks@.len() ==> #[trigger] picks@[k] < words@.len(),
            text@ == joined(picked(words@, picks@).take(k as int)),
    {
        let ghost before = text@;
        if k > 0 {
            text.append(" ");
        }
        text.append(words[picks[k]].as_str());
        proof {
            reveal_strlit(" ");
            let ws = picked(words@, picks@);
            assert(ws[k as int] == words@[picks@[k as int] as int]@);
            assert(ws.take(k + 1).drop_last() =~= ws.take(k as int));
            assert(ws.take(k + 1).last() == ws[k as int]);
            if k == 0 {
                assert(ws.take(1) =~= seq![ws[0]]);
                assert(text@ =~= ws[0]);
            } else {
                assert(text@ =~= joined(ws.take(k as int)) + seq![' '] + ws[k as int]);
            }
        }
    }
    assert(picked(words@, picks@).take(m as int) =~= picked(words@, picks@));
    Data { text, source: words_source_string(m) }
}

/// The text data: the words and quotes tests are made from.
pub struct DataProvider {
    pub words: Vec<String>,
    pub quotes: Vec<Data>,
}

impl DataProvider {
    /// A provider over the given words and quotes.
    pub fn new(words: Vec<String>, quotes: Vec<Data>) -> (res: Self)
        ensures
            res.words@ == words@,
            res.quotes@ == quotes@,
    {
        DataProvider { words, quotes }
    }

    /// The text for a test in `mode`: a random quote, `n` random words, or
    /// four random words per second of a timed test, whose source is then
    /// `"{t} seconds"`.
    pub fn get_data_from_mode(&self, mode: &Mode) -> (res: Data)
        requires
            mode matches Mode::Time(t) ==> t * 4 <= usize::MAX,
        ensures
            match *mode {
                Mode::Quote => random_quote(self.quotes@, res),
                Mode::Words(n) => random_words(self.words@, n as nat, res),
                Mode::Time(t) => random_words_text(self.words@, (t * 4) as nat, res.text@)
                    && res.source@ == seconds_source(t as nat),
            },
    {
        match mode {
            Mode::Quote => self.get_random_quote(),
            Mode::Words(n) => self.get_n_random_words(*n),
            Mode::Time(t) => {
                let mut data = self.get_n_random_words(*t * 4);
                let mut source = decimal_string(*t);
                source.append(" seconds");
                data.source = source;
                data
            },
        }
    }

    /// A random quote; a fallback message when there is none.
    pub fn get_random_quote(&self) -> (res: Data)
        ensures
            random_quote(self.quotes@, res),
    {
        let mut rng = thread_rng();
        match choose_one(&self.quotes, &mut rng) {
            Some(data) => data.duplicate(),
            None => Data {
                text: owned("No quotes available"),
                source: owned("no quotes available"),
            },
        }
    }

    /// `n` random words separated by spaces, no word right after itself,
    /// with the source `"{n} words"`; the single word `n` times when there
    /// is one; a fallback message when there is none.
    pub fn get_n_random_words(&self, n: usize) -> (res: Data)
        ensures
            random_words(self.words@, n as nat, res),
    {
        if self.words.len() == 0 {
            return Data { text: owned("No words found"), source: owned("No words found") };
        }
        if self.words.len() == 1 {
            let picks: Vec<usize> = vec![0; n];
            let res = picked_words_data(&self.words, &picks);
            assert(picked(self.words@, picks@) =~= Seq::new(n as nat, |k: int| self.words@[0]@));
            return res;
        }
        let mut rng = thread_rng();
        let picks = random_picks(&mut rng, self.words.len(), n);
        let res = picked_words_data(&self.words, &picks);
        assert(valid_picks(picks@, self.words@.len(), n as nat));
        res
    }
}

/// The quotes of every source, source after source: each source's list
/// taken from its end, leaving out quotes equal to the source and empty
/// ones.
pub fn quotes_from_sources(entries: Vec<(String, Vec<String>)>) -> (res: Vec<Data>)
    ensures
        res@.map_values(|d: Data| data_view(d)) == all_kept_quotes(entries@),
{
    let mut out: Vec<Data> = Vec::new();
    let n = entries.len();
    for i in 0..n
        invariant
            n == entries@.len(),
            out@.map_values(|d: Data| data_view(d)) == all_kept_quotes(entries@.take(i as int)),
    {
        let source = &entries[i].0;
        let quotes = &entries[i].1;
        let ghost start = out@.map_values(|d: Data| data_view(d));
        assert(entries@.take(i + 1).drop_last() =~= entries@.take(i as int));
        let mut j = quotes.len();
        assert(quotes@.take(j as int) =~= quotes@);
        while j > 0
            invariant
                j <= quotes@.len(),
                start + kept_quotes(source@, quotes@) == out@.map_values(|d: Data| data_view(d))
                    + kept_quotes(source@, quotes@.take(j as int)),
            decreases j,
        {
            j -= 1;
            let quote = &quotes[j];
            assert(quotes@.take(j + 1).drop_last() =~= quotes@.take(j as int));
            if !(*quote == *source) && !quote.as_str().is_empty() {
                out.push(Data { source: source.clone(), text: quote.clone() });
            }
            assert(out@.map_values(|d: Data| data_view(d)) + kept_quotes(source@, quotes@.take(j as int))
                =~= out@.map_values(|d: Data| data_view(d)) + kept_quotes(source@, quotes@.take(j as int)));
        }
        assert(quotes@.take(0) =~= Seq::<String>::empty());
    }
    assert(entries@.take(n as int) =~= entries@);
    out
}

/// The words of a JSON array of strings; an error when `json` does not
/// hold one.
pub fn words_from_json(json: &str) -> (res: Result<Vec<String>, String>)
    ensures
        res is Ok <==> parsed_words(json@) is Some,
        res matches Ok(words) ==> parsed_words(json@) == Some(strings_view(words@)),
{
    parse_words(json)
}

/// The quotes of a JSON object from each source to its quotes, source after
/// source in the order the object is walked, each kept as
/// `quotes_from_sources` keeps it; an error when `json` does not hold such
/// an object.
pub fn quotes_from_json(json: &str) -> (res: Result<Vec<Data>, String>)
    ensures
        res is Ok <==> parsed_quote_sources(json@) is Some,
        res matches Ok(quotes) ==> exists|entries: Seq<(String, Vec<String>)>|
            #![trigger lists_sources(entries, parsed_quote_sources(json@)->0)]
            lists_sources(entries, parsed_quote_sources(json@)->0) && quotes@.map_values(
                |d: Data| data_view(d),
            ) == all_kept_quotes(entries),
{
    match parse_quote_sources(json) {
        Ok(entries) => {
            let ghost e = entries@;
            let quotes = quotes_from_sources(entries);
            assert(lists_sources(e, parsed_quote_sources(json@)->0));
            Ok(quotes)
        },
        Err(e) => Err(e),
    }
}

impl DataProvider {
    /// A provider over the words of a JSON array of strings and the quotes
    /// of a JSON object from each source to its quotes; an error when
    /// either does not hold what it should (the words are read first).
    pub fn from_json(words_json: &str, quotes_json: &str) -> (res: Result<Self, String>)
        ensures
            res is Ok <==> parsed_words(words_json@) is Some && parsed_quote_sources(quotes_json@) is Some,
            res matches Ok(p) ==> parsed_words(words_json@) == Some(strings_view(p.words@))
                && exists|entries: Seq<(String, Vec<String>)>|
                #![trigger lists_sources(entries, parsed_quote_sources(quotes_json@)->0)]
                lists_sources(entries, parsed_quote_sources(quotes_json@)->0)
                    && p.quotes@.map_values(|d: Data| data_view(d)) == all_kept_quotes(entries),
    {
        let words = match words_from_json(words_json) {
            Ok(w) => w,
            Err(e) => return Err(e),
        };
        let quotes = match quotes_from_json(quotes_json) {
            Ok(q) => q,
            Err(e) => return Err(e),
        };
        Ok(DataProvider::new(words, quotes))
    }
}

} // verus!
