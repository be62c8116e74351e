//! The flat mode menu: a quote, or words with a count of 10, 25, 50 or
//! 100. Up leaves the row of counts for its heading, keeping the count
//! chosen, and down comes back to it.
use crate::mode::Mode;
use vstd::prelude::*;

verus! {

/// A count of words the menu offers.
#[derive(PartialEq, Eq, Clone, Copy, Debug, Structural)]
pub enum WordsOption {
    Ten,
    Twentyfive,
    Fifty,
    Hundred,
}

/// The words entry: on its heading, keeping the count chosen last, or on
/// a count.
#[derive(PartialEq, Eq, Clone, Copy, Debug, Structural)]
pub enum WordSelectionOption {
    /// On the "Words" heading; the count is the one to come back to.
    Placeholder(WordsOption),
    Selected(WordsOption),
}

/// The entry of the menu that is selected.
#[derive(PartialEq, Eq, Clone, Copy, Debug, Structural)]
pub enum ModeOption {
    Quote,
    Words(WordSelectionOption),
}

/// The number of words a count stands for.
pub open spec fn words_num(w: WordsOption) -> usize {
    match w {
        WordsOption::Ten => 10,
        WordsOption::Twentyfive => 25,
        WordsOption::Fifty => 50,
        WordsOption::Hundred => 100,
    }
}

/// The next count, wrapping round to the first.
pub open spec fn next_words(w: WordsOption) -> WordsOption {
    match w {
        WordsOption::Ten => WordsOption::Twentyfive,
        WordsOption::Twentyfive => WordsOption::Fifty,
        WordsOption::Fifty => WordsOption::Hundred,
        WordsOption::Hundred => WordsOption::Ten,
    }
}

/// The previous count, wrapping round to the last.
pub open spec fn prev_words(w: WordsOption) -> WordsOption {
    match w {
        WordsOption::Ten => WordsOption::Hundred,
        WordsOption::Twentyfive => WordsOption::Ten,
        WordsOption::Fifty => WordsOption::Twentyfive,
        WordsOption::Hundred => WordsOption::Fifty,
    }
}

impl WordsOption {
    /// The number of words.
    pub fn to_num(&self) -> (res: usize)
        ensures
            res == words_num(*self),
    {
        match self {
            Self::Ten => 10,
            Self::Twentyfive => 25,
            Self::Fifty => 50,
            Self::Hundred => 100,
        }
    }

    /// The next count, wrapping round to the first.
    pub fn next(self) -> (res: Self)
        ensures
            res == next_words(self),
    {
        match self {
            Self::Ten => Self::Twentyfive,
            Self::Twentyfive => Self::Fifty,
            Self::Fifty => Self::Hundred,
            Self::Hundred => Self::Ten,
        }
    }

    /// The previous count, wrapping round to the last.
    pub fn prev(self) -> (res: Self)
        ensures
            res == prev_words(self),
    {
        match self {
            Self::Ten => Self::Hundred,
            Self::Twentyfive => Self::Ten,
            Self::Fifty => Self::Twentyfive,
            Self::Hundred => Self::Fifty,
        }
    }
}

/// The entry that stands for a mode: a quote, a count of words the menu
/// offers, and a quote for any other mode.
pub open spec fn option_of_mode(m: Mode) -> ModeOption {
    match m {
        Mode::Words(n) => if n == 10 {
            ModeOption::Words(WordSelectionOption::Selected(WordsOption::Ten))
        } else if n == 25 {
            ModeOption::Words(WordSelectionOption::Selected(WordsOption::Twentyfive))
        } else if n == 50 {
            ModeOption::Words(WordSelectionOption::Selected(WordsOption::Fifty))
        } else if n == 100 {
            ModeOption::Words(WordSelectionOption::Selected(WordsOption::Hundred))
        } else {
            ModeOption::Quote
        },
        _ => ModeOption::Quote,
    }
}

/// The mode an entry stands for; none on the words heading.
pub open spec fn mode_of_option(o: ModeOption) -> Option<Mode> {
    match o {
        ModeOption::Quote => Some(Mode::Quote),
        ModeOption::Words(WordSelectionOption::Placeholder(_)) => None,
        ModeOption::Words(WordSelectionOption::Selected(w)) => Some(Mode::Words(words_num(w))),
    }
}

impl ModeOption {
    /// The entry that stands for `mode`; a quote for a mode the menu does
    /// not offer.
    pub fn from_mode(mode: Mode) -> (res: Self)
        ensures
            res == option_of_mode(mode),
    {
        match mode {
            Mode::Quote => ModeOption::Quote,
            Mode::Words(10) => ModeOption::Words(WordSelectionOption::Selected(WordsOption::Ten)),
            Mode::Words(25) => ModeOption::Words(
                WordSelectionOption::Selected(WordsOption::Twentyfive),
            ),
            Mode::Words(50) => ModeOption::Words(WordSelectionOption::Selected(WordsOption::Fifty)),
            Mode::Words(100) => ModeOption::Words(
                WordSelectionOption::Selected(WordsOption::Hundred),
            ),
            _ => ModeOption::Quote,
        }
    }

    /// The mode this entry stands for; `None` on the words heading.
    pub fn to_mode(&self) -> (res: Option<Mode>)
        ensures
            res == mode_of_option(*self),
    {
        match self {
            Self::Quote => Some(Mode::Quote),
            Self::Words(w) => match w {
                WordSelectionOption::Placeholder(_) => None,
                WordSelectionOption::Selected(w) => Some(Mode::Words(w.to_num())),
            },
        }
    }
}

/// The entry left or right of `o`: between the quote and the words
/// heading, or to the previous or next count.
pub open spec fn sideways(o: ModeOption, forward: bool) -> ModeOption {
    match o {
        ModeOption::Quote => ModeOption::Words(WordSelectionOption::Placeholder(WordsOption::Ten)),
        ModeOption::Words(WordSelectionOption::Placeholder(_)) => ModeOption::Quote,
        ModeOption::Words(WordSelectionOption::Selected(w)) => ModeOption::Words(
            WordSelectionOption::Selected(
                if forward {
                    next_words(w)
                } else {
                    prev_words(w)
                },
            ),
        ),
    }
}

/// The entry above `o`: the words heading, keeping the count, above a
/// count; elsewhere `o` itself.
pub open spec fn up_option(o: ModeOption) -> ModeOption {
    match o {
        ModeOption::Words(WordSelectionOption::Selected(w)) => ModeOption::Words(
            WordSelectionOption::Placeholder(w),
        ),
        other => other,
    }
}

/// The entry below `o`: the kept count below the words heading; elsewhere
/// `o` itself.
pub open spec fn down_option(o: ModeOption) -> ModeOption {
    match o {
        ModeOption::Words(WordSelectionOption::Placeholder(w)) => ModeOption::Words(
            WordSelectionOption::Selected(w),
        ),
        other => other,
    }
}

/// The menu and its selected entry.
pub struct ModeSelection {
    pub selected_mode: ModeOption,
}

impl ModeSelection {
    /// The menu with the entry for `initial_mode` selected.
    pub fn new(initial_mode: Mode) -> (res: Self)
        ensures
            res.selected_mode == option_of_mode(initial_mode),
    {
        ModeSelection { selected_mode: ModeOption::from_mode(initial_mode) }
    }

    /// The mode of the selected entry; `None` on the words heading.
    pub fn to_mode(&self) -> (res: Option<Mode>)
        ensures
            res == mode_of_option(self.selected_mode),
    {
        self.selected_mode.to_mode()
    }

    /// Moves left: between the quote and the words heading, or to the
    /// previous count.
    pub fn handle_left(&mut self)
        ensures
            final(self).selected_mode == sideways(old(self).selected_mode, false),
    {
        self.selected_mode = match &self.selected_mode {
            ModeOption::Quote => ModeOption::Words(
                WordSelectionOption::Placeholder(WordsOption::Ten),
            ),
            ModeOption::Words(WordSelectionOption::Placeholder(_)) => ModeOption::Quote,
            ModeOption::Words(WordSelectionOption::Selected(w)) => ModeOption::Words(
                WordSelectionOption::Selected(w.clone().prev()),
            ),
        }
    }

    /// Moves right: between the quote and the words heading, or to the
    /// next count.
    pub fn handle_right(&mut self)
        ensures
            final(self).selected_mode == sideways(old(self).selected_mode, true),
    {
        self.selected_mode = match &self.selected_mode {
            ModeOption::Quote => ModeOption::Words(
                WordSelectionOption::Placeholder(WordsOption::Ten),
            ),
            ModeOption::Words(WordSelectionOption::Placeholder(_)) => ModeOption::Quote,
            ModeOption::Words(WordSelectionOption::Selected(w)) => ModeOption::Words(
                WordSelectionOption::Selected(w.clone().next()),
            ),
        }
    }

    /// Moves up from a count to the words heading, which keeps the count.
    pub fn handle_up(&mut self)
        ensures
            final(self).selected_mode == up_option(old(self).selected_mode),
    {
        if let ModeOption::Words(WordSelectionOption::Selected(w)) = &self.selected_mode {
            self.selected_mode = ModeOption::Words(WordSelectionOption::Placeholder(w.clone()));
        }
    }

    /// Moves down from the words heading to the count it kept.
    pub fn handle_down(&mut self)
        ensures
            final(self).selected_mode == down_option(old(self).selected_mode),
    {
        if let ModeOption::Words(WordSelectionOption::Placeholder(w)) = &self.selected_mode {
            self.selected_mode = ModeOption::Words(WordSelectionOption::Selected(w.clone()));
        }
    }
}

/// Stepping to the next count and back, or back and then forward, returns
/// to the same count; four steps either way go all the way round.
pub proof fn law_count_steps_undo(w: WordsOption)
    ensures
        prev_words(next_words(w)) == w,
        next_words(prev_words(w)) == w,
        next_words(next_words(next_words(next_words(w)))) == w,
        prev_words(prev_words(prev_words(prev_words(w)))) == w,
{
}

/// Moving left undoes moving right on a count, and the other way round.
pub proof fn law_sideways_undo(o: ModeOption)
    requires
        o matches ModeOption::Words(WordSelectionOption::Selected(_)),
    ensures
        sideways(sideways(o, true), false) == o,
        sideways(sideways(o, false), true) == o,
{
}

/// Every mode the menu offers is read back from its own entry, and any
/// other mode reads back as a quote.
pub proof fn law_mode_reads_back(m: Mode)
    ensures
        mode_of_option(option_of_mode(m)) == Some(
            if m == Mode::Quote || m == Mode::Words(10) || m == Mode::Words(25) || m
                == Mode::Words(50) || m == Mode::Words(100) {
                m
            } else {
                Mode::Quote
            },
        ),
{
}

/// Going down right after going up comes back to the count that was
/// selected; going up right after going down comes back to the heading.
pub proof fn law_down_undoes_up(o: ModeOption)
    ensures
        o matches ModeOption::Words(WordSelectionOption::Selected(_)) ==> down_option(
            up_option(o),
        ) == o,
        o matches ModeOption::Words(WordSelectionOption::Placeholder(_)) ==> up_option(
            down_option(o),
        ) == o,
{
}

} // verus!
