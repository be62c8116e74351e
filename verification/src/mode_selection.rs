//! Picking a test mode from a menu: a quote, a number of words, or a time.
use crate::mode::Mode;
use crate::selection::{
    first_path,
    first_path_children,
    item_of,
    left_path,
    node_at,
    parent_node,
    right_path,
    down_path,
    selected_node,
    with_last_child,
    Selection,
    SelectionItem,
};
use crate::text::{decimal, decimal_string, owned};
use vstd::prelude::*;
use vstd::std_specs::cmp::PartialEqSpec;

verus! {

/// An entry of the mode menu. The placeholders head the rows of word
/// counts and of times.
#[derive(Clone, Copy, Debug)]
pub enum ModeSelectionOption {
    Quote,
    WordsPlaceholder,
    Words(usize),
    TimePlaceholder,
    Time(usize),
}

impl PartialEq for ModeSelectionOption {
    fn eq(&self, other: &Self) -> (res: bool) {
        match (self, other) {
            (Self::Quote, Self::Quote) => true,
            (Self::WordsPlaceholder, Self::WordsPlaceholder) => true,
            (Self::TimePlaceholder, Self::TimePlaceholder) => true,
            (Self::Words(a), Self::Words(b)) => *a == *b,
            (Self::Time(a), Self::Time(b)) => *a == *b,
            _ => false,
        }
    }
}

impl vstd::std_specs::cmp::PartialEqSpecImpl for ModeSelectionOption {
    open spec fn obeys_eq_spec() -> bool {
        true
    }

    open spec fn eq_spec(&self, other: &Self) -> bool {
        *self == *other
    }
}

/// The mode an entry stands for; none for a placeholder.
pub open spec fn option_mode(o: ModeSelectionOption) -> Option<Mode> {
    match o {
        ModeSelectionOption::Words(n) => Some(Mode::Words(n)),
        ModeSelectionOption::Time(n) => Some(Mode::Time(n)),
        ModeSelectionOption::Quote => Some(Mode::Quote),
        _ => None,
    }
}

/// The entry that stands for a mode.
pub open spec fn mode_option(m: Mode) -> ModeSelectionOption {
    match m {
        Mode::Quote => ModeSelectionOption::Quote,
        Mode::Words(n) => ModeSelectionOption::Words(n),
        Mode::Time(n) => ModeSelectionOption::Time(n),
    }
}

/// The label an entry is shown with.
pub open spec fn option_label(o: ModeSelectionOption) -> Seq<char> {
    match o {
        ModeSelectionOption::Quote => "Quote"@,
        ModeSelectionOption::WordsPlaceholder => "Words"@,
        ModeSelectionOption::TimePlaceholder => "Time"@,
        ModeSelectionOption::Words(n) => decimal(n as nat),
        ModeSelectionOption::Time(t) => decimal(t as nat),
    }
}

impl ModeSelectionOption {
    /// The mode this entry stands for; `None` for a placeholder.
    pub fn to_mode(&self) -> (res: Option<Mode>)
        ensures
            res == option_mode(*self),
    {
        match self {
            Self::Words(n) => Some(Mode::Words(*n)),
            Self::Time(n) => Some(Mode::Time(*n)),
            Self::Quote => Some(Mode::Quote),
            _ => None,
        }
    }

    /// The entry that stands for `mode`.
    pub fn from_mode(mode: Mode) -> (res: Self)
        ensures
            res == mode_option(mode),
    {
        match mode {
            Mode::Quote => Self::Quote,
            Mode::Words(n) => Self::Words(n),
            Mode::Time(n) => Self::Time(n),
        }
    }

    /// The label the entry is shown with: its name, or its number.
    pub fn to_string(&self) -> (res: String)
        ensures
            res@ == option_label(*self),
    {
        match self {
            Self::Quote => owned("Quote"),
            Self::WordsPlaceholder => owned("Words"),
            Self::TimePlaceholder => owned("Time"),
            Self::Words(n) => decimal_string(*n),
            Self::Time(t) => decimal_string(*t),
        }
    }
}

/// `n` is a menu entry holding `o`, with nothing below it and no child
/// remembered.
pub open spec fn is_leaf(n: SelectionItem<ModeSelectionOption>, o: ModeSelectionOption) -> bool {
    n.item == Some(o) && n.children@.len() == 0 && n.last_selected_child_id is None
}

/// `n` heads a row holding `o`, with the entries `a`, `b`, `c`, `d` below it,
/// none of them remembered as selected last.
pub open spec fn is_row(
    n: SelectionItem<ModeSelectionOption>,
    o: ModeSelectionOption,
    a: ModeSelectionOption,
    b: ModeSelectionOption,
    c: ModeSelectionOption,
    d: ModeSelectionOption,
) -> bool {
    &&& n.item == Some(o)
    &&& n.last_selected_child_id is None
    &&& n.children@.len() == 4
    &&& is_leaf(n.children@[0], a)
    &&& is_leaf(n.children@[1], b)
    &&& is_leaf(n.children@[2], c)
    &&& is_leaf(n.children@[3], d)
}

/// The mode menu, as it is before any move: Quote; Words over 10, 25, 50,
/// 100; Time over 15, 30, 60, 120; no node remembers a child.
pub open spec fn is_mode_tree(n: SelectionItem<ModeSelectionOption>) -> bool {
    &&& n.item is None
    &&& n.last_selected_child_id is None
    &&& n.children@.len() == 3
    &&& is_leaf(n.children@[0], ModeSelectionOption::Quote)
    &&& is_row(
        n.children@[1],
        ModeSelectionOption::WordsPlaceholder,
        ModeSelectionOption::Words(10),
        ModeSelectionOption::Words(25),
        ModeSelectionOption::Words(50),
        ModeSelectionOption::Words(100),
    )
    &&& is_row(
        n.children@[2],
        ModeSelectionOption::TimePlaceholder,
        ModeSelectionOption::Time(15),
        ModeSelectionOption::Time(30),
        ModeSelectionOption::Time(60),
        ModeSelectionOption::Time(120),
    )
}

/// Where the mode menu holds `o`, if it does.
pub open spec fn menu_path(o: ModeSelectionOption) -> Option<Seq<usize>> {
    match o {
        ModeSelectionOption::Quote => Some(seq![0usize]),
        ModeSelectionOption::WordsPlaceholder => Some(seq![1usize]),
        ModeSelectionOption::TimePlaceholder => Some(seq![2usize]),
        ModeSelectionOption::Words(n) => if n == 10 {
            Some(seq![1usize, 0usize])
        } else if n == 25 {
            Some(seq![1usize, 1usize])
        } else if n == 50 {
            Some(seq![1usize, 2usize])
        } else if n == 100 {
            Some(seq![1usize, 3usize])
        } else {
            None
        },
        ModeSelectionOption::Time(t) => if t == 15 {
            Some(seq![2usize, 0usize])
        } else if t == 30 {
            Some(seq![2usize, 1usize])
        } else if t == 60 {
            Some(seq![2usize, 2usize])
        } else if t == 120 {
            Some(seq![2usize, 3usize])
        } else {
            None
        },
    }
}

/// The mode the menu can select: a quote, 10, 25, 50 or 100 words, or
/// 15, 30, 60 or 120 seconds.
pub open spec fn is_offered(m: Mode) -> bool {
    menu_path(mode_option(m)) is Some
}

/// A selection over the mode menu.
pub struct ModeSelection {
    pub selection: Selection<ModeSelectionOption>,
}

/// The mode of the selected entry; none for a placeholder.
pub open spec fn selected_mode_of(s: ModeSelection) -> Option<Mode> {
    match item_of(selected_node(s.selection)) {
        Some(o) => option_mode(o),
        None => None,
    }
}

/// A search of a leaf finds the leaf itself or nothing.
proof fn lemma_leaf_search(
    n: SelectionItem<ModeSelectionOption>,
    o: ModeSelectionOption,
    acc: spec_fn(ModeSelectionOption) -> bool,
)
    requires
        is_leaf(n, o),
    ensures
        first_path(n, acc) == if acc(o) {
            Some(Seq::<usize>::empty())
        } else {
            None
        },
{
    assert(first_path_children(n.children@, 0, acc) is None);
}

/// A search of a row finds its heading, else the first of its entries
/// that is accepted, else nothing.
proof fn lemma_row_search(
    n: SelectionItem<ModeSelectionOption>,
    o: ModeSelectionOption,
    a: ModeSelectionOption,
    b: ModeSelectionOption,
    c: ModeSelectionOption,
    d: ModeSelectionOption,
    acc: spec_fn(ModeSelectionOption) -> bool,
)
    requires
        is_row(n, o, a, b, c, d),
    ensures
        first_path(n, acc) == if acc(o) {
            Some(Seq::<usize>::empty())
        } else if acc(a) {
            Some(seq![0usize])
        } else if acc(b) {
            Some(seq![1usize])
        } else if acc(c) {
            Some(seq![2usize])
        } else if acc(d) {
            Some(seq![3usize])
        } else {
            None
        },
{
    let cs = n.children@;
    lemma_leaf_search(cs[0], a, acc);
    lemma_leaf_search(cs[1], b, acc);
    lemma_leaf_search(cs[2], c, acc);
    lemma_leaf_search(cs[3], d, acc);
    assert(first_path_children(cs, 4, acc) is None);
    assert(seq![3usize] + Seq::<usize>::empty() =~= seq![3usize]);
    assert(seq![2usize] + Seq::<usize>::empty() =~= seq![2usize]);
    assert(seq![1usize] + Seq::<usize>::empty() =~= seq![1usize]);
    assert(seq![0usize] + Seq::<usize>::empty() =~= seq![0usize]);
    assert(first_path_children(cs, 3, acc) == if acc(d) {
        Some(seq![3usize])
    } else {
        None::<Seq<usize>>
    });
    assert(first_path_children(cs, 2, acc) == if acc(c) {
        Some(seq![2usize])
    } else {
        first_path_children(cs, 3, acc)
    });
    assert(first_path_children(cs, 1, acc) == if acc(b) {
        Some(seq![1usize])
    } else {
        first_path_children(cs, 2, acc)
    });
    assert(first_path_children(cs, 0, acc) == if acc(a) {
        Some(seq![0usize])
    } else {
        first_path_children(cs, 1, acc)
    });
}

/// `seq![i]` followed by an optional path.
spec fn prefixed(i: usize, r: Option<Seq<usize>>) -> Option<Seq<usize>> {
    match r {
        Some(q) => Some(seq![i] + q),
        None => None,
    }
}

/// Searching the mode menu for `o` finds where `menu_path` says it is.
proof fn lemma_menu_search(
    n: SelectionItem<ModeSelectionOption>,
    o: ModeSelectionOption,
    acc: spec_fn(ModeSelectionOption) -> bool,
)
    requires
        is_mode_tree(n),
        forall|x: ModeSelectionOption| #[trigger] acc(x) == (x == o),
    ensures
        first_path(n, acc) == menu_path(o),
{
    let cs = n.children@;
    lemma_leaf_search(cs[0], ModeSelectionOption::Quote, acc);
    lemma_row_search(
        cs[1],
        ModeSelectionOption::WordsPlaceholder,
        ModeSelectionOption::Words(10),
        ModeSelectionOption::Words(25),
        ModeSelectionOption::Words(50),
        ModeSelectionOption::Words(100),
        acc,
    );
    lemma_row_search(
        cs[2],
        ModeSelectionOption::TimePlaceholder,
        ModeSelectionOption::Time(15),
        ModeSelectionOption::Time(30),
        ModeSelectionOption::Time(60),
        ModeSelectionOption::Time(120),
        acc,
    );
    assert(first_path_children(cs, 3, acc) is None);
    assert(first_path_children(cs, 2, acc) == prefixed(2, first_path(cs[2], acc)));
    assert(first_path_children(cs, 1, acc) == match first_path(cs[1], acc) {
        Some(q) => Some(seq![1usize] + q),
        None => first_path_children(cs, 2, acc),
    });
    assert(first_path_children(cs, 0, acc) == match first_path(cs[0], acc) {
        Some(q) => Some(seq![0usize] + q),
        None => first_path_children(cs, 1, acc),
    });
    assert(first_path(n, acc) == first_path_children(cs, 0, acc));
    assert(seq![0usize] + Seq::<usize>::empty() =~= seq![0usize]);
    assert(seq![1usize] + Seq::<usize>::empty() =~= seq![1usize]);
    assert(seq![2usize] + Seq::<usize>::empty() =~= seq![2usize]);
    assert forall|i: usize, j: usize| #[trigger] (seq![i] + seq![j]) =~= seq![i, j] by {}
}

/// In the mode menu, `menu_path(o)`, where it exists, leads to `o`.
proof fn lemma_menu_path_leads_to(n: SelectionItem<ModeSelectionOption>, o: ModeSelectionOption)
    requires
        is_mode_tree(n),
        menu_path(o) is Some,
    ensures
        node_at(n, menu_path(o)->0) matches Some(m) && m.item == Some(o),
{
    reveal_with_fuel(crate::selection::node_at, 3);
}

impl ModeSelection {
    /// A mode menu with `initial_mode` selected where the menu offers it,
    /// and the quote entry selected where it does not.
    pub fn new(initial_mode: Mode) -> (res: Self)
        ensures
            is_mode_tree(res.selection.root),
            res.selection.selected_path@ == match menu_path(mode_option(initial_mode)) {
                Some(q) => q,
                None => seq![0usize],
            },
            selected_mode_of(res) == Some(
                if is_offered(initial_mode) {
                    initial_mode
                } else {
                    Mode::Quote
                },
            ),
    {
        let words = SelectionItem::new(ModeSelectionOption::WordsPlaceholder).children(
            vec![
                SelectionItem::new(ModeSelectionOption::Words(10)),
                SelectionItem::new(ModeSelectionOption::Words(25)),
                SelectionItem::new(ModeSelectionOption::Words(50)),
                SelectionItem::new(ModeSelectionOption::Words(100)),
            ],
        );
        let times = SelectionItem::new(ModeSelectionOption::TimePlaceholder).children(
            vec![
                SelectionItem::new(ModeSelectionOption::Time(15)),
                SelectionItem::new(ModeSelectionOption::Time(30)),
                SelectionItem::new(ModeSelectionOption::Time(60)),
                SelectionItem::new(ModeSelectionOption::Time(120)),
            ],
        );
        let mut selection = Selection::new(
            vec![SelectionItem::new(ModeSelectionOption::Quote), words, times],
        );
        assert(is_mode_tree(selection.root));
        let selected_mode = ModeSelectionOption::from_mode(initial_mode);
        let ghost root = selection.root;
        selection.select(selected_mode);
        proof {
            lemma_menu_search(root, selected_mode, |x: ModeSelectionOption| x.eq_spec(&selected_mode));
            if menu_path(selected_mode) is Some {
                lemma_menu_path_leads_to(root, selected_mode);
            } else {
                lemma_menu_path_leads_to(root, ModeSelectionOption::Quote);
            }
        }
        ModeSelection { selection }
    }

    /// The mode of the selected entry; `None` for a placeholder.
    pub fn selected_mode(&self) -> (res: Option<Mode>)
        ensures
            res == selected_mode_of(*self),
    {
        match self.selection.get_selected_item() {
            Some(item) => item.to_mode(),
            None => None,
        }
    }

    /// Moves to the entry on the left, wrapping round.
    pub fn handle_left(&mut self)
        ensures
            final(self).selection.root == old(self).selection.root,
            final(self).selection.selected_path@ == left_path(old(self).selection),
    {
        self.selection.left();
    }

    /// Moves to the entry on the right, wrapping round.
    pub fn handle_right(&mut self)
        requires
            parent_node(old(self).selection) matches Some(p) && p.children@.len() > 0
                ==> old(self).selection.selected_path@.last() < usize::MAX,
        ensures
            final(self).selection.root == old(self).selection.root,
            final(self).selection.selected_path@ == right_path(old(self).selection),
    {
        self.selection.right();
    }

    /// Moves up to the row's heading; at the top row nothing changes.
    pub fn handle_up(&mut self)
        ensures
            old(self).selection.selected_path@.len() > 1 ==> {
                &&& final(self).selection.selected_path@
                    == old(self).selection.selected_path@.drop_last()
                &&& with_last_child(
                    old(self).selection.root,
                    final(self).selection.root,
                    final(self).selection.selected_path@,
                    old(self).selection.selected_path@.last(),
                )
            },
            old(self).selection.selected_path@.len() <= 1 ==> {
                &&& final(self).selection.selected_path@ == old(self).selection.selected_path@
                &&& final(self).selection.root == old(self).selection.root
            },
    {
        self.selection.up();
    }

    /// Moves down into the row below the selected heading, to the entry
    /// chosen last time or else the first.
    pub fn handle_down(&mut self)
        ensures
            final(self).selection.root == old(self).selection.root,
            final(self).selection.selected_path@ == down_path(old(self).selection),
    {
        self.selection.down();
    }
}

/// In a mode menu just made, going down right after going up returns to
/// the mode that was selected.
pub proof fn law_down_undoes_up_in_new_menu(
    m: Mode,
    fresh: ModeSelection,
    after_up: ModeSelection,
    after_down: ModeSelection,
)
    requires
        is_mode_tree(fresh.selection.root),
        fresh.selection.selected_path@ == match menu_path(mode_option(m)) {
            Some(q) => q,
            None => seq![0usize],
        },
        fresh.selection.selected_path@.len() > 1 ==> {
            &&& after_up.selection.selected_path@ == fresh.selection.selected_path@.drop_last()
            &&& with_last_child(
                fresh.selection.root,
                after_up.selection.root,
                after_up.selection.selected_path@,
                fresh.selection.selected_path@.last(),
            )
        },
        fresh.selection.selected_path@.len() <= 1 ==> {
            &&& after_up.selection.selected_path@ == fresh.selection.selected_path@
            &&& after_up.selection.root == fresh.selection.root
        },
        after_down.selection.root == after_up.selection.root,
        after_down.selection.selected_path@ == down_path(after_up.selection),
    ensures
        selected_mode_of(after_down) == selected_mode_of(fresh),
{
    let root = fresh.selection.root;
    let path = fresh.selection.selected_path@;
    if path.len() > 1 {
        assert(path.drop_last() =~= seq![path[0]]);
        assert(seq![path[0]].drop_first() =~= Seq::<usize>::empty());
        assert(node_at(root.children@[path[0] as int], Seq::<usize>::empty()) is Some);
        crate::selection::law_down_undoes_up(fresh.selection, after_up.selection);
        crate::selection::law_up_keeps_items(
            root,
            after_up.selection.root,
            after_up.selection.selected_path@,
            path.last(),
            path,
        );
    } else {
        assert(path =~= seq![0usize]);
        assert(seq![0usize].drop_first() =~= Seq::<usize>::empty());
        assert(node_at(root.children@[0], Seq::<usize>::empty()) is Some);
    }
}

} // verus!
