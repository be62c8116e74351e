//! A menu whose items can have their own items: a tree of selection items
//! and the path to the selected one, moved up, down, left and right.
use vstd::prelude::*;
use vstd::std_specs::cmp::PartialEqSpec;

verus! {

/// A single selection item: an item (none for the root), its children, and
/// which child was selected when the selection last went up from them.
#[derive(Debug)]
pub struct SelectionItem<T> {
    /// `None` only for the root, which holds no item.
    pub item: Option<T>,
    pub children: Vec<SelectionItem<T>>,
    pub last_selected_child_id: Option<usize>,
}

/// The node reached from `n` by following `path`, one child index per
/// level; `None` when an index is out of range.
pub open spec fn node_at<T>(n: SelectionItem<T>, path: Seq<usize>) -> Option<SelectionItem<T>>
    decreases path.len(),
{
    if path.len() == 0 {
        Some(n)
    } else if path[0] < n.children@.len() {
        node_at(n.children@[path[0] as int], path.drop_first())
    } else {
        None
    }
}

/// `b` is `a` with the node at `path` (if there is one) remembering `v` as
/// its last selected child; everything else is unchanged.
pub open spec fn with_last_child<T>(a: SelectionItem<T>, b: SelectionItem<T>, path: Seq<usize>, v: usize) -> bool
    decreases path.len(),
{
    &&& b.item == a.item
    &&& if path.len() == 0 {
        b.children@ == a.children@ && b.last_selected_child_id == Some(v)
    } else if path[0] < a.children@.len() {
        &&& b.last_selected_child_id == a.last_selected_child_id
        &&& b.children@.len() == a.children@.len()
        &&& forall|j: int|
            0 <= j < a.children@.len() && j != path[0] ==> #[trigger] b.children@[j] == a.children@[j]
        &&& with_last_child(a.children@[path[0] as int], b.children@[path[0] as int], path.drop_first(), v)
    } else {
        b.children@ == a.children@ && b.last_selected_child_id == a.last_selected_child_id
    }
}

/// Whether `res` is what a depth-first search of `n` for an item accepted
/// by `p` can give: the path (child indices from the found node up to `n`,
/// innermost first) to the first item, in pre-order, for which `p` answered
/// true, every item before it having been answered false; `None` when every
/// item was answered false.
pub open spec fn found_in<T, F: Fn(&T) -> bool>(n: SelectionItem<T>, p: F, res: Option<Seq<usize>>) -> bool
    decreases n, 0int,
{
    ||| (n.item matches Some(x) && call_ensures(p, (&x,), true) && res == Some(Seq::<usize>::empty()))
    ||| ((n.item matches Some(x) ==> call_ensures(p, (&x,), false)) && found_in_children(
        n.children@,
        0,
        p,
        res,
    ))
}

/// `found_in` over the children `cs[i..]`, in order.
pub open spec fn found_in_children<T, F: Fn(&T) -> bool>(
    cs: Seq<SelectionItem<T>>,
    i: int,
    p: F,
    res: Option<Seq<usize>>,
) -> bool
    decreases cs, cs.len() - i,
{
    if i < 0 || i >= cs.len() {
        res is None
    } else {
        ||| (res matches Some(r) && r.len() > 0 && r.last() == i && found_in(
            cs[i],
            p,
            Some(r.drop_last()),
        ))
        ||| (found_in(cs[i], p, None) && found_in_children(cs, i + 1, p, res))
    }
}

/// The view of an optional path.
pub open spec fn opt_view(res: Option<Vec<usize>>) -> Option<Seq<usize>> {
    match res {
        Some(v) => Some(v@),
        None => None,
    }
}

impl<T> Default for SelectionItem<T> {
    /// The root: no item, no children.
    fn default() -> (res: Self)
        ensures
            res.item is None,
            res.children@.len() == 0,
            res.last_selected_child_id is None,
    {
        SelectionItem { item: None, children: Vec::new(), last_selected_child_id: None }
    }
}

impl<T> SelectionItem<T> {
    /// Makes a selection item with no children.
    pub fn new(item: T) -> (res: Self)
        ensures
            res.item == Some(item),
            res.children@.len() == 0,
            res.last_selected_child_id is None,
    {
        SelectionItem { item: Some(item), children: Vec::new(), last_selected_child_id: None }
    }

    /// Returns self with the given children set.
    pub fn children(self, children: Vec<SelectionItem<T>>) -> (res: Self)
        ensures
            res.item == self.item,
            res.children@ == children@,
            res.last_selected_child_id == self.last_selected_child_id,
    {
        SelectionItem { children, ..self }
    }

    /// Searches depth-first, in pre-order, for the first item satisfying `p`,
    /// and returns the path that led to it: child indices from the item up.
    fn find_with<F: Fn(&T) -> bool>(&self, p: &F) -> (res: Option<Vec<usize>>)
        requires
            forall|x: &T| call_requires(*p, (x,)),
        ensures
            found_in(*self, *p, opt_view(res)),
        decreases self,
    {
        if let Some(item) = &self.item {
            if p(item) {
                return Some(Vec::new());
            }
        }
        let n = self.children.len();
        for i in 0..n
            invariant
                n == self.children@.len(),
                forall|x: &T| call_requires(*p, (x,)),
                self.item matches Some(x) ==> call_ensures(*p, (&x,), false),
                forall|r: Option<Seq<usize>>|
                    found_in_children(self.children@, i as int, *p, r) ==> found_in_children(
                        self.children@,
                        0,
                        *p,
                        r,
                    ),
        {
            let found = self.children[i].find_with(p);
            match found {
                Some(mut path) => {
                    let ghost inner = path@;
                    path.push(i);
                    assert(path@.drop_last() =~= inner);
                    assert(found_in_children(self.children@, i as int, *p, Some(path@)));
                    assert(found_in_children(self.children@, 0, *p, Some(path@)));
                    return Some(path);
                },
                None => {
                    assert(forall|r: Option<Seq<usize>>|
                        found_in_children(self.children@, i + 1, *p, r) ==> found_in_children(
                            self.children@,
                            i as int,
                            *p,
                            r,
                        ));
                },
            }
        }
        assert(found_in_children(self.children@, n as int, *p, None));
        assert(found_in_children(self.children@, 0, *p, None));
        None
    }
}

/// A menu whose items can have their own items, and the path to the
/// selected one: one child index per level, starting below the root.
#[derive(Debug)]
pub struct Selection<T> {
    pub root: SelectionItem<T>,
    pub selected_path: Vec<usize>,
}

/// The node the selected path leads to, if it leads to one.
pub open spec fn selected_node<T>(s: Selection<T>) -> Option<SelectionItem<T>> {
    node_at(s.root, s.selected_path@)
}

/// The parent of the selected node: the node at all but the last index
/// of the path.
pub open spec fn parent_node<T>(s: Selection<T>) -> Option<SelectionItem<T>> {
    if s.selected_path@.len() == 0 {
        None
    } else {
        node_at(s.root, s.selected_path@.drop_last())
    }
}

/// The item held by an optional node, if any.
pub open spec fn item_of<T>(n: Option<SelectionItem<T>>) -> Option<T> {
    match n {
        Some(m) => m.item,
        None => None,
    }
}

/// An optional reference taken as the value it refers to.
pub open spec fn opt_deref<T>(r: Option<&T>) -> Option<T> {
    match r {
        Some(x) => Some(*x),
        None => None,
    }
}

/// Walks `path[k..end]` down from `n`.
fn node_at_exec<'a, T>(n: &'a SelectionItem<T>, path: &Vec<usize>, k: usize, end: usize) -> (res:
    Option<&'a SelectionItem<T>>)
    requires
        k <= end <= path@.len(),
    ensures
        node_at(*n, path@.subrange(k as int, end as int)) == opt_deref(res),
    decreases end - k,
{
    if k == end {
        Some(n)
    } else {
        let i = path[k];
        assert(path@.subrange(k as int, end as int).drop_first() =~= path@.subrange(
            k + 1,
            end as int,
        ));
        if i < n.children.len() {
            node_at_exec(&n.children[i], path, k + 1, end)
        } else {
            None
        }
    }
}

/// Records `v` as the last selected child of the node `path[k..]` leads to
/// from `n`; nothing changes when the path leads nowhere.
fn set_last_child<T>(n: &mut SelectionItem<T>, path: &Vec<usize>, k: usize, v: usize)
    requires
        k <= path@.len(),
    ensures
        with_last_child(*old(n), *final(n), path@.skip(k as int), v),
    decreases path@.len() - k,
{
    if k == path.len() {
        assert(path@.skip(k as int).len() == 0);
        n.last_selected_child_id = Some(v);
    } else {
        let i = path[k];
        assert(path@.skip(k as int).drop_first() =~= path@.skip(k + 1));
        if i < n.children.len() {
            set_last_child(&mut n.children[i], path, k + 1, v);
        }
    }
}

/// The path that `down` leads to: the child last selected below the
/// selected node, else its first child, else no move.
pub open spec fn down_path<T>(s: Selection<T>) -> Seq<usize> {
    match selected_node(s) {
        Some(m) => match m.last_selected_child_id {
            Some(c) => s.selected_path@.push(c),
            None => if m.children@.len() > 0 {
                s.selected_path@.push(0)
            } else {
                s.selected_path@
            },
        },
        None => s.selected_path@,
    }
}

/// The path that `left` leads to: the previous sibling, wrapping round
/// to the last.
pub open spec fn left_path<T>(s: Selection<T>) -> Seq<usize> {
    match parent_node(s) {
        Some(p) => if p.children@.len() > 0 {
            let c = s.selected_path@.last();
            let prev = if c == 0 {
                (p.children@.len() - 1) as usize
            } else {
                (c - 1) as usize
            };
            s.selected_path@.drop_last().push(prev)
        } else {
            s.selected_path@
        },
        None => s.selected_path@,
    }
}

/// The path that `right` leads to: the next sibling, wrapping round to
/// the first.
pub open spec fn right_path<T>(s: Selection<T>) -> Seq<usize> {
    match parent_node(s) {
        Some(p) => if p.children@.len() > 0 {
            let c = s.selected_path@.last();
            let next = if c == p.children@.len() - 1 {
                0usize
            } else {
                (c + 1) as usize
            };
            s.selected_path@.drop_last().push(next)
        } else {
            s.selected_path@
        },
        None => s.selected_path@,
    }
}

/// The path from the root to the first item, in depth-first pre-order,
/// that `acc` accepts.
pub open spec fn first_path<T>(n: SelectionItem<T>, acc: spec_fn(T) -> bool) -> Option<Seq<usize>>
    decreases n, 0int,
{
    if n.item matches Some(x) && acc(x) {
        Some(Seq::<usize>::empty())
    } else {
        first_path_children(n.children@, 0, acc)
    }
}

/// `first_path` over the children `cs[i..]`, in order.
pub open spec fn first_path_children<T>(cs: Seq<SelectionItem<T>>, i: int, acc: spec_fn(T) -> bool) -> Option<
    Seq<usize>,
>
    decreases cs, cs.len() - i,
{
    if i < 0 || i >= cs.len() {
        None
    } else {
        match first_path(cs[i], acc) {
            Some(q) => Some(seq![i as usize] + q),
            None => first_path_children(cs, i + 1, acc),
        }
    }
}

/// Every item in the tree under `n` is one that `p` answered false.
pub open spec fn all_rejected<T, F: Fn(&T) -> bool>(n: SelectionItem<T>, p: F) -> bool {
    forall|q: Seq<usize>| #[trigger] rejected_at(n, p, q)
}

/// The item at `q` under `n`, if there is one, is one that `p` answered false.
pub open spec fn rejected_at<T, F: Fn(&T) -> bool>(n: SelectionItem<T>, p: F, q: Seq<usize>) -> bool {
    node_at(n, q) matches Some(m) ==> (m.item matches Some(x) ==> call_ensures(p, (&x,), false))
}

/// The path `v` in reverse order.
fn reversed(v: Vec<usize>) -> (r: Vec<usize>)
    ensures
        r@ == v@.reverse(),
{
    let n = v.len();
    let mut r: Vec<usize> = Vec::new();
    let mut i: usize = 0;
    while i < n
        invariant
            n == v@.len(),
            i <= n,
            r@.len() == i,
            forall|j: int| 0 <= j < i ==> r@[j] == v@[n - 1 - j],
        decreases n - i,
    {
        r.push(v[n - 1 - i]);
        i += 1;
    }
    assert(r@ =~= v@.reverse());
    r
}

/// A search that ends in `found_in_children(cs, i, p, Some(r))` went down
/// into the child `r.last()`, at or after `i`, and found `r.drop_last()` there.
proof fn lemma_found_children_some<T, F: Fn(&T) -> bool>(
    cs: Seq<SelectionItem<T>>,
    i: int,
    p: F,
    r: Seq<usize>,
)
    requires
        found_in_children(cs, i, p, Some(r)),
    ensures
        r.len() > 0,
        i <= r.last() < cs.len(),
        0 <= i,
        found_in(cs[r.last() as int], p, Some(r.drop_last())),
    decreases cs.len() - i,
{
    if !(r.len() > 0 && r.last() == i && found_in(cs[i], p, Some(r.drop_last()))) {
        lemma_found_children_some(cs, i + 1, p, r);
    }
}

/// A search that ends in `found_in_children(cs, i, p, None)` found nothing
/// in any child from `i` on.
proof fn lemma_found_children_none<T, F: Fn(&T) -> bool>(cs: Seq<SelectionItem<T>>, i: int, p: F)
    requires
        found_in_children(cs, i, p, None),
    ensures
        forall|k: int| 0 <= i <= k < cs.len() ==> found_in(#[trigger] cs[k], p, None),
    decreases cs.len() - i,
{
    if 0 <= i < cs.len() {
        lemma_found_children_none(cs, i + 1, p);
    }
}

/// A path found by the search leads, from the root down, to an item that
/// the predicate accepted.
proof fn lemma_found_leads_to<T, F: Fn(&T) -> bool>(n: SelectionItem<T>, p: F, r: Seq<usize>)
    requires
        found_in(n, p, Some(r)),
    ensures
        node_at(n, r.reverse()) matches Some(m) && m.item matches Some(x) && call_ensures(
            p,
            (&x,),
            true,
        ),
    decreases n,
{
    if n.item matches Some(x) && call_ensures(p, (&x,), true) && r == Seq::<usize>::empty() {
        assert(r.reverse() =~= Seq::<usize>::empty());
    } else {
        lemma_found_children_some(n.children@, 0, p, r);
        let k = r.last();
        let child = n.children@[k as int];
        assert(decreases_to!(n => child));
        lemma_found_leads_to(child, p, r.drop_last());
        assert(r.reverse() =~= seq![k] + r.drop_last().reverse());
        assert((seq![k] + r.drop_last().reverse()).drop_first() =~= r.drop_last().reverse());
    }
}

/// A search that found nothing answered false for every item in the tree.
proof fn lemma_not_found_rejects<T, F: Fn(&T) -> bool>(n: SelectionItem<T>, p: F)
    requires
        found_in(n, p, None),
    ensures
        all_rejected(n, p),
    decreases n,
{
    lemma_found_children_none(n.children@, 0, p);
    assert forall|q: Seq<usize>| #[trigger] rejected_at(n, p, q) by {
        if q.len() > 0 && q[0] < n.children@.len() {
            let k = q[0];
            let child = n.children@[k as int];
            assert(found_in(child, p, None));
            assert(decreases_to!(n => child));
            lemma_not_found_rejects(child, p);
            assert(rejected_at(child, p, q.drop_first()));
        }
    }
}

/// Where `p` answers as `acc` does, the search finds, reversed, the first
/// path that `acc` accepts.
proof fn lemma_found_is_first<T, F: Fn(&T) -> bool>(
    n: SelectionItem<T>,
    p: F,
    r: Option<Seq<usize>>,
    acc: spec_fn(T) -> bool,
)
    requires
        found_in(n, p, r),
        forall|x: T, b: bool| call_ensures(p, (&x,), b) ==> b == acc(x),
    ensures
        first_path(n, acc) == opt_reverse(r),
    decreases n, 0int,
{
    if n.item matches Some(x) && call_ensures(p, (&x,), true) && r == Some(Seq::<usize>::empty()) {
        assert(Seq::<usize>::empty().reverse() =~= Seq::<usize>::empty());
    } else {
        lemma_found_children_is_first(n.children@, 0, p, r, acc);
    }
}

/// `lemma_found_is_first` over the children `cs[i..]`.
proof fn lemma_found_children_is_first<T, F: Fn(&T) -> bool>(
    cs: Seq<SelectionItem<T>>,
    i: int,
    p: F,
    r: Option<Seq<usize>>,
    acc: spec_fn(T) -> bool,
)
    requires
        found_in_children(cs, i, p, r),
        forall|x: T, b: bool| call_ensures(p, (&x,), b) ==> b == acc(x),
    ensures
        first_path_children(cs, i, acc) == opt_reverse(r),
    decreases cs, cs.len() - i,
{
    if 0 <= i < cs.len() {
        let went_in = match r {
            Some(q) => q.len() > 0 && q.last() == i && found_in(cs[i], p, Some(q.drop_last())),
            None => false,
        };
        if went_in {
            let q = r->0;
            lemma_found_is_first(cs[i], p, Some(q.drop_last()), acc);
            assert(q.reverse() =~= seq![i as usize] + q.drop_last().reverse());
        } else {
            lemma_found_is_first(cs[i], p, None, acc);
            lemma_found_children_is_first(cs, i + 1, p, r, acc);
        }
    }
}

/// An optional path in reverse order.
pub open spec fn opt_reverse(r: Option<Seq<usize>>) -> Option<Seq<usize>> {
    match r {
        Some(q) => Some(q.reverse()),
        None => None,
    }
}

impl<T> Selection<T> {
    /// Makes a selection over the given items, with the first one selected.
    pub fn new(items: Vec<SelectionItem<T>>) -> (res: Self)
        ensures
            res.root.item is None,
            res.root.children@ == items@,
            res.root.last_selected_child_id is None,
            res.selected_path@ == seq![0usize],
    {
        let root = SelectionItem::default().children(items);
        Selection { root, selected_path: vec![0] }
    }

    /// The item of the selected node; `None` when the path leads nowhere.
    pub fn get_selected_item(&self) -> (res: Option<&T>)
        ensures
            opt_deref(res) == item_of(selected_node(*self)),
    {
        match self.get_selected_selection_item() {
            Some(n) => match &n.item {
                Some(x) => Some(x),
                None => None,
            },
            None => None,
        }
    }

    /// The selected node, if the path leads to one.
    fn get_selected_selection_item(&self) -> (res: Option<&SelectionItem<T>>)
        ensures
            opt_deref(res) == selected_node(*self),
    {
        assert(self.selected_path@.subrange(0, self.selected_path@.len() as int)
            =~= self.selected_path@);
        node_at_exec(&self.root, &self.selected_path, 0, self.selected_path.len())
    }

    /// The parent of the selected node, if there is one.
    fn parent_of_selected(&self) -> (res: Option<&SelectionItem<T>>)
        ensures
            opt_deref(res) == parent_node(*self),
    {
        let len = self.selected_path.len();
        if len == 0 {
            return None;
        }
        assert(self.selected_path@.subrange(0, len - 1) =~= self.selected_path@.drop_last());
        node_at_exec(&self.root, &self.selected_path, 0, len - 1)
    }

    /// Moves the selection up a level, to the parent, which remembers the
    /// child it was left from. At the top level nothing changes.
    pub fn up(&mut self)
        ensures
            old(self).selected_path@.len() > 1 ==> {
                &&& final(self).selected_path@ == old(self).selected_path@.drop_last()
                &&& with_last_child(
                    old(self).root,
                    final(self).root,
                    final(self).selected_path@,
                    old(self).selected_path@.last(),
                )
            },
            old(self).selected_path@.len() <= 1 ==> {
                &&& final(self).selected_path@ == old(self).selected_path@
                &&& final(self).root == old(self).root
            },
    {
        if self.selected_path.len() > 1 {
            let prev_index = self.selected_path.pop().unwrap();
            assert(self.selected_path@.skip(0) =~= self.selected_path@);
            set_last_child(&mut self.root, &self.selected_path, 0, prev_index);
        }
    }

    /// Moves the selection down a level: to the child selected last time,
    /// else to the first child; with no child nothing changes.
    pub fn down(&mut self)
        ensures
            final(self).root == old(self).root,
            final(self).selected_path@ == down_path(*old(self)),
    {
        let next: Option<usize> = match self.get_selected_selection_item() {
            Some(selected) => match selected.last_selected_child_id {
                Some(c) => Some(c),
                None => if !selected.children.is_empty() {
                    Some(0)
                } else {
                    None
                },
            },
            None => None,
        };
        if let Some(c) = next {
            self.selected_path.push(c);
        }
    }

    /// Selects the item left of the selected one, wrapping round to the
    /// last of its siblings.
    pub fn left(&mut self)
        ensures
            final(self).root == old(self).root,
            final(self).selected_path@ == left_path(*old(self)),
    {
        let children_len: usize = match self.parent_of_selected() {
            Some(parent) => parent.children.len(),
            None => 0,
        };
        if children_len > 0 {
            let child_index = self.selected_path.pop().unwrap();
            let prev_index = if child_index == 0 {
                children_len - 1
            } else {
                child_index - 1
            };
            self.selected_path.push(prev_index);
        }
    }

    /// Selects the item right of the selected one, wrapping round to the
    /// first of its siblings.
    pub fn right(&mut self)
        requires
            parent_node(*old(self)) matches Some(p) && p.children@.len() > 0
                ==> old(self).selected_path@.last() < usize::MAX,
        ensures
            final(self).root == old(self).root,
            final(self).selected_path@ == right_path(*old(self)),
    {
        let children_len: usize = match self.parent_of_selected() {
            Some(parent) => parent.children.len(),
            None => 0,
        };
        if children_len > 0 {
            let child_index = self.selected_path.pop().unwrap();
            let next_index = if child_index == children_len - 1 {
                0
            } else {
                child_index + 1
            };
            self.selected_path.push(next_index);
        }
    }

    /// Selects the first item, in depth-first pre-order, that `p` accepts;
    /// when none is accepted the selection is unchanged.
    pub fn select_with<F: Fn(&T) -> bool>(&mut self, p: F)
        requires
            forall|x: &T| call_requires(p, (x,)),
        ensures
            final(self).root == old(self).root,
            exists|r: Option<Seq<usize>>| #[trigger]
                found_in(old(self).root, p, r) && final(self).selected_path@ == match r {
                    Some(q) => q.reverse(),
                    None => old(self).selected_path@,
                },
            ({
                ||| item_of(selected_node(*final(self))) matches Some(x) && call_ensures(
                    p,
                    (&x,),
                    true,
                )
                ||| final(self).selected_path@ == old(self).selected_path@ && all_rejected(
                    old(self).root,
                    p,
                )
            }),
    {
        let found = self.root.find_with(&p);
        proof {
            match opt_view(found) {
                Some(q) => lemma_found_leads_to(self.root, p, q),
                None => lemma_not_found_rejects(self.root, p),
            }
        }
        if let Some(path) = found {
            self.selected_path = reversed(path);
        }
        assert(found_in(old(self).root, p, opt_view(found)));
    }

    /// Selects the first item, in depth-first pre-order, equal to `item`;
    /// when there is none the selection is unchanged.
    pub fn select(&mut self, item: T) where T: PartialEq
        ensures
            final(self).root == old(self).root,
            T::obeys_eq_spec() ==> final(self).selected_path@ == match first_path(
                old(self).root,
                |x: T| x.eq_spec(&item),
            ) {
                Some(q) => q,
                None => old(self).selected_path@,
            },
            T::obeys_eq_spec() ==> ({
                ||| item_of(selected_node(*final(self))) matches Some(x) && x.eq_spec(&item)
                ||| final(self).selected_path@ == old(self).selected_path@
            }),
    {
        let is_item = |tree_item: &T| -> (r: bool)
            ensures
                T::obeys_eq_spec() ==> r == tree_item.eq_spec(&item),
            { *tree_item == item };
        let ghost before = self.selected_path@;
        self.select_with(is_item);
        proof {
            if T::obeys_eq_spec() {
                let r = choose|r: Option<Seq<usize>>| #[trigger]
                    found_in(old(self).root, is_item, r) && self.selected_path@ == match r {
                        Some(q) => q.reverse(),
                        None => before,
                    };
                lemma_found_is_first(old(self).root, is_item, r, |x: T| x.eq_spec(&item));
            }
        }
    }
}

/// Following `q` and then the child `k` is following `q.push(k)`.
proof fn lemma_node_at_push<T>(n: SelectionItem<T>, q: Seq<usize>, k: usize)
    ensures
        node_at(n, q.push(k)) == match node_at(n, q) {
            Some(m) => if k < m.children@.len() {
                Some(m.children@[k as int])
            } else {
                None
            },
            None => None,
        },
    decreases q.len(),
{
    if q.len() == 0 {
        assert(q.push(k).drop_first() =~= Seq::<usize>::empty());
        if k < n.children@.len() {
            assert(node_at(n.children@[k as int], Seq::<usize>::empty()) == Some(
                n.children@[k as int],
            ));
        }
    } else {
        assert(q.push(k).drop_first() =~= q.drop_first().push(k));
        if q[0] < n.children@.len() {
            lemma_node_at_push(n.children@[q[0] as int], q.drop_first(), k);
        }
    }
}

/// After `with_last_child`, the node at `q`, where there is one, remembers `v`.
proof fn lemma_with_last_child_remembers<T>(a: SelectionItem<T>, b: SelectionItem<T>, q: Seq<usize>, v: usize)
    requires
        with_last_child(a, b, q, v),
        node_at(a, q) is Some,
    ensures
        node_at(b, q) matches Some(m) && m.last_selected_child_id == Some(v),
    decreases q.len(),
{
    if q.len() > 0 {
        lemma_with_last_child_remembers(
            a.children@[q[0] as int],
            b.children@[q[0] as int],
            q.drop_first(),
            v,
        );
    }
}

/// Going down right after going up returns to the item that was selected,
/// wherever that item has a parent below the root.
pub proof fn law_down_undoes_up<T>(before: Selection<T>, after_up: Selection<T>)
    requires
        before.selected_path@.len() > 1,
        parent_node(before) is Some,
        after_up.selected_path@ == before.selected_path@.drop_last(),
        with_last_child(
            before.root,
            after_up.root,
            after_up.selected_path@,
            before.selected_path@.last(),
        ),
    ensures
        down_path(after_up) == before.selected_path@,
{
    lemma_with_last_child_remembers(
        before.root,
        after_up.root,
        after_up.selected_path@,
        before.selected_path@.last(),
    );
    assert(before.selected_path@.drop_last().push(before.selected_path@.last())
        =~= before.selected_path@);
}

/// Going right right after going left returns to the item that was
/// selected, wherever that item is one of its parent's children.
pub proof fn law_right_undoes_left<T>(before: Selection<T>, after_left: Selection<T>)
    requires
        parent_node(before) matches Some(p) ==> before.selected_path@.last() < p.children@.len(),
        after_left.root == before.root,
        after_left.selected_path@ == left_path(before),
    ensures
        right_path(after_left) == before.selected_path@,
{
    if parent_node(before) is Some {
        let p = parent_node(before)->0;
        if p.children@.len() > 0 {
            assert(p.children.len() == p.children@.len());
            assert(after_left.selected_path@.drop_last() =~= before.selected_path@.drop_last());
            assert(parent_node(after_left) == parent_node(before));
            let c = before.selected_path@.last();
            let prev = after_left.selected_path@.last();
            assert(c == 0 ==> prev == p.children@.len() - 1);
            assert(c != 0 ==> prev == c - 1);
            assert(before.selected_path@.drop_last().push(c) =~= before.selected_path@);
        }
    }
}

/// Going left right after going right returns to the item that was
/// selected, wherever that item is one of its parent's children.
pub proof fn law_left_undoes_right<T>(before: Selection<T>, after_right: Selection<T>)
    requires
        parent_node(before) matches Some(p) ==> before.selected_path@.last() < p.children@.len(),
        after_right.root == before.root,
        after_right.selected_path@ == right_path(before),
    ensures
        left_path(after_right) == before.selected_path@,
{
    if parent_node(before) is Some {
        let p = parent_node(before)->0;
        if p.children@.len() > 0 {
            assert(p.children.len() == p.children@.len());
            assert(after_right.selected_path@.drop_last() =~= before.selected_path@.drop_last());
            assert(parent_node(after_right) == parent_node(before));
            let c = before.selected_path@.last();
            let next = after_right.selected_path@.last();
            assert(c == p.children@.len() - 1 ==> next == 0);
            assert(c != p.children@.len() - 1 ==> next == c + 1);
            assert(before.selected_path@.drop_last().push(c) =~= before.selected_path@);
        }
    }
}

/// Moving left or right from one of a parent's children always lands on
/// one of its children.
pub proof fn law_sideways_lands_on_a_sibling<T>(s: Selection<T>)
    requires
        parent_node(s) matches Some(p) && s.selected_path@.last() < p.children@.len(),
    ensures
        node_at(s.root, left_path(s)) is Some,
        node_at(s.root, right_path(s)) is Some,
{
    let p = parent_node(s)->0;
    assert(p.children.len() == p.children@.len());
    let c = s.selected_path@.last();
    let prev = if c == 0 { (p.children@.len() - 1) as usize } else { (c - 1) as usize };
    let next = if c == p.children@.len() - 1 { 0usize } else { (c + 1) as usize };
    lemma_node_at_push(s.root, s.selected_path@.drop_last(), prev);
    lemma_node_at_push(s.root, s.selected_path@.drop_last(), next);
}

/// Going up changes no item of the menu: wherever a path led before, it
/// leads to a node with the same item after.
pub proof fn law_up_keeps_items<T>(
    a: SelectionItem<T>,
    b: SelectionItem<T>,
    p: Seq<usize>,
    v: usize,
    q: Seq<usize>,
)
    requires
        with_last_child(a, b, p, v),
    ensures
        node_at(b, q) is Some <==> node_at(a, q) is Some,
        item_of(node_at(b, q)) == item_of(node_at(a, q)),
    decreases q.len(),
{
    if q.len() > 0 {
        let k = q[0];
        assert(b.children@.len() == a.children@.len());
        if k < a.children@.len() {
            if p.len() > 0 && p[0] < a.children@.len() && p[0] == k {
                law_up_keeps_items(
                    a.children@[k as int],
                    b.children@[k as int],
                    p.drop_first(),
                    v,
                    q.drop_first(),
                );
            } else {
                assert(b.children@[k as int] == a.children@[k as int]);
            }
        }
    }
}

/// An item accepted at `q` means the search of `n` finds something.
proof fn lemma_first_path_complete<T>(n: SelectionItem<T>, acc: spec_fn(T) -> bool, q: Seq<usize>)
    requires
        item_of(node_at(n, q)) matches Some(y) && acc(y),
    ensures
        first_path(n, acc) is Some,
    decreases q.len(),
{
    if !(n.item matches Some(x) && acc(x)) {
        assert(q.len() > 0);
        let k = q[0];
        let child = n.children@[k as int];
        assert(item_of(node_at(child, q.drop_first())) == item_of(node_at(n, q)));
        lemma_first_path_complete(child, acc, q.drop_first());
        lemma_children_search_reaches(n.children@, 0, k as int, acc);
    }
}

/// A search of the children from `i` finds something when the child `k`,
/// at or after `i`, does.
proof fn lemma_children_search_reaches<T>(
    cs: Seq<SelectionItem<T>>,
    i: int,
    k: int,
    acc: spec_fn(T) -> bool,
)
    requires
        0 <= i <= k < cs.len(),
        first_path(cs[k], acc) is Some,
    ensures
        first_path_children(cs, i, acc) is Some,
    decreases k - i,
{
    if i < k && first_path(cs[i], acc) is None {
        lemma_children_search_reaches(cs, i + 1, k, acc);
    }
}

/// What the search finds leads to an accepted item.
proof fn lemma_first_path_sound<T>(n: SelectionItem<T>, acc: spec_fn(T) -> bool)
    requires
        first_path(n, acc) is Some,
    ensures
        item_of(node_at(n, first_path(n, acc)->0)) matches Some(z) && acc(z),
    decreases n, 0int,
{
    if n.item matches Some(x) && acc(x) {
    } else {
        assert(n.children.len() == n.children@.len());
        lemma_children_search_sound(n.children@, 0, acc);
        let r = first_path(n, acc)->0;
        let k = r[0];
        assert(node_at(n, r) == node_at(n.children@[k as int], r.drop_first()));
    }
}

/// What the search of the children from `i` finds goes into a child at
/// or after `i` and on along what the search of that child finds.
proof fn lemma_children_search_sound<T>(cs: Seq<SelectionItem<T>>, i: int, acc: spec_fn(T) -> bool)
    requires
        first_path_children(cs, i, acc) is Some,
        cs.len() <= usize::MAX,
    ensures
        ({
            let r = first_path_children(cs, i, acc)->0;
            &&& r.len() > 0
            &&& i <= r[0] < cs.len()
            &&& first_path(cs[r[0] as int], acc) == Some(r.drop_first())
            &&& item_of(node_at(cs[r[0] as int], r.drop_first())) matches Some(z) && acc(z)
        }),
    decreases cs, cs.len() - i,
{
    match first_path(cs[i], acc) {
        Some(q) => {
            let r = seq![i as usize] + q;
            assert(r.drop_first() =~= q);
            lemma_first_path_sound(cs[i], acc);
        },
        None => {
            lemma_children_search_sound(cs, i + 1, acc);
        },
    }
}

/// Selecting an item that is in the tree makes it the selected item: the
/// selection lands on the first item, in depth-first pre-order, that `==`
/// accepts, wherever some item does.
pub proof fn law_select_finds_present_item<T: PartialEq>(
    before: Selection<T>,
    after: Selection<T>,
    x: T,
    q: Seq<usize>,
)
    requires
        item_of(node_at(before.root, q)) matches Some(y) && y.eq_spec(&x),
        after.root == before.root,
        after.selected_path@ == match first_path(before.root, |v: T| v.eq_spec(&x)) {
            Some(r) => r,
            None => before.selected_path@,
        },
    ensures
        item_of(selected_node(after)) matches Some(z) && z.eq_spec(&x),
{
    let acc = |v: T| v.eq_spec(&x);
    lemma_first_path_complete(before.root, acc, q);
    lemma_first_path_sound(before.root, acc);
}

} // verus!
