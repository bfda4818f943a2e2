use vstd::prelude::*;
use crate::item::{views, Item, ItemView, TabsState};

verus! {

/// How many of `items` appear under `tab`.
pub open spec fn shown_count(items: Seq<ItemView>, tab: TabsState) -> nat
    decreases items.len(),
{
    if items.len() == 0 {
        0
    } else {
        let before = shown_count(items.drop_last(), tab);
        if items.last().completed == tab.shows_completed() {
            before + 1
        } else {
            before
        }
    }
}

/// The store indices of the items that appear under `tab`, in store order.
pub open spec fn projection(items: Seq<ItemView>, tab: TabsState) -> Seq<int>
    decreases items.len(),
{
    if items.len() == 0 {
        Seq::empty()
    } else {
        let before = projection(items.drop_last(), tab);
        if items.last().completed == tab.shows_completed() {
            before.push(items.len() - 1)
        } else {
            before
        }
    }
}

/// The items that appear under `tab`, in store order.
pub open spec fn shown(items: Seq<ItemView>, tab: TabsState) -> Seq<ItemView> {
    projection(items, tab).map_values(|i: int| items[i])
}

/// The rows of one tab: for each row, the store index of the item on it.
#[derive(Debug, PartialEq, Eq)]
pub struct FilteredView {
    pub rows: Vec<usize>,
}

impl View for FilteredView {
    type V = Seq<int>;

    open spec fn view(&self) -> Seq<int> {
        self.rows@.map_values(|i: usize| i as int)
    }
}

impl FilteredView {
    pub open spec fn spec_len(&self) -> usize {
        self.rows.len()
    }

    /// Number of rows.
    #[verifier::when_used_as_spec(spec_len)]
    pub fn len(&self) -> (n: usize)
        ensures
            n == self@.len(),
            n == self.spec_len(),
    {
        self.rows.len()
    }

    /// The store index of the item on row `local`, rows counted from zero.
    pub fn resolve(&self, local: usize) -> (index: usize)
        requires
            local < self@.len(),
        ensures
            index == self@[local as int],
    {
        self.rows[local]
    }
}

/// Every entry of a projection is the index of an item that appears under the
/// tab, the entries increase strictly, there are as many as `shown_count`
/// says, and no index of such an item is missing.
pub proof fn lemma_projection(items: Seq<ItemView>, tab: TabsState)
    ensures
        projection(items, tab).len() == shown_count(items, tab),
        projection(items, tab).len() <= items.len(),
        forall|k: int|
            0 <= k < projection(items, tab).len() ==> {
                let i = #[trigger] projection(items, tab)[k];
                0 <= i < items.len() && items[i].completed == tab.shows_completed()
            },
        forall|j: int, k: int|
            0 <= j < k < projection(items, tab).len() ==> #[trigger] projection(items, tab)[j]
                < #[trigger] projection(items, tab)[k],
        forall|i: int|
            0 <= i < items.len() && #[trigger] items[i].completed == tab.shows_completed()
                ==> projection(items, tab).contains(i),
    decreases items.len(),
{
    if items.len() > 0 {
        let init = items.drop_last();
        let before = projection(init, tab);
        let all = projection(items, tab);
        lemma_projection(init, tab);
        assert forall|i: int|
            0 <= i < items.len() && #[trigger] items[i].completed
                == tab.shows_completed() implies all.contains(i) by {
            if i < init.len() {
                assert(init[i] == items[i]);
                let k = choose|k: int| 0 <= k < before.len() && before[k] == i;
                assert(all[k] == i);
            } else {
                assert(all[all.len() - 1] == i);
            }
        }
    }
}

/// How `shown` grows with the store: the last item is appended to what the
/// earlier items show if it appears under the tab, and left out otherwise.
pub proof fn lemma_shown_unfold(items: Seq<ItemView>, tab: TabsState)
    requires
        items.len() > 0,
    ensures
        shown(items, tab) == if items.last().completed == tab.shows_completed() {
            shown(items.drop_last(), tab).push(items.last())
        } else {
            shown(items.drop_last(), tab)
        },
{
    let init = items.drop_last();
    lemma_projection(init, tab);
    let before = projection(init, tab);
    assert forall|k: int| 0 <= k < before.len() implies items[#[trigger] before[k]]
        == init[before[k]] by {}
    if items.last().completed == tab.shows_completed() {
        assert(shown(items, tab) =~= shown(init, tab).push(items.last()));
    } else {
        assert(shown(items, tab) =~= shown(init, tab));
    }
}

/// The items with the completion flag of item `i` flipped. Where there is
/// no item `i`, they are the items as they are.
pub open spec fn toggled(items: Seq<ItemView>, i: int) -> Seq<ItemView> {
    if 0 <= i < items.len() {
        items.update(i, ItemView { completed: !items[i].completed, ..items[i] })
    } else {
        items
    }
}

/// Flipping an item twice gives back the items as they were.
pub proof fn lemma_toggle_twice(items: Seq<ItemView>, i: int)
    requires
        0 <= i < items.len(),
    ensures
        toggled(toggled(items, i), i) == items,
{
    assert(toggled(toggled(items, i), i) =~= items);
}

/// Flipping an item moves it from one tab to the other: the tab that showed
/// it shows one item less, the other tab one more.
pub proof fn lemma_toggle_count(items: Seq<ItemView>, i: int, tab: TabsState)
    requires
        0 <= i < items.len(),
    ensures
        shown_count(toggled(items, i), tab) == if items[i].completed == tab.shows_completed() {
            shown_count(items, tab) - 1
        } else {
            shown_count(items, tab) + 1int
        },
    decreases items.len(),
{
    let after = toggled(items, i);
    if i == items.len() - 1 {
        assert(after.drop_last() == items.drop_last());
    } else {
        lemma_toggle_count(items.drop_last(), i, tab);
        assert(after.drop_last() == toggled(items.drop_last(), i));
    }
}

/// Computes the rows of `tab` over `items`.
pub fn project(items: &Vec<Item>, tab: TabsState) -> (view: FilteredView)
    ensures
        view@ == projection(views(items@), tab),
{
    let mut rows: Vec<usize> = Vec::new();
    let mut i: usize = 0;
    while i < items.len()
        invariant
            i <= items.len(),
            rows@.map_values(|r: usize| r as int) == projection(
                views(items@).take(i as int),
                tab,
            ),
        decreases items.len() - i,
    {
        assert(views(items@).take(i + 1).drop_last() == views(items@).take(i as int));
        if items[i].shown_in(tab) {
            rows.push(i);
        }
        i = i + 1;
    }
    assert(views(items@).take(i as int) == views(items@));
    FilteredView { rows }
}

/// The items of `todos` that appear under `current_tab`, in store order.
pub fn handle_todos(todos: Vec<Item>, current_tab: &TabsState) -> (filter_todo: Vec<Item>)
    ensures
        views(filter_todo@) == shown(views(todos@), *current_tab),
{
    let ghost all = views(todos@);
    let mut filter_todo: Vec<Item> = Vec::new();
    for todo in it: todos
        invariant
            views(it.seq()) == all,
            views(filter_todo@) == shown(all.take(it.index() as int), *current_tab),
    {
        proof {
            assert(all.take(it.index() + 1).drop_last() == all.take(it.index() as int));
            lemma_shown_unfold(all.take(it.index() + 1), *current_tab);
        }
        if todo.shown_in(*current_tab) {
            filter_todo.push(todo);
        }
    }
    assert(all.take(all.len() as int) == all);
    filter_todo
}

} // verus!
