use vstd::prelude::*;

verus! {

/// The two tabs of the board. A tab shows the items whose completion flag
/// matches it: `TODO` the open ones, `DONE` the completed ones.
#[derive(Clone, Copy, Debug, PartialEq, Eq, Structural)]
pub enum TabsState {
    TODO,
    DONE,
}

impl TabsState {
    /// Whether this tab is the one that shows completed items.
    pub open spec fn shows_completed(self) -> bool {
        self == TabsState::DONE
    }

    /// The other tab.
    pub open spec fn flipped(self) -> TabsState {
        match self {
            TabsState::TODO => TabsState::DONE,
            TabsState::DONE => TabsState::TODO,
        }
    }

    /// Position of the tab in the tab strip.
    pub open spec fn spec_index(self) -> usize {
        match self {
            TabsState::TODO => 0,
            TabsState::DONE => 1,
        }
    }

    /// Returns the other tab.
    pub fn flip(self) -> (other: TabsState)
        ensures
            other == self.flipped(),
    {
        match self {
            TabsState::TODO => TabsState::DONE,
            TabsState::DONE => TabsState::TODO,
        }
    }

    /// Position of the tab in the tab strip: 0 for `TODO`, 1 for `DONE`.
    #[verifier::when_used_as_spec(spec_index)]
    pub fn index(self) -> (i: usize)
        ensures
            i == self.spec_index(),
    {
        match self {
            TabsState::TODO => 0,
            TabsState::DONE => 1,
        }
    }
}

/// What an item is, as a mathematical value.
pub struct ItemView {
    pub text: Seq<char>,
    pub completed: bool,
}

/// One entry of the board.
#[derive(Debug, PartialEq, Eq)]
pub struct Item {
    pub text: String,
    pub completed: bool,
}

impl View for Item {
    type V = ItemView;

    open spec fn view(&self) -> ItemView {
        ItemView { text: self.text@, completed: self.completed }
    }
}

impl Clone for Item {
    fn clone(&self) -> (copy: Item)
        ensures
            copy@ == self@,
    {
        Item { text: self.text.clone(), completed: self.completed }
    }
}

impl Item {
    /// Whether the item appears under `tab`.
    pub open spec fn spec_shown_in(&self, tab: TabsState) -> bool {
        self.completed == tab.shows_completed()
    }

    /// Whether the item appears under `tab`.
    #[verifier::when_used_as_spec(spec_shown_in)]
    pub fn shown_in(&self, tab: TabsState) -> (shown: bool)
        ensures
            shown == self.spec_shown_in(tab),
    {
        match tab {
            TabsState::TODO => !self.completed,
            TabsState::DONE => self.completed,
        }
    }
}

/// The views of a sequence of items, in order.
pub open spec fn views(items: Seq<Item>) -> Seq<ItemView> {
    items.map_values(|item: Item| item@)
}

} // verus!
