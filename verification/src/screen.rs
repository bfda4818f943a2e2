use vstd::prelude::*;

verus! {

/// One line of the list, as a mathematical value.
pub struct RowView {
    pub text: Seq<char>,
    pub highlighted: bool,
}

/// One line of the list: an item's text, and whether the cursor is on it.
#[derive(Debug, PartialEq, Eq)]
pub struct Row {
    pub text: String,
    pub highlighted: bool,
}

impl View for Row {
    type V = RowView;

    open spec fn view(&self) -> RowView {
        RowView { text: self.text@, highlighted: self.highlighted }
    }
}

/// The box for a new item's text, as a mathematical value.
pub struct InputBoxView {
    pub text: Seq<char>,
    pub caret: usize,
}

/// The box for a new item's text: what has been typed, and the column of
/// the caret within it.
#[derive(Debug, PartialEq, Eq)]
pub struct InputBox {
    pub text: String,
    pub caret: usize,
}

impl View for InputBox {
    type V = InputBoxView;

    open spec fn view(&self) -> InputBoxView {
        InputBoxView { text: self.text@, caret: self.caret }
    }
}

/// One frame, as a mathematical value.
pub struct ScreenView {
    pub active_tab: usize,
    pub rows: Seq<RowView>,
    pub input: Option<InputBoxView>,
}

/// One frame: which tab of the strip is active, the lines of the list, and
/// the input box if a new item is being typed.
#[derive(Debug, PartialEq, Eq)]
pub struct Screen {
    pub active_tab: usize,
    pub rows: Vec<Row>,
    pub input: Option<InputBox>,
}

impl View for Screen {
    type V = ScreenView;

    open spec fn view(&self) -> ScreenView {
        ScreenView {
            active_tab: self.active_tab,
            rows: self.rows@.map_values(|row: Row| row@),
            input: match self.input {
                Some(input) => Some(input@),
                None => None,
            },
        }
    }
}

/// The titles of the tab strip, in the order of the tabs' indices.
pub fn tab_titles() -> (titles: [&'static str; 2])
    ensures
        titles[0]@ == "TODO"@,
        titles[1]@ == "DONE"@,
{
    ["TODO", "DONE"]
}

} // verus!
