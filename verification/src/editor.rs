use vstd::prelude::*;
use crate::item::{Item, ItemView};
use crate::position::Position;

verus! {

/// `String::push` appends the given character to the end of the string.
pub assume_specification[ String::push ](s: &mut String, ch: char)
    ensures
        final(s)@ == old(s)@.push(ch),
;

/// `String::pop` removes the last character of the string and returns it,
/// or returns `None` and leaves the string alone if it is empty.
pub assume_specification[ String::pop ](s: &mut String) -> (ch: Option<char>)
    ensures
        old(s)@.len() == 0 ==> ch is None && final(s)@ == old(s)@,
        old(s)@.len() > 0 ==> ch == Some(old(s)@.last()) && final(s)@ == old(s)@.drop_last(),
;

/// The text of the item being typed. Edits happen at the tail only:
/// a character is appended, or the last one is removed.
#[derive(Debug)]
pub struct Editor {
    buffer: String,
}

impl View for Editor {
    type V = Seq<char>;

    closed spec fn view(&self) -> Seq<char> {
        self.buffer@
    }
}

impl Editor {
    /// An editor with nothing typed.
    pub fn new() -> (editor: Editor)
        ensures
            editor@ == Seq::<char>::empty(),
    {
        Editor { buffer: String::new() }
    }

    /// What has been typed so far.
    pub fn text(&self) -> (text: &str)
        ensures
            text@ == self@,
    {
        self.buffer.as_str()
    }

    /// Appends `c` and moves the cursor one column right.
    pub fn insert_char(&mut self, cursor: &mut Position, c: char)
        requires
            old(cursor).x < usize::MAX,
        ensures
            final(self)@ == old(self)@.push(c),
            *final(cursor) == old(cursor).moved_right(),
    {
        self.buffer.push(c);
        cursor.right();
    }

    /// Removes the last character and moves the cursor one column left, the
    /// column stopping at zero. With nothing typed, nothing changes.
    pub fn backspace(&mut self, cursor: &mut Position)
        ensures
            old(self)@.len() == 0 ==> final(self)@ == old(self)@ && *final(cursor) == *old(cursor),
            old(self)@.len() > 0 ==> final(self)@ == old(self)@.drop_last() && *final(cursor)
                == old(cursor).moved_left(),
    {
        let removed = self.buffer.pop();
        if removed.is_some() {
            cursor.left();
        }
    }

    /// Turns what has been typed into a new, open item and empties the
    /// buffer. An empty buffer gives an item with empty text.
    pub fn commit(&mut self) -> (item: Item)
        ensures
            item@ == (ItemView { text: old(self)@, completed: false }),
            final(self)@ == Seq::<char>::empty(),
    {
        let mut text = String::new();
        std::mem::swap(&mut self.buffer, &mut text);
        Item { text, completed: false }
    }

    /// Empties the buffer.
    pub fn cancel(&mut self)
        ensures
            final(self)@ == Seq::<char>::empty(),
    {
        self.buffer = String::new();
    }
}

} // verus!
