use vstd::prelude::*;
use vstd::string::StringExecFns;
use crate::item::{views, Item, ItemView};

verus! {

/// The token that stands before the colon for an item with the given
/// completion flag: `DONE` for a completed item, `TODO` for an open one.
pub open spec fn state_token(completed: bool) -> Seq<char> {
    if completed {
        seq!['D', 'O', 'N', 'E']
    } else {
        seq!['T', 'O', 'D', 'O']
    }
}

/// The line that stands for an item: its state token, a colon, its text.
pub open spec fn line_of(item: ItemView) -> Seq<char> {
    state_token(item.completed) + seq![':'] + item.text
}

/// What is written for a sequence of items: the line of each, in order,
/// each followed by a newline.
pub open spec fn saved(items: Seq<ItemView>) -> Seq<char>
    decreases items.len(),
{
    if items.len() == 0 {
        Seq::empty()
    } else {
        saved(items.drop_last()) + line_of(items.last()) + seq!['\n']
    }
}

/// The pieces of `s` between its newlines. There is always one piece more
/// than there are newlines; what follows the last newline is the last piece.
pub open spec fn lines(s: Seq<char>) -> Seq<Seq<char>>
    decreases s.len(),
{
    if s.len() == 0 {
        seq![Seq::empty()]
    } else {
        let before = lines(s.drop_last());
        if s.last() == '\n' {
            before.push(Seq::empty())
        } else {
            before.drop_last().push(before.last().push(s.last()))
        }
    }
}

/// Index of the first colon of `line`, or its length if it has none.
pub open spec fn first_colon(line: Seq<char>) -> int
    decreases line.len(),
{
    if line.len() == 0 {
        0
    } else if line.first() == ':' {
        0
    } else {
        1 + first_colon(line.drop_first())
    }
}

/// What one line of a stored file means.
pub enum Entry {
    /// The line holds no item: it has no colon, or nothing stands before
    /// its first colon, or nothing after it.
    Skipped,
    /// The line holds this item.
    Holds(ItemView),
    /// The line has both parts, but the first is neither `TODO` nor `DONE`.
    Corrupt,
}

/// The meaning of one line. The line is cut at its first colon only, so the
/// text may itself hold colons.
pub open spec fn entry(line: Seq<char>) -> Entry {
    let k = first_colon(line);
    let state = line.take(k);
    let text = line.skip(k + 1);
    if k >= line.len() || state.len() == 0 || text.len() == 0 {
        Entry::Skipped
    } else if state == state_token(false) {
        Entry::Holds(ItemView { text, completed: false })
    } else if state == state_token(true) {
        Entry::Holds(ItemView { text, completed: true })
    } else {
        Entry::Corrupt
    }
}

/// The items that a sequence of lines holds, in order.
pub open spec fn items_of(ls: Seq<Seq<char>>) -> Seq<ItemView>
    decreases ls.len(),
{
    if ls.len() == 0 {
        Seq::empty()
    } else {
        let before = items_of(ls.drop_last());
        match entry(ls.last()) {
            Entry::Holds(item) => before.push(item),
            _ => before,
        }
    }
}

/// Some line is corrupt.
pub open spec fn corrupt(ls: Seq<Seq<char>>) -> bool {
    exists|i: int| 0 <= i < ls.len() && #[trigger] entry(ls[i]) is Corrupt
}

/// What loading `s` gives: the items of its lines, or nothing if a line is
/// corrupt.
pub open spec fn loaded(s: Seq<char>) -> Option<Seq<ItemView>> {
    if corrupt(lines(s)) {
        None
    } else {
        Some(items_of(lines(s)))
    }
}

/// Why a file could not be loaded.
#[derive(Clone, Copy, Debug, PartialEq, Eq, Structural)]
pub enum ParseError {
    /// A line has a state that is neither `TODO` nor `DONE`.
    UnknownState,
}

impl ParseError {
    /// The error in words.
    pub fn message(&self) -> (text: &'static str)
        ensures
            text@ == "Only accepts DONE or TODO state"@,
    {
        "Only accepts DONE or TODO state"
    }
}

/// Reads one line. A line without a colon, or with nothing on one side of
/// its first colon, holds no item and is passed over. Otherwise the part
/// before the first colon must be `TODO` or `DONE`, and the rest of the
/// line is the item's text.
pub fn parse_line(line: &str) -> (r: Result<Option<Item>, ParseError>)
    ensures
        match entry(line@) {
            Entry::Skipped => r == Ok::<Option<Item>, ParseError>(None),
            Entry::Holds(item) => r matches Ok(Some(found)) && found@ == item,
            Entry::Corrupt => r is Err,
        },
{
    let mut state = String::new();
    let mut text = String::new();
    let mut seen = false;
    let ghost mut colon: int = 0;
    for c in it: line.chars()
        invariant
            it.seq() == line@,
            !seen ==> state@ == line@.take(it.index() as int) && text@.len() == 0,
            !seen ==> forall|j: int| 0 <= j < it.index() ==> line@[j] != ':',
            seen ==> 0 <= colon < it.index() && line@[colon] == ':',
            seen ==> forall|j: int| 0 <= j < colon ==> line@[j] != ':',
            seen ==> state@ == line@.take(colon),
            seen ==> text@ == line@.subrange(colon + 1, it.index() as int),
    {
        let ghost i = it.index() as int;
        if seen {
            text.push(c);
            assert(text@ == line@.subrange(colon + 1, i + 1));
        } else if c == ':' {
            seen = true;
            proof {
                colon = i;
            }
            assert(text@ == line@.subrange(colon + 1, i + 1));
        } else {
            state.push(c);
            assert(state@ == line@.take(i + 1));
        }
    }
    proof {
        let k = if seen { colon } else { line@.len() as int };
        lemma_first_colon_is(line@, k);
        assert(seen ==> text@ == line@.skip(k + 1));
        assert(!seen ==> line@.take(k) == line@);
    }
    if !seen || state.as_str().is_empty() || text.as_str().is_empty() {
        return Ok(None);
    }
    let open = "TODO".to_owned();
    let done = "DONE".to_owned();
    proof {
        reveal_strlit("TODO");
        reveal_strlit("DONE");
        assert(open@ == state_token(false));
        assert(done@ == state_token(true));
    }
    if state == open {
        Ok(Some(Item { text, completed: false }))
    } else if state == done {
        Ok(Some(Item { text, completed: true }))
    } else {
        Err(ParseError::UnknownState)
    }
}

/// Reads a stored file: one item for each line that holds one, in order.
/// Fails if, and only if, some line is corrupt.
pub fn load(contents: &str) -> (r: Result<Vec<Item>, ParseError>)
    ensures
        match r {
            Ok(items) => loaded(contents@) == Some(views(items@)),
            Err(_) => loaded(contents@) is None,
        },
{
    let mut items: Vec<Item> = Vec::new();
    let mut line = String::new();
    for c in it: contents.chars()
        invariant
            it.seq() == contents@,
            line@ == lines(contents@.take(it.index() as int)).last(),
            views(items@) == items_of(lines(contents@.take(it.index() as int)).drop_last()),
            !corrupt(lines(contents@.take(it.index() as int)).drop_last()),
    {
        let ghost before = lines(contents@.take(it.index() as int));
        assert(contents@.take(it.index() + 1).drop_last() == contents@.take(it.index() as int));
        assert(before.len() > 0) by {
            lemma_lines_len(contents@.take(it.index() as int));
        }
        if c == '\n' {
            let found = parse_line(line.as_str());
            assert(before.push(Seq::empty()).drop_last() == before);
            assert(before.drop_last().push(before.last()) == before);
            match found {
                Ok(Some(item)) => {
                    items.push(item);
                    assert(views(items@) == items_of(before)) by {
                        assert(views(items@) =~= items_of(before.drop_last()).push(item@));
                    }
                },
                Ok(None) => {},
                Err(e) => {
                    proof {
                        lemma_corrupt_prefix(
                            contents@,
                            it.index() + 1,
                            before.len() - 1,
                        );
                    }
                    return Err(e);
                },
            }
            assert(!corrupt(before)) by {
                lemma_corrupt_push(before.drop_last(), before.last());
            }
            line = String::new();
        } else {
            line.push(c);
            assert(before.drop_last().push(before.last().push(c)).drop_last()
                == before.drop_last());
        }
    }
    let ghost all = lines(contents@);
    assert(contents@.take(contents@.len() as int) == contents@);
    assert(all.len() > 0) by {
        lemma_lines_len(contents@);
    }
    assert(all.drop_last().push(all.last()) == all);
    proof {
        lemma_corrupt_push(all.drop_last(), all.last());
    }
    match parse_line(line.as_str()) {
        Ok(Some(item)) => {
            items.push(item);
            assert(views(items@) =~= items_of(all.drop_last()).push(item@));
            Ok(items)
        },
        Ok(None) => Ok(items),
        Err(e) => Err(e),
    }
}

/// Writes the items out: for each, in order, its state, a colon, its text
/// and a newline.
pub fn save(items: &Vec<Item>) -> (out: String)
    ensures
        out@ == saved(views(items@)),
{
    let mut out = String::new();
    let mut i: usize = 0;
    while i < items.len()
        invariant
            i <= items.len(),
            out@ == saved(views(items@).take(i as int)),
        decreases items.len() - i,
    {
        let ghost before = out@;
        assert(views(items@).take(i + 1).drop_last() == views(items@).take(i as int));
        proof {
            reveal_strlit("TODO");
            reveal_strlit("DONE");
        }
        if items[i].completed {
            out.append("DONE");
            assert("DONE"@ == state_token(true));
        } else {
            out.append("TODO");
            assert("TODO"@ == state_token(false));
        }
        out.push(':');
        out.append(items[i].text.as_str());
        out.push('\n');
        assert(out@ == before + line_of(items@[i as int]@) + seq!['\n']);
        i = i + 1;
    }
    assert(views(items@).take(i as int) == views(items@));
    out
}

/// A text has at least one line.
pub proof fn lemma_lines_len(s: Seq<char>)
    ensures
        lines(s).len() > 0,
    decreases s.len(),
{
    if s.len() > 0 {
        lemma_lines_len(s.drop_last());
    }
}

/// Lines with one more at the end are corrupt if the earlier ones are, or
/// the new one is.
pub proof fn lemma_corrupt_push(ls: Seq<Seq<char>>, line: Seq<char>)
    ensures
        corrupt(ls.push(line)) <==> corrupt(ls) || entry(line) is Corrupt,
{
    let all = ls.push(line);
    if corrupt(ls) {
        let i = choose|i: int| 0 <= i < ls.len() && #[trigger] entry(ls[i]) is Corrupt;
        assert(all[i] == ls[i]);
    }
    if entry(line) is Corrupt {
        assert(all[ls.len() as int] == line);
    }
    if corrupt(all) {
        let i = choose|i: int| 0 <= i < all.len() && #[trigger] entry(all[i]) is Corrupt;
        if i < ls.len() {
            assert(all[i] == ls[i]);
        }
    }
}

/// A line that a newline has closed stays as it is, whatever follows: if
/// line `k` of the first `n` characters is closed and corrupt, the whole
/// text is corrupt.
pub proof fn lemma_corrupt_prefix(s: Seq<char>, n: int, k: int)
    requires
        0 <= n <= s.len(),
        0 <= k < lines(s.take(n)).len() - 1,
        entry(lines(s.take(n))[k]) is Corrupt,
    ensures
        corrupt(lines(s)),
    decreases s.len() - n,
{
    if n == s.len() {
        assert(s.take(n) == s);
    } else {
        let here = lines(s.take(n));
        let next = lines(s.take(n + 1));
        assert(s.take(n + 1).drop_last() == s.take(n));
        assert(next[k] == here[k]);
        lemma_corrupt_prefix(s, n + 1, k);
    }
}

/// A text that can be stored and read back: it is not empty and holds no
/// newline.
pub open spec fn storable(text: Seq<char>) -> bool {
    text.len() > 0 && forall|j: int| 0 <= j < text.len() ==> text[j] != '\n'
}

/// Appending characters other than newlines extends the last line.
proof fn lemma_lines_extend(a: Seq<char>, b: Seq<char>)
    requires
        forall|j: int| 0 <= j < b.len() ==> b[j] != '\n',
    ensures
        lines(a + b) == lines(a).drop_last().push(lines(a).last() + b),
    decreases b.len(),
{
    lemma_lines_len(a);
    if b.len() == 0 {
        assert(a + b == a);
        assert(lines(a).last() + b == lines(a).last());
        assert(lines(a).drop_last().push(lines(a).last()) == lines(a));
    } else {
        let init = b.drop_last();
        lemma_lines_extend(a, init);
        assert((a + b).drop_last() == a + init);
        let grown = lines(a).drop_last().push(lines(a).last() + init);
        assert(grown.drop_last() == lines(a).drop_last());
        assert((lines(a).last() + init).push(b.last()) == lines(a).last() + b);
    }
}

/// The line of a storable item reads back as that item.
proof fn lemma_entry_of_line(item: ItemView)
    requires
        item.text.len() > 0,
    ensures
        entry(line_of(item)) == Entry::Holds(item),
{
    let line = line_of(item);
    lemma_first_colon_is(line, 4);
    assert(line.take(4) == state_token(item.completed));
    assert(line.skip(5) == item.text);
    assert(state_token(true)[0] != state_token(false)[0]);
}

/// What is written for storable items consists of their lines, and an
/// empty piece after the last newline.
proof fn lemma_lines_of_saved(items: Seq<ItemView>)
    requires
        forall|i: int| 0 <= i < items.len() ==> storable(#[trigger] items[i].text),
    ensures
        lines(saved(items)) == items.map_values(|item: ItemView| line_of(item)).push(
            Seq::empty(),
        ),
    decreases items.len(),
{
    let written = items.map_values(|item: ItemView| line_of(item));
    if items.len() == 0 {
        assert(lines(saved(items)) == written.push(Seq::empty()));
    } else {
        let init = items.drop_last();
        let line = line_of(items.last());
        assert forall|i: int| 0 <= i < init.len() implies storable(#[trigger] init[i].text) by {
            assert(init[i] == items[i]);
        }
        lemma_lines_of_saved(init);
        assert(storable(items.last().text));
        lemma_lines_extend(saved(init), line);
        let earlier = init.map_values(|item: ItemView| line_of(item));
        assert(earlier.push(Seq::empty()).drop_last() == earlier);
        assert(Seq::<char>::empty() + line == line);
        assert((saved(init) + line + seq!['\n']).drop_last() == saved(init) + line);
        assert(earlier.push(line) == written);
    }
}

/// The lines of storable items hold exactly those items, and none of them
/// is corrupt.
proof fn lemma_items_of_written(items: Seq<ItemView>)
    requires
        forall|i: int| 0 <= i < items.len() ==> storable(#[trigger] items[i].text),
    ensures
        items_of(items.map_values(|item: ItemView| line_of(item))) == items,
        !corrupt(items.map_values(|item: ItemView| line_of(item))),
    decreases items.len(),
{
    let written = items.map_values(|item: ItemView| line_of(item));
    if items.len() > 0 {
        let init = items.drop_last();
        assert forall|i: int| 0 <= i < init.len() implies storable(#[trigger] init[i].text) by {
            assert(init[i] == items[i]);
        }
        lemma_items_of_written(init);
        assert(storable(items.last().text));
        lemma_entry_of_line(items.last());
        assert(written.drop_last() == init.map_values(|item: ItemView| line_of(item)));
        assert(init.push(items.last()) == items);
        lemma_corrupt_push(written.drop_last(), written.last());
        assert(written.drop_last().push(written.last()) == written);
    } else {
        assert(items_of(written) == items);
    }
}

/// Items whose texts are storable come back from what was written for
/// them: the same texts and flags, in the same order. Colons in a text do
/// no harm.
pub proof fn lemma_load_of_saved(items: Seq<ItemView>)
    requires
        forall|i: int| 0 <= i < items.len() ==> storable(#[trigger] items[i].text),
    ensures
        loaded(saved(items)) == Some(items),
{
    let written = items.map_values(|item: ItemView| line_of(item));
    lemma_lines_of_saved(items);
    lemma_items_of_written(items);
    lemma_corrupt_push(written, Seq::empty());
    assert(first_colon(Seq::<char>::empty()) == 0);
    assert(written.push(Seq::empty()).drop_last() == written);
}

/// The first colon of a line is where a colon stands with none before it.
pub proof fn lemma_first_colon(line: Seq<char>)
    ensures
        0 <= first_colon(line) <= line.len(),
        forall|j: int| 0 <= j < first_colon(line) ==> line[j] != ':',
        first_colon(line) < line.len() ==> line[first_colon(line)] == ':',
    decreases line.len(),
{
    if line.len() > 0 && line.first() != ':' {
        let rest = line.drop_first();
        lemma_first_colon(rest);
        assert forall|j: int| 0 <= j < first_colon(line) implies line[j] != ':' by {
            if j > 0 {
                assert(line[j] == rest[j - 1]);
            }
        }
        assert(first_colon(rest) < rest.len() ==> rest[first_colon(rest)] == line[first_colon(
            line,
        )]);
    }
}

/// A position with no colon before it, which holds a colon or is the end of
/// the line, is the first colon.
pub proof fn lemma_first_colon_is(line: Seq<char>, k: int)
    requires
        0 <= k <= line.len(),
        forall|j: int| 0 <= j < k ==> line[j] != ':',
        k < line.len() ==> line[k] == ':',
    ensures
        first_colon(line) == k,
{
    lemma_first_colon(line);
}

} // verus!
