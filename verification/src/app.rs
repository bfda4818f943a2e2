use vstd::prelude::*;
use crate::editor::Editor;
use crate::filter::{
    lemma_projection, lemma_shown_unfold, lemma_toggle_count, project, projection, shown,
    shown_count, toggled,
};
use crate::item::{views, Item, ItemView, TabsState};
use crate::keys::{is_printable, printable, KeyCode, KeyEvent, KeyEventKind};
use crate::position::{Position, FIRST_ROW};
use crate::screen::{InputBox, InputBoxView, Row, RowView, Screen, ScreenView};

verus! {

/// What key presses mean at the moment.
#[derive(Clone, Copy, Debug, PartialEq, Eq, Structural)]
pub enum Mode {
    /// Keys move the cursor and act on the list.
    Navigating,
    /// Keys edit the text of a new item.
    Inserting,
}

/// The state of the board as a mathematical value.
pub struct AppView {
    pub todos: Seq<ItemView>,
    pub current_tab: TabsState,
    pub position: Position,
    pub mode: Mode,
    /// The text typed so far for a new item.
    pub todo: Seq<char>,
}

impl AppView {
    /// The bound that the cursor has under `tab`: one row past the rows
    /// that the tab shows.
    pub open spec fn bound(todos: Seq<ItemView>, tab: TabsState) -> nat {
        shown_count(todos, tab) + 1
    }

    /// The cursor sent home: column zero of the first row, its bound as it
    /// was.
    pub open spec fn home(position: Position) -> Position {
        Position { x: 0, y: FIRST_ROW, ..position }
    }

    /// What holds of every state of the board: the cursor's row lies
    /// between the first row and the bound of the current tab, and
    ///  - while navigating, the buffer is empty and the column is zero;
    ///  - while inserting, the column is the length of what was typed and
    ///    the cursor is on the first row.
    /// The bound that the cursor carries is not part of this: keys that
    /// change the rows leave it as it was, and the next tick renews it.
    pub open spec fn wf(self) -> bool {
        &&& FIRST_ROW <= self.position.y <= Self::bound(self.todos, self.current_tab)
        &&& match self.mode {
            Mode::Navigating => self.position.x == 0 && self.todo.len() == 0,
            Mode::Inserting => self.position.x == self.todo.len() && self.position.y == FIRST_ROW,
        }
    }

    /// The bound that the cursor carries is the bound of the current tab.
    /// This holds at the start of a tick, once the bound has been renewed.
    pub open spec fn bound_is_current(self) -> bool {
        self.position.max_y == Self::bound(self.todos, self.current_tab)
    }

    /// There is room for one more character.
    pub open spec fn has_room(self) -> bool {
        self.position.x < usize::MAX
    }

    /// The board with the cursor's bound renewed. Nothing else changes.
    pub open spec fn rebounded(self) -> AppView {
        AppView {
            position: Position {
                max_y: Self::bound(self.todos, self.current_tab) as usize,
                ..self.position
            },
            ..self
        }
    }

    /// The store index of the item under the cursor, if the cursor is on a
    /// row of the current tab.
    pub open spec fn selected(self) -> Option<int> {
        let rows = projection(self.todos, self.current_tab);
        if FIRST_ROW <= self.position.y <= rows.len() {
            Some(rows[self.position.y - 1])
        } else {
            None
        }
    }

    /// The board after the press of `code` while navigating.
    pub open spec fn navigated(self, code: KeyCode) -> AppView {
        match code {
            KeyCode::Tab => AppView {
                current_tab: self.current_tab.flipped(),
                position: Self::home(self.position),
                ..self
            },
            KeyCode::Up => AppView { position: self.position.moved_up(), ..self },
            KeyCode::Down => AppView { position: self.position.moved_down(), ..self },
            KeyCode::Char('i') => AppView {
                mode: Mode::Inserting,
                position: Self::home(self.position),
                todo: Seq::empty(),
                ..self
            },
            KeyCode::Enter => match self.selected() {
                Some(i) => AppView { todos: toggled(self.todos, i), ..self },
                None => self,
            },
            _ => self,
        }
    }

    /// Whether `c`, typed while inserting, goes into the text: it must be
    /// printable, and it must not be `q`.
    pub open spec fn accepts(c: char) -> bool {
        c != 'q' && printable(c)
    }

    /// The board after the press of `code` while inserting.
    pub open spec fn typed(self, code: KeyCode) -> AppView {
        match code {
            KeyCode::Char(c) => if Self::accepts(c) {
                AppView { todo: self.todo.push(c), position: self.position.moved_right(), ..self }
            } else {
                self
            },
            KeyCode::Backspace => if self.todo.len() > 0 {
                AppView {
                    todo: self.todo.drop_last(),
                    position: self.position.moved_left(),
                    ..self
                }
            } else {
                self
            },
            KeyCode::Enter => AppView {
                todos: self.todos.push(ItemView { text: self.todo, completed: false }),
                mode: Mode::Navigating,
                position: Self::home(self.position),
                todo: Seq::empty(),
                ..self
            },
            KeyCode::Esc => AppView {
                mode: Mode::Navigating,
                position: Self::home(self.position),
                todo: Seq::empty(),
                ..self
            },
            _ => self,
        }
    }

    /// The board after `key`. Only a press changes anything, and what it
    /// changes depends on the mode.
    pub open spec fn after(self, key: KeyEvent) -> AppView {
        if key.kind != KeyEventKind::Press {
            self
        } else {
            match self.mode {
                Mode::Navigating => self.navigated(key.code),
                Mode::Inserting => self.typed(key.code),
            }
        }
    }

    /// Whether `key` asks to quit: only the press of `q` while navigating
    /// does.
    pub open spec fn quits(self, key: KeyEvent) -> bool {
        key.kind == KeyEventKind::Press && self.mode == Mode::Navigating && key.code
            == KeyCode::Char('q')
    }

    /// The frame that shows the board: the current tab is the active one of
    /// the strip; the list holds the items of the current tab in store
    /// order, the one under the cursor highlighted unless a new item is
    /// being typed; and while one is, the input box holds what was typed,
    /// with the caret in the cursor's column.
    pub open spec fn screen(self) -> ScreenView {
        let items = shown(self.todos, self.current_tab);
        ScreenView {
            active_tab: self.current_tab.index(),
            rows: Seq::new(
                items.len(),
                |k: int|
                    RowView {
                        text: items[k].text,
                        highlighted: self.mode == Mode::Navigating && k + 1 == self.position.y,
                    },
            ),
            input: if self.mode == Mode::Inserting {
                Some(InputBoxView { text: self.todo, caret: self.position.x })
            } else {
                None
            },
        }
    }

    /// Every key leaves a well-formed board well-formed, if the cursor's
    /// bound is current while navigating and there is room for a character
    /// while inserting.
    pub proof fn lemma_after_keeps_wf(self, key: KeyEvent)
        requires
            self.wf(),
            self.mode == Mode::Navigating ==> self.bound_is_current(),
            self.mode == Mode::Inserting ==> self.has_room(),
        ensures
            self.after(key).wf(),
    {
        if key.kind == KeyEventKind::Press && self.mode == Mode::Navigating && key.code
            == KeyCode::Enter {
            if let Some(i) = self.selected() {
                lemma_projection(self.todos, self.current_tab);
                lemma_toggle_count(self.todos, i, self.current_tab);
            }
        }
    }

    /// Renewing the bound keeps a well-formed board well-formed, makes the
    /// bound current, and leaves the cursor between the first row and its
    /// bound.
    pub proof fn lemma_rebounded(self)
        requires
            self.wf(),
            self.todos.len() < usize::MAX,
        ensures
            self.rebounded().wf(),
            self.rebounded().bound_is_current(),
            self.rebounded().position.in_bounds(),
    {
        lemma_projection(self.todos, self.current_tab);
    }

    /// No key changes the bound that the cursor carries.
    pub proof fn lemma_keys_keep_bound(self, key: KeyEvent)
        ensures
            self.after(key).position.max_y == self.position.max_y,
    {
    }

    /// A key that asks to quit changes nothing, and no key typed while
    /// inserting asks to quit.
    pub proof fn lemma_quit(self, key: KeyEvent)
        ensures
            self.quits(key) ==> self.after(key) == self,
            self.mode == Mode::Inserting ==> !self.quits(key),
    {
    }

    /// Enter, while navigating, changes nothing but the completion flag of
    /// at most one item: the store keeps its length and its texts, and the
    /// cursor, the tab, the mode and the buffer stay as they are. With a
    /// row under the cursor it is the item on that row that is flipped, an
    /// item of the current tab, and flipping it once more gives the store
    /// back.
    pub proof fn lemma_enter_toggles(self)
        requires
            self.mode == Mode::Navigating,
        ensures
            ({
                let next = self.navigated(KeyCode::Enter);
                &&& next == (AppView { todos: next.todos, ..self })
                &&& next.todos.len() == self.todos.len()
                &&& forall|j: int|
                    0 <= j < self.todos.len() ==> (#[trigger] next.todos[j]).text
                        == self.todos[j].text
                &&& forall|j: int, k: int|
                    0 <= j < self.todos.len() && 0 <= k < self.todos.len()
                        && (#[trigger] next.todos[j]).completed != self.todos[j].completed
                        && (#[trigger] next.todos[k]).completed != self.todos[k].completed ==> j
                        == k
                &&& self.selected() is None ==> next.todos == self.todos
                &&& self.selected() matches Some(i) ==> {
                    &&& 0 <= i < self.todos.len()
                    &&& self.todos[i].completed == self.current_tab.shows_completed()
                    &&& next.todos == toggled(self.todos, i)
                    &&& toggled(next.todos, i) == self.todos
                }
            }),
    {
        lemma_projection(self.todos, self.current_tab);
        if let Some(i) = self.selected() {
            assert(toggled(toggled(self.todos, i), i) =~= self.todos);
        }
    }
}

/// The board: the store, the current tab, the cursor, the mode, and the
/// text being typed.
#[derive(Debug)]
pub struct App {
    todos: Vec<Item>,
    current_tab: TabsState,
    position: Position,
    mode: Mode,
    editor: Editor,
}

impl View for App {
    type V = AppView;

    closed spec fn view(&self) -> AppView {
        AppView {
            todos: views(self.todos@),
            current_tab: self.current_tab,
            position: self.position,
            mode: self.mode,
            todo: self.editor@,
        }
    }
}

impl App {
    /// A board over `todos`: navigating, on the `TODO` tab, the cursor at
    /// column zero of the first row and bounded by it, nothing typed.
    pub fn new(todos: Vec<Item>) -> (app: App)
        ensures
            app@ == (AppView {
                todos: views(todos@),
                current_tab: TabsState::TODO,
                position: Position { x: 0, y: FIRST_ROW, max_y: FIRST_ROW },
                mode: Mode::Navigating,
                todo: Seq::empty(),
            }),
            app@.wf(),
    {
        App {
            todos,
            current_tab: TabsState::TODO,
            position: Position::new(0, FIRST_ROW),
            mode: Mode::Navigating,
            editor: Editor::new(),
        }
    }

    /// The store.
    pub fn todos(&self) -> (todos: &Vec<Item>)
        ensures
            views(todos@) == self@.todos,
    {
        &self.todos
    }

    /// Gives up the board for its store.
    pub fn into_todos(self) -> (todos: Vec<Item>)
        ensures
            views(todos@) == self@.todos,
    {
        self.todos
    }

    /// The tab that is shown.
    pub fn current_tab(&self) -> (tab: TabsState)
        ensures
            tab == self@.current_tab,
    {
        self.current_tab
    }

    /// The cursor.
    pub fn position(&self) -> (position: Position)
        ensures
            position == self@.position,
    {
        self.position
    }

    /// The mode.
    pub fn mode(&self) -> (mode: Mode)
        ensures
            mode == self@.mode,
    {
        self.mode
    }

    /// The text typed so far for a new item.
    pub fn todo(&self) -> (text: &str)
        ensures
            text@ == self@.todo,
    {
        self.editor.text()
    }

    /// Whether there is room for one more character.
    pub fn has_room(&self) -> (yes: bool)
        ensures
            yes == self@.has_room(),
    {
        self.position.x < usize::MAX
    }

    /// Whether the bound that the cursor carries is the bound of the
    /// current tab.
    pub fn bound_is_current(&self) -> (yes: bool)
        ensures
            yes == self@.bound_is_current(),
    {
        let rows = project(&self.todos, self.current_tab).len();
        proof {
            lemma_projection(views(self.todos@), self.current_tab);
        }
        rows < usize::MAX && rows + 1 == self.position.max_y
    }

    /// The first step of every tick: renews the cursor's bound, which is
    /// one row past the rows of the current tab. Nothing else changes.
    pub fn follow_rows(&mut self)
        requires
            old(self)@.todos.len() < usize::MAX,
        ensures
            final(self)@ == old(self)@.rebounded(),
            final(self)@.bound_is_current(),
            old(self)@.wf() ==> final(self)@.wf(),
    {
        let rows = project(&self.todos, self.current_tab).len();
        proof {
            lemma_projection(views(self.todos@), self.current_tab);
        }
        self.position.change_max(rows + 1);
    }

    /// Acts on a key while navigating, and says whether to quit. `q`
    /// quits; Tab changes the tab and sends the cursor home; Up and Down
    /// move the cursor; `i` starts a new item; Enter flips the item under
    /// the cursor, if there is one, and leaves the cursor alone. Other
    /// keys, and events other than presses, do nothing.
    pub fn handle_nav(&mut self, key: KeyEvent) -> (quit: bool)
        requires
            old(self)@.wf(),
            old(self)@.bound_is_current(),
            old(self)@.mode == Mode::Navigating,
        ensures
            final(self)@ == old(self)@.after(key),
            quit == old(self)@.quits(key),
            final(self)@.wf(),
    {
        proof {
            old(self)@.lemma_after_keeps_wf(key);
        }
        if key.kind != KeyEventKind::Press {
            return false;
        }
        match key.code {
            KeyCode::Char(c) => {
                if c == 'q' {
                    return true;
                }
                if c == 'i' {
                    self.position.change(0, FIRST_ROW);
                    self.editor.cancel();
                    self.mode = Mode::Inserting;
                }
            },
            KeyCode::Tab => {
                self.current_tab = self.current_tab.flip();
                self.position.change(0, FIRST_ROW);
            },
            KeyCode::Up => {
                self.position.up();
            },
            KeyCode::Down => {
                self.position.down();
            },
            KeyCode::Enter => {
                let rows = project(&self.todos, self.current_tab);
                let y = self.position.y;
                if y >= FIRST_ROW && y <= rows.len() {
                    let index = rows.resolve(y - 1);
                    proof {
                        lemma_projection(views(self.todos@), self.current_tab);
                    }
                    let completed = self.todos[index].completed;
                    self.todos[index].completed = !completed;
                    assert(views(self.todos@) == toggled(old(self)@.todos, index as int));
                }
            },
            _ => {},
        }
        false
    }

    /// Acts on a key while inserting. A printable character other than
    /// `q` is appended to the text; Backspace removes the last character;
    /// Enter stores the text as a new open item and returns to navigating;
    /// Esc drops the text and returns to navigating. Other keys, `q`
    /// among them, and events other than presses, do nothing.
    pub fn handle_input(&mut self, key: KeyEvent)
        requires
            old(self)@.wf(),
            old(self)@.has_room(),
            old(self)@.mode == Mode::Inserting,
        ensures
            final(self)@ == old(self)@.after(key),
            final(self)@.wf(),
    {
        proof {
            old(self)@.lemma_after_keeps_wf(key);
        }
        if key.kind != KeyEventKind::Press {
            return ;
        }
        match key.code {
            KeyCode::Char(c) => {
                if c != 'q' && is_printable(c) {
                    self.editor.insert_char(&mut self.position, c);
                }
            },
            KeyCode::Backspace => {
                self.editor.backspace(&mut self.position);
            },
            KeyCode::Esc => {
                self.editor.cancel();
                self.position.change(0, FIRST_ROW);
                self.mode = Mode::Navigating;
            },
            KeyCode::Enter => {
                let item = self.editor.commit();
                self.todos.push(item);
                assert(views(self.todos@) == old(self)@.todos.push(item@));
                self.position.change(0, FIRST_ROW);
                self.mode = Mode::Navigating;
            },
            _ => {},
        }
    }

    /// Lays out the frame that shows the board.
    pub fn ui(&self) -> (screen: Screen)
        ensures
            screen@ == self@.screen(),
    {
        let navigating = match self.mode {
            Mode::Navigating => true,
            Mode::Inserting => false,
        };
        let ghost todos = views(self.todos@);
        let mut rows: Vec<Row> = Vec::new();
        let mut i: usize = 0;
        while i < self.todos.len()
            invariant
                i <= self.todos.len(),
                todos == views(self.todos@),
                navigating == (self.mode == Mode::Navigating),
                rows@.len() == shown(todos.take(i as int), self.current_tab).len(),
                rows@.len() <= i,
                forall|k: int|
                    0 <= k < rows@.len() ==> (#[trigger] rows@[k])@ == (RowView {
                        text: shown(todos.take(i as int), self.current_tab)[k].text,
                        highlighted: navigating && k + 1 == self.position.y,
                    }),
            decreases self.todos.len() - i,
        {
            proof {
                assert(todos.take(i + 1).drop_last() == todos.take(i as int));
                lemma_shown_unfold(todos.take(i + 1), self.current_tab);
            }
            if self.todos[i].shown_in(self.current_tab) {
                let highlighted = navigating && rows.len() + 1 == self.position.y;
                rows.push(Row { text: self.todos[i].text.clone(), highlighted });
            }
            i = i + 1;
        }
        assert(todos.take(i as int) == todos);
        let input = if navigating {
            None
        } else {
            Some(InputBox { text: self.editor.text().to_owned(), caret: self.position.x })
        };
        let screen = Screen { active_tab: self.current_tab.index(), rows, input };
        assert(screen@.rows =~= self@.screen().rows);
        screen
    }

    /// Hands a key to the mode that is on, and says whether to quit. The
    /// cursor's bound must have been renewed in this tick.
    pub fn handle_events(&mut self, key: KeyEvent) -> (quit: bool)
        requires
            old(self)@.wf(),
            old(self)@.bound_is_current(),
            old(self)@.has_room(),
        ensures
            final(self)@ == old(self)@.after(key),
            quit == old(self)@.quits(key),
            final(self)@.wf(),
    {
        match self.mode {
            Mode::Navigating => self.handle_nav(key),
            Mode::Inserting => {
                self.handle_input(key);
                false
            },
        }
    }
}

} // verus!
