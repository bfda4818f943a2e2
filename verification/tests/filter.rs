use todo_board::filter::{handle_todos, project, FilteredView};
use todo_board::item::{Item, TabsState};

fn item(text: &str, completed: bool) -> Item {
    Item { text: text.to_string(), completed }
}

fn sample() -> Vec<Item> {
    vec![
        item("a", false),
        item("b", true),
        item("c", true),
        item("d", false),
        item("e", true),
    ]
}

#[test]
fn project_lists_matching_indices_in_store_order() {
    assert_eq!(project(&sample(), TabsState::TODO), FilteredView { rows: vec![0, 3] });
    assert_eq!(project(&sample(), TabsState::DONE), FilteredView { rows: vec![1, 2, 4] });
}

#[test]
fn project_of_empty_store_is_empty() {
    assert_eq!(project(&Vec::new(), TabsState::TODO).len(), 0);
    assert_eq!(project(&Vec::new(), TabsState::DONE).len(), 0);
}

#[test]
fn view_length_is_count_of_matching_items() {
    let items = sample();
    for tab in [TabsState::TODO, TabsState::DONE] {
        let count = items.iter().filter(|i| i.completed == (tab == TabsState::DONE)).count();
        assert_eq!(project(&items, tab).len(), count);
    }
}

#[test]
fn resolve_gives_index_of_matching_item() {
    let items = sample();
    for tab in [TabsState::TODO, TabsState::DONE] {
        let view = project(&items, tab);
        for local in 0..view.len() {
            let index = view.resolve(local);
            assert!(items[index].shown_in(tab));
        }
    }
    assert_eq!(project(&items, TabsState::DONE).resolve(2), 4);
}

#[test]
fn handle_todos_keeps_matching_items() {
    assert_eq!(handle_todos(sample(), &TabsState::TODO), vec![item("a", false), item("d", false)]);
    assert_eq!(
        handle_todos(sample(), &TabsState::DONE),
        vec![item("b", true), item("c", true), item("e", true)]
    );
    assert_eq!(handle_todos(Vec::new(), &TabsState::TODO), Vec::<Item>::new());
}

#[test]
fn items_of_same_text_stay_apart() {
    let items = vec![item("same", true), item("same", false)];
    assert_eq!(project(&items, TabsState::TODO), FilteredView { rows: vec![1] });
    assert_eq!(project(&items, TabsState::DONE), FilteredView { rows: vec![0] });
}

#[test]
fn tabs_flip_and_index() {
    assert_eq!(TabsState::TODO.flip(), TabsState::DONE);
    assert_eq!(TabsState::DONE.flip(), TabsState::TODO);
    assert_eq!(TabsState::TODO.index(), 0);
    assert_eq!(TabsState::DONE.index(), 1);
}

#[test]
fn item_clone_is_equal() {
    let a = item("x", true);
    assert_eq!(a.clone(), a);
}
