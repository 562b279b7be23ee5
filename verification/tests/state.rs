use pdb::tui::state::{
    page_size, table_selection, DetailsKey, FocusedPanel, KeyAction, KeyCode, TuiState,
};

#[test]
fn quit_keys() {
    let mut s = TuiState::new("a.pdb");
    assert_eq!(s.key_action(KeyCode::Char('q')), KeyAction::Quit);
    assert_eq!(s.handle_key_event(KeyCode::Esc, 0), None);
    assert!(s.should_quit);
}

#[test]
fn q_types_into_the_search() {
    let mut s = TuiState::new("a.pdb");
    s.handle_key_event(KeyCode::Char('/'), 0);
    assert_eq!(s.focused_panel, FocusedPanel::SearchInput);
    assert!(s.navigator.search_mode);
    s.handle_key_event(KeyCode::Char('q'), 0);
    assert!(!s.should_quit);
    assert_eq!(s.navigator.search_query, "q");
    s.handle_key_event(KeyCode::Backspace, 0);
    assert_eq!(s.navigator.search_query, "");
    s.handle_key_event(KeyCode::Backspace, 0);
    assert_eq!(s.navigator.search_query, "");
    s.handle_key_event(KeyCode::Esc, 0);
    assert!(!s.navigator.search_mode);
    assert_eq!(s.focused_panel, FocusedPanel::TreeView);
    assert!(!s.should_quit);
}

#[test]
fn tab_cycles_focus() {
    let mut s = TuiState::new("a.pdb");
    assert!(s.is_tree_focused());
    s.handle_key_event(KeyCode::Tab, 2);
    assert_eq!(s.focused_panel, FocusedPanel::DetailsView { widget_index: 0 });
    assert!(s.is_details_focused());
    s.handle_key_event(KeyCode::Tab, 2);
    assert_eq!(s.focused_panel, FocusedPanel::DetailsView { widget_index: 1 });
    s.handle_key_event(KeyCode::Tab, 2);
    assert_eq!(s.focused_panel, FocusedPanel::TreeView);
    s.switch_focus(0);
    assert_eq!(s.focused_panel, FocusedPanel::TreeView);
}

#[test]
fn arrows_go_to_the_focused_panel() {
    let mut s = TuiState::new("a.pdb");
    s.handle_key_event(KeyCode::Down, 1);
    assert_eq!(s.navigator.selected, Some(0));
    s.handle_key_event(KeyCode::Enter, 1);
    assert_eq!(s.navigator.flat_items.len(), 7);
    s.handle_key_event(KeyCode::Tab, 1);
    assert_eq!(s.handle_key_event(KeyCode::Down, 1), Some((0, DetailsKey::Down)));
    assert_eq!(s.handle_key_event(KeyCode::PageUp, 1), Some((0, DetailsKey::PageUp)));
    assert_eq!(s.navigator.selected, Some(0));
    assert_eq!(s.handle_key_event(KeyCode::Home, 1), Some((0, DetailsKey::Home)));
    s.handle_key_event(KeyCode::Tab, 1);
    assert_eq!(s.handle_key_event(KeyCode::PageDown, 1), None);
    assert_eq!(s.key_action(KeyCode::Char('h')), KeyAction::CollapseAll);
    s.handle_key_event(KeyCode::Char('l'), 1);
    assert_eq!(s.navigator.flat_items.len(), 57);
    s.handle_key_event(KeyCode::Char('h'), 1);
    assert_eq!(s.navigator.flat_items.len(), 1);
}

#[test]
fn table_selection_moves() {
    assert_eq!(page_size(30), 26);
    assert_eq!(page_size(3), 1);
    assert_eq!(page_size(5), 1);
    assert_eq!(table_selection(DetailsKey::Up, Some(3), 30), Some(2));
    assert_eq!(table_selection(DetailsKey::Up, None, 30), None);
    assert_eq!(table_selection(DetailsKey::Up, Some(0), 30), Some(0));
    assert_eq!(table_selection(DetailsKey::Down, None, 30), Some(1));
    assert_eq!(table_selection(DetailsKey::PageUp, Some(10), 30), Some(0));
    assert_eq!(table_selection(DetailsKey::PageUp, Some(40), 30), Some(14));
    assert_eq!(table_selection(DetailsKey::PageDown, Some(10), 30), Some(36));
    assert_eq!(table_selection(DetailsKey::Home, Some(10), 30), Some(0));
    assert_eq!(table_selection(DetailsKey::End, None, 30), Some(usize::MAX));
}

#[test]
fn right_expands_and_left_goes_up() {
    let mut s = TuiState::new("a.pdb");
    s.handle_key_event(KeyCode::Down, 0);
    s.handle_key_event(KeyCode::Right, 0);
    assert_eq!(s.navigator.flat_items.len(), 7);
    s.handle_key_event(KeyCode::Right, 0);
    assert_eq!(s.navigator.flat_items.len(), 7);
    s.handle_key_event(KeyCode::Down, 0);
    s.handle_key_event(KeyCode::Down, 0);
    assert_eq!(s.navigator.selected, Some(2));
    s.handle_key_event(KeyCode::Left, 0);
    assert_eq!(s.navigator.selected, Some(0));
    assert_eq!(s.navigator.flat_items.len(), 7);
    s.handle_key_event(KeyCode::Left, 0);
    assert_eq!(s.navigator.flat_items.len(), 1);
    s.handle_key_event(KeyCode::Left, 0);
    assert_eq!(s.navigator.selected, Some(0));
}
