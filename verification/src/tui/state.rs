//! The decisions of the PDB browser: which panel has the focus, and what each key does.
//!
//! The terminal, the drawing and the state of the widgets of the details panel belong to the
//! program that runs the browser. It reads a key, hands it to `TuiState::handle_key_event`
//! together with the number of widgets that the details panel shows, and applies the details
//! navigation that comes back, if any, to the state of that widget.

use crate::text::{chars_of, push_char};
use crate::tui::navigation::{
    filter_refreshed, flat_views, is_initial_tree, node_at_path, parent_row, same_tree_expanded,
    selection_after_down, selection_after_up, spec_filter_indices, toggled_at, TreeNavigator,
};
use vstd::prelude::*;

verus! {

/// The panel that has the keyboard focus.
#[derive(Clone, Copy, Debug, PartialEq, Eq)]
pub enum FocusedPanel {
    /// The tree of PDB contents.
    TreeView,
    /// One of the widgets of the details panel.
    DetailsView { widget_index: usize },
    /// The search input.
    SearchInput,
}

/// The keys that the browser tells apart.
#[derive(Clone, Copy, Debug, PartialEq, Eq, Structural)]
pub enum KeyCode {
    Char(char),
    Esc,
    Tab,
    Enter,
    Backspace,
    Up,
    Down,
    Left,
    Right,
    PageUp,
    PageDown,
    Home,
    End,
    /// Any other key.
    Other,
}

/// A movement within the focused widget of the details panel.
#[derive(Clone, Copy, Debug, PartialEq, Eq)]
pub enum DetailsKey {
    Up,
    Down,
    PageUp,
    PageDown,
    Home,
    End,
}

/// What a key does.
#[derive(Clone, Copy, Debug, PartialEq, Eq)]
pub enum KeyAction {
    /// Leave the browser.
    Quit,
    /// Move the focus to the next panel or widget.
    SwitchFocus,
    /// Start a search.
    EnterSearch,
    /// Rebuild the rows of the tree.
    Refresh,
    /// Collapse every node.
    CollapseAll,
    /// Expand every node.
    ExpandAll,
    /// Select the row above, and give the focus to the tree.
    TreeUp,
    /// Select the row below, and give the focus to the tree.
    TreeDown,
    /// Expand or collapse the selected node.
    Toggle,
    /// Expand the selected node.
    ExpandNode,
    /// Collapse the selected node, or select its parent.
    CollapseOrParent,
    /// Move within the focused widget of the details panel.
    Details(DetailsKey),
    /// Leave the search and give the focus to the tree.
    ExitSearch,
    /// Select the row above in the search results.
    SearchUp,
    /// Select the row below in the search results.
    SearchDown,
    /// Add a character to the search query.
    SearchPush(char),
    /// Remove the last character of the search query.
    SearchPop,
    /// Nothing.
    Nothing,
}

/// What a key does, from the mode and the focus: `q` and `Esc` quit outside search mode; in
/// search mode, keys edit the query and move through the results; otherwise the arrows, Enter,
/// PageUp, PageDown, Home and End act on the focused panel: Enter toggles the selected node,
/// Right expands it and Left collapses it or goes to its parent.
pub open spec fn spec_key_action(
    key: KeyCode,
    search_mode: bool,
    tree_focused: bool,
    details_focused: bool,
) -> KeyAction {
    if !search_mode && (key == KeyCode::Char('q') || key == KeyCode::Esc) {
        KeyAction::Quit
    } else if search_mode {
        match key {
            KeyCode::Esc => KeyAction::ExitSearch,
            KeyCode::Enter => KeyAction::ExitSearch,
            KeyCode::Up => KeyAction::SearchUp,
            KeyCode::Down => KeyAction::SearchDown,
            KeyCode::Char(c) => KeyAction::SearchPush(c),
            KeyCode::Backspace => KeyAction::SearchPop,
            _ => KeyAction::Nothing,
        }
    } else {
        match key {
            KeyCode::Tab => KeyAction::SwitchFocus,
            KeyCode::Char('/') => KeyAction::EnterSearch,
            KeyCode::Char('r') => KeyAction::Refresh,
            KeyCode::Char('h') => KeyAction::CollapseAll,
            KeyCode::Char('l') => KeyAction::ExpandAll,
            KeyCode::Up => if tree_focused {
                KeyAction::TreeUp
            } else if details_focused {
                KeyAction::Details(DetailsKey::Up)
            } else {
                KeyAction::Nothing
            },
            KeyCode::Down => if tree_focused {
                KeyAction::TreeDown
            } else if details_focused {
                KeyAction::Details(DetailsKey::Down)
            } else {
                KeyAction::Nothing
            },
            KeyCode::Enter => if tree_focused {
                KeyAction::Toggle
            } else {
                KeyAction::Nothing
            },
            KeyCode::Right => if tree_focused {
                KeyAction::ExpandNode
            } else {
                KeyAction::Nothing
            },
            KeyCode::Left => if tree_focused {
                KeyAction::CollapseOrParent
            } else {
                KeyAction::Nothing
            },
            KeyCode::PageUp => if details_focused {
                KeyAction::Details(DetailsKey::PageUp)
            } else {
                KeyAction::Nothing
            },
            KeyCode::PageDown => if details_focused {
                KeyAction::Details(DetailsKey::PageDown)
            } else {
                KeyAction::Nothing
            },
            KeyCode::Home => if details_focused {
                KeyAction::Details(DetailsKey::Home)
            } else {
                KeyAction::Nothing
            },
            KeyCode::End => if details_focused {
                KeyAction::Details(DetailsKey::End)
            } else {
                KeyAction::Nothing
            },
            _ => KeyAction::Nothing,
        }
    }
}

/// In search mode the arrow keys move through the results the way they move through the tree:
/// Down moves the selection to the next row and Up to the one before, whatever panel has the
/// focus; outside search mode they do the same in the focused tree.
pub proof fn lemma_arrow_keys_move_the_selection(tree_focused: bool, details_focused: bool)
    ensures
        spec_key_action(KeyCode::Down, true, tree_focused, details_focused) == KeyAction::SearchDown,
        spec_key_action(KeyCode::Up, true, tree_focused, details_focused) == KeyAction::SearchUp,
        spec_key_action(KeyCode::Down, false, true, false) == KeyAction::TreeDown,
        spec_key_action(KeyCode::Up, false, true, false) == KeyAction::TreeUp,
        forall|k: usize, rows: int|
            #![trigger selection_after_down(Some(k), rows)]
            k + 1 < rows ==> selection_after_down(Some(k), rows) == Some((k + 1) as usize),
        forall|k: usize, rows: int|
            #![trigger selection_after_up(Some(k), rows)]
            0 < k < rows ==> selection_after_up(Some(k), rows) == Some((k - 1) as usize),
{
}

/// The focus after Tab, when the details panel shows `widget_count` widgets: from the tree to
/// the first widget, from each widget to the next, and from the last widget, or the search
/// input, back to the tree.
pub open spec fn spec_next_focus(f: FocusedPanel, widget_count: nat) -> FocusedPanel {
    match f {
        FocusedPanel::TreeView => if widget_count > 0 {
            FocusedPanel::DetailsView { widget_index: 0 }
        } else {
            FocusedPanel::TreeView
        },
        FocusedPanel::DetailsView { widget_index } => if widget_index + 1 < widget_count {
            FocusedPanel::DetailsView { widget_index: (widget_index + 1) as usize }
        } else {
            FocusedPanel::TreeView
        },
        FocusedPanel::SearchInput => FocusedPanel::TreeView,
    }
}

/// The focus after pressing Tab `k` times.
pub open spec fn focus_after_tabs(f: FocusedPanel, widget_count: nat, k: nat) -> FocusedPanel
    decreases k,
{
    if k == 0 {
        f
    } else {
        spec_next_focus(focus_after_tabs(f, widget_count, (k - 1) as nat), widget_count)
    }
}

/// Tab visits every widget of the details panel in order and comes back to the tree: from the
/// tree, `k` presses focus widget `k - 1` for `k` up to the number of widgets, and one more
/// press focuses the tree again.
pub proof fn lemma_tab_cycles_through_widgets(widget_count: nat, k: nat)
    requires
        widget_count > 0,
        k <= widget_count + 1,
        widget_count <= usize::MAX,
    ensures
        1 <= k <= widget_count ==> focus_after_tabs(FocusedPanel::TreeView, widget_count, k)
            == (FocusedPanel::DetailsView { widget_index: (k - 1) as usize }),
        k == 0 || k == widget_count + 1 ==> focus_after_tabs(
            FocusedPanel::TreeView,
            widget_count,
            k,
        ) == FocusedPanel::TreeView,
    decreases k,
{
    if k > 0 {
        lemma_tab_cycles_through_widgets(widget_count, (k - 1) as nat);
    }
}

/// The number of rows that PageUp and PageDown move in a table: the height of the details
/// area less 4 rows of borders and header, and at least 1.
pub open spec fn spec_page_size(area_height: u16) -> int {
    if area_height > 5 {
        area_height - 4
    } else {
        1
    }
}

/// The number of rows that PageUp and PageDown move in a table.
pub fn page_size(area_height: u16) -> (r: usize)
    ensures
        r == spec_page_size(area_height),
{
    let h = area_height.saturating_sub(4);
    if h < 1 {
        1
    } else {
        h as usize
    }
}

/// The selection of a table after a movement: Up goes one row up unless at the top; Down one
/// row down; PageUp and PageDown one page, stopping at the top; Home selects the first row and
/// End the last possible position, which drawing brings back to the last row. No selection
/// counts as the first row.
pub open spec fn spec_table_selection(key: DetailsKey, selected: Option<usize>, area_height: u16) -> Option<usize> {
    let s: int = match selected {
        Some(s) => s as int,
        None => 0,
    };
    match key {
        DetailsKey::Up => if s > 0 {
            Some((s - 1) as usize)
        } else {
            selected
        },
        DetailsKey::Down => Some((s + 1) as usize),
        DetailsKey::PageUp => Some(
            (if s > spec_page_size(area_height) {
                s - spec_page_size(area_height)
            } else {
                0
            }) as usize,
        ),
        DetailsKey::PageDown => Some((s + spec_page_size(area_height)) as usize),
        DetailsKey::Home => Some(0usize),
        DetailsKey::End => Some(usize::MAX),
    }
}

/// Down and PageDown can move from `selected` without passing `usize::MAX`.
pub open spec fn table_move_fits(key: DetailsKey, selected: Option<usize>, area_height: u16) -> bool {
    let s: int = match selected {
        Some(s) => s as int,
        None => 0,
    };
    match key {
        DetailsKey::Down => s + 1 <= usize::MAX,
        DetailsKey::PageDown => s + spec_page_size(area_height) <= usize::MAX,
        _ => true,
    }
}

/// The selection of a table of the details panel after a movement.
pub fn table_selection(key: DetailsKey, selected: Option<usize>, area_height: u16) -> (r: Option<usize>)
    requires
        table_move_fits(key, selected, area_height),
    ensures
        r == spec_table_selection(key, selected, area_height),
{
    let s = match selected {
        Some(s) => s,
        None => 0,
    };
    match key {
        DetailsKey::Up => if s > 0 {
            Some(s - 1)
        } else {
            selected
        },
        DetailsKey::Down => Some(s + 1),
        DetailsKey::PageUp => Some(s.saturating_sub(page_size(area_height))),
        DetailsKey::PageDown => Some(s + page_size(area_height)),
        DetailsKey::Home => Some(0),
        DetailsKey::End => Some(usize::MAX),
    }
}

/// `s` without its last character, if it has one.
pub open spec fn without_last(s: Seq<char>) -> Seq<char> {
    if s.len() == 0 {
        s
    } else {
        s.drop_last()
    }
}

/// A copy of `s` with `c` appended.
fn with_char(s: &String, c: char) -> (r: String)
    ensures
        r@ == s@.push(c),
{
    let mut r = String::from_str(s.as_str());
    push_char(&mut r, c);
    r
}

/// A copy of `s` without its last character.
fn without_last_char(s: &String) -> (r: String)
    ensures
        r@ == without_last(s@),
{
    let chars = chars_of(s.as_str());
    let n = if chars.len() == 0 {
        0
    } else {
        chars.len() - 1
    };
    let mut r = String::new();
    let mut i: usize = 0;
    while i < n
        invariant
            chars@ == s@,
            n == without_last(s@).len(),
            i <= n,
            r@ == without_last(s@).take(i as int),
        decreases n - i,
    {
        push_char(&mut r, chars[i]);
        i = i + 1;
        assert(r@ =~= without_last(s@).take(i as int));
    }
    assert(r@ =~= without_last(s@));
    r
}

/// What toggling the selected node does: the node that the selected row shows, if it has
/// children, flips between expanded and collapsed, and the rows and matches are rebuilt;
/// otherwise nothing changes.
pub open spec fn toggle_effect(n0: TreeNavigator, n1: TreeNavigator) -> bool {
    match n0.toggle_target() {
        Some(p) => {
            &&& toggled_at(n0.tree_nodes@, n1.tree_nodes@, p)
            &&& n1.items_in_sync()
            &&& n1.selected == n0.selected
            &&& n1.search_query == n0.search_query
            &&& n1.search_mode == n0.search_mode
            &&& filter_refreshed(n0, n1)
        },
        None => n1 == n0,
    }
}

/// What expanding the selected node does: like toggling, when the node is collapsed; nothing
/// otherwise.
pub open spec fn expand_effect(n0: TreeNavigator, n1: TreeNavigator) -> bool {
    match n0.toggle_target() {
        Some(p) => if node_at_path(n0.tree_nodes@, p) matches Some(n) && !n.is_expanded {
            &&& toggled_at(n0.tree_nodes@, n1.tree_nodes@, p)
            &&& n1.items_in_sync()
            &&& n1.selected == n0.selected
            &&& n1.search_query == n0.search_query
            &&& n1.search_mode == n0.search_mode
            &&& filter_refreshed(n0, n1)
        } else {
            n1 == n0
        },
        None => n1 == n0,
    }
}

/// What Left does: collapses the selected node when it is expanded; otherwise, outside a
/// search, selects the row of its parent.
pub open spec fn collapse_or_parent_effect(n0: TreeNavigator, n1: TreeNavigator) -> bool {
    match n0.toggle_target() {
        Some(p) if node_at_path(n0.tree_nodes@, p) matches Some(n) && n.is_expanded => {
            &&& toggled_at(n0.tree_nodes@, n1.tree_nodes@, p)
            &&& n1.items_in_sync()
            &&& n1.selected == n0.selected
            &&& n1.search_query == n0.search_query
            &&& n1.search_mode == n0.search_mode
            &&& filter_refreshed(n0, n1)
        },
        _ => {
            &&& n1.tree_nodes == n0.tree_nodes
            &&& n1.flat_items == n0.flat_items
            &&& n1.search_query == n0.search_query
            &&& n1.search_mode == n0.search_mode
            &&& n1.filtered_indices == n0.filtered_indices
            &&& n1.selected == (match (n0.uses_filter(), n0.selected) {
                (false, Some(s)) => match parent_row(flat_views(n0.flat_items@), s as int) {
                    Some(k) => Some(k as usize),
                    None => n0.selected,
                },
                _ => n0.selected,
            })
        },
    }
}

/// What setting the search query to `q` does: the matches are the rows that match `q` (none
/// for an empty query), the first match is selected, and the tree and its rows stay.
pub open spec fn query_effect(n0: TreeNavigator, n1: TreeNavigator, q: Seq<char>) -> bool {
    &&& n1.search_query@ == q
    &&& q.len() == 0 ==> n1.filtered_indices@.len() == 0
    &&& q.len() != 0 ==> n1.filtered_indices@ == spec_filter_indices(flat_views(n0.flat_items@), q)
    &&& n1.selected == (if n1.filtered_indices@.len() == 0 {
        None
    } else {
        Some(0usize)
    })
    &&& n1.tree_nodes == n0.tree_nodes
    &&& n1.flat_items == n0.flat_items
    &&& n1.search_mode == n0.search_mode
}

/// What expanding or collapsing every node does: every node gets the flag `e`, the shape of
/// the tree stays, and the rows and matches are rebuilt.
pub open spec fn all_expanded_effect(n0: TreeNavigator, n1: TreeNavigator, e: bool) -> bool {
    &&& n1.tree_nodes@.len() == n0.tree_nodes@.len()
    &&& forall|i: int|
        0 <= i < n0.tree_nodes@.len() ==> same_tree_expanded(
            #[trigger] n0.tree_nodes@[i],
            n1.tree_nodes@[i],
            e,
        )
    &&& n1.selected == n0.selected
    &&& n1.search_query == n0.search_query
    &&& n1.search_mode == n0.search_mode
    &&& filter_refreshed(n0, n1)
}

/// The state of the browser that keys change: the tree navigator, the focus, and whether to
/// quit.
pub struct TuiState {
    /// The tree of PDB contents and the navigation through it.
    pub navigator: TreeNavigator,
    /// The panel that has the focus.
    pub focused_panel: FocusedPanel,
    /// The browser stops after this key.
    pub should_quit: bool,
}

impl TuiState {
    /// The navigator fits in memory and its rows show its tree.
    pub open spec fn wf(&self) -> bool {
        self.navigator.fits() && self.navigator.items_in_sync()
    }

    /// The browser as it starts, on the PDB file `file_name`: the initial tree, the focus on
    /// the tree.
    pub fn new(file_name: &str) -> (r: Self)
        ensures
            r.wf(),
            is_initial_tree(r.navigator.tree_nodes@, file_name@),
            r.navigator.selected is None,
            !r.navigator.search_mode,
            r.navigator.search_query@.len() == 0,
            r.navigator.filtered_indices@.len() == 0,
            r.focused_panel == FocusedPanel::TreeView,
            !r.should_quit,
    {
        TuiState {
            navigator: TreeNavigator::new(file_name),
            focused_panel: FocusedPanel::TreeView,
            should_quit: false,
        }
    }

    /// The tree has the focus.
    pub fn is_tree_focused(&self) -> (r: bool)
        ensures
            r == (self.focused_panel == FocusedPanel::TreeView),
    {
        match self.focused_panel {
            FocusedPanel::TreeView => true,
            _ => false,
        }
    }

    /// A widget of the details panel has the focus.
    pub fn is_details_focused(&self) -> (r: bool)
        ensures
            r == (self.focused_panel is DetailsView),
    {
        match self.focused_panel {
            FocusedPanel::DetailsView { .. } => true,
            _ => false,
        }
    }

    /// What `key` does in the current mode and focus.
    pub fn key_action(&self, key: KeyCode) -> (r: KeyAction)
        ensures
            r == spec_key_action(
                key,
                self.navigator.search_mode,
                self.focused_panel == FocusedPanel::TreeView,
                self.focused_panel is DetailsView,
            ),
    {
        let search_mode = self.navigator.search_mode;
        let tree = self.is_tree_focused();
        let details = self.is_details_focused();
        if !search_mode && (key == KeyCode::Char('q') || key == KeyCode::Esc) {
            return KeyAction::Quit;
        }
        if search_mode {
            return match key {
                KeyCode::Esc => KeyAction::ExitSearch,
                KeyCode::Enter => KeyAction::ExitSearch,
                KeyCode::Up => KeyAction::SearchUp,
                KeyCode::Down => KeyAction::SearchDown,
                KeyCode::Char(c) => KeyAction::SearchPush(c),
                KeyCode::Backspace => KeyAction::SearchPop,
                _ => KeyAction::Nothing,
            };
        }
        match key {
            KeyCode::Tab => KeyAction::SwitchFocus,
            KeyCode::Char(c) => if c == '/' {
                KeyAction::EnterSearch
            } else if c == 'r' {
                KeyAction::Refresh
            } else if c == 'h' {
                KeyAction::CollapseAll
            } else if c == 'l' {
                KeyAction::ExpandAll
            } else {
                KeyAction::Nothing
            },
            KeyCode::Up => if tree {
                KeyAction::TreeUp
            } else if details {
                KeyAction::Details(DetailsKey::Up)
            } else {
                KeyAction::Nothing
            },
            KeyCode::Down => if tree {
                KeyAction::TreeDown
            } else if details {
                KeyAction::Details(DetailsKey::Down)
            } else {
                KeyAction::Nothing
            },
            KeyCode::Enter => if tree {
                KeyAction::Toggle
            } else {
                KeyAction::Nothing
            },
            KeyCode::Right => if tree {
                KeyAction::ExpandNode
            } else {
                KeyAction::Nothing
            },
            KeyCode::Left => if tree {
                KeyAction::CollapseOrParent
            } else {
                KeyAction::Nothing
            },
            KeyCode::PageUp => if details {
                KeyAction::Details(DetailsKey::PageUp)
            } else {
                KeyAction::Nothing
            },
            KeyCode::PageDown => if details {
                KeyAction::Details(DetailsKey::PageDown)
            } else {
                KeyAction::Nothing
            },
            KeyCode::Home => if details {
                KeyAction::Details(DetailsKey::Home)
            } else {
                KeyAction::Nothing
            },
            KeyCode::End => if details {
                KeyAction::Details(DetailsKey::End)
            } else {
                KeyAction::Nothing
            },
            _ => KeyAction::Nothing,
        }
    }

    /// Moves the focus to the next panel or widget, when the details panel shows
    /// `widget_count` widgets.
    pub fn switch_focus(&mut self, widget_count: usize)
        ensures
            final(self).focused_panel == spec_next_focus(
                old(self).focused_panel,
                widget_count as nat,
            ),
            final(self).navigator == old(self).navigator,
            final(self).should_quit == old(self).should_quit,
    {
        self.focused_panel = match self.focused_panel {
            FocusedPanel::TreeView => if widget_count > 0 {
                FocusedPanel::DetailsView { widget_index: 0 }
            } else {
                FocusedPanel::TreeView
            },
            FocusedPanel::DetailsView { widget_index } => if widget_index < widget_count
                && widget_index + 1 < widget_count {
                FocusedPanel::DetailsView { widget_index: widget_index + 1 }
            } else {
                FocusedPanel::TreeView
            },
            FocusedPanel::SearchInput => FocusedPanel::TreeView,
        };
    }

    /// Gives the focus back to the tree.
    fn reset_widget_focus(&mut self)
        ensures
            final(self).focused_panel == FocusedPanel::TreeView,
            final(self).navigator == old(self).navigator,
            final(self).should_quit == old(self).should_quit,
    {
        self.focused_panel = FocusedPanel::TreeView;
    }

    /// Handles one key press. `widget_count` is the number of widgets that the details panel
    /// shows, which Tab cycles through. Returns the movement that the focused widget of the
    /// details panel must make, if the key is one; every other effect is on this state.
    pub fn handle_key_event(&mut self, key: KeyCode, widget_count: usize) -> (r: Option<
        (usize, DetailsKey),
    >)
        requires
            old(self).wf(),
        ensures
            final(self).wf(),
            ({
                let a = spec_key_action(
                    key,
                    old(self).navigator.search_mode,
                    old(self).focused_panel == FocusedPanel::TreeView,
                    old(self).focused_panel is DetailsView,
                );
                let n0 = old(self).navigator;
                let n1 = final(self).navigator;
                &&& a matches KeyAction::Details(k) ==> (old(self).focused_panel matches FocusedPanel::DetailsView { widget_index } && r == Some((widget_index, k)))
                &&& !(a is Details) ==> r is None
                &&& final(self).should_quit == (old(self).should_quit || a == KeyAction::Quit)
                &&& old(self).navigator.search_mode && key == KeyCode::Down ==> n1.selected
                    == selection_after_down(n0.selected, n0.row_count())
                &&& old(self).navigator.search_mode && key == KeyCode::Up ==> n1.selected
                    == selection_after_up(n0.selected, n0.row_count())
                &&& final(self).focused_panel == match a {
                    KeyAction::SwitchFocus => spec_next_focus(
                        old(self).focused_panel,
                        widget_count as nat,
                    ),
                    KeyAction::EnterSearch => FocusedPanel::SearchInput,
                    KeyAction::TreeUp | KeyAction::TreeDown | KeyAction::ExitSearch => FocusedPanel::TreeView,
                    _ => old(self).focused_panel,
                }
                &&& match a {
                    KeyAction::Quit | KeyAction::SwitchFocus | KeyAction::Details(_)
                    | KeyAction::Nothing => n1 == n0,
                    KeyAction::EnterSearch => n1.search_mode && n1.search_query@.len() == 0
                        && n1.filtered_indices@.len() == 0 && n1.tree_nodes == n0.tree_nodes
                        && n1.flat_items == n0.flat_items && n1.selected == n0.selected,
                    KeyAction::ExitSearch => !n1.search_mode && n1.search_query@.len() == 0
                        && n1.filtered_indices@.len() == 0 && n1.selected is None
                        && n1.tree_nodes == n0.tree_nodes && n1.flat_items == n0.flat_items,
                    KeyAction::TreeUp | KeyAction::SearchUp => n1.tree_nodes == n0.tree_nodes
                        && n1.flat_items == n0.flat_items && n1.search_mode == n0.search_mode
                        && n1.search_query == n0.search_query && n1.filtered_indices
                        == n0.filtered_indices && n1.selected == selection_after_up(
                        n0.selected,
                        n0.row_count(),
                    ),
                    KeyAction::TreeDown | KeyAction::SearchDown => n1.tree_nodes == n0.tree_nodes
                        && n1.flat_items == n0.flat_items && n1.search_mode == n0.search_mode
                        && n1.search_query == n0.search_query && n1.filtered_indices
                        == n0.filtered_indices && n1.selected == selection_after_down(
                        n0.selected,
                        n0.row_count(),
                    ),
                    KeyAction::Refresh => n1.tree_nodes == n0.tree_nodes && n1.selected
                        == n0.selected && n1.search_mode == n0.search_mode && n1.search_query
                        == n0.search_query && filter_refreshed(n0, n1),
                    KeyAction::CollapseAll => all_expanded_effect(n0, n1, false),
                    KeyAction::ExpandAll => all_expanded_effect(n0, n1, true),
                    KeyAction::Toggle => toggle_effect(n0, n1),
                    KeyAction::ExpandNode => expand_effect(n0, n1),
                    KeyAction::CollapseOrParent => collapse_or_parent_effect(n0, n1),
                    KeyAction::SearchPush(c) => query_effect(n0, n1, n0.search_query@.push(c)),
                    KeyAction::SearchPop => query_effect(n0, n1, without_last(n0.search_query@)),
                }
            }),
    {
        let action = self.key_action(key);
        match action {
            KeyAction::Quit => {
                self.should_quit = true;
                None
            },
            KeyAction::SwitchFocus => {
                self.switch_focus(widget_count);
                None
            },
            KeyAction::EnterSearch => {
                self.navigator.enter_search_mode();
                self.focused_panel = FocusedPanel::SearchInput;
                None
            },
            KeyAction::Refresh => {
                self.navigator.update_flat_items();
                None
            },
            KeyAction::CollapseAll => {
                self.navigator.collapse_all();
                None
            },
            KeyAction::ExpandAll => {
                self.navigator.expand_all();
                None
            },
            KeyAction::TreeUp => {
                self.navigator.move_up();
                self.reset_widget_focus();
                None
            },
            KeyAction::TreeDown => {
                self.navigator.move_down();
                self.reset_widget_focus();
                None
            },
            KeyAction::Toggle => {
                self.navigator.toggle_selected_node();
                None
            },
            KeyAction::ExpandNode => {
                self.navigator.expand_selected_node();
                None
            },
            KeyAction::CollapseOrParent => {
                self.navigator.collapse_or_navigate_to_parent();
                None
            },
            KeyAction::Details(k) => match self.focused_panel {
                FocusedPanel::DetailsView { widget_index } => Some((widget_index, k)),
                _ => None,
            },
            KeyAction::ExitSearch => {
                self.navigator.exit_search_mode();
                self.focused_panel = FocusedPanel::TreeView;
                None
            },
            KeyAction::SearchUp => {
                self.navigator.move_up();
                None
            },
            KeyAction::SearchDown => {
                self.navigator.move_down();
                None
            },
            KeyAction::SearchPush(c) => {
                let query = with_char(&self.navigator.search_query, c);
                self.navigator.update_search_query(query);
                None
            },
            KeyAction::SearchPop => {
                let query = without_last_char(&self.navigator.search_query);
                self.navigator.update_search_query(query);
                None
            },
            KeyAction::Nothing => None,
        }
    }
}

} // verus!
