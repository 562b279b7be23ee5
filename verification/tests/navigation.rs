use pdb::tui::navigation::{
    stream_label, TreeNavigator, TreeNode, TreeNodeId, INITIAL_STREAM_NODES,
};

fn small_tree() -> TreeNode {
    let leaf_a = TreeNode::new("Alpha", TreeNodeId::Modules);
    let leaf_b = TreeNode::new("beta", TreeNodeId::Names);
    TreeNode::with_children("Root", TreeNodeId::DebugInfo, vec![leaf_a, leaf_b])
}

#[test]
fn node_construction() {
    let n = TreeNode::new("x", TreeNodeId::Stream { index: 3 });
    assert_eq!(n.label, "x");
    assert_eq!(n.id, TreeNodeId::Stream { index: 3 });
    assert!(n.children.is_empty());
    assert!(!n.is_expanded);
    assert_eq!(n.depth, 0);
    let t = small_tree();
    assert_eq!(t.children.len(), 2);
    assert!(!t.is_expanded);
}

#[test]
fn expand_collapse_toggle() {
    let mut t = small_tree();
    t.toggle_expand();
    assert!(t.is_expanded);
    t.toggle_expand();
    assert!(!t.is_expanded);
    t.expand();
    assert!(t.is_expanded);
    t.collapse();
    assert!(!t.is_expanded);
    t.expand_all();
    assert!(t.is_expanded && t.children.iter().all(|c| c.is_expanded));
    t.collapse_all();
    assert!(!t.is_expanded && t.children.iter().all(|c| !c.is_expanded));
}

#[test]
fn flatten_shows_expanded_children() {
    let mut t = small_tree();
    let collapsed = t.flatten(0);
    assert_eq!(collapsed.len(), 1);
    assert_eq!(collapsed[0].display, "\u{25B6} Root");
    assert!(collapsed[0].has_children);
    t.expand();
    let items = t.flatten(1);
    assert_eq!(items.len(), 3);
    assert_eq!(items[0].display, "  \u{25BC} Root");
    assert_eq!(items[1].display, "      Alpha");
    assert_eq!(items[1].depth, 2);
    assert_eq!(items[2].original_label, "beta");
    assert_eq!(items[2].id, TreeNodeId::Names);
    assert!(!items[2].has_children);
}

#[test]
fn initial_navigator() {
    let nav = TreeNavigator::new("file.pdb");
    assert_eq!(nav.tree_nodes.len(), 1);
    assert_eq!(nav.tree_nodes[0].label, "file.pdb");
    assert_eq!(nav.tree_nodes[0].children.len(), 6);
    assert_eq!(nav.tree_nodes[0].children[5].label, "Streams");
    assert_eq!(nav.tree_nodes[0].children[5].children.len(), INITIAL_STREAM_NODES);
    assert_eq!(nav.tree_nodes[0].children[5].children[12].label, "Stream #12");
    assert_eq!(nav.tree_nodes[0].children[5].children[12].depth, 2);
    assert_eq!(nav.flat_items.len(), 1);
    assert_eq!(nav.get_visible_items(), vec!["\u{25B6} file.pdb".to_string()]);
    assert_eq!(nav.get_selected_node_id(), None);
}

#[test]
fn moving_and_toggling() {
    let mut nav = TreeNavigator::new("f.pdb");
    nav.move_up();
    assert_eq!(nav.selected, Some(0));
    nav.toggle_selected_node();
    assert_eq!(nav.flat_items.len(), 7);
    assert_eq!(nav.get_visible_items()[1], "    Modules");
    nav.move_down();
    nav.move_down();
    assert_eq!(nav.selected, Some(2));
    assert_eq!(nav.get_selected_node_id(), Some(TreeNodeId::Names));
    for _ in 0..10 {
        nav.move_down();
    }
    assert_eq!(nav.selected, Some(6));
    nav.toggle_selected_node();
    assert_eq!(nav.flat_items.len(), 7 + INITIAL_STREAM_NODES);
    nav.toggle_selected_node();
    assert_eq!(nav.flat_items.len(), 7);
    nav.collapse_all();
    assert_eq!(nav.flat_items.len(), 1);
    nav.expand_all();
    assert_eq!(nav.flat_items.len(), 7 + INITIAL_STREAM_NODES);
}

#[test]
fn search_filters_case_insensitively() {
    let mut nav = TreeNavigator::new("f.pdb");
    nav.expand_all();
    nav.enter_search_mode();
    assert_eq!(nav.get_search_status(), "Search: (type to search)");
    nav.update_search_query("STREAM #4".to_string());
    assert_eq!(nav.filtered_indices.len(), 11);
    assert_eq!(nav.get_search_status(), "Search: STREAM #4 (11 matches)");
    assert_eq!(nav.selected, Some(0));
    assert_eq!(nav.get_selected_node_id(), Some(TreeNodeId::Stream { index: 4 }));
    assert_eq!(nav.get_visible_items().len(), 11);
    nav.update_search_query("no such thing".to_string());
    assert_eq!(nav.filtered_indices.len(), 0);
    assert_eq!(nav.selected, None);
    nav.exit_search_mode();
    assert_eq!(nav.get_search_status(), "");
    assert_eq!(nav.get_visible_items().len(), 7 + INITIAL_STREAM_NODES);
}

#[test]
fn moving_down_undoes_moving_up() {
    let mut nav = TreeNavigator::new("f.pdb");
    nav.move_down();
    nav.toggle_selected_node();
    nav.move_down();
    nav.move_down();
    assert_eq!(nav.selected, Some(2));
    nav.move_up();
    nav.move_down();
    assert_eq!(nav.selected, Some(2));
    nav.move_down();
    nav.move_up();
    assert_eq!(nav.selected, Some(2));
}

#[test]
fn stream_nodes_are_replaced() {
    let mut nav = TreeNavigator::new("f.pdb");
    let streams = vec![(false, 0u32), (true, 665u32)];
    nav.update_streams_from_pdb(&streams);
    let streams = &nav.tree_nodes[0].children[5];
    assert_eq!(streams.children.len(), 2);
    assert_eq!(streams.children[1].label, "Stream #1 (665 bytes)");
    assert_eq!(streams.children[1].id, TreeNodeId::Stream { index: 1 });
    assert_eq!(streams.children[1].depth, 2);
    nav.expand_all();
    assert_eq!(nav.flat_items.len(), 9);
    assert_eq!(nav.get_visible_items()[8], "      Stream #1 (665 bytes)");
}

#[test]
fn stream_labels() {
    assert_eq!(stream_label(0, false, 123), "Stream #0 (nil)");
    assert_eq!(stream_label(7, true, 0), "Stream #7 (0 bytes)");
    assert_eq!(stream_label(7, true, 1024), "Stream #7 (1024 bytes)");
    assert_eq!(stream_label(7, true, 1025), "Stream #7 (1.0 KB)");
    assert_eq!(stream_label(12, true, 1536), "Stream #12 (1.5 KB)");
    assert_eq!(stream_label(3, true, u32::MAX), "Stream #3 (4194304.0 KB)");
}

#[test]
fn stream_labels_round_as_float_formatting_does() {
    let mut sizes: Vec<u32> = (1000..20000).collect();
    sizes.extend([1280, 3840, 6400, 1_000_000, 123_456_789, u32::MAX - 1, u32::MAX]);
    for size in sizes {
        let expected = if size > 1024 {
            format!("Stream #5 ({:.1} KB)", size as f64 / 1024.0)
        } else {
            format!("Stream #5 ({size} bytes)")
        };
        assert_eq!(stream_label(5, true, size), expected, "size {size}");
    }
}

#[test]
fn toggling_twice_restores_the_tree() {
    let mut nav = TreeNavigator::new("f.pdb");
    nav.update_streams_from_pdb(&vec![(true, 10u32), (false, 0u32)]);
    let before_items = nav.get_visible_items();
    let before_expanded: Vec<bool> = nav.tree_nodes[0].children.iter().map(|c| c.is_expanded).collect();
    nav.move_down();
    nav.toggle_selected_node();
    assert_ne!(nav.get_visible_items(), before_items);
    nav.toggle_selected_node();
    assert_eq!(nav.get_visible_items(), before_items);
    let after_expanded: Vec<bool> = nav.tree_nodes[0].children.iter().map(|c| c.is_expanded).collect();
    assert_eq!(after_expanded, before_expanded);
}
