//! Tree navigation for the browser.

use crate::text::{
    contains_subseq, decimal_chars, push_decimal, spec_to_lowercase, str_contains, to_lowercase,
};
use vstd::prelude::*;

verus! {

/// Tree node identifiers for different PDB content types
#[derive(Clone, Copy, Debug, PartialEq, Eq)]
pub enum TreeNodeId {
    DebugInfo,
    Globals,
    Symbols,
    Types,
    Modules,
    Module { index: usize },
    SourceFiles,
    SourceFile { index: usize },
    Names,
    Streams,
    Stream { index: u32 },
}

/// Tree node structure for hierarchical navigation
pub struct TreeNode {
    pub label: String,
    pub id: TreeNodeId,
    pub children: Vec<TreeNode>,
    pub is_expanded: bool,
    pub depth: usize,
}

/// `b` is `a` with every node's expansion flag set to `e`: labels, ids, depths and the shape of
/// the tree are unchanged.
pub open spec fn same_tree_expanded(a: TreeNode, b: TreeNode, e: bool) -> bool
    decreases a,
{
    &&& b.label@ == a.label@
    &&& b.id == a.id
    &&& b.depth == a.depth
    &&& b.is_expanded == e
    &&& b.children@.len() == a.children@.len()
    &&& forall|i: int|
        0 <= i < a.children@.len() ==> same_tree_expanded(
            #[trigger] a.children@[i],
            b.children@[i],
            e,
        )
}

impl TreeNode {
    /// A node with no children, collapsed, at depth 0.
    pub fn new(label: &str, id: TreeNodeId) -> (r: Self)
        ensures
            r.label@ == label@,
            r.id == id,
            r.children@.len() == 0,
            !r.is_expanded,
            r.depth == 0,
    {
        TreeNode {
            label: String::from_str(label),
            id,
            children: Vec::new(),
            is_expanded: false,
            depth: 0,
        }
    }

    /// A collapsed node at depth 0 with the given children.
    pub fn with_children(label: &str, id: TreeNodeId, children: Vec<TreeNode>) -> (r: Self)
        ensures
            r.label@ == label@,
            r.id == id,
            r.children == children,
            !r.is_expanded,
            r.depth == 0,
    {
        let mut node = Self::new(label, id);
        node.children = children;
        node
    }

    /// Flips whether the node is expanded.
    pub fn toggle_expand(&mut self)
        ensures
            final(self).is_expanded == !old(self).is_expanded,
            final(self).label == old(self).label,
            final(self).id == old(self).id,
            final(self).children == old(self).children,
            final(self).depth == old(self).depth,
    {
        self.is_expanded = !self.is_expanded;
    }

    /// Expands the node.
    pub fn expand(&mut self)
        ensures
            final(self).is_expanded,
            final(self).label == old(self).label,
            final(self).id == old(self).id,
            final(self).children == old(self).children,
            final(self).depth == old(self).depth,
    {
        self.is_expanded = true;
    }

    /// Collapses the node.
    pub fn collapse(&mut self)
        ensures
            !final(self).is_expanded,
            final(self).label == old(self).label,
            final(self).id == old(self).id,
            final(self).children == old(self).children,
            final(self).depth == old(self).depth,
    {
        self.is_expanded = false;
    }

    /// Collapses the node and all its descendants.
    pub fn collapse_all(&mut self)
        ensures
            same_tree_expanded(*old(self), *final(self), false),
        decreases *old(self),
    {
        self.set_all_expanded(false);
    }

    /// Expands the node and all its descendants.
    pub fn expand_all(&mut self)
        ensures
            same_tree_expanded(*old(self), *final(self), true),
        decreases *old(self),
    {
        self.set_all_expanded(true);
    }

    fn set_all_expanded(&mut self, e: bool)
        ensures
            same_tree_expanded(*old(self), *final(self), e),
        decreases *old(self),
    {
        self.is_expanded = e;
        let ghost old_children = self.children@;
        let mut i: usize = 0;
        while i < self.children.len()
            invariant
                old_children == old(self).children@,
                self.label == old(self).label,
                self.id == old(self).id,
                self.depth == old(self).depth,
                self.is_expanded == e,
                i <= self.children@.len(),
                self.children@.len() == old_children.len(),
                forall|j: int|
                    0 <= j < i ==> same_tree_expanded(
                        #[trigger] old_children[j],
                        self.children@[j],
                        e,
                    ),
                forall|j: int| i <= j < old_children.len() ==> self.children@[j] == old_children[j],
            decreases old_children.len() - i,
        {
            proof {
                assert(decreases_to!(*old(self) => old(self).children));
                assert(decreases_to!(old(self).children => old(self).children@));
                assert(decreases_to!(old(self).children@ => old(self).children@[i as int]));
            }
            self.children[i].set_all_expanded(e);
            i = i + 1;
        }
    }
}

} // verus!

verus! {

/// Flattened tree item for display purposes
pub struct FlatTreeItem {
    pub display: String,
    pub depth: usize,
    pub has_children: bool,
    pub id: TreeNodeId,
    pub original_label: String,
}

/// The contents of a flattened tree item.
pub struct FlatItemView {
    pub display: Seq<char>,
    pub depth: int,
    pub has_children: bool,
    pub id: TreeNodeId,
    pub original_label: Seq<char>,
}

impl View for FlatTreeItem {
    type V = FlatItemView;

    open spec fn view(&self) -> FlatItemView {
        FlatItemView {
            display: self.display@,
            depth: self.depth as int,
            has_children: self.has_children,
            id: self.id,
            original_label: self.original_label@,
        }
    }
}

/// The contents of a sequence of flattened items.
pub open spec fn flat_views(s: Seq<FlatTreeItem>) -> Seq<FlatItemView> {
    s.map_values(|x: FlatTreeItem| x@)
}

/// Two spaces per level of depth.
pub open spec fn indent_chars(depth: int) -> Seq<char> {
    Seq::new((2 * depth) as nat, |i: int| ' ')
}

/// The marker before a label: blank for a leaf, a down-pointing triangle for an expanded node
/// and a right-pointing triangle for a collapsed one.
pub open spec fn prefix_chars(n: TreeNode) -> Seq<char> {
    if n.children@.len() == 0 {
        seq![' ', ' ']
    } else if n.is_expanded {
        seq!['\u{25BC}', ' ']
    } else {
        seq!['\u{25B6}', ' ']
    }
}

/// How a node is shown at `depth`: indented, with its marker and its label.
pub open spec fn spec_flat_item(n: TreeNode, depth: int) -> FlatItemView {
    FlatItemView {
        display: indent_chars(depth) + prefix_chars(n) + n.label@,
        depth,
        has_children: n.children@.len() != 0,
        id: n.id,
        original_label: n.label@,
    }
}

/// The items shown for a node at `depth`: the node itself, then, when it is expanded, the items
/// of each of its children in order, one level deeper.
pub open spec fn spec_flatten(n: TreeNode, depth: int) -> Seq<FlatItemView>
    decreases n, 0int,
{
    seq![spec_flat_item(n, depth)] + if n.is_expanded {
        spec_flatten_seq(n.children@, depth + 1)
    } else {
        Seq::empty()
    }
}

/// The items shown for a sequence of sibling nodes at `depth`.
pub open spec fn spec_flatten_seq(s: Seq<TreeNode>, depth: int) -> Seq<FlatItemView>
    decreases s, 1int,
{
    if s.len() == 0 {
        Seq::empty()
    } else {
        spec_flatten_seq(s.drop_last(), depth) + spec_flatten(s.last(), depth)
    }
}

/// Every depth reached while flattening the node from `depth` fits in a `usize`.
pub open spec fn depth_fits(n: TreeNode, depth: int) -> bool
    decreases n,
{
    &&& 0 <= depth <= usize::MAX
    &&& n.is_expanded ==> forall|i: int|
        0 <= i < n.children@.len() ==> depth_fits(#[trigger] n.children@[i], depth + 1)
}

impl TreeNode {
    fn flat_item(&self, depth: usize) -> (r: FlatTreeItem)
        ensures
            r@ == spec_flat_item(*self, depth as int),
    {
        let mut display = String::new();
        let mut k: usize = 0;
        proof {
            reveal_strlit("  ");
            reveal_strlit("\u{25BC} ");
            reveal_strlit("\u{25B6} ");
        }
        while k < depth
            invariant
                k <= depth,
                display@ == indent_chars(k as int),
                "  "@ == seq![' ', ' '],
            decreases depth - k,
        {
            display.append("  ");
            k = k + 1;
            assert(display@ =~= indent_chars(k as int));
        }
        if self.children.len() == 0 {
            display.append("  ");
        } else if self.is_expanded {
            display.append("\u{25BC} ");
        } else {
            display.append("\u{25B6} ");
        }
        assert(display@ =~= indent_chars(depth as int) + prefix_chars(*self));
        display.append(self.label.as_str());
        let original_label = self.label.clone();
        FlatTreeItem {
            display,
            depth,
            has_children: self.children.len() != 0,
            id: self.id,
            original_label,
        }
    }

    /// Flatten the tree into a linear list for display
    pub fn flatten(&self, depth: usize) -> (r: Vec<FlatTreeItem>)
        requires
            depth_fits(*self, depth as int),
        ensures
            flat_views(r@) == spec_flatten(*self, depth as int),
        decreases *self,
    {
        let mut result: Vec<FlatTreeItem> = Vec::new();
        let item = self.flat_item(depth);
        let ghost first = item@;
        result.push(item);
        assert(flat_views(result@) =~= seq![first]);
        if self.is_expanded {
            let mut i: usize = 0;
            while i < self.children.len()
                invariant
                    self.is_expanded,
                    depth_fits(*self, depth as int),
                    i <= self.children@.len(),
                    first == spec_flat_item(*self, depth as int),
                    flat_views(result@) == seq![first] + spec_flatten_seq(
                        self.children@.subrange(0, i as int),
                        depth + 1,
                    ),
                decreases self.children@.len() - i,
            {
                assert(depth_fits(self.children@[i as int], depth + 1));
                proof {
                    assert(decreases_to!(*self => self.children));
                    assert(decreases_to!(self.children => self.children@));
                    assert(decreases_to!(self.children@ => self.children@[i as int]));
                }
                let mut sub = self.children[i].flatten(depth + 1);
                let ghost before = result@;
                let ghost sub_items = sub@;
                result.append(&mut sub);
                proof {
                    let s = self.children@.subrange(0, i + 1);
                    assert(s.drop_last() =~= self.children@.subrange(0, i as int));
                    assert(s.last() == self.children@[i as int]);
                    assert(flat_views(result@) =~= flat_views(before) + flat_views(sub_items));
                }
                i = i + 1;
            }
            assert(self.children@.subrange(0, self.children@.len() as int) =~= self.children@);
        }
        result
    }
}

} // verus!

verus! {

/// The number of nodes of a tree, expanded or not.
pub open spec fn total_count(n: TreeNode) -> nat
    decreases n, 0int,
{
    1 + total_count_seq(n.children@)
}

/// The number of nodes of a sequence of trees.
pub open spec fn total_count_seq(s: Seq<TreeNode>) -> nat
    decreases s, 1int,
{
    if s.len() == 0 {
        0
    } else {
        total_count_seq(s.drop_last()) + total_count(s.last())
    }
}

/// Flattening shows at most every node once, and every depth it reaches fits in a `usize` when
/// the starting depth plus the number of nodes does.
pub proof fn lemma_flatten_bounds(n: TreeNode, d: int)
    requires
        0 <= d,
        d + total_count(n) <= usize::MAX + 1,
    ensures
        spec_flatten(n, d).len() <= total_count(n),
        depth_fits(n, d),
    decreases n, 0int,
{
    lemma_flatten_seq_bounds(n.children@, d + 1);
}

/// The sequence version of [`lemma_flatten_bounds`].
pub proof fn lemma_flatten_seq_bounds(s: Seq<TreeNode>, d: int)
    requires
        0 <= d,
        d + total_count_seq(s) <= usize::MAX + 1,
    ensures
        spec_flatten_seq(s, d).len() <= total_count_seq(s),
        forall|i: int| 0 <= i < s.len() ==> depth_fits(#[trigger] s[i], d),
    decreases s, 1int,
{
    if s.len() > 0 {
        lemma_flatten_seq_bounds(s.drop_last(), d);
        lemma_flatten_bounds(s.last(), d);
        assert forall|i: int| 0 <= i < s.len() implies depth_fits(#[trigger] s[i], d) by {
            if i < s.len() - 1 {
                assert(s[i] == s.drop_last()[i]);
            }
        }
    }
}

} // verus!

verus! {

/// The number of items that flattening shows for a node: the node, and, when it is expanded,
/// the items of its children.
pub open spec fn visible_count(n: TreeNode) -> nat
    decreases n, 0int,
{
    1 + if n.is_expanded {
        visible_count_seq(n.children@)
    } else {
        0
    }
}

/// The number of items that flattening shows for a sequence of sibling nodes.
pub open spec fn visible_count_seq(s: Seq<TreeNode>) -> nat
    decreases s, 1int,
{
    if s.len() == 0 {
        0
    } else {
        visible_count_seq(s.drop_last()) + visible_count(s.last())
    }
}

/// The path to the node that flattening shows at position `t` among the items of `n`: empty
/// for `n` itself, otherwise the path within its children.
pub open spec fn spec_find_path_node(n: TreeNode, t: int) -> Option<Seq<usize>>
    decreases n, 0int,
{
    if t == 0 {
        Some(Seq::empty())
    } else if n.is_expanded {
        spec_find_path_seq(n.children@, t - 1)
    } else {
        None
    }
}

/// The path (the index of a node among its siblings, at each level from the top) to the node
/// that flattening shows at position `t` among the items of the sibling sequence `s`.
pub open spec fn spec_find_path_seq(s: Seq<TreeNode>, t: int) -> Option<Seq<usize>>
    decreases s, 1int,
{
    if s.len() == 0 {
        None
    } else {
        let c = visible_count_seq(s.drop_last());
        if t < c {
            spec_find_path_seq(s.drop_last(), t)
        } else {
            match spec_find_path_node(s.last(), t - c) {
                Some(p) => Some(seq![(s.len() - 1) as usize] + p),
                None => None,
            }
        }
    }
}

/// The node that a path leads to from the sibling sequence `s`, if the path is valid.
pub open spec fn node_at_path(s: Seq<TreeNode>, p: Seq<usize>) -> Option<TreeNode>
    decreases p.len(),
{
    if p.len() == 0 || p[0] >= s.len() {
        None
    } else if p.len() == 1 {
        Some(s[p[0] as int])
    } else {
        node_at_path(s[p[0] as int].children@, p.drop_first())
    }
}

/// Flattening shows exactly `visible_count` items.
pub proof fn lemma_flatten_len(n: TreeNode, d: int)
    ensures
        spec_flatten(n, d).len() == visible_count(n),
    decreases n, 0int,
{
    lemma_flatten_seq_len(n.children@, d + 1);
}

/// The sequence version of [`lemma_flatten_len`].
pub proof fn lemma_flatten_seq_len(s: Seq<TreeNode>, d: int)
    ensures
        spec_flatten_seq(s, d).len() == visible_count_seq(s),
    decreases s, 1int,
{
    if s.len() > 0 {
        lemma_flatten_seq_len(s.drop_last(), d);
        lemma_flatten_len(s.last(), d);
    }
}

/// A node is found only at a position among the items shown.
pub proof fn lemma_find_path_some_bounds(s: Seq<TreeNode>, t: int)
    ensures
        spec_find_path_seq(s, t) is Some ==> 0 <= t < visible_count_seq(s),
    decreases s, 1int,
{
    if s.len() > 0 {
        lemma_find_path_some_bounds(s.drop_last(), t);
        lemma_find_path_node_some_bounds(s.last(), t - visible_count_seq(s.drop_last()));
    }
}

proof fn lemma_find_path_node_some_bounds(n: TreeNode, t: int)
    ensures
        spec_find_path_node(n, t) is Some ==> 0 <= t < visible_count(n),
    decreases n, 0int,
{
    if n.is_expanded {
        lemma_find_path_some_bounds(n.children@, t - 1);
    }
}

/// No node is found at a negative position.
proof fn lemma_find_path_negative(s: Seq<TreeNode>, t: int)
    requires
        t < 0,
    ensures
        spec_find_path_seq(s, t) is None,
    decreases s, 1int,
{
    if s.len() > 0 {
        lemma_find_path_negative(s.drop_last(), t);
        lemma_find_path_node_negative(s.last(), t - visible_count_seq(s.drop_last()));
    }
}

proof fn lemma_find_path_node_negative(n: TreeNode, t: int)
    requires
        t < 0,
    ensures
        spec_find_path_node(n, t) is None,
    decreases n, 0int,
{
    if n.is_expanded {
        lemma_find_path_negative(n.children@, t - 1);
    }
}

/// Splitting off the last node of a prefix of `s`.
proof fn lemma_prefix_step(s: Seq<TreeNode>, i: int)
    requires
        0 <= i < s.len(),
    ensures
        s.subrange(0, i + 1).drop_last() == s.subrange(0, i),
        s.subrange(0, i + 1).last() == s[i],
        visible_count_seq(s.subrange(0, i + 1)) == visible_count_seq(s.subrange(0, i))
            + visible_count(s[i]),
{
    assert(s.subrange(0, i + 1).drop_last() =~= s.subrange(0, i));
}

/// A position within the items of a prefix of `s` finds the same path in `s` as in the prefix.
proof fn lemma_find_path_extend(s: Seq<TreeNode>, k: int, m: int, t: int)
    requires
        0 <= k <= m <= s.len(),
        t < visible_count_seq(s.subrange(0, k)),
    ensures
        spec_find_path_seq(s.subrange(0, m), t) == spec_find_path_seq(s.subrange(0, k), t),
        visible_count_seq(s.subrange(0, k)) <= visible_count_seq(s.subrange(0, m)),
    decreases m - k,
{
    if k < m {
        lemma_find_path_extend(s, k, m - 1, t);
        lemma_prefix_step(s, m - 1);
    }
}

/// The items of a prefix of `s` are at most the items of `s`.
proof fn lemma_prefix_count(s: Seq<TreeNode>, k: int)
    requires
        0 <= k <= s.len(),
    ensures
        visible_count_seq(s.subrange(0, k)) <= visible_count_seq(s),
    decreases s.len() - k,
{
    if k < s.len() {
        lemma_prefix_count(s, k + 1);
        lemma_prefix_step(s, k);
    } else {
        assert(s.subrange(0, k) =~= s);
    }
}

fn copy_path(path: &Vec<usize>) -> (r: Vec<usize>)
    ensures
        r@ == path@,
{
    let mut r: Vec<usize> = Vec::new();
    let mut i: usize = 0;
    while i < path.len()
        invariant
            i <= path@.len(),
            r@ == path@.subrange(0, i as int),
        decreases path@.len() - i,
    {
        r.push(path[i]);
        i = i + 1;
        assert(r@ =~= path@.subrange(0, i as int));
    }
    assert(path@.subrange(0, path@.len() as int) =~= path@);
    r
}

/// Scans `nodes` in display order, counting items from `current_index`, for the node shown at
/// position `target_index`; `path` holds the path to `nodes`.
fn find_path_recursive(
    nodes: &Vec<TreeNode>,
    target_index: usize,
    current_index: &mut usize,
    path: &mut Vec<usize>,
) -> (r: Option<Vec<usize>>)
    requires
        *old(current_index) + visible_count_seq(nodes@) <= usize::MAX,
    ensures
        match r {
            Some(p) => exists|q: Seq<usize>|
                spec_find_path_seq(nodes@, target_index - *old(current_index)) == Some(q) && p@
                    == old(path)@ + q,
            None => {
                &&& spec_find_path_seq(nodes@, target_index - *old(current_index)) is None
                &&& *final(current_index) == *old(current_index) + visible_count_seq(nodes@)
                &&& final(path)@ == old(path)@
            },
        },
    decreases nodes@,
{
    let ghost s = nodes@;
    let ghost start = *current_index;
    let ghost t = target_index - start;
    let ghost old_path = path@;
    proof {
        assert(s.subrange(0, 0) =~= Seq::<TreeNode>::empty());
    }
    let mut i: usize = 0;
    while i < nodes.len()
        invariant
            s == nodes@,
            start == *old(current_index),
            old_path == old(path)@,
            t == target_index - start,
            start + visible_count_seq(s) <= usize::MAX,
            i <= s.len(),
            *current_index == start + visible_count_seq(s.subrange(0, i as int)),
            path@ == old_path,
            spec_find_path_seq(s.subrange(0, i as int), t) is None,
        decreases s.len() - i,
    {
        proof {
            lemma_prefix_step(s, i as int);
            lemma_prefix_count(s, i + 1);
        }
        let node = &nodes[i];
        if *current_index == target_index {
            path.push(i);
            let found = copy_path(path);
            proof {
                let pre = s.subrange(0, i as int);
                let s1 = s.subrange(0, i + 1);
                assert(s1.len() == i + 1);
                assert(s1.drop_last() == pre);
                assert(spec_find_path_node(s1.last(), 0) == Some(Seq::<usize>::empty()));
                assert(seq![i] + Seq::<usize>::empty() =~= seq![i]);
                assert(spec_find_path_seq(s1, t) == Some(seq![i]));
                assert(found@ =~= old_path + seq![i]);
                lemma_find_path_extend(s, i + 1, s.len() as int, t);
                assert(s.subrange(0, s.len() as int) =~= s);
                assert(spec_find_path_seq(nodes@, target_index - start) == Some(seq![i]));
                assert(found@ == old_path + seq![i]);
                assert(spec_find_path_seq(nodes@, target_index - *old(current_index)) == Some(
                    seq![i],
                ) && found@ == old(path)@ + seq![i]);
            }
            return Some(found);
        }
        *current_index = *current_index + 1;
        if node.is_expanded {
            path.push(i);
            proof {
                assert(decreases_to!(nodes@ => nodes@[i as int]));
                assert(decreases_to!(nodes@[i as int] => nodes@[i as int].children));
                assert(decreases_to!(nodes@[i as int].children => nodes@[i as int].children@));
            }
            let ghost cur_before = *current_index;
            let ghost path_before = path@;
            assert(path_before == old_path + seq![i]);
            let res = find_path_recursive(&node.children, target_index, current_index, path);
            match res {
                Some(result) => {
                    proof {
                        let q = choose|q: Seq<usize>|
                            spec_find_path_seq(node.children@, target_index - cur_before) == Some(
                                q,
                            ) && result@ == path_before + q;
                        let s1 = s.subrange(0, i + 1);
                        let c = visible_count_seq(s.subrange(0, i as int));
                        if t < c {
                            lemma_find_path_negative(
                                node.children@,
                                target_index - (start + c + 1),
                            );
                        }
                        lemma_find_path_some_bounds(node.children@, target_index - cur_before);
                        lemma_prefix_step(s, i as int);
                        assert(cur_before == start + c + 1);
                        assert(t - c - 1 == target_index - cur_before);
                        assert(s1.last() == *node);
                        assert(spec_find_path_node(s1.last(), t - c) == Some(q));
                        assert(s1.len() - 1 == i);
                        assert(spec_find_path_seq(s1, t) == Some(seq![i] + q));
                        assert(result@ =~= old_path + (seq![i] + q));
                        lemma_find_path_extend(s, i + 1, s.len() as int, t);
                        assert(s.subrange(0, s.len() as int) =~= s);
                        assert(spec_find_path_seq(nodes@, target_index - *old(current_index))
                            == Some(seq![i] + q) && result@ == old(path)@ + (seq![i] + q));
                    }
                    return Some(result);
                },
                None => {},
            }
            path.pop();
            proof {
                assert(path@ =~= old_path);
            }
        }
        proof {
            let pre = s.subrange(0, i as int);
            let s1 = s.subrange(0, i + 1);
            let c = visible_count_seq(pre);
            assert(s1.drop_last() == pre);
            assert(s1.last() == s[i as int]);
            if t > c {
                assert(spec_find_path_node(s[i as int], t - c) is None);
            }
        }
        i = i + 1;
    }
    proof {
        assert(s.subrange(0, s.len() as int) =~= s);
    }
    None
}

} // verus!

verus! {

/// The node that a path leads to from `n`: `n` itself for the empty path, otherwise the node
/// that the path leads to from its children.
pub open spec fn node_at_path_from(n: TreeNode, p: Seq<usize>) -> Option<TreeNode> {
    if p.len() == 0 {
        Some(n)
    } else {
        node_at_path(n.children@, p)
    }
}

proof fn lemma_find_path_node_shows(n: TreeNode, t: int, d: int)
    ensures
        (0 <= t < visible_count(n)) <==> spec_find_path_node(n, t) is Some,
        spec_find_path_node(n, t) matches Some(p) ==> node_at_path_from(n, p) is Some
            && spec_flatten(n, d)[t] == spec_flat_item(node_at_path_from(n, p)->Some_0, d + p.len()),
    decreases n, 0int,
{
    assert(n.children@.len() == n.children.len());
    lemma_flatten_seq_len(n.children@, d + 1);
    if t != 0 && n.is_expanded {
        lemma_find_path_shows(n.children@, t - 1, d + 1);
        if spec_find_path_seq(n.children@, t - 1) is Some {
            assert(spec_flatten(n, d)[t] == spec_flatten_seq(n.children@, d + 1)[t - 1]);
        }
    }
}

/// Finding the path of a position among the items of `s` succeeds exactly for the positions of
/// the items shown, and the path leads to the node that is shown at that position, at the depth
/// given by the length of the path.
pub proof fn lemma_find_path_shows(s: Seq<TreeNode>, t: int, d: int)
    requires
        s.len() <= usize::MAX,
    ensures
        (0 <= t < visible_count_seq(s)) <==> spec_find_path_seq(s, t) is Some,
        spec_find_path_seq(s, t) matches Some(p) ==> p.len() >= 1 && node_at_path(s, p) is Some
            && spec_flatten_seq(s, d)[t] == spec_flat_item(
            node_at_path(s, p)->Some_0,
            d + p.len() - 1,
        ),
    decreases s, 1int,
{
    if s.len() > 0 {
        let pre = s.drop_last();
        let c = visible_count_seq(pre);
        lemma_flatten_seq_len(pre, d);
        lemma_flatten_len(s.last(), d);
        lemma_find_path_shows(pre, t, d);
        lemma_find_path_node_shows(s.last(), t - c, d);
        if t < c {
            if let Some(p) = spec_find_path_seq(pre, t) {
                assert(p[0] < pre.len());
                if p.len() > 1 {
                    assert(s[p[0] as int] == pre[p[0] as int]);
                }
                assert(node_at_path(s, p) == node_at_path(pre, p));
                assert(spec_flatten_seq(s, d)[t] == spec_flatten_seq(pre, d)[t]);
            }
        } else {
            if let Some(q) = spec_find_path_node(s.last(), t - c) {
                let p = seq![(s.len() - 1) as usize] + q;
                assert(p.drop_first() =~= q);
                assert(p[0] == s.len() - 1);
                assert(node_at_path(s, p) == node_at_path_from(s.last(), q));
                assert(spec_flatten_seq(s, d)[t] == spec_flatten(s.last(), d)[t - c]);
            }
        }
    }
}

} // verus!

verus! {

/// `b` is the sibling sequence `a` with the expansion of the node at path `p` flipped and
/// nothing else changed; when the path leads nowhere, nothing changes.
pub open spec fn toggled_at(a: Seq<TreeNode>, b: Seq<TreeNode>, p: Seq<usize>) -> bool
    decreases p.len(),
{
    if p.len() == 0 || p[0] >= a.len() {
        b == a
    } else {
        let i = p[0] as int;
        &&& b.len() == a.len()
        &&& forall|j: int| 0 <= j < a.len() && j != i ==> b[j] == a[j]
        &&& b[i].label == a[i].label
        &&& b[i].id == a[i].id
        &&& b[i].depth == a[i].depth
        &&& if p.len() == 1 {
            &&& b[i].is_expanded == !a[i].is_expanded
            &&& b[i].children == a[i].children
        } else {
            &&& b[i].is_expanded == a[i].is_expanded
            &&& toggled_at(a[i].children@, b[i].children@, p.drop_first())
        }
    }
}

/// Flips the expansion of the node at the path `path[k..]` from `nodes`.
fn toggle_in(nodes: &mut Vec<TreeNode>, path: &[usize], k: usize)
    requires
        k <= path@.len(),
    ensures
        toggled_at(old(nodes)@, final(nodes)@, path@.subrange(k as int, path@.len() as int)),
    decreases path@.len() - k,
{
    let ghost p = path@.subrange(k as int, path@.len() as int);
    if k >= path.len() {
        return;
    }
    let index = path[k];
    assert(p[0] == index);
    if index >= nodes.len() {
        return;
    }
    if k == path.len() - 1 {
        nodes[index].toggle_expand();
    } else {
        toggle_in(&mut nodes[index].children, path, k + 1);
        assert(p.drop_first() =~= path@.subrange(k + 1, path@.len() as int));
    }
}

} // verus!

verus! {

/// `b` is `a` with the depth of every node set to its level below `d`: `d` for `a` itself,
/// `d + 1` for its children, and so on. Everything else is unchanged.
pub open spec fn depths_set(a: TreeNode, b: TreeNode, d: int) -> bool
    decreases a,
{
    &&& b.label == a.label
    &&& b.id == a.id
    &&& b.is_expanded == a.is_expanded
    &&& b.depth == d
    &&& b.children@.len() == a.children@.len()
    &&& forall|i: int|
        0 <= i < a.children@.len() ==> depths_set(#[trigger] a.children@[i], b.children@[i], d + 1)
}

/// Each node of a sequence of trees has its counted nodes within the count of the sequence.
proof fn lemma_total_count_elem(s: Seq<TreeNode>, i: int)
    requires
        0 <= i < s.len(),
    ensures
        total_count(s[i]) <= total_count_seq(s),
    decreases s.len(),
{
    if i < s.len() - 1 {
        lemma_total_count_elem(s.drop_last(), i);
        assert(s.drop_last()[i] == s[i]);
    }
}

/// Sequences whose nodes have equal counts have equal counts.
proof fn lemma_total_count_pointwise(a: Seq<TreeNode>, b: Seq<TreeNode>)
    requires
        a.len() == b.len(),
        forall|j: int| 0 <= j < a.len() ==> total_count(#[trigger] a[j]) == total_count(b[j]),
    ensures
        total_count_seq(a) == total_count_seq(b),
    decreases a.len(),
{
    if a.len() > 0 {
        let a1 = a.drop_last();
        let b1 = b.drop_last();
        assert forall|j: int| 0 <= j < a1.len() implies total_count(#[trigger] a1[j]) == total_count(
            b1[j],
        ) by {
            assert(a1[j] == a[j]);
            assert(b1[j] == b[j]);
        }
        lemma_total_count_pointwise(a1, b1);
        assert(total_count(a[a.len() - 1]) == total_count(b[b.len() - 1]));
    }
}

/// Toggling a node does not change the number of nodes.
pub proof fn lemma_toggle_keeps_count(a: Seq<TreeNode>, b: Seq<TreeNode>, p: Seq<usize>)
    requires
        toggled_at(a, b, p),
    ensures
        total_count_seq(b) == total_count_seq(a),
    decreases p.len(),
{
    if p.len() > 0 && p[0] < a.len() {
        let i = p[0] as int;
        if p.len() > 1 {
            lemma_toggle_keeps_count(a[i].children@, b[i].children@, p.drop_first());
        }
        assert(total_count(b[i]) == total_count(a[i]));
        assert forall|j: int| 0 <= j < a.len() implies total_count(#[trigger] a[j]) == total_count(
            b[j],
        ) by {
            if j != i {
                assert(b[j] == a[j]);
            }
        }
        lemma_total_count_pointwise(a, b);
    }
}

/// Two nodes have the same labels, ids, depths and expansion, throughout their subtrees.
pub open spec fn same_node(a: TreeNode, b: TreeNode) -> bool
    decreases a, 0int,
{
    &&& b.label == a.label
    &&& b.id == a.id
    &&& b.depth == a.depth
    &&& b.is_expanded == a.is_expanded
    &&& same_nodes(a.children@, b.children@)
}

/// Two sequences of trees are the same, node by node.
pub open spec fn same_nodes(a: Seq<TreeNode>, b: Seq<TreeNode>) -> bool
    decreases a, 1int,
{
    &&& b.len() == a.len()
    &&& forall|j: int| 0 <= j < a.len() ==> same_node(#[trigger] a[j], b[j])
}

proof fn lemma_same_node_refl(a: TreeNode)
    ensures
        same_node(a, a),
    decreases a, 0int,
{
    lemma_same_nodes_refl(a.children@);
}

proof fn lemma_same_nodes_refl(a: Seq<TreeNode>)
    ensures
        same_nodes(a, a),
    decreases a, 1int,
{
    assert forall|j: int| 0 <= j < a.len() implies same_node(#[trigger] a[j], a[j]) by {
        lemma_same_node_refl(a[j]);
    }
}

/// Toggling the same node twice gives back the tree.
pub proof fn lemma_toggle_twice(a: Seq<TreeNode>, b: Seq<TreeNode>, c: Seq<TreeNode>, p: Seq<usize>)
    requires
        toggled_at(a, b, p),
        toggled_at(b, c, p),
    ensures
        same_nodes(a, c),
    decreases p.len(),
{
    lemma_same_nodes_refl(a);
    if p.len() > 0 && p[0] < a.len() {
        let i = p[0] as int;
        if p.len() > 1 {
            lemma_toggle_twice(a[i].children@, b[i].children@, c[i].children@, p.drop_first());
        } else {
            lemma_same_nodes_refl(a[i].children@);
        }
        assert(same_node(a[i], c[i]));
        assert forall|j: int| 0 <= j < a.len() implies same_node(#[trigger] a[j], c[j]) by {
            if j != i {
                assert(c[j] == a[j]);
            }
        }
    }
}

/// Sets the depth of every node of `nodes` to its level below `depth`.
fn set_depths(nodes: &mut Vec<TreeNode>, depth: usize)
    requires
        depth + total_count_seq(old(nodes)@) <= usize::MAX,
    ensures
        final(nodes)@.len() == old(nodes)@.len(),
        forall|i: int|
            0 <= i < old(nodes)@.len() ==> depths_set(
                #[trigger] old(nodes)@[i],
                final(nodes)@[i],
                depth as int,
            ),
        total_count_seq(final(nodes)@) == total_count_seq(old(nodes)@),
    decreases old(nodes)@,
{
    let ghost old_nodes = nodes@;
    let mut i: usize = 0;
    while i < nodes.len()
        invariant
            old_nodes == old(nodes)@,
            depth + total_count_seq(old_nodes) <= usize::MAX,
            i <= nodes@.len(),
            nodes@.len() == old_nodes.len(),
            forall|j: int|
                0 <= j < i ==> depths_set(#[trigger] old_nodes[j], nodes@[j], depth as int),
            forall|j: int| 0 <= j < i ==> total_count(#[trigger] nodes@[j]) == total_count(old_nodes[j]),
            forall|j: int| i <= j < old_nodes.len() ==> nodes@[j] == old_nodes[j],
        decreases old_nodes.len() - i,
    {
        proof {
            lemma_total_count_elem(old_nodes, i as int);
            assert(decreases_to!(old(nodes)@ => old(nodes)@[i as int]));
            assert(decreases_to!(old(nodes)@[i as int] => old(nodes)@[i as int].children));
            assert(decreases_to!(old(nodes)@[i as int].children => old(nodes)@[i as int].children@));
        }
        nodes[i].depth = depth;
        set_depths(&mut nodes[i].children, depth + 1);
        i = i + 1;
    }
    proof {
        lemma_total_count_pointwise(old_nodes, nodes@);
    }
}

} // verus!

verus! {

/// A flat item matches a search query when the query, lowercased, occurs in its lowercased
/// label or its lowercased display text.
pub open spec fn item_matches(item: FlatItemView, query: Seq<char>) -> bool {
    contains_subseq(spec_to_lowercase(item.original_label), spec_to_lowercase(query))
        || contains_subseq(spec_to_lowercase(item.display), spec_to_lowercase(query))
}

/// The positions of the items that match the query, in order.
pub open spec fn spec_filter_indices(items: Seq<FlatItemView>, query: Seq<char>) -> Seq<usize>
    decreases items.len(),
{
    if items.len() == 0 {
        Seq::empty()
    } else {
        spec_filter_indices(items.drop_last(), query) + if item_matches(items.last(), query) {
            seq![(items.len() - 1) as usize]
        } else {
            Seq::<usize>::empty()
        }
    }
}

/// The contents of a sequence of strings.
pub open spec fn string_views(s: Seq<String>) -> Seq<Seq<char>> {
    s.map_values(|x: String| x@)
}

/// The display texts of the items at the positions `f`, skipping positions past the end.
pub open spec fn filtered_displays(f: Seq<usize>, items: Seq<FlatTreeItem>) -> Seq<Seq<char>>
    decreases f.len(),
{
    if f.len() == 0 {
        Seq::empty()
    } else {
        filtered_displays(f.drop_last(), items) + if f.last() < items.len() {
            seq![items[f.last() as int].display@]
        } else {
            Seq::<Seq<char>>::empty()
        }
    }
}

/// Tree navigation state and operations
pub struct TreeNavigator {
    pub tree_nodes: Vec<TreeNode>,
    pub flat_items: Vec<FlatTreeItem>,
    /// The selected row of the tree list, if any.
    pub selected: Option<usize>,
    pub search_query: String,
    pub search_mode: bool,
    pub filtered_indices: Vec<usize>,
}

impl TreeNavigator {
    /// The rows of the list are the filtered items: in search mode, when some items match.
    pub open spec fn uses_filter(&self) -> bool {
        self.search_mode && self.filtered_indices@.len() != 0
    }

    /// The number of rows of the list.
    pub open spec fn row_count(&self) -> int {
        if self.uses_filter() {
            self.filtered_indices@.len() as int
        } else {
            self.flat_items@.len() as int
        }
    }

    /// The position among the flat items of the selected row, if a row is selected and it
    /// maps to a position.
    pub open spec fn selected_item_index(&self) -> Option<int> {
        match self.selected {
            None => None,
            Some(sel) => if self.uses_filter() {
                if sel < self.filtered_indices@.len() {
                    Some(self.filtered_indices@[sel as int] as int)
                } else {
                    None
                }
            } else {
                Some(sel as int)
            },
        }
    }

    /// The flat items show the tree.
    pub open spec fn items_in_sync(&self) -> bool {
        flat_views(self.flat_items@) == spec_flatten_seq(self.tree_nodes@, 0)
    }

    /// The tree is small enough that counting its nodes, and their depths, fit in a `usize`.
    pub open spec fn fits(&self) -> bool {
        total_count_seq(self.tree_nodes@) <= usize::MAX
    }

    /// Flattens every root node from depth 0.
    fn flatten_tree(nodes: &Vec<TreeNode>) -> (r: Vec<FlatTreeItem>)
        requires
            total_count_seq(nodes@) <= usize::MAX,
        ensures
            flat_views(r@) == spec_flatten_seq(nodes@, 0),
    {
        proof {
            lemma_flatten_seq_bounds(nodes@, 0);
        }
        let mut result: Vec<FlatTreeItem> = Vec::new();
        let mut i: usize = 0;
        assert(nodes@.subrange(0, 0) =~= Seq::<TreeNode>::empty());
        assert(flat_views(result@) =~= Seq::<FlatItemView>::empty());
        while i < nodes.len()
            invariant
                i <= nodes@.len(),
                forall|j: int| 0 <= j < nodes@.len() ==> depth_fits(#[trigger] nodes@[j], 0),
                flat_views(result@) == spec_flatten_seq(nodes@.subrange(0, i as int), 0),
            decreases nodes@.len() - i,
        {
            assert(depth_fits(nodes@[i as int], 0));
            let mut sub = nodes[i].flatten(0);
            let ghost before = result@;
            let ghost sub_items = sub@;
            result.append(&mut sub);
            proof {
                let s = nodes@.subrange(0, i + 1);
                assert(s.drop_last() =~= nodes@.subrange(0, i as int));
                assert(s.last() == nodes@[i as int]);
                assert(flat_views(result@) =~= flat_views(before) + flat_views(sub_items));
            }
            i = i + 1;
        }
        assert(nodes@.subrange(0, nodes@.len() as int) =~= nodes@);
        result
    }

    /// Recomputes the positions of the items that match the search query; with an empty query,
    /// no item is filtered.
    fn update_search_filter(&mut self)
        ensures
            final(self).tree_nodes == old(self).tree_nodes,
            final(self).flat_items == old(self).flat_items,
            final(self).selected == old(self).selected,
            final(self).search_query == old(self).search_query,
            final(self).search_mode == old(self).search_mode,
            old(self).search_query@.len() == 0 ==> final(self).filtered_indices@.len() == 0,
            old(self).search_query@.len() != 0 ==> final(self).filtered_indices@
                == spec_filter_indices(flat_views(old(self).flat_items@), old(self).search_query@),
    {
        if self.search_query.as_str().is_empty() {
            self.filtered_indices.clear();
            return;
        }
        let query_lower = to_lowercase(self.search_query.as_str());
        let mut filtered: Vec<usize> = Vec::new();
        let mut i: usize = 0;
        let ghost items = flat_views(self.flat_items@);
        assert(items.subrange(0, 0) =~= Seq::<FlatItemView>::empty());
        while i < self.flat_items.len()
            invariant
                items == flat_views(self.flat_items@),
                query_lower@ == spec_to_lowercase(self.search_query@),
                i <= self.flat_items@.len(),
                filtered@ == spec_filter_indices(items.subrange(0, i as int), self.search_query@),
            decreases self.flat_items@.len() - i,
        {
            let item = &self.flat_items[i];
            let label_lower = to_lowercase(item.original_label.as_str());
            let display_lower = to_lowercase(item.display.as_str());
            let m = str_contains(label_lower.as_str(), query_lower.as_str()) || str_contains(
                display_lower.as_str(),
                query_lower.as_str(),
            );
            if m {
                filtered.push(i);
            }
            proof {
                let s = items.subrange(0, i + 1);
                assert(s.drop_last() =~= items.subrange(0, i as int));
                assert(s.last() == item@);
                assert(filtered@ =~= spec_filter_indices(s, self.search_query@));
            }
            i = i + 1;
        }
        assert(items.subrange(0, items.len() as int) =~= items);
        self.filtered_indices = filtered;
    }

    /// Recomputes the flat items from the tree, and, in search mode with a query, the matches.
    pub fn update_flat_items(&mut self)
        requires
            old(self).fits(),
        ensures
            final(self).items_in_sync(),
            final(self).tree_nodes == old(self).tree_nodes,
            final(self).selected == old(self).selected,
            final(self).search_query == old(self).search_query,
            final(self).search_mode == old(self).search_mode,
            old(self).search_mode && old(self).search_query@.len() != 0
                ==> final(self).filtered_indices@ == spec_filter_indices(
                flat_views(final(self).flat_items@),
                old(self).search_query@,
            ),
            !(old(self).search_mode && old(self).search_query@.len() != 0)
                ==> final(self).filtered_indices == old(self).filtered_indices,
    {
        self.flat_items = Self::flatten_tree(&self.tree_nodes);
        if self.search_mode && !self.search_query.as_str().is_empty() {
            self.update_search_filter();
        }
    }

    /// The display text of each row of the list: the filtered items in search mode when some
    /// items match (skipping positions past the end of the items), otherwise every item.
    pub fn get_visible_items(&self) -> (r: Vec<String>)
        ensures
            string_views(r@) == (if self.uses_filter() {
                filtered_displays(self.filtered_indices@, self.flat_items@)
            } else {
                self.flat_items@.map_values(|x: FlatTreeItem| x.display@)
            }),
    {
        let mut r: Vec<String> = Vec::new();
        if self.search_mode && self.filtered_indices.len() != 0 {
            let mut j: usize = 0;
            assert(self.filtered_indices@.subrange(0, 0) =~= Seq::<usize>::empty());
            assert(string_views(r@) =~= Seq::<Seq<char>>::empty());
            while j < self.filtered_indices.len()
                invariant
                    j <= self.filtered_indices@.len(),
                    string_views(r@) == filtered_displays(
                        self.filtered_indices@.subrange(0, j as int),
                        self.flat_items@,
                    ),
                decreases self.filtered_indices@.len() - j,
            {
                let idx = self.filtered_indices[j];
                let ghost before = r@;
                if idx < self.flat_items.len() {
                    let d = self.flat_items[idx].display.clone();
                    r.push(d);
                }
                proof {
                    let f = self.filtered_indices@.subrange(0, j + 1);
                    assert(f.drop_last() =~= self.filtered_indices@.subrange(0, j as int));
                    assert(f.last() == idx);
                    assert(string_views(r@) =~= filtered_displays(f, self.flat_items@));
                }
                j = j + 1;
            }
            assert(self.filtered_indices@.subrange(0, self.filtered_indices@.len() as int)
                =~= self.filtered_indices@);
        } else {
            let mut i: usize = 0;
            while i < self.flat_items.len()
                invariant
                    i <= self.flat_items@.len(),
                    r@.len() == i,
                    string_views(r@) == self.flat_items@.subrange(0, i as int).map_values(
                        |x: FlatTreeItem| x.display@,
                    ),
                decreases self.flat_items@.len() - i,
            {
                let d = self.flat_items[i].display.clone();
                let ghost before = r@;
                r.push(d);
                proof {
                    let t = self.flat_items@.subrange(0, i + 1).map_values(
                        |x: FlatTreeItem| x.display@,
                    );
                    let t0 = self.flat_items@.subrange(0, i as int).map_values(
                        |x: FlatTreeItem| x.display@,
                    );
                    assert(string_views(before) == t0);
                    assert(r@[i as int]@ == self.flat_items@[i as int].display@);
                    assert forall|k: int| 0 <= k < i + 1 implies #[trigger] string_views(r@)[k]
                        == t[k] by {
                        if k < i {
                            assert(string_views(r@)[k] == string_views(before)[k]);
                            assert(t[k] == t0[k]);
                        }
                    }
                    assert(string_views(r@) =~= t);
                }
                i = i + 1;
            }
            assert(self.flat_items@.subrange(0, self.flat_items@.len() as int)
                =~= self.flat_items@);
        }
        r
    }

    /// The id of the node at the selected row, if any.
    pub fn get_selected_node_id(&self) -> (r: Option<TreeNodeId>)
        ensures
            r == (match self.selected_item_index() {
                Some(i) => if i < self.flat_items@.len() {
                    Some(self.flat_items@[i].id)
                } else {
                    None
                },
                None => None,
            }),
    {
        if let Some(selected) = self.selected {
            if self.search_mode && self.filtered_indices.len() != 0 {
                if selected < self.filtered_indices.len() {
                    let i = self.filtered_indices[selected];
                    if i < self.flat_items.len() {
                        return Some(self.flat_items[i].id);
                    }
                }
                None
            } else {
                if selected < self.flat_items.len() {
                    Some(self.flat_items[selected].id)
                } else {
                    None
                }
            }
        } else {
            None
        }
    }

    fn max_items(&self) -> (r: usize)
        ensures
            r == self.row_count(),
    {
        if self.search_mode && self.filtered_indices.len() != 0 {
            self.filtered_indices.len()
        } else {
            self.flat_items.len()
        }
    }

    /// Moves the selection one row up; with no selection, selects the first row. Does nothing
    /// when the list is empty.
    pub fn move_up(&mut self)
        ensures
            final(self).selected == selection_after_up(old(self).selected, old(self).row_count()),
            final(self).tree_nodes == old(self).tree_nodes,
            final(self).flat_items == old(self).flat_items,
            final(self).search_query == old(self).search_query,
            final(self).search_mode == old(self).search_mode,
            final(self).filtered_indices == old(self).filtered_indices,
    {
        let max_items = self.max_items();
        if max_items == 0 {
            return;
        }
        if let Some(selected) = self.selected {
            if selected > 0 {
                self.selected = Some(selected - 1);
            }
        } else {
            self.selected = Some(0);
        }
    }

    /// Moves the selection one row down, up to the last row; with no selection, selects the
    /// first row. Does nothing when the list is empty.
    pub fn move_down(&mut self)
        ensures
            final(self).selected == selection_after_down(old(self).selected, old(self).row_count()),
            final(self).tree_nodes == old(self).tree_nodes,
            final(self).flat_items == old(self).flat_items,
            final(self).search_query == old(self).search_query,
            final(self).search_mode == old(self).search_mode,
            final(self).filtered_indices == old(self).filtered_indices,
    {
        let max_items = self.max_items();
        if max_items == 0 {
            return;
        }
        if let Some(selected) = self.selected {
            if selected < max_items - 1 {
                self.selected = Some(selected + 1);
            }
        } else {
            self.selected = Some(0);
        }
    }
}

} // verus!

verus! {

/// Sequences whose nodes have the given counts pointwise have the sum of them.
proof fn lemma_visible_total_pointwise(s: Seq<TreeNode>)
    requires
        forall|j: int| 0 <= j < s.len() ==> visible_count(#[trigger] s[j]) == total_count(s[j]),
    ensures
        visible_count_seq(s) == total_count_seq(s),
    decreases s.len(),
{
    if s.len() > 0 {
        let s1 = s.drop_last();
        assert forall|j: int| 0 <= j < s1.len() implies visible_count(#[trigger] s1[j])
            == total_count(s1[j]) by {
            assert(s1[j] == s[j]);
        }
        lemma_visible_total_pointwise(s1);
    }
}

/// Setting every node's expansion keeps the number of nodes; when every node is expanded,
/// every node is shown, and when every node is collapsed, only the node itself is.
pub proof fn lemma_expanded_counts(a: TreeNode, b: TreeNode, e: bool)
    requires
        same_tree_expanded(a, b, e),
    ensures
        total_count(b) == total_count(a),
        e ==> visible_count(b) == total_count(b),
        !e ==> visible_count(b) == 1,
    decreases a,
{
    assert forall|j: int| 0 <= j < a.children@.len() implies total_count(
        #[trigger] a.children@[j],
    ) == total_count(b.children@[j]) && (e ==> visible_count(b.children@[j]) == total_count(
        b.children@[j],
    )) by {
        lemma_expanded_counts(a.children@[j], b.children@[j], e);
    }
    lemma_total_count_pointwise(a.children@, b.children@);
    if e {
        assert forall|j: int| 0 <= j < b.children@.len() implies visible_count(
            #[trigger] b.children@[j],
        ) == total_count(b.children@[j]) by {
            lemma_expanded_counts(a.children@[j], b.children@[j], e);
        }
        lemma_visible_total_pointwise(b.children@);
    }
}

/// The count of a sequence of trees is the sum of the counts of its trees; sequences whose
/// trees are all shown alone show as many items as they have trees.
proof fn lemma_visible_roots(s: Seq<TreeNode>)
    requires
        forall|j: int| 0 <= j < s.len() ==> visible_count(#[trigger] s[j]) == 1,
    ensures
        visible_count_seq(s) == s.len(),
    decreases s.len(),
{
    if s.len() > 0 {
        let s1 = s.drop_last();
        assert forall|j: int| 0 <= j < s1.len() implies visible_count(#[trigger] s1[j]) == 1 by {
            assert(s1[j] == s[j]);
        }
        lemma_visible_roots(s1);
    }
}

/// Toggling at a path flips the expansion of the node at the end of the path, when there is
/// one.
pub proof fn lemma_toggled_at_flips(a: Seq<TreeNode>, b: Seq<TreeNode>, p: Seq<usize>)
    requires
        toggled_at(a, b, p),
        node_at_path(a, p) is Some,
    ensures
        node_at_path(b, p) is Some,
        node_at_path(b, p)->Some_0.is_expanded == !node_at_path(a, p)->Some_0.is_expanded,
        node_at_path(b, p)->Some_0.label == node_at_path(a, p)->Some_0.label,
        node_at_path(b, p)->Some_0.id == node_at_path(a, p)->Some_0.id,
        node_at_path(b, p)->Some_0.children == node_at_path(a, p)->Some_0.children,
    decreases p.len(),
{
    if p.len() > 1 {
        let i = p[0] as int;
        lemma_toggled_at_flips(a[i].children@, b[i].children@, p.drop_first());
    }
}

/// A path that finding a position gives starts with the index of one of the siblings.
proof fn lemma_find_path_first(s: Seq<TreeNode>, t: int)
    ensures
        spec_find_path_seq(s, t) matches Some(p) ==> p.len() >= 1 && p[0] < s.len(),
    decreases s.len(),
{
    if s.len() > 0 {
        lemma_find_path_first(s.drop_last(), t);
    }
}

/// Toggling a node that is not the last sibling leaves the last sibling alone, and toggles the
/// same node among the others.
proof fn lemma_toggle_drop_last(a: Seq<TreeNode>, b: Seq<TreeNode>, p: Seq<usize>)
    requires
        toggled_at(a, b, p),
        p.len() >= 1,
        p[0] < a.len() - 1,
    ensures
        toggled_at(a.drop_last(), b.drop_last(), p),
        b.len() == a.len(),
        b.last() == a.last(),
{
    let i = p[0] as int;
    assert(b[a.len() - 1] == a[a.len() - 1]);
    assert(a.drop_last()[i] == a[i]);
    assert(b.drop_last()[i] == b[i]);
    assert forall|j: int| 0 <= j < a.drop_last().len() && j != i implies b.drop_last()[j]
        == a.drop_last()[j] by {
        assert(b[j] == a[j]);
    }
}

/// After toggling the node that flattening shows at position `t`, finding the path of `t`
/// still leads to that node: the items before it, and the node itself, stay where they were.
pub proof fn lemma_toggle_keeps_path(a: Seq<TreeNode>, b: Seq<TreeNode>, p: Seq<usize>, t: int)
    requires
        toggled_at(a, b, p),
        spec_find_path_seq(a, t) == Some(p),
        a.len() <= usize::MAX,
    ensures
        spec_find_path_seq(b, t) == Some(p),
    decreases p.len(), a.len(),
{
    lemma_find_path_first(a, t);
    let c = visible_count_seq(a.drop_last());
    if t < c {
        lemma_find_path_first(a.drop_last(), t);
        lemma_toggle_drop_last(a, b, p);
        lemma_toggle_keeps_path(a.drop_last(), b.drop_last(), p, t);
        lemma_find_path_some_bounds(b.drop_last(), t);
        assert(t < visible_count_seq(b.drop_last()));
        assert(spec_find_path_seq(b, t) == spec_find_path_seq(b.drop_last(), t));
    } else {
        let q = spec_find_path_node(a.last(), t - c)->Some_0;
        let last = (a.len() - 1) as usize;
        assert(p == seq![last] + q);
        assert((seq![last] + q)[0] == last);
        assert(p[0] == a.len() - 1);
        assert(b.drop_last() =~= a.drop_last()) by {
            assert forall|j: int| 0 <= j < a.len() - 1 implies b[j] == a[j] by {}
        }
        assert(p.drop_first() =~= q);
        if t - c != 0 {
            let r = spec_find_path_seq(a.last().children@, t - c - 1);
            lemma_find_path_first(a.last().children@, t - c - 1);
            assert(r == Some(q));
            assert(p.len() > 1);
            assert(a.last().children@.len() == a.last().children.len());
            lemma_toggle_keeps_path(a.last().children@, b.last().children@, q, t - c - 1);
            assert(b.last().is_expanded == a.last().is_expanded);
            assert(spec_find_path_node(b.last(), t - c) == Some(q));
        } else {
            assert(q.len() == 0);
            assert(spec_find_path_node(b.last(), t - c) == Some(q));
        }
        assert(visible_count_seq(b.drop_last()) == c);
        assert(spec_find_path_seq(b, t) == Some(seq![last] + q));
    }
}

/// Two sequences of trees that are the same node by node flatten to the same items.
proof fn lemma_same_nodes_flatten(a: Seq<TreeNode>, c: Seq<TreeNode>, d: int)
    requires
        same_nodes(a, c),
    ensures
        spec_flatten_seq(a, d) == spec_flatten_seq(c, d),
    decreases a, 1int,
{
    if a.len() > 0 {
        assert(same_nodes(a.drop_last(), c.drop_last())) by {
            assert forall|j: int| 0 <= j < a.drop_last().len() implies same_node(
                #[trigger] a.drop_last()[j],
                c.drop_last()[j],
            ) by {
                assert(same_node(a[j], c[j]));
            }
        }
        assert(same_node(a[a.len() - 1], c[a.len() - 1]));
        lemma_same_nodes_flatten(a.drop_last(), c.drop_last(), d);
        lemma_same_node_flatten(a.last(), c.last(), d);
    }
}

/// Two trees that are the same node by node flatten to the same items.
proof fn lemma_same_node_flatten(a: TreeNode, c: TreeNode, d: int)
    requires
        same_node(a, c),
    ensures
        spec_flatten(a, d) == spec_flatten(c, d),
    decreases a, 0int,
{
    lemma_same_nodes_flatten(a.children@, c.children@, d + 1);
    assert(spec_flat_item(a, d) == spec_flat_item(c, d));
}

/// Toggling the selected node twice in a row, outside search mode, gives back the tree and its
/// rows: the second toggle acts on the node that the first one flipped, and flips it back.
pub proof fn lemma_toggle_round_trip(n0: TreeNavigator, n1: TreeNavigator, n2: TreeNavigator)
    requires
        !n0.search_mode,
        n0.items_in_sync(),
        n0.toggle_target() is Some,
        toggled_at(n0.tree_nodes@, n1.tree_nodes@, n0.toggle_target()->Some_0),
        n1.items_in_sync(),
        n1.selected == n0.selected,
        n1.search_mode == n0.search_mode,
        n1.toggle_target() matches Some(q) ==> toggled_at(n1.tree_nodes@, n2.tree_nodes@, q)
            && n2.items_in_sync(),
    ensures
        n1.toggle_target() == n0.toggle_target(),
        same_nodes(n0.tree_nodes@, n2.tree_nodes@),
        flat_views(n2.flat_items@) == flat_views(n0.flat_items@),
{
    let p = n0.toggle_target()->Some_0;
    let a = n0.selected_item_index()->Some_0;
    assert(n0.tree_nodes@.len() == n0.tree_nodes.len());
    assert(n1.tree_nodes@.len() == n1.tree_nodes.len());
    lemma_find_path_shows(n0.tree_nodes@, a, 0);
    lemma_flatten_seq_len(n0.tree_nodes@, 0);
    lemma_toggled_at_flips(n0.tree_nodes@, n1.tree_nodes@, p);
    lemma_toggle_keeps_path(n0.tree_nodes@, n1.tree_nodes@, p, a);
    lemma_find_path_shows(n1.tree_nodes@, a, 0);
    lemma_flatten_seq_len(n1.tree_nodes@, 0);
    assert(n1.selected_item_index() == Some(a));
    assert(n1.toggle_target() == Some(p));
    lemma_toggle_twice(n0.tree_nodes@, n1.tree_nodes@, n2.tree_nodes@, p);
    lemma_same_nodes_flatten(n0.tree_nodes@, n2.tree_nodes@, 0);
}

impl TreeNavigator {
    /// The path to the node that the position `target_index` of the flat items shows.
    fn find_node_path(&self, target_index: usize) -> (r: Option<Vec<usize>>)
        requires
            self.fits(),
        ensures
            match r {
                Some(p) => spec_find_path_seq(self.tree_nodes@, target_index as int) == Some(p@),
                None => spec_find_path_seq(self.tree_nodes@, target_index as int) is None,
            },
    {
        proof {
            lemma_flatten_seq_bounds(self.tree_nodes@, 0);
            lemma_flatten_seq_len(self.tree_nodes@, 0);
        }
        let mut path: Vec<usize> = Vec::new();
        let mut current: usize = 0;
        let r = find_path_recursive(&self.tree_nodes, target_index, &mut current, &mut path);
        match r {
            Some(p) => {
                proof {
                    let q = choose|q: Seq<usize>|
                        spec_find_path_seq(self.tree_nodes@, target_index as int) == Some(q)
                            && p@ == Seq::<usize>::empty() + q;
                    assert(Seq::<usize>::empty() + q =~= q);
                }
                Some(p)
            },
            None => None,
        }
    }

    /// Flips the expansion of the node at `path` in the tree; does nothing when the path leads
    /// nowhere.
    fn toggle_node_by_path(&mut self, path: &[usize])
        ensures
            toggled_at(old(self).tree_nodes@, final(self).tree_nodes@, path@),
            final(self).flat_items == old(self).flat_items,
            final(self).selected == old(self).selected,
            final(self).search_query == old(self).search_query,
            final(self).search_mode == old(self).search_mode,
            final(self).filtered_indices == old(self).filtered_indices,
    {
        if path.len() == 0 {
            return;
        }
        toggle_in(&mut self.tree_nodes, path, 0);
        assert(path@.subrange(0, path@.len() as int) =~= path@);
    }

    /// The path of the node that toggling the selection acts on: the node shown at the
    /// selected row, when it has children.
    pub open spec fn toggle_target(&self) -> Option<Seq<usize>> {
        match self.selected_item_index() {
            Some(a) => if a < self.flat_items@.len() && self.flat_items@[a].has_children {
                spec_find_path_seq(self.tree_nodes@, a)
            } else {
                None
            },
            None => None,
        }
    }

    /// Expands or collapses the node at the selected row, when it has children, and updates
    /// the flat items.
    pub fn toggle_selected_node(&mut self)
        requires
            old(self).fits(),
        ensures
            match old(self).toggle_target() {
                Some(p) => {
                    &&& toggled_at(old(self).tree_nodes@, final(self).tree_nodes@, p)
                    &&& final(self).items_in_sync()
                    &&& final(self).selected == old(self).selected
                    &&& final(self).search_query == old(self).search_query
                    &&& final(self).search_mode == old(self).search_mode
                    &&& old(self).search_mode && old(self).search_query@.len() != 0
                        ==> final(self).filtered_indices@ == spec_filter_indices(
                        flat_views(final(self).flat_items@),
                        old(self).search_query@,
                    )
                    &&& !(old(self).search_mode && old(self).search_query@.len() != 0)
                        ==> final(self).filtered_indices == old(self).filtered_indices
                },
                None => *final(self) == *old(self),
            },
            final(self).fits(),
    {
        if let Some(selected) = self.selected {
            let actual_index = if self.search_mode && self.filtered_indices.len() != 0 {
                if selected < self.filtered_indices.len() {
                    self.filtered_indices[selected]
                } else {
                    return;
                }
            } else {
                selected
            };
            if actual_index >= self.flat_items.len() {
                return;
            }
            let has_children = self.flat_items[actual_index].has_children;
            if !has_children {
                return;
            }
            if let Some(path) = self.find_node_path(actual_index) {
                let ghost before = self.tree_nodes@;
                self.toggle_node_by_path(path.as_slice());
                proof {
                    lemma_toggle_keeps_count(before, self.tree_nodes@, path@);
                }
                self.update_flat_items();
            }
        }
    }

    /// The path of the node that the selected row shows, when it has children.
    fn selected_target_path(&self) -> (r: Option<Vec<usize>>)
        requires
            self.fits(),
        ensures
            match r {
                Some(p) => self.toggle_target() == Some(p@),
                None => self.toggle_target() is None,
            },
    {
        let selected = match self.selected {
            Some(s) => s,
            None => return None,
        };
        let actual_index = if self.search_mode && self.filtered_indices.len() != 0 {
            if selected < self.filtered_indices.len() {
                self.filtered_indices[selected]
            } else {
                return None;
            }
        } else {
            selected
        };
        if actual_index >= self.flat_items.len() || !self.flat_items[actual_index].has_children {
            return None;
        }
        self.find_node_path(actual_index)
    }

    /// Expands the node at the selected row, when it has children and is collapsed, and
    /// updates the flat items; otherwise does nothing.
    pub fn expand_selected_node(&mut self)
        requires
            old(self).fits(),
        ensures
            final(self).fits(),
            match old(self).toggle_target() {
                Some(p) => if node_at_path(old(self).tree_nodes@, p) matches Some(n)
                    && !n.is_expanded {
                    &&& toggled_at(old(self).tree_nodes@, final(self).tree_nodes@, p)
                    &&& final(self).items_in_sync()
                    &&& final(self).selected == old(self).selected
                    &&& final(self).search_query == old(self).search_query
                    &&& final(self).search_mode == old(self).search_mode
                    &&& filter_refreshed(*old(self), *final(self))
                } else {
                    *final(self) == *old(self)
                },
                None => *final(self) == *old(self),
            },
    {
        if let Some(path) = self.selected_target_path() {
            if path.len() > 0 && expanded_at(&self.tree_nodes, path.as_slice(), 0) == Some(false) {
                proof {
                    assert(path@.subrange(0, path@.len() as int) =~= path@);
                }
                let ghost before = self.tree_nodes@;
                self.toggle_node_by_path(path.as_slice());
                proof {
                    lemma_toggle_keeps_count(before, self.tree_nodes@, path@);
                }
                self.update_flat_items();
            } else {
                proof {
                    assert(path@.subrange(0, path@.len() as int) =~= path@);
                }
            }
        }
    }

    /// Collapses the node at the selected row, when it has children and is expanded;
    /// otherwise, outside a search, selects the row of its parent: the nearest row above with a
    /// smaller depth. Does nothing when there is neither.
    pub fn collapse_or_navigate_to_parent(&mut self)
        requires
            old(self).fits(),
        ensures
            final(self).fits(),
            match old(self).toggle_target() {
                Some(p) if node_at_path(old(self).tree_nodes@, p) matches Some(n)
                    && n.is_expanded => {
                    &&& toggled_at(old(self).tree_nodes@, final(self).tree_nodes@, p)
                    &&& final(self).items_in_sync()
                    &&& final(self).selected == old(self).selected
                    &&& final(self).search_query == old(self).search_query
                    &&& final(self).search_mode == old(self).search_mode
                    &&& filter_refreshed(*old(self), *final(self))
                },
                _ => {
                    &&& final(self).tree_nodes == old(self).tree_nodes
                    &&& final(self).flat_items == old(self).flat_items
                    &&& final(self).search_query == old(self).search_query
                    &&& final(self).search_mode == old(self).search_mode
                    &&& final(self).filtered_indices == old(self).filtered_indices
                    &&& final(self).selected == (match (old(self).uses_filter(), old(self).selected) {
                        (false, Some(s)) => match parent_row(flat_views(old(self).flat_items@), s as int) {
                            Some(k) => Some(k as usize),
                            None => old(self).selected,
                        },
                        _ => old(self).selected,
                    })
                },
            },
    {
        let target = self.selected_target_path();
        if let Some(path) = target {
            proof {
                assert(path@.subrange(0, path@.len() as int) =~= path@);
            }
            if path.len() > 0 && expanded_at(&self.tree_nodes, path.as_slice(), 0) == Some(true) {
                let ghost before = self.tree_nodes@;
                self.toggle_node_by_path(path.as_slice());
                proof {
                    lemma_toggle_keeps_count(before, self.tree_nodes@, path@);
                }
                self.update_flat_items();
                return;
            }
        }
        if self.search_mode && self.filtered_indices.len() != 0 {
            return;
        }
        if let Some(s) = self.selected {
            if let Some(k) = self.find_parent_row(s) {
                self.selected = Some(k);
            }
        }
    }

    /// The nearest row above row `a` whose depth is smaller than that of row `a`.
    fn find_parent_row(&self, a: usize) -> (r: Option<usize>)
        ensures
            r == (match parent_row(flat_views(self.flat_items@), a as int) {
                Some(k) => Some(k as usize),
                None => None,
            }),
    {
        if a >= self.flat_items.len() {
            return None;
        }
        let d = self.flat_items[a].depth;
        let ghost items = flat_views(self.flat_items@);
        let mut k = a;
        while k > 0
            invariant
                items == flat_views(self.flat_items@),
                a < items.len(),
                d == items[a as int].depth,
                k <= a,
                last_shallower(items, d as int, k as int - 1) == last_shallower(
                    items,
                    d as int,
                    a as int - 1,
                ),
            decreases k,
        {
            if self.flat_items[k - 1].depth < d {
                return Some(k - 1);
            }
            k = k - 1;
        }
        None
    }

    /// Expands every node and updates the flat items.
    pub fn expand_all(&mut self)
        requires
            old(self).fits(),
        ensures
            final(self).tree_nodes@.len() == old(self).tree_nodes@.len(),
            forall|i: int|
                0 <= i < old(self).tree_nodes@.len() ==> same_tree_expanded(
                    #[trigger] old(self).tree_nodes@[i],
                    final(self).tree_nodes@[i],
                    true,
                ),
            final(self).items_in_sync(),
            final(self).fits(),
            final(self).selected == old(self).selected,
            final(self).search_query == old(self).search_query,
            final(self).search_mode == old(self).search_mode,
            old(self).search_mode && old(self).search_query@.len() != 0
                ==> final(self).filtered_indices@ == spec_filter_indices(
                flat_views(final(self).flat_items@),
                old(self).search_query@,
            ),
            !(old(self).search_mode && old(self).search_query@.len() != 0)
                ==> final(self).filtered_indices == old(self).filtered_indices,
    {
        self.set_all_roots_expanded(true);
        self.update_flat_items();
    }

    /// Collapses every node and updates the flat items.
    pub fn collapse_all(&mut self)
        requires
            old(self).fits(),
        ensures
            final(self).tree_nodes@.len() == old(self).tree_nodes@.len(),
            forall|i: int|
                0 <= i < old(self).tree_nodes@.len() ==> same_tree_expanded(
                    #[trigger] old(self).tree_nodes@[i],
                    final(self).tree_nodes@[i],
                    false,
                ),
            final(self).items_in_sync(),
            final(self).fits(),
            final(self).selected == old(self).selected,
            final(self).search_query == old(self).search_query,
            final(self).search_mode == old(self).search_mode,
            old(self).search_mode && old(self).search_query@.len() != 0
                ==> final(self).filtered_indices@ == spec_filter_indices(
                flat_views(final(self).flat_items@),
                old(self).search_query@,
            ),
            !(old(self).search_mode && old(self).search_query@.len() != 0)
                ==> final(self).filtered_indices == old(self).filtered_indices,
    {
        self.set_all_roots_expanded(false);
        self.update_flat_items();
    }

    fn set_all_roots_expanded(&mut self, e: bool)
        requires
            old(self).fits(),
        ensures
            final(self).tree_nodes@.len() == old(self).tree_nodes@.len(),
            forall|i: int|
                0 <= i < old(self).tree_nodes@.len() ==> same_tree_expanded(
                    #[trigger] old(self).tree_nodes@[i],
                    final(self).tree_nodes@[i],
                    e,
                ),
            final(self).fits(),
            final(self).flat_items == old(self).flat_items,
            final(self).selected == old(self).selected,
            final(self).search_query == old(self).search_query,
            final(self).search_mode == old(self).search_mode,
            final(self).filtered_indices == old(self).filtered_indices,
    {
        let ghost old_nodes = self.tree_nodes@;
        let mut i: usize = 0;
        while i < self.tree_nodes.len()
            invariant
                old_nodes == old(self).tree_nodes@,
                self.flat_items == old(self).flat_items,
                self.selected == old(self).selected,
                self.search_query == old(self).search_query,
                self.search_mode == old(self).search_mode,
                self.filtered_indices == old(self).filtered_indices,
                i <= self.tree_nodes@.len(),
                self.tree_nodes@.len() == old_nodes.len(),
                forall|j: int|
                    0 <= j < i ==> same_tree_expanded(
                        #[trigger] old_nodes[j],
                        self.tree_nodes@[j],
                        e,
                    ),
                forall|j: int|
                    i <= j < old_nodes.len() ==> self.tree_nodes@[j] == old_nodes[j],
            decreases old_nodes.len() - i,
        {
            if e {
                self.tree_nodes[i].expand_all();
            } else {
                self.tree_nodes[i].collapse_all();
            }
            i = i + 1;
        }
        proof {
            assert forall|j: int| 0 <= j < old_nodes.len() implies total_count(
                #[trigger] old_nodes[j],
            ) == total_count(self.tree_nodes@[j]) by {
                lemma_expanded_counts(old_nodes[j], self.tree_nodes@[j], e);
            }
            lemma_total_count_pointwise(old_nodes, self.tree_nodes@);
        }
    }
}

} // verus!

verus! {

impl TreeNavigator {
    /// Enters search mode with an empty query and no matches.
    pub fn enter_search_mode(&mut self)
        ensures
            final(self).search_mode,
            final(self).search_query@.len() == 0,
            final(self).filtered_indices@.len() == 0,
            final(self).tree_nodes == old(self).tree_nodes,
            final(self).flat_items == old(self).flat_items,
            final(self).selected == old(self).selected,
    {
        self.search_mode = true;
        self.search_query = String::new();
        self.filtered_indices.clear();
    }

    /// Leaves search mode, clearing the query, the matches and the selection.
    pub fn exit_search_mode(&mut self)
        ensures
            !final(self).search_mode,
            final(self).search_query@.len() == 0,
            final(self).filtered_indices@.len() == 0,
            final(self).selected is None,
            final(self).tree_nodes == old(self).tree_nodes,
            final(self).flat_items == old(self).flat_items,
    {
        self.search_mode = false;
        self.search_query = String::new();
        self.filtered_indices.clear();
        self.selected = None;
    }

    /// Sets the search query, recomputes the matches, and selects the first match, if any.
    pub fn update_search_query(&mut self, query: String)
        ensures
            final(self).search_query@ == query@,
            query@.len() == 0 ==> final(self).filtered_indices@.len() == 0,
            query@.len() != 0 ==> final(self).filtered_indices@ == spec_filter_indices(
                flat_views(old(self).flat_items@),
                query@,
            ),
            final(self).selected == (if final(self).filtered_indices@.len() == 0 {
                None
            } else {
                Some(0usize)
            }),
            final(self).tree_nodes == old(self).tree_nodes,
            final(self).flat_items == old(self).flat_items,
            final(self).search_mode == old(self).search_mode,
    {
        self.search_query = query;
        self.update_search_filter();
        self.selected = if self.filtered_indices.len() == 0 {
            None
        } else {
            Some(0)
        };
    }

    /// A line that describes the search: empty outside search mode, a prompt while the query
    /// is empty, and otherwise the query and the number of matches.
    pub fn get_search_status(&self) -> (r: String)
        ensures
            r@ == (if !self.search_mode {
                Seq::<char>::empty()
            } else if self.search_query@.len() == 0 {
                "Search: (type to search)"@
            } else {
                "Search: "@ + self.search_query@ + " ("@ + decimal_chars(
                    self.filtered_indices@.len(),
                ) + " matches)"@
            }),
    {
        if !self.search_mode {
            return String::new();
        }
        if self.search_query.as_str().is_empty() {
            return String::from_str("Search: (type to search)");
        }
        let mut s = String::from_str("Search: ");
        s.append(self.search_query.as_str());
        s.append(" (");
        push_decimal(&mut s, self.filtered_indices.len());
        s.append(" matches)");
        s
    }
}

} // verus!

verus! {

/// The labels of the children of the Debug Info root, in order.
pub open spec fn debug_info_child_label(k: int) -> Seq<char> {
    if k == 0 {
        "Modules"@
    } else if k == 1 {
        "Names"@
    } else if k == 2 {
        "Globals"@
    } else if k == 3 {
        "Types"@
    } else if k == 4 {
        "Symbols"@
    } else {
        "Streams"@
    }
}

/// The ids of the children of the Debug Info root, in order.
pub open spec fn debug_info_child_id(k: int) -> TreeNodeId {
    if k == 0 {
        TreeNodeId::Modules
    } else if k == 1 {
        TreeNodeId::Names
    } else if k == 2 {
        TreeNodeId::Globals
    } else if k == 3 {
        TreeNodeId::Types
    } else if k == 4 {
        TreeNodeId::Symbols
    } else {
        TreeNodeId::Streams
    }
}

/// The number of stream nodes that the initial tree has.
pub const INITIAL_STREAM_NODES: usize = 50;

/// The tree that the browser starts with: one collapsed Debug Info root, labelled with the
/// file name, whose children are Modules, Names, Globals, Types, Symbols and Streams; the
/// Streams node has one child per stream, "Stream #0" to "Stream #49". Depths are the levels.
pub open spec fn is_initial_tree(nodes: Seq<TreeNode>, file_name: Seq<char>) -> bool {
    &&& nodes.len() == 1
    &&& nodes[0].label@ == file_name
    &&& nodes[0].id == TreeNodeId::DebugInfo
    &&& !nodes[0].is_expanded
    &&& nodes[0].depth == 0
    &&& nodes[0].children@.len() == 6
    &&& forall|k: int|
        0 <= k < 6 ==> {
            let c = #[trigger] nodes[0].children@[k];
            &&& c.label@ == debug_info_child_label(k)
            &&& c.id == debug_info_child_id(k)
            &&& !c.is_expanded
            &&& c.depth == 1
            &&& k < 5 ==> c.children@.len() == 0
        }
    &&& nodes[0].children@[5].children@.len() == INITIAL_STREAM_NODES
    &&& forall|i: int|
        0 <= i < INITIAL_STREAM_NODES ==> {
            let c = #[trigger] nodes[0].children@[5].children@[i];
            &&& c.label@ == "Stream #"@ + decimal_chars(i as nat)
            &&& c.id == (TreeNodeId::Stream { index: i as u32 })
            &&& !c.is_expanded
            &&& c.depth == 2
            &&& c.children@.len() == 0
        }
}

/// A sequence of trees, each of at most `k` nodes, has at most `k` nodes per tree.
proof fn lemma_count_bound(s: Seq<TreeNode>, k: nat)
    requires
        forall|j: int| 0 <= j < s.len() ==> total_count(#[trigger] s[j]) <= k,
    ensures
        total_count_seq(s) <= k * s.len(),
    decreases s.len(),
{
    if s.len() > 0 {
        let s1 = s.drop_last();
        assert forall|j: int| 0 <= j < s1.len() implies total_count(#[trigger] s1[j]) <= k by {
            assert(s1[j] == s[j]);
        }
        lemma_count_bound(s1, k);
        assert(total_count(s[s.len() - 1]) <= k);
        assert(k * (s.len() - 1) + k == k * s.len()) by (nonlinear_arith);
    }
}

impl TreeNavigator {
    /// Build the complete PDB tree structure
    fn build_pdb_tree(file_name: &str) -> (r: Vec<TreeNode>)
        ensures
            is_initial_tree(r@, file_name@),
    {
        let mut stream_children: Vec<TreeNode> = Vec::new();
        let mut i: usize = 0;
        while i < INITIAL_STREAM_NODES
            invariant
                i <= INITIAL_STREAM_NODES,
                stream_children@.len() == i,
                forall|j: int|
                    0 <= j < i ==> {
                        let c = #[trigger] stream_children@[j];
                        &&& c.label@ == "Stream #"@ + decimal_chars(j as nat)
                        &&& c.id == (TreeNodeId::Stream { index: j as u32 })
                        &&& !c.is_expanded
                        &&& c.depth == 0
                        &&& c.children@.len() == 0
                    },
            decreases INITIAL_STREAM_NODES - i,
        {
            let mut label = String::from_str("Stream #");
            push_decimal(&mut label, i);
            stream_children.push(
                TreeNode {
                    label,
                    id: TreeNodeId::Stream { index: i as u32 },
                    children: Vec::new(),
                    is_expanded: false,
                    depth: 0,
                },
            );
            i = i + 1;
        }
        let ghost streams_before = stream_children@;
        let debug_info_children = vec![
            TreeNode::new("Modules", TreeNodeId::Modules),
            TreeNode::new("Names", TreeNodeId::Names),
            TreeNode::new("Globals", TreeNodeId::Globals),
            TreeNode::new("Types", TreeNodeId::Types),
            TreeNode::new("Symbols", TreeNodeId::Symbols),
            TreeNode::with_children("Streams", TreeNodeId::Streams, stream_children),
        ];
        let ghost dic = debug_info_children@;
        let mut nodes = vec![
            TreeNode::with_children(file_name, TreeNodeId::DebugInfo, debug_info_children),
        ];
        let ghost before = nodes@;
        proof {
            assert forall|j: int| 0 <= j < streams_before.len() implies total_count(
                #[trigger] streams_before[j],
            ) <= 1 by {
                assert(streams_before[j].children@.len() == 0);
                assert(total_count_seq(streams_before[j].children@) == 0);
            }
            lemma_count_bound(streams_before, 1);
            assert forall|j: int| 0 <= j < dic.len() implies total_count(#[trigger] dic[j])
                <= 51 by {
                if j < 5 {
                    assert(dic[j].children@.len() == 0);
                    assert(total_count_seq(dic[j].children@) == 0);
                } else {
                    assert(dic[j].children@ == streams_before);
                }
            }
            assert(dic.len() == 6);
            lemma_count_bound(dic, 51);
            assert(total_count_seq(dic) <= 306);
            assert(before.len() == 1);
            assert(before[0].children@ == dic);
            assert(total_count(before[0]) <= 307);
            lemma_count_bound(before, 307);
            assert(total_count_seq(before) <= 307);
        }
        set_depths(&mut nodes, 0);
        proof {
            assert(depths_set(before[0], nodes@[0], 0));
            let root = nodes@[0];
            assert forall|k: int| 0 <= k < 6 implies depths_set(
                #[trigger] dic[k],
                root.children@[k],
                1,
            ) by {}
            assert forall|i: int| 0 <= i < INITIAL_STREAM_NODES implies {
                let c = #[trigger] root.children@[5].children@[i];
                &&& c.label@ == "Stream #"@ + decimal_chars(i as nat)
                &&& c.id == (TreeNodeId::Stream { index: i as u32 })
                &&& !c.is_expanded
                &&& c.depth == 2
                &&& c.children@.len() == 0
            } by {
                assert(depths_set(dic[5], root.children@[5], 1));
                assert(depths_set(streams_before[i], root.children@[5].children@[i], 2));
                let s = streams_before[i];
                assert(s.label@ == "Stream #"@ + decimal_chars(i as nat));
            }
            assert(nodes@.len() == 1);
            assert(root.label@ == file_name@);
            assert(root.id == TreeNodeId::DebugInfo);
            assert(root.depth == 0);
            assert(root.children@.len() == 6);
            assert forall|k: int| 0 <= k < 6 implies {
                let c = #[trigger] root.children@[k];
                &&& c.label@ == debug_info_child_label(k)
                &&& c.id == debug_info_child_id(k)
                &&& !c.is_expanded
                &&& c.depth == 1
                &&& k < 5 ==> c.children@.len() == 0
            } by {
                assert(depths_set(dic[k], root.children@[k], 1));
            }
            assert(root.children@[5].children@.len() == INITIAL_STREAM_NODES);
        }
        nodes
    }

    /// A navigator over the initial tree for the PDB file `file_name`, with no selection and no
    /// search.
    pub fn new(file_name: &str) -> (r: Self)
        ensures
            is_initial_tree(r.tree_nodes@, file_name@),
            r.items_in_sync(),
            r.fits(),
            r.selected is None,
            r.search_query@.len() == 0,
            !r.search_mode,
            r.filtered_indices@.len() == 0,
    {
        let tree_nodes = Self::build_pdb_tree(file_name);
        proof {
            let root = tree_nodes@[0];
            let ch = root.children@;
            let st = ch[5].children@;
            assert forall|j: int| 0 <= j < st.len() implies total_count(#[trigger] st[j]) <= 1 by {
                assert(st[j].children@.len() == 0);
                assert(total_count_seq(st[j].children@) == 0);
            }
            lemma_count_bound(st, 1);
            assert forall|j: int| 0 <= j < ch.len() implies total_count(#[trigger] ch[j]) <= 51 by {
                if j < 5 {
                    assert(ch[j].children@.len() == 0);
                    assert(total_count_seq(ch[j].children@) == 0);
                }
            }
            lemma_count_bound(ch, 51);
            lemma_count_bound(tree_nodes@, 1 + 51 * 6);
        }
        let flat_items = Self::flatten_tree(&tree_nodes);
        TreeNavigator {
            tree_nodes,
            flat_items,
            selected: None,
            search_query: String::new(),
            search_mode: false,
            filtered_indices: Vec::new(),
        }
    }
}

/// Toggling the selection acts on the node that the selected row shows: when the flat items
/// show the tree, the path that toggling follows leads to the node whose item is at the
/// selected row, and after toggling, that node's expansion is flipped.
pub proof fn lemma_toggle_acts_on_shown_node(before: TreeNavigator, after: TreeNavigator)
    requires
        before.items_in_sync(),
        before.tree_nodes@.len() <= usize::MAX,
        before.toggle_target() is Some,
        toggled_at(before.tree_nodes@, after.tree_nodes@, before.toggle_target()->Some_0),
    ensures
        ({
            let p = before.toggle_target()->Some_0;
            let a = before.selected_item_index()->Some_0;
            &&& node_at_path(before.tree_nodes@, p) is Some
            &&& flat_views(before.flat_items@)[a] == spec_flat_item(
                node_at_path(before.tree_nodes@, p)->Some_0,
                p.len() - 1,
            )
            &&& node_at_path(after.tree_nodes@, p) is Some
            &&& node_at_path(after.tree_nodes@, p)->Some_0.is_expanded == !node_at_path(
                before.tree_nodes@,
                p,
            )->Some_0.is_expanded
        }),
{
    let a = before.selected_item_index()->Some_0;
    lemma_find_path_shows(before.tree_nodes@, a, 0);
    let p = before.toggle_target()->Some_0;
    lemma_toggled_at_flips(before.tree_nodes@, after.tree_nodes@, p);
}

/// After expanding every node, the flat items show every node of the tree.
pub proof fn lemma_expand_all_shows_every_node(before: TreeNavigator, after: TreeNavigator)
    requires
        after.tree_nodes@.len() == before.tree_nodes@.len(),
        forall|i: int|
            0 <= i < before.tree_nodes@.len() ==> same_tree_expanded(
                #[trigger] before.tree_nodes@[i],
                after.tree_nodes@[i],
                true,
            ),
        after.items_in_sync(),
    ensures
        after.flat_items@.len() == total_count_seq(before.tree_nodes@),
{
    let a = before.tree_nodes@;
    let b = after.tree_nodes@;
    assert forall|j: int| 0 <= j < b.len() implies visible_count(#[trigger] b[j]) == total_count(
        b[j],
    ) && total_count(a[j]) == total_count(b[j]) by {
        lemma_expanded_counts(a[j], b[j], true);
    }
    lemma_visible_total_pointwise(b);
    lemma_total_count_pointwise(a, b);
    lemma_flatten_seq_len(b, 0);
}

/// After collapsing every node, the flat items show exactly the root nodes.
pub proof fn lemma_collapse_all_shows_roots(before: TreeNavigator, after: TreeNavigator)
    requires
        after.tree_nodes@.len() == before.tree_nodes@.len(),
        forall|i: int|
            0 <= i < before.tree_nodes@.len() ==> same_tree_expanded(
                #[trigger] before.tree_nodes@[i],
                after.tree_nodes@[i],
                false,
            ),
        after.items_in_sync(),
    ensures
        after.flat_items@.len() == before.tree_nodes@.len(),
{
    let a = before.tree_nodes@;
    let b = after.tree_nodes@;
    assert forall|j: int| 0 <= j < b.len() implies visible_count(#[trigger] b[j]) == 1 by {
        lemma_expanded_counts(a[j], b[j], false);
    }
    lemma_visible_roots(b);
    lemma_flatten_seq_len(b, 0);
}

/// The nearest position at or before `k` whose item has a depth below `d`.
pub open spec fn last_shallower(items: Seq<FlatItemView>, d: int, k: int) -> Option<int>
    decreases k + 1,
{
    if k < 0 || k >= items.len() {
        None
    } else if items[k].depth < d {
        Some(k)
    } else {
        last_shallower(items, d, k - 1)
    }
}

/// The row of the parent of the node at row `a`: the nearest row above with a smaller depth.
pub open spec fn parent_row(items: Seq<FlatItemView>, a: int) -> Option<int> {
    if 0 <= a < items.len() {
        last_shallower(items, items[a].depth, a - 1)
    } else {
        None
    }
}

/// Whether the node at the end of `path[k..]` is expanded, when there is one.
fn expanded_at(nodes: &Vec<TreeNode>, path: &[usize], k: usize) -> (r: Option<bool>)
    requires
        k <= path@.len(),
    ensures
        r == (match node_at_path(nodes@, path@.subrange(k as int, path@.len() as int)) {
            Some(n) => Some(n.is_expanded),
            None => None,
        }),
    decreases path@.len() - k,
{
    if k == path.len() {
        return None;
    }
    let i = path[k];
    if i >= nodes.len() {
        return None;
    }
    if k + 1 == path.len() {
        return Some(nodes[i].is_expanded);
    }
    let r = expanded_at(&nodes[i].children, path, k + 1);
    assert(path@.subrange(k as int, path@.len() as int).drop_first() =~= path@.subrange(
        k + 1,
        path@.len() as int,
    ));
    r
}

/// After the rows are rebuilt, the matches of the search are those of the new rows when a
/// search is under way, and unchanged otherwise.
pub open spec fn filter_refreshed(n0: TreeNavigator, n1: TreeNavigator) -> bool {
    &&& n0.search_mode && n0.search_query@.len() != 0 ==> n1.filtered_indices@
        == spec_filter_indices(flat_views(n1.flat_items@), n0.search_query@)
    &&& !(n0.search_mode && n0.search_query@.len() != 0) ==> n1.filtered_indices
        == n0.filtered_indices
}

/// The selection after moving up in a list of `rows` rows: one row up unless at the top; the
/// first row when nothing was selected; unchanged when the list is empty.
pub open spec fn selection_after_up(selected: Option<usize>, rows: int) -> Option<usize> {
    if rows == 0 {
        selected
    } else {
        match selected {
            Some(s) => if s > 0 {
                Some((s - 1) as usize)
            } else {
                Some(s)
            },
            None => Some(0usize),
        }
    }
}

/// The selection after moving down in a list of `rows` rows: one row down unless at the last
/// row; the first row when nothing was selected; unchanged when the list is empty.
pub open spec fn selection_after_down(selected: Option<usize>, rows: int) -> Option<usize> {
    if rows == 0 {
        selected
    } else {
        match selected {
            Some(s) => if s < rows - 1 {
                Some((s + 1) as usize)
            } else {
                Some(s)
            },
            None => Some(0usize),
        }
    }
}

/// Away from the ends of the list, moving down undoes moving up and moving up undoes moving
/// down; and a move from no selection, or from a row of the list, selects a row of the list.
pub proof fn lemma_moves_undo_each_other(selected: Option<usize>, rows: int)
    requires
        rows > 0,
        rows <= usize::MAX,
    ensures
        selected matches Some(s) && 0 < s < rows ==> selection_after_down(
            selection_after_up(selected, rows),
            rows,
        ) == selected,
        selected matches Some(s) && s + 1 < rows ==> selection_after_up(
            selection_after_down(selected, rows),
            rows,
        ) == selected,
        (selected matches Some(s) ==> s < rows) ==> (selection_after_up(selected, rows) matches Some(
            t,
        ) && t < rows),
        (selected matches Some(s) ==> s < rows) ==> (selection_after_down(selected, rows) matches Some(
            t,
        ) && t < rows),
{
}

/// Every item of the flattening of `n` from depth `d` is at depth `d` or deeper.
proof fn lemma_flatten_depths(n: TreeNode, d: int)
    ensures
        forall|i: int| 0 <= i < spec_flatten(n, d).len() ==> #[trigger] spec_flatten(n, d)[i].depth >= d,
    decreases n, 0int,
{
    lemma_flatten_seq_depths(n.children@, d + 1);
    let f = spec_flatten(n, d);
    if n.is_expanded {
        let c = spec_flatten_seq(n.children@, d + 1);
        assert forall|i: int| 0 <= i < f.len() implies #[trigger] f[i].depth >= d by {
            if i > 0 {
                assert(f[i] == c[i - 1]);
            }
        }
    }
}

/// Every item of the flattening of the siblings `s` from depth `d` is at depth `d` or deeper.
proof fn lemma_flatten_seq_depths(s: Seq<TreeNode>, d: int)
    ensures
        forall|i: int|
            0 <= i < spec_flatten_seq(s, d).len() ==> #[trigger] spec_flatten_seq(s, d)[i].depth >= d,
    decreases s, 1int,
{
    if s.len() > 0 {
        lemma_flatten_seq_depths(s.drop_last(), d);
        lemma_flatten_depths(s.last(), d);
        let a = spec_flatten_seq(s.drop_last(), d);
        let b = spec_flatten(s.last(), d);
        assert forall|i: int| 0 <= i < (a + b).len() implies #[trigger] (a + b)[i].depth >= d by {
            if i >= a.len() {
                assert((a + b)[i] == b[i - a.len()]);
            }
        }
    }
}

/// A search that finds a position finds one at or before where it starts.
proof fn lemma_last_shallower_range(items: Seq<FlatItemView>, dd: int, k: int)
    ensures
        last_shallower(items, dd, k) matches Some(r) ==> 0 <= r <= k && r < items.len()
            && items[r].depth < dd,
    decreases k + 1,
{
    if 0 <= k < items.len() && items[k].depth >= dd {
        lemma_last_shallower_range(items, dd, k - 1);
    }
}

/// A search that starts within `a` does not look at what follows `a`.
proof fn lemma_last_shallower_prefix(a: Seq<FlatItemView>, b: Seq<FlatItemView>, dd: int, k: int)
    requires
        k < a.len(),
    ensures
        last_shallower(a + b, dd, k) == last_shallower(a, dd, k),
    decreases k + 1,
{
    if 0 <= k {
        assert((a + b)[k] == a[k]);
        lemma_last_shallower_prefix(a, b, dd, k - 1);
    }
}

/// Searching `a + b` from position `|a| + j` of `b`: a hit within `b` is shifted by `|a|`;
/// otherwise the search goes on in `a`.
proof fn lemma_last_shallower_concat(a: Seq<FlatItemView>, b: Seq<FlatItemView>, dd: int, j: int)
    requires
        -1 <= j < b.len(),
    ensures
        last_shallower(a + b, dd, a.len() + j) == match last_shallower(b, dd, j) {
            Some(k) => Some(a.len() + k),
            None => last_shallower(a, dd, a.len() - 1),
        },
    decreases j + 1,
{
    if j == -1 {
        lemma_last_shallower_prefix(a, b, dd, a.len() - 1);
    } else {
        assert((a + b)[a.len() + j] == b[j]);
        lemma_last_shallower_concat(a, b, dd, j - 1);
    }
}

/// Within the items of `n` from depth `d`, the nearest item above the item of a node below `n`
/// that is shallower than it is the item of that node's parent.
proof fn lemma_parent_row_node(n: TreeNode, d: int, t: int)
    requires
        spec_find_path_node(n, t) matches Some(q) && q.len() >= 1,
    ensures
        ({
            let q = spec_find_path_node(n, t)->Some_0;
            last_shallower(spec_flatten(n, d), d + q.len(), t - 1) matches Some(k)
                && spec_find_path_node(n, k) == Some(q.drop_last())
        }),
    decreases n, 0int,
{
    let q = spec_find_path_node(n, t)->Some_0;
    let item = seq![spec_flat_item(n, d)];
    let b = spec_flatten_seq(n.children@, d + 1);
    assert(t != 0);
    assert(n.is_expanded);
    assert(spec_flatten(n, d) == item + b);
    lemma_find_path_some_bounds(n.children@, t - 1);
    lemma_flatten_seq_len(n.children@, d + 1);
    if q.len() == 1 {
        lemma_flatten_seq_depths(n.children@, d + 1);
        lemma_last_shallower_no_hit(b, d + 1, t - 2);
        lemma_last_shallower_concat(item, b, d + 1, t - 2);
        assert(last_shallower(item, d + 1, 0) == Some(0int));
        assert(q.drop_last() =~= Seq::<usize>::empty());
    } else {
        lemma_parent_row_seq(n.children@, d + 1, t - 1);
        lemma_last_shallower_concat(item, b, d + q.len(), t - 2);
        let k2 = last_shallower(b, d + q.len(), t - 2)->Some_0;
        lemma_last_shallower_range(b, d + q.len(), t - 2);
        assert(1 + k2 != 0);
    }
}

/// A search among items that are all at depth `dd` or deeper finds nothing.
proof fn lemma_last_shallower_no_hit(items: Seq<FlatItemView>, dd: int, k: int)
    requires
        k < items.len(),
        forall|i: int| 0 <= i < items.len() ==> #[trigger] items[i].depth >= dd,
    ensures
        last_shallower(items, dd, k) is None,
    decreases k + 1,
{
    if k >= 0 {
        lemma_last_shallower_no_hit(items, dd, k - 1);
    }
}

/// Within the items of the siblings `s` from depth `d`, the nearest item above the item of a
/// node that is not one of `s` and that is shallower than it is the item of that node's parent.
proof fn lemma_parent_row_seq(s: Seq<TreeNode>, d: int, t: int)
    requires
        spec_find_path_seq(s, t) matches Some(p) && p.len() >= 2,
    ensures
        ({
            let p = spec_find_path_seq(s, t)->Some_0;
            last_shallower(spec_flatten_seq(s, d), d + p.len() - 1, t - 1) matches Some(k)
                && spec_find_path_seq(s, k) == Some(p.drop_last())
        }),
    decreases s, 1int,
{
    let p = spec_find_path_seq(s, t)->Some_0;
    let pre = s.drop_last();
    let c = visible_count_seq(pre);
    let a = spec_flatten_seq(pre, d);
    let b = spec_flatten(s.last(), d);
    lemma_flatten_seq_len(pre, d);
    assert(spec_flatten_seq(s, d) == a + b);
    if t < c {
        lemma_parent_row_seq(pre, d, t);
        lemma_last_shallower_prefix(a, b, d + p.len() - 1, t - 1);
        lemma_last_shallower_range(a, d + p.len() - 1, t - 1);
    } else {
        let q = spec_find_path_node(s.last(), t - c)->Some_0;
        assert(p == seq![(s.len() - 1) as usize] + q);
        lemma_parent_row_node(s.last(), d, t - c);
        lemma_find_path_node_some_bounds(s.last(), t - c);
        lemma_last_shallower_concat(a, b, d + q.len(), t - c - 1);
        let k2 = last_shallower(b, d + q.len(), t - c - 1)->Some_0;
        lemma_last_shallower_range(b, d + q.len(), t - c - 1);
        assert(p.drop_last() =~= seq![(s.len() - 1) as usize] + q.drop_last());
    }
}

/// Left on the row of a node that is not at the top level of the tree selects the row of that
/// node's parent: the nearest row above with a smaller depth shows the node whose path is the
/// path of the selected node without its last step.
pub proof fn lemma_parent_row_shows_parent(tree: Seq<TreeNode>, a: int)
    requires
        tree.len() <= usize::MAX,
        spec_find_path_seq(tree, a) matches Some(p) && p.len() >= 2,
    ensures
        ({
            let p = spec_find_path_seq(tree, a)->Some_0;
            parent_row(spec_flatten_seq(tree, 0), a) matches Some(k) && spec_find_path_seq(tree, k)
                == Some(p.drop_last())
        }),
{
    lemma_find_path_shows(tree, a, 0);
    lemma_flatten_seq_len(tree, 0);
    lemma_parent_row_seq(tree, 0, a);
}

/// The position of the first root whose id is `DebugInfo`, from position `k` on.
pub open spec fn first_debug_info(s: Seq<TreeNode>, k: int) -> Option<int>
    decreases s.len() - k,
{
    if k < 0 || k >= s.len() {
        None
    } else if s[k].id == TreeNodeId::DebugInfo {
        Some(k)
    } else {
        first_debug_info(s, k + 1)
    }
}

/// The position of the first node whose id is `Streams`, from position `k` on.
pub open spec fn first_streams(s: Seq<TreeNode>, k: int) -> Option<int>
    decreases s.len() - k,
{
    if k < 0 || k >= s.len() {
        None
    } else if s[k].id == TreeNodeId::Streams {
        Some(k)
    } else {
        first_streams(s, k + 1)
    }
}

/// `b` is `a` with the children replaced, and nothing else changed.
pub open spec fn same_but_children(a: TreeNode, b: TreeNode) -> bool {
    &&& b.label == a.label
    &&& b.id == a.id
    &&& b.is_expanded == a.is_expanded
    &&& b.depth == a.depth
}

/// `c` is the node for stream `i`, labelled `label`, at `depth`: collapsed and without children.
pub open spec fn is_stream_node(c: TreeNode, label: Seq<char>, i: int, depth: int) -> bool {
    &&& c.label@ == label
    &&& c.id == (TreeNodeId::Stream { index: i as u32 })
    &&& !c.is_expanded
    &&& c.depth == depth
    &&& c.children@.len() == 0
}

/// The first `Streams` node under the first `DebugInfo` root, if there is one.
pub open spec fn streams_node(a: Seq<TreeNode>) -> Option<TreeNode> {
    match first_debug_info(a, 0) {
        None => None,
        Some(r) => match first_streams(a[r].children@, 0) {
            None => None,
            Some(c) => Some(a[r].children@[c]),
        },
    }
}

/// The labels of the nodes of the streams, each from whether the stream exists and its size.
pub open spec fn stream_labels(streams: Seq<(bool, u32)>) -> Seq<Seq<char>> {
    Seq::new(streams.len(), |i: int| stream_label_text(i as nat, streams[i].0, streams[i].1 as nat))
}

/// The size of a stream in tenths of a KB (1024 bytes), rounded to the nearest tenth, a tie to
/// the even one: the digits that `{:.1}` shows of `size / 1024.0`.
pub open spec fn kb_tenths(size: nat) -> nat {
    let t = size * 10 / 1024;
    let r = size * 10 % 1024;
    if r > 512 || (r == 512 && t % 2 == 1) {
        t + 1
    } else {
        t
    }
}

/// The label of the node of stream `i`: `(nil)` for a stream that does not exist, its size in
/// KB with one decimal above 1024 bytes, else its size in bytes.
pub open spec fn stream_label_text(i: nat, valid: bool, size: nat) -> Seq<char> {
    "Stream #"@ + decimal_chars(i) + if !valid {
        " (nil)"@
    } else {
        " ("@ + size_text(size) + ")"@
    }
}

/// The size of a stream as the browser words it: in KB with one decimal above 1024 bytes,
/// else in bytes.
pub open spec fn size_text(size: nat) -> Seq<char> {
    if size > 1024 {
        decimal_chars(kb_tenths(size) / 10) + "."@ + decimal_chars(kb_tenths(size) % 10) + " KB"@
    } else {
        decimal_chars(size) + " bytes"@
    }
}

/// Appends the size of a stream as the browser words it.
pub fn push_size_text(s: &mut String, size: u32)
    ensures
        final(s)@ == old(s)@ + size_text(size as nat),
{
    if size > 1024 {
        let n: u64 = size as u64 * 10;
        let t: u64 = n / 1024;
        let r: u64 = n % 1024;
        let tenths: u64 = if r > 512 || (r == 512 && t % 2 == 1) {
            t + 1
        } else {
            t
        };
        assert(tenths == kb_tenths(size as nat));
        assert(tenths / 10 <= u32::MAX);
        push_decimal(s, (tenths / 10) as usize);
        s.append(".");
        push_decimal(s, (tenths % 10) as usize);
        s.append(" KB");
    } else {
        push_decimal(s, size as usize);
        s.append(" bytes");
    }
    assert(final(s)@ =~= old(s)@ + size_text(size as nat));
}

/// The label of the node of stream `i`, from whether the stream exists and its size.
pub fn stream_label(i: u32, valid: bool, size: u32) -> (r: String)
    ensures
        r@ == stream_label_text(i as nat, valid, size as nat),
{
    let mut s = String::from_str("Stream #");
    push_decimal(&mut s, i as usize);
    if !valid {
        s.append(" (nil)");
    } else {
        s.append(" (");
        push_size_text(&mut s, size);
        s.append(")");
    }
    s
}

/// `b` is the tree `a` in which the children of the first `Streams` node under the first
/// `DebugInfo` root are one node per label, for streams 0, 1, ... in order, one level deeper
/// than the `Streams` node; `b` is `a` when there is no such node.
pub open spec fn streams_replaced(a: Seq<TreeNode>, b: Seq<TreeNode>, labels: Seq<Seq<char>>) -> bool {
    match first_debug_info(a, 0) {
        None => b == a,
        Some(r) => match first_streams(a[r].children@, 0) {
            None => b == a,
            Some(c) => {
                let ra = a[r];
                let rb = b[r];
                let sa = ra.children@[c];
                let sb = rb.children@[c];
                &&& b.len() == a.len()
                &&& forall|i: int| 0 <= i < a.len() && i != r ==> #[trigger] b[i] == a[i]
                &&& same_but_children(ra, rb)
                &&& rb.children@.len() == ra.children@.len()
                &&& forall|j: int|
                    0 <= j < ra.children@.len() && j != c ==> #[trigger] rb.children@[j]
                        == ra.children@[j]
                &&& same_but_children(sa, sb)
                &&& sb.children@.len() == labels.len()
                &&& forall|k: int|
                    0 <= k < labels.len() ==> is_stream_node(
                        #[trigger] sb.children@[k],
                        labels[k],
                        k,
                        sa.depth + 1,
                    )
            },
        },
    }
}

/// Counting the nodes of a sequence in which one tree changed.
proof fn lemma_total_count_replace(a: Seq<TreeNode>, b: Seq<TreeNode>, i: int)
    requires
        a.len() == b.len(),
        0 <= i < a.len(),
        forall|j: int| 0 <= j < a.len() && j != i ==> #[trigger] b[j] == a[j],
    ensures
        total_count_seq(b) == total_count_seq(a) - total_count(a[i]) + total_count(b[i]),
    decreases a.len(),
{
    if i < a.len() - 1 {
        lemma_total_count_replace(a.drop_last(), b.drop_last(), i);
        assert(a.drop_last()[i] == a[i]);
        assert(b.drop_last()[i] == b[i]);
        assert(b.last() == a.last());
    } else {
        assert(a.drop_last() =~= b.drop_last());
    }
}

/// Replaces the children of `nodes[r].children[c]`.
fn replace_grandchildren(nodes: &mut Vec<TreeNode>, r: usize, c: usize, new_children: Vec<TreeNode>)
    requires
        r < old(nodes)@.len(),
        c < old(nodes)@[r as int].children@.len(),
    ensures
        final(nodes)@.len() == old(nodes)@.len(),
        forall|i: int| 0 <= i < old(nodes)@.len() && i != r ==> #[trigger] final(nodes)@[i] == old(nodes)@[i],
        same_but_children(old(nodes)@[r as int], final(nodes)@[r as int]),
        final(nodes)@[r as int].children@.len() == old(nodes)@[r as int].children@.len(),
        forall|j: int|
            0 <= j < old(nodes)@[r as int].children@.len() && j != c
                ==> #[trigger] final(nodes)@[r as int].children@[j] == old(nodes)@[r as int].children@[j],
        same_but_children(
            old(nodes)@[r as int].children@[c as int],
            final(nodes)@[r as int].children@[c as int],
        ),
        final(nodes)@[r as int].children@[c as int].children == new_children,
{
    nodes[r].children[c].children = new_children;
}

impl TreeNavigator {
    /// Replaces the stream nodes under the first `Streams` node of the first `DebugInfo` root
    /// with one node per stream of the PDB, then rebuilds the rows. `streams` holds, for each
    /// stream, whether it exists and its size; the labels are worded from them.
    pub fn update_streams_from_pdb(&mut self, streams: &Vec<(bool, u32)>)
        requires
            old(self).fits(),
            total_count_seq(old(self).tree_nodes@) + streams@.len() <= usize::MAX,
            streams@.len() <= u32::MAX,
            streams_node(old(self).tree_nodes@) matches Some(n) ==> n.depth < usize::MAX,
        ensures
            streams_replaced(
                old(self).tree_nodes@,
                final(self).tree_nodes@,
                stream_labels(streams@),
            ),
            final(self).fits(),
            final(self).items_in_sync(),
            final(self).selected == old(self).selected,
            final(self).search_query == old(self).search_query,
            final(self).search_mode == old(self).search_mode,
            filter_refreshed(*old(self), *final(self)),
    {
        let ghost a = self.tree_nodes@;
        let mut r: usize = 0;
        while r < self.tree_nodes.len()
            invariant
                a == self.tree_nodes@,
                r <= a.len(),
                first_debug_info(a, r as int) == first_debug_info(a, 0),
            ensures
                r <= a.len(),
                first_debug_info(a, r as int) == first_debug_info(a, 0),
                r < a.len() ==> a[r as int].id == TreeNodeId::DebugInfo,
            decreases a.len() - r,
        {
            let is_debug_info = match self.tree_nodes[r].id {
                TreeNodeId::DebugInfo => true,
                _ => false,
            };
            if is_debug_info {
                break ;
            }
            r = r + 1;
        }
        if r < self.tree_nodes.len() {
            let ghost ra = a[r as int];
            let mut c: usize = 0;
            while c < self.tree_nodes[r].children.len()
                invariant
                    a == self.tree_nodes@,
                    r < a.len(),
                    ra == a[r as int],
                    c <= ra.children@.len(),
                    first_streams(ra.children@, c as int) == first_streams(ra.children@, 0),
                ensures
                    c <= ra.children@.len(),
                    first_streams(ra.children@, c as int) == first_streams(ra.children@, 0),
                    c < ra.children@.len() ==> ra.children@[c as int].id == TreeNodeId::Streams,
                decreases ra.children@.len() - c,
            {
                let is_streams = match self.tree_nodes[r].children[c].id {
                    TreeNodeId::Streams => true,
                    _ => false,
                };
                if is_streams {
                    break ;
                }
                c = c + 1;
            }
            if c < self.tree_nodes[r].children.len() {
                let ghost sa = ra.children@[c as int];
                proof {
                    lemma_total_count_elem(a, r as int);
                    lemma_total_count_elem(ra.children@, c as int);
                    lemma_depth_bound(a, r as int, c as int);
                }
                let depth = self.tree_nodes[r].children[c].depth + 1;
                let mut new_children: Vec<TreeNode> = Vec::new();
                let mut i: usize = 0;
                while i < streams.len()
                    invariant
                        i <= streams@.len(),
                        streams@.len() <= u32::MAX,
                        new_children@.len() == i,
                        forall|k: int|
                            0 <= k < i ==> is_stream_node(
                                #[trigger] new_children@[k],
                                stream_labels(streams@)[k],
                                k,
                                depth as int,
                            ),
                    decreases streams@.len() - i,
                {
                    let (valid, size) = streams[i];
                    new_children.push(
                        TreeNode {
                            label: stream_label(i as u32, valid, size),
                            id: TreeNodeId::Stream { index: i as u32 },
                            children: Vec::new(),
                            is_expanded: false,
                            depth,
                        },
                    );
                    i = i + 1;
                }
                let ghost placed = new_children@;
                proof {
                    assert forall|k: int| 0 <= k < placed.len() implies total_count(#[trigger] placed[k])
                        <= 1 by {
                        assert(placed[k].children@.len() == 0);
                        assert(total_count_seq(placed[k].children@) == 0);
                    }
                    lemma_count_bound(placed, 1);
                }
                replace_grandchildren(&mut self.tree_nodes, r, c, new_children);
                proof {
                    let b = self.tree_nodes@;
                    let rb = b[r as int];
                    lemma_total_count_replace(ra.children@, rb.children@, c as int);
                    lemma_total_count_replace(a, b, r as int);
                    assert(total_count(rb.children@[c as int]) == 1 + total_count_seq(placed));
                }
            }
        }
        self.update_flat_items();
    }
}

/// A node at depth `d` under a root of a tree that fits has `d` below the node count.
proof fn lemma_depth_bound(a: Seq<TreeNode>, r: int, c: int)
    requires
        0 <= r < a.len(),
        0 <= c < a[r].children@.len(),
    ensures
        total_count(a[r].children@[c]) + 1 <= total_count(a[r]),
{
    lemma_total_count_elem(a[r].children@, c);
}

} // verus!
