//! Split tree layout system for dividing a window into multiple panes.
//!
//! A tree of splits. Each leaf is a pane with content; each inner node divides its area in
//! half between its two children, side by side or one above the other. One leaf has the
//! focus.

use crate::widget::Rect;
use vstd::prelude::*;

verus! {

/// Unique identifier for a leaf node in the split tree.
#[derive(Debug, Clone, Copy, PartialEq, Eq, Hash, Structural)]
pub struct LeafId(pub usize);

/// Direction of a split.
#[derive(Debug, Clone, Copy, PartialEq, Eq, Structural)]
pub enum SplitDirection {
    /// Split horizontally (top/bottom).
    Horizontal,
    /// Split vertically (left/right).
    Vertical,
}

/// A node in the split tree.
#[derive(Debug)]
pub enum SplitNode<T> {
    /// A leaf node containing actual content.
    Leaf { id: LeafId, content: T },
    /// A split node containing two children, each of which gets half of the area.
    Split { direction: SplitDirection, first: Box<SplitNode<T>>, second: Box<SplitNode<T>> },
}

/// The rectangle lies within the coordinate plane: its far edges are coordinates.
pub open spec fn in_plane(rect: Rect) -> bool {
    rect.x + rect.width <= i32::MAX && rect.y + rect.height <= i32::MAX
}

/// The two halves of a rectangle. A vertical split puts them side by side, a horizontal
/// one above one another. Where the side cannot be halved evenly, the second half is the
/// larger by one.
pub open spec fn halves(bounds: Rect, direction: SplitDirection) -> (Rect, Rect) {
    match direction {
        SplitDirection::Vertical => {
            let first = bounds.width / 2;
            (
                Rect { x: bounds.x, y: bounds.y, width: first, height: bounds.height },
                Rect {
                    x: (bounds.x + first) as i32,
                    y: bounds.y,
                    width: (bounds.width - first) as u32,
                    height: bounds.height,
                },
            )
        },
        SplitDirection::Horizontal => {
            let first = bounds.height / 2;
            (
                Rect { x: bounds.x, y: bounds.y, width: bounds.width, height: first },
                Rect {
                    x: bounds.x,
                    y: (bounds.y + first) as i32,
                    width: bounds.width,
                    height: (bounds.height - first) as u32,
                },
            )
        },
    }
}

/// Whether the rectangle lies within the coordinate plane.
pub fn is_in_plane(rect: Rect) -> (inside: bool)
    ensures
        inside == in_plane(rect),
{
    rect.x as i64 + rect.width as i64 <= i32::MAX as i64 && rect.y as i64 + rect.height as i64
        <= i32::MAX as i64
}

/// `outer` contains `inner`.
pub open spec fn within(inner: Rect, outer: Rect) -> bool {
    &&& outer.x <= inner.x
    &&& outer.y <= inner.y
    &&& inner.x + inner.width <= outer.x + outer.width
    &&& inner.y + inner.height <= outer.y + outer.height
}

/// Computes [`halves`].
pub fn split_bounds(bounds: Rect, direction: SplitDirection) -> (parts: (Rect, Rect))
    requires
        in_plane(bounds),
    ensures
        parts == halves(bounds, direction),
        in_plane(parts.0),
        in_plane(parts.1),
        within(parts.0, bounds),
        within(parts.1, bounds),
{
    match direction {
        SplitDirection::Vertical => {
            let first_width = bounds.width / 2;
            let second_width = bounds.width - first_width;
            (
                Rect::new(bounds.x, bounds.y, first_width, bounds.height),
                Rect::new(
                    bounds.x + first_width as i32,
                    bounds.y,
                    second_width,
                    bounds.height,
                ),
            )
        },
        SplitDirection::Horizontal => {
            let first_height = bounds.height / 2;
            let second_height = bounds.height - first_height;
            (
                Rect::new(bounds.x, bounds.y, bounds.width, first_height),
                Rect::new(
                    bounds.x,
                    bounds.y + first_height as i32,
                    bounds.width,
                    second_height,
                ),
            )
        },
    }
}

impl<T> SplitNode<T> {
    /// The identifiers of the leaves, in order: those of the first child before those of
    /// the second.
    pub open spec fn leaves(self) -> Seq<LeafId>
        decreases self,
    {
        match self {
            SplitNode::Leaf { id, .. } => seq![id],
            SplitNode::Split { first, second, .. } => first.leaves() + second.leaves(),
        }
    }

    /// The node has a leaf with this identifier.
    pub open spec fn has_leaf(self, id: LeafId) -> bool
        decreases self,
    {
        match self {
            SplitNode::Leaf { id: leaf, .. } => leaf == id,
            SplitNode::Split { first, second, .. } => first.has_leaf(id) || second.has_leaf(id),
        }
    }

    /// The content of the first leaf with this identifier.
    pub open spec fn content(self, id: LeafId) -> Option<T>
        decreases self,
    {
        match self {
            SplitNode::Leaf { id: leaf, content } => if leaf == id {
                Some(content)
            } else {
                None
            },
            SplitNode::Split { first, second, .. } => if first.has_leaf(id) {
                first.content(id)
            } else {
                second.content(id)
            },
        }
    }

    /// The node with the content of the first leaf with this identifier replaced.
    pub open spec fn with_content(self, id: LeafId, value: T) -> SplitNode<T>
        decreases self,
    {
        match self {
            SplitNode::Leaf { id: leaf, content } => if leaf == id {
                SplitNode::Leaf { id: leaf, content: value }
            } else {
                self
            },
            SplitNode::Split { direction, first, second } => if first.has_leaf(id) {
                SplitNode::Split {
                    direction,
                    first: Box::new(first.with_content(id, value)),
                    second,
                }
            } else {
                SplitNode::Split {
                    direction,
                    first,
                    second: Box::new(second.with_content(id, value)),
                }
            },
        }
    }

    /// The identifier of the first leaf.
    pub open spec fn first_leaf(self) -> LeafId
        decreases self,
    {
        match self {
            SplitNode::Leaf { id, .. } => id,
            SplitNode::Split { first, .. } => first.first_leaf(),
        }
    }

    /// The node with the leaf `target` split in two: the leaf itself stays first, and a new
    /// leaf with the given identifier and content comes second. A node without that leaf
    /// stays as it is.
    pub open spec fn split_leaf(
        self,
        target: LeafId,
        direction: SplitDirection,
        new_id: LeafId,
        content: T,
    ) -> SplitNode<T>
        decreases self,
    {
        match self {
            SplitNode::Leaf { id, content: old_content } => if id == target {
                SplitNode::Split {
                    direction,
                    first: Box::new(SplitNode::Leaf { id, content: old_content }),
                    second: Box::new(SplitNode::Leaf { id: new_id, content }),
                }
            } else {
                self
            },
            SplitNode::Split { direction: d, first, second } => if first.has_leaf(target) {
                SplitNode::Split {
                    direction: d,
                    first: Box::new(first.split_leaf(target, direction, new_id, content)),
                    second,
                }
            } else {
                SplitNode::Split {
                    direction: d,
                    first,
                    second: Box::new(second.split_leaf(target, direction, new_id, content)),
                }
            },
        }
    }

    /// What is left of the node when the leaf `target` is taken out: the sibling of the
    /// leaf takes the place of their parent. `None` where the node is that leaf itself.
    /// A node without that leaf stays as it is.
    pub open spec fn without_leaf(self, target: LeafId) -> Option<SplitNode<T>>
        decreases self,
    {
        match self {
            SplitNode::Leaf { id, .. } => if id == target {
                None
            } else {
                Some(self)
            },
            SplitNode::Split { direction, first, second } => if first.has_leaf(target) {
                match first.without_leaf(target) {
                    Some(rest) => Some(
                        SplitNode::Split { direction, first: Box::new(rest), second },
                    ),
                    None => Some(*second),
                }
            } else if second.has_leaf(target) {
                match second.without_leaf(target) {
                    Some(rest) => Some(
                        SplitNode::Split { direction, first, second: Box::new(rest) },
                    ),
                    None => Some(*first),
                }
            } else {
                Some(self)
            },
        }
    }

    /// The leaf that gets the focus when the leaf `target` is taken out: the first leaf of
    /// the other half of the tree, seen from the root. `None` where nothing is left.
    pub open spec fn focus_without(self, target: LeafId) -> Option<LeafId> {
        match self {
            SplitNode::Leaf { .. } => None,
            SplitNode::Split { first, second, .. } => if first.has_leaf(target) {
                Some(second.first_leaf())
            } else {
                Some(first.first_leaf())
            },
        }
    }

    /// The leaves with their areas, in order, when the node fills `bounds`.
    pub open spec fn layout(self, bounds: Rect) -> Seq<(LeafId, Rect)>
        decreases self,
    {
        match self {
            SplitNode::Leaf { id, .. } => seq![(id, bounds)],
            SplitNode::Split { direction, first, second } => first.layout(
                halves(bounds, direction).0,
            ) + second.layout(halves(bounds, direction).1),
        }
    }
}

/// A leaf is in a node exactly if its identifier is among the node's leaves, and the first
/// leaf is the first of them.
pub proof fn lemma_leaves<T>(node: SplitNode<T>, id: LeafId)
    ensures
        node.has_leaf(id) <==> node.leaves().contains(id),
        node.leaves().len() > 0,
        node.leaves()[0] == node.first_leaf(),
        node.has_leaf(node.first_leaf()),
        node.has_leaf(id) <==> node.content(id) is Some,
    decreases node,
{
    match node {
        SplitNode::Leaf { id: leaf, .. } => {
            assert(seq![leaf][0] == leaf);
            if seq![leaf].contains(id) {
                let i = choose|i: int| 0 <= i < 1 && seq![leaf][i] == id;
            }
        },
        SplitNode::Split { first, second, .. } => {
            lemma_leaves(*first, id);
            lemma_leaves(*second, id);
            lemma_leaves(*first, first.first_leaf());
            let all = first.leaves() + second.leaves();
            if first.leaves().contains(id) {
                let i = choose|i: int| 0 <= i < first.leaves().len() && first.leaves()[i] == id;
                assert(all[i] == id);
            }
            if second.leaves().contains(id) {
                let i = choose|i: int| 0 <= i < second.leaves().len() && second.leaves()[i] == id;
                assert(all[first.leaves().len() + i] == id);
            }
            if all.contains(id) {
                let i = choose|i: int| 0 <= i < all.len() && all[i] == id;
                if i < first.leaves().len() {
                    assert(first.leaves()[i] == id);
                } else {
                    assert(second.leaves()[i - first.leaves().len()] == id);
                }
            }
        },
    }
}

/// The layout lists the leaves in order, each with an area inside the bounds.
pub proof fn lemma_layout<T>(node: SplitNode<T>, bounds: Rect)
    requires
        in_plane(bounds),
    ensures
        node.layout(bounds).len() == node.leaves().len(),
        forall|i: int|
            0 <= i < node.leaves().len() ==> (#[trigger] node.layout(bounds)[i]).0
                == node.leaves()[i],
        forall|i: int|
            0 <= i < node.layout(bounds).len() ==> within(
                (#[trigger] node.layout(bounds)[i]).1,
                bounds,
            ),
    decreases node,
{
    match node {
        SplitNode::Leaf { .. } => {},
        SplitNode::Split { direction, first, second } => {
            let parts = halves(bounds, direction);
            assert(in_plane(parts.0) && in_plane(parts.1));
            assert(within(parts.0, bounds) && within(parts.1, bounds));
            lemma_layout(*first, parts.0);
            lemma_layout(*second, parts.1);
            let a = first.layout(parts.0);
            let b = second.layout(parts.1);
            assert forall|i: int| 0 <= i < node.layout(bounds).len() implies within(
                (#[trigger] node.layout(bounds)[i]).1,
                bounds,
            ) by {
                if i < a.len() {
                    assert(node.layout(bounds)[i] == a[i]);
                    assert(within(a[i].1, parts.0));
                } else {
                    assert(node.layout(bounds)[i] == b[i - a.len()]);
                    assert(within(b[i - a.len()].1, parts.1));
                }
            }
            assert forall|i: int| 0 <= i < node.leaves().len() implies (#[trigger] node.layout(
                bounds,
            )[i]).0 == node.leaves()[i] by {
                if i < a.len() {
                    assert(node.layout(bounds)[i] == a[i]);
                } else {
                    assert(node.layout(bounds)[i] == b[i - a.len()]);
                }
            }
        },
    }
}

impl<T> SplitNode<T> {
    /// The contents of the leaves, in order.
    pub open spec fn contents(self) -> Seq<T>
        decreases self,
    {
        match self {
            SplitNode::Leaf { content, .. } => seq![content],
            SplitNode::Split { first, second, .. } => first.contents() + second.contents(),
        }
    }

    /// No two leaves have the same identifier.
    pub open spec fn distinct(self) -> bool
        decreases self,
    {
        match self {
            SplitNode::Leaf { .. } => true,
            SplitNode::Split { first, second, .. } => {
                &&& first.distinct()
                &&& second.distinct()
                &&& forall|id: LeafId| !(first.has_leaf(id) && second.has_leaf(id))
            },
        }
    }

    /// Every leaf has an identifier below `limit`.
    pub open spec fn below(self, limit: usize) -> bool {
        forall|id: LeafId| self.has_leaf(id) ==> id.0 < limit
    }

    fn node_contains_leaf(&self, id: LeafId) -> (found: bool)
        ensures
            found == self.has_leaf(id),
        decreases *self,
    {
        match self {
            SplitNode::Leaf { id: leaf_id, .. } => leaf_id.0 == id.0,
            SplitNode::Split { first, second, .. } => {
                first.node_contains_leaf(id) || second.node_contains_leaf(id)
            },
        }
    }

    fn node_get(&self, id: LeafId) -> (found: Option<&T>)
        ensures
            match found {
                Some(content) => self.content(id) == Some(*content),
                None => self.content(id) is None,
            },
        decreases *self,
    {
        match self {
            SplitNode::Leaf { id: leaf_id, content } => if leaf_id.0 == id.0 {
                Some(content)
            } else {
                None
            },
            SplitNode::Split { first, second, .. } => {
                proof {
                    lemma_leaves(**first, id);
                }
                match first.node_get(id) {
                    Some(content) => Some(content),
                    None => second.node_get(id),
                }
            },
        }
    }

    fn node_get_mut(&mut self, id: LeafId) -> (found: Option<&mut T>)
        ensures
            match found {
                Some(content) => old(self).content(id) == Some(*content) && *final(self) == old(
                    self,
                ).with_content(id, *final(content)),
                None => old(self).content(id) is None && *final(self) == *old(self),
            },
        decreases *old(self),
    {
        match self {
            SplitNode::Leaf { id: leaf_id, content } => if leaf_id.0 == id.0 {
                Some(content)
            } else {
                None
            },
            SplitNode::Split { first, second, .. } => {
                proof {
                    lemma_leaves(**first, id);
                }
                if first.node_contains_leaf(id) {
                    first.node_get_mut(id)
                } else {
                    second.node_get_mut(id)
                }
            },
        }
    }

    fn first_leaf_id(&self) -> (id: LeafId)
        ensures
            id == self.first_leaf(),
        decreases *self,
    {
        match self {
            SplitNode::Leaf { id, .. } => *id,
            SplitNode::Split { first, .. } => first.first_leaf_id(),
        }
    }

    fn split_node(
        self,
        target_id: LeafId,
        direction: SplitDirection,
        new_id: LeafId,
        content: T,
    ) -> (node: SplitNode<T>)
        ensures
            node == self.split_leaf(target_id, direction, new_id, content),
        decreases self,
    {
        match self {
            SplitNode::Leaf { id, content: old_content } => {
                if id.0 == target_id.0 {
                    SplitNode::Split {
                        direction,
                        first: Box::new(SplitNode::Leaf { id, content: old_content }),
                        second: Box::new(SplitNode::Leaf { id: new_id, content }),
                    }
                } else {
                    SplitNode::Leaf { id, content: old_content }
                }
            },
            SplitNode::Split { direction: d, first, second } => {
                // Only recurse into the subtree that contains the target
                if first.node_contains_leaf(target_id) {
                    SplitNode::Split {
                        direction: d,
                        first: Box::new(first.split_node(target_id, direction, new_id, content)),
                        second,
                    }
                } else {
                    SplitNode::Split {
                        direction: d,
                        first,
                        second: Box::new(
                            second.split_node(target_id, direction, new_id, content),
                        ),
                    }
                }
            },
        }
    }

    /// Takes the leaf `target` out of the node. Returns what is left of the node, the
    /// content of the leaf, and the leaf that gets the focus; `None` where the node has no
    /// such leaf.
    fn remove_leaf(self, target: LeafId) -> (removed: Option<(Option<SplitNode<T>>, T, Option<LeafId>)>)
        ensures
            match removed {
                Some((rest, content, focus)) => {
                    &&& self.has_leaf(target)
                    &&& rest == self.without_leaf(target)
                    &&& Some(content) == self.content(target)
                    &&& focus == self.focus_without(target)
                },
                None => !self.has_leaf(target),
            },
        decreases self,
    {
        match self {
            SplitNode::Leaf { id, content } => if id.0 == target.0 {
                Some((None, content, None))
            } else {
                None
            },
            SplitNode::Split { direction, first, second } => {
                // Check which subtree contains the target
                let first_contains = first.node_contains_leaf(target);
                let second_contains = second.node_contains_leaf(target);
                if first_contains {
                    let new_focus = second.first_leaf_id();
                    match first.remove_leaf(target) {
                        Some((new_first, removed, _)) => match new_first {
                            Some(f) => Some(
                                (
                                    Some(SplitNode::Split { direction, first: Box::new(f), second }),
                                    removed,
                                    Some(new_focus),
                                ),
                            ),
                            None => Some((Some(*second), removed, Some(new_focus))),
                        },
                        None => None,
                    }
                } else if second_contains {
                    let new_focus = first.first_leaf_id();
                    match second.remove_leaf(target) {
                        Some((new_second, removed, _)) => match new_second {
                            Some(s) => Some(
                                (
                                    Some(SplitNode::Split { direction, first, second: Box::new(s) }),
                                    removed,
                                    Some(new_focus),
                                ),
                            ),
                            None => Some((Some(*first), removed, Some(new_focus))),
                        },
                        None => None,
                    }
                } else {
                    None
                }
            },
        }
    }

    fn collect_leaf_ids(&self, ids: &mut Vec<LeafId>)
        ensures
            final(ids)@ == old(ids)@ + self.leaves(),
        decreases *self,
    {
        match self {
            SplitNode::Leaf { id, .. } => {
                ids.push(*id);
                assert(ids@ =~= old(ids)@ + seq![*id]);
            },
            SplitNode::Split { first, second, .. } => {
                first.collect_leaf_ids(ids);
                second.collect_leaf_ids(ids);
                assert(ids@ =~= old(ids)@ + (first.leaves() + second.leaves()));
            },
        }
    }

    fn layout_node(&self, bounds: Rect, result: &mut Vec<(LeafId, Rect)>)
        requires
            in_plane(bounds),
        ensures
            final(result)@ == old(result)@ + self.layout(bounds),
        decreases *self,
    {
        match self {
            SplitNode::Leaf { id, .. } => {
                result.push((*id, bounds));
                assert(result@ =~= old(result)@ + seq![(*id, bounds)]);
            },
            SplitNode::Split { direction, first, second } => {
                let (first_bounds, second_bounds) = split_bounds(bounds, *direction);
                first.layout_node(first_bounds, result);
                second.layout_node(second_bounds, result);
                assert(result@ =~= old(result)@ + (first.layout(first_bounds) + second.layout(
                    second_bounds,
                )));
            },
        }
    }

    #[verifier::rlimit(50)]
    fn render_node<'a>(
        &'a self,
        bounds: Rect,
        focused: Option<LeafId>,
        rendered: &mut Vec<(LeafId, Rect, &'a T, bool)>,
    )
        requires
            in_plane(bounds),
        ensures
            final(rendered)@.len() == old(rendered)@.len() + self.leaves().len(),
            self.layout(bounds).len() == self.leaves().len(),
            self.contents().len() == self.leaves().len(),
            forall|i: int|
                0 <= i < old(rendered)@.len() ==> final(rendered)@[i] == old(rendered)@[i],
            forall|i: int|
                0 <= i < self.leaves().len() ==> {
                    let entry = #[trigger] final(rendered)@[old(rendered)@.len() + i];
                    &&& entry.0 == self.layout(bounds)[i].0
                    &&& entry.1 == self.layout(bounds)[i].1
                    &&& *entry.2 == self.contents()[i]
                    &&& entry.3 == (focused == Some(entry.0))
                },
        decreases *self,
    {
        match self {
            SplitNode::Leaf { id, content } => {
                let is_focused = match focused {
                    Some(f) => f.0 == id.0,
                    None => false,
                };
                rendered.push((*id, bounds, content, is_focused));
            },
            SplitNode::Split { direction, first, second } => {
                let (first_bounds, second_bounds) = split_bounds(bounds, *direction);
                first.render_node(first_bounds, focused, rendered);
                let ghost middle = rendered@;
                second.render_node(second_bounds, focused, rendered);
                proof {
                    let n = old(rendered)@.len() as int;
                    let a = first.leaves().len() as int;
                    assert forall|i: int| 0 <= i < self.leaves().len() implies {
                        let entry = #[trigger] rendered@[n + i];
                        &&& entry.0 == self.layout(bounds)[i].0
                        &&& entry.1 == self.layout(bounds)[i].1
                        &&& *entry.2 == self.contents()[i]
                        &&& entry.3 == (focused == Some(entry.0))
                    } by {
                        if i < a {
                            assert(rendered@[n + i] == middle[n + i]);
                        } else {
                            assert(rendered@[n + i] == rendered@[middle.len() + (i - a)]);
                        }
                    }
                }
            },
        }
    }
}

/// Splitting a leaf adds the new leaf and no other, and keeps the contents of the leaves
/// that were there.
#[verifier::rlimit(50)]
pub proof fn lemma_split_leaf<T>(
    node: SplitNode<T>,
    target: LeafId,
    direction: SplitDirection,
    new_id: LeafId,
    content: T,
    id: LeafId,
)
    requires
        node.has_leaf(target),
        !node.has_leaf(new_id),
    ensures
        node.split_leaf(target, direction, new_id, content).has_leaf(id) <==> node.has_leaf(id)
            || id == new_id,
        node.distinct() ==> node.split_leaf(target, direction, new_id, content).distinct(),
        node.distinct() ==> node.split_leaf(target, direction, new_id, content).content(id) == if id
            == new_id {
            Some(content)
        } else {
            node.content(id)
        },
        node.split_leaf(target, direction, new_id, content).leaves().len() == node.leaves().len()
            + 1,
    decreases node,
{
    match node {
        SplitNode::Leaf { id: leaf, content: old_content } => {
            let old_leaf = SplitNode::Leaf { id: leaf, content: old_content };
            let new_leaf = SplitNode::Leaf { id: new_id, content };
            let after = node.split_leaf(target, direction, new_id, content);
            assert(after == SplitNode::Split {
                direction,
                first: Box::new(old_leaf),
                second: Box::new(new_leaf),
            });
            assert(old_leaf.has_leaf(id) == (leaf == id));
            assert(new_leaf.has_leaf(id) == (new_id == id));
            assert(after.has_leaf(id) == (old_leaf.has_leaf(id) || new_leaf.has_leaf(id)));
            assert(old_leaf.distinct() && new_leaf.distinct());
            assert forall|other: LeafId|
                !(old_leaf.has_leaf(other) && new_leaf.has_leaf(other)) by {
                assert(old_leaf.has_leaf(other) == (leaf == other));
                assert(new_leaf.has_leaf(other) == (new_id == other));
            }
            assert(after.distinct());
            assert(old_leaf.content(id) == node.content(id));
            assert(new_leaf.content(id) == if id == new_id {
                Some(content)
            } else {
                None
            });
            assert(old_leaf.leaves().len() == 1 && new_leaf.leaves().len() == 1);
            assert(after.leaves() == old_leaf.leaves() + new_leaf.leaves());
        },
        SplitNode::Split { direction: d, first, second } => {
            if first.has_leaf(target) {
                lemma_split_leaf(*first, target, direction, new_id, content, id);
                let changed = first.split_leaf(target, direction, new_id, content);
                if node.distinct() {
                    assert forall|other: LeafId|
                        !(changed.has_leaf(other) && second.has_leaf(other)) by {
                        lemma_split_leaf(*first, target, direction, new_id, content, other);
                    }
                }
            } else {
                lemma_split_leaf(*second, target, direction, new_id, content, id);
                let changed = second.split_leaf(target, direction, new_id, content);
                if node.distinct() {
                    assert forall|other: LeafId|
                        !(first.has_leaf(other) && changed.has_leaf(other)) by {
                        lemma_split_leaf(*second, target, direction, new_id, content, other);
                    }
                }
            }
        },
    }
}

/// Taking a leaf out removes that leaf and no other, and keeps the contents of the leaves
/// that stay. Only a single leaf leaves nothing behind.
#[verifier::rlimit(50)]
pub proof fn lemma_without_leaf<T>(node: SplitNode<T>, target: LeafId, id: LeafId)
    requires
        node.distinct(),
        node.has_leaf(target),
    ensures
        match node.without_leaf(target) {
            Some(rest) => {
                &&& node is Split
                &&& rest.has_leaf(id) <==> node.has_leaf(id) && id != target
                &&& rest.distinct()
                &&& id != target ==> rest.content(id) == node.content(id)
                &&& rest.leaves().len() + 1 == node.leaves().len()
            },
            None => node is Leaf,
        },
    decreases node,
{
    match node {
        SplitNode::Leaf { id: leaf, .. } => {
            assert(leaf == target);
            assert(node.without_leaf(target) is None);
        },
        SplitNode::Split { direction, first, second } => {
            if first.has_leaf(target) {
                lemma_without_leaf(*first, target, id);
                match first.without_leaf(target) {
                    Some(rest) => {
                        assert forall|other: LeafId|
                            !(rest.has_leaf(other) && second.has_leaf(other)) by {
                            lemma_without_leaf(*first, target, other);
                        }
                    },
                    None => {
                        assert(first.has_leaf(id) == (id == target));
                        assert(first.leaves().len() == 1);
                        lemma_leaves(*first, id);
                        lemma_leaves(*second, id);
                    },
                }
            } else {
                lemma_without_leaf(*second, target, id);
                match second.without_leaf(target) {
                    Some(rest) => {
                        assert forall|other: LeafId|
                            !(first.has_leaf(other) && rest.has_leaf(other)) by {
                            lemma_without_leaf(*second, target, other);
                        }
                    },
                    None => {
                        assert(second.has_leaf(id) == (id == target));
                        assert(second.leaves().len() == 1);
                        lemma_leaves(*first, id);
                        lemma_leaves(*second, id);
                    },
                }
            }
        },
    }
}

/// The leaves of a node have distinct identifiers exactly if the list of its leaves has no
/// duplicates.
#[verifier::rlimit(50)]
pub proof fn lemma_distinct<T>(node: SplitNode<T>)
    ensures
        node.distinct() <==> node.leaves().no_duplicates(),
    decreases node,
{
    match node {
        SplitNode::Leaf { .. } => {},
        SplitNode::Split { first, second, .. } => {
            lemma_distinct(*first);
            lemma_distinct(*second);
            let a = first.leaves();
            let b = second.leaves();
            let all = a + b;
            if node.distinct() {
                assert forall|i: int, j: int|
                    0 <= i < all.len() && 0 <= j < all.len() && i != j implies all[i]
                    != all[j] by {
                    if i < a.len() && j >= a.len() {
                        lemma_leaves(*first, a[i]);
                        lemma_leaves(*second, a[i]);
                        assert(b[j - a.len()] == all[j]);
                        if all[i] == all[j] {
                            assert(b.contains(a[i]));
                        }
                    } else if j < a.len() && i >= a.len() {
                        lemma_leaves(*first, a[j]);
                        lemma_leaves(*second, a[j]);
                        assert(b[i - a.len()] == all[i]);
                        if all[i] == all[j] {
                            assert(b.contains(a[j]));
                        }
                    }
                }
            }
            if all.no_duplicates() {
                assert forall|i: int, j: int|
                    0 <= i < a.len() && 0 <= j < a.len() && i != j implies a[i] != a[j] by {
                    assert(all[i] == a[i] && all[j] == a[j]);
                }
                assert forall|i: int, j: int|
                    0 <= i < b.len() && 0 <= j < b.len() && i != j implies b[i] != b[j] by {
                    assert(all[a.len() + i] == b[i] && all[a.len() + j] == b[j]);
                }
                assert forall|id: LeafId| !(first.has_leaf(id) && second.has_leaf(id)) by {
                    lemma_leaves(*first, id);
                    lemma_leaves(*second, id);
                    if a.contains(id) && b.contains(id) {
                        let i = choose|i: int| 0 <= i < a.len() && a[i] == id;
                        let j = choose|j: int| 0 <= j < b.len() && b[j] == id;
                        assert(all[i] == id && all[a.len() + j] == id);
                    }
                }
            }
        },
    }
}

/// What a split tree holds.
pub struct SplitTreeView<T> {
    pub root: Option<SplitNode<T>>,
    pub focused: Option<LeafId>,
    /// The identifier that the next new leaf gets.
    pub next_id: usize,
}

impl<T> SplitTreeView<T> {
    /// The tree's invariant: the leaves have distinct identifiers, all of them handed out
    /// by this tree, and one of them has the focus. An empty tree has no focus.
    pub open spec fn wf(self) -> bool {
        match self.root {
            Some(node) => {
                &&& node.distinct()
                &&& node.below(self.next_id)
                &&& self.focused matches Some(f) && node.has_leaf(f)
            },
            None => self.focused is None,
        }
    }

    /// The identifiers of the leaves, in order.
    pub open spec fn leaves(self) -> Seq<LeafId> {
        match self.root {
            Some(node) => node.leaves(),
            None => Seq::empty(),
        }
    }

    /// The tree has a leaf with this identifier.
    pub open spec fn has_leaf(self, id: LeafId) -> bool {
        match self.root {
            Some(node) => node.has_leaf(id),
            None => false,
        }
    }

    /// The content of the leaf with this identifier.
    pub open spec fn content(self, id: LeafId) -> Option<T> {
        match self.root {
            Some(node) => node.content(id),
            None => None,
        }
    }

    /// The leaves with their areas, in order, when the tree fills `bounds`.
    pub open spec fn layout(self, bounds: Rect) -> Seq<(LeafId, Rect)> {
        match self.root {
            Some(node) => node.layout(bounds),
            None => Seq::empty(),
        }
    }

    /// The tree that holds one leaf with the given content, which has the focus.
    pub open spec fn rooted(self, content: T) -> SplitTreeView<T> {
        SplitTreeView {
            root: Some(SplitNode::Leaf { id: LeafId(self.next_id), content }),
            focused: Some(LeafId(self.next_id)),
            next_id: (self.next_id + 1) as usize,
        }
    }

    /// The tree after the focused leaf was split: the new leaf comes after it, holds the
    /// given content, and has the focus. An empty tree stays empty.
    pub open spec fn split(self, direction: SplitDirection, content: T) -> SplitTreeView<T> {
        match (self.root, self.focused) {
            (Some(node), Some(focused)) => SplitTreeView {
                root: Some(node.split_leaf(focused, direction, LeafId(self.next_id), content)),
                focused: Some(LeafId(self.next_id)),
                next_id: (self.next_id + 1) as usize,
            },
            _ => self,
        }
    }

    /// The tree after the focused leaf was closed: its sibling takes the place of their
    /// parent, and the focus goes to the first leaf of the other half of the tree.
    pub open spec fn closed(self) -> SplitTreeView<T> {
        match (self.root, self.focused) {
            (Some(node), Some(focused)) => SplitTreeView {
                root: node.without_leaf(focused),
                focused: node.focus_without(focused),
                ..self
            },
            _ => self,
        }
    }

    /// The position of the focused leaf among the leaves; 0 where there is none.
    pub open spec fn focus_index(self) -> int {
        match self.focused {
            Some(f) => if self.leaves().contains(f) {
                self.leaves().index_of(f)
            } else {
                0
            },
            None => 0,
        }
    }
}

/// A tree of splits managing layout and focus.
pub struct SplitTree<T> {
    root: Option<SplitNode<T>>,
    focused: Option<LeafId>,
    next_id: usize,
}

impl<T> View for SplitTree<T> {
    type V = SplitTreeView<T>;

    closed spec fn view(&self) -> SplitTreeView<T> {
        SplitTreeView { root: self.root, focused: self.focused, next_id: self.next_id }
    }
}

impl<T> Default for SplitTree<T> {
    fn default() -> (tree: SplitTree<T>)
        ensures
            tree.wf(),
            tree@ == (SplitTreeView::<T> { root: None, focused: None, next_id: 0 }),
    {
        SplitTree::new()
    }
}

impl<T> SplitTree<T> {
    /// The tree's invariant holds.
    pub open spec fn wf(&self) -> bool {
        self@.wf()
    }

    /// Create an empty split tree.
    pub fn new() -> (tree: SplitTree<T>)
        ensures
            tree.wf(),
            tree@ == (SplitTreeView::<T> { root: None, focused: None, next_id: 0 }),
    {
        SplitTree { root: None, focused: None, next_id: 0 }
    }

    /// Create a split tree with a single leaf.
    pub fn with_root(content: T) -> (tree: SplitTree<T>)
        ensures
            tree.wf(),
            tree@ == (SplitTreeView::<T> { root: None, focused: None, next_id: 0 }).rooted(content),
    {
        let mut tree = SplitTree::new();
        tree.set_root(content);
        tree
    }

    fn next_leaf_id(&mut self) -> (id: LeafId)
        requires
            old(self)@.next_id < usize::MAX,
        ensures
            id == LeafId(old(self)@.next_id),
            final(self)@ == (SplitTreeView { next_id: (old(self)@.next_id + 1) as usize, ..old(self)@ }),
    {
        let id = LeafId(self.next_id);
        self.next_id = self.next_id + 1;
        id
    }

    /// Set the root content (replaces entire tree).
    pub fn set_root(&mut self, content: T) -> (id: LeafId)
        requires
            old(self)@.next_id < usize::MAX,
        ensures
            final(self).wf(),
            id == LeafId(old(self)@.next_id),
            final(self)@ == old(self)@.rooted(content),
    {
        let id = self.next_leaf_id();
        self.root = Some(SplitNode::Leaf { id, content });
        self.focused = Some(id);
        id
    }

    /// Add content by splitting the focused leaf vertically (left/right).
    /// New content goes to the right.
    pub fn split_vertical(&mut self, content: T) -> (id: Option<LeafId>)
        requires
            old(self).wf(),
            old(self)@.next_id < usize::MAX,
        ensures
            final(self).wf(),
            id == if old(self)@.focused is Some {
                Some(LeafId(old(self)@.next_id))
            } else {
                None
            },
            final(self)@ == old(self)@.split(SplitDirection::Vertical, content),
    {
        self.split_focused(SplitDirection::Vertical, content)
    }

    /// Add content by splitting the focused leaf horizontally (top/bottom).
    /// New content goes to the bottom.
    pub fn split_horizontal(&mut self, content: T) -> (id: Option<LeafId>)
        requires
            old(self).wf(),
            old(self)@.next_id < usize::MAX,
        ensures
            final(self).wf(),
            id == if old(self)@.focused is Some {
                Some(LeafId(old(self)@.next_id))
            } else {
                None
            },
            final(self)@ == old(self)@.split(SplitDirection::Horizontal, content),
    {
        self.split_focused(SplitDirection::Horizontal, content)
    }

    /// Split the focused leaf in the given direction.
    fn split_focused(&mut self, direction: SplitDirection, content: T) -> (id: Option<LeafId>)
        requires
            old(self).wf(),
            old(self)@.next_id < usize::MAX,
        ensures
            final(self).wf(),
            id == if old(self)@.focused is Some {
                Some(LeafId(old(self)@.next_id))
            } else {
                None
            },
            final(self)@ == old(self)@.split(direction, content),
    {
        let focused_id = match self.focused {
            Some(f) => f,
            None => {
                return None;
            },
        };
        let new_id = self.next_leaf_id();
        let node = match self.root.take() {
            Some(node) => node,
            None => {
                return None;
            },
        };
        proof {
            assert forall|id: LeafId|
                node.split_leaf(focused_id, direction, new_id, content).has_leaf(id) implies id.0
                < new_id.0 + 1 by {
                lemma_split_leaf(node, focused_id, direction, new_id, content, id);
            }
            lemma_split_leaf(node, focused_id, direction, new_id, content, new_id);
        }
        self.root = Some(node.split_node(focused_id, direction, new_id, content));
        self.focused = Some(new_id);
        Some(new_id)
    }

    /// Whether the tree can take another leaf: its identifiers are not used up.
    pub fn can_grow(&self) -> (free: bool)
        ensures
            free == (self@.next_id < usize::MAX),
    {
        self.next_id < usize::MAX
    }

    /// Get the currently focused leaf ID.
    pub fn focused(&self) -> (focused: Option<LeafId>)
        ensures
            focused == self@.focused,
    {
        self.focused
    }

    /// Set focus to a specific leaf. Nothing happens where the tree has no such leaf.
    pub fn set_focused(&mut self, id: LeafId)
        requires
            old(self).wf(),
        ensures
            final(self).wf(),
            final(self)@ == if old(self)@.has_leaf(id) {
                SplitTreeView { focused: Some(id), ..old(self)@ }
            } else {
                old(self)@
            },
    {
        if self.contains_leaf(id) {
            self.focused = Some(id);
        }
    }

    /// Check if a leaf ID exists in the tree.
    pub fn contains_leaf(&self, id: LeafId) -> (found: bool)
        ensures
            found == self@.has_leaf(id),
    {
        match &self.root {
            Some(node) => node.node_contains_leaf(id),
            None => false,
        }
    }

    /// Get a reference to the focused content.
    pub fn focused_content(&self) -> (content: Option<&T>)
        requires
            self.wf(),
        ensures
            match content {
                Some(c) => self@.focused matches Some(f) && self@.content(f) == Some(*c),
                None => self@.focused is None,
            },
    {
        let focused_id = match self.focused {
            Some(f) => f,
            None => {
                return None;
            },
        };
        proof {
            lemma_leaves(self.root->0, focused_id);
        }
        self.get(focused_id)
    }

    /// Get a mutable reference to the focused content.
    pub fn focused_content_mut(&mut self) -> (content: Option<&mut T>)
        requires
            old(self).wf(),
        ensures
            match content {
                Some(c) => {
                    &&& old(self)@.focused matches Some(f)
                    &&& old(self)@.content(f) == Some(*c)
                    &&& final(self)@ == (SplitTreeView {
                        root: Some(old(self)@.root->0.with_content(f, *final(c))),
                        ..old(self)@
                    })
                },
                None => old(self)@.focused is None && final(self)@ == old(self)@,
            },
    {
        let focused_id = match self.focused {
            Some(f) => f,
            None => {
                return None;
            },
        };
        proof {
            lemma_leaves(self.root->0, focused_id);
        }
        self.get_mut(focused_id)
    }

    /// Get a reference to content by ID.
    pub fn get(&self, id: LeafId) -> (content: Option<&T>)
        ensures
            match content {
                Some(c) => self@.content(id) == Some(*c),
                None => self@.content(id) is None,
            },
    {
        match &self.root {
            Some(node) => node.node_get(id),
            None => None,
        }
    }

    /// Get a mutable reference to content by ID.
    pub fn get_mut(&mut self, id: LeafId) -> (content: Option<&mut T>)
        ensures
            match content {
                Some(c) => {
                    &&& old(self)@.content(id) == Some(*c)
                    &&& final(self)@ == (SplitTreeView {
                        root: Some(old(self)@.root->0.with_content(id, *final(c))),
                        ..old(self)@
                    })
                },
                None => old(self)@.content(id) is None && final(self)@ == old(self)@,
            },
    {
        match &mut self.root {
            Some(node) => node.node_get_mut(id),
            None => None,
        }
    }

    /// Get the number of leaves in the tree.
    pub fn len(&self) -> (n: usize)
        ensures
            n == self@.leaves().len(),
    {
        self.leaf_ids().len()
    }

    /// Check if the tree is empty.
    pub fn is_empty(&self) -> (empty: bool)
        ensures
            empty == self@.root is None,
    {
        self.root.is_none()
    }

    /// Get all leaf IDs in order.
    pub fn leaf_ids(&self) -> (ids: Vec<LeafId>)
        ensures
            ids@ == self@.leaves(),
    {
        let mut ids = Vec::new();
        match &self.root {
            Some(node) => {
                node.collect_leaf_ids(&mut ids);
            },
            None => {},
        }
        assert(ids@ =~= self@.leaves());
        ids
    }

    /// Iterate over all leaves with their computed regions.
    pub fn layout(&self, bounds: Rect) -> (regions: Vec<(LeafId, Rect)>)
        requires
            in_plane(bounds),
        ensures
            regions@ == self@.layout(bounds),
    {
        let mut result = Vec::new();
        match &self.root {
            Some(node) => {
                node.layout_node(bounds, &mut result);
            },
            None => {},
        }
        assert(result@ =~= self@.layout(bounds));
        result
    }

    /// Close the focused leaf, returning its content.
    /// Focus moves to a sibling if possible.
    #[verifier::rlimit(50)]
    pub fn close_focused(&mut self) -> (content: Option<T>)
        requires
            old(self).wf(),
        ensures
            final(self).wf(),
            content == match old(self)@.focused {
                Some(f) => old(self)@.content(f),
                None => None,
            },
            final(self)@ == old(self)@.closed(),
    {
        let focused_id = match self.focused {
            Some(f) => f,
            None => {
                return None;
            },
        };
        let node = match self.root.take() {
            Some(node) => node,
            None => {
                return None;
            },
        };
        proof {
            lemma_without_leaf(node, focused_id, focused_id);
            match node.without_leaf(focused_id) {
                Some(rest) => {
                    assert forall|id: LeafId| rest.has_leaf(id) implies id.0 < self.next_id by {
                        lemma_without_leaf(node, focused_id, id);
                    }
                    let focus = node.focus_without(focused_id)->0;
                    lemma_without_leaf(node, focused_id, focus);
                    lemma_leaves(*node->first, focus);
                    lemma_leaves(*node->second, focus);
                },
                None => {},
            }
        }
        match node.remove_leaf(focused_id) {
            Some((new_root, removed, new_focus)) => {
                self.root = new_root;
                self.focused = new_focus;
                Some(removed)
            },
            None => None,
        }
    }
}

/// The area in which focus moves are measured. Only the relative position of the leaves
/// counts, so any area will do.
pub open spec fn focus_bounds() -> Rect {
    Rect { x: 0, y: 0, width: 1000, height: 1000 }
}

/// The center of a rectangle.
pub open spec fn center(rect: Rect) -> (int, int) {
    (rect.x + (rect.width as int) / 2, rect.y + (rect.height as int) / 2)
}

/// The center of `to` lies in the given direction from the center of `from`: below or above
/// for a horizontal split direction, right or left for a vertical one; `forward` is down
/// and right.
pub open spec fn lies_toward(
    from: Rect,
    to: Rect,
    direction: SplitDirection,
    forward: bool,
) -> bool {
    match direction {
        SplitDirection::Horizontal => if forward {
            center(to).1 > center(from).1
        } else {
            center(to).1 < center(from).1
        },
        SplitDirection::Vertical => if forward {
            center(to).0 > center(from).0
        } else {
            center(to).0 < center(from).0
        },
    }
}

/// How far the center of `to` is from the center of `from` along the axis of the direction.
pub open spec fn distance(from: Rect, to: Rect, direction: SplitDirection) -> int {
    let d = match direction {
        SplitDirection::Horizontal => center(to).1 - center(from).1,
        SplitDirection::Vertical => center(to).0 - center(from).0,
    };
    if d < 0 {
        -d
    } else {
        d
    }
}

/// The area of the first entry of a layout with the given identifier.
pub open spec fn region_of(layout: Seq<(LeafId, Rect)>, id: LeafId) -> Option<Rect>
    decreases layout.len(),
{
    if layout.len() == 0 {
        None
    } else if layout[0].0 == id {
        Some(layout[0].1)
    } else {
        region_of(layout.drop_first(), id)
    }
}

/// Entry `k` of the layout is a leaf to which the focus can move from the leaf `focused`
/// with area `from`: another leaf, in the given direction.
pub open spec fn is_candidate(
    layout: Seq<(LeafId, Rect)>,
    focused: LeafId,
    from: Rect,
    k: int,
    direction: SplitDirection,
    forward: bool,
) -> bool {
    &&& 0 <= k < layout.len()
    &&& layout[k].0 != focused
    &&& lies_toward(from, layout[k].1, direction, forward)
}

/// Entry `k` of the layout is the candidate to which the focus moves: none is nearer, and
/// of those that are as near none comes before it.
pub open spec fn is_nearest(
    layout: Seq<(LeafId, Rect)>,
    focused: LeafId,
    from: Rect,
    k: int,
    direction: SplitDirection,
    forward: bool,
) -> bool {
    &&& is_candidate(layout, focused, from, k, direction, forward)
    &&& forall|j: int| #[trigger]
        is_candidate(layout, focused, from, j, direction, forward) ==> {
            ||| distance(from, layout[k].1, direction) < distance(from, layout[j].1, direction)
            ||| distance(from, layout[k].1, direction) == distance(from, layout[j].1, direction)
                && k <= j
        }
}

/// The point `(x, y)`, given in 1/256 of a pixel, lies in the rectangle.
pub open spec fn covers_point(rect: Rect, x: i32, y: i32) -> bool {
    &&& rect.x * 256 <= x < (rect.x + rect.width) * 256
    &&& rect.y * 256 <= y < (rect.y + rect.height) * 256
}

impl<T> SplitTreeView<T> {
    /// The leaf to which the focus moves in the given direction, if there is one.
    pub open spec fn toward(self, direction: SplitDirection, forward: bool) -> Option<LeafId> {
        let layout = self.layout(focus_bounds());
        match self.focused {
            Some(focused) => match region_of(layout, focused) {
                Some(from) => if exists|k: int|
                    is_candidate(layout, focused, from, k, direction, forward) {
                    Some(
                        layout[choose|k: int|
                            is_nearest(layout, focused, from, k, direction, forward)].0,
                    )
                } else {
                    None
                },
                None => None,
            },
            None => None,
        }
    }

    /// The tree with the focus moved in the given direction; the same tree where no leaf
    /// lies there.
    pub open spec fn moved(self, direction: SplitDirection, forward: bool) -> SplitTreeView<T> {
        match self.toward(direction, forward) {
            Some(id) => SplitTreeView { focused: Some(id), ..self },
            None => self,
        }
    }

    /// The tree with the focus on the leaf `steps` places after the focused one, going
    /// round from the last leaf to the first. An empty tree stays as it is.
    pub open spec fn cycled(self, steps: int) -> SplitTreeView<T> {
        if self.leaves().len() == 0 {
            self
        } else {
            SplitTreeView {
                focused: Some(
                    self.leaves()[(self.focus_index() + steps) % (self.leaves().len() as int)],
                ),
                ..self
            }
        }
    }
}

/// Finds the area of the first entry with the given identifier.
fn find_region(layout: &Vec<(LeafId, Rect)>, id: LeafId) -> (found: Option<Rect>)
    ensures
        found == region_of(layout@, id),
{
    let mut i: usize = 0;
    assert(layout@.subrange(0, layout@.len() as int) =~= layout@);
    while i < layout.len()
        invariant
            i <= layout@.len(),
            region_of(layout@, id) == region_of(layout@.subrange(i as int, layout@.len() as int), id),
        decreases layout@.len() - i,
    {
        let ghost rest = layout@.subrange(i as int, layout@.len() as int);
        proof {
            assert(rest[0] == layout@[i as int]);
            assert(rest.drop_first() =~= layout@.subrange(i + 1, layout@.len() as int));
        }
        if layout[i].0.0 == id.0 {
            return Some(layout[i].1);
        }
        i = i + 1;
    }
    None
}

/// The position of the first entry with the given identifier; 0 where there is none.
fn position_of(ids: &Vec<LeafId>, id: LeafId) -> (index: usize)
    ensures
        ids@.contains(id) ==> index < ids@.len() && ids@[index as int] == id,
        !ids@.contains(id) ==> index == 0,
{
    let mut i: usize = 0;
    while i < ids.len()
        invariant
            i <= ids@.len(),
            forall|j: int| 0 <= j < i ==> ids@[j] != id,
        decreases ids@.len() - i,
    {
        if ids[i].0 == id.0 {
            return i;
        }
        i = i + 1;
    }
    0
}

impl<T> SplitTree<T> {
    /// Find the leaf at the given position within the given bounds. The position is given
    /// in 1/256 of a pixel, as pointer positions are.
    /// Returns the LeafId and its Rect if found: the first leaf whose area holds the point.
    pub fn find_at_position(&self, bounds: Rect, x: i32, y: i32) -> (found: Option<(LeafId, Rect)>)
        requires
            in_plane(bounds),
        ensures
            match found {
                Some(entry) => exists|k: int|
                    {
                        &&& 0 <= k < self@.layout(bounds).len()
                        &&& #[trigger] self@.layout(bounds)[k] == entry
                        &&& covers_point(entry.1, x, y)
                        &&& forall|j: int|
                            0 <= j < k ==> !covers_point(
                                (#[trigger] self@.layout(bounds)[j]).1,
                                x,
                                y,
                            )
                    },
                None => forall|j: int|
                    0 <= j < self@.layout(bounds).len() ==> !covers_point(
                        (#[trigger] self@.layout(bounds)[j]).1,
                        x,
                        y,
                    ),
            },
    {
        let layout = self.layout(bounds);
        let mut i: usize = 0;
        while i < layout.len()
            invariant
                i <= layout@.len(),
                layout@ == self@.layout(bounds),
                forall|j: int| 0 <= j < i ==> !covers_point((#[trigger] layout@[j]).1, x, y),
            decreases layout@.len() - i,
        {
            let (id, rect) = layout[i];
            let left: i64 = rect.x as i64 * 256;
            let right: i64 = (rect.x as i64 + rect.width as i64) * 256;
            let top: i64 = rect.y as i64 * 256;
            let bottom: i64 = (rect.y as i64 + rect.height as i64) * 256;
            let x_in = x as i64 >= left && (x as i64) < right;
            let y_in = y as i64 >= top && (y as i64) < bottom;
            if x_in && y_in {
                assert(self@.layout(bounds)[i as int] == (id, rect));
                return Some((id, rect));
            }
            i = i + 1;
        }
        None
    }

    /// The leaves in order, each with its area, its content, and whether it has the focus.
    pub fn render<'a>(&'a self, bounds: Rect) -> (rendered: Vec<(LeafId, Rect, &'a T, bool)>)
        requires
            in_plane(bounds),
        ensures
            rendered@.len() == self@.leaves().len(),
            rendered@.len() == self@.layout(bounds).len(),
            forall|i: int|
                0 <= i < rendered@.len() ==> {
                    let entry = #[trigger] rendered@[i];
                    &&& entry.0 == self@.layout(bounds)[i].0
                    &&& entry.1 == self@.layout(bounds)[i].1
                    &&& *entry.2 == self@.root->0.contents()[i]
                    &&& entry.3 == (self@.focused == Some(entry.0))
                },
    {
        let mut rendered = Vec::new();
        match &self.root {
            Some(node) => {
                node.render_node(bounds, self.focused, &mut rendered);
                proof {
                    assert forall|i: int| 0 <= i < rendered@.len() implies {
                        let entry = #[trigger] rendered@[i];
                        &&& entry.0 == node.layout(bounds)[i].0
                        &&& entry.1 == node.layout(bounds)[i].1
                        &&& *entry.2 == node.contents()[i]
                        &&& entry.3 == (self.focused == Some(entry.0))
                    } by {
                        assert(rendered@[0 + i] == rendered@[i]);
                    }
                }
            },
            None => {},
        }
        rendered
    }

    /// Move focus in a direction relative to current focus: to the nearest leaf whose
    /// center lies in that direction from the center of the focused leaf. Returns whether
    /// the focus moved.
    #[verifier::rlimit(50)]
    pub fn focus_direction(&mut self, direction: SplitDirection, forward: bool) -> (moved: bool)
        requires
            old(self).wf(),
        ensures
            final(self).wf(),
            moved == old(self)@.toward(direction, forward) is Some,
            final(self)@ == old(self)@.moved(direction, forward),
    {
        let focused_id = match self.focused {
            Some(f) => f,
            None => {
                return false;
            },
        };
        if self.root.is_none() {
            return false;
        }
        // Get layout to find positions
        let bounds = Rect::new(0, 0, 1000, 1000);
        let layout = self.layout(bounds);
        proof {
            lemma_layout(self.root->0, bounds);
        }
        // Find focused leaf's position
        let focused_rect = match find_region(&layout, focused_id) {
            Some(rect) => rect,
            None => {
                return false;
            },
        };
        proof {
            lemma_region_listed(layout@, focused_id);
        }
        // Find best candidate in the given direction
        let focused_center_x = focused_rect.x + focused_rect.width as i32 / 2;
        let focused_center_y = focused_rect.y + focused_rect.height as i32 / 2;
        let mut best: Option<(LeafId, i32)> = None;
        let ghost mut best_index: int = 0;
        let mut i: usize = 0;
        while i < layout.len()
            invariant
                i <= layout@.len(),
                within(focused_rect, bounds),
                bounds == focus_bounds(),
                focused_center_x == center(focused_rect).0,
                focused_center_y == center(focused_rect).1,
                forall|j: int| 0 <= j < layout@.len() ==> within((#[trigger] layout@[j]).1, bounds),
                match best {
                    Some((id, d)) => {
                        &&& 0 <= best_index < i
                        &&& is_candidate(
                            layout@,
                            focused_id,
                            focused_rect,
                            best_index,
                            direction,
                            forward,
                        )
                        &&& layout@[best_index].0 == id
                        &&& d == distance(focused_rect, layout@[best_index].1, direction)
                        &&& forall|j: int|
                            0 <= j < i && #[trigger] is_candidate(
                                layout@,
                                focused_id,
                                focused_rect,
                                j,
                                direction,
                                forward,
                            ) ==> {
                                ||| d < distance(focused_rect, layout@[j].1, direction)
                                ||| d == distance(focused_rect, layout@[j].1, direction)
                                    && best_index <= j
                            }
                    },
                    None => forall|j: int|
                        0 <= j < i ==> !#[trigger] is_candidate(
                            layout@,
                            focused_id,
                            focused_rect,
                            j,
                            direction,
                            forward,
                        ),
                },
            decreases layout@.len() - i,
        {
            let (id, rect) = layout[i];
            assert(within(layout@[i as int].1, bounds));
            if id.0 != focused_id.0 {
                let center_x = rect.x + rect.width as i32 / 2;
                let center_y = rect.y + rect.height as i32 / 2;
                let is_valid = match direction {
                    SplitDirection::Horizontal => if forward {
                        center_y > focused_center_y
                    } else {
                        center_y < focused_center_y
                    },
                    SplitDirection::Vertical => if forward {
                        center_x > focused_center_x
                    } else {
                        center_x < focused_center_x
                    },
                };
                if is_valid {
                    let delta = match direction {
                        SplitDirection::Horizontal => center_y - focused_center_y,
                        SplitDirection::Vertical => center_x - focused_center_x,
                    };
                    let gap = if delta < 0 {
                        -delta
                    } else {
                        delta
                    };
                    let better = match best {
                        Some((_, d)) => gap < d,
                        None => true,
                    };
                    if better {
                        best = Some((id, gap));
                        proof {
                            best_index = i as int;
                        }
                    }
                }
            }
            i = i + 1;
        }
        match best {
            Some((id, _)) => {
                proof {
                    assert(is_nearest(
                        layout@,
                        focused_id,
                        focused_rect,
                        best_index,
                        direction,
                        forward,
                    ));
                    let chosen = choose|k: int|
                        is_nearest(layout@, focused_id, focused_rect, k, direction, forward);
                    assert(is_candidate(
                        layout@,
                        focused_id,
                        focused_rect,
                        chosen,
                        direction,
                        forward,
                    ));
                    assert(chosen == best_index);
                    lemma_leaves(self.root->0, id);
                    assert(self.root->0.leaves()[best_index] == id);
                }
                self.focused = Some(id);
                true
            },
            None => false,
        }
    }

    /// Focus the leaf to the left.
    pub fn focus_left(&mut self) -> (moved: bool)
        requires
            old(self).wf(),
        ensures
            final(self).wf(),
            moved == old(self)@.toward(SplitDirection::Vertical, false) is Some,
            final(self)@ == old(self)@.moved(SplitDirection::Vertical, false),
    {
        self.focus_direction(SplitDirection::Vertical, false)
    }

    /// Focus the leaf to the right.
    pub fn focus_right(&mut self) -> (moved: bool)
        requires
            old(self).wf(),
        ensures
            final(self).wf(),
            moved == old(self)@.toward(SplitDirection::Vertical, true) is Some,
            final(self)@ == old(self)@.moved(SplitDirection::Vertical, true),
    {
        self.focus_direction(SplitDirection::Vertical, true)
    }

    /// Focus the leaf above.
    pub fn focus_up(&mut self) -> (moved: bool)
        requires
            old(self).wf(),
        ensures
            final(self).wf(),
            moved == old(self)@.toward(SplitDirection::Horizontal, false) is Some,
            final(self)@ == old(self)@.moved(SplitDirection::Horizontal, false),
    {
        self.focus_direction(SplitDirection::Horizontal, false)
    }

    /// Focus the leaf below.
    pub fn focus_down(&mut self) -> (moved: bool)
        requires
            old(self).wf(),
        ensures
            final(self).wf(),
            moved == old(self)@.toward(SplitDirection::Horizontal, true) is Some,
            final(self)@ == old(self)@.moved(SplitDirection::Horizontal, true),
    {
        self.focus_direction(SplitDirection::Horizontal, true)
    }

    /// Cycle focus to the next leaf. Returns false for an empty tree.
    pub fn focus_next(&mut self) -> (moved: bool)
        requires
            old(self).wf(),
        ensures
            final(self).wf(),
            moved == (old(self)@.leaves().len() > 0),
            final(self)@ == old(self)@.cycled(1),
    {
        let ids = self.leaf_ids();
        if ids.len() == 0 {
            return false;
        }
        let current_idx = match self.focused {
            Some(f) => position_of(&ids, f),
            None => 0,
        };
        proof {
            self.lemma_focus_index(current_idx as int);
        }
        let next_idx = if current_idx + 1 == ids.len() {
            0
        } else {
            current_idx + 1
        };
        proof {
            lemma_leaves(self.root->0, ids@[next_idx as int]);
        }
        self.focused = Some(ids[next_idx]);
        true
    }

    /// Cycle focus to the previous leaf. Returns false for an empty tree.
    pub fn focus_prev(&mut self) -> (moved: bool)
        requires
            old(self).wf(),
        ensures
            final(self).wf(),
            moved == (old(self)@.leaves().len() > 0),
            final(self)@ == old(self)@.cycled(old(self)@.leaves().len() - 1),
    {
        let ids = self.leaf_ids();
        if ids.len() == 0 {
            return false;
        }
        let current_idx = match self.focused {
            Some(f) => position_of(&ids, f),
            None => 0,
        };
        proof {
            self.lemma_focus_index(current_idx as int);
        }
        let prev_idx = if current_idx == 0 {
            ids.len() - 1
        } else {
            current_idx - 1
        };
        proof {
            lemma_leaves(self.root->0, ids@[prev_idx as int]);
            let n = ids@.len() as int;
            if current_idx > 0 {
                assert((current_idx as int + n - 1) % n == current_idx as int - 1) by {
                    vstd::arithmetic::div_mod::lemma_mod_add_multiples_vanish(
                        current_idx as int - 1,
                        n,
                    );
                    vstd::arithmetic::div_mod::lemma_small_mod((current_idx - 1) as nat, n as nat);
                }
            } else {
                vstd::arithmetic::div_mod::lemma_small_mod((n - 1) as nat, n as nat);
            }
        }
        self.focused = Some(ids[prev_idx]);
        true
    }

    /// In a tree that is not empty, `index` is the position of the focused leaf among the
    /// leaves if the focused leaf is found there.
    proof fn lemma_focus_index(&self, index: int)
        requires
            self.wf(),
            self@.leaves().len() > 0,
            match self@.focused {
                Some(f) => (self@.leaves().contains(f) ==> 0 <= index < self@.leaves().len()
                    && self@.leaves()[index] == f) && (!self@.leaves().contains(f) ==> index == 0),
                None => index == 0,
            },
        ensures
            index == self@.focus_index(),
            0 <= index < self@.leaves().len(),
            (index + 1) % (self@.leaves().len() as int) == if index + 1 == self@.leaves().len() {
                0
            } else {
                index + 1
            },
    {
        let ids = self@.leaves();
        lemma_distinct(self.root->0);
        match self@.focused {
            Some(f) => {
                if ids.contains(f) {
                    let k = ids.index_of(f);
                    assert(0 <= k < ids.len() && ids[k] == f);
                    assert(k == index);
                }
            },
            None => {},
        }
        let n = ids.len() as int;
        if index + 1 == n {
            vstd::arithmetic::div_mod::lemma_mod_self_0(n);
        } else {
            vstd::arithmetic::div_mod::lemma_small_mod((index + 1) as nat, n as nat);
        }
    }
}

/// The area that `region_of` finds is that of an entry of the layout.
pub proof fn lemma_region_listed(layout: Seq<(LeafId, Rect)>, id: LeafId)
    ensures
        match region_of(layout, id) {
            Some(rect) => exists|k: int| 0 <= k < layout.len() && #[trigger] layout[k] == (id, rect),
            None => forall|k: int| 0 <= k < layout.len() ==> (#[trigger] layout[k]).0 != id,
        },
    decreases layout.len(),
{
    if layout.len() > 0 {
        if layout[0].0 == id {
            assert(layout[0] == (id, layout[0].1));
        } else {
            let rest = layout.drop_first();
            lemma_region_listed(rest, id);
            match region_of(rest, id) {
                Some(rect) => {
                    let k = choose|k: int| 0 <= k < rest.len() && #[trigger] rest[k] == (id, rect);
                    assert(layout[k + 1] == (id, rect));
                },
                None => {
                    assert forall|k: int| 0 <= k < layout.len() implies (#[trigger] layout[k]).0
                        != id by {
                        if k > 0 {
                            assert(rest[k - 1] == layout[k]);
                        }
                    }
                },
            }
        }
    }
}

} // verus!
