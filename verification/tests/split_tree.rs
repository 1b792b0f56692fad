use mkframe::split::{is_in_plane, split_bounds};
use mkframe::{LeafId, Rect, SplitDirection, SplitTree};

#[test]
fn test_new_tree_is_empty() {
    let tree: SplitTree<i32> = SplitTree::new();
    assert!(tree.is_empty());
    assert_eq!(tree.len(), 0);
    assert!(tree.focused().is_none());
}

#[test]
fn test_with_root() {
    let tree = SplitTree::with_root(42);
    assert!(!tree.is_empty());
    assert_eq!(tree.len(), 1);
    assert!(tree.focused().is_some());
    assert_eq!(tree.focused_content(), Some(&42));
}

#[test]
fn test_set_root() {
    let mut tree = SplitTree::new();
    let id = tree.set_root("hello");
    assert_eq!(tree.len(), 1);
    assert_eq!(tree.focused(), Some(id));
    assert_eq!(tree.get(id), Some(&"hello"));
}

#[test]
fn test_split_vertical() {
    let mut tree = SplitTree::with_root(1);
    let first_id = tree.focused().unwrap();

    let second_id = tree.split_vertical(2).unwrap();

    assert_eq!(tree.len(), 2);
    assert_eq!(tree.get(first_id), Some(&1));
    assert_eq!(tree.get(second_id), Some(&2));
    assert_eq!(tree.focused(), Some(second_id)); // Focus moves to new leaf
}

#[test]
fn test_split_horizontal() {
    let mut tree = SplitTree::with_root("top");
    let first_id = tree.focused().unwrap();

    let second_id = tree.split_horizontal("bottom").unwrap();

    assert_eq!(tree.len(), 2);
    assert_eq!(tree.get(first_id), Some(&"top"));
    assert_eq!(tree.get(second_id), Some(&"bottom"));
}

#[test]
fn test_multiple_splits() {
    let mut tree = SplitTree::with_root(1);
    tree.split_vertical(2);
    tree.split_horizontal(3);
    tree.split_vertical(4);

    assert_eq!(tree.len(), 4);
}

#[test]
fn test_get_mut() {
    let mut tree = SplitTree::with_root(10);
    let id = tree.focused().unwrap();

    if let Some(content) = tree.get_mut(id) {
        *content = 20;
    }

    assert_eq!(tree.get(id), Some(&20));
}

#[test]
fn test_focused_content_mut() {
    let mut tree = SplitTree::with_root(100);

    if let Some(content) = tree.focused_content_mut() {
        *content = 200;
    }

    assert_eq!(tree.focused_content(), Some(&200));
}

#[test]
fn test_contains_leaf() {
    let mut tree = SplitTree::with_root(1);
    let id1 = tree.focused().unwrap();
    let id2 = tree.split_vertical(2).unwrap();

    assert!(tree.contains_leaf(id1));
    assert!(tree.contains_leaf(id2));
    assert!(!tree.contains_leaf(LeafId(999)));
}

#[test]
fn test_set_focused() {
    let mut tree = SplitTree::with_root(1);
    let id1 = tree.focused().unwrap();
    let id2 = tree.split_vertical(2).unwrap();

    assert_eq!(tree.focused(), Some(id2));

    tree.set_focused(id1);
    assert_eq!(tree.focused(), Some(id1));

    // Setting invalid ID should not change focus
    tree.set_focused(LeafId(999));
    assert_eq!(tree.focused(), Some(id1));
}

#[test]
fn test_close_focused() {
    let mut tree = SplitTree::with_root(1);
    tree.split_vertical(2);

    assert_eq!(tree.len(), 2);

    let removed = tree.close_focused();
    assert_eq!(removed, Some(2));
    assert_eq!(tree.len(), 1);
    assert_eq!(tree.focused_content(), Some(&1));
}

#[test]
fn test_close_last_leaf() {
    let mut tree = SplitTree::with_root(42);
    let removed = tree.close_focused();
    assert_eq!(removed, Some(42));
    assert!(tree.is_empty());
    assert!(tree.focused().is_none());
}

#[test]
fn test_layout_single_leaf() {
    let tree = SplitTree::with_root("content");
    let bounds = Rect::new(0, 0, 100, 100);
    let layout = tree.layout(bounds);

    assert_eq!(layout.len(), 1);
    let (_, rect) = layout[0];
    assert_eq!(rect, bounds);
}

#[test]
fn test_layout_vertical_split() {
    let mut tree = SplitTree::with_root(1);
    tree.split_vertical(2);

    let bounds = Rect::new(0, 0, 100, 100);
    let layout = tree.layout(bounds);

    assert_eq!(layout.len(), 2);

    // First should be left half
    let (_, rect1) = layout[0];
    assert_eq!(rect1.x, 0);
    assert_eq!(rect1.width, 50);

    // Second should be right half
    let (_, rect2) = layout[1];
    assert_eq!(rect2.x, 50);
    assert_eq!(rect2.width, 50);
}

#[test]
fn test_layout_horizontal_split() {
    let mut tree = SplitTree::with_root(1);
    tree.split_horizontal(2);

    let bounds = Rect::new(0, 0, 100, 100);
    let layout = tree.layout(bounds);

    assert_eq!(layout.len(), 2);

    // First should be top half
    let (_, rect1) = layout[0];
    assert_eq!(rect1.y, 0);
    assert_eq!(rect1.height, 50);

    // Second should be bottom half
    let (_, rect2) = layout[1];
    assert_eq!(rect2.y, 50);
    assert_eq!(rect2.height, 50);
}

#[test]
fn test_leaf_ids() {
    let mut tree = SplitTree::with_root(1);
    let id1 = tree.focused().unwrap();
    let id2 = tree.split_vertical(2).unwrap();
    let id3 = tree.split_horizontal(3).unwrap();

    let ids = tree.leaf_ids();
    assert_eq!(ids.len(), 3);
    assert!(ids.contains(&id1));
    assert!(ids.contains(&id2));
    assert!(ids.contains(&id3));
}

#[test]
fn test_focus_next() {
    let mut tree = SplitTree::with_root(1);
    let id1 = tree.focused().unwrap();
    let id2 = tree.split_vertical(2).unwrap();
    let id3 = tree.split_vertical(3).unwrap();

    // Currently at id3
    assert_eq!(tree.focused(), Some(id3));

    // Next should wrap to id1
    tree.focus_next();
    assert_eq!(tree.focused(), Some(id1));

    // Next should be id2
    tree.focus_next();
    assert_eq!(tree.focused(), Some(id2));
}

#[test]
fn test_focus_prev() {
    let mut tree = SplitTree::with_root(1);
    let id1 = tree.focused().unwrap();
    let _id2 = tree.split_vertical(2).unwrap();
    let id3 = tree.split_vertical(3).unwrap();

    tree.set_focused(id1);

    // Prev should wrap to id3
    tree.focus_prev();
    assert_eq!(tree.focused(), Some(id3));
}

#[test]
fn test_focus_left_right() {
    let mut tree = SplitTree::with_root(1);
    let id1 = tree.focused().unwrap();
    tree.set_focused(id1);
    let id2 = tree.split_vertical(2).unwrap();

    // Currently at id2 (right)
    tree.focus_left();
    assert_eq!(tree.focused(), Some(id1));

    tree.focus_right();
    assert_eq!(tree.focused(), Some(id2));
}

#[test]
fn test_focus_up_down() {
    let mut tree = SplitTree::with_root(1);
    let id1 = tree.focused().unwrap();
    tree.set_focused(id1);
    let id2 = tree.split_horizontal(2).unwrap();

    // Currently at id2 (bottom)
    tree.focus_up();
    assert_eq!(tree.focused(), Some(id1));

    tree.focus_down();
    assert_eq!(tree.focused(), Some(id2));
}

#[test]
fn test_render() {
    let mut tree = SplitTree::with_root("a");
    tree.split_vertical("b");

    let bounds = Rect::new(0, 0, 100, 100);
    let mut rendered = Vec::new();

    for (id, rect, content, is_focused) in tree.render(bounds) {
        rendered.push((id, rect, *content, is_focused));
    }

    assert_eq!(rendered.len(), 2);

    // One should be focused
    let focused_count = rendered.iter().filter(|(_, _, _, f)| *f).count();
    assert_eq!(focused_count, 1);
}

#[test]
fn test_default() {
    let tree: SplitTree<i32> = SplitTree::default();
    assert!(tree.is_empty());
}

#[test]
fn render_lists_the_leaves_in_order_with_their_areas() {
    let mut tree = SplitTree::with_root("a");
    let a = tree.focused().unwrap();
    let b = tree.split_vertical("b").unwrap();
    let c = tree.split_horizontal("c").unwrap();
    let rendered = tree.render(Rect::new(0, 0, 101, 51));
    assert_eq!(
        rendered,
        vec![
            (a, Rect::new(0, 0, 50, 51), &"a", false),
            (b, Rect::new(50, 0, 51, 25), &"b", false),
            (c, Rect::new(50, 25, 51, 26), &"c", true),
        ]
    );
    let empty: SplitTree<u8> = SplitTree::new();
    assert!(empty.render(Rect::new(0, 0, 10, 10)).is_empty());
    assert!(empty.layout(Rect::new(0, 0, 10, 10)).is_empty());
    assert!(empty.leaf_ids().is_empty());
}

#[test]
fn halves_of_odd_and_tiny_rectangles() {
    let (left, right) = split_bounds(Rect::new(-5, 7, 9, 3), SplitDirection::Vertical);
    assert_eq!(left, Rect::new(-5, 7, 4, 3));
    assert_eq!(right, Rect::new(-1, 7, 5, 3));
    let (top, bottom) = split_bounds(Rect::new(-5, 7, 9, 3), SplitDirection::Horizontal);
    assert_eq!(top, Rect::new(-5, 7, 9, 1));
    assert_eq!(bottom, Rect::new(-5, 8, 9, 2));
    let (a, b) = split_bounds(Rect::new(0, 0, 1, 0), SplitDirection::Vertical);
    assert_eq!((a, b), (Rect::new(0, 0, 0, 0), Rect::new(0, 0, 1, 0)));
    assert!(is_in_plane(Rect::new(i32::MIN, 0, u32::MAX, 1)));
    assert!(is_in_plane(Rect::new(i32::MAX, i32::MAX, 0, 0)));
    assert!(!is_in_plane(Rect::new(i32::MAX, 0, 1, 0)));
    assert!(!is_in_plane(Rect::new(0, 1, 0, i32::MAX as u32)));
    assert!(SplitTree::<u8>::new().can_grow());
    let (a, b) = split_bounds(Rect::new(i32::MIN, 0, u32::MAX, 1), SplitDirection::Vertical);
    assert_eq!(a, Rect::new(i32::MIN, 0, 0x7fff_ffff, 1));
    assert_eq!(b, Rect::new(-1, 0, 0x8000_0000, 1));
}

#[test]
fn identifiers_of_leaves_are_not_reused() {
    let mut tree = SplitTree::with_root(1);
    assert_eq!(tree.focused(), Some(LeafId(0)));
    assert_eq!(tree.split_vertical(2), Some(LeafId(1)));
    assert_eq!(tree.close_focused(), Some(2));
    assert_eq!(tree.split_vertical(3), Some(LeafId(2)));
    assert_eq!(tree.set_root(9), LeafId(3));
    assert_eq!(tree.leaf_ids(), vec![LeafId(3)]);
    assert_eq!(tree.close_focused(), Some(9));
    // An empty tree cannot be split, and closing it gives nothing.
    assert_eq!(tree.split_horizontal(5), None);
    assert_eq!(tree.close_focused(), None);
    assert!(tree.is_empty());
    assert!(!tree.focus_next());
    assert!(!tree.focus_prev());
    assert!(!tree.focus_left());
    assert_eq!(tree.focused_content(), None);
    assert_eq!(tree.focused_content_mut(), None);
    assert_eq!(tree.get(LeafId(3)), None);
    assert_eq!(tree.get_mut(LeafId(3)), None);
    assert_eq!(tree.set_root(7), LeafId(4));
}

#[test]
fn closing_moves_the_focus_to_the_other_half() {
    // ((a | b) | c): closing a gives the focus to c, the first leaf of the other half.
    let mut tree = SplitTree::with_root('a');
    let a = tree.focused().unwrap();
    let c = tree.split_vertical('c').unwrap();
    tree.set_focused(a);
    let b = tree.split_vertical('b').unwrap();
    assert_eq!(tree.leaf_ids(), vec![a, b, c]);
    tree.set_focused(a);
    assert_eq!(tree.close_focused(), Some('a'));
    assert_eq!(tree.leaf_ids(), vec![b, c]);
    assert_eq!(tree.focused(), Some(c));
    // Closing c gives the focus to b.
    assert_eq!(tree.close_focused(), Some('c'));
    assert_eq!(tree.leaf_ids(), vec![b]);
    assert_eq!(tree.focused(), Some(b));
    assert_eq!(tree.layout(Rect::new(1, 2, 3, 4)), vec![(b, Rect::new(1, 2, 3, 4))]);
}

#[test]
fn focus_moves_to_the_nearest_leaf_in_the_direction() {
    // a | (b / (c | d))
    let mut tree = SplitTree::with_root('a');
    let a = tree.focused().unwrap();
    let b = tree.split_vertical('b').unwrap();
    let c = tree.split_horizontal('c').unwrap();
    let d = tree.split_vertical('d').unwrap();
    assert_eq!(
        tree.layout(Rect::new(0, 0, 1000, 1000)),
        vec![
            (a, Rect::new(0, 0, 500, 1000)),
            (b, Rect::new(500, 0, 500, 500)),
            (c, Rect::new(500, 500, 250, 500)),
            (d, Rect::new(750, 500, 250, 500)),
        ]
    );
    // Centers: a (250, 500), b (750, 250), c (625, 750), d (875, 750).
    assert_eq!(tree.focused(), Some(d));
    assert!(!tree.focus_right());
    assert!(!tree.focus_down());
    assert!(tree.focus_left());
    // b is left of d, and nearer than c and a.
    assert_eq!(tree.focused(), Some(b));
    assert!(tree.focus_left());
    assert_eq!(tree.focused(), Some(c));
    assert!(tree.focus_left());
    assert_eq!(tree.focused(), Some(a));
    assert!(!tree.focus_left());
    assert_eq!(tree.focused(), Some(a));
    assert!(tree.focus_up());
    assert_eq!(tree.focused(), Some(b));
    assert!(!tree.focus_up());
    assert!(tree.focus_down());
    // a is nearer below b than c and d are.
    assert_eq!(tree.focused(), Some(a));
    assert!(tree.focus_right());
    assert_eq!(tree.focused(), Some(c));
    assert!(tree.focus_up());
    assert_eq!(tree.focused(), Some(a));
    assert!(tree.focus_down());
    // c and d lie below a at the same height: the first in order wins.
    assert_eq!(tree.focused(), Some(c));
    assert!(tree.focus_direction(SplitDirection::Vertical, true));
    // b (750) is nearer to the right of c (625) than d (875).
    assert_eq!(tree.focused(), Some(b));
    assert!(tree.focus_direction(SplitDirection::Horizontal, true));
    assert_eq!(tree.focused(), Some(a));
}

#[test]
fn focus_cycles_through_the_leaves() {
    let mut tree = SplitTree::with_root(0);
    let a = tree.focused().unwrap();
    let b = tree.split_vertical(1).unwrap();
    let c = tree.split_horizontal(2).unwrap();
    assert_eq!(tree.leaf_ids(), vec![a, b, c]);
    assert!(tree.focus_next());
    assert_eq!(tree.focused(), Some(a));
    assert!(tree.focus_prev());
    assert_eq!(tree.focused(), Some(c));
    assert!(tree.focus_prev());
    assert_eq!(tree.focused(), Some(b));
    assert!(tree.focus_prev());
    assert_eq!(tree.focused(), Some(a));
    let mut single = SplitTree::with_root(0);
    assert!(single.focus_next());
    assert!(single.focus_prev());
    assert_eq!(single.focused(), Some(LeafId(0)));
}

#[test]
fn find_at_position_takes_fixed_point_coordinates() {
    let mut tree = SplitTree::with_root('a');
    let a = tree.focused().unwrap();
    let b = tree.split_vertical('b').unwrap();
    let bounds = Rect::new(10, 10, 100, 40);
    let left = Rect::new(10, 10, 50, 40);
    let right = Rect::new(60, 10, 50, 40);
    assert_eq!(tree.find_at_position(bounds, 10 * 256, 10 * 256), Some((a, left)));
    assert_eq!(tree.find_at_position(bounds, 60 * 256 - 1, 50 * 256 - 1), Some((a, left)));
    assert_eq!(tree.find_at_position(bounds, 60 * 256, 30 * 256), Some((b, right)));
    assert_eq!(tree.find_at_position(bounds, 110 * 256 - 1, 30 * 256), Some((b, right)));
    assert_eq!(tree.find_at_position(bounds, 110 * 256, 30 * 256), None);
    assert_eq!(tree.find_at_position(bounds, 10 * 256 - 1, 30 * 256), None);
    assert_eq!(tree.find_at_position(bounds, 30 * 256, 50 * 256), None);
    assert_eq!(tree.find_at_position(bounds, i32::MIN, i32::MAX), None);
    let empty: SplitTree<u8> = SplitTree::new();
    assert_eq!(empty.find_at_position(bounds, 20 * 256, 20 * 256), None);
}
