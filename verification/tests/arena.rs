use eternal_pixels::styler::element::ElementState;
use eternal_pixels::ui::arena::Tree;

#[test]
fn mounting_links_parents_and_children() {
    let mut tree = Tree::new();
    let root = tree.mount(None);
    let a = tree.mount(Some(root));
    let b = tree.mount(Some(root));
    let c = tree.mount(Some(a));
    assert_eq!(tree.children(root), [a, b]);
    assert_eq!(tree.children(a), [c]);
    assert_eq!(tree.parent(c), Some(a));
    assert_eq!(tree.parent(root), None);
    assert!(tree.contains(c));
    assert!(!tree.contains(99));
    assert!(tree.state(c).is_empty());
}

#[test]
fn removed_slots_are_reused() {
    let mut tree = Tree::new();
    let root = tree.mount(None);
    let a = tree.mount(Some(root));
    let c = tree.mount(Some(a));
    let b = tree.mount(Some(root));
    tree.remove(a);
    assert!(!tree.contains(a));
    assert!(!tree.contains(c));
    assert!(tree.contains(b));
    assert_eq!(tree.children(root), [b]);
    let d = tree.mount(Some(b));
    // Freed slots are queued children first, and the last one queued (the
    // removed element's own) is taken first.
    assert_eq!(d, a);
    assert_eq!(tree.parent(d), Some(b));
    let e = tree.mount(Some(b));
    assert_eq!(e, c);
    let f = tree.mount(None);
    assert_eq!(f, 4);
}

#[test]
fn focus_marks_the_element_and_its_ancestors() {
    let mut tree = Tree::new();
    let root = tree.mount(None);
    let row = tree.mount(Some(root));
    let field = tree.mount(Some(row));
    let other = tree.mount(Some(root));
    tree.set_focus(Some(field), true);
    assert_eq!(tree.focus(), Some(field));
    assert!(tree.state(field).contains(ElementState::focus() | ElementState::focus_visible()));
    assert!(tree.state(row).contains(ElementState::focus_within()));
    assert!(tree.state(root).contains(ElementState::focus_within()));
    assert!(!tree.state(other).intersects(ElementState::focus_within() | ElementState::focus()));
    // Moving focus takes the marks along.
    tree.set_focus(Some(other), false);
    assert!(!tree.state(field).intersects(ElementState::focus() | ElementState::focus_visible()));
    assert!(!tree.state(row).contains(ElementState::focus_within()));
    assert!(tree.state(root).contains(ElementState::focus_within()));
    assert!(tree.state(other).contains(ElementState::focus()));
    assert!(!tree.state(other).contains(ElementState::focus_visible()));
    // Removing the focused element takes focus away.
    tree.remove(other);
    assert_eq!(tree.focus(), None);
    assert!(!tree.state(root).contains(ElementState::focus_within()));
}

#[test]
fn chain_state_follows_the_pointer() {
    let mut tree = Tree::new();
    let root = tree.mount(None);
    let a = tree.mount(Some(root));
    let b = tree.mount(Some(a));
    let c = tree.mount(Some(root));
    tree.set_chain_state(Some(b), ElementState::hover());
    assert!(tree.state(b).contains(ElementState::hover()));
    assert!(tree.state(a).contains(ElementState::hover()));
    assert!(tree.state(root).contains(ElementState::hover()));
    assert!(!tree.state(c).contains(ElementState::hover()));
    tree.set_chain_state(Some(c), ElementState::hover());
    assert!(!tree.state(b).contains(ElementState::hover()));
    assert!(tree.state(c).contains(ElementState::hover()));
    tree.set_chain_state(None, ElementState::hover());
    assert!(!tree.state(root).contains(ElementState::hover()));
}

#[test]
fn nearest_focusable_looks_upwards() {
    let mut tree = Tree::new();
    let root = tree.mount(None);
    let button = tree.mount(Some(root));
    let label = tree.mount(Some(button));
    let focusable = [false, true, false];
    assert_eq!(tree.focusable_from(label, &focusable), Some(button));
    assert_eq!(tree.focusable_from(root, &focusable), None);
    assert_eq!(tree.focusable_from(label, &[]), None);
    tree.clear();
    assert!(!tree.contains(root));
}

#[test]
fn events_bubble_from_the_target_to_the_top() {
    let mut tree = Tree::new();
    let root = tree.mount(None);
    let a = tree.mount(Some(root));
    let b = tree.mount(Some(a));
    let other = tree.mount(Some(root));
    assert_eq!(tree.path_up(b), vec![b, a, root]);
    assert_eq!(tree.path_up(other), vec![other, root]);
    assert_eq!(tree.path_up(root), vec![root]);
}

#[test]
fn preorder_visits_parents_before_children_in_mount_order() {
    let mut tree = Tree::new();
    let root = tree.mount(None);
    let a = tree.mount(Some(root));
    let b = tree.mount(Some(root));
    let a1 = tree.mount(Some(a));
    let a2 = tree.mount(Some(a));
    let b1 = tree.mount(Some(b));
    assert_eq!(tree.preorder(root), vec![root, a, a1, a2, b, b1]);
    assert_eq!(tree.preorder(a), vec![a, a1, a2]);
    tree.remove(a);
    assert_eq!(tree.preorder(root), vec![root, b, b1]);
    let c = tree.mount(Some(root));
    assert_eq!(tree.preorder(root), vec![root, b, b1, c]);
}

#[test]
fn a_removed_subtree_is_freed_children_first() {
    let mut tree = Tree::new();
    let root = tree.mount(None);
    let a = tree.mount(Some(root));
    let x = tree.mount(Some(a));
    let y = tree.mount(Some(a));
    let z = tree.mount(Some(x));
    tree.remove(a);
    // Freed in post-order: z, x, y, a; taken back last-freed first.
    assert_eq!(tree.mount(Some(root)), a);
    assert_eq!(tree.mount(Some(root)), y);
    assert_eq!(tree.mount(Some(root)), x);
    assert_eq!(tree.mount(Some(root)), z);
    assert_eq!(tree.mount(Some(root)), 5);
}
