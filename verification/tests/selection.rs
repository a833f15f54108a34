//! The box selector: greedy coverage of a target value under the by-value
//! and by-age orderings.
use ergo_node_interface::boxes::{highest_value_box, sort_boxes_descending, WalletBox};
use ergo_node_interface::node_interface::{NodeError, NodeInterface};

fn node() -> NodeInterface {
    NodeInterface::new("hello", "0.0.0.0", "9053")
}

fn sample_boxes() -> Vec<WalletBox> {
    vec![
        WalletBox::new("A".to_string(), 5),
        WalletBox::new("B".to_string(), 3),
        WalletBox::new("C".to_string(), 10),
    ]
}

#[test]
fn by_value_selection_takes_largest_first() {
    let ni = node();
    let sorted = sort_boxes_descending(sample_boxes());
    let sel = ni.consume_boxes_until_total(8, sorted).unwrap();
    assert_eq!(sel.len(), 1);
    assert_eq!(sel[0].box_id, "C");
    assert_eq!(sel[0].value, 10);
}

#[test]
fn by_age_selection_keeps_reply_order() {
    let ni = node();
    let sel = ni.consume_boxes_until_total(8, sample_boxes()).unwrap();
    assert_eq!(sel.len(), 2);
    assert_eq!(sel[0].box_id, "A");
    assert_eq!(sel[1].box_id, "B");
    assert_eq!(sel[0].value + sel[1].value, 8);
}

#[test]
fn selection_fails_above_total_balance() {
    let ni = node();
    let r = ni.consume_boxes_until_total(100, sample_boxes());
    assert!(matches!(r, Err(NodeError::InsufficientErgsBalance)));
}

#[test]
fn zero_target_selects_no_boxes() {
    let ni = node();
    let sel = ni.consume_boxes_until_total(0, sample_boxes()).unwrap();
    assert_eq!(sel.len(), 0);
}

#[test]
fn exact_total_is_covered() {
    let ni = node();
    let sel = ni.consume_boxes_until_total(18, sample_boxes()).unwrap();
    assert_eq!(sel.len(), 3);
}

#[test]
fn sort_orders_values_descending() {
    let sorted = sort_boxes_descending(sample_boxes());
    assert_eq!(sorted.len(), 3);
    assert_eq!(sorted[0].box_id, "C");
    assert_eq!(sorted[1].box_id, "A");
    assert_eq!(sorted[2].box_id, "B");
}

#[test]
fn sort_keeps_the_order_of_equal_values() {
    let boxes = vec![
        WalletBox::new("A".to_string(), 5),
        WalletBox::new("B".to_string(), 7),
        WalletBox::new("C".to_string(), 5),
        WalletBox::new("D".to_string(), 7),
    ];
    let sorted = sort_boxes_descending(boxes);
    assert_eq!(sorted[0].box_id, "B");
    assert_eq!(sorted[1].box_id, "D");
    assert_eq!(sorted[2].box_id, "A");
    assert_eq!(sorted[3].box_id, "C");
}

#[test]
fn highest_value_box_is_found() {
    let b = highest_value_box(sample_boxes()).unwrap();
    assert_eq!(b.box_id, "C");
    assert_eq!(b.value, 10);
}

#[test]
fn highest_value_box_of_nothing_fails() {
    let r = highest_value_box(Vec::new());
    assert!(matches!(r, Err(NodeError::NoBoxesFound)));
}
