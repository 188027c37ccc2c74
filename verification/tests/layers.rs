use lapiz::layers::{DeleteLayersError, LayerPosition, LayerStack};
use lapiz::selection::LayerSelection;

// root 1 holds, from the bottom up: 2 (pixel), 3 (group), 4 (pixel);
// group 3 holds, from the bottom up: 5 (pixel), 6 (pixel).
fn sample() -> LayerStack {
    let mut s = LayerStack::new(1);
    s.insert_layer(1, 2, false, LayerPosition::Foreground);
    s.insert_layer(1, 3, true, LayerPosition::Foreground);
    s.insert_layer(1, 4, false, LayerPosition::Foreground);
    s.insert_layer(3, 5, false, LayerPosition::Foreground);
    s.insert_layer(3, 6, false, LayerPosition::Foreground);
    s
}

#[test]
fn added_layers_go_on_top() {
    let s = sample();
    assert_eq!(s.root_id(), 1);
    assert_eq!(s.get(1).unwrap().children, vec![2, 3, 4]);
    assert_eq!(s.get(3).unwrap().children, vec![5, 6]);
    assert_eq!(s.get(5).unwrap().parent, Some(3));
    assert!(s.get(3).unwrap().is_group);
    assert!(s.get(7).is_none());
}

#[test]
fn next_layer_goes_down() {
    let s = sample();
    assert_eq!(s.next_layer(4), Some(3));
    assert_eq!(s.next_layer(3), Some(6));
    assert_eq!(s.next_layer(6), Some(5));
    assert_eq!(s.next_layer(5), Some(2));
    assert_eq!(s.next_layer(2), None);
}

#[test]
fn next_layer_of_the_root_is_its_top_child() {
    let s = sample();
    assert_eq!(s.next_layer(1), Some(4));
}

#[test]
fn previous_layer_goes_up() {
    let s = sample();
    assert_eq!(s.previous_layer(2), 5);
    assert_eq!(s.previous_layer(5), 6);
    assert_eq!(s.previous_layer(6), 3);
    assert_eq!(s.previous_layer(3), 4);
    assert_eq!(s.previous_layer(4), 1);
}

#[test]
fn new_layer_goes_into_the_nearest_group() {
    let s = sample();
    assert_eq!(s.new_layer_position(2), Some((1, LayerPosition::Above(2))));
    assert_eq!(s.new_layer_position(3), Some((3, LayerPosition::Foreground)));
    assert_eq!(s.new_layer_position(5), Some((3, LayerPosition::Above(5))));
    assert_eq!(s.new_layer_position(1), Some((1, LayerPosition::Foreground)));
}

#[test]
fn moving_up() {
    let s = sample();
    assert_eq!(s.move_up_target(2), Some((3, LayerPosition::Background)));
    assert_eq!(s.move_up_target(5), Some((3, LayerPosition::Above(6))));
    assert_eq!(s.move_up_target(6), Some((1, LayerPosition::Above(3))));
    assert_eq!(s.move_up_target(4), None);
}

#[test]
fn moving_down() {
    let s = sample();
    assert_eq!(s.move_down_target(4), Some((3, LayerPosition::Foreground)));
    assert_eq!(s.move_down_target(6), Some((3, LayerPosition::Below(5))));
    assert_eq!(s.move_down_target(5), Some((1, LayerPosition::Below(3))));
    assert_eq!(s.move_down_target(2), None);
}

#[test]
fn deleting_every_top_layer_is_refused() {
    let s = sample();
    assert_eq!(s.delete_layers_plan(&vec![2, 3, 4], 5), Err(DeleteLayersError::NoLayerLeft));
    let mut single = LayerStack::new(1);
    single.insert_layer(1, 2, false, LayerPosition::Foreground);
    assert_eq!(single.delete_layers_plan(&vec![2], 2), Err(DeleteLayersError::NoLayerLeft));
}

#[test]
fn deleting_picks_a_new_active_layer() {
    let s = sample();
    // the active layer is kept
    assert_eq!(s.delete_layers_plan(&vec![3], 4), Ok(None));
    // the active layer goes with its group: the layer below the group
    assert_eq!(s.delete_layers_plan(&vec![3], 6), Ok(Some(2)));
    // nothing below: the layer above
    assert_eq!(s.delete_layers_plan(&vec![2], 2), Ok(Some(3)));
    assert_eq!(s.delete_layers_plan(&vec![6], 6), Ok(Some(5)));
    // the neighbour is taken even when it goes too
    assert_eq!(s.delete_layers_plan(&vec![5, 6], 6), Ok(Some(5)));
}

#[test]
fn inserted_layers_take_their_position() {
    let mut s = sample();
    s.insert_layer(1, 7, false, LayerPosition::Above(2));
    assert_eq!(s.get(1).unwrap().children, vec![2, 7, 3, 4]);
    s.insert_layer(1, 8, false, LayerPosition::Below(2));
    assert_eq!(s.get(1).unwrap().children, vec![8, 2, 7, 3, 4]);
    s.insert_layer(3, 9, true, LayerPosition::Background);
    assert_eq!(s.get(3).unwrap().children, vec![9, 5, 6]);
    assert_eq!(s.get(9).unwrap().parent, Some(3));
}

#[test]
fn new_layers_land_above_the_active_one() {
    let mut s = sample();
    assert_eq!(s.add_new_layer(5, 10, false), Some((3, LayerPosition::Above(5))));
    assert_eq!(s.get(3).unwrap().children, vec![5, 10, 6]);
    assert_eq!(s.add_new_layer(3, 11, false), Some((3, LayerPosition::Foreground)));
    assert_eq!(s.get(3).unwrap().children, vec![5, 10, 6, 11]);
    assert_eq!(s.next_layer(11), Some(6));
    assert!(!s.get(10).unwrap().is_group);
    assert!(s.get(10).unwrap().children.is_empty());
    assert_eq!(s.add_new_layer(2, 12, true), Some((1, LayerPosition::Above(2))));
    assert!(s.get(12).unwrap().is_group);
    assert!(s.get(12).unwrap().children.is_empty());
    assert_eq!(s.get(1).unwrap().children, vec![2, 12, 3, 4]);
    assert_eq!(s.get(3).unwrap().children, vec![5, 10, 6, 11]);
    assert_eq!(s.root_id(), 1);
}

#[test]
fn selecting_the_next_layer_leaves_it_alone_selected() {
    let s = sample();
    let mut sel = LayerSelection::new(2);
    sel.set_active_layer(4, 1);
    let next = s.next_layer(sel.active_layer_id()).unwrap();
    assert_eq!(next, 3);
    sel.set_active_layer_and_clear_select(next, s.root_id());
    assert_eq!(sel.active_layer_id(), 3);
    assert_eq!(sel.selected_layer_ids(), vec![3]);
}

#[test]
fn selecting_the_previous_layer_of_the_top_layer_empties_the_selection() {
    let s = sample();
    let mut sel = LayerSelection::new(2);
    sel.set_active_layer(4, 1);
    let previous = s.previous_layer(4);
    assert_eq!(previous, s.root_id());
    assert_eq!(sel.set_active_layer_and_clear_select(previous, s.root_id()), None);
    assert_eq!(sel.active_layer_id(), 4);
    assert_eq!(sel.selected_layer_ids(), Vec::<u128>::new());
}

#[test]
fn dropping_a_layer_where_it_is_makes_no_move() {
    let s = sample();
    assert!(!s.drop_moves(&vec![3], 1, LayerPosition::Above(2)));
    assert!(!s.drop_moves(&vec![2], 1, LayerPosition::Background));
    assert!(s.drop_moves(&vec![3], 1, LayerPosition::Foreground));
    assert!(s.drop_moves(&vec![5], 1, LayerPosition::Above(2)));
    assert!(!s.drop_moves(&vec![], 1, LayerPosition::Foreground));
    assert!(!s.drop_moves(&vec![1], 3, LayerPosition::Foreground));
}
