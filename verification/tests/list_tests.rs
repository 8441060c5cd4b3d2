use collect_tui::list::{move_list_selection, ListCursor};

#[test]
fn empty_list_keeps_selection() {
    let mut c = ListCursor { selected: Some(3) };
    move_list_selection(&mut c, 0, 1);
    assert_eq!(c.selected, Some(3));
}

#[test]
fn moves_down_and_stops_at_last_row() {
    let mut c = ListCursor::new();
    move_list_selection(&mut c, 3, 1);
    assert_eq!(c.selected, Some(1));
    move_list_selection(&mut c, 3, 1);
    assert_eq!(c.selected, Some(2));
    move_list_selection(&mut c, 3, 1);
    assert_eq!(c.selected, Some(2));
    move_list_selection(&mut c, 3, 10);
    assert_eq!(c.selected, Some(2));
}

#[test]
fn moves_up_and_stops_at_first_row() {
    let mut c = ListCursor { selected: Some(1) };
    move_list_selection(&mut c, 3, -1);
    assert_eq!(c.selected, Some(0));
    move_list_selection(&mut c, 3, -1);
    assert_eq!(c.selected, Some(0));
    let mut none = ListCursor::new();
    move_list_selection(&mut none, 3, -1);
    assert_eq!(none.selected, Some(0));
}

#[test]
fn large_steps_saturate() {
    let mut c = ListCursor { selected: Some(5) };
    move_list_selection(&mut c, 10, i32::MIN);
    assert_eq!(c.selected, Some(0));
    let mut d = ListCursor { selected: Some(usize::MAX) };
    move_list_selection(&mut d, 4, i32::MAX);
    assert_eq!(d.selected, Some(3));
}

#[test]
fn stale_row_past_the_end_moves_up_from_where_it_is() {
    let mut c = ListCursor { selected: Some(7) };
    move_list_selection(&mut c, 3, -1);
    assert_eq!(c.selected, Some(6));
}
