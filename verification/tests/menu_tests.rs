use eomi_weact::menu::{menu_down, menu_up, MENU_LEN};

#[test]
fn up_moves_to_next_entry() {
    assert_eq!(menu_up(1), 2);
    assert_eq!(menu_up(2), 3);
}

#[test]
fn up_wraps_from_last_to_first() {
    assert_eq!(menu_up(3), 1);
    assert_eq!(menu_up(7), 1);
    assert_eq!(menu_up(0), 1);
}

#[test]
fn down_moves_to_previous_entry() {
    assert_eq!(menu_down(3), 2);
    assert_eq!(menu_down(2), 1);
}

#[test]
fn down_wraps_from_first_to_last() {
    assert_eq!(menu_down(1), 3);
    assert_eq!(menu_down(0), 3);
}

#[test]
fn down_above_range_steps_back_by_one() {
    assert_eq!(menu_down(5), 4);
}

#[test]
fn up_and_down_undo_each_other() {
    for e in 1..=MENU_LEN {
        assert_eq!(menu_down(menu_up(e)), e);
        assert_eq!(menu_up(menu_down(e)), e);
    }
}

#[test]
fn three_presses_come_back() {
    for e in 1..=MENU_LEN {
        assert_eq!(menu_up(menu_up(menu_up(e))), e);
        assert_eq!(menu_down(menu_down(menu_down(e))), e);
    }
}
