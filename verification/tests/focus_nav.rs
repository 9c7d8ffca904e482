use termlink::Focus;

#[test]
fn vertical_moves_toggle_between_header_and_grid() {
    let mut f = Focus::Main;
    f.focus_next_vertical();
    assert_eq!(f, Focus::Head);
    f.focus_next_vertical();
    assert_eq!(f, Focus::Main);
}

#[test]
fn vertical_move_from_side_returns_to_header() {
    let mut f = Focus::Side;
    f.focus_next_vertical();
    assert_eq!(f, Focus::Head);
    // Going back down always enters the grid, not the side pane.
    f.focus_next_vertical();
    assert_eq!(f, Focus::Main);
}

#[test]
fn horizontal_move_on_header_is_a_no_op() {
    let mut f = Focus::Head;
    f.focus_next_horizontal();
    assert_eq!(f, Focus::Head);
}

#[test]
fn horizontal_moves_toggle_the_body_panes() {
    let mut f = Focus::Main;
    f.focus_next_horizontal();
    assert_eq!(f, Focus::Side);
    f.focus_next_horizontal();
    assert_eq!(f, Focus::Main);
}

#[test]
fn help_state_is_frozen() {
    let mut f = Focus::Help;
    f.focus_next_vertical();
    assert_eq!(f, Focus::Help);
    f.focus_next_horizontal();
    assert_eq!(f, Focus::Help);
}
