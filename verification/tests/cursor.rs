use termlink::App;
use termlink::Command;
use termlink::Focus;

fn corpus(n: usize) -> Vec<String> {
    (0..n).map(|i| format!("wd{:03}", i)).collect()
}

#[test]
fn rightward_move_wraps_at_the_last_column() {
    let mut app = App::new(corpus(40)).unwrap();
    for expected in [1, 2, 3, 0, 1] {
        app.handle_command(Command::CursorRight);
        assert_eq!(app.col_state, expected);
    }
}

#[test]
fn leftward_move_wraps_at_the_first_column() {
    let mut app = App::new(corpus(40)).unwrap();
    app.handle_command(Command::CursorLeft);
    assert_eq!(app.col_state, 3);
    app.handle_command(Command::CursorLeft);
    assert_eq!(app.col_state, 2);
}

#[test]
fn upward_move_wraps_at_the_top_row() {
    let mut app = App::new(corpus(40)).unwrap();
    assert_eq!(app.row_state, 0);
    app.handle_command(Command::CursorUp);
    assert_eq!(app.row_state, 15);
}

#[test]
fn downward_move_wraps_at_the_bottom_row() {
    let mut app = App::new(corpus(40)).unwrap();
    app.handle_command(Command::CursorUp);
    assert_eq!(app.row_state, 15);
    app.handle_command(Command::CursorDown);
    assert_eq!(app.row_state, 0);
    app.handle_command(Command::CursorDown);
    assert_eq!(app.row_state, 1);
}

#[test]
fn cursor_is_inert_outside_the_grid_pane() {
    let mut app = App::new(corpus(40)).unwrap();
    app.handle_command(Command::FocusHorizontal);
    assert_eq!(app.focus, Focus::Side);
    app.handle_command(Command::CursorRight);
    app.handle_command(Command::CursorDown);
    assert_eq!(app.col_state, 0);
    assert_eq!(app.row_state, 0);
}

#[test]
fn focus_round_trip_through_the_header() {
    let mut app = App::new(corpus(40)).unwrap();
    assert_eq!(app.focus, Focus::Main);
    app.handle_command(Command::FocusVertical);
    assert_eq!(app.focus, Focus::Head);
    app.handle_command(Command::FocusVertical);
    assert_eq!(app.focus, Focus::Main);
}

#[test]
fn activating_a_word_cell_fills_the_guess_buffer() {
    let mut app = App::new(corpus(40)).unwrap();
    app.handle_command(Command::CursorRight);
    assert_eq!(app.col_state, 1);
    app.handle_command(Command::Activate);
    assert_eq!(app.input, app.main.word_list[0]);
    // Second word column of the third row maps to candidate 5.
    app.handle_command(Command::CursorRight);
    app.handle_command(Command::CursorRight);
    app.handle_command(Command::CursorDown);
    app.handle_command(Command::CursorDown);
    assert_eq!((app.row_state, app.col_state), (2, 3));
    app.handle_command(Command::Activate);
    assert_eq!(app.input, app.main.word_list[5]);
}
