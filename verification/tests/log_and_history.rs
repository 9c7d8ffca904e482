use termlink::App;
use termlink::Command;
use termlink::DebugLog;

fn corpus(n: usize) -> Vec<String> {
    (0..n).map(|i| format!("wd{:03}", i)).collect()
}

#[test]
fn debug_log_keeps_lines_in_order() {
    let mut log = DebugLog::new(10);
    log.push(String::from("one"));
    log.push(String::from("two"));
    log.push(String::from("three"));
    assert_eq!(log.iter(), vec!["one", "two", "three"]);
}

#[test]
fn debug_log_drops_the_oldest_line_when_full() {
    let mut log = DebugLog::new(2);
    log.push(String::from("one"));
    log.push(String::from("two"));
    log.push(String::from("three"));
    assert_eq!(log.iter(), vec!["two", "three"]);
}

#[test]
fn history_selection_is_clamped() {
    let mut app = App::new(corpus(40)).unwrap();
    app.select_history_row(5);
    assert_eq!(app.selected, 0);
    for c in "zzzzz".chars() {
        app.handle_command(Command::TypeChar(c));
    }
    app.handle_command(Command::Submit);
    for c in "zzzzz".chars() {
        app.handle_command(Command::TypeChar(c));
    }
    app.handle_command(Command::Submit);
    app.select_history_row(0);
    assert_eq!(app.selected, 0);
    app.select_history_row(1);
    assert_eq!(app.selected, 1);
    app.select_history_row(9);
    assert_eq!(app.selected, 1);
}

#[test]
fn typing_and_backspace_edit_the_buffer() {
    let mut app = App::new(corpus(40)).unwrap();
    app.handle_command(Command::TypeChar('a'));
    app.handle_command(Command::TypeChar('b'));
    app.handle_command(Command::TypeChar('c'));
    assert_eq!(app.input, "abc");
    app.handle_command(Command::Backspace);
    assert_eq!(app.input, "ab");
    app.handle_command(Command::Backspace);
    app.handle_command(Command::Backspace);
    app.handle_command(Command::Backspace);
    assert_eq!(app.input, "");
}
