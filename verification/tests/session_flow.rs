use termlink::App;
use termlink::Command;
use termlink::ConfigError;
use termlink::Outcome;

fn corpus(n: usize) -> Vec<String> {
    (0..n).map(|i| format!("wd{:03}", i)).collect()
}

fn submit_word(app: &mut App, word: &str) {
    for c in word.chars() {
        app.handle_command(Command::TypeChar(c));
    }
    app.handle_command(Command::Submit);
}

#[test]
fn password_is_always_a_candidate_of_full_length() {
    for _ in 0..5 {
        let app = App::new(corpus(40)).unwrap();
        assert!(app.main.word_list.contains(&app.main.password));
        assert_eq!(app.main.word_list.len(), 32);
        for w in &app.main.word_list {
            assert_eq!(w.len(), app.main.password.len());
        }
    }
}

#[test]
fn fresh_session_layout() {
    let app = App::new(corpus(40)).unwrap();
    assert_eq!(app.ts.rows, 16);
    assert_eq!(app.ts.columns, 4);
    assert_eq!(app.table_contents.len(), 16);
    for row in &app.table_contents {
        assert_eq!(row.len(), 4);
    }
    for r in 0..16 {
        for c in 0..4 {
            let idx = r * 2 + c / 2;
            if c % 2 == 0 {
                assert_eq!(app.table_contents[r][c], app.main.hex_list[idx]);
            } else {
                assert_eq!(app.table_contents[r][c], app.main.word_list[idx]);
            }
        }
    }
    assert_eq!(app.header.health_i, 4);
    assert_eq!(app.outcome, Outcome::InProgress);
    assert_eq!(app.row_state, 0);
    assert_eq!(app.col_state, 0);
    assert!(app.input.is_empty());
    assert!(app.history.is_empty());
    assert!(app.removed.iter().all(|r| !r));
    assert!(app.brackets.iter().all(|b| !b.consumed));
}

fn expect_err(r: Result<App, ConfigError>) -> ConfigError {
    match r {
        Ok(_) => panic!("expected a configuration error"),
        Err(e) => e,
    }
}

#[test]
fn short_corpus_is_rejected() {
    assert_eq!(expect_err(App::new(corpus(31))), ConfigError::TooFewTokens);
    assert_eq!(expect_err(App::new(Vec::new())), ConfigError::TooFewTokens);
}

#[test]
fn mixed_length_corpus_is_rejected() {
    let mut c = corpus(40);
    c[7] = String::from("longerword");
    assert_eq!(expect_err(App::new(c)), ConfigError::UnequalLengths);
}

#[test]
fn duplicated_corpus_is_rejected() {
    let mut c = corpus(40);
    c[9] = c[3].clone();
    assert_eq!(expect_err(App::new(c)), ConfigError::DuplicateToken);
}

#[test]
fn three_wrong_guesses_keep_the_session_running() {
    let mut app = App::new(corpus(40)).unwrap();
    for _ in 0..3 {
        submit_word(&mut app, "zzzzz");
    }
    assert_eq!(app.header.health_i, 1);
    assert_eq!(app.outcome, Outcome::InProgress);
    assert_eq!(app.history.len(), 3);
    for (i, rec) in app.history.iter().enumerate() {
        assert_eq!(rec.word, "zzzzz");
        assert_eq!(rec.score, 0);
        assert_eq!(rec.ordinal, i);
    }
}

#[test]
fn fourth_wrong_guess_loses_the_session() {
    let mut app = App::new(corpus(40)).unwrap();
    for _ in 0..4 {
        submit_word(&mut app, "zzzzz");
    }
    assert_eq!(app.header.health_i, 0);
    assert_eq!(app.outcome, Outcome::Lost);
    // A decided session ignores further guesses.
    submit_word(&mut app, "zzzzz");
    assert_eq!(app.history.len(), 4);
    assert_eq!(app.outcome, Outcome::Lost);
}

#[test]
fn correct_guess_wins_and_keeps_the_budget() {
    let mut app = App::new(corpus(40)).unwrap();
    submit_word(&mut app, "zzzzz");
    assert_eq!(app.header.health_i, 3);
    let pw = app.main.password.clone();
    submit_word(&mut app, &pw);
    assert_eq!(app.outcome, Outcome::Won);
    assert_eq!(app.header.health_i, 3);
    assert_eq!(app.history.len(), 2);
    assert_eq!(app.history[1].score, pw.len());
}

#[test]
fn wrong_length_guess_is_rejected_outright() {
    let mut app = App::new(corpus(40)).unwrap();
    submit_word(&mut app, "zzzz");
    assert_eq!(app.header.health_i, 4);
    assert!(app.history.is_empty());
    // The unsubmitted buffer is kept, not truncated.
    assert_eq!(app.input, "zzzz");
}

#[test]
fn restart_rebuilds_a_fresh_session() {
    let mut app = App::new(corpus(40)).unwrap();
    for _ in 0..4 {
        submit_word(&mut app, "zzzzz");
    }
    assert_eq!(app.outcome, Outcome::Lost);
    app.handle_command(Command::Restart);
    assert_eq!(app.outcome, Outcome::InProgress);
    assert_eq!(app.header.health_i, 4);
    assert!(app.history.is_empty());
    assert!(app.input.is_empty());
    assert!(app.removed.iter().all(|r| !r));
    assert!(app.brackets.iter().all(|b| !b.consumed));
    assert_eq!(app.table_contents.len(), 16);
    for row in &app.table_contents {
        assert_eq!(row.len(), 4);
    }
    assert!(app.main.word_list.contains(&app.main.password));
    for w in &app.main.word_list {
        assert_eq!(w.len(), app.main.password.len());
    }
}

#[test]
fn terminal_session_ignores_everything_but_restart() {
    let mut app = App::new(corpus(40)).unwrap();
    for _ in 0..4 {
        submit_word(&mut app, "zzzzz");
    }
    app.handle_command(Command::CursorRight);
    assert_eq!(app.col_state, 0);
    app.handle_command(Command::TypeChar('a'));
    assert!(app.input.is_empty());
    assert_eq!(app.outcome, Outcome::Lost);
}

#[test]
fn help_overlay_freezes_input_until_dismissed() {
    let mut app = App::new(corpus(40)).unwrap();
    app.handle_command(Command::ToggleHelp);
    assert!(app.show_help);
    app.handle_command(Command::CursorRight);
    assert_eq!(app.col_state, 0);
    app.handle_command(Command::TypeChar('a'));
    assert!(app.input.is_empty());
    app.handle_command(Command::ToggleHelp);
    assert!(!app.show_help);
    app.handle_command(Command::CursorRight);
    assert_eq!(app.col_state, 1);
}
