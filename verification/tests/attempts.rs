use termlink::Header;
use termlink::Health;

#[test]
fn header_starts_with_title_status_and_budget() {
    let h = Header::new(4);
    assert_eq!(h.title, "Welcome to ROBCO Industries (TM) Termlink");
    assert_eq!(h.status, "Password Required");
    assert_eq!(h.health_i, 4);
    assert!(!h.is_out());
    assert_eq!(h.new_health_bar(), "█ █ █ █");
}

#[test]
fn three_wrong_guesses_leave_one_attempt() {
    let mut h = Header::new(4);
    for _ in 0..3 {
        assert!(!h.apply_guess("wrong", "right"));
    }
    assert_eq!(h.health_i, 1);
    assert!(!h.is_out());
}

#[test]
fn fourth_wrong_guess_exhausts_the_budget() {
    let mut h = Header::new(4);
    for _ in 0..4 {
        assert!(!h.apply_guess("wrong", "right"));
    }
    assert_eq!(h.health_i, 0);
    assert!(h.is_out());
}

#[test]
fn correct_guess_wins_without_spending_an_attempt() {
    let mut h = Header::new(4);
    assert!(!h.apply_guess("wrong", "right"));
    assert_eq!(h.health_i, 3);
    assert!(h.apply_guess("right", "right"));
    assert_eq!(h.health_i, 3);
}

#[test]
fn budget_is_floored_at_zero() {
    let mut h = Header::new(1);
    assert!(!h.apply_guess("aaa", "bbb"));
    assert!(!h.apply_guess("aaa", "bbb"));
    assert_eq!(h.health_i, 0);
}

#[test]
fn health_counter_tracks_the_same_rules() {
    let mut h = Health::new(4);
    assert!(!h.apply_guess("wrong", "right"));
    assert!(!h.apply_guess("wrong", "right"));
    assert!(!h.apply_guess("wrong", "right"));
    assert_eq!(h.current, 1);
    assert!(!h.is_out());
    assert!(!h.apply_guess("wrong", "right"));
    assert_eq!(h.current, 0);
    assert!(h.is_out());
    assert!(!h.apply_guess("wrong", "right"));
    assert_eq!(h.current, 0);
}

#[test]
fn health_win_leaves_counter_alone() {
    let mut h = Health::new(2);
    assert!(h.apply_guess("same", "same"));
    assert_eq!(h.current, 2);
}
