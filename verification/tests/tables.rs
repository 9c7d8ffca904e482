use termlink::acceptable_combination;
use termlink::health_str;
use termlink::likeness_bar;
use termlink::likeness_str;
use termlink::modifier_str;
use termlink::status_str;
use termlink::titles_str;

#[test]
fn health_bar_levels() {
    assert_eq!(health_str(5), "█ █ █ █ █");
    assert_eq!(health_str(4), "█ █ █ █");
    assert_eq!(health_str(3), "█ █ █");
    assert_eq!(health_str(2), "█ █");
    assert_eq!(health_str(1), "█");
    assert_eq!(health_str(0), "");
    assert_eq!(health_str(6), "");
    assert_eq!(health_str(255), "");
}

#[test]
fn likeness_bar_levels() {
    assert_eq!(likeness_str(5), "█ █ █ █ █");
    assert_eq!(likeness_str(4), "█ █ █ █");
    assert_eq!(likeness_str(3), "█ █ █");
    assert_eq!(likeness_str(2), "█ █");
    assert_eq!(likeness_str(1), "█");
    assert_eq!(likeness_str(0), "");
    // Scores above five collapse to the five-bar glyph.
    assert_eq!(likeness_str(6), "█ █ █ █ █");
    assert_eq!(likeness_str(9), "█ █ █ █ █");
    assert_eq!(likeness_str(255), "█ █ █ █ █");
}

#[test]
fn likeness_bar_collapses_high_scores() {
    assert_eq!(likeness_bar(0), "");
    assert_eq!(likeness_bar(3), "█ █ █");
    assert_eq!(likeness_bar(5), "█ █ █ █ █");
    assert_eq!(likeness_bar(8), "█ █ █ █ █");
    assert_eq!(likeness_bar(usize::MAX), "█ █ █ █ █");
}

#[test]
fn modifier_captions() {
    assert_eq!(modifier_str(2), "Dud Removed");
    assert_eq!(modifier_str(1), "Another Chance!");
    assert_eq!(modifier_str(0), "MUTATE");
    assert_eq!(modifier_str(3), "This shouldn't happen");
    assert_eq!(modifier_str(77), "This shouldn't happen");
}

#[test]
fn bracket_table() {
    assert_eq!(acceptable_combination('('), Some(')'));
    assert_eq!(acceptable_combination('['), Some(']'));
    assert_eq!(acceptable_combination('{'), Some('}'));
    assert_eq!(acceptable_combination('<'), Some('>'));
    assert_eq!(acceptable_combination('x'), None);
    assert_eq!(acceptable_combination(')'), None);
    assert_eq!(acceptable_combination(' '), None);
}

#[test]
fn title_lines() {
    assert_eq!(titles_str(0), "Welcome to ROBCO Industries (TM) Termlink");
    assert_eq!(titles_str(1), "ArcJet Systems | ArcNet");
    assert_eq!(titles_str(9), "Welcome to ROBCO Industries (TM) Termlink");
}

#[test]
fn status_lines() {
    assert_eq!(status_str(1), "Password Required");
    assert_eq!(status_str(0), "!!! WARNING LOCKOUT IMMINENT !!!");
    assert_eq!(status_str(8), "Password Required");
}
