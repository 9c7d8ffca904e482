//! Fixed display tables: header titles, status lines, the attempt/likeness
//! bars, modifier-effect captions, and the opening-to-closing bracket table.

use vstd::prelude::*;

verus! {

/// The bar of filled blocks shown for `n` remaining attempts; empty
/// outside the one-to-five bar range. A session's budget never exceeds
/// its starting four, so every reachable count has its own bar.
pub open spec fn spec_health_str(n: u8) -> Seq<char> {
    if n == 5 {
        "█ █ █ █ █"@
    } else if n == 4 {
        "█ █ █ █"@
    } else if n == 3 {
        "█ █ █"@
    } else if n == 2 {
        "█ █"@
    } else if n == 1 {
        "█"@
    } else {
        ""@
    }
}

/// Attempt bar for `n` remaining attempts; empty for zero or for values
/// outside the five-bar display range.
pub fn health_str(n: u8) -> (r: &'static str)
    ensures
        r@ == spec_health_str(n),
{
    match n {
        5 => "█ █ █ █ █",
        4 => "█ █ █ █",
        3 => "█ █ █",
        2 => "█ █",
        1 => "█",
        _ => "",
    }
}

/// The bar shown for a likeness score of `n`: one block per matching
/// position, and every score of five or more collapses to the five-bar
/// glyph — the display is bucketed, the underlying score is not clamped.
pub open spec fn spec_likeness_str(n: u8) -> Seq<char> {
    if n >= 5 {
        "█ █ █ █ █"@
    } else if n == 4 {
        "█ █ █ █"@
    } else if n == 3 {
        "█ █ █"@
    } else if n == 2 {
        "█ █"@
    } else if n == 1 {
        "█"@
    } else {
        ""@
    }
}

/// Likeness bar for a score of `n`; scores above five collapse to the
/// five-bar glyph.
pub fn likeness_str(n: u8) -> (r: &'static str)
    ensures
        r@ == spec_likeness_str(n),
{
    match n {
        4 => "█ █ █ █",
        3 => "█ █ █",
        2 => "█ █",
        1 => "█",
        0 => "",
        _ => "█ █ █ █ █",
    }
}

/// Likeness bar for a full-range score, as the history pane shows it: the
/// five-bar glyph for any score of five or more.
pub fn likeness_bar(score: usize) -> (r: &'static str)
    ensures
        r@ == (if score >= 5 {
            spec_likeness_str(5)
        } else {
            spec_likeness_str(score as u8)
        }),
{
    if score >= 5 {
        likeness_str(5)
    } else {
        likeness_str(score as u8)
    }
}

/// Caption for modifier-effect draw `n`.
pub open spec fn spec_modifier_str(n: u8) -> Seq<char> {
    if n == 2 {
        "Dud Removed"@
    } else if n == 1 {
        "Another Chance!"@
    } else if n == 0 {
        "MUTATE"@
    } else {
        "This shouldn't happen"@
    }
}

/// Status-line caption for the four-way modifier-effect draw: draw 2 removes
/// a dud, draw 1 restores the attempt budget, draws 0 and 3 have no effect.
pub fn modifier_str(n: u8) -> (r: &'static str)
    ensures
        r@ == spec_modifier_str(n),
{
    match n {
        2 => "Dud Removed",
        1 => "Another Chance!",
        0 => "MUTATE",
        _ => "This shouldn't happen",
    }
}

/// The closing bracket that pairs with an opening bracket, if any.
pub open spec fn spec_acceptable_combination(c: char) -> Option<char> {
    if c == '(' {
        Some(')')
    } else if c == '[' {
        Some(']')
    } else if c == '{' {
        Some('}')
    } else if c == '<' {
        Some('>')
    } else {
        None
    }
}

/// Fixed open-to-close bracket table used by the dud-removal mechanic.
pub fn acceptable_combination(c: char) -> (r: Option<char>)
    ensures
        r == spec_acceptable_combination(c),
{
    match c {
        '(' => Some(')'),
        '[' => Some(']'),
        '{' => Some('}'),
        '<' => Some('>'),
        _ => None,
    }
}

/// Title line `n` of the header.
pub open spec fn spec_titles_str(n: u8) -> Seq<char> {
    if n == 1 {
        "ArcJet Systems | ArcNet"@
    } else {
        "Welcome to ROBCO Industries (TM) Termlink"@
    }
}

/// Header title text.
pub fn titles_str(n: u8) -> (r: &'static str)
    ensures
        r@ == spec_titles_str(n),
{
    match n {
        1 => "ArcJet Systems | ArcNet",
        _ => "Welcome to ROBCO Industries (TM) Termlink",
    }
}

/// Status line `n` of the header.
pub open spec fn spec_status_str(n: u8) -> Seq<char> {
    if n == 0 {
        "!!! WARNING LOCKOUT IMMINENT !!!"@
    } else {
        "Password Required"@
    }
}

/// Header status text: the lockout warning for 0, the idle prompt otherwise.
pub fn status_str(n: u8) -> (r: &'static str)
    ensures
        r@ == spec_status_str(n),
{
    match n {
        0 => "!!! WARNING LOCKOUT IMMINENT !!!",
        _ => "Password Required",
    }
}

} // verus!
