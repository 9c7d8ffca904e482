//! The attempt budget. `Header` is the displayed form the session uses —
//! title, status line, and remaining attempts; `Health` is the same counter
//! kept as a plain signed count.

use vstd::prelude::*;
use crate::assets;
use crate::score::str_eq;

verus! {

/// Attempts a fresh session starts with.
pub const START_HEALTH: u8 = 4;

/// Header pane state: title, status line, and the remaining-attempt count
/// that the bar is drawn from.
pub struct Header {
    pub title: String,
    pub status: String,
    pub health_i: u8,
}

impl Header {
    /// A fresh header: default title, the idle status prompt, and a full
    /// attempt budget.
    pub fn new(starting_health: u8) -> (h: Header)
        ensures
            h.title@ == assets::spec_titles_str(0),
            h.status@ == assets::spec_status_str(1),
            h.health_i == starting_health,
    {
        Header { title: Self::new_title(), status: Self::new_status(1), health_i: starting_health }
    }

    /// The default title text, owned.
    pub fn new_title() -> (r: String)
        ensures
            r@ == assets::spec_titles_str(0),
    {
        assets::titles_str(0).to_owned()
    }

    /// Status text `n`, owned.
    pub fn new_status(n: u8) -> (r: String)
        ensures
            r@ == assets::spec_status_str(n),
    {
        assets::status_str(n).to_owned()
    }

    /// Apply one guess: a correct guess returns true and leaves the budget
    /// alone; a wrong one returns false and costs one attempt, floored at
    /// zero.
    pub fn apply_guess(&mut self, guess: &str, password: &str) -> (won: bool)
        ensures
            won == (guess@ == password@),
            final(self).title == old(self).title,
            final(self).status == old(self).status,
            final(self).health_i == if guess@ == password@ {
                old(self).health_i
            } else if old(self).health_i > 0 {
                (old(self).health_i - 1) as u8
            } else {
                0u8
            },
    {
        if str_eq(guess, password) {
            true
        } else {
            if self.health_i > 0 {
                self.health_i = self.health_i - 1;
            }
            false
        }
    }

    /// Whether the attempt budget is exhausted.
    pub fn is_out(&self) -> (r: bool)
        ensures
            r == (self.health_i == 0),
    {
        self.health_i == 0
    }

    /// The bar of filled blocks for the current budget.
    pub fn new_health_bar(&self) -> (r: &'static str)
        ensures
            r@ == assets::spec_health_str(self.health_i),
    {
        assets::health_str(self.health_i)
    }
}

/// The same attempt counter as a bare signed value.
pub struct Health {
    pub current: i32,
}

impl Health {
    /// A budget of `start` attempts.
    pub fn new(start: i32) -> (h: Health)
        ensures
            h.current == start,
    {
        Health { current: start }
    }

    /// Apply one guess: a correct guess returns true and leaves the count
    /// alone; a wrong one returns false and costs one attempt, floored at
    /// zero.
    pub fn apply_guess(&mut self, guess: &str, password: &str) -> (won: bool)
        ensures
            won == (guess@ == password@),
            final(self).current == if guess@ == password@ {
                old(self).current
            } else if old(self).current > 0 {
                (old(self).current - 1) as i32
            } else {
                old(self).current
            },
    {
        if str_eq(guess, password) {
            true
        } else {
            if self.current > 0 {
                self.current = self.current - 1;
            }
            false
        }
    }

    /// Whether the budget is exhausted.
    pub fn is_out(&self) -> (r: bool)
        ensures
            r == (self.current <= 0),
    {
        self.current <= 0
    }
}

/// Marker for the header's title slot.
pub struct Title {}

} // verus!
