//! Engine for a terminal password-guessing puzzle: a grid of noise tokens and
//! candidate words hides one password; the player narrows it down from a
//! positional-match score fed back after each guess, within a limited budget
//! of attempts.

pub mod assets;
pub mod brackets;
pub mod debug_log;
pub mod focus;
pub mod health;
pub mod hex;
mod rng;
pub mod score;
pub mod session;
mod strutil;
pub mod table;

pub use crate::assets::acceptable_combination;
pub use crate::assets::health_str;
pub use crate::assets::likeness_bar;
pub use crate::assets::likeness_str;
pub use crate::assets::modifier_str;
pub use crate::assets::status_str;
pub use crate::assets::titles_str;
pub use crate::debug_log::DebugLog;
pub use crate::focus::Focus;
pub use crate::health::Header;
pub use crate::health::Health;
pub use crate::health::Title;
pub use crate::health::START_HEALTH;
pub use crate::score::score;
pub use crate::score::str_eq;
pub use crate::session::App;
pub use crate::session::Command;
pub use crate::session::ConfigError;
pub use crate::session::GuessRecord;
pub use crate::session::Outcome;
pub use crate::table::TableModel;
pub use crate::table::TableStructure;
