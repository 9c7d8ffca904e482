//! The session controller: one mutable value holding the whole puzzle
//! state — candidates, grid, attempt budget, history, focus and cursor —
//! with one method per input command.

use vstd::prelude::*;
use crate::assets;
use crate::brackets;
use crate::brackets::Bracket;
use crate::debug_log::DebugLog;
use crate::focus::Focus;
use crate::focus::spec_next_vertical;
use crate::focus::spec_next_horizontal;
use crate::health::Header;
use crate::health::START_HEALTH;
use crate::rng;
use crate::score::likeness;
use crate::score::score;
use crate::table::TableModel;
use crate::table::TableStructure;
use crate::table::distinct_views;
use crate::table::is_noise_token;

verus! {

/// Candidates drawn for one session.
pub const SUBSET_SIZE: usize = 32;

/// Lines the diagnostic scrollback keeps.
pub const DEBUG_CAP: usize = 200;

/// Why a session could not be built from the given corpus.
#[derive(Clone, Copy, Debug, PartialEq, Eq, Structural)]
pub enum ConfigError {
    TooFewTokens,
    UnequalLengths,
    DuplicateToken,
}

/// Whether the session is still running or has reached a terminal state.
#[derive(Clone, Copy, Debug, PartialEq, Eq, Structural)]
pub enum Outcome {
    InProgress,
    Won,
    Lost,
}

/// One submitted guess: the word, its score, and its position in the
/// history (zero-based).
pub struct GuessRecord {
    pub word: String,
    pub score: usize,
    pub ordinal: usize,
}

/// An input event, already stripped of key codes and pointer coordinates.
#[derive(Clone, Copy, Debug, PartialEq, Eq, Structural)]
pub enum Command {
    FocusVertical,
    FocusHorizontal,
    CursorUp,
    CursorDown,
    CursorLeft,
    CursorRight,
    TypeChar(char),
    Backspace,
    Submit,
    Activate,
    ToggleHelp,
    ToggleDebug,
    Restart,
}

/// The whole session state. Structure — the grid, the candidate list, the
/// password — is fixed at construction; only availability (removed duds,
/// consumed brackets), the budget, the cursor and the buffers mutate.
pub struct App {
    pub focus: Focus,
    pub header: Header,
    pub corpus: Vec<String>,
    pub main: TableModel,
    pub ts: TableStructure,
    pub table_contents: Vec<Vec<String>>,
    pub removed: Vec<bool>,
    pub brackets: Vec<Bracket>,
    pub row_state: usize,
    pub col_state: usize,
    pub input: String,
    pub history: Vec<GuessRecord>,
    pub selected: usize,
    pub outcome: Outcome,
    pub show_help: bool,
    pub show_debug: bool,
    pub debug: DebugLog,
}

/// A usable corpus: enough tokens for the grid, all of one length, no
/// repeats.
pub open spec fn corpus_ok(corpus: Seq<String>) -> bool {
    &&& corpus.len() >= SUBSET_SIZE
    &&& forall|i: int| 0 <= i < corpus.len() ==> (#[trigger] corpus[i])@.len() == corpus[0]@.len()
    &&& distinct_views(corpus)
}

/// The error a bad corpus is rejected with: too few tokens first, then
/// unequal lengths, then duplicates.
pub open spec fn spec_config_error(corpus: Seq<String>) -> ConfigError {
    if corpus.len() < SUBSET_SIZE {
        ConfigError::TooFewTokens
    } else if !(forall|i: int|
        0 <= i < corpus.len() ==> (#[trigger] corpus[i])@.len() == corpus[0]@.len()) {
        ConfigError::UnequalLengths
    } else {
        ConfigError::DuplicateToken
    }
}

/// Clone a list of words, exactly.
fn clone_words(v: &Vec<String>) -> (r: Vec<String>)
    ensures
        r@ == v@,
{
    let mut r: Vec<String> = Vec::new();
    let mut i: usize = 0;
    let n = v.len();
    while i < n
        invariant
            i <= n,
            n == v@.len(),
            r@.len() == i,
            forall|j: int| 0 <= j < i ==> r@[j] == v@[j],
        decreases n - i,
    {
        r.push(v[i].clone());
        i = i + 1;
    }
    proof {
        assert(r@ =~= v@);
    }
    r
}

impl App {
    /// Structural session invariant: a sixteen-by-four grid interleaving 32
    /// noise tokens and 32 distinct candidate words; the password is one of
    /// the candidates and every candidate has the password's length; a dud
    /// flag exists per candidate and never marks the password; the cursor
    /// is in bounds; the budget never exceeds its starting value and a
    /// running session has attempts left.
    pub open spec fn wf(self) -> bool {
        &&& self.ts.rows == 16
        &&& self.ts.columns == 4
        &&& corpus_ok(self.corpus@)
        &&& self.main.hex_list@.len() == 32
        &&& self.main.word_list@.len() == 32
        &&& distinct_views(self.main.word_list@)
        &&& TableModel::alternating_grid(
            self.table_contents@,
            4,
            16,
            self.main.hex_list@,
            self.main.word_list@,
        )
        &&& self.main.word_list@.contains(self.main.password)
        &&& forall|i: int|
            0 <= i < 32 ==> (#[trigger] self.main.word_list@[i])@.len()
                == self.main.password@.len()
        &&& self.removed@.len() == 32
        &&& forall|i: int|
            0 <= i < 32 && (#[trigger] self.removed@[i]) ==> self.main.word_list@[i]@
                != self.main.password@
        &&& self.row_state < 16
        &&& self.col_state < 4
        &&& self.header.health_i <= START_HEALTH
        &&& (self.outcome == Outcome::InProgress ==> self.header.health_i > 0)
    }

    /// A just-built session: well formed, drawn from the given corpus, and
    /// in its starting configuration — nothing removed, nothing consumed,
    /// full budget, empty history and buffers, cursor at the origin.
    pub open spec fn fresh_session(app: App, corpus: Seq<String>) -> bool {
        &&& app.wf()
        &&& app.corpus@ == corpus
        &&& forall|i: int| 0 <= i < 32 ==> corpus.contains(#[trigger] app.main.word_list@[i])
        &&& forall|i: int| 0 <= i < 32 ==> is_noise_token(#[trigger] app.main.hex_list@[i]@)
        &&& app.brackets@ == brackets::spec_scan(app.table_contents@)
        &&& forall|i: int| 0 <= i < 32 ==> !(#[trigger] app.removed@[i])
        &&& app.header.health_i == START_HEALTH
        &&& app.header.title@ == assets::spec_titles_str(0)
        &&& app.header.status@ == assets::spec_status_str(1)
        &&& app.outcome == Outcome::InProgress
        &&& app.history@ == Seq::<GuessRecord>::empty()
        &&& app.input@ == Seq::<char>::empty()
        &&& app.focus == Focus::Main
        &&& app.row_state == 0
        &&& app.col_state == 0
        &&& app.selected == 0
        &&& !app.show_help
        &&& !app.show_debug
    }

    /// Build a session from a corpus already known to be usable.
    fn build(corpus: Vec<String>) -> (app: App)
        requires
            corpus_ok(corpus@),
        ensures
            Self::fresh_session(app, corpus@),
            app.debug@ == Seq::<String>::empty(),
    {
        let tokens = clone_words(&corpus);
        let m = TableModel::new(SUBSET_SIZE, tokens);
        let ts = TableStructure::new();
        let table_contents = TableModel::build_alternating_lists(
            ts.columns,
            ts.rows,
            &m.hex_list,
            &m.word_list,
        );
        let bracket_list = brackets::scan_brackets(&table_contents);
        let mut removed: Vec<bool> = Vec::new();
        let mut i: usize = 0;
        while i < SUBSET_SIZE
            invariant
                i <= SUBSET_SIZE,
                removed@.len() == i,
                forall|j: int| 0 <= j < i ==> !(#[trigger] removed@[j]),
            decreases SUBSET_SIZE - i,
        {
            removed.push(false);
            i = i + 1;
        }
        let header = Header::new(START_HEALTH);
        proof {
            assert forall|k: int| 0 <= k < 32 implies (#[trigger] m.word_list@[k])@.len()
                == corpus@[0]@.len() by {
                let w = choose|w: int| 0 <= w < corpus@.len() && corpus@[w] == m.word_list@[k];
                assert(corpus@[w]@.len() == corpus@[0]@.len());
            }
            let p = choose|p: int| 0 <= p < m.word_list@.len() && m.word_list@[p] == m.password;
            assert(m.password@.len() == corpus@[0]@.len());
        }
        App {
            focus: Focus::Main,
            header,
            corpus,
            main: m,
            ts,
            table_contents,
            removed,
            brackets: bracket_list,
            row_state: 0,
            col_state: 0,
            input: String::new(),
            history: Vec::new(),
            selected: 0,
            outcome: Outcome::InProgress,
            show_help: false,
            show_debug: false,
            debug: DebugLog::new(DEBUG_CAP),
        }
    }

    /// Build a session from a corpus of tokens, validating it first: at
    /// least 32 tokens, all of one length, no repeats. Succeeds
    /// exactly on a usable corpus; a bad one is rejected with the first
    /// failing check's error and no partial session.
    pub fn new(corpus: Vec<String>) -> (r: Result<App, ConfigError>)
        ensures
            match r {
                Ok(app) => corpus_ok(corpus@) && Self::fresh_session(app, corpus@) && app.debug@
                    == Seq::<String>::empty(),
                Err(e) => !corpus_ok(corpus@) && e == spec_config_error(corpus@),
            },
    {
        if corpus.len() < SUBSET_SIZE {
            return Err(ConfigError::TooFewTokens);
        }
        let l0 = corpus[0].as_str().unicode_len();
        let n = corpus.len();
        let mut i: usize = 0;
        while i < n
            invariant
                i <= n,
                n == corpus@.len(),
                n >= SUBSET_SIZE,
                l0 == corpus@[0]@.len(),
                forall|j: int| 0 <= j < i ==> (#[trigger] corpus@[j])@.len() == corpus@[0]@.len(),
            decreases n - i,
        {
            if corpus[i].as_str().unicode_len() != l0 {
                return Err(ConfigError::UnequalLengths);
            }
            i = i + 1;
        }
        let mut a: usize = 0;
        while a < n
            invariant
                a <= n,
                n == corpus@.len(),
                n >= SUBSET_SIZE,
                forall|j: int| 0 <= j < n ==> (#[trigger] corpus@[j])@.len() == corpus@[0]@.len(),
                forall|x: int, y: int| 0 <= x < a && x < y < n ==> corpus@[x]@ != corpus@[y]@,
            decreases n - a,
        {
            let mut b: usize = a + 1;
            while b < n
                invariant
                    a < b <= n,
                    a < n,
                    n == corpus@.len(),
                    n >= SUBSET_SIZE,
                    forall|j: int| 0 <= j < n ==> (#[trigger] corpus@[j])@.len()
                        == corpus@[0]@.len(),
                    forall|y: int| a < y < b ==> corpus@[a as int]@ != corpus@[y]@,
                decreases n - b,
            {
                if crate::score::str_eq(corpus[a].as_str(), corpus[b].as_str()) {
                    proof {
                        assert(corpus@[a as int]@ == corpus@[b as int]@);
                        assert(!distinct_views(corpus@));
                    }
                    return Err(ConfigError::DuplicateToken);
                }
                b = b + 1;
            }
            a = a + 1;
        }
        Ok(Self::build(corpus))
    }

    /// Rebuild the whole session from scratch out of the stored corpus: a
    /// fresh shuffle, a fresh password, a fresh grid, full budget. Nothing
    /// of the prior session's removed or consumed state survives.
    pub fn restart(&mut self)
        requires
            old(self).wf(),
        ensures
            Self::fresh_session(*final(self), old(self).corpus@),
            final(self).debug@ == Seq::<String>::empty(),
    {
        let corpus = clone_words(&self.corpus);
        *self = Self::build(corpus);
    }
}

impl App {
    /// Cursor row after an upward move: one up, wrapping to the bottom row,
    /// and only while the grid pane has focus.
    pub open spec fn spec_table_up(self) -> usize {
        if self.focus != Focus::Main {
            self.row_state
        } else if self.table_contents@.len() == 0 {
            self.row_state
        } else if self.row_state > 0 {
            (self.row_state - 1) as usize
        } else {
            (self.table_contents@.len() - 1) as usize
        }
    }

    /// Cursor row after a downward move: one down, wrapping to the top row,
    /// and only while the grid pane has focus.
    pub open spec fn spec_table_down(self) -> usize {
        if self.focus != Focus::Main {
            self.row_state
        } else if self.table_contents@.len() == 0 {
            self.row_state
        } else if self.row_state + 1 < self.table_contents@.len() {
            (self.row_state + 1) as usize
        } else {
            0
        }
    }

    /// Cursor column after a leftward move: one left, wrapping to the last
    /// column, and only while the grid pane has focus.
    pub open spec fn spec_table_left(self) -> usize {
        if self.focus != Focus::Main {
            self.col_state
        } else if self.col_state > 0 {
            (self.col_state - 1) as usize
        } else if self.ts.columns == 0 {
            0
        } else {
            (self.ts.columns - 1) as usize
        }
    }

    /// Cursor column after a rightward move: one right, wrapping to column
    /// zero, and only while the grid pane has focus.
    pub open spec fn spec_table_right(self) -> usize {
        if self.focus != Focus::Main {
            self.col_state
        } else if self.ts.columns > 0 && self.col_state < (self.ts.columns - 1) as usize {
            (self.col_state + 1) as usize
        } else {
            0
        }
    }

    /// Move the grid cursor one row up, wrapping at the top.
    pub fn table_up(&mut self)
        ensures
            *final(self) == (App { row_state: old(self).spec_table_up(), ..*old(self) }),
            old(self).wf() ==> final(self).wf(),
    {
        if self.focus != Focus::Main {
            return;
        }
        let len = self.table_contents.len();
        if len == 0 {
            return;
        }
        if self.row_state > 0 {
            self.row_state = self.row_state - 1;
        } else {
            self.row_state = len - 1;
        }
    }

    /// Move the grid cursor one row down, wrapping at the bottom.
    pub fn table_down(&mut self)
        ensures
            *final(self) == (App { row_state: old(self).spec_table_down(), ..*old(self) }),
            old(self).wf() ==> final(self).wf(),
    {
        if self.focus != Focus::Main {
            return;
        }
        let len = self.table_contents.len();
        if len == 0 {
            return;
        }
        if self.row_state < len - 1 {
            self.row_state = self.row_state + 1;
        } else {
            self.row_state = 0;
        }
    }

    /// Move the grid cursor one column left, wrapping at the first column.
    pub fn table_left(&mut self)
        ensures
            *final(self) == (App { col_state: old(self).spec_table_left(), ..*old(self) }),
            old(self).wf() ==> final(self).wf(),
    {
        if self.focus != Focus::Main {
            return;
        }
        let max_cols = if self.ts.columns > 0 {
            self.ts.columns - 1
        } else {
            0
        };
        if self.col_state > 0 {
            self.col_state = self.col_state - 1;
        } else {
            self.col_state = max_cols;
        }
    }

    /// Move the grid cursor one column right, wrapping at the last column.
    pub fn table_right(&mut self)
        ensures
            *final(self) == (App { col_state: old(self).spec_table_right(), ..*old(self) }),
            old(self).wf() ==> final(self).wf(),
    {
        if self.focus != Focus::Main {
            return;
        }
        let max_cols = if self.ts.columns > 0 {
            self.ts.columns - 1
        } else {
            0
        };
        if self.col_state < max_cols {
            self.col_state = self.col_state + 1;
        } else {
            self.col_state = 0;
        }
    }

    /// Append one typed character to the pending guess buffer.
    pub fn push_input(&mut self, c: char)
        ensures
            *final(self) == (App { input: final(self).input, ..*old(self) }),
            final(self).input@ == old(self).input@.push(c),
            old(self).wf() ==> final(self).wf(),
    {
        crate::strutil::push_char(&mut self.input, c);
    }

    /// Erase the last character of the pending guess buffer, if any.
    pub fn pop_input(&mut self)
        ensures
            *final(self) == (App { input: final(self).input, ..*old(self) }),
            final(self).input@ == if old(self).input@.len() > 0 {
                old(self).input@.drop_last()
            } else {
                old(self).input@
            },
            old(self).wf() ==> final(self).wf(),
    {
        let _ = crate::strutil::pop_char(&mut self.input);
    }

    /// Select a history row from a pre-resolved pointer coordinate, clamped
    /// to the last row.
    pub fn select_history_row(&mut self, i: usize)
        ensures
            *final(self) == (App { selected: final(self).selected, ..*old(self) }),
            final(self).selected == if old(self).history@.len() == 0 {
                0
            } else if i < old(self).history@.len() {
                i as int
            } else {
                old(self).history@.len() - 1
            },
            old(self).wf() ==> final(self).wf(),
    {
        let max_index = if self.history.len() > 0 {
            self.history.len() - 1
        } else {
            0
        };
        self.selected = if i < max_index {
            i
        } else {
            max_index
        };
    }

    /// What one submission does. A session already decided, or a buffer
    /// whose length differs from the password's, changes nothing — an
    /// over- or under-length guess is rejected outright, not truncated.
    /// Otherwise the guess is scored and recorded, the buffer cleared, and
    /// the outcome follows the attempt tracker: a correct guess wins with
    /// the budget untouched; a wrong one costs an attempt, and losing the
    /// last one ends the session.
    pub open spec fn submit_post(o: App, n: App) -> bool {
        if o.outcome != Outcome::InProgress {
            n == o
        } else if o.input@.len() != o.main.password@.len() {
            n == o
        } else {
            let sc = likeness(o.input@, o.main.password@);
            let won = o.input@ == o.main.password@;
            let budget = if won {
                o.header.health_i
            } else if o.header.health_i > 0 {
                (o.header.health_i - 1) as u8
            } else {
                0u8
            };
            &&& n == (App {
                input: n.input,
                history: n.history,
                header: n.header,
                outcome: n.outcome,
                ..o
            })
            &&& n.input@ == Seq::<char>::empty()
            &&& n.history@ == o.history@.push(
                GuessRecord {
                    word: o.input,
                    score: sc as usize,
                    ordinal: o.history@.len() as usize,
                },
            )
            &&& n.header == (Header { health_i: budget, ..o.header })
            &&& n.outcome == if won {
                Outcome::Won
            } else if budget == 0 {
                Outcome::Lost
            } else {
                Outcome::InProgress
            }
        }
    }

    /// What the dud mechanic may do to the removal flags: either nothing
    /// was removable — every candidate already removed or reading as the
    /// password — and the flags are unchanged, or exactly one
    /// still-guessable non-password candidate is newly flagged.
    pub open spec fn dud_flags_post(
        words: Seq<String>,
        pw: String,
        o_rem: Seq<bool>,
        n_rem: Seq<bool>,
    ) -> bool {
        ||| (n_rem == o_rem && forall|i: int|
            0 <= i < o_rem.len() ==> (#[trigger] o_rem[i]) || words[i]@ == pw@)
        ||| (exists|j: int|
            0 <= j < o_rem.len() && !o_rem[j] && words[j]@ != pw@ && n_rem == o_rem.update(
                j,
                true,
            ))
    }

    /// Flag one uniformly drawn still-guessable non-password candidate as a
    /// removed dud; with none left to remove, change nothing.
    pub fn remove_random_dud(&mut self)
        requires
            old(self).wf(),
        ensures
            final(self).wf(),
            *final(self) == (App { removed: final(self).removed, ..*old(self) }),
            Self::dud_flags_post(
                old(self).main.word_list@,
                old(self).main.password,
                old(self).removed@,
                final(self).removed@,
            ),
    {
        let mut idxs: Vec<usize> = Vec::new();
        let n = self.removed.len();
        let mut i: usize = 0;
        while i < n
            invariant
                i <= n,
                n == self.removed@.len(),
                self.main.word_list@.len() == n,
                forall|k: int|
                    0 <= k < idxs@.len() ==> (#[trigger] idxs@[k]) < i
                        && !self.removed@[idxs@[k] as int]
                        && self.main.word_list@[idxs@[k] as int]@ != self.main.password@,
                forall|k: int|
                    0 <= k < i ==> (#[trigger] self.removed@[k]) || self.main.word_list@[k]@
                        == self.main.password@ || idxs@.contains(k as usize),
            decreases n - i,
        {
            let ghost old_idxs = idxs@;
            if !self.removed[i] && !crate::score::str_eq(
                self.main.word_list[i].as_str(),
                self.main.password.as_str(),
            ) {
                idxs.push(i);
                proof {
                    assert(idxs@.last() == i);
                    assert(idxs@.contains(i));
                    assert forall|k: int|
                        0 <= k < i && old_idxs.contains(k as usize) implies #[trigger] idxs@.contains(
                        k as usize,
                    ) by {
                        let m = choose|m: int| 0 <= m < old_idxs.len() && old_idxs[m] == k as usize;
                        assert(idxs@[m] == k as usize);
                    }
                }
            }
            i = i + 1;
        }
        if idxs.len() == 0 {
            return;
        }
        let k = rng::random_index(idxs.len());
        let j = idxs[k];
        self.removed[j] = true;
        proof {
            assert(final(self).removed@ == old(self).removed@.update(j as int, true));
        }
    }

    /// The modifier effect of draw `d`: draw 2 removes a dud candidate if
    /// one remains, draw 1 restores the attempt budget to its starting
    /// value, every other draw changes nothing beyond the status caption.
    pub open spec fn effect_applied(o: App, n: App, d: u8) -> bool {
        &&& n.header.title == o.header.title
        &&& n.header.status@ == assets::spec_modifier_str(d)
        &&& if d == 2 {
            n.header.health_i == o.header.health_i && Self::dud_flags_post(
                o.main.word_list@,
                o.main.password,
                o.removed@,
                n.removed@,
            )
        } else if d == 1 {
            n.header.health_i == START_HEALTH && n.removed == o.removed
        } else {
            n.header.health_i == o.header.health_i && n.removed == o.removed
        }
    }

    /// What activating the current selection does. A decided session, or
    /// focus outside the grid, changes nothing. On a word cell the focused
    /// candidate is copied into the pending guess buffer, unless it was
    /// removed as a dud. On a noise cell, if a matchable bracket pair
    /// starts there, the pair is consumed and one of four modifier effects
    /// is drawn; with no such pair the activation is a silent no-op.
    pub open spec fn activate_post(o: App, n: App) -> bool {
        if o.outcome != Outcome::InProgress {
            n == o
        } else if o.focus != Focus::Main {
            n == o
        } else if o.col_state % 2 == 1 {
            let wi = o.row_state * 2 + o.col_state / 2;
            if o.removed@[wi] {
                n == o
            } else {
                n == (App { input: n.input, ..o }) && n.input == o.main.word_list@[wi]
            }
        } else {
            if exists|i: int, j: int|
                brackets::is_first_at(o.brackets@, o.row_state, o.col_state, i)
                    && brackets::pair_matchable(o.brackets@, i, j) {
                &&& n == (App { brackets: n.brackets, header: n.header, removed: n.removed, ..o })
                &&& exists|i: int, j: int, d: u8|
                    {
                        &&& brackets::is_first_at(o.brackets@, o.row_state, o.col_state, i)
                        &&& brackets::pair_matchable(o.brackets@, i, j)
                        &&& n.brackets@ == brackets::consume_pair(o.brackets@, i, j)
                        &&& d < 4
                        &&& Self::effect_applied(o, n, d)
                    }
            } else {
                n == o
            }
        }
    }

    /// Activate the current selection: pick a word into the guess buffer,
    /// or consume a bracket pair and draw a modifier effect.
    pub fn activate_selection(&mut self)
        requires
            old(self).wf(),
        ensures
            final(self).wf(),
            Self::activate_post(*old(self), *final(self)),
    {
        if self.outcome != Outcome::InProgress {
            return;
        }
        if self.focus != Focus::Main {
            return;
        }
        if self.col_state % 2 == 1 {
            let wi = self.row_state * 2 + self.col_state / 2;
            if self.removed[wi] {
                return;
            }
            self.input = self.main.word_list[wi].clone();
            return;
        }
        let row = self.row_state;
        let col = self.col_state;
        let res = brackets::activate_pair(&mut self.brackets, row, col);
        match res {
            None => {},
            Some(p) => {
                let draw = rng::random_index(4);
                let d = draw as u8;
                self.header.status = assets::modifier_str(d).to_owned();
                if d == 2 {
                    self.remove_random_dud();
                } else if d == 1 {
                    self.header.health_i = START_HEALTH;
                }
                proof {
                    let i = p.0 as int;
                    let j = p.1 as int;
                    assert(brackets::is_first_at(
                        old(self).brackets@,
                        old(self).row_state,
                        old(self).col_state,
                        i,
                    ) && brackets::pair_matchable(old(self).brackets@, i, j));
                    assert(d < 4 && Self::effect_applied(*old(self), *final(self), d));
                }
            },
        }
    }

    /// How one command transforms the session: the help overlay freezes
    /// everything but its own dismissal; a decided session ignores
    /// everything but a restart; otherwise the command routes to the
    /// matching operation.
    pub open spec fn handle_post(o: App, n: App, cmd: Command) -> bool {
        if o.show_help {
            if cmd == Command::ToggleHelp {
                n == (App { show_help: false, ..o })
            } else {
                n == o
            }
        } else if o.outcome != Outcome::InProgress && cmd != Command::Restart {
            n == o
        } else {
            match cmd {
                Command::FocusVertical => n == (App { focus: spec_next_vertical(o.focus), ..o }),
                Command::FocusHorizontal => n == (App {
                    focus: spec_next_horizontal(o.focus),
                    ..o
                }),
                Command::CursorUp => n == (App { row_state: o.spec_table_up(), ..o }),
                Command::CursorDown => n == (App { row_state: o.spec_table_down(), ..o }),
                Command::CursorLeft => n == (App { col_state: o.spec_table_left(), ..o }),
                Command::CursorRight => n == (App { col_state: o.spec_table_right(), ..o }),
                Command::TypeChar(c) => n == (App { input: n.input, ..o }) && n.input@
                    == o.input@.push(c),
                Command::Backspace => n == (App { input: n.input, ..o }) && n.input@ == if o.input@.len() > 0 {
                    o.input@.drop_last()
                } else {
                    o.input@
                },
                Command::Submit => Self::submit_post(o, n),
                Command::Activate => Self::activate_post(o, n),
                Command::ToggleHelp => n == (App { show_help: true, ..o }),
                Command::ToggleDebug => n == (App { show_debug: !o.show_debug, ..o }),
                Command::Restart => Self::fresh_session(n, o.corpus@) && n.debug@
                    == Seq::<String>::empty(),
            }
        }
    }

    /// Route one input command to the matching operation.
    pub fn handle_command(&mut self, cmd: Command)
        requires
            old(self).wf(),
        ensures
            final(self).wf(),
            Self::handle_post(*old(self), *final(self), cmd),
    {
        if self.show_help {
            if cmd == Command::ToggleHelp {
                self.show_help = false;
            }
            return;
        }
        if self.outcome != Outcome::InProgress && cmd != Command::Restart {
            return;
        }
        match cmd {
            Command::FocusVertical => self.focus.focus_next_vertical(),
            Command::FocusHorizontal => self.focus.focus_next_horizontal(),
            Command::CursorUp => self.table_up(),
            Command::CursorDown => self.table_down(),
            Command::CursorLeft => self.table_left(),
            Command::CursorRight => self.table_right(),
            Command::TypeChar(c) => self.push_input(c),
            Command::Backspace => self.pop_input(),
            Command::Submit => self.submit_guess(),
            Command::Activate => self.activate_selection(),
            Command::ToggleHelp => self.show_help = true,
            Command::ToggleDebug => self.show_debug = !self.show_debug,
            Command::Restart => self.restart(),
        }
    }

    /// Evaluate the pending guess buffer against the password.
    pub fn submit_guess(&mut self)
        requires
            old(self).wf(),
        ensures
            final(self).wf(),
            Self::submit_post(*old(self), *final(self)),
    {
        if self.outcome != Outcome::InProgress {
            return;
        }
        let plen = self.main.password.as_str().unicode_len();
        let ilen = self.input.as_str().unicode_len();
        if ilen != plen {
            return;
        }
        let s = score(self.input.as_str(), self.main.password.as_str());
        let won = self.header.apply_guess(self.input.as_str(), self.main.password.as_str());
        let rec = GuessRecord { word: self.input.clone(), score: s, ordinal: self.history.len() };
        self.history.push(rec);
        self.input = String::new();
        if won {
            self.outcome = Outcome::Won;
        } else if self.header.is_out() {
            self.outcome = Outcome::Lost;
        }
    }
}

/// The win condition: for any guess of the password's length, the score
/// reaches the full length exactly when the guess is the password.
pub proof fn lemma_win_condition(app: App)
    requires
        app.wf(),
    ensures
        forall|g: Seq<char>|
            g.len() == app.main.password@.len() ==> (likeness(g, app.main.password@)
                == app.main.password@.len() <==> g == app.main.password@),
{
    assert forall|g: Seq<char>| g.len() == app.main.password@.len() implies (likeness(
        g,
        app.main.password@,
    ) == app.main.password@.len() <==> g == app.main.password@) by {
        crate::score::lemma_likeness_full_iff(g, app.main.password@);
    }
}

/// For every session, the password is one of the candidates and every
/// candidate has the password's length.
pub proof fn lemma_password_in_candidates(app: App)
    requires
        app.wf(),
    ensures
        app.main.word_list@.contains(app.main.password),
        forall|i: int|
            0 <= i < app.main.word_list@.len() ==> (#[trigger] app.main.word_list@[i])@.len()
                == app.main.password@.len(),
{
}

} // verus!
