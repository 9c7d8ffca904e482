//! Candidate selection and grid construction: a shuffled draw of candidate
//! words, one of them the password, interleaved row-major with decorative
//! noise tokens into a rectangular table whose even columns are noise and
//! odd columns are words.

use vstd::prelude::*;
use vstd::arithmetic::mul::lemma_mul_inequality;
use crate::hex::hex_of;
use crate::hex::u32_to_hex;
use crate::rng;
use crate::strutil::push_char;

verus! {

/// Decoration characters a noise token may end with; four of the bracket
/// glyphs live here, which is how bracket pairs get into the grid.
pub const POOL: &'static str = "!@#$%^&*()[]{}";

/// The decoration pool as a character sequence.
pub open spec fn spec_pool() -> Seq<char> {
    "!@#$%^&*()[]{}"@
}

/// No two words of the list read the same.
pub open spec fn distinct_views(s: Seq<String>) -> bool {
    forall|x: int, y: int| 0 <= x < y < s.len() ==> s[x]@ != s[y]@
}

/// A noise token: the lowercase hex rendering of some machine word, with
/// one decoration character from the pool appended.
pub open spec fn is_noise_token(s: Seq<char>) -> bool {
    exists|v: nat, k: int|
        0 <= k < spec_pool().len() && s == hex_of(v).push(spec_pool()[k])
}

/// Token `i` of a noise list that counts up from the machine word `s`: the
/// hex rendering of `s + i` (wrapping), with some decoration appended.
pub open spec fn noise_token_from(s: u32, i: int, t: Seq<char>) -> bool {
    exists|k: int|
        0 <= k < spec_pool().len() && t == hex_of(
            vstd::wrapping::u32_specs::wrapping_add(s, i as u32) as nat,
        ).push(spec_pool()[k])
}

/// A noise list that counts up from the machine word `s`, one decorated hex
/// token per step.
pub open spec fn noise_list_from(s: u32, r: Seq<String>) -> bool {
    forall|i: int| 0 <= i < r.len() ==> #[trigger] noise_token_from(s, i, r[i]@)
}

fn pool_char(k: usize) -> (c: char)
    requires
        k < 14,
    ensures
        spec_pool().len() == 14,
        c == spec_pool()[k as int],
{
    proof {
        reveal_strlit("!@#$%^&*()[]{}");
    }
    POOL.get_char(k)
}

/// Shape of the displayed table; the grid itself always has these many rows
/// and columns.
#[derive(Clone, Copy, Debug, PartialEq, Eq, Structural)]
pub struct TableStructure {
    pub rows: usize,
    pub columns: usize,
    pub column_spacing: u16,
    pub hex_width: u16,
}

impl TableStructure {
    /// The fixed sixteen-by-four shape of a session's grid.
    pub fn new() -> (t: TableStructure)
        ensures
            t.rows == 16,
            t.columns == 4,
            t.column_spacing == 1,
            t.hex_width == 1,
    {
        TableStructure { rows: 16, columns: 4, column_spacing: 1, hex_width: 1 }
    }
}

/// The drawn puzzle data: noise tokens, candidate words, and the one
/// candidate that is the password.
pub struct TableModel {
    pub hex_list: Vec<String>,
    pub word_list: Vec<String>,
    pub password: String,
}

impl TableModel {
    /// Draw a fresh puzzle: 32 noise tokens, `n` candidates taken from a
    /// shuffle of `tokens`, and a password drawn from the candidates.
    pub fn new(n: usize, tokens: Vec<String>) -> (m: TableModel)
        requires
            n > 0,
            tokens@.len() >= n,
        ensures
            m.hex_list@.len() == 32,
            forall|i: int| 0 <= i < 32 ==> is_noise_token(#[trigger] m.hex_list@[i]@),
            m.word_list@.len() == n,
            forall|i: int| 0 <= i < n ==> tokens@.contains(#[trigger] m.word_list@[i]),
            distinct_views(tokens@) ==> distinct_views(m.word_list@),
            m.word_list@.contains(m.password),
    {
        let hex_list = Self::build_hex_list();
        let word_list = Self::new_word_list(tokens, n);
        let password = Self::new_password(&word_list);
        TableModel { hex_list, word_list, password }
    }

    /// Shuffle the corpus and keep its first `n` tokens (all of it, if it
    /// holds fewer): an order-independent random draw of candidates.
    pub fn new_word_list(tokens: Vec<String>, n: usize) -> (r: Vec<String>)
        ensures
            r@.len() == if n <= tokens@.len() {
                n as int
            } else {
                tokens@.len() as int
            },
            forall|i: int| 0 <= i < r@.len() ==> tokens@.contains(#[trigger] r@[i]),
            distinct_views(tokens@) ==> distinct_views(r@),
    {
        let mut t = tokens;
        rng::shuffle(&mut t);
        proof {
            t@.to_multiset_ensures();
            tokens@.to_multiset_ensures();
        }
        let m = if n <= t.len() {
            n
        } else {
            t.len()
        };
        let mut r: Vec<String> = Vec::new();
        let mut i: usize = 0;
        while i < m
            invariant
                i <= m,
                m <= t@.len(),
                m == if n <= tokens@.len() {
                    n as int
                } else {
                    tokens@.len() as int
                },
                t@.to_multiset() == tokens@.to_multiset(),
                r@.len() == i,
                r@ == t@.take(i as int),
                forall|j: int| 0 <= j < i ==> tokens@.contains(#[trigger] r@[j]),
            decreases m - i,
        {
            let w = t[i].clone();
            proof {
                t@.to_multiset_ensures();
                tokens@.to_multiset_ensures();
                assert(t@[i as int] == w);
                assert(t@.contains(w));
                assert(t@.to_multiset().count(w) > 0);
                assert(tokens@.to_multiset().count(w) > 0);
                assert(tokens@.contains(w));
                assert(t@.take(i as int + 1) =~= t@.take(i as int).push(w));
            }
            r.push(w);
            i = i + 1;
        }
        proof {
            if distinct_views(tokens@) {
                assert(tokens@.no_duplicates());
                tokens@.lemma_multiset_has_no_duplicates();
                t@.lemma_multiset_has_no_duplicates_conv();
                assert(r@.no_duplicates());
                t@.to_multiset_ensures();
                tokens@.to_multiset_ensures();
                assert forall|x: int, y: int| 0 <= x < y < r@.len() implies r@[x]@ != r@[y]@ by {
                    if r@[x]@ == r@[y]@ {
                        assert(t@.contains(r@[x]));
                        assert(t@.to_multiset().count(r@[x]) > 0);
                        assert(tokens@.to_multiset().count(r@[x]) > 0);
                        assert(tokens@.contains(r@[x]));
                        assert(t@.contains(r@[y]));
                        assert(t@.to_multiset().count(r@[y]) > 0);
                        assert(tokens@.to_multiset().count(r@[y]) > 0);
                        assert(tokens@.contains(r@[y]));
                        let kx = choose|k: int|
                            0 <= k < tokens@.len() && tokens@[k] == r@[x];
                        let ky = choose|k: int|
                            0 <= k < tokens@.len() && tokens@[k] == r@[y];
                        assert(tokens@[kx]@ == tokens@[ky]@);
                        assert(kx == ky);
                        assert(r@[x] == r@[y]);
                        assert(false);
                    }
                }
            }
        }
        r
    }

    /// Draw the password uniformly from the candidate list.
    pub fn new_password(word_list: &Vec<String>) -> (p: String)
        requires
            word_list@.len() > 0,
        ensures
            word_list@.contains(p),
    {
        let i = rng::random_index(word_list.len());
        let p = word_list[i].clone();
        proof {
            assert(word_list@[i as int] == p);
        }
        p
    }

    /// Build the 32 noise tokens: consecutive machine words rendered in
    /// lowercase hex from a random start, each with one random decoration
    /// character appended.
    pub fn build_hex_list() -> (r: Vec<String>)
        ensures
            r@.len() == 32,
            forall|i: int| 0 <= i < 32 ==> is_noise_token(#[trigger] r@[i]@),
            exists|s: u32| #[trigger] noise_list_from(s, r@),
    {
        let start = rng::random_u32();
        let mut r: Vec<String> = Vec::new();
        let mut i: usize = 0;
        while i < 32
            invariant
                i <= 32,
                r@.len() == i,
                forall|j: int| 0 <= j < i ==> is_noise_token(#[trigger] r@[j]@),
                forall|j: int| 0 <= j < i ==> #[trigger] noise_token_from(start, j, r@[j]@),
            decreases 32 - i,
        {
            let v = start.wrapping_add(i as u32);
            let mut t = u32_to_hex(v);
            let k = rng::random_index(14);
            let c = pool_char(k);
            push_char(&mut t, c);
            proof {
                assert(0 <= k < spec_pool().len() && t@ == hex_of(v as nat).push(
                    spec_pool()[k as int],
                ));
                assert(is_noise_token(t@));
                assert(noise_token_from(start, i as int, t@));
            }
            r.push(t);
            i = i + 1;
        }
        proof {
            assert(noise_list_from(start, r@));
        }
        r
    }

    /// The grid bijection: cell `(r, c)` of the finished grid holds noise
    /// token `r * columns / 2 + c / 2` when `c` is even and candidate word
    /// `r * columns / 2 + c / 2` when `c` is odd — sources are consumed in
    /// order, row-major, strictly alternating.
    pub open spec fn alternating_grid(
        grid: Seq<Vec<String>>,
        columns: int,
        rows: int,
        hex: Seq<String>,
        words: Seq<String>,
    ) -> bool {
        &&& grid.len() == rows
        &&& forall|r: int| 0 <= r < rows ==> (#[trigger] grid[r])@.len() == columns
        &&& forall|r: int, c: int|
            0 <= r < rows && 0 <= c < columns ==> #[trigger] grid[r]@[c] == if c % 2 == 0 {
                hex[r * (columns / 2) + c / 2]
            } else {
                words[r * (columns / 2) + c / 2]
            }
    }

    /// Interleave noise tokens and candidate words into a `rows` by
    /// `columns` grid, consuming each source list in order: even columns
    /// take the next unused noise token, odd columns the next unused word.
    pub fn build_alternating_lists(
        columns: usize,
        rows: usize,
        hex_list: &Vec<String>,
        word_list: &Vec<String>,
    ) -> (grid: Vec<Vec<String>>)
        requires
            columns % 2 == 0,
            hex_list@.len() >= rows * ((columns / 2) as int),
            word_list@.len() >= rows * ((columns / 2) as int),
        ensures
            Self::alternating_grid(grid@, columns as int, rows as int, hex_list@, word_list@),
    {
        let mut idx1: usize = 0;
        let mut idx2: usize = 0;
        let mut result: Vec<Vec<String>> = Vec::new();
        let mut r: usize = 0;
        while r < rows
            invariant
                r <= rows,
                columns % 2 == 0,
                hex_list@.len() >= rows * ((columns / 2) as int),
                word_list@.len() >= rows * ((columns / 2) as int),
                idx1 == r * ((columns / 2) as int),
                idx2 == r * ((columns / 2) as int),
                result@.len() == r,
                forall|rr: int| 0 <= rr < r ==> (#[trigger] result@[rr])@.len() == columns,
                forall|rr: int, c: int|
                    0 <= rr < r && 0 <= c < columns ==> #[trigger] result@[rr]@[c] == if c % 2
                        == 0 {
                        hex_list@[rr * ((columns / 2) as int) + c / 2]
                    } else {
                        word_list@[rr * ((columns / 2) as int) + c / 2]
                    },
            decreases rows - r,
        {
            let mut inner: Vec<String> = Vec::new();
            let mut c: usize = 0;
            proof {
                lemma_mul_inequality(r as int + 1, rows as int, (columns / 2) as int);
            }
            while c < columns
                invariant
                    c <= columns,
                    r < rows,
                    columns % 2 == 0,
                    hex_list@.len() >= rows * ((columns / 2) as int),
                    word_list@.len() >= rows * ((columns / 2) as int),
                    (r as int + 1) * ((columns / 2) as int) <= rows * ((columns / 2) as int),
                    idx1 == r * ((columns / 2) as int) + (c + 1) / 2,
                    idx2 == r * ((columns / 2) as int) + c / 2,
                    inner@.len() == c,
                    forall|cc: int|
                        0 <= cc < c ==> #[trigger] inner@[cc] == if cc % 2 == 0 {
                            hex_list@[r * ((columns / 2) as int) + cc / 2]
                        } else {
                            word_list@[r * ((columns / 2) as int) + cc / 2]
                        },
                decreases columns - c,
            {
                proof {
                    assert(r as int * ((columns / 2) as int) + ((columns / 2) as int) == (r as int
                        + 1) * ((columns / 2) as int)) by (nonlinear_arith);
                }
                if c % 2 == 0 {
                    let hn = hex_list.len();
                    assert(idx1 < hn);
                    inner.push(hex_list[idx1].clone());
                    idx1 = idx1 + 1;
                } else {
                    let wn = word_list.len();
                    assert(idx2 < wn);
                    inner.push(word_list[idx2].clone());
                    idx2 = idx2 + 1;
                }
                c = c + 1;
            }
            proof {
                assert(r as int * ((columns / 2) as int) + ((columns / 2) as int) == (r as int + 1)
                    * ((columns / 2) as int)) by (nonlinear_arith);
            }
            result.push(inner);
            r = r + 1;
        }
        result
    }
}

} // verus!
