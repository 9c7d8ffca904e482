//! The bracket side mechanic: the noise columns of the grid are scanned,
//! row-major, for single bracket characters; two occurrences form a
//! matchable pair when the first opens, the second closes it, and every
//! bracket between them in scan order has already been consumed. Consuming
//! a pair is what triggers a modifier effect.

use vstd::prelude::*;
use crate::assets::spec_acceptable_combination;
use crate::assets::acceptable_combination;

verus! {

/// One bracket character occurrence in the grid, in scan order.
#[derive(Clone, Copy, Debug, PartialEq, Eq, Structural)]
pub struct Bracket {
    pub row: usize,
    pub col: usize,
    pub pos: usize,
    pub ch: char,
    pub consumed: bool,
}

/// A character that participates in bracket matching.
pub open spec fn is_bracket_char(c: char) -> bool {
    ||| c == '('
    ||| c == ')'
    ||| c == '['
    ||| c == ']'
    ||| c == '{'
    ||| c == '}'
    ||| c == '<'
    ||| c == '>'
}

/// Whether `c` participates in bracket matching.
pub fn bracket_char(c: char) -> (r: bool)
    ensures
        r == is_bracket_char(c),
{
    match c {
        '(' | ')' | '[' | ']' | '{' | '}' | '<' | '>' => true,
        _ => false,
    }
}

/// Brackets among the first `p` characters of the cell at `(row, col)`.
pub open spec fn scan_cell(s: Seq<char>, row: usize, col: usize, p: nat) -> Seq<Bracket>
    recommends
        p <= s.len(),
    decreases p,
{
    if p == 0 {
        Seq::empty()
    } else {
        scan_cell(s, row, col, (p - 1) as nat) + if is_bracket_char(s[p - 1]) {
            seq![
                Bracket {
                    row,
                    col,
                    pos: (p - 1) as usize,
                    ch: s[p - 1],
                    consumed: false,
                },
            ]
        } else {
            Seq::empty()
        }
    }
}

/// Brackets in the noise cells among the first `c` columns of a row.
pub open spec fn scan_row(cells: Seq<String>, row: usize, c: nat) -> Seq<Bracket>
    recommends
        c <= cells.len(),
    decreases c,
{
    if c == 0 {
        Seq::empty()
    } else {
        scan_row(cells, row, (c - 1) as nat) + if (c - 1) % 2 == 0 {
            scan_cell(cells[c - 1]@, row, (c - 1) as usize, cells[c - 1]@.len())
        } else {
            Seq::empty()
        }
    }
}

/// Brackets in the first `r` rows of the grid.
pub open spec fn scan_grid(grid: Seq<Vec<String>>, r: nat) -> Seq<Bracket>
    recommends
        r <= grid.len(),
    decreases r,
{
    if r == 0 {
        Seq::empty()
    } else {
        scan_grid(grid, (r - 1) as nat) + scan_row(
            grid[r - 1]@,
            (r - 1) as usize,
            grid[r - 1]@.len(),
        )
    }
}

/// Every bracket occurrence in the grid's noise (even) columns, in
/// row-major scan order, none of them consumed yet.
pub open spec fn spec_scan(grid: Seq<Vec<String>>) -> Seq<Bracket> {
    scan_grid(grid, grid.len())
}

proof fn lemma_scan_cell_unconsumed(s: Seq<char>, row: usize, col: usize, p: nat)
    ensures
        forall|k: int|
            0 <= k < scan_cell(s, row, col, p).len() ==> !(#[trigger] scan_cell(
                s,
                row,
                col,
                p,
            )[k]).consumed,
    decreases p,
{
    if p > 0 {
        lemma_scan_cell_unconsumed(s, row, col, (p - 1) as nat);
        let prev = scan_cell(s, row, col, (p - 1) as nat);
        let cur = scan_cell(s, row, col, p);
        assert forall|k: int| 0 <= k < cur.len() implies !(#[trigger] cur[k]).consumed by {
            if k < prev.len() {
                assert(cur[k] == prev[k]);
            } else {
                assert(is_bracket_char(s[p - 1]));
                assert(cur[k] == (seq![
                    Bracket { row, col, pos: (p - 1) as usize, ch: s[p - 1], consumed: false },
                ])[k - prev.len()]);
            }
        }
    }
}

proof fn lemma_scan_row_unconsumed(cells: Seq<String>, row: usize, c: nat)
    ensures
        forall|k: int|
            0 <= k < scan_row(cells, row, c).len() ==> !(#[trigger] scan_row(
                cells,
                row,
                c,
            )[k]).consumed,
    decreases c,
{
    if c > 0 {
        lemma_scan_row_unconsumed(cells, row, (c - 1) as nat);
        let prev = scan_row(cells, row, (c - 1) as nat);
        let cur = scan_row(cells, row, c);
        if (c - 1) % 2 == 0 {
            lemma_scan_cell_unconsumed(cells[c - 1]@, row, (c - 1) as usize, cells[c - 1]@.len());
        }
        let tail = if (c - 1) % 2 == 0 {
            scan_cell(cells[c - 1]@, row, (c - 1) as usize, cells[c - 1]@.len())
        } else {
            Seq::<Bracket>::empty()
        };
        assert forall|k: int| 0 <= k < cur.len() implies !(#[trigger] cur[k]).consumed by {
            if k < prev.len() {
                assert(cur[k] == prev[k]);
            } else {
                assert(cur[k] == tail[k - prev.len()]);
            }
        }
    }
}

proof fn lemma_scan_grid_unconsumed(grid: Seq<Vec<String>>, r: nat)
    ensures
        forall|k: int|
            0 <= k < scan_grid(grid, r).len() ==> !(#[trigger] scan_grid(grid, r)[k]).consumed,
    decreases r,
{
    if r > 0 {
        lemma_scan_grid_unconsumed(grid, (r - 1) as nat);
        lemma_scan_row_unconsumed(grid[r - 1]@, (r - 1) as usize, grid[r - 1]@.len());
        let prev = scan_grid(grid, (r - 1) as nat);
        let tail = scan_row(grid[r - 1]@, (r - 1) as usize, grid[r - 1]@.len());
        let cur = scan_grid(grid, r);
        assert forall|k: int| 0 <= k < cur.len() implies !(#[trigger] cur[k]).consumed by {
            if k < prev.len() {
                assert(cur[k] == prev[k]);
            } else {
                assert(cur[k] == tail[k - prev.len()]);
            }
        }
    }
}

/// A freshly scanned grid has every bracket unconsumed: a new session, or a
/// restarted one, starts with no pair spent.
pub proof fn lemma_scan_unconsumed(grid: Seq<Vec<String>>)
    ensures
        forall|k: int|
            0 <= k < spec_scan(grid).len() ==> !(#[trigger] spec_scan(grid)[k]).consumed,
{
    lemma_scan_grid_unconsumed(grid, grid.len());
}

/// Collect the bracket occurrences of the grid's noise columns in scan
/// order.
pub fn scan_brackets(grid: &Vec<Vec<String>>) -> (r: Vec<Bracket>)
    ensures
        r@ == spec_scan(grid@),
{
    let mut acc: Vec<Bracket> = Vec::new();
    let rows = grid.len();
    let mut ri: usize = 0;
    while ri < rows
        invariant
            ri <= rows,
            rows == grid@.len(),
            acc@ == scan_grid(grid@, ri as nat),
        decreases rows - ri,
    {
        let ghost row_seq = grid@[ri as int]@;
        let ncols = grid[ri].len();
        let mut ci: usize = 0;
        proof {
            assert(acc@ + scan_row(row_seq, ri, 0) =~= acc@);
        }
        while ci < ncols
            invariant
                ci <= ncols,
                ri < rows,
                rows == grid@.len(),
                row_seq == grid@[ri as int]@,
                ncols == row_seq.len(),
                acc@ == scan_grid(grid@, ri as nat) + scan_row(row_seq, ri, ci as nat),
            decreases ncols - ci,
        {
            if ci % 2 == 0 {
                let cell: &String = &grid[ri][ci];
                let ghost s = row_seq[ci as int]@;
                let cs = cell.as_str();
                let clen = cs.unicode_len();
                proof {
                    assert((scan_grid(grid@, ri as nat) + scan_row(row_seq, ri, ci as nat))
                        + scan_cell(s, ri, ci, 0) =~= scan_grid(grid@, ri as nat) + scan_row(
                        row_seq,
                        ri,
                        ci as nat,
                    ));
                }
                let mut p: usize = 0;
                while p < clen
                    invariant
                        p <= clen,
                        clen == s.len(),
                        cs@ == s,
                        acc@ == (scan_grid(grid@, ri as nat) + scan_row(row_seq, ri, ci as nat))
                            + scan_cell(s, ri, ci, p as nat),
                    decreases clen - p,
                {
                    let ch = cs.get_char(p);
                    if bracket_char(ch) {
                        let b = Bracket { row: ri, col: ci, pos: p, ch, consumed: false };
                        proof {
                            assert(scan_cell(s, ri, ci, (p + 1) as nat) =~= scan_cell(
                                s,
                                ri,
                                ci,
                                p as nat,
                            ) + seq![b]);
                            assert(acc@.push(b) =~= (scan_grid(grid@, ri as nat) + scan_row(
                                row_seq,
                                ri,
                                ci as nat,
                            )) + scan_cell(s, ri, ci, (p + 1) as nat));
                        }
                        acc.push(b);
                    } else {
                        proof {
                            assert(scan_cell(s, ri, ci, (p + 1) as nat) =~= scan_cell(
                                s,
                                ri,
                                ci,
                                p as nat,
                            ));
                        }
                    }
                    p = p + 1;
                }
                proof {
                    assert(scan_row(row_seq, ri, (ci + 1) as nat) =~= scan_row(row_seq, ri, ci as nat)
                        + scan_cell(s, ri, ci, s.len()));
                    assert(acc@ =~= scan_grid(grid@, ri as nat) + scan_row(
                        row_seq,
                        ri,
                        (ci + 1) as nat,
                    ));
                }
            } else {
                proof {
                    assert(scan_row(row_seq, ri, (ci + 1) as nat) =~= scan_row(
                        row_seq,
                        ri,
                        ci as nat,
                    ));
                }
            }
            ci = ci + 1;
        }
        proof {
            assert(scan_grid(grid@, (ri + 1) as nat) =~= scan_grid(grid@, ri as nat) + scan_row(
                row_seq,
                ri,
                row_seq.len(),
            ));
        }
        ri = ri + 1;
    }
    acc
}

/// An unconsumed bracket sitting at the given cell: the player can select
/// it there.
pub open spec fn selectable_at(b: Bracket, row: usize, col: usize) -> bool {
    !b.consumed && b.row == row && b.col == col
}

/// `i` is the first selectable bracket of the cell in scan order.
pub open spec fn is_first_at(bs: Seq<Bracket>, row: usize, col: usize, i: int) -> bool {
    &&& 0 <= i < bs.len()
    &&& selectable_at(bs[i], row, col)
    &&& forall|k: int| 0 <= k < i ==> !selectable_at(#[trigger] bs[k], row, col)
}

/// `j` is the first unconsumed bracket strictly after `i` in scan order.
pub open spec fn is_next_unconsumed(bs: Seq<Bracket>, i: int, j: int) -> bool {
    &&& i < j < bs.len()
    &&& !bs[j].consumed
    &&& forall|k: int| i < k < j ==> (#[trigger] bs[k]).consumed
}

/// Positions `i` and `j` form a matchable pair: both unconsumed, no other
/// unconsumed bracket between them in scan order, and `j` closes what `i`
/// opens.
pub open spec fn pair_matchable(bs: Seq<Bracket>, i: int, j: int) -> bool {
    &&& 0 <= i
    &&& !bs[i].consumed
    &&& is_next_unconsumed(bs, i, j)
    &&& spec_acceptable_combination(bs[i].ch) == Some(bs[j].ch)
}

/// The bracket list after positions `i` and `j` are consumed.
pub open spec fn consume_pair(bs: Seq<Bracket>, i: int, j: int) -> Seq<Bracket>
    recommends
        0 <= i < bs.len(),
        0 <= j < bs.len(),
{
    bs.update(i, Bracket { consumed: true, ..bs[i] }).update(
        j,
        Bracket { consumed: true, ..bs[j] },
    )
}

/// A consumed pair stays consumed: after a pair is consumed, no matchable
/// pair involves either of its positions again.
pub proof fn lemma_pair_not_reactivatable(bs: Seq<Bracket>, i: int, j: int)
    requires
        pair_matchable(bs, i, j),
    ensures
        forall|i2: int, j2: int|
            pair_matchable(consume_pair(bs, i, j), i2, j2) ==> i2 != i && i2 != j && j2 != i && j2
                != j,
{
}

/// The first selectable bracket of the cell, if the cell holds one.
pub fn find_bracket_at(bs: &Vec<Bracket>, row: usize, col: usize) -> (r: Option<usize>)
    ensures
        match r {
            Some(i) => is_first_at(bs@, row, col, i as int),
            None => forall|k: int| 0 <= k < bs@.len() ==> !selectable_at(#[trigger] bs@[k], row, col),
        },
{
    let n = bs.len();
    let mut i: usize = 0;
    while i < n
        invariant
            i <= n,
            n == bs@.len(),
            forall|k: int| 0 <= k < i ==> !selectable_at(#[trigger] bs@[k], row, col),
        decreases n - i,
    {
        let b = bs[i];
        if !b.consumed && b.row == row && b.col == col {
            return Some(i);
        }
        i = i + 1;
    }
    None
}

/// The first unconsumed bracket strictly after `i` in scan order.
pub fn next_unconsumed(bs: &Vec<Bracket>, i: usize) -> (r: Option<usize>)
    requires
        i < bs@.len(),
    ensures
        match r {
            Some(j) => is_next_unconsumed(bs@, i as int, j as int),
            None => forall|k: int| i < k < bs@.len() ==> (#[trigger] bs@[k]).consumed,
        },
{
    let n = bs.len();
    let mut j: usize = i + 1;
    while j < n
        invariant
            i < j <= n,
            n == bs@.len(),
            forall|k: int| i < k < j ==> (#[trigger] bs@[k]).consumed,
        decreases n - j,
    {
        if !bs[j].consumed {
            return Some(j);
        }
        j = j + 1;
    }
    None
}

/// Try to activate the pair led by the cell's first selectable bracket:
/// when that bracket opens a pair whose closer is the next unconsumed
/// bracket in scan order, both are consumed and their positions returned;
/// in every other case the list is left untouched. The result is `Some`
/// exactly when a matchable pair starts at that cell.
pub fn activate_pair(bs: &mut Vec<Bracket>, row: usize, col: usize) -> (r: Option<(usize, usize)>)
    ensures
        match r {
            Some(p) => {
                let i = p.0 as int;
                let j = p.1 as int;
                &&& is_first_at(old(bs)@, row, col, i)
                &&& pair_matchable(old(bs)@, i, j)
                &&& final(bs)@ == consume_pair(old(bs)@, i, j)
            },
            None => *final(bs) == *old(bs) && !(exists|i: int, j: int|
                is_first_at(old(bs)@, row, col, i) && pair_matchable(old(bs)@, i, j)),
        },
{
    let found = find_bracket_at(bs, row, col);
    match found {
        None => {
            assert(forall|i: int, j: int|
                !(is_first_at(bs@, row, col, i) && pair_matchable(bs@, i, j)));
            None
        },
        Some(i) => {
            let next = next_unconsumed(bs, i);
            match next {
                None => {
                    assert forall|i2: int, j2: int|
                        !(is_first_at(bs@, row, col, i2) && pair_matchable(bs@, i2, j2)) by {
                        if is_first_at(bs@, row, col, i2) {
                            assert(i2 == i);
                        }
                    }
                    None
                },
                Some(j) => {
                    let open_ch = bs[i].ch;
                    let close_ch = bs[j].ch;
                    let matched = match acceptable_combination(open_ch) {
                        Some(c) => c == close_ch,
                        None => false,
                    };
                    if matched {
                        let bi = bs[i];
                        let bj = bs[j];
                        bs[i] = Bracket { consumed: true, ..bi };
                        bs[j] = Bracket { consumed: true, ..bj };
                        Some((i, j))
                    } else {
                        assert forall|i2: int, j2: int|
                            !(is_first_at(bs@, row, col, i2) && pair_matchable(bs@, i2, j2)) by {
                            if is_first_at(bs@, row, col, i2) && pair_matchable(bs@, i2, j2) {
                                assert(i2 == i);
                                assert(j2 == j);
                            }
                        }
                        None
                    }
                },
            }
        },
    }
}

} // verus!
