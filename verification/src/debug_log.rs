//! A bounded scrollback of diagnostic lines: pushing onto a full log drops
//! the oldest line.

use vstd::prelude::*;
use std::collections::VecDeque;

verus! {

/// Bounded log: at most `cap` lines are kept, oldest dropped first.
pub struct DebugLog {
    lines: VecDeque<String>,
    cap: usize,
}

impl DebugLog {
    /// The kept lines, oldest first.
    pub closed spec fn view(&self) -> Seq<String> {
        self.lines@
    }

    /// The configured bound.
    pub closed spec fn spec_cap(&self) -> usize {
        self.cap
    }

    /// An empty log that will keep at most `cap` lines.
    pub fn new(cap: usize) -> (d: DebugLog)
        ensures
            d@ == Seq::<String>::empty(),
            d.spec_cap() == cap,
    {
        DebugLog { lines: VecDeque::with_capacity(cap), cap }
    }

    /// Append a line, dropping the oldest one first when the log is full.
    pub fn push(&mut self, s: String)
        ensures
            final(self).spec_cap() == old(self).spec_cap(),
            final(self)@ == if old(self)@.len() == old(self).spec_cap() && old(self)@.len() > 0 {
                old(self)@.drop_first().push(s)
            } else {
                old(self)@.push(s)
            },
    {
        if self.lines.len() == self.cap {
            let _ = self.lines.pop_front();
        }
        self.lines.push_back(s);
    }

    /// The kept lines, oldest first, as a vector.
    pub fn iter(&self) -> (r: Vec<String>)
        ensures
            r@ == self@,
    {
        let mut r: Vec<String> = Vec::new();
        let mut i: usize = 0;
        let n = self.lines.len();
        while i < n
            invariant
                i <= n,
                n == self.lines@.len(),
                r@.len() == i,
                forall|j: int| 0 <= j < i ==> r@[j] == self.lines@[j],
            decreases n - i,
        {
            r.push(self.lines[i].clone());
            i = i + 1;
        }
        proof {
            assert(r@ =~= self.lines@);
        }
        r
    }
}

} // verus!
