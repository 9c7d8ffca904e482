//! Guess evaluation: the likeness score counts the positions at which a
//! guess and the password hold the same character.

use vstd::prelude::*;

verus! {

/// Number of positions at which `a` and `b` hold the same character,
/// pairing the two sequences from the end. For equal-length sequences this
/// is the positional match count.
pub open spec fn likeness(a: Seq<char>, b: Seq<char>) -> nat
    recommends
        a.len() == b.len(),
    decreases a.len(),
{
    if a.len() == 0 || b.len() == 0 {
        0
    } else {
        likeness(a.drop_last(), b.drop_last()) + if a.last() == b.last() {
            1nat
        } else {
            0nat
        }
    }
}

/// The likeness of two equal-length prefixes grows by one exactly when the
/// next pair of characters agrees.
proof fn lemma_likeness_step(a: Seq<char>, b: Seq<char>, i: int)
    requires
        0 <= i < a.len(),
        i < b.len(),
    ensures
        likeness(a.take(i + 1), b.take(i + 1)) == likeness(a.take(i), b.take(i)) + if a[i] == b[i] {
            1nat
        } else {
            0nat
        },
{
    assert(a.take(i + 1).drop_last() =~= a.take(i));
    assert(b.take(i + 1).drop_last() =~= b.take(i));
    assert(a.take(i + 1).last() == a[i]);
    assert(b.take(i + 1).last() == b[i]);
}

/// A score never exceeds the guess's length.
pub proof fn lemma_likeness_le(a: Seq<char>, b: Seq<char>)
    ensures
        likeness(a, b) <= a.len(),
    decreases a.len(),
{
    if a.len() != 0 && b.len() != 0 {
        lemma_likeness_le(a.drop_last(), b.drop_last());
    }
}

/// Scoring a word against itself yields the word's full length.
pub proof fn lemma_likeness_reflexive(a: Seq<char>)
    ensures
        likeness(a, a) == a.len(),
    decreases a.len(),
{
    if a.len() != 0 {
        lemma_likeness_reflexive(a.drop_last());
    }
}

/// A full score is attained only by the password itself: for equal-length
/// words, the score equals the length exactly when the words are equal.
/// This is the win condition.
pub proof fn lemma_likeness_full_iff(a: Seq<char>, b: Seq<char>)
    requires
        a.len() == b.len(),
    ensures
        likeness(a, b) == a.len() <==> a == b,
    decreases a.len(),
{
    if a.len() == 0 {
        assert(a =~= b);
    } else {
        lemma_likeness_full_iff(a.drop_last(), b.drop_last());
        lemma_likeness_le(a.drop_last(), b.drop_last());
        if likeness(a, b) == a.len() {
            assert(a.drop_last() == b.drop_last() && a.last() == b.last());
            assert forall|i: int| 0 <= i < a.len() implies a[i] == b[i] by {
                if i < a.len() - 1 {
                    assert(a[i] == a.drop_last()[i]);
                    assert(b[i] == b.drop_last()[i]);
                }
            }
            assert(a =~= b);
        }
        if a == b {
            lemma_likeness_reflexive(a);
        }
    }
}

/// The score is indifferent to the order of its arguments.
pub proof fn lemma_likeness_symmetric(a: Seq<char>, b: Seq<char>)
    ensures
        likeness(a, b) == likeness(b, a),
    decreases a.len(),
{
    if a.len() != 0 && b.len() != 0 {
        lemma_likeness_symmetric(a.drop_last(), b.drop_last());
    }
}

/// Count the positions at which `guess` and `password` agree.
pub fn score(guess: &str, password: &str) -> (s: usize)
    requires
        guess@.len() == password@.len(),
    ensures
        s == likeness(guess@, password@),
        s <= guess@.len(),
{
    let n = guess.unicode_len();
    let mut s: usize = 0;
    let mut i: usize = 0;
    proof {
        assert(guess@.take(0) =~= Seq::<char>::empty());
        assert(password@.take(0) =~= Seq::<char>::empty());
    }
    while i < n
        invariant
            i <= n,
            s <= i,
            n == guess@.len(),
            guess@.len() == password@.len(),
            s == likeness(guess@.take(i as int), password@.take(i as int)),
        decreases n - i,
    {
        let gc = guess.get_char(i);
        let pc = password.get_char(i);
        proof {
            lemma_likeness_step(guess@, password@, i as int);
        }
        if gc == pc {
            s = s + 1;
        }
        i = i + 1;
    }
    proof {
        assert(guess@.take(n as int) =~= guess@);
        assert(password@.take(n as int) =~= password@);
    }
    s
}

/// Character-for-character string equality.
pub fn str_eq(a: &str, b: &str) -> (r: bool)
    ensures
        r == (a@ == b@),
{
    let an = a.unicode_len();
    let bn = b.unicode_len();
    if an != bn {
        return false;
    }
    let mut i: usize = 0;
    while i < an
        invariant
            i <= an,
            an == a@.len(),
            a@.len() == b@.len(),
            forall|j: int| 0 <= j < i ==> a@[j] == b@[j],
        decreases an - i,
    {
        if a.get_char(i) != b.get_char(i) {
            return false;
        }
        i = i + 1;
    }
    proof {
        assert(a@ =~= b@);
    }
    true
}

} // verus!
