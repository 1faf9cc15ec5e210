//! Edit distance between two pieces of text: the least number of single
//! character insertions, deletions and substitutions that turn one into the
//! other.

use vstd::prelude::*;

verus! {

/// The smallest of three numbers.
pub open spec fn min3(a: nat, b: nat, c: nat) -> nat {
    if a <= b && a <= c {
        a
    } else if b <= c {
        b
    } else {
        c
    }
}

/// The edit distance of `a` and `b`, each insertion, deletion and
/// substitution costing 1.
pub open spec fn edit_distance(a: Seq<char>, b: Seq<char>) -> nat
    decreases a.len() + b.len(),
{
    if a.len() == 0 {
        b.len()
    } else if b.len() == 0 {
        a.len()
    } else {
        let change: nat = if a.last() == b.last() { 0 } else { 1 };
        min3(
            edit_distance(a.drop_last(), b.drop_last()) + change,
            edit_distance(a.drop_last(), b) + 1,
            edit_distance(a, b.drop_last()) + 1,
        )
    }
}

/// No pair of texts is further apart than the longer of the two is long.
pub proof fn lemma_distance_at_most_longer(a: Seq<char>, b: Seq<char>)
    ensures
        edit_distance(a, b) <= a.len() || edit_distance(a, b) <= b.len(),
    decreases a.len() + b.len(),
{
    if a.len() != 0 && b.len() != 0 {
        lemma_distance_at_most_longer(a.drop_last(), b.drop_last());
    }
}

/// A text is at distance 0 from itself.
pub proof fn lemma_distance_to_self(a: Seq<char>)
    ensures
        edit_distance(a, a) == 0,
    decreases a.len(),
{
    if a.len() != 0 {
        lemma_distance_to_self(a.drop_last());
    }
}

/// The distance does not depend on the order of the two texts.
pub proof fn lemma_distance_symmetric(a: Seq<char>, b: Seq<char>)
    ensures
        edit_distance(a, b) == edit_distance(b, a),
    decreases a.len() + b.len(),
{
    if a.len() != 0 && b.len() != 0 {
        lemma_distance_symmetric(a.drop_last(), b.drop_last());
        lemma_distance_symmetric(a.drop_last(), b);
        lemma_distance_symmetric(a, b.drop_last());
    }
}

/// The characters of `s`, in order.
pub fn chars_of(s: &str) -> (v: Vec<char>)
    ensures
        v@ == s@,
{
    let mut v: Vec<char> = Vec::new();
    for c in it: s.chars()
        invariant
            it.seq() == s@,
            v@ == it.seq().take(it.index()),
    {
        v.push(c);
    }
    v
}

/// The edit distance of two character vectors.
pub fn chars_distance(x: &Vec<char>, y: &Vec<char>) -> (d: usize)
    ensures
        d == edit_distance(x@, y@),
{
    let n: usize = x.len();
    let m: usize = y.len();
    if m == 0 {
        return n;
    }
    // row[j] is the distance of the first i characters of x and the first
    // j + 1 characters of y.
    let mut row: Vec<usize> = Vec::new();
    let mut j: usize = 0;
    while j < m
        invariant
            j <= m,
            m == y@.len(),
            row@.len() == j,
            forall|k: int| 0 <= k < j ==> row@[k] == edit_distance(x@.take(0), y@.take(k + 1)),
        decreases m - j,
    {
        row.push(j + 1);
        j += 1;
    }
    let mut i: usize = 0;
    while i < n
        invariant
            i <= n,
            n == x@.len(),
            m == y@.len(),
            m > 0,
            row@.len() == m,
            forall|k: int| 0 <= k < m ==> row@[k] == edit_distance(x@.take(i as int), y@.take(k + 1)),
        decreases n - i,
    {
        let mut diag: usize = i;
        let mut left: usize = i + 1;
        let mut j: usize = 0;
        while j < m
            invariant
                i < n,
                j <= m,
                n == x@.len(),
                m == y@.len(),
                row@.len() == m,
                forall|k: int|
                    0 <= k < j ==> row@[k] == edit_distance(x@.take(i + 1), y@.take(k + 1)),
                forall|k: int|
                    j <= k < m ==> row@[k] == edit_distance(x@.take(i as int), y@.take(k + 1)),
                diag == edit_distance(x@.take(i as int), y@.take(j as int)),
                left == edit_distance(x@.take(i + 1), y@.take(j as int)),
            decreases m - j,
        {
            let up: usize = row[j];
            let ghost a = x@.take(i + 1);
            let ghost b = y@.take(j + 1);
            proof {
                assert(a.drop_last() == x@.take(i as int));
                assert(b.drop_last() == y@.take(j as int));
                assert(a.last() == x@[i as int]);
                assert(b.last() == y@[j as int]);
                lemma_distance_at_most_longer(x@.take(i as int), y@.take(j as int));
            }
            let sub: usize = if x[i] == y[j] { diag } else { diag + 1 };
            let near: usize = if up < left { up } else { left };
            let best: usize = if near < sub { near + 1 } else { sub };
            assert(best == edit_distance(a, b));
            row.set(j, best);
            diag = up;
            left = best;
            j += 1;
        }
        i += 1;
    }
    proof {
        assert(x@.take(n as int) == x@);
        assert(y@.take(m as int) == y@);
    }
    row[m - 1]
}

/// The edit distance of two texts.
pub fn distance(a: &str, b: &str) -> (d: usize)
    ensures
        d == edit_distance(a@, b@),
{
    let x = chars_of(a);
    let y = chars_of(b);
    chars_distance(&x, &y)
}

} // verus!
