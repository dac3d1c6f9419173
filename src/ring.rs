//! Index arithmetic on a ring of `n` grid points.
use vstd::arithmetic::div_mod::{lemma_mod_add_multiples_vanish, lemma_mod_self_0, lemma_small_mod};
use vstd::prelude::*;

verus! {

/// The index after `i` on a ring of `n` points.
pub open spec fn succ(i: int, n: int) -> int {
    if i + 1 == n {
        0
    } else {
        i + 1
    }
}

/// The index before `i` on a ring of `n` points.
pub open spec fn pred(i: int, n: int) -> int {
    if i == 0 {
        n - 1
    } else {
        i - 1
    }
}

/// The successor of `i`: `(i + 1) mod n`.
pub fn plus_one(i: usize, n: usize) -> (r: usize)
    requires
        i < n,
    ensures
        r == succ(i as int, n as int),
        r < n,
        r as int == (i as int + 1) % (n as int),
{
    proof {
        lemma_ring_mod(i as int, n as int);
    }
    if i + 1 == n {
        0
    } else {
        i + 1
    }
}

/// The predecessor of `i`: `(i - 1) mod n`, wrapping from 0 to `n - 1`.
pub fn minus_one(i: usize, n: usize) -> (r: usize)
    requires
        i < n,
    ensures
        r == pred(i as int, n as int),
        r < n,
        r as int == (i as int + n - 1) % (n as int),
{
    proof {
        lemma_ring_mod(i as int, n as int);
    }
    if i == 0 {
        n - 1
    } else {
        i - 1
    }
}

/// Both neighbours of `i` on the ring, the predecessor first.
pub fn neighbors(i: usize, n: usize) -> (r: (usize, usize))
    requires
        i < n,
    ensures
        r.0 == pred(i as int, n as int),
        r.1 == succ(i as int, n as int),
{
    (minus_one(i, n), plus_one(i, n))
}

/// The successor and predecessor are the index plus and minus one, modulo `n`.
pub proof fn lemma_ring_mod(i: int, n: int)
    requires
        0 <= i < n,
    ensures
        succ(i, n) == (i + 1) % n,
        pred(i, n) == (i + n - 1) % n,
{
    if i + 1 == n {
        lemma_mod_self_0(n);
    } else {
        lemma_small_mod((i + 1) as nat, n as nat);
    }
    if i == 0 {
        lemma_small_mod((n - 1) as nat, n as nat);
    } else {
        lemma_mod_add_multiples_vanish(i - 1, n);
        lemma_small_mod((i - 1) as nat, n as nat);
    }
}

/// Walking forward and then back on the ring returns to the start, and so
/// does walking back and then forward.
pub proof fn lemma_succ_pred_inverse(i: int, n: int)
    requires
        0 <= i < n,
    ensures
        pred(succ(i, n), n) == i,
        succ(pred(i, n), n) == i,
        0 <= succ(i, n) < n,
        0 <= pred(i, n) < n,
{
}

} // verus!
