//! Coordinates on a ring: the last position is followed by the first.

use vstd::prelude::*;

verus! {

/// The position before `c` on a ring of `dim` positions.
pub open spec fn before(c: int, dim: int) -> int {
    if c == 0 {
        dim - 1
    } else {
        c - 1
    }
}

/// The position after `c` on a ring of `dim` positions.
pub open spec fn after(c: int, dim: int) -> int {
    if c == dim - 1 {
        0
    } else {
        c + 1
    }
}

/// Stepping around the ring is arithmetic modulo its size, and the two
/// directions undo each other.
pub proof fn lemma_ring_steps(c: int, dim: int)
    requires
        0 <= c < dim,
    ensures
        0 <= before(c, dim) < dim,
        0 <= after(c, dim) < dim,
        before(c, dim) == (c + dim - 1) % dim,
        after(c, dim) == (c + 1) % dim,
        after(before(c, dim), dim) == c,
        before(after(c, dim), dim) == c,
{
    if c == 0 {
        vstd::arithmetic::div_mod::lemma_small_mod((dim - 1) as nat, dim as nat);
    } else {
        vstd::arithmetic::div_mod::lemma_mod_add_multiples_vanish(c - 1, dim);
        vstd::arithmetic::div_mod::lemma_small_mod((c - 1) as nat, dim as nat);
    }
    if c == dim - 1 {
        vstd::arithmetic::div_mod::lemma_mod_self_0(dim);
    } else {
        vstd::arithmetic::div_mod::lemma_small_mod((c + 1) as nat, dim as nat);
    }
}

/// The coordinate before `c`, wrapping from the first position to the last.
pub fn wrap_prev(c: usize, dim: usize) -> (r: usize)
    requires
        c < dim,
    ensures
        r == before(c as int, dim as int),
        r < dim,
{
    if c == 0 {
        dim - 1
    } else {
        c - 1
    }
}

/// The coordinate after `c`, wrapping from the last position to the first.
pub fn wrap_next(c: usize, dim: usize) -> (r: usize)
    requires
        c < dim,
    ensures
        r == after(c as int, dim as int),
        r < dim,
{
    if c == dim - 1 {
        0
    } else {
        c + 1
    }
}

} // verus!
