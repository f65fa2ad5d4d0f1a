//! Arithmetic that the tree algorithms share: powers of three and the
//! three-way division of a size.

use vstd::prelude::*;

verus! {

/// Three to the power `e`.
#[verifier::opaque]
pub open spec fn pow3(e: nat) -> nat
    decreases e,
{
    if e == 0 {
        1
    } else {
        3 * pow3((e - 1) as nat)
    }
}

/// The first power of three is 1, and each is three times the one before.
pub proof fn lemma_pow3_step(e: nat)
    ensures
        pow3(0) == 1,
        pow3(e + 1) == 3 * pow3(e),
{
    reveal(pow3);
}

/// Powers of three grow with the exponent.
pub proof fn lemma_pow3_increases(a: nat, b: nat)
    requires
        a <= b,
    ensures
        1 <= pow3(a) <= pow3(b),
    decreases b,
{
    reveal(pow3);
    if b == 0 {
    } else if a == b {
        lemma_pow3_increases(0, (b - 1) as nat);
    } else {
        lemma_pow3_increases(a, (b - 1) as nat);
    }
}

/// The forty-first power of three is beyond every `usize`.
pub proof fn lemma_pow3_41()
    ensures
        pow3(41) == 36472996377170786403,
        pow3(41) > usize::MAX,
{
    assert(pow3(10) == 59049) by {
        reveal_with_fuel(pow3, 11);
    }
    assert(pow3(20) == 3486784401) by {
        reveal_with_fuel(pow3, 11);
    }
    assert(pow3(30) == 205891132094649) by {
        reveal_with_fuel(pow3, 11);
    }
    assert(pow3(40) == 12157665459056928801) by {
        reveal_with_fuel(pow3, 11);
    }
    assert(pow3(41) == 3 * pow3(40)) by {
        reveal(pow3);
    }
}

/// A power of three that fits in a `usize` has an exponent of at most 40.
pub proof fn lemma_pow3_fits(e: nat)
    requires
        pow3(e) <= usize::MAX,
    ensures
        e <= 40,
{
    if e >= 41 {
        lemma_pow3_41();
        lemma_pow3_increases(41, e);
    }
}

/// The least number of levels that a tree of `count` leaves needs: the
/// least exponent for which the power of three is at least `count`.
pub open spec fn levels(count: nat) -> nat
    decreases count,
{
    if count <= 1 {
        0
    } else {
        1 + levels((count + 2) / 3)
    }
}

/// There are never more levels than leaves.
pub proof fn lemma_levels_small(count: nat)
    ensures
        levels(count) <= count,
        count >= 2 ==> levels(count) < count,
    decreases count,
{
    if count > 1 {
        lemma_levels_small((count + 2) / 3);
    }
}

/// The number of levels grows with the number of leaves.
pub proof fn lemma_levels_increases(a: nat, b: nat)
    requires
        a <= b,
    ensures
        levels(a) <= levels(b),
    decreases b,
{
    if a > 1 {
        lemma_levels_increases((a + 2) / 3, (b + 2) / 3);
    }
}

/// Three to the power of the number of levels is enough for the leaves,
/// and the power before it is not.
pub proof fn lemma_levels_fit(count: nat)
    ensures
        count <= pow3(levels(count)),
        count >= 2 ==> pow3((levels(count) - 1) as nat) < count,
    decreases count,
{
    lemma_pow3_step(0);
    if count > 1 {
        let third = (count + 2) / 3;
        lemma_levels_fit(third);
        lemma_pow3_step(levels(third));
        if third >= 2 {
            lemma_pow3_step((levels(third) - 1) as nat);
        }
    }
}

/// A power of three that is enough for the leaves has an exponent of at
/// least the number of levels.
pub proof fn lemma_levels_least(count: nat, e: nat)
    requires
        count <= pow3(e),
    ensures
        levels(count) <= e,
    decreases count,
{
    lemma_pow3_step(0);
    if count > 1 {
        if e == 0 {
        } else {
            lemma_pow3_step((e - 1) as nat);
            lemma_levels_least((count + 2) / 3, (e - 1) as nat);
        }
    }
}

/// What [`triple_size`] returns: three to the power `t`, or the largest
/// `usize` where that power does not fit.
pub open spec fn spec_triple_size(t: nat) -> nat {
    if pow3(t) <= usize::MAX {
        pow3(t)
    } else {
        usize::MAX as nat
    }
}

/// Three to the power `t`, held at the largest `usize` where the power is
/// larger than that. No tree is larger either, so a comparison of a tree's
/// size with the result comes out as it would with the power itself.
pub fn triple_size(t: u8) -> (n: usize)
    ensures
        n == spec_triple_size(t as nat),
{
    let mut n: usize = 1;
    let mut i: u8 = 0;
    proof {
        lemma_pow3_step(0);
    }
    while i < t
        invariant
            i <= t,
            n == pow3(i as nat),
        decreases t - i,
    {
        proof {
            lemma_pow3_step(i as nat);
        }
        if n > usize::MAX / 3 {
            proof {
                lemma_pow3_increases((i + 1) as nat, t as nat);
            }
            return usize::MAX;
        }
        n = n * 3;
        i = i + 1;
    }
    n
}

/// What [`divide_ternary_sizes`] returns, as three numbers that add up to
/// `size`: equal thirds, with a remainder of one added to the middle and a
/// remainder of two shared by the two sides.
pub open spec fn spec_divide(size: nat) -> (nat, nat, nat) {
    let group = size / 3;
    if size % 3 == 0 {
        (group, group, group)
    } else if size % 3 == 1 {
        (group, group + 1, group)
    } else {
        ((group + 1) as nat, group, (group + 1) as nat)
    }
}

/// Divides `size` into three parts that differ by at most one, the two
/// sides being equal.
pub fn divide_ternary_sizes(size: usize) -> (parts: (usize, usize, usize))
    ensures
        (parts.0 as nat, parts.1 as nat, parts.2 as nat) == spec_divide(size as nat),
        parts.0 + parts.1 + parts.2 == size,
{
    let group_size = size / 3;
    let extra = size - group_size * 3;
    if extra == 0 {
        (group_size, group_size, group_size)
    } else if extra == 1 {
        (group_size, group_size + 1, group_size)
    } else {
        (group_size + 1, group_size, group_size + 1)
    }
}

} // verus!
