//! Powers of two and numbers that wrap around.

use vstd::arithmetic::div_mod::*;
use vstd::arithmetic::power2::*;
use vstd::prelude::*;

verus! {

/// Whether a number is a power of two.
pub open spec fn power_of_two(n: nat) -> bool {
    exists|k: nat| n == #[trigger] pow2(k)
}

/// Decides whether a number is a power of two.
pub fn is_power_of_two(n: u32) -> (r: bool)
    ensures
        r == power_of_two(n as nat),
{
    let mut p: u64 = 1;
    let ghost mut k: nat = 0;
    proof {
        lemma2_to64();
    }
    while p < n as u64
        invariant
            p == pow2(k),
            k <= 32,
            k > 0 ==> pow2((k - 1) as nat) < n,
            p <= 0x1_0000_0000,
        decreases 0x1_0000_0000 - p,
    {
        proof {
            lemma_pow2_unfold(k + 1);
            lemma2_to64();
            if k >= 32 {
                assert(p == pow2(32));
            }
            if k + 1 < 32 {
                lemma_pow2_strictly_increases(k + 1, 32);
            }
            k = k + 1;
        }
        p = 2 * p;
    }
    proof {
        if p != n as u64 {
            assert forall|j: nat| n != #[trigger] pow2(j) by {
                lemma_pow2_pos(j);
                if j < k {
                    if j < k - 1 {
                        lemma_pow2_strictly_increases(j, (k - 1) as nat);
                    }
                } else if j > k {
                    lemma_pow2_strictly_increases(k, j);
                }
            }
        }
    }
    p == n as u64
}

/// The distance from one 32 bit counter to another that runs ahead of it and may have wrapped.
pub open spec fn ahead(of: u32, from: u32) -> nat {
    ((of - from) % 0x1_0000_0000) as nat
}

/// A 32 bit counter moved on.
pub open spec fn moved(counter: u32, by: nat) -> u32 {
    ((counter + by) % 0x1_0000_0000) as u32
}

/// Computes the distance between two counters.
pub fn distance(of: u32, from: u32) -> (r: u32)
    ensures
        r == ahead(of, from),
{
    proof {
        if of >= from {
            lemma_small_mod((of - from) as nat, 0x1_0000_0000);
        } else {
            lemma_mod_add_multiples_vanish(of - from, 0x1_0000_0000);
            lemma_small_mod((of - from + 0x1_0000_0000) as nat, 0x1_0000_0000);
        }
    }
    if of >= from {
        of - from
    } else {
        (0x1_0000_0000u64 - (from - of) as u64) as u32
    }
}

/// Moves a counter on.
pub fn advance(counter: u32, by: u32) -> (r: u32)
    ensures
        r == moved(counter, by as nat),
{
    ((counter as u64 + by as u64) % 0x1_0000_0000) as u32
}

/// Moving a counter on in two steps is moving it on by both.
pub proof fn lemma_moved_twice(counter: u32, a: nat, b: nat)
    ensures
        moved(moved(counter, a), b) == moved(counter, a + b),
{
    lemma_mod_adds_left(counter + a, b as int, 0x1_0000_0000);
}

proof fn lemma_mod_adds_left(a: int, b: int, m: int)
    requires
        m > 0,
    ensures
        ((a % m) + b) % m == (a + b) % m,
{
    lemma_fundamental_div_mod(a, m);
    let q = a / m;
    assert(a % m + b == (a + b) + m * (-q)) by (nonlinear_arith)
        requires
            a == m * q + a % m,
    ;
    lemma_mod_multiples_vanish(-q, a + b, m);
}

/// A power of two that a counter can hold divides the number of its values: where a counter
/// wraps, its remainder runs on.
pub proof fn lemma_remainder_runs_on(counter: u32, by: nat, size: u32)
    requires
        size > 0,
        power_of_two(size as nat),
    ensures
        moved(counter, by) % size == (counter + by) % (size as int),
{
    let k = choose|k: nat| size == #[trigger] pow2(k);
    lemma2_to64();
    if k >= 32 {
        if k > 32 {
            lemma_pow2_strictly_increases(32, k);
        }
    }
    lemma_pow2_adds(k, (32 - k) as nat);
    let n = counter + by;
    let rest = pow2((32 - k) as nat);
    lemma_pow2_pos((32 - k) as nat);
    lemma_fundamental_div_mod(n, 0x1_0000_0000);
    let q = n / 0x1_0000_0000;
    assert(n % 0x1_0000_0000 == n + size as int * (-(rest as int * q))) by (nonlinear_arith)
        requires
            n == 0x1_0000_0000 * q + n % 0x1_0000_0000,
            size as int * rest as int == 0x1_0000_0000,
    ;
    lemma_mod_multiples_vanish(-(rest as int * q), n, size as int);
}

/// A counter that was moved on by the distance to another is that other one; and the distance
/// follows either of them.
pub proof fn lemma_distance_follows(of: u32, from: u32)
    ensures
        moved(from, ahead(of, from)) == of,
        ahead(of, from) < 0xffff_ffff ==> ahead(moved(of, 1), from) == ahead(of, from) + 1,
        ahead(of, from) > 0 ==> ahead(of, moved(from, 1)) == ahead(of, from) - 1,
        ahead(of, from) == 0 <==> of == from,
{
}

/// Moving the counter behind on shrinks the distance.
pub proof fn lemma_distance_shrinks(of: u32, from: u32, by: nat)
    requires
        by <= ahead(of, from),
    ensures
        ahead(of, moved(from, by)) == ahead(of, from) - by,
    decreases by,
{
    if by > 0 {
        lemma_distance_shrinks(of, from, (by - 1) as nat);
        lemma_moved_twice(from, (by - 1) as nat, 1);
        lemma_distance_follows(of, moved(from, (by - 1) as nat));
    }
}

/// The remainder of a counter that was moved on, and of what is behind it.
pub proof fn lemma_slot_runs_on(counter: u32, by: nat, i: nat, size: u32)
    requires
        size > 0,
        power_of_two(size as nat),
    ensures
        (moved(counter, by) + i) % (size as int) == (counter + by + i) % (size as int),
{
    lemma_remainder_runs_on(counter, by, size);
    lemma_mod_adds_left(moved(counter, by) as int, i as int, size as int);
    lemma_mod_adds_left(counter + by, i as int, size as int);
}

/// Numbers less than a size apart have different remainders.
pub proof fn lemma_remainders_differ(a: int, b: int, size: int)
    requires
        size > 0,
        a < b < a + size,
    ensures
        a % size != b % size,
{
    if a % size == b % size {
        lemma_fundamental_div_mod(a, size);
        lemma_fundamental_div_mod(b, size);
        let qa = a / size;
        let qb = b / size;
        assert(b - a == size * (qb - qa)) by (nonlinear_arith)
            requires
                a == size * qa + a % size,
                b == size * qb + b % size,
                a % size == b % size,
        ;
        assert(false) by (nonlinear_arith)
            requires
                0 < b - a < size,
                b - a == size * (qb - qa),
        ;
    }
}

} // verus!
