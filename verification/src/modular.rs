//! Congruence modulo the group order, for the proofs about logarithms.

use vstd::prelude::*;
use vstd::arithmetic::div_mod::{
    lemma_add_mod_noop, lemma_mod_bound, lemma_mod_twice, lemma_mul_mod_noop_general,
    lemma_small_mod, lemma_sub_mod_noop,
};
use crate::scalar::group_order;
use crate::ristretto::{log_add, log_mul, log_sub};

verus! {

/// Whether `a` and `b` leave the same remainder modulo the group order.
pub open spec fn congruent(a: int, b: int) -> bool {
    a % (group_order() as int) == b % (group_order() as int)
}

/// A remainder is congruent to the number it was taken of, and lies below the order.
pub proof fn lemma_remainder(a: int)
    ensures
        congruent(a % (group_order() as int), a),
        0 <= a % (group_order() as int) < group_order(),
{
    lemma_mod_twice(a, group_order() as int);
    lemma_mod_bound(a, group_order() as int);
}

/// Two congruent numbers that both lie below the order are equal.
pub proof fn lemma_congruent_reduced(a: int, b: int)
    requires
        congruent(a, b),
        0 <= a < group_order(),
        0 <= b < group_order(),
    ensures
        a == b,
{
    lemma_small_mod(a as nat, group_order());
    lemma_small_mod(b as nat, group_order());
}

/// Sums of congruent numbers are congruent.
pub proof fn lemma_add_congruent(a: int, a2: int, b: int, b2: int)
    requires
        congruent(a, a2),
        congruent(b, b2),
    ensures
        congruent(a + b, a2 + b2),
{
    lemma_add_mod_noop(a, b, group_order() as int);
    lemma_add_mod_noop(a2, b2, group_order() as int);
}

/// Differences of congruent numbers are congruent.
pub proof fn lemma_sub_congruent(a: int, a2: int, b: int, b2: int)
    requires
        congruent(a, a2),
        congruent(b, b2),
    ensures
        congruent(a - b, a2 - b2),
{
    lemma_sub_mod_noop(a, b, group_order() as int);
    lemma_sub_mod_noop(a2, b2, group_order() as int);
}

/// Products of congruent numbers are congruent.
pub proof fn lemma_mul_congruent(a: int, a2: int, b: int, b2: int)
    requires
        congruent(a, a2),
        congruent(b, b2),
    ensures
        congruent(a * b, a2 * b2),
{
    lemma_mul_mod_noop_general(a, b, group_order() as int);
    lemma_mul_mod_noop_general(a2, b2, group_order() as int);
}

/// The sum of two logarithms is congruent to their sum as integers, and so on for the
/// difference and the product; each of the three lies below the order.
pub proof fn lemma_log_ops(a: nat, b: nat)
    ensures
        congruent(log_add(a, b) as int, (a + b) as int),
        congruent(log_sub(a, b) as int, a - b),
        congruent(log_mul(a, b) as int, (a * b) as int),
        log_add(a, b) < group_order(),
        log_sub(a, b) < group_order(),
        log_mul(a, b) < group_order(),
{
    lemma_remainder((a + b) as int);
    lemma_remainder(a - b);
    lemma_remainder((a * b) as int);
}

/// If `a` is congruent to `x` and `b` to `y`, the sum of the logarithms `a` and `b`
/// is congruent to `x + y`.
pub proof fn lemma_log_add(a: nat, x: int, b: nat, y: int)
    requires
        congruent(a as int, x),
        congruent(b as int, y),
    ensures
        congruent(log_add(a, b) as int, x + y),
{
    lemma_log_ops(a, b);
    lemma_add_congruent(a as int, x, b as int, y);
}

/// If `a` is congruent to `x` and `b` to `y`, the difference of the logarithms `a`
/// and `b` is congruent to `x - y`.
pub proof fn lemma_log_sub(a: nat, x: int, b: nat, y: int)
    requires
        congruent(a as int, x),
        congruent(b as int, y),
    ensures
        congruent(log_sub(a, b) as int, x - y),
{
    lemma_log_ops(a, b);
    lemma_sub_congruent(a as int, x, b as int, y);
}

/// If `a` is congruent to `x` and `b` to `y`, the product of the logarithms `a` and
/// `b` is congruent to `x * y`.
pub proof fn lemma_log_mul(a: nat, x: int, b: nat, y: int)
    requires
        congruent(a as int, x),
        congruent(b as int, y),
    ensures
        congruent(log_mul(a, b) as int, x * y),
{
    lemma_log_ops(a, b);
    lemma_mul_congruent(a as int, x, b as int, y);
}

} // verus!
