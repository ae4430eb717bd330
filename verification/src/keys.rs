//! Why a recipe key tells what went into it: the indices of the
//! ingredients are primes, so a key has one factorisation only.

use vstd::arithmetic::div_mod::{lemma_mod_multiples_basic, lemma_truncate_middle};
use vstd::prelude::*;

use crate::nodes::Node;
use crate::resipee::{machine_factor, spec_hash, Ingredient};

verus! {

/// Whether a number is the index of an ingredient that is one.
pub open spec fn is_index_prime(p: int) -> bool {
    p == 13 || p == 17 || p == 19 || p == 23 || p == 29 || p == 31 || p == 37 || p == 41 || p == 43
        || p == 47
}

/// Whether a number is a factor that a recipe key is made of: the factor
/// of a machine or the index of an ingredient.
pub open spec fn is_key_factor(f: int) -> bool {
    f == 1 || f == 2 || f == 3 || is_index_prime(f)
}

/// 1 where the two ingredients are the same, 0 where they differ.
pub open spec fn hit(i: Ingredient, g: Ingredient) -> int {
    if i == g {
        1
    } else {
        0
    }
}

/// How often an ingredient stands among the three inputs of a recipe.
pub open spec fn times(ings: Seq<Ingredient>, g: Ingredient) -> int {
    hit(ings[0], g) + hit(ings[1], g) + hit(ings[2], g)
}

/// The times that the ten ingredients other than nothing stand among the
/// inputs, taken together.
spec fn times_any(ings: Seq<Ingredient>) -> int {
    times(ings, Ingredient::Hot) + times(ings, Ingredient::Cold) + times(ings, Ingredient::Metal)
        + times(ings, Ingredient::Milk) + times(ings, Ingredient::OtherMetal) + times(
        ings,
        Ingredient::Water,
    ) + times(ings, Ingredient::Pink) + times(ings, Ingredient::Coffee) + times(
        ings,
        Ingredient::Vodka,
    ) + times(ings, Ingredient::Cat)
}

/// The ten ingredients that are one, taken together, that an input is.
spec fn hits_any(i: Ingredient) -> int {
    hit(i, Ingredient::Hot) + hit(i, Ingredient::Cold) + hit(i, Ingredient::Metal) + hit(
        i,
        Ingredient::Milk,
    ) + hit(i, Ingredient::OtherMetal) + hit(i, Ingredient::Water) + hit(i, Ingredient::Pink)
        + hit(i, Ingredient::Coffee) + hit(i, Ingredient::Vodka) + hit(i, Ingredient::Cat)
}

/// Each input is nothing or one of the ten ingredients, never both.
proof fn lemma_nothing_or_one(i: Ingredient)
    ensures
        hit(i, Ingredient::Nothing) + hits_any(i) == 1,
{
}

/// What is nothing among three inputs is what is not an ingredient.
proof fn lemma_times_nothing(ings: Seq<Ingredient>)
    ensures
        times(ings, Ingredient::Nothing) == 3 - times_any(ings),
{
    lemma_nothing_or_one(ings[0]);
    lemma_nothing_or_one(ings[1]);
    lemma_nothing_or_one(ings[2]);
}

/// Whether two triples of inputs hold the same ingredients, each as often
/// in the one as in the other, in whatever order.
pub open spec fn rearranged(a: Seq<Ingredient>, b: Seq<Ingredient>) -> bool {
    forall|g: Ingredient| #[trigger] times(a, g) == times(b, g)
}

/// The power of `p`, up to the third, that divides `h`.
pub open spec fn power_in(h: int, p: int) -> int {
    if h % p != 0 {
        0
    } else if h % (p * p) != 0 {
        1
    } else if h % (p * p * p) != 0 {
        2
    } else {
        3
    }
}

/// `p` raised to a power from 0 to 3.
pub open spec fn raised(p: int, c: int) -> int {
    if c <= 0 {
        1
    } else if c == 1 {
        p
    } else if c == 2 {
        p * p
    } else {
        p * p * p
    }
}

/// Where 13 divides `n` times another factor of keys, it divides `n`.
proof fn lemma_prime_13(n: int, f: int)
    requires
        is_key_factor(f),
        f != 13,
        (n * f) % 13 == 0,
    ensures
        n % 13 == 0,
{
    if f == 1 {
        assert(n * 1 == n);
    } else if f == 2 {
        assert((n * 2) % 13 == 0 ==> n % 13 == 0);
    } else if f == 3 {
        assert((n * 3) % 13 == 0 ==> n % 13 == 0);
    } else if f == 17 {
        assert((n * 17) % 13 == 0 ==> n % 13 == 0);
    } else if f == 19 {
        assert((n * 19) % 13 == 0 ==> n % 13 == 0);
    } else if f == 23 {
        assert((n * 23) % 13 == 0 ==> n % 13 == 0);
    } else if f == 29 {
        assert((n * 29) % 13 == 0 ==> n % 13 == 0);
    } else if f == 31 {
        assert((n * 31) % 13 == 0 ==> n % 13 == 0);
    } else if f == 37 {
        assert((n * 37) % 13 == 0 ==> n % 13 == 0);
    } else if f == 41 {
        assert((n * 41) % 13 == 0 ==> n % 13 == 0);
    } else if f == 43 {
        assert((n * 43) % 13 == 0 ==> n % 13 == 0);
    } else if f == 47 {
        assert((n * 47) % 13 == 0 ==> n % 13 == 0);
    }
}

/// Where 17 divides `n` times another factor of keys, it divides `n`.
proof fn lemma_prime_17(n: int, f: int)
    requires
        is_key_factor(f),
        f != 17,
        (n * f) % 17 == 0,
    ensures
        n % 17 == 0,
{
    if f == 1 {
        assert(n * 1 == n);
    } else if f == 2 {
        assert((n * 2) % 17 == 0 ==> n % 17 == 0);
    } else if f == 3 {
        assert((n * 3) % 17 == 0 ==> n % 17 == 0);
    } else if f == 13 {
        assert((n * 13) % 17 == 0 ==> n % 17 == 0);
    } else if f == 19 {
        assert((n * 19) % 17 == 0 ==> n % 17 == 0);
    } else if f == 23 {
        assert((n * 23) % 17 == 0 ==> n % 17 == 0);
    } else if f == 29 {
        assert((n * 29) % 17 == 0 ==> n % 17 == 0);
    } else if f == 31 {
        assert((n * 31) % 17 == 0 ==> n % 17 == 0);
    } else if f == 37 {
        assert((n * 37) % 17 == 0 ==> n % 17 == 0);
    } else if f == 41 {
        assert((n * 41) % 17 == 0 ==> n % 17 == 0);
    } else if f == 43 {
        assert((n * 43) % 17 == 0 ==> n % 17 == 0);
    } else if f == 47 {
        assert((n * 47) % 17 == 0 ==> n % 17 == 0);
    }
}

/// Where 19 divides `n` times another factor of keys, it divides `n`.
proof fn lemma_prime_19(n: int, f: int)
    requires
        is_key_factor(f),
        f != 19,
        (n * f) % 19 == 0,
    ensures
        n % 19 == 0,
{
    if f == 1 {
        assert(n * 1 == n);
    } else if f == 2 {
        assert((n * 2) % 19 == 0 ==> n % 19 == 0);
    } else if f == 3 {
        assert((n * 3) % 19 == 0 ==> n % 19 == 0);
    } else if f == 13 {
        assert((n * 13) % 19 == 0 ==> n % 19 == 0);
    } else if f == 17 {
        assert((n * 17) % 19 == 0 ==> n % 19 == 0);
    } else if f == 23 {
        assert((n * 23) % 19 == 0 ==> n % 19 == 0);
    } else if f == 29 {
        assert((n * 29) % 19 == 0 ==> n % 19 == 0);
    } else if f == 31 {
        assert((n * 31) % 19 == 0 ==> n % 19 == 0);
    } else if f == 37 {
        assert((n * 37) % 19 == 0 ==> n % 19 == 0);
    } else if f == 41 {
        assert((n * 41) % 19 == 0 ==> n % 19 == 0);
    } else if f == 43 {
        assert((n * 43) % 19 == 0 ==> n % 19 == 0);
    } else if f == 47 {
        assert((n * 47) % 19 == 0 ==> n % 19 == 0);
    }
}

/// Where 23 divides `n` times another factor of keys, it divides `n`.
proof fn lemma_prime_23(n: int, f: int)
    requires
        is_key_factor(f),
        f != 23,
        (n * f) % 23 == 0,
    ensures
        n % 23 == 0,
{
    if f == 1 {
        assert(n * 1 == n);
    } else if f == 2 {
        assert((n * 2) % 23 == 0 ==> n % 23 == 0);
    } else if f == 3 {
        assert((n * 3) % 23 == 0 ==> n % 23 == 0);
    } else if f == 13 {
        assert((n * 13) % 23 == 0 ==> n % 23 == 0);
    } else if f == 17 {
        assert((n * 17) % 23 == 0 ==> n % 23 == 0);
    } else if f == 19 {
        assert((n * 19) % 23 == 0 ==> n % 23 == 0);
    } else if f == 29 {
        assert((n * 29) % 23 == 0 ==> n % 23 == 0);
    } else if f == 31 {
        assert((n * 31) % 23 == 0 ==> n % 23 == 0);
    } else if f == 37 {
        assert((n * 37) % 23 == 0 ==> n % 23 == 0);
    } else if f == 41 {
        assert((n * 41) % 23 == 0 ==> n % 23 == 0);
    } else if f == 43 {
        assert((n * 43) % 23 == 0 ==> n % 23 == 0);
    } else if f == 47 {
        assert((n * 47) % 23 == 0 ==> n % 23 == 0);
    }
}

/// Where 29 divides `n` times another factor of keys, it divides `n`.
proof fn lemma_prime_29(n: int, f: int)
    requires
        is_key_factor(f),
        f != 29,
        (n * f) % 29 == 0,
    ensures
        n % 29 == 0,
{
    if f == 1 {
        assert(n * 1 == n);
    } else if f == 2 {
        assert((n * 2) % 29 == 0 ==> n % 29 == 0);
    } else if f == 3 {
        assert((n * 3) % 29 == 0 ==> n % 29 == 0);
    } else if f == 13 {
        assert((n * 13) % 29 == 0 ==> n % 29 == 0);
    } else if f == 17 {
        assert((n * 17) % 29 == 0 ==> n % 29 == 0);
    } else if f == 19 {
        assert((n * 19) % 29 == 0 ==> n % 29 == 0);
    } else if f == 23 {
        assert((n * 23) % 29 == 0 ==> n % 29 == 0);
    } else if f == 31 {
        assert((n * 31) % 29 == 0 ==> n % 29 == 0);
    } else if f == 37 {
        assert((n * 37) % 29 == 0 ==> n % 29 == 0);
    } else if f == 41 {
        assert((n * 41) % 29 == 0 ==> n % 29 == 0);
    } else if f == 43 {
        assert((n * 43) % 29 == 0 ==> n % 29 == 0);
    } else if f == 47 {
        assert((n * 47) % 29 == 0 ==> n % 29 == 0);
    }
}

/// Where 31 divides `n` times another factor of keys, it divides `n`.
proof fn lemma_prime_31(n: int, f: int)
    requires
        is_key_factor(f),
        f != 31,
        (n * f) % 31 == 0,
    ensures
        n % 31 == 0,
{
    if f == 1 {
        assert(n * 1 == n);
    } else if f == 2 {
        assert((n * 2) % 31 == 0 ==> n % 31 == 0);
    } else if f == 3 {
        assert((n * 3) % 31 == 0 ==> n % 31 == 0);
    } else if f == 13 {
        assert((n * 13) % 31 == 0 ==> n % 31 == 0);
    } else if f == 17 {
        assert((n * 17) % 31 == 0 ==> n % 31 == 0);
    } else if f == 19 {
        assert((n * 19) % 31 == 0 ==> n % 31 == 0);
    } else if f == 23 {
        assert((n * 23) % 31 == 0 ==> n % 31 == 0);
    } else if f == 29 {
        assert((n * 29) % 31 == 0 ==> n % 31 == 0);
    } else if f == 37 {
        assert((n * 37) % 31 == 0 ==> n % 31 == 0);
    } else if f == 41 {
        assert((n * 41) % 31 == 0 ==> n % 31 == 0);
    } else if f == 43 {
        assert((n * 43) % 31 == 0 ==> n % 31 == 0);
    } else if f == 47 {
        assert((n * 47) % 31 == 0 ==> n % 31 == 0);
    }
}

/// Where 37 divides `n` times another factor of keys, it divides `n`.
proof fn lemma_prime_37(n: int, f: int)
    requires
        is_key_factor(f),
        f != 37,
        (n * f) % 37 == 0,
    ensures
        n % 37 == 0,
{
    if f == 1 {
        assert(n * 1 == n);
    } else if f == 2 {
        assert((n * 2) % 37 == 0 ==> n % 37 == 0);
    } else if f == 3 {
        assert((n * 3) % 37 == 0 ==> n % 37 == 0);
    } else if f == 13 {
        assert((n * 13) % 37 == 0 ==> n % 37 == 0);
    } else if f == 17 {
        assert((n * 17) % 37 == 0 ==> n % 37 == 0);
    } else if f == 19 {
        assert((n * 19) % 37 == 0 ==> n % 37 == 0);
    } else if f == 23 {
        assert((n * 23) % 37 == 0 ==> n % 37 == 0);
    } else if f == 29 {
        assert((n * 29) % 37 == 0 ==> n % 37 == 0);
    } else if f == 31 {
        assert((n * 31) % 37 == 0 ==> n % 37 == 0);
    } else if f == 41 {
        assert((n * 41) % 37 == 0 ==> n % 37 == 0);
    } else if f == 43 {
        assert((n * 43) % 37 == 0 ==> n % 37 == 0);
    } else if f == 47 {
        assert((n * 47) % 37 == 0 ==> n % 37 == 0);
    }
}

/// Where 41 divides `n` times another factor of keys, it divides `n`.
proof fn lemma_prime_41(n: int, f: int)
    requires
        is_key_factor(f),
        f != 41,
        (n * f) % 41 == 0,
    ensures
        n % 41 == 0,
{
    if f == 1 {
        assert(n * 1 == n);
    } else if f == 2 {
        assert((n * 2) % 41 == 0 ==> n % 41 == 0);
    } else if f == 3 {
        assert((n * 3) % 41 == 0 ==> n % 41 == 0);
    } else if f == 13 {
        assert((n * 13) % 41 == 0 ==> n % 41 == 0);
    } else if f == 17 {
        assert((n * 17) % 41 == 0 ==> n % 41 == 0);
    } else if f == 19 {
        assert((n * 19) % 41 == 0 ==> n % 41 == 0);
    } else if f == 23 {
        assert((n * 23) % 41 == 0 ==> n % 41 == 0);
    } else if f == 29 {
        assert((n * 29) % 41 == 0 ==> n % 41 == 0);
    } else if f == 31 {
        assert((n * 31) % 41 == 0 ==> n % 41 == 0);
    } else if f == 37 {
        assert((n * 37) % 41 == 0 ==> n % 41 == 0);
    } else if f == 43 {
        assert((n * 43) % 41 == 0 ==> n % 41 == 0);
    } else if f == 47 {
        assert((n * 47) % 41 == 0 ==> n % 41 == 0);
    }
}

/// Where 43 divides `n` times another factor of keys, it divides `n`.
proof fn lemma_prime_43(n: int, f: int)
    requires
        is_key_factor(f),
        f != 43,
        (n * f) % 43 == 0,
    ensures
        n % 43 == 0,
{
    if f == 1 {
        assert(n * 1 == n);
    } else if f == 2 {
        assert((n * 2) % 43 == 0 ==> n % 43 == 0);
    } else if f == 3 {
        assert((n * 3) % 43 == 0 ==> n % 43 == 0);
    } else if f == 13 {
        assert((n * 13) % 43 == 0 ==> n % 43 == 0);
    } else if f == 17 {
        assert((n * 17) % 43 == 0 ==> n % 43 == 0);
    } else if f == 19 {
        assert((n * 19) % 43 == 0 ==> n % 43 == 0);
    } else if f == 23 {
        assert((n * 23) % 43 == 0 ==> n % 43 == 0);
    } else if f == 29 {
        assert((n * 29) % 43 == 0 ==> n % 43 == 0);
    } else if f == 31 {
        assert((n * 31) % 43 == 0 ==> n % 43 == 0);
    } else if f == 37 {
        assert((n * 37) % 43 == 0 ==> n % 43 == 0);
    } else if f == 41 {
        assert((n * 41) % 43 == 0 ==> n % 43 == 0);
    } else if f == 47 {
        assert((n * 47) % 43 == 0 ==> n % 43 == 0);
    }
}

/// Where 47 divides `n` times another factor of keys, it divides `n`.
proof fn lemma_prime_47(n: int, f: int)
    requires
        is_key_factor(f),
        f != 47,
        (n * f) % 47 == 0,
    ensures
        n % 47 == 0,
{
    if f == 1 {
        assert(n * 1 == n);
    } else if f == 2 {
        assert((n * 2) % 47 == 0 ==> n % 47 == 0);
    } else if f == 3 {
        assert((n * 3) % 47 == 0 ==> n % 47 == 0);
    } else if f == 13 {
        assert((n * 13) % 47 == 0 ==> n % 47 == 0);
    } else if f == 17 {
        assert((n * 17) % 47 == 0 ==> n % 47 == 0);
    } else if f == 19 {
        assert((n * 19) % 47 == 0 ==> n % 47 == 0);
    } else if f == 23 {
        assert((n * 23) % 47 == 0 ==> n % 47 == 0);
    } else if f == 29 {
        assert((n * 29) % 47 == 0 ==> n % 47 == 0);
    } else if f == 31 {
        assert((n * 31) % 47 == 0 ==> n % 47 == 0);
    } else if f == 37 {
        assert((n * 37) % 47 == 0 ==> n % 47 == 0);
    } else if f == 41 {
        assert((n * 41) % 47 == 0 ==> n % 47 == 0);
    } else if f == 43 {
        assert((n * 43) % 47 == 0 ==> n % 47 == 0);
    }
}

/// A factor of a key brings no prime but itself: where the prime index `p`
/// does not divide `n`, it does not divide `n` times another factor.
proof fn lemma_factor_brings_no_prime(n: int, f: int, p: int)
    requires
        is_index_prime(p),
        is_key_factor(f),
        f != p,
        n % p != 0,
    ensures
        (n * f) % p != 0,
{
    if (n * f) % p == 0 {
        if p == 13 {
            lemma_prime_13(n, f);
        } else if p == 17 {
            lemma_prime_17(n, f);
        } else if p == 19 {
            lemma_prime_19(n, f);
        } else if p == 23 {
            lemma_prime_23(n, f);
        } else if p == 29 {
            lemma_prime_29(n, f);
        } else if p == 31 {
            lemma_prime_31(n, f);
        } else if p == 37 {
            lemma_prime_37(n, f);
        } else if p == 41 {
            lemma_prime_41(n, f);
        } else if p == 43 {
            lemma_prime_43(n, f);
        } else if p == 47 {
            lemma_prime_47(n, f);
        }
    }
}

/// A number that `p` does not divide, times a power of `p`, holds just
/// that power of `p`.
proof fn lemma_power_in_product(u: int, p: int, c: int)
    requires
        p > 1,
        u > 0,
        u % p != 0,
        0 <= c <= 3,
    ensures
        power_in(u * raised(p, c), p) == c,
{
    let h = u * raised(p, c);
    if c == 0 {
        assert(u * 1 == u);
    } else if c == 1 {
        lemma_mod_multiples_basic(u, p);
        assert(p * p > 0) by (nonlinear_arith)
            requires
                p > 1,
        ;
        lemma_truncate_middle(u, p, p);
        assert(p * u == u * p) by (nonlinear_arith);
        assert(p * (u % p) != 0) by (nonlinear_arith)
            requires
                p > 1,
                u % p != 0,
        ;
    } else if c == 2 {
        let pp = p * p;
        assert(pp > 1) by (nonlinear_arith)
            requires
                p > 1,
                pp == p * p,
        ;
        assert(h == (u * p) * p && h == u * pp && h == pp * u) by (nonlinear_arith)
            requires
                h == u * (p * p),
                pp == p * p,
        ;
        lemma_mod_multiples_basic(u * p, p);
        lemma_mod_multiples_basic(u, pp);
        lemma_truncate_middle(u, pp, p);
        assert(pp * p == p * p * p);
        assert(pp * (u % p) != 0) by (nonlinear_arith)
            requires
                pp > 1,
                u % p != 0,
        ;
    } else {
        let pp = p * p;
        let ppp = p * p * p;
        assert(pp > 1 && ppp > 1) by (nonlinear_arith)
            requires
                p > 1,
                pp == p * p,
                ppp == p * p * p,
        ;
        assert(h == (u * pp) * p && h == (u * p) * pp && h == u * ppp) by (nonlinear_arith)
            requires
                h == u * (p * p * p),
                pp == p * p,
                ppp == p * p * p,
        ;
        lemma_mod_multiples_basic(u * pp, p);
        lemma_mod_multiples_basic(u * p, pp);
        lemma_mod_multiples_basic(u, ppp);
    }
}

/// What is left of an index when the prime `p` is taken out of it.
spec fn without(i: int, p: int) -> int {
    if i == p {
        1
    } else {
        i
    }
}

/// The index tells the ingredient: two ingredients with the same index are
/// the same, and the index of each is a factor of keys.
pub proof fn lemma_index_tells(i: Ingredient, g: Ingredient)
    ensures
        i.spec_index() == g.spec_index() <==> i == g,
        is_key_factor(i.spec_index() as int),
        i != Ingredient::Nothing ==> is_index_prime(i.spec_index() as int),
{
}

/// One more factor in a product either raises the power of `p` in it by
/// one, or goes to the part that `p` does not divide.
proof fn lemma_one_more_factor(v: int, u: int, c: int, i: int, p: int)
    requires
        v == u * raised(p, c),
        0 <= c <= 2,
    ensures
        v * i == (u * without(i, p)) * raised(
            p,
            c + if i == p {
                1int
            } else {
                0int
            },
        ),
{
    let r = raised(p, c);
    if i == p {
        let r1 = raised(p, c + 1);
        assert(r * p == r1) by (nonlinear_arith)
            requires
                0 <= c <= 2,
                r == (if c <= 0 {
                    1
                } else if c == 1 {
                    p
                } else {
                    p * p
                }),
                r1 == (if c == 0 {
                    p
                } else if c == 1 {
                    p * p
                } else {
                    p * p * p
                }),
        ;
        assert((u * r) * p == (u * 1) * (r * p)) by (nonlinear_arith);
    } else {
        assert((u * r) * i == (u * i) * r) by (nonlinear_arith);
    }
}

/// A key holds the index of an ingredient as a factor as often as the
/// ingredient stands among the inputs.
pub proof fn lemma_key_counts(machine: Node, ings: Seq<Ingredient>, g: Ingredient)
    requires
        g != Ingredient::Nothing,
    ensures
        power_in(spec_hash(machine, ings), g.spec_index() as int) == times(ings, g),
{
    let p = g.spec_index() as int;
    let k = machine_factor(machine);
    let i0 = ings[0].spec_index() as int;
    let i1 = ings[1].spec_index() as int;
    let i2 = ings[2].spec_index() as int;
    let c = times(ings, g);
    lemma_index_tells(ings[0], g);
    lemma_index_tells(ings[1], g);
    lemma_index_tells(ings[2], g);
    let u0 = k;
    let u1 = u0 * without(i0, p);
    let u2 = u1 * without(i1, p);
    let u3 = u2 * without(i2, p);
    assert(u0 % p != 0);
    lemma_factor_brings_no_prime(u0, without(i0, p), p);
    lemma_factor_brings_no_prime(u1, without(i1, p), p);
    lemma_factor_brings_no_prime(u2, without(i2, p), p);
    let c1 = hit(ings[0], g);
    let c2 = c1 + hit(ings[1], g);
    assert(k == u0 * raised(p, 0)) by (nonlinear_arith)
        requires
            u0 == k,
            raised(p, 0) == 1,
    ;
    lemma_one_more_factor(k, u0, 0, i0, p);
    lemma_one_more_factor(k * i0, u1, c1, i1, p);
    lemma_one_more_factor(k * i0 * i1, u2, c2, i2, p);
    assert(u3 > 0) by (nonlinear_arith)
        requires
            u3 == k * without(i0, p) * without(i1, p) * without(i2, p),
            k > 0,
            without(i0, p) > 0,
            without(i1, p) > 0,
            without(i2, p) > 0,
    ;
    lemma_power_in_product(u3, p, c);
}

/// The order of the inputs does not show in a key: two triples that hold
/// the same ingredients have the same key in the same machine.
pub proof fn lemma_rearranged_inputs_share_key(
    machine: Node,
    a: Seq<Ingredient>,
    b: Seq<Ingredient>,
)
    requires
        rearranged(a, b),
    ensures
        spec_hash(machine, a) == spec_hash(machine, b),
{
    assert(times(a, a[0]) == times(b, a[0]));
    assert(times(a, a[1]) == times(b, a[1]));
    assert(times(a, a[2]) == times(b, a[2]));
    let k = machine_factor(machine);
    let a0 = a[0].spec_index() as int;
    let a1 = a[1].spec_index() as int;
    let a2 = a[2].spec_index() as int;
    assert(k * a0 * a1 * a2 == k * a0 * a2 * a1 && k * a0 * a1 * a2 == k * a1 * a0 * a2 && k * a0
        * a1 * a2 == k * a1 * a2 * a0 && k * a0 * a1 * a2 == k * a2 * a0 * a1 && k * a0 * a1 * a2
        == k * a2 * a1 * a0) by (nonlinear_arith);
}

/// Keys do not collide: two keys are equal only where the machines are of
/// the same kind and the inputs hold the same ingredients, each as often in
/// the one as in the other. So two triples of inputs that differ in more
/// than their order never share a key in one kind of machine.
pub proof fn lemma_equal_keys(m1: Node, a: Seq<Ingredient>, m2: Node, b: Seq<Ingredient>)
    requires
        spec_hash(m1, a) == spec_hash(m2, b),
    ensures
        machine_factor(m1) == machine_factor(m2),
        rearranged(a, b),
{
    assert forall|g: Ingredient| g != Ingredient::Nothing implies times(a, g) == times(b, g) by {
        lemma_key_counts(m1, a, g);
        lemma_key_counts(m2, b, g);
    }
    lemma_times_nothing(a);
    lemma_times_nothing(b);
    assert(rearranged(a, b));
    lemma_rearranged_inputs_share_key(m2, a, b);
    crate::resipee::lemma_hash_range(m2, b);
    let k1 = machine_factor(m1);
    let k2 = machine_factor(m2);
    let rest = a[0].spec_index() * a[1].spec_index() * a[2].spec_index();
    assert(k1 == k2) by (nonlinear_arith)
        requires
            k1 * a[0].spec_index() * a[1].spec_index() * a[2].spec_index() == k2
                * a[0].spec_index() * a[1].spec_index() * a[2].spec_index(),
            k2 * a[0].spec_index() * a[1].spec_index() * a[2].spec_index() >= 2,
            2 <= k1 <= 3,
            2 <= k2 <= 3,
    ;
}

} // verus!
