//! Two's-complement arithmetic on `i32`, stated over the integers.
//!
//! Every operation here computes in the integers and then folds the result
//! back into the 32-bit range with [`wrap_i32`].

use vstd::prelude::*;
use vstd::arithmetic::div_mod::*;
use vstd::arithmetic::mul::*;
use vstd::arithmetic::power::*;

verus! {

/// The number of values an `i32` can hold.
pub open spec fn modulus() -> int {
    0x1_0000_0000
}

/// The one `i32` that differs from `x` by a multiple of 2^32.
pub open spec fn wrap_i32(x: int) -> i32 {
    let m = x % modulus();
    if m >= 0x8000_0000 {
        (m - modulus()) as i32
    } else {
        m as i32
    }
}

/// The quotient of `x` by `y`, rounded toward zero.
pub open spec fn truncated_quotient(x: int, y: int) -> int
    recommends
        y != 0,
{
    if x >= 0 && y > 0 {
        x / y
    } else if x < 0 && y < 0 {
        (-x) / (-y)
    } else if x < 0 {
        -((-x) / y)
    } else {
        -(x / (-y))
    }
}

/// `base` raised to `exp`, in the integers.
pub open spec fn power_of(base: i32, exp: u32) -> int {
    pow(base as int, exp as nat)
}

/// The quotient of `x` by `y`, rounded toward zero, in the integers.
pub open spec fn quotient_of(x: i32, y: i32) -> int
    recommends
        y != 0,
{
    truncated_quotient(x as int, y as int)
}

/// A value already in range is its own wrapping.
pub proof fn lemma_wrap_in_range(x: int)
    requires
        i32::MIN <= x <= i32::MAX,
    ensures
        wrap_i32(x) == x,
{
    if x >= 0 {
        lemma_small_mod(x as nat, modulus() as nat);
    } else {
        lemma_mod_add_multiples_vanish(x, modulus());
        lemma_small_mod((x + modulus()) as nat, modulus() as nat);
    }
}

/// Wrapping sees only the residue modulo 2^32.
pub proof fn lemma_wrap_congruent(x: int, y: int)
    requires
        x % modulus() == y % modulus(),
    ensures
        wrap_i32(x) == wrap_i32(y),
{
}

/// A wrapped value has the residue of what was wrapped.
pub proof fn lemma_wrap_residue(x: int)
    ensures
        (wrap_i32(x) as int) % modulus() == x % modulus(),
{
    let m = x % modulus();
    lemma_mod_bound(x, modulus());
    if m >= 0x8000_0000 {
        lemma_mod_add_multiples_vanish(m - modulus(), modulus());
        lemma_small_mod(m as nat, modulus() as nat);
    } else {
        lemma_small_mod(m as nat, modulus() as nat);
    }
}

/// Wrapping one factor first does not change a wrapped product.
pub proof fn lemma_wrap_mul_left(x: int, y: int)
    ensures
        wrap_i32((wrap_i32(x) as int) * y) == wrap_i32(x * y),
{
    lemma_wrap_residue(x);
    lemma_mul_mod_noop_left(wrap_i32(x) as int, y, modulus());
    lemma_mul_mod_noop_left(x, y, modulus());
}

/// Wrapping one summand first does not change a wrapped sum.
pub proof fn lemma_wrap_add_left(x: int, y: int)
    ensures
        wrap_i32((wrap_i32(x) as int) + y) == wrap_i32(x + y),
{
    lemma_wrap_residue(x);
    lemma_add_mod_noop(wrap_i32(x) as int, y, modulus());
    lemma_add_mod_noop(x, y, modulus());
}

/// The sum of two `i32`, wrapped.
pub fn wrapping_sum(x: i32, y: i32) -> (r: i32)
    ensures
        r == wrap_i32(x + y),
{
    proof {
        let s = x + y;
        if s > i32::MAX {
            lemma_mod_add_multiples_vanish(s - modulus(), modulus());
            lemma_wrap_congruent(s - modulus(), s);
            lemma_wrap_in_range(s - modulus());
        } else if s < i32::MIN {
            lemma_mod_add_multiples_vanish(s, modulus());
            lemma_wrap_congruent(s + modulus(), s);
            lemma_wrap_in_range(s + modulus());
        } else {
            lemma_wrap_in_range(s);
        }
    }
    x.wrapping_add(y)
}

/// The difference of two `i32`, wrapped.
pub fn wrapping_difference(x: i32, y: i32) -> (r: i32)
    ensures
        r == wrap_i32(x - y),
{
    proof {
        let s = x - y;
        if s > i32::MAX {
            lemma_mod_add_multiples_vanish(s - modulus(), modulus());
            lemma_wrap_congruent(s - modulus(), s);
            lemma_wrap_in_range(s - modulus());
        } else if s < i32::MIN {
            lemma_mod_add_multiples_vanish(s, modulus());
            lemma_wrap_congruent(s + modulus(), s);
            lemma_wrap_in_range(s + modulus());
        } else {
            lemma_wrap_in_range(s);
        }
    }
    x.wrapping_sub(y)
}

/// The product of two `i32`, wrapped.
pub fn wrapping_product(x: i32, y: i32) -> (r: i32)
    ensures
        r == wrap_i32(x * y),
{
    x.wrapping_mul(y)
}

/// The negation of an `i32`, wrapped: `i32::MIN` is its own negation.
pub fn wrapping_negation(x: i32) -> (r: i32)
    ensures
        r == wrap_i32(-x),
{
    wrapping_difference(0, x)
}

/// The quotient of two `i32`, rounded toward zero and wrapped:
/// `i32::MIN / -1` is `i32::MIN`.
pub fn wrapping_quotient(x: i32, y: i32) -> (r: i32)
    requires
        y != 0,
    ensures
        r == wrap_i32(truncated_quotient(x as int, y as int)),
{
    match x.checked_div(y) {
        Some(q) => {
            proof {
                lemma_wrap_in_range(q as int);
            }
            q
        },
        None => {
            proof {
                lemma_truncated_quotient_bounds(x as int, y as int);
                assert(truncated_quotient(x as int, y as int) == i32::MAX + 1);
                lemma_mod_add_multiples_vanish(i32::MIN as int, modulus());
                lemma_wrap_congruent(i32::MIN as int, i32::MAX + 1);
                lemma_wrap_in_range(i32::MIN as int);
            }
            i32::MIN
        },
    }
}

/// A truncated quotient of two `i32` leaves the range of `i32` by one at most.
pub proof fn lemma_truncated_quotient_bounds(x: int, y: int)
    requires
        i32::MIN <= x <= i32::MAX,
        i32::MIN <= y <= i32::MAX,
        y != 0,
    ensures
        i32::MIN <= truncated_quotient(x, y) <= i32::MAX + 1,
        truncated_quotient(x, y) == i32::MAX + 1 ==> x == i32::MIN && y == -1,
{
    let ax: int = if x < 0 { -x } else { x };
    let ay: int = if y < 0 { -y } else { y };
    lemma_div_pos_is_pos(ax, ay);
    lemma_div_is_ordered_by_denominator(ax, 1, ay);
    lemma_div_basics(ax);
    if ay >= 2 {
        lemma_div_is_ordered_by_denominator(ax, 2, ay);
    }
}

/// A wrapped product sees only the residue of its second factor.
pub proof fn lemma_wrap_congruent_factor(c: int, p: int, q: int)
    requires
        p % modulus() == q % modulus(),
    ensures
        wrap_i32(c * p) == wrap_i32(c * q),
{
    lemma_mul_mod_noop_right(c, p, modulus());
    lemma_mul_mod_noop_right(c, q, modulus());
}

/// Raising a wrapped square to a power: `wrap(s * s)^h` has the residue of
/// `s^(2h)`.
pub proof fn lemma_wrap_square_power(s: int, h: nat)
    ensures
        pow(wrap_i32(s * s) as int, h) % modulus() == pow(s, 2 * h) % modulus(),
{
    lemma_wrap_residue(s * s);
    lemma_pow_mod_noop(wrap_i32(s * s) as int, h, modulus());
    lemma_pow_mod_noop(s * s, h, modulus());
    lemma_square_is_pow2(s);
    lemma_pow_multiplies(s, 2, h);
}

/// One round of square-and-multiply keeps the wrapped value of
/// `acc * square^left`.
pub proof fn lemma_power_round(acc: int, square: int, left: nat)
    requires
        left > 0,
    ensures
        left % 2 == 1 ==> wrap_i32((wrap_i32(acc * square) as int) * pow(
            wrap_i32(square * square) as int,
            left / 2,
        )) == wrap_i32(acc * pow(square, left)),
        left % 2 == 0 ==> wrap_i32(acc * pow(wrap_i32(square * square) as int, left / 2))
            == wrap_i32(acc * pow(square, left)),
{
    let h = left / 2;
    let next = pow(wrap_i32(square * square) as int, h);
    lemma_wrap_square_power(square, h);
    if left % 2 == 0 {
        assert(left == 2 * h);
        lemma_wrap_congruent_factor(acc, next, pow(square, left));
    } else {
        assert(left == 2 * h + 1);
        lemma_wrap_mul_left(acc * square, next);
        lemma_wrap_congruent_factor(acc * square, next, pow(square, 2 * h));
        lemma_pow_adds(square, 1, 2 * h);
        lemma_pow1(square);
        lemma_mul_is_associative(acc, square, pow(square, 2 * h));
    }
}

/// `base` raised to `exp`, wrapped. Runs in a number of rounds that is
/// logarithmic in `exp`.
pub fn wrapping_power(base: i32, exp: u32) -> (r: i32)
    ensures
        r == wrap_i32(pow(base as int, exp as nat)),
{
    let mut acc: i32 = 1;
    let mut square: i32 = base;
    let mut left: u32 = exp;
    proof {
        lemma_mul_basics(pow(base as int, exp as nat));
    }
    while left > 0
        invariant
            wrap_i32((acc as int) * pow(square as int, left as nat)) == wrap_i32(
                pow(base as int, exp as nat),
            ),
        decreases left,
    {
        proof {
            lemma_power_round(acc as int, square as int, left as nat);
        }
        if left % 2 == 1 {
            acc = wrapping_product(acc, square);
        }
        square = wrapping_product(square, square);
        left = left / 2;
    }
    proof {
        lemma_pow0(square as int);
        lemma_mul_basics(acc as int);
        lemma_wrap_in_range(acc as int);
    }
    acc
}

} // verus!
