//! The numbers that tensor cells hold.
//!
//! The engine never looks inside a cell. Everything it needs from a number is
//! collected in the [`Scalar`] trait: each operation comes as a pair, a
//! specification function that names the mathematical result and an executable
//! method that is bound to return exactly that result. The contracts of the
//! engine are stated over the specification functions, so they hold for
//! every cell type, whether its arithmetic is exact or rounded.
//!
//! `i64` with wrapping arithmetic is the cell type provided here. Its
//! operations form a commutative ring, so the algebraic laws in
//! [`ExactScalar`] and [`RingScalar`] hold for it without exception, and the
//! theorems that rest on those laws apply to it. A cell type with rounded
//! arithmetic implements [`Scalar`] alone.

use vstd::prelude::*;
use vstd::string::*;

verus! {

/// A number that a tensor cell can hold.
///
/// The executable methods are total: none may panic or diverge.
pub trait Scalar: Sized + Copy {
    /// The cell that stands for the integer `n`.
    spec fn from_int_spec(n: i32) -> Self;

    /// The cell that stands for a number of elements.
    spec fn from_count_spec(n: usize) -> Self;

    /// The sum of two cells.
    spec fn add_spec(self, rhs: Self) -> Self;

    /// The difference of two cells.
    spec fn sub_spec(self, rhs: Self) -> Self;

    /// The product of two cells.
    spec fn mul_spec(self, rhs: Self) -> Self;

    /// The quotient of two cells.
    spec fn div_spec(self, rhs: Self) -> Self;

    /// The additive inverse of a cell.
    spec fn neg_spec(self) -> Self;

    /// A cell raised to an integer power.
    spec fn powi_spec(self, exp: i32) -> Self;

    /// Whether a cell is at least zero.
    spec fn nonnegative_spec(self) -> bool;

    /// Whether two cells compare equal.
    spec fn eq_spec(self, rhs: Self) -> bool;

    /// The text that stands for a cell.
    spec fn text_spec(self) -> String;

    /// Converts an integer to a cell.
    fn from_int(n: i32) -> (r: Self)
        ensures
            r == Self::from_int_spec(n),
    ;

    /// Converts a number of elements to a cell.
    fn from_count(n: usize) -> (r: Self)
        ensures
            r == Self::from_count_spec(n),
    ;

    /// Adds two cells.
    fn add(&self, rhs: &Self) -> (r: Self)
        ensures
            r == self.add_spec(*rhs),
    ;

    /// Subtracts `rhs` from this cell.
    fn sub(&self, rhs: &Self) -> (r: Self)
        ensures
            r == self.sub_spec(*rhs),
    ;

    /// Multiplies two cells.
    fn mul(&self, rhs: &Self) -> (r: Self)
        ensures
            r == self.mul_spec(*rhs),
    ;

    /// Divides this cell by `rhs`.
    fn div(&self, rhs: &Self) -> (r: Self)
        ensures
            r == self.div_spec(*rhs),
    ;

    /// Negates a cell.
    fn neg(&self) -> (r: Self)
        ensures
            r == self.neg_spec(),
    ;

    /// Raises a cell to an integer power.
    fn powi(&self, exp: i32) -> (r: Self)
        ensures
            r == self.powi_spec(exp),
    ;

    /// Tests whether a cell is at least zero.
    fn nonnegative(&self) -> (r: bool)
        ensures
            r == self.nonnegative_spec(),
    ;

    /// Compares two cells for equality.
    fn eq(&self, rhs: &Self) -> (r: bool)
        ensures
            r == self.eq_spec(*rhs),
    ;

    /// Writes a cell out as text.
    fn to_text(&self) -> (r: String)
        ensures
            r@ == self.text_spec()@,
    ;
}

/// The zero cell: the cell that stands for the integer 0.
pub open spec fn zero<S: Scalar>() -> S {
    S::from_int_spec(0)
}

/// The unit cell: the cell that stands for the integer 1.
pub open spec fn one<S: Scalar>() -> S {
    S::from_int_spec(1)
}

/// A cell type whose arithmetic is exact: equality is identity and adding a
/// number and taking it away again changes nothing.
///
/// Rounded arithmetic does not qualify: with 64-bit floating point,
/// `(1 + 1e16) - 1e16` is `0`, not `1`.
pub trait ExactScalar: Scalar {
    /// Two cells compare equal exactly when they are the same cell.
    proof fn lemma_eq_is_identity(a: Self, b: Self)
        ensures
            a.eq_spec(b) <==> a == b,
    ;

    /// Subtraction undoes addition.
    proof fn lemma_add_then_sub(a: Self, b: Self)
        ensures
            a.add_spec(b).sub_spec(b) == a,
    ;
}

/// A cell type whose sums and products obey the laws of a commutative ring
/// exactly.
pub trait RingScalar: Scalar {
    /// The order of the terms of a sum does not matter.
    proof fn lemma_add_commutes(a: Self, b: Self)
        ensures
            a.add_spec(b) == b.add_spec(a),
    ;

    /// The grouping of the terms of a sum does not matter.
    proof fn lemma_add_associates(a: Self, b: Self, c: Self)
        ensures
            a.add_spec(b).add_spec(c) == a.add_spec(b.add_spec(c)),
    ;

    /// Adding to zero changes nothing.
    proof fn lemma_add_zero(a: Self)
        ensures
            zero::<Self>().add_spec(a) == a,
    ;

    /// A product with zero is zero.
    proof fn lemma_mul_zero(a: Self)
        ensures
            zero::<Self>().mul_spec(a) == zero::<Self>(),
            a.mul_spec(zero::<Self>()) == zero::<Self>(),
    ;

    /// The grouping of the factors of a product does not matter.
    proof fn lemma_mul_associates(a: Self, b: Self, c: Self)
        ensures
            a.mul_spec(b).mul_spec(c) == a.mul_spec(b.mul_spec(c)),
    ;

    /// A product with a sum is the sum of the products, from either side.
    proof fn lemma_mul_distributes(a: Self, b: Self, c: Self)
        ensures
            a.mul_spec(b.add_spec(c)) == a.mul_spec(b).add_spec(a.mul_spec(c)),
            a.add_spec(b).mul_spec(c) == a.mul_spec(c).add_spec(b.mul_spec(c)),
    ;
}

/// `x` multiplied by itself `n` times in wrapping arithmetic, starting from 1.
pub open spec fn wrapping_power(x: i64, n: nat) -> i64
    decreases n,
{
    if n == 0 {
        1
    } else {
        wrapping_power(x, (n - 1) as nat).wrapping_mul(x)
    }
}

/// The quotient of two integers, rounded towards zero. Division by zero gives
/// zero, and `i64::MIN / -1` wraps around to `i64::MIN`.
pub open spec fn total_quotient(x: i64, y: i64) -> i64 {
    if y == 0 {
        0
    } else {
        match x.checked_div(y) {
            Some(q) => q,
            None => i64::MIN,
        }
    }
}

/// The distance of an exponent from zero.
pub open spec fn magnitude(exp: i32) -> nat {
    if exp < 0 {
        (-exp) as nat
    } else {
        exp as nat
    }
}

/// Computes `wrapping_power(x, n)` by repeated multiplication.
fn wrapping_power_of(x: i64, n: u32) -> (r: i64)
    ensures
        r == wrapping_power(x, n as nat),
{
    let mut acc: i64 = 1;
    let mut i: u32 = 0;
    while i < n
        invariant
            i <= n,
            acc == wrapping_power(x, i as nat),
        decreases n - i,
    {
        acc = acc.wrapping_mul(x);
        i = i + 1;
    }
    acc
}

/// Integers modulo 2^64, read as signed numbers.
impl Scalar for i64 {
    open spec fn from_int_spec(n: i32) -> Self {
        n as i64
    }

    open spec fn from_count_spec(n: usize) -> Self {
        if n <= i64::MAX {
            n as i64
        } else {
            (n - 0x1_0000_0000_0000_0000) as i64
        }
    }

    open spec fn add_spec(self, rhs: Self) -> Self {
        self.wrapping_add(rhs)
    }

    open spec fn sub_spec(self, rhs: Self) -> Self {
        self.wrapping_sub(rhs)
    }

    open spec fn mul_spec(self, rhs: Self) -> Self {
        self.wrapping_mul(rhs)
    }

    open spec fn div_spec(self, rhs: Self) -> Self {
        total_quotient(self, rhs)
    }

    open spec fn neg_spec(self) -> Self {
        0i64.wrapping_sub(self)
    }

    open spec fn powi_spec(self, exp: i32) -> Self {
        if exp >= 0 {
            wrapping_power(self, magnitude(exp))
        } else {
            total_quotient(1, wrapping_power(self, magnitude(exp)))
        }
    }

    open spec fn nonnegative_spec(self) -> bool {
        self >= 0
    }

    open spec fn eq_spec(self, rhs: Self) -> bool {
        self == rhs
    }

    /// Decimal notation, with a minus sign below zero.
    open spec fn text_spec(self) -> String {
        choose|s: String| s@ == signed_decimal(self as int)
    }

    fn from_int(n: i32) -> (r: Self) {
        n as i64
    }

    fn from_count(n: usize) -> (r: Self) {
        let wide: u64 = n as u64;
        if wide <= 0x7fff_ffff_ffff_ffff {
            wide as i64
        } else {
            let low: u64 = wide - 0x8000_0000_0000_0000;
            (low as i64).wrapping_add(i64::MIN)
        }
    }

    fn add(&self, rhs: &Self) -> (r: Self) {
        self.wrapping_add(*rhs)
    }

    fn sub(&self, rhs: &Self) -> (r: Self) {
        self.wrapping_sub(*rhs)
    }

    fn mul(&self, rhs: &Self) -> (r: Self) {
        self.wrapping_mul(*rhs)
    }

    fn div(&self, rhs: &Self) -> (r: Self) {
        if *rhs == 0 {
            0
        } else {
            match self.checked_div(*rhs) {
                Some(q) => q,
                None => i64::MIN,
            }
        }
    }

    fn neg(&self) -> (r: Self) {
        0i64.wrapping_sub(*self)
    }

    fn powi(&self, exp: i32) -> (r: Self) {
        if exp >= 0 {
            wrapping_power_of(*self, exp as u32)
        } else {
            let wide: i64 = exp as i64;
            let steps: u32 = (0 - wide) as u32;
            let power = wrapping_power_of(*self, steps);
            1i64.div(&power)
        }
    }

    fn nonnegative(&self) -> (r: bool) {
        *self >= 0
    }

    fn eq(&self, rhs: &Self) -> (r: bool) {
        *self == *rhs
    }

    fn to_text(&self) -> (r: String) {
        decimal_text(*self)
    }
}

impl ExactScalar for i64 {
    proof fn lemma_eq_is_identity(a: Self, b: Self) {
    }

    proof fn lemma_add_then_sub(a: Self, b: Self) {
    }
}

/// The character for a decimal digit.
pub open spec fn digit(d: int) -> char {
    if d == 0 {
        '0'
    } else if d == 1 {
        '1'
    } else if d == 2 {
        '2'
    } else if d == 3 {
        '3'
    } else if d == 4 {
        '4'
    } else if d == 5 {
        '5'
    } else if d == 6 {
        '6'
    } else if d == 7 {
        '7'
    } else if d == 8 {
        '8'
    } else {
        '9'
    }
}

/// A natural number in decimal notation, without leading zeros.
pub open spec fn decimal(n: nat) -> Seq<char>
    decreases n,
{
    if n < 10 {
        seq![digit(n as int)]
    } else {
        decimal(n / 10).push(digit((n % 10) as int))
    }
}

/// An integer in decimal notation, with a minus sign if it is below zero.
pub open spec fn signed_decimal(x: int) -> Seq<char> {
    if x < 0 {
        seq!['-'] + decimal((-x) as nat)
    } else {
        decimal(x as nat)
    }
}

/// The text of one decimal digit.
fn digit_text(d: u64) -> (r: &'static str)
    requires
        d < 10,
    ensures
        r@ == seq![digit(d as int)],
{
    proof {
        reveal_strlit("0");
        reveal_strlit("1");
        reveal_strlit("2");
        reveal_strlit("3");
        reveal_strlit("4");
        reveal_strlit("5");
        reveal_strlit("6");
        reveal_strlit("7");
        reveal_strlit("8");
        reveal_strlit("9");
    }
    let r = if d == 0 {
        "0"
    } else if d == 1 {
        "1"
    } else if d == 2 {
        "2"
    } else if d == 3 {
        "3"
    } else if d == 4 {
        "4"
    } else if d == 5 {
        "5"
    } else if d == 6 {
        "6"
    } else if d == 7 {
        "7"
    } else if d == 8 {
        "8"
    } else {
        "9"
    };
    assert(r@ =~= seq![digit(d as int)]);
    r
}

/// Appends the decimal notation of `n` to `out`.
fn append_decimal(n: u64, out: &mut String)
    ensures
        final(out)@ == old(out)@ + decimal(n as nat),
    decreases n,
{
    if n >= 10 {
        append_decimal(n / 10, out);
    }
    out.append(digit_text(n % 10));
    proof {
        assert(out@ =~= old(out)@ + decimal(n as nat));
    }
}

/// Writes an integer out in decimal notation.
pub fn decimal_text(x: i64) -> (r: String)
    ensures
        r@ == signed_decimal(x as int),
{
    let mut r = String::new();
    if x < 0 {
        r.append("-");
        proof {
            reveal_strlit("-");
        }
        let magnitude: u64 = if x == i64::MIN {
            0x8000_0000_0000_0000
        } else {
            (0 - x) as u64
        };
        append_decimal(magnitude, &mut r);
    } else {
        append_decimal(x as u64, &mut r);
    }
    assert(r@ =~= signed_decimal(x as int));
    r
}

/// The signed 64-bit integer that differs from `z` by a multiple of 2^64.
pub open spec fn crop(z: int) -> i64 {
    vstd::wrapping::i64_specs::signed_crop(z)
}

/// Cropping keeps the remainder modulo 2^64.
proof fn lemma_crop_keeps_residue(z: int)
    ensures
        (crop(z) as int) % 0x1_0000_0000_0000_0000 == z % 0x1_0000_0000_0000_0000,
{
    let r = z % 0x1_0000_0000_0000_0000;
    vstd::arithmetic::div_mod::lemma_mod_twice(z, 0x1_0000_0000_0000_0000);
    if r > i64::MAX {
        vstd::arithmetic::div_mod::lemma_mod_sub_multiples_vanish(r, 0x1_0000_0000_0000_0000);
    }
}

/// Integers with the same remainder modulo 2^64 crop to the same number.
proof fn lemma_crop_by_residue(y: int, z: int)
    requires
        y % 0x1_0000_0000_0000_0000 == z % 0x1_0000_0000_0000_0000,
    ensures
        crop(y) == crop(z),
{
}

/// A wrapping sum is the cropped sum.
proof fn lemma_wrapping_add_crops(a: i64, b: i64)
    ensures
        a.wrapping_add(b) == crop(a + b),
{
    let z = a + b;
    if z > i64::MAX {
        vstd::arithmetic::div_mod::lemma_small_mod(z as nat, 0x1_0000_0000_0000_0000);
    } else if z >= 0 {
        vstd::arithmetic::div_mod::lemma_small_mod(z as nat, 0x1_0000_0000_0000_0000);
    } else {
        vstd::arithmetic::div_mod::lemma_mod_add_multiples_vanish(z, 0x1_0000_0000_0000_0000);
        vstd::arithmetic::div_mod::lemma_small_mod(
            (z + 0x1_0000_0000_0000_0000) as nat,
            0x1_0000_0000_0000_0000,
        );
    }
}

impl RingScalar for i64 {
    proof fn lemma_add_commutes(a: Self, b: Self) {
    }

    proof fn lemma_add_associates(a: Self, b: Self, c: Self) {
    }

    proof fn lemma_add_zero(a: Self) {
    }

    proof fn lemma_mul_zero(a: Self) {
        assert(0 * a == 0 && a * 0 == 0);
        vstd::arithmetic::div_mod::lemma_small_mod(0, 0x1_0000_0000_0000_0000);
    }

    proof fn lemma_mul_associates(a: Self, b: Self, c: Self) {
        let m = 0x1_0000_0000_0000_0000int;
        let ab = crop(a * b) as int;
        let bc = crop(b * c) as int;
        lemma_crop_keeps_residue(a * b);
        lemma_crop_keeps_residue(b * c);
        vstd::arithmetic::div_mod::lemma_mul_mod_noop_general(ab, c as int, m);
        vstd::arithmetic::div_mod::lemma_mul_mod_noop_general(a * b, c as int, m);
        vstd::arithmetic::div_mod::lemma_mul_mod_noop_general(a as int, bc, m);
        vstd::arithmetic::div_mod::lemma_mul_mod_noop_general(a as int, b * c, m);
        assert((a * b) * c == a * (b * c)) by (nonlinear_arith);
        lemma_crop_by_residue(ab * c, a * bc);
    }

    proof fn lemma_mul_distributes(a: Self, b: Self, c: Self) {
        let m = 0x1_0000_0000_0000_0000int;
        lemma_wrapping_add_crops(b, c);
        lemma_wrapping_add_crops(a, b);
        lemma_wrapping_add_crops(crop(a * b), crop(a * c));
        lemma_wrapping_add_crops(crop(a * c), crop(b * c));
        lemma_crop_keeps_residue(b + c);
        lemma_crop_keeps_residue(a + b);
        lemma_crop_keeps_residue(a * b);
        lemma_crop_keeps_residue(a * c);
        lemma_crop_keeps_residue(b * c);
        // a * (b + c)
        vstd::arithmetic::div_mod::lemma_mul_mod_noop_general(a as int, crop(b + c) as int, m);
        vstd::arithmetic::div_mod::lemma_mul_mod_noop_general(a as int, b + c, m);
        vstd::arithmetic::div_mod::lemma_add_mod_noop(crop(a * b) as int, crop(a * c) as int, m);
        vstd::arithmetic::div_mod::lemma_add_mod_noop(a * b, a * c, m);
        assert(a * (b + c) == a * b + a * c) by (nonlinear_arith);
        lemma_crop_by_residue(a * (crop(b + c) as int), crop(a * b) + crop(a * c));
        // (a + b) * c
        vstd::arithmetic::div_mod::lemma_mul_mod_noop_general(crop(a + b) as int, c as int, m);
        vstd::arithmetic::div_mod::lemma_mul_mod_noop_general(a + b, c as int, m);
        vstd::arithmetic::div_mod::lemma_add_mod_noop(crop(a * c) as int, crop(b * c) as int, m);
        vstd::arithmetic::div_mod::lemma_add_mod_noop(a * c, b * c, m);
        assert((a + b) * c == a * c + b * c) by (nonlinear_arith);
        lemma_crop_by_residue((crop(a + b) as int) * c, crop(a * c) + crop(b * c));
    }
}

} // verus!
