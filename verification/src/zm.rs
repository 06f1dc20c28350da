use vstd::prelude::*;
use vstd::math::abs;
use crate::point::lemma_mul_bound;

verus! {

/// Remainder with the sign of the dividend, as the machine `%` computes
/// it.
pub open spec fn trunc_rem(a: int, n: int) -> int {
    if a >= 0 {
        a % (abs(n) as int)
    } else {
        -((-a) % (abs(n) as int))
    }
}

/// The value `((i % n) + n) % n` under the truncated remainder: the
/// canonical representative of `i` in the `Z^m` number system, lying in
/// `[0, m)` when `m > 0` and in `(m, 0]` when `m < 0`.
pub open spec fn zm_modulo(i: int, n: int) -> int {
    trunc_rem(trunc_rem(i, n) + n, n)
}

/// Truncated remainder on `i64`, computed through unsigned division so
/// that no intermediate value overflows.
fn rem_trunc_i64(a: i64, n: i64) -> (r: i64)
    requires
        n != 0,
        a != i64::MIN,
        n != i64::MIN,
    ensures
        r as int == trunc_rem(a as int, n as int),
        -(abs(n as int) as int) < r as int,
        (r as int) < abs(n as int) as int,
        a >= 0 ==> r >= 0,
        a < 0 ==> r <= 0,
{
    let ua: u64 = (if a >= 0 {
        a
    } else {
        -a
    }) as u64;
    let un: u64 = (if n >= 0 {
        n
    } else {
        -n
    }) as u64;
    let rm: u64 = ua % un;
    if a >= 0 {
        rm as i64
    } else {
        -(rm as i64)
    }
}

/// Scalar types admissible in the `Z^m` number system: an exact view to
/// the integers and remainder arithmetic carried out without overflow.
pub trait Modulo: Sized + Copy {
    /// The mathematical value of the scalar.
    spec fn as_int(self) -> int;

    /// `((self % n) + n) % n` under the machine's truncated remainder.
    fn modulo(self, n: Self) -> (r: Self)
        requires
            n.as_int() != 0,
        ensures
            r.as_int() == zm_modulo(self.as_int(), n.as_int()),
    ;

    /// The canonical representative of the sum `self + other`.
    fn add_mod(self, other: Self, n: Self) -> (r: Self)
        requires
            n.as_int() != 0,
        ensures
            r.as_int() == zm_modulo(self.as_int() + other.as_int(), n.as_int()),
    ;

    /// The canonical representative of the difference `self - other`.
    fn sub_mod(self, other: Self, n: Self) -> (r: Self)
        requires
            n.as_int() != 0,
        ensures
            r.as_int() == zm_modulo(self.as_int() - other.as_int(), n.as_int()),
    ;

    /// The canonical representative of the product `self * other`.
    fn mul_mod(self, other: Self, n: Self) -> (r: Self)
        requires
            n.as_int() != 0,
        ensures
            r.as_int() == zm_modulo(self.as_int() * other.as_int(), n.as_int()),
    ;
}

impl Modulo for i8 {
    open spec fn as_int(self) -> int {
        self as int
    }

    fn modulo(self, n: Self) -> (r: Self) {
        let x = rem_trunc_i64(self as i64, n as i64);
        let y = rem_trunc_i64(x + n as i64, n as i64);
        y as i8
    }

    fn add_mod(self, other: Self, n: Self) -> (r: Self) {
        let x = rem_trunc_i64(self as i64 + other as i64, n as i64);
        let y = rem_trunc_i64(x + n as i64, n as i64);
        y as i8
    }

    fn sub_mod(self, other: Self, n: Self) -> (r: Self) {
        let x = rem_trunc_i64(self as i64 - other as i64, n as i64);
        let y = rem_trunc_i64(x + n as i64, n as i64);
        y as i8
    }

    fn mul_mod(self, other: Self, n: Self) -> (r: Self) {
        proof {
            lemma_mul_bound(self as int, other as int, 128, 128);
        }
        let x = rem_trunc_i64(self as i64 * other as i64, n as i64);
        let y = rem_trunc_i64(x + n as i64, n as i64);
        y as i8
    }
}

impl Modulo for i16 {
    open spec fn as_int(self) -> int {
        self as int
    }

    fn modulo(self, n: Self) -> (r: Self) {
        let x = rem_trunc_i64(self as i64, n as i64);
        let y = rem_trunc_i64(x + n as i64, n as i64);
        y as i16
    }

    fn add_mod(self, other: Self, n: Self) -> (r: Self) {
        let x = rem_trunc_i64(self as i64 + other as i64, n as i64);
        let y = rem_trunc_i64(x + n as i64, n as i64);
        y as i16
    }

    fn sub_mod(self, other: Self, n: Self) -> (r: Self) {
        let x = rem_trunc_i64(self as i64 - other as i64, n as i64);
        let y = rem_trunc_i64(x + n as i64, n as i64);
        y as i16
    }

    fn mul_mod(self, other: Self, n: Self) -> (r: Self) {
        proof {
            lemma_mul_bound(self as int, other as int, 32768, 32768);
        }
        let x = rem_trunc_i64(self as i64 * other as i64, n as i64);
        let y = rem_trunc_i64(x + n as i64, n as i64);
        y as i16
    }
}

impl Modulo for i32 {
    open spec fn as_int(self) -> int {
        self as int
    }

    fn modulo(self, n: Self) -> (r: Self) {
        let x = rem_trunc_i64(self as i64, n as i64);
        let y = rem_trunc_i64(x + n as i64, n as i64);
        y as i32
    }

    fn add_mod(self, other: Self, n: Self) -> (r: Self) {
        let x = rem_trunc_i64(self as i64 + other as i64, n as i64);
        let y = rem_trunc_i64(x + n as i64, n as i64);
        y as i32
    }

    fn sub_mod(self, other: Self, n: Self) -> (r: Self) {
        let x = rem_trunc_i64(self as i64 - other as i64, n as i64);
        let y = rem_trunc_i64(x + n as i64, n as i64);
        y as i32
    }

    fn mul_mod(self, other: Self, n: Self) -> (r: Self) {
        proof {
            lemma_mul_bound(self as int, other as int, 2147483648, 2147483648);
        }
        let x = rem_trunc_i64(self as i64 * other as i64, n as i64);
        let y = rem_trunc_i64(x + n as i64, n as i64);
        y as i32
    }
}

impl Modulo for u8 {
    open spec fn as_int(self) -> int {
        self as int
    }

    fn modulo(self, n: Self) -> (r: Self) {
        let x = rem_trunc_i64(self as i64, n as i64);
        let y = rem_trunc_i64(x + n as i64, n as i64);
        y as u8
    }

    fn add_mod(self, other: Self, n: Self) -> (r: Self) {
        let x = rem_trunc_i64(self as i64 + other as i64, n as i64);
        let y = rem_trunc_i64(x + n as i64, n as i64);
        y as u8
    }

    fn sub_mod(self, other: Self, n: Self) -> (r: Self) {
        let x = rem_trunc_i64(self as i64 - other as i64, n as i64);
        let y = rem_trunc_i64(x + n as i64, n as i64);
        y as u8
    }

    fn mul_mod(self, other: Self, n: Self) -> (r: Self) {
        proof {
            lemma_mul_bound(self as int, other as int, 255, 255);
        }
        let x = rem_trunc_i64(self as i64 * other as i64, n as i64);
        let y = rem_trunc_i64(x + n as i64, n as i64);
        y as u8
    }
}

/// A number in the `Z^m` system: the modulus together with the canonical
/// representative of the value.
#[derive(Debug, Clone, Copy)]
pub struct Mod<T> {
    pub modulo: T,
    pub i: T,
}

impl<T: Modulo> Mod<T> {
    /// Wraps `i` as its canonical representative in `Z^modulo`.
    pub fn new(modulo: T, i: T) -> (r: Mod<T>)
        requires
            modulo.as_int() != 0,
        ensures
            r.modulo == modulo,
            r.i.as_int() == zm_modulo(i.as_int(), modulo.as_int()),
    {
        Mod { modulo, i: i.modulo(modulo) }
    }

    /// Sum in `Z^modulo`; the modulus of the left operand is kept.
    pub fn add(self, other: Mod<T>) -> (r: Mod<T>)
        requires
            self.modulo.as_int() != 0,
        ensures
            r.modulo == self.modulo,
            r.i.as_int() == zm_modulo(self.i.as_int() + other.i.as_int(), self.modulo.as_int()),
    {
        Mod { modulo: self.modulo, i: self.i.add_mod(other.i, self.modulo) }
    }

    /// Difference in `Z^modulo`; the modulus of the left operand is kept.
    pub fn sub(self, other: Mod<T>) -> (r: Mod<T>)
        requires
            self.modulo.as_int() != 0,
        ensures
            r.modulo == self.modulo,
            r.i.as_int() == zm_modulo(self.i.as_int() - other.i.as_int(), self.modulo.as_int()),
    {
        Mod { modulo: self.modulo, i: self.i.sub_mod(other.i, self.modulo) }
    }

    /// Product in `Z^modulo`; the modulus of the left operand is kept.
    pub fn mul(self, other: Mod<T>) -> (r: Mod<T>)
        requires
            self.modulo.as_int() != 0,
        ensures
            r.modulo == self.modulo,
            r.i.as_int() == zm_modulo(self.i.as_int() * other.i.as_int(), self.modulo.as_int()),
    {
        Mod { modulo: self.modulo, i: self.i.mul_mod(other.i, self.modulo) }
    }
}

} // verus!
