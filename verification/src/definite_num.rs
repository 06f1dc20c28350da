use vstd::prelude::*;

verus! {

/// Largest magnitude a guarded coordinate may take.
///
/// The bound is 2^29. With coordinates of magnitude at most 2^29, a
/// coordinate difference fits in 2^30, a dot product of two differences in
/// 2^61 (so in `i64`), and the degree-four barycentric expressions used by
/// the triangle interior test stay below 2^124 (so in `i128`). Every
/// arithmetic step in the geometry stack is therefore exact.
pub const COORD_LIMIT: i64 = 536870912;

/// Error raised by the validating constructor when a scalar cannot be
/// admitted into the coordinate system.
#[derive(Debug, Clone, Copy, PartialEq, Eq, Structural)]
pub enum NumericError {
    OutOfRange,
}

/// A validated scalar: the single gate through which coordinates enter the
/// geometry stack. Every live value is guaranteed to lie in
/// `[-COORD_LIMIT, COORD_LIMIT]`, so all downstream arithmetic on points and
/// triangles is exact and free of overflow. There is no way to construct a
/// value that bypasses the validation.
#[derive(Debug, Clone, Copy, PartialEq, Eq, Structural)]
pub struct DefinitelyANumber {
    v: i64,
}

impl DefinitelyANumber {
    #[verifier::type_invariant]
    spec fn bounded(self) -> bool {
        -COORD_LIMIT <= self.v <= COORD_LIMIT
    }

    /// The mathematical value of the scalar.
    pub closed spec fn value(self) -> int {
        self.v as int
    }

    /// Validating factory: succeeds exactly on the admissible scalars and
    /// stores the value unchanged (no clamping, no rounding).
    pub fn new(v: i64) -> (r: Result<Self, NumericError>)
        ensures
            r is Ok <==> -COORD_LIMIT <= v <= COORD_LIMIT,
            r is Ok ==> r->Ok_0.value() == v as int,
            r is Err ==> r->Err_0 == NumericError::OutOfRange,
    {
        if -COORD_LIMIT <= v && v <= COORD_LIMIT {
            Ok(DefinitelyANumber { v })
        } else {
            Err(NumericError::OutOfRange)
        }
    }

    /// Returns the stored value exactly.
    pub fn to_raw(&self) -> (r: i64)
        ensures
            r as int == self.value(),
            -COORD_LIMIT <= r <= COORD_LIMIT,
    {
        proof {
            use_type_invariant(self);
        }
        self.v
    }

    /// Two guards are equal exactly when their values are.
    pub proof fn lemma_value_injective(a: Self, b: Self)
        ensures
            a == b <==> a.value() == b.value(),
    {
        if a.value() == b.value() {
            assert(a == b);
        }
    }

    /// Sum of two guarded scalars; the caller must ensure the result is
    /// still admissible.
    pub fn add(self, rhs: Self) -> (r: Self)
        requires
            -COORD_LIMIT <= self.value() + rhs.value() <= COORD_LIMIT,
        ensures
            r.value() == self.value() + rhs.value(),
    {
        proof {
            use_type_invariant(self);
            use_type_invariant(rhs);
        }
        DefinitelyANumber { v: self.v + rhs.v }
    }

    /// Difference of two guarded scalars; the caller must ensure the result
    /// is still admissible.
    pub fn sub(self, rhs: Self) -> (r: Self)
        requires
            -COORD_LIMIT <= self.value() - rhs.value() <= COORD_LIMIT,
        ensures
            r.value() == self.value() - rhs.value(),
    {
        proof {
            use_type_invariant(self);
            use_type_invariant(rhs);
        }
        DefinitelyANumber { v: self.v - rhs.v }
    }

    /// Product of two guarded scalars; the caller must ensure the result is
    /// still admissible.
    pub fn mul(self, rhs: Self) -> (r: Self)
        requires
            -COORD_LIMIT <= self.value() * rhs.value() <= COORD_LIMIT,
        ensures
            r.value() == self.value() * rhs.value(),
    {
        proof {
            use_type_invariant(self);
            use_type_invariant(rhs);
        }
        DefinitelyANumber { v: self.v * rhs.v }
    }

    /// Order on the underlying values; total, since every guard holds an
    /// admissible number.
    pub fn le(&self, other: &Self) -> (r: bool)
        ensures
            r == (self.value() <= other.value()),
    {
        self.v <= other.v
    }

    /// Strict order on the underlying values.
    pub fn lt(&self, other: &Self) -> (r: bool)
        ensures
            r == (self.value() < other.value()),
    {
        self.v < other.v
    }
}

} // verus!
