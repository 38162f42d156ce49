//! Scalar types: the bit-length and signedness tags that every value
//! carried by the virtual machine is labelled with, and the numeric
//! ranges those tags stand for.

use vstd::prelude::*;

verus! {

/// The widest bit-length a scalar type may declare.  Scalars are carried
/// in an `i128`, so every declared type must fit the carrier with room
/// for intermediate sums.
pub const MAX_SCALAR_BITS: usize = 126;

/// The bit-length and signedness tag of one scalar value.
#[derive(Debug, Clone, Copy, PartialEq, Eq, Structural)]
pub struct ScalarType {
    pub signed: bool,
    pub length: usize,
}

/// Two to the power `n`.
pub open spec fn pow2(n: nat) -> int
    decreases n,
{
    if n == 0 {
        1
    } else {
        2 * pow2((n - 1) as nat)
    }
}

pub proof fn lemma_pow2_positive(n: nat)
    ensures
        pow2(n) >= 1,
    decreases n,
{
    if n > 0 {
        lemma_pow2_positive((n - 1) as nat);
    }
}

/// This crate's `pow2` agrees with the library's.
pub proof fn lemma_pow2_agrees(n: nat)
    ensures
        pow2(n) == vstd::arithmetic::power2::pow2(n),
    decreases n,
{
    if n > 0 {
        lemma_pow2_agrees((n - 1) as nat);
        vstd::arithmetic::power2::lemma_pow2_unfold(n);
    } else {
        vstd::arithmetic::power2::lemma2_to64();
    }
}

/// The numeric value of the carrier bound.
pub proof fn lemma_pow2_126_value()
    ensures
        pow2(126) == 0x4000_0000_0000_0000_0000_0000_0000_0000int,
{
    lemma_pow2_agrees(126);
    vstd::arithmetic::power2::lemma_pow2_adds(63, 63);
    vstd::arithmetic::power2::lemma_pow2_adds(32, 31);
    vstd::arithmetic::power2::lemma2_to64();
    assert(vstd::arithmetic::power2::pow2(63) == 0x8000_0000_0000_0000nat);
    assert(vstd::arithmetic::power2::pow2(126)
        == 0x8000_0000_0000_0000nat * 0x8000_0000_0000_0000nat);
}

pub proof fn lemma_pow2_monotone(m: nat, n: nat)
    requires
        m <= n,
    ensures
        pow2(m) <= pow2(n),
    decreases n,
{
    if m < n {
        lemma_pow2_positive(m);
        lemma_pow2_monotone(m, (n - 1) as nat);
    }
}

impl ScalarType {
    /// A well-formed type has a positive bit-length within the carrier.
    pub open spec fn wf(self) -> bool {
        1 <= self.length <= MAX_SCALAR_BITS
    }

    /// The least value the type can represent.
    pub open spec fn min_value(self) -> int {
        if self.signed {
            -pow2((self.length - 1) as nat)
        } else {
            0
        }
    }

    /// The greatest value the type can represent.
    pub open spec fn max_value(self) -> int {
        if self.signed {
            pow2((self.length - 1) as nat) - 1
        } else {
            pow2(self.length as nat) - 1
        }
    }

    /// Whether `v` lies in the representable range of the type.
    pub open spec fn contains(self, v: int) -> bool {
        self.min_value() <= v <= self.max_value()
    }

    /// The type of boolean values: a single unsigned bit.
    pub open spec fn spec_boolean() -> ScalarType {
        ScalarType { signed: false, length: 1 }
    }

    /// Constructs the boolean scalar type.
    pub fn boolean() -> (t: ScalarType)
        ensures
            t == ScalarType::spec_boolean(),
            t.wf(),
    {
        ScalarType { signed: false, length: 1 }
    }

    /// Whether this is the boolean scalar type.
    pub fn is_boolean(&self) -> (b: bool)
        ensures
            b == (*self == ScalarType::spec_boolean()),
    {
        !self.signed && self.length == 1
    }

    /// Checks well-formedness of the tag.
    pub fn check_wf(&self) -> (b: bool)
        ensures
            b == self.wf(),
    {
        1 <= self.length && self.length <= MAX_SCALAR_BITS
    }
}

/// The bounds every carried scalar obeys, whatever its declared type:
/// the carrier keeps one bit of headroom above the widest scalar type.
pub open spec fn fits_carrier(v: int) -> bool {
    -pow2(126) <= v < pow2(126)
}

/// Two to the power `n`, executable.
pub fn pow2_i128(n: usize) -> (r: i128)
    requires
        n <= 126,
    ensures
        r == pow2(n as nat),
{
    let mut r: i128 = 1;
    let mut k: usize = 0;
    while k < n
        invariant
            k <= n,
            n <= 126,
            r == pow2(k as nat),
        decreases n - k,
    {
        proof {
            lemma_pow2_positive(k as nat);
            assert(pow2((k + 1) as nat) == 2 * pow2(k as nat));
            lemma_pow2_monotone((k + 1) as nat, 126);
            lemma_pow2_126_value();
        }
        r = r * 2;
        k = k + 1;
    }
    r
}

/// Checks that `v` obeys the carrier bounds.
pub fn check_carrier(v: i128) -> (b: bool)
    ensures
        b == fits_carrier(v as int),
{
    proof {
        lemma_pow2_126_value();
    }
    let lo: i128 = -0x4000_0000_0000_0000_0000_0000_0000_0000i128;
    let hi: i128 = 0x4000_0000_0000_0000_0000_0000_0000_0000i128 - 1;
    lo <= v && v <= hi
}

impl ScalarType {
    /// Checks that `v` lies in the representable range of the type.
    pub fn check_contains(&self, v: i128) -> (b: bool)
        requires
            self.wf(),
        ensures
            b == self.contains(v as int),
    {
        if self.signed {
            let half = pow2_i128(self.length - 1);
            proof {
                lemma_pow2_positive((self.length - 1) as nat);
                lemma_pow2_monotone((self.length - 1) as nat, 126);
                lemma_pow2_126_value();
            }
            -half <= v && v <= half - 1
        } else {
            let top = pow2_i128(self.length);
            proof {
                lemma_pow2_positive(self.length as nat);
                lemma_pow2_monotone(self.length as nat, 126);
                lemma_pow2_126_value();
            }
            0 <= v && v <= top - 1
        }
    }
}

/// Every value representable by a well-formed type obeys the carrier bounds.
pub proof fn lemma_type_range_fits_carrier(t: ScalarType, v: int)
    requires
        t.wf(),
        t.contains(v),
    ensures
        fits_carrier(v),
{
    lemma_pow2_monotone(t.length as nat, 126);
    if t.signed {
        lemma_pow2_monotone((t.length - 1) as nat, 126);
    }
}

} // verus!
