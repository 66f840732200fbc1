//! Unsigned 256-bit quantities: amounts of assets and shares, counters and
//! timestamps.

use vstd::prelude::*;

verus! {

/// Two to the power 256: the first number that a [`U256`] cannot hold.
pub open spec fn pow2_256() -> nat {
    0x1_0000_0000_0000_0000_0000_0000_0000_0000_0000_0000_0000_0000_0000_0000_0000_0000int as nat
}

/// The number that four 64-bit words stand for, least significant word first.
pub open spec fn words_value(w0: u64, w1: u64, w2: u64, w3: u64) -> nat {
    (w0 + w1 * 0x1_0000_0000_0000_0000int + w2 * 0x1_0000_0000_0000_0000_0000_0000_0000_0000int
        + w3 * 0x1_0000_0000_0000_0000_0000_0000_0000_0000_0000_0000_0000_0000int) as nat
}

/// The bytes of `value` as a number of `len` digits to the base 256, most
/// significant first.
pub open spec fn be_bytes(value: nat, len: nat) -> Seq<u8>
    decreases len,
{
    if len == 0 {
        Seq::empty()
    } else {
        be_bytes(value / 256, (len - 1) as nat).push((value % 256) as u8)
    }
}

/// 256 to the power `n`.
pub open spec fn pow256(n: nat) -> nat
    decreases n,
{
    if n == 0 {
        1
    } else {
        256 * pow256((n - 1) as nat)
    }
}

/// A number has as many bytes as were asked for.
pub proof fn lemma_be_bytes_len(value: nat, len: nat)
    ensures
        be_bytes(value, len).len() == len,
    decreases len,
{
    if len > 0 {
        lemma_be_bytes_len(value / 256, (len - 1) as nat);
    }
}

/// Two numbers that fit in `len` bytes and have the same bytes are the same
/// number.
pub proof fn lemma_be_bytes_injective(a: nat, b: nat, len: nat)
    requires
        a < pow256(len),
        b < pow256(len),
        be_bytes(a, len) == be_bytes(b, len),
    ensures
        a == b,
    decreases len,
{
    if len > 0 {
        let front_a = be_bytes(a / 256, (len - 1) as nat);
        let front_b = be_bytes(b / 256, (len - 1) as nat);
        let whole_a = front_a.push((a % 256) as u8);
        let whole_b = front_b.push((b % 256) as u8);
        assert(whole_a == whole_b);
        lemma_be_bytes_len(a / 256, (len - 1) as nat);
        lemma_be_bytes_len(b / 256, (len - 1) as nat);
        assert(whole_a[len - 1] == whole_b[len - 1]);
        assert(a % 256 == b % 256);
        assert(whole_a.drop_last() =~= front_a);
        assert(whole_b.drop_last() =~= front_b);
        assert(front_a == front_b);
        lemma_be_bytes_injective(a / 256, b / 256, (len - 1) as nat);
    }
}

/// Eight bytes hold what 64 bits hold, and 32 bytes what 256 bits hold.
pub proof fn lemma_pow256_words()
    ensures
        pow256(8) == 0x1_0000_0000_0000_0000,
        pow256(32) == pow2_256(),
{
    reveal_with_fuel(pow256, 9);
    assert(pow256(8) == 0x1_0000_0000_0000_0000);
    assert(pow256(16) == pow256(8) * pow256(8)) by {
        lemma_pow256_add(8, 8);
    }
    assert(pow256(32) == pow256(16) * pow256(16)) by {
        lemma_pow256_add(16, 16);
    }
    assert(0x1_0000_0000_0000_0000 * 0x1_0000_0000_0000_0000
        == 0x1_0000_0000_0000_0000_0000_0000_0000_0000int);
    assert(0x1_0000_0000_0000_0000_0000_0000_0000_0000int
        * 0x1_0000_0000_0000_0000_0000_0000_0000_0000int == pow2_256());
}

/// Powers of 256 multiply as their exponents add.
proof fn lemma_pow256_add(m: nat, n: nat)
    ensures
        pow256(m + n) == pow256(m) * pow256(n),
    decreases n,
{
    if n > 0 {
        lemma_pow256_add(m, (n - 1) as nat);
        assert(pow256(m + n) == 256 * pow256((m + n - 1) as nat));
        assert(256 * (pow256(m) * pow256((n - 1) as nat)) == pow256(m) * (256 * pow256(
            (n - 1) as nat,
        ))) by (nonlinear_arith);
    } else {
        assert(pow256(m) * 1 == pow256(m)) by (nonlinear_arith);
    }
}

/// An unsigned 256-bit integer. Its view is the number it holds.
#[derive(Clone, Copy, Debug, PartialEq, Eq, Structural)]
pub struct U256 {
    w0: u64,
    w1: u64,
    w2: u64,
    w3: u64,
}

impl View for U256 {
    type V = nat;

    closed spec fn view(&self) -> nat {
        words_value(self.w0, self.w1, self.w2, self.w3)
    }
}

impl U256 {
    /// Every value lies below two to the power 256.
    pub proof fn lemma_in_range(self)
        ensures
            self@ < pow2_256(),
    {
    }

    /// Two values that hold the same number are the same value.
    pub proof fn lemma_view_injective(self, other: U256)
        ensures
            (self@ == other@) <==> (self == other),
    {
        self.lemma_order(other);
        other.lemma_order(self);
    }

    /// The order of two values is the order of their words, read from the most
    /// significant down.
    proof fn lemma_order(self, other: U256)
        ensures
            self@ < other@ <==> (self.w3 < other.w3 || (self.w3 == other.w3 && (self.w2 < other.w2
                || (self.w2 == other.w2 && (self.w1 < other.w1 || (self.w1 == other.w1 && self.w0
                < other.w0)))))),
    {
        let c1 = 0x1_0000_0000_0000_0000int;
        let c2 = 0x1_0000_0000_0000_0000_0000_0000_0000_0000int;
        let c3 = 0x1_0000_0000_0000_0000_0000_0000_0000_0000_0000_0000_0000_0000int;
        let a1 = self.w0 + self.w1 * c1;
        let b1 = other.w0 + other.w1 * c1;
        assert(0 <= a1 < c2 && 0 <= b1 < c2);
        assert(self.w1 < other.w1 ==> a1 < b1);
        assert(other.w1 < self.w1 ==> b1 < a1);
        let a2 = a1 + self.w2 * c2;
        let b2 = b1 + other.w2 * c2;
        assert(0 <= a2 < c3 && 0 <= b2 < c3);
        assert(self.w2 < other.w2 ==> a2 < b2);
        assert(other.w2 < self.w2 ==> b2 < a2);
        assert(self@ == a2 + self.w3 * c3);
        assert(other@ == b2 + other.w3 * c3);
        assert(self.w3 < other.w3 ==> self@ < other@);
        assert(other.w3 < self.w3 ==> other@ < self@);
    }

    pub fn zero() -> (r: U256)
        ensures
            r@ == 0,
    {
        U256 { w0: 0, w1: 0, w2: 0, w3: 0 }
    }

    pub fn one() -> (r: U256)
        ensures
            r@ == 1,
    {
        U256 { w0: 1, w1: 0, w2: 0, w3: 0 }
    }

    /// The largest value, two to the power 256 less one.
    pub fn max_value() -> (r: U256)
        ensures
            r@ == pow2_256() - 1,
    {
        U256 {
            w0: 0xffff_ffff_ffff_ffff,
            w1: 0xffff_ffff_ffff_ffff,
            w2: 0xffff_ffff_ffff_ffff,
            w3: 0xffff_ffff_ffff_ffff,
        }
    }

    pub fn from_u64(x: u64) -> (r: U256)
        ensures
            r@ == x,
    {
        U256 { w0: x, w1: 0, w2: 0, w3: 0 }
    }

    /// Builds a value from its four words, least significant first.
    pub fn from_limbs(limbs: [u64; 4]) -> (r: U256)
        ensures
            r@ == words_value(limbs[0], limbs[1], limbs[2], limbs[3]),
    {
        U256 { w0: limbs[0], w1: limbs[1], w2: limbs[2], w3: limbs[3] }
    }

    /// The four words of the value, least significant first.
    pub fn into_limbs(self) -> (limbs: [u64; 4])
        ensures
            self@ == words_value(limbs[0], limbs[1], limbs[2], limbs[3]),
    {
        [self.w0, self.w1, self.w2, self.w3]
    }

    pub fn is_zero(&self) -> (r: bool)
        ensures
            r == (self@ == 0),
    {
        self.w0 == 0 && self.w1 == 0 && self.w2 == 0 && self.w3 == 0
    }

    /// The value as a `u64`, or `None` where it needs more than 64 bits.
    pub fn to_u64(&self) -> (r: Option<u64>)
        ensures
            match r {
                Some(x) => x == self@,
                None => self@ > u64::MAX,
            },
    {
        if self.w1 == 0 && self.w2 == 0 && self.w3 == 0 {
            Some(self.w0)
        } else {
            None
        }
    }

    pub fn lt(&self, other: &U256) -> (r: bool)
        ensures
            r == (self@ < other@),
    {
        proof {
            self.lemma_order(*other);
        }
        if self.w3 != other.w3 {
            self.w3 < other.w3
        } else if self.w2 != other.w2 {
            self.w2 < other.w2
        } else if self.w1 != other.w1 {
            self.w1 < other.w1
        } else {
            self.w0 < other.w0
        }
    }

    pub fn le(&self, other: &U256) -> (r: bool)
        ensures
            r == (self@ <= other@),
    {
        !other.lt(self)
    }

    pub fn gt(&self, other: &U256) -> (r: bool)
        ensures
            r == (self@ > other@),
    {
        other.lt(self)
    }

    /// The sum, or `None` where it does not fit in 256 bits.
    pub fn checked_add(self, rhs: U256) -> (r: Option<U256>)
        ensures
            self@ + rhs@ < pow2_256() ==> r.is_some() && r.unwrap()@ == self@ + rhs@,
            self@ + rhs@ >= pow2_256() ==> r.is_none(),
    {
        let r = wide_checked_add(self, rhs);
        proof {
            if r.is_some() {
                r.unwrap().lemma_in_range();
            }
        }
        r
    }

    /// The difference, or `None` where `rhs` is the larger.
    pub fn checked_sub(self, rhs: U256) -> (r: Option<U256>)
        ensures
            self@ >= rhs@ ==> r.is_some() && r.unwrap()@ == self@ - rhs@,
            self@ < rhs@ ==> r.is_none(),
    {
        wide_checked_sub(self, rhs)
    }

    /// The product, or `None` where it does not fit in 256 bits.
    pub fn checked_mul(self, rhs: U256) -> (r: Option<U256>)
        ensures
            self@ * rhs@ < pow2_256() ==> r.is_some() && r.unwrap()@ == self@ * rhs@,
            self@ * rhs@ >= pow2_256() ==> r.is_none(),
    {
        let r = wide_checked_mul(self, rhs);
        proof {
            if r.is_some() {
                r.unwrap().lemma_in_range();
            }
        }
        r
    }

    /// The 32 bytes of the value, most significant first.
    pub fn to_be_bytes(self) -> (bytes: [u8; 32])
        ensures
            bytes@ == be_bytes(self@, 32),
    {
        wide_to_be_bytes(self)
    }

    /// The quotient rounded down, or `None` where `rhs` is zero.
    pub fn checked_div(self, rhs: U256) -> (r: Option<U256>)
        ensures
            rhs@ != 0 ==> r.is_some() && r.unwrap()@ == self@ / rhs@,
            rhs@ == 0 ==> r.is_none(),
    {
        wide_checked_div(self, rhs)
    }
}

/// `alloy_primitives::U256::checked_add`: the sum of the two numbers where it
/// fits in 256 bits, `None` where it does not.
#[verifier::external_body]
fn wide_checked_add(a: U256, b: U256) -> (r: Option<U256>)
    ensures
        match r {
            Some(s) => s@ == a@ + b@,
            None => a@ + b@ >= pow2_256(),
        },
{
    let x = alloy_primitives::U256::from_limbs([a.w0, a.w1, a.w2, a.w3]);
    let y = alloy_primitives::U256::from_limbs([b.w0, b.w1, b.w2, b.w3]);
    match x.checked_add(y) {
        Some(s) => {
            let l = s.into_limbs();
            Some(U256 { w0: l[0], w1: l[1], w2: l[2], w3: l[3] })
        },
        None => None,
    }
}

/// `alloy_primitives::U256::checked_sub`: the difference where the first
/// number is at least the second, `None` where it is smaller.
#[verifier::external_body]
fn wide_checked_sub(a: U256, b: U256) -> (r: Option<U256>)
    ensures
        match r {
            Some(d) => a@ >= b@ && d@ == a@ - b@,
            None => a@ < b@,
        },
{
    let x = alloy_primitives::U256::from_limbs([a.w0, a.w1, a.w2, a.w3]);
    let y = alloy_primitives::U256::from_limbs([b.w0, b.w1, b.w2, b.w3]);
    match x.checked_sub(y) {
        Some(d) => {
            let l = d.into_limbs();
            Some(U256 { w0: l[0], w1: l[1], w2: l[2], w3: l[3] })
        },
        None => None,
    }
}

/// `alloy_primitives::U256::checked_mul`: the product of the two numbers
/// where it fits in 256 bits, `None` where it does not.
#[verifier::external_body]
fn wide_checked_mul(a: U256, b: U256) -> (r: Option<U256>)
    ensures
        match r {
            Some(p) => p@ == a@ * b@,
            None => a@ * b@ >= pow2_256(),
        },
{
    let x = alloy_primitives::U256::from_limbs([a.w0, a.w1, a.w2, a.w3]);
    let y = alloy_primitives::U256::from_limbs([b.w0, b.w1, b.w2, b.w3]);
    match x.checked_mul(y) {
        Some(p) => {
            let l = p.into_limbs();
            Some(U256 { w0: l[0], w1: l[1], w2: l[2], w3: l[3] })
        },
        None => None,
    }
}

/// `alloy_primitives::U256::checked_div`: the quotient rounded down, `None`
/// where the divisor is zero.
#[verifier::external_body]
fn wide_checked_div(a: U256, b: U256) -> (r: Option<U256>)
    ensures
        match r {
            Some(q) => b@ != 0 && q@ == a@ / b@,
            None => b@ == 0,
        },
{
    let x = alloy_primitives::U256::from_limbs([a.w0, a.w1, a.w2, a.w3]);
    let y = alloy_primitives::U256::from_limbs([b.w0, b.w1, b.w2, b.w3]);
    match x.checked_div(y) {
        Some(q) => {
            let l = q.into_limbs();
            Some(U256 { w0: l[0], w1: l[1], w2: l[2], w3: l[3] })
        },
        None => None,
    }
}

/// `alloy_primitives::U256::to_be_bytes::<32>`: the number as 32 bytes, most
/// significant first.
#[verifier::external_body]
fn wide_to_be_bytes(a: U256) -> (bytes: [u8; 32])
    ensures
        bytes@ == be_bytes(a@, 32),
{
    alloy_primitives::U256::from_limbs([a.w0, a.w1, a.w2, a.w3]).to_be_bytes::<32>()
}

/// `u64::to_be_bytes`: the number as 8 bytes, most significant first.
#[verifier::external_body]
fn word_to_be_bytes(x: u64) -> (bytes: [u8; 8])
    ensures
        bytes@ == be_bytes(x as nat, 8),
{
    x.to_be_bytes()
}

/// The 8 bytes of a 64-bit number, most significant first.
pub fn u64_to_be_bytes(x: u64) -> (bytes: [u8; 8])
    ensures
        bytes@ == be_bytes(x as nat, 8),
{
    word_to_be_bytes(x)
}

} // verus!
