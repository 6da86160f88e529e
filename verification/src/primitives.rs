//! Fixed-width values of the node: 20-byte addresses, 32-byte hashes and storage keys, and
//! 256-bit unsigned integers, together with the keccak-256 hash of byte strings.
use vstd::prelude::*;

verus! {

/// `2^128`, the weight of the high half of a 256-bit value.
pub open spec fn half_base() -> nat {
    0x1_0000_0000_0000_0000_0000_0000_0000_0000nat
}

/// `2^256`, one more than the largest 256-bit value.
pub open spec fn word_modulus() -> nat {
    0x1_0000_0000_0000_0000_0000_0000_0000_0000_0000_0000_0000_0000_0000_0000_0000_0000nat
}

/// The largest value that a 256-bit word holds, `2^256 - 1`.
pub open spec fn word_max() -> nat {
    (word_modulus() - 1) as nat
}

/// Keys that verified code can compare for equality.
pub trait KeyEq: Sized {
    /// Whether two keys are the same value.
    fn key_eq(&self, other: &Self) -> (r: bool)
        ensures
            r == (*self == *other),
    ;
}

/// A 20-byte Ethereum account address.
#[derive(Clone, Copy, Debug, PartialEq, Eq, Hash, PartialOrd, Ord)]
pub struct Address {
    pub bytes: [u8; 20],
}

impl Address {
    /// The address whose bytes are the given ones.
    pub fn new(bytes: [u8; 20]) -> (r: Address)
        ensures
            r.bytes == bytes,
    {
        Address { bytes }
    }

    /// The address whose twenty bytes all equal `byte`.
    pub fn repeat_byte(byte: u8) -> (r: Address)
        ensures
            forall|i: int| 0 <= i < 20 ==> r.bytes@[i] == byte,
    {
        Address { bytes: [byte; 20] }
    }

    /// The address whose bytes are all zero.
    pub fn zero() -> (r: Address)
        ensures
            forall|i: int| 0 <= i < 20 ==> r.bytes@[i] == 0,
    {
        Address { bytes: [0u8; 20] }
    }
}

impl KeyEq for Address {
    fn key_eq(&self, other: &Self) -> (r: bool) {
        broadcast use vstd::array::group_array_axioms;

        let mut i: usize = 0;
        while i < 20
            invariant
                0 <= i <= 20,
                forall|j: int| 0 <= j < i ==> self.bytes@[j] == other.bytes@[j],
            decreases 20 - i,
        {
            if self.bytes[i] != other.bytes[i] {
                return false;
            }
            i = i + 1;
        }
        assert(self.bytes =~= other.bytes);
        true
    }
}

/// A 32-byte value such as a hash or a storage key, held as its two big-endian halves.
#[derive(Clone, Copy, Debug, PartialEq, Eq, Structural, Hash, PartialOrd, Ord)]
pub struct B256 {
    /// The first sixteen bytes, read as a big-endian number.
    pub high: u128,
    /// The last sixteen bytes, read as a big-endian number.
    pub low: u128,
}

/// A 256-bit unsigned integer, held as its high and low 128-bit halves.
#[derive(Clone, Copy, Debug, PartialEq, Eq, Structural, Hash, PartialOrd, Ord)]
pub struct U256 {
    pub high: u128,
    pub low: u128,
}

impl B256 {
    /// The 32-byte value with the given halves.
    pub fn new(high: u128, low: u128) -> (r: B256)
        ensures
            r.high == high,
            r.low == low,
    {
        B256 { high, low }
    }

    /// The 32-byte value whose bytes are all zero.
    pub fn zero() -> (r: B256)
        ensures
            r.high == 0,
            r.low == 0,
    {
        B256 { high: 0, low: 0 }
    }

    /// The number whose 32 big-endian bytes these are.
    pub fn to_u256(self) -> (r: U256)
        ensures
            r.high == self.high,
            r.low == self.low,
    {
        U256 { high: self.high, low: self.low }
    }
}

impl KeyEq for B256 {
    fn key_eq(&self, other: &Self) -> (r: bool) {
        *self == *other
    }
}

impl KeyEq for U256 {
    fn key_eq(&self, other: &Self) -> (r: bool) {
        *self == *other
    }
}

/// `256^k`.
pub open spec fn pow256(k: nat) -> nat
    decreases k,
{
    if k == 0 {
        1
    } else {
        256 * pow256((k - 1) as nat)
    }
}

/// The number whose big-endian bytes `s` are.
pub open spec fn be_value(s: Seq<u8>) -> nat
    decreases s.len(),
{
    if s.len() == 0 {
        0
    } else {
        be_value(s.drop_last()) * 256 + (s.last() as nat)
    }
}

proof fn lemma_be_value_bound(s: Seq<u8>)
    ensures
        be_value(s) < pow256(s.len()),
    decreases s.len(),
{
    if s.len() > 0 {
        lemma_be_value_bound(s.drop_last());
    }
}

proof fn lemma_pow256_monotone(i: nat, j: nat)
    requires
        i <= j,
    ensures
        pow256(i) <= pow256(j),
    decreases j - i,
{
    if i < j {
        lemma_pow256_monotone(i, (j - 1) as nat);
    }
}

/// `256^31`, that is `2^248`.
proof fn lemma_pow256_31()
    ensures
        pow256(31) == 0x100_0000_0000_0000_0000_0000_0000_0000_0000_0000_0000_0000_0000_0000_0000_0000nat,
{
    reveal_with_fuel(pow256, 32);
}

/// The 256-bit word that stands for `n`, for `n` below `2^256`.
pub open spec fn u256_of(n: nat) -> U256 {
    U256 { high: (n / half_base()) as u128, low: (n % half_base()) as u128 }
}

/// A word is the word of its number.
pub proof fn lemma_u256_of_value(u: U256)
    ensures
        u256_of(u.value()) == u,
{
    let n = u.value();
    vstd::arithmetic::div_mod::lemma_fundamental_div_mod_converse(
        n as int,
        half_base() as int,
        u.high as int,
        u.low as int,
    );
}

/// The word of a number below `2^256` stands for that number.
pub proof fn lemma_u256_of_small(n: nat)
    requires
        n < word_modulus(),
    ensures
        u256_of(n).value() == n,
{
    let b = half_base() as int;
    let q = n as int / b;
    let r = n as int % b;
    vstd::arithmetic::div_mod::lemma_fundamental_div_mod(n as int, b);
    vstd::arithmetic::div_mod::lemma_mod_pos_bound(n as int, b);
    vstd::arithmetic::div_mod::lemma_div_pos_is_pos(n as int, b);
    assert(q < b) by (nonlinear_arith)
        requires
            n == b * q + r,
            0 <= r,
            0 <= q,
            b == 0x1_0000_0000_0000_0000_0000_0000_0000_0000,
            n < b * b,
    ;
}

/// The word of the sum of two words, or the largest word where the sum does not fit.
pub open spec fn saturating_sum(a: U256, b: U256) -> U256 {
    u256_of(
        if a.value() + b.value() > word_max() {
            word_max()
        } else {
            a.value() + b.value()
        },
    )
}

impl U256 {
    /// The number that this word stands for.
    pub open spec fn value(self) -> nat {
        (self.high as nat) * half_base() + (self.low as nat)
    }

    /// The number whose big-endian bytes `bytes` are; there are at most 32 of them.
    pub fn from_be_slice(bytes: &[u8]) -> (r: U256)
        requires
            bytes@.len() <= 32,
        ensures
            r.value() == be_value(bytes@),
    {
        proof {
            lemma_pow256_31();
        }
        let mut high: u128 = 0;
        let mut low: u128 = 0;
        let mut i: usize = 0;
        while i < bytes.len()
            invariant
                0 <= i <= bytes@.len(),
                bytes@.len() <= 32,
                pow256(31) == 0x100_0000_0000_0000_0000_0000_0000_0000_0000_0000_0000_0000_0000_0000_0000_0000nat,
                (high as nat) * half_base() + (low as nat) == be_value(bytes@.take(i as int)),
            decreases bytes@.len() - i,
        {
            let ghost v = be_value(bytes@.take(i as int));
            proof {
                lemma_be_value_bound(bytes@.take(i as int));
                lemma_pow256_monotone(i as nat, 31);
                assert(bytes@.take(i + 1).drop_last() =~= bytes@.take(i as int));
            }
            assert(high < 0x100_0000_0000_0000_0000_0000_0000_0000u128);
            let b = bytes[i];
            let ghost old_high = high;
            let ghost old_low = low;
            let carry = low / 0x100_0000_0000_0000_0000_0000_0000_0000u128;
            let rest = low % 0x100_0000_0000_0000_0000_0000_0000_0000u128;
            assert(old_low == carry * 0x100_0000_0000_0000_0000_0000_0000_0000 + rest);
            high = high * 256 + carry;
            low = rest * 256 + b as u128;
            i = i + 1;
            assert((high as nat) * half_base() + (low as nat) == v * 256 + b);
        }
        assert(bytes@.take(bytes@.len() as int) =~= bytes@);
        U256 { high, low }
    }

    /// The number with the given halves.
    pub fn new(high: u128, low: u128) -> (r: U256)
        ensures
            r.high == high,
            r.low == low,
    {
        U256 { high, low }
    }

    /// Zero.
    pub fn zero() -> (r: U256)
        ensures
            r.value() == 0,
    {
        U256 { high: 0, low: 0 }
    }

    /// The given 64-bit number.
    pub fn from_u64(x: u64) -> (r: U256)
        ensures
            r.value() == x,
    {
        U256 { high: 0, low: x as u128 }
    }

    /// The given 128-bit number.
    pub fn from_u128(x: u128) -> (r: U256)
        ensures
            r.value() == x,
    {
        U256 { high: 0, low: x }
    }

    /// The largest 256-bit number.
    pub fn max_value() -> (r: U256)
        ensures
            r.value() == word_max(),
    {
        U256 { high: u128::MAX, low: u128::MAX }
    }

    /// The 32 big-endian bytes of this number.
    pub fn to_b256(self) -> (r: B256)
        ensures
            r.high == self.high,
            r.low == self.low,
    {
        B256 { high: self.high, low: self.low }
    }

    /// Whether this number is zero.
    pub fn is_zero(&self) -> (r: bool)
        ensures
            r == (self.value() == 0),
    {
        self.high == 0 && self.low == 0
    }

    /// Whether this number is smaller than `other`.
    pub fn less_than(&self, other: &U256) -> (r: bool)
        ensures
            r == (self.value() < other.value()),
    {
        self.high < other.high || (self.high == other.high && self.low < other.low)
    }

    /// The sum, or the largest 256-bit number where the sum does not fit.
    pub fn saturating_add(self, rhs: U256) -> (r: U256)
        ensures
            r.value() == if self.value() + rhs.value() > word_max() {
                word_max()
            } else {
                self.value() + rhs.value()
            },
            r == saturating_sum(self, rhs),
    {
        let (low, carry): (u128, u128) = if self.low <= u128::MAX - rhs.low {
            (self.low + rhs.low, 0)
        } else {
            (rhs.low - (u128::MAX - self.low) - 1, 1)
        };
        assert(self.low + rhs.low == low + carry * half_base());
        if self.high <= u128::MAX - rhs.high && self.high + rhs.high <= u128::MAX - carry {
            let r = U256 { high: self.high + rhs.high + carry, low };
            assert(r.value() == self.value() + rhs.value());
            proof {
                lemma_u256_of_value(r);
            }
            r
        } else {
            assert(self.high + rhs.high + carry >= half_base());
            assert(self.value() + rhs.value() >= word_modulus());
            let r = U256 { high: u128::MAX, low: u128::MAX };
            proof {
                lemma_u256_of_value(r);
            }
            r
        }
    }

    /// One more than this number, wrapping from the largest number to zero.
    pub fn wrapping_increment(self) -> (r: U256)
        ensures
            r.value() == (self.value() + 1) % word_modulus(),
    {
        if self.low < u128::MAX {
            let r = U256 { high: self.high, low: self.low + 1 };
            assert(r.value() == self.value() + 1);
            assert(self.value() + 1 < word_modulus());
            proof { vstd::arithmetic::div_mod::lemma_small_mod((self.value() + 1) as nat, word_modulus()); }
            r
        } else if self.high < u128::MAX {
            let r = U256 { high: self.high + 1, low: 0 };
            assert(r.value() == self.value() + 1);
            assert(self.value() + 1 < word_modulus());
            proof { vstd::arithmetic::div_mod::lemma_small_mod((self.value() + 1) as nat, word_modulus()); }
            r
        } else {
            assert(self.value() + 1 == word_modulus());
            proof { vstd::arithmetic::div_mod::lemma_mod_self_0(word_modulus() as int); }
            U256 { high: 0, low: 0 }
        }
    }

    /// This number as a `u64`, where it fits in one.
    pub fn to_u64_checked(self) -> (r: Option<u64>)
        ensures
            r == if self.value() <= u64::MAX {
                Some(self.value() as u64)
            } else {
                None::<u64>
            },
    {
        if self.high == 0 && self.low <= u64::MAX as u128 {
            Some(self.low as u64)
        } else {
            None
        }
    }

    /// This number as a `u128`, where it fits in one.
    pub fn to_u128_checked(self) -> (r: Option<u128>)
        ensures
            r == if self.value() <= u128::MAX {
                Some(self.value() as u128)
            } else {
                None::<u128>
            },
    {
        if self.high == 0 {
            Some(self.low)
        } else {
            None
        }
    }
}

impl View for Address {
    type V = Address;

    open spec fn view(&self) -> Address {
        *self
    }
}

impl View for B256 {
    type V = B256;

    open spec fn view(&self) -> B256 {
        *self
    }
}

impl View for U256 {
    type V = U256;

    open spec fn view(&self) -> U256 {
        *self
    }
}

/// The keccak-256 hash of a byte string, as a 32-byte value.
pub uninterp spec fn spec_keccak256(data: Seq<u8>) -> B256;

/// Calls `alloy_primitives::keccak256`, the keccak-256 hash function. The contract claims
/// only that the result is the keccak-256 hash of `data`, a function of `data` alone.
#[verifier::external_body]
pub(crate) fn keccak256_of(data: &[u8]) -> (r: B256)
    ensures
        r == spec_keccak256(data@),
{
    let hash = alloy_primitives::keccak256(data).0;
    let mut high = [0u8; 16];
    let mut low = [0u8; 16];
    high.copy_from_slice(&hash[..16]);
    low.copy_from_slice(&hash[16..]);
    B256 { high: u128::from_be_bytes(high), low: u128::from_be_bytes(low) }
}

/// Reads `alloy_consensus::constants::KECCAK_EMPTY`, which the crate documents as the
/// keccak-256 hash of the empty byte string; the contract claims exactly that.
#[verifier::external_body]
pub(crate) fn keccak_empty_hash() -> (r: B256)
    ensures
        r == spec_keccak256(Seq::<u8>::empty()),
{
    let hash = alloy_consensus::constants::KECCAK_EMPTY.0;
    let mut high = [0u8; 16];
    let mut low = [0u8; 16];
    high.copy_from_slice(&hash[..16]);
    low.copy_from_slice(&hash[16..]);
    B256 { high: u128::from_be_bytes(high), low: u128::from_be_bytes(low) }
}

} // verus!
