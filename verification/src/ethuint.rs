//! 256-bit unsigned integers in the limb layout of `ethers_core::types::U256`.

use vstd::prelude::*;
use vstd::std_specs::convert::FromSpecImpl;
use crate::bigendian::{
    be_bytes, be_value, lemma_be_digits_of_value, lemma_be_round_trip, lemma_be_value_concat,
    pow256,
};

verus! {

/// `2^64`, the weight of one limb.
pub open spec fn limb_base() -> nat {
    0x1_0000_0000_0000_0000
}

/// The number denoted by four 64-bit limbs, least significant first.
pub open spec fn limbs_value(limbs: Seq<u64>) -> nat
    recommends
        limbs.len() == 4,
{
    (((limbs[3] as nat * limb_base() + limbs[2] as nat) * limb_base() + limbs[1] as nat)
        * limb_base() + limbs[0] as nat) as nat
}

/// A 256-bit unsigned integer: four 64-bit limbs, least significant first.
///
/// The layout is that of `ethers_core::types::U256`, whose single public
/// field holds the same four limbs in the same order.
#[derive(Clone, Copy, Debug, PartialEq, Eq)]
pub struct EthU256 {
    pub limbs: [u64; 4],
}

impl EthU256 {
    /// The number this value denotes.
    pub open spec fn value(&self) -> nat {
        limbs_value(self.limbs@)
    }

    /// The 128-bit integer `x`, zero-extended: its low half in limb 0, its
    /// high half in limb 1.
    pub open spec fn of_u128(x: u128) -> Self {
        EthU256 {
            limbs: [
                (x % 0x1_0000_0000_0000_0000) as u64,
                (x / 0x1_0000_0000_0000_0000) as u64,
                0,
                0,
            ],
        }
    }
}

/// Eight base-256 digits weigh one limb.
pub proof fn lemma_limb_base()
    ensures
        pow256(8) == limb_base(),
{
    reveal_with_fuel(pow256, 9);
}

/// Every 256-bit integer is below `256^32`.
pub proof fn lemma_value_bound(x: EthU256)
    ensures
        x.value() < pow256(32),
{
    reveal_with_fuel(pow256, 33);
}

impl EthU256 {
    /// The 32 bytes of the integer, most significant first.
    pub fn to_big_endian(&self) -> (bytes: [u8; 32])
        ensures
            bytes@ == be_bytes(self.value(), 32),
            be_value(bytes@) == self.value(),
    {
        let bytes = big_endian_bytes(self.limbs);
        proof {
            let s0 = bytes@.subrange(0, 8);
            let s1 = bytes@.subrange(8, 16);
            let s2 = bytes@.subrange(16, 24);
            let s3 = bytes@.subrange(24, 32);
            assert(bytes@ =~= s0 + s1 + s2 + s3);
            lemma_limb_base();
            lemma_be_round_trip(self.limbs[3] as nat, 8);
            lemma_be_round_trip(self.limbs[2] as nat, 8);
            lemma_be_round_trip(self.limbs[1] as nat, 8);
            lemma_be_round_trip(self.limbs[0] as nat, 8);
            lemma_be_value_concat(s0, s1);
            lemma_be_value_concat(s0 + s1, s2);
            lemma_be_value_concat(s0 + s1 + s2, s3);
            assert(be_value(bytes@) == self.value());
            lemma_be_digits_of_value(bytes@);
        }
        bytes
    }
}

impl From<u128> for EthU256 {
    /// Zero-extends a 128-bit integer.
    fn from(x: u128) -> (r: Self)
        ensures
            r.value() == x,
    {
        let limbs = limbs_from_u128(x);
        let r = EthU256 { limbs };
        proof {
            let spec_limbs = EthU256::of_u128(x).limbs;
            assert(spec_limbs[0] == limbs[0] && spec_limbs[1] == limbs[1]);
            assert(spec_limbs[2] == 0 && spec_limbs[3] == 0);
            assert(limbs =~= spec_limbs);
        }
        r
    }
}

impl FromSpecImpl<u128> for EthU256 {
    open spec fn obeys_from_spec() -> bool {
        true
    }

    open spec fn from_spec(x: u128) -> Self {
        EthU256::of_u128(x)
    }
}

/// Calls `ethers_core::types::U256::from(u128)` and hands out its limbs.
///
/// The conversion stores the low 64 bits of `x` in limb 0, the high 64 bits
/// in limb 1, and zero in limbs 2 and 3.
#[verifier::external_body]
pub(crate) fn limbs_from_u128(x: u128) -> (limbs: [u64; 4])
    ensures
        limbs[0] == x % 0x1_0000_0000_0000_0000,
        limbs[1] == x / 0x1_0000_0000_0000_0000,
        limbs[2] == 0,
        limbs[3] == 0,
{
    ethers_core::types::U256::from(x).0
}

/// Calls `ethers_core::types::U256::to_big_endian` on the integer with these
/// limbs, into a buffer of 32 bytes.
///
/// The call writes the limbs from the most significant (limb 3) to the least
/// (limb 0), eight bytes each, every limb most significant byte first.
#[verifier::external_body]
pub(crate) fn big_endian_bytes(limbs: [u64; 4]) -> (bytes: [u8; 32])
    ensures
        bytes@.subrange(0, 8) == be_bytes(limbs[3] as nat, 8),
        bytes@.subrange(8, 16) == be_bytes(limbs[2] as nat, 8),
        bytes@.subrange(16, 24) == be_bytes(limbs[1] as nat, 8),
        bytes@.subrange(24, 32) == be_bytes(limbs[0] as nat, 8),
{
    let mut bytes = [0u8; 32];
    ethers_core::types::U256(limbs).to_big_endian(&mut bytes);
    bytes
}

} // verus!
