//! 256-bit words as 32 big-endian bytes, each byte carried as decimal text.

use vstd::prelude::*;
use vstd::array::*;
use vstd::std_specs::convert::FromSpecImpl;
use vstd::string::*;
use crate::bigendian::{
    be_bytes, be_value, lemma_be_bytes_len, lemma_be_bytes_zero, lemma_be_round_trip, pow256,
};
use crate::ethuint::EthU256;

verus! {

/// The character that writes the decimal digit `d`.
pub open spec fn digit_char(d: nat) -> char
    recommends
        d < 10,
{
    seq!['0', '1', '2', '3', '4', '5', '6', '7', '8', '9'][d as int]
}

/// The decimal numeral of `n`: no sign, no leading zero, `"0"` for zero.
pub open spec fn decimal(n: nat) -> Seq<char>
    decreases n,
{
    if n < 10 {
        seq![digit_char(n)]
    } else {
        decimal(n / 10).push(digit_char(n % 10))
    }
}

/// The one-character string of a decimal digit.
fn digit_str(d: u8) -> (s: &'static str)
    requires
        d < 10,
    ensures
        s@ == seq![digit_char(d as nat)],
{
    proof {
        reveal_strlit("0");
        reveal_strlit("1");
        reveal_strlit("2");
        reveal_strlit("3");
        reveal_strlit("4");
        reveal_strlit("5");
        reveal_strlit("6");
        reveal_strlit("7");
        reveal_strlit("8");
        reveal_strlit("9");
    }
    let s = match d {
        0 => "0",
        1 => "1",
        2 => "2",
        3 => "3",
        4 => "4",
        5 => "5",
        6 => "6",
        7 => "7",
        8 => "8",
        _ => "9",
    };
    assert(s@ =~= seq![digit_char(d as nat)]);
    s
}

/// One byte, handed on as the text of its decimal numeral.
///
/// The constraint system's field-element reader takes numbers as text, so a
/// byte travels as `"0"` ... `"255"` and never as a raw number.
#[derive(Clone, Copy, Debug, PartialEq, Eq)]
pub struct ByteText(pub u8);

impl ByteText {
    /// The decimal numeral of the byte.
    pub fn text(&self) -> (s: String)
        ensures
            s@ == decimal(self.0 as nat),
    {
        let n = self.0;
        let mut s = String::new();
        if n >= 100 {
            s.append(digit_str(n / 100));
        }
        if n >= 10 {
            s.append(digit_str((n / 10) % 10));
        }
        s.append(digit_str(n % 10));
        proof {
            reveal_with_fuel(decimal, 3);
            assert(s@ =~= decimal(n as nat));
        }
        s
    }
}

impl Default for ByteText {
    fn default() -> (r: Self)
        ensures
            r.0 == 0,
    {
        ByteText(0)
    }
}

/// An array that agrees with `bytes` on its first `k` places.
spec fn limbs_prefix(bytes: Seq<u8>, k: nat) -> [ByteText; 32]
    decreases k,
{
    if k == 0 {
        spec_array_fill_for_copy_type(ByteText(0))
    } else {
        spec_array_update(limbs_prefix(bytes, (k - 1) as nat), k - 1, ByteText(bytes[k - 1]))
    }
}

proof fn lemma_limbs_prefix(bytes: Seq<u8>, k: nat)
    requires
        k <= 32,
        bytes.len() == 32,
    ensures
        forall|j: int| 0 <= j < k ==> limbs_prefix(bytes, k)[j] == ByteText(bytes[j]),
    decreases k,
{
    if k > 0 {
        lemma_limbs_prefix(bytes, (k - 1) as nat);
        let before = limbs_prefix(bytes, (k - 1) as nat);
        let after = spec_array_update(before, k - 1, ByteText(bytes[k - 1]));
        assert(after@ == before@.update(k - 1, ByteText(bytes[k - 1])));
        assert forall|j: int| 0 <= j < k implies limbs_prefix(bytes, k)[j] == ByteText(
            bytes[j],
        ) by {
            assert(after[j] == after@[j]);
            assert(before[j] == before@[j]);
        }
    }
}

/// A 256-bit unsigned integer as 32 bytes, most significant first, each byte
/// carried as decimal text.
#[derive(Clone, Copy, Debug, PartialEq, Eq)]
pub struct U256 {
    pub limbs: [ByteText; 32],
}

impl View for U256 {
    type V = Seq<u8>;

    /// The 32 byte values, most significant first.
    open spec fn view(&self) -> Seq<u8> {
        Seq::new(32, |i: int| self.limbs[i].0)
    }
}

impl U256 {
    /// The number that the word denotes.
    pub open spec fn value(&self) -> nat {
        be_value(self@)
    }

    /// The word whose bytes are `bytes`.
    pub open spec fn of_bytes(bytes: Seq<u8>) -> U256
        recommends
            bytes.len() == 32,
    {
        choose|w: U256| w@ == bytes
    }

    /// The word that denotes `v`: its 32 base-256 digits, most significant
    /// first.
    pub open spec fn encode(v: nat) -> U256
        recommends
            v < pow256(32),
    {
        Self::of_bytes(be_bytes(v, 32))
    }

    /// Two words with the same bytes are the same word.
    pub proof fn lemma_bytes_determine_word(a: U256, b: U256)
        requires
            a@ == b@,
        ensures
            a == b,
    {
        assert forall|i: int| 0 <= i < 32 implies a.limbs[i] == b.limbs[i] by {
            assert(a@[i] == a.limbs[i].0);
            assert(b@[i] == b.limbs[i].0);
        }
        assert(a.limbs =~= b.limbs);
    }

    /// Every sequence of 32 bytes is the bytes of a word.
    pub proof fn lemma_of_bytes(bytes: Seq<u8>)
        requires
            bytes.len() == 32,
        ensures
            U256::of_bytes(bytes)@ == bytes,
    {
        let w = U256 { limbs: limbs_prefix(bytes, 32) };
        lemma_limbs_prefix(bytes, 32);
        assert(w@ =~= bytes);
    }

    /// Wraps 32 bytes, most significant first.
    pub fn from_bytes(bytes: [u8; 32]) -> (r: U256)
        ensures
            r@ == bytes@,
            r == U256::of_bytes(bytes@),
    {
        let mut limbs = [ByteText(0);32];
        for i in 0..32usize
            invariant
                forall|j: int| 0 <= j < i ==> limbs[j].0 == bytes[j],
        {
            limbs[i] = ByteText(bytes[i]);
        }
        let r = U256 { limbs };
        proof {
            assert(r@ =~= bytes@);
            Self::lemma_bytes_determine_word(r, U256::of_bytes(bytes@));
        }
        r
    }

    /// The 32 byte values, most significant first.
    pub fn to_bytes(&self) -> (bytes: [u8; 32])
        ensures
            bytes@ == self@,
    {
        let mut bytes = [0u8;32];
        for i in 0..32usize
            invariant
                forall|j: int| 0 <= j < i ==> bytes[j] == self.limbs[j].0,
        {
            bytes[i] = self.limbs[i].0;
        }
        assert(bytes@ =~= self@);
        bytes
    }
}

impl From<EthU256> for U256 {
    /// Splits a 256-bit integer into its 32 bytes, most significant first.
    fn from(x: EthU256) -> (r: Self)
        ensures
            r@ == be_bytes(x.value(), 32),
            r.value() == x.value(),
    {
        let bytes = x.to_big_endian();
        U256::from_bytes(bytes)
    }
}

impl FromSpecImpl<EthU256> for U256 {
    open spec fn obeys_from_spec() -> bool {
        true
    }

    open spec fn from_spec(x: EthU256) -> Self {
        U256::encode(x.value())
    }
}

impl From<u128> for U256 {
    /// Zero-extends a 128-bit integer to 256 bits and splits it into its 32
    /// bytes, most significant first.
    fn from(x: u128) -> (r: Self)
        ensures
            r@ == be_bytes(x as nat, 32),
            r.value() == x,
    {
        let wide = EthU256::from(x);
        U256::from(wide)
    }
}

impl FromSpecImpl<u128> for U256 {
    open spec fn obeys_from_spec() -> bool {
        true
    }

    open spec fn from_spec(x: u128) -> Self {
        U256::encode(x as nat)
    }
}

impl Default for U256 {
    /// The word that denotes zero: 32 zero bytes.
    fn default() -> (r: Self)
        ensures
            r@ == Seq::new(32, |i: int| 0u8),
            r == U256::encode(0),
    {
        let r = U256 { limbs: [ByteText(0);32] };
        proof {
            assert(r@ =~= Seq::new(32, |i: int| 0u8));
            lemma_be_bytes_zero(32);
            U256::lemma_of_bytes(be_bytes(0, 32));
            U256::lemma_bytes_determine_word(r, U256::encode(0));
        }
        r
    }
}

/// The bytes of the word that denotes `v` are the 32 base-256 digits of `v`,
/// and reading them back most significant first yields `v`.
pub proof fn lemma_encode_round_trip(v: nat)
    requires
        v < pow256(32),
    ensures
        U256::encode(v)@ == be_bytes(v, 32),
        U256::encode(v).value() == v,
{
    lemma_be_bytes_len(v, 32);
    U256::lemma_of_bytes(be_bytes(v, 32));
    lemma_be_round_trip(v, 32);
}

/// A 128-bit integer has the same word whether it is encoded directly or
/// zero-extended first.
pub proof fn lemma_encode_u128(x: u128)
    ensures
        EthU256::of_u128(x).value() == x,
        U256::encode(x as nat) == U256::encode(EthU256::of_u128(x).value()),
{
}

} // verus!
