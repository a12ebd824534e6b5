//! Big-endian positional notation in base 256, as a mathematical model.

use vstd::prelude::*;

verus! {

/// `256` to the power `n`.
pub open spec fn pow256(n: nat) -> nat
    decreases n,
{
    if n == 0 {
        1
    } else {
        256 * pow256((n - 1) as nat)
    }
}

/// The number that `bytes` denote when read most significant byte first.
pub open spec fn be_value(bytes: Seq<u8>) -> nat
    decreases bytes.len(),
{
    if bytes.len() == 0 {
        0
    } else {
        256 * be_value(bytes.drop_last()) + bytes.last() as nat
    }
}

/// The `len` least significant base-256 digits of `v`, most significant first.
pub open spec fn be_bytes(v: nat, len: nat) -> Seq<u8>
    decreases len,
{
    if len == 0 {
        Seq::empty()
    } else {
        be_bytes(v / 256, (len - 1) as nat).push((v % 256) as u8)
    }
}

/// `be_bytes` yields exactly `len` digits.
pub proof fn lemma_be_bytes_len(v: nat, len: nat)
    ensures
        be_bytes(v, len).len() == len,
    decreases len,
{
    if len > 0 {
        lemma_be_bytes_len(v / 256, (len - 1) as nat);
    }
}

/// The digits of zero are all zero.
pub proof fn lemma_be_bytes_zero(len: nat)
    ensures
        be_bytes(0, len) == Seq::new(len, |i: int| 0u8),
    decreases len,
{
    if len > 0 {
        lemma_be_bytes_zero((len - 1) as nat);
        lemma_be_bytes_len(0, (len - 1) as nat);
    }
    assert(be_bytes(0, len) =~= Seq::new(len, |i: int| 0u8));
}

/// A sequence of bytes denotes a number below `256^len`.
pub proof fn lemma_be_value_bound(bytes: Seq<u8>)
    ensures
        be_value(bytes) < pow256(bytes.len()),
    decreases bytes.len(),
{
    if bytes.len() > 0 {
        lemma_be_value_bound(bytes.drop_last());
    }
}

/// Splitting a number below `256^len` into `len` big-endian digits and reading
/// the digits back yields the number.
pub proof fn lemma_be_round_trip(v: nat, len: nat)
    requires
        v < pow256(len),
    ensures
        be_value(be_bytes(v, len)) == v,
    decreases len,
{
    if len > 0 {
        let rest = be_bytes(v / 256, (len - 1) as nat);
        lemma_be_round_trip(v / 256, (len - 1) as nat);
        assert(be_bytes(v, len).drop_last() =~= rest);
    }
}

/// Reading digits and splitting the number again yields the digits: no two
/// byte sequences of one length denote the same number.
pub proof fn lemma_be_digits_of_value(bytes: Seq<u8>)
    ensures
        be_bytes(be_value(bytes), bytes.len()) == bytes,
    decreases bytes.len(),
{
    if bytes.len() > 0 {
        lemma_be_digits_of_value(bytes.drop_last());
        let v = be_value(bytes);
        assert(v / 256 == be_value(bytes.drop_last()));
        assert(v % 256 == bytes.last() as nat);
        assert(be_bytes(v, bytes.len()) =~= bytes);
    }
}

/// The value of a concatenation: the left part is shifted by the length of
/// the right part.
pub proof fn lemma_be_value_concat(left: Seq<u8>, right: Seq<u8>)
    ensures
        be_value(left + right) == be_value(left) * pow256(right.len()) + be_value(right),
    decreases right.len(),
{
    if right.len() == 0 {
        assert(left + right =~= left);
        assert(pow256(0) == 1);
    } else {
        let init = right.drop_last();
        lemma_be_value_concat(left, init);
        assert((left + right).drop_last() =~= left + init);
        assert((left + right).last() == right.last());
        let a = be_value(left);
        let p = pow256(init.len());
        assert(pow256(right.len()) == 256 * p);
        assert(256 * (a * p + be_value(init)) == a * (256 * p) + 256 * be_value(init))
            by (nonlinear_arith);
    }
}

} // verus!
