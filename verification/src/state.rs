//! The values that travel through a proving session: the accumulator state
//! of the folding scheme and the inputs of one hash step.

use vstd::prelude::*;
use vstd::array::spec_array_fill_for_copy_type;
use crate::bigendian::{be_bytes, lemma_be_bytes_zero};
use crate::ethuint::EthU256;
use crate::word::{ByteText, U256};

verus! {

/// The number of steps in one folded sequence, and of output words in the
/// accumulator state.
pub const SEQ_LEN: usize = 2;

/// The state that the folding scheme carries from one step to the next: the
/// index of the running step and one output word per step.
#[derive(Clone, Copy, Debug, PartialEq, Eq)]
pub struct State {
    pub idx: ByteText,
    pub outputs: [U256; SEQ_LEN],
}

/// What a `State` holds: the step index and the bytes of each output word.
pub struct StateView {
    pub idx: u8,
    pub outputs: Seq<Seq<u8>>,
}

/// The bytes of each word of a list.
pub open spec fn words_view(words: Seq<U256>) -> Seq<Seq<u8>> {
    words.map_values(|w: U256| w@)
}

/// The state before the first step: index zero and `SEQ_LEN` outputs, each
/// the 32 bytes of zero.
pub open spec fn genesis_view() -> StateView {
    StateView { idx: 0, outputs: Seq::new(SEQ_LEN as nat, |i: int| be_bytes(0, 32)) }
}

impl View for State {
    type V = StateView;

    open spec fn view(&self) -> StateView {
        StateView { idx: self.idx.0, outputs: words_view(self.outputs@) }
    }
}

impl Default for State {
    /// The state before the first step: index zero, every output the word
    /// that denotes zero.
    fn default() -> (r: Self)
        ensures
            r@ == genesis_view(),
            r.idx.0 == 0,
            forall|i: int| 0 <= i < SEQ_LEN ==> r.outputs[i] == U256::encode(0),
            forall|i: int| 0 <= i < SEQ_LEN ==> r.outputs[i]@ == Seq::new(32, |j: int| 0u8),
    {
        let zero = U256::default();
        let outputs = [zero;SEQ_LEN];
        let r = State { idx: ByteText(0), outputs };
        proof {
            assert(outputs == spec_array_fill_for_copy_type::<U256, SEQ_LEN>(zero));
            lemma_be_bytes_zero(32);
            assert(r@.outputs =~= genesis_view().outputs);
        }
        r
    }
}

/// The pair of words that one hash step consumes.
#[derive(Clone, Copy, Debug, PartialEq, Eq)]
pub struct HashInputs {
    pub words: [U256; 2],
}

impl View for HashInputs {
    type V = Seq<Seq<u8>>;

    /// The bytes of the first word, then those of the second.
    open spec fn view(&self) -> Seq<Seq<u8>> {
        words_view(self.words@)
    }
}

impl HashInputs {
    /// Two pairs that hold the same bytes are the same pair.
    pub proof fn lemma_bytes_determine_inputs(a: HashInputs, b: HashInputs)
        requires
            a@ == b@,
        ensures
            a == b,
    {
        assert forall|i: int| 0 <= i < 2 implies a.words[i] == b.words[i] by {
            assert(a@[i] == a.words[i]@);
            assert(b@[i] == b.words[i]@);
            U256::lemma_bytes_determine_word(a.words[i], b.words[i]);
        }
        assert(a.words =~= b.words);
    }

    /// Pairs the words of two 256-bit integers, in the order given.
    pub fn new(x: EthU256, y: EthU256) -> (r: Self)
        ensures
            r@ == seq![be_bytes(x.value(), 32), be_bytes(y.value(), 32)],
            r.words[0] == U256::encode(x.value()),
            r.words[1] == U256::encode(y.value()),
            r.words[0].value() == x.value(),
            r.words[1].value() == y.value(),
    {
        let r = HashInputs { words: [U256::from(x), U256::from(y)] };
        assert(r@ =~= seq![be_bytes(x.value(), 32), be_bytes(y.value(), 32)]);
        r
    }
}

/// The argument list of the per-step circuit: one `HashInputs` and nothing
/// else.
#[derive(Clone, Copy, Debug, PartialEq, Eq)]
pub struct CircuitInputGroth16 {
    pub w: HashInputs,
}

impl View for CircuitInputGroth16 {
    type V = Seq<Seq<u8>>;

    /// The bytes of the two words of the step.
    open spec fn view(&self) -> Seq<Seq<u8>> {
        self.w@
    }
}

impl CircuitInputGroth16 {
    /// Wraps the inputs of one step.
    pub fn new(w: HashInputs) -> (r: Self)
        ensures
            r.w == w,
            r@ == w@,
    {
        CircuitInputGroth16 { w }
    }
}

} // verus!
