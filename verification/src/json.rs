//! The text in which values are handed to the constraint system's argument
//! reader: compact JSON, with every byte a string that holds its decimal
//! numeral.

use vstd::prelude::*;
use vstd::string::*;
use crate::state::{CircuitInputGroth16, HashInputs, State, StateView, SEQ_LEN};
use crate::word::{decimal, ByteText, U256};

verus! {

/// `items`, separated by commas.
pub open spec fn join(items: Seq<Seq<char>>) -> Seq<char>
    decreases items.len(),
{
    if items.len() == 0 {
        Seq::empty()
    } else if items.len() == 1 {
        items[0]
    } else {
        join(items.drop_last()) + ","@ + items.last()
    }
}

/// Appending one item to a list appends a comma, unless the list was empty,
/// and the item.
pub proof fn lemma_join_push(items: Seq<Seq<char>>, item: Seq<char>)
    ensures
        join(items.push(item)) == if items.len() == 0 {
            item
        } else {
            join(items) + ","@ + item
        },
{
    assert(items.push(item).drop_last() =~= items);
}

/// A byte as a JSON string: its decimal numeral between double quotes.
pub open spec fn byte_json(b: u8) -> Seq<char> {
    "\""@ + decimal(b as nat) + "\""@
}

/// A word as a JSON object: the member `limbs` holds its 32 bytes in order.
pub open spec fn word_json(bytes: Seq<u8>) -> Seq<char> {
    "{\"limbs\":["@ + join(bytes.map_values(|b: u8| byte_json(b))) + "]}"@
}

/// A list of words as the members of a JSON array.
pub open spec fn words_json(words: Seq<Seq<u8>>) -> Seq<char> {
    join(words.map_values(|bytes: Seq<u8>| word_json(bytes)))
}

/// The inputs of one step as a JSON object: the member `words` holds the
/// words in order.
pub open spec fn hash_inputs_json(words: Seq<Seq<u8>>) -> Seq<char> {
    "{\"words\":["@ + words_json(words) + "]}"@
}

/// The argument list of the per-step circuit as a JSON array: its one
/// element is the inputs of the step.
pub open spec fn circuit_input_json(words: Seq<Seq<u8>>) -> Seq<char> {
    "["@ + hash_inputs_json(words) + "]"@
}

/// A state as a JSON object: the member `idx` holds the step index, the
/// member `outputs` the output words in order.
pub open spec fn state_json(state: StateView) -> Seq<char> {
    "{\"idx\":"@ + byte_json(state.idx) + ",\"outputs\":["@ + words_json(state.outputs) + "]}"@
}

impl ByteText {
    /// The JSON text of the byte.
    pub open spec fn json(&self) -> Seq<char> {
        byte_json(self.0)
    }

    /// Writes the byte as a JSON string.
    pub fn to_json(&self) -> (s: String)
        ensures
            s@ == self.json(),
    {
        let mut s = String::from_str("\"");
        let numeral = self.text();
        s.append(numeral.as_str());
        s.append("\"");
        s
    }
}

impl U256 {
    /// The JSON text of the word.
    pub open spec fn json(&self) -> Seq<char> {
        word_json(self@)
    }

    /// Writes the word as a JSON object.
    pub fn to_json(&self) -> (s: String)
        ensures
            s@ == self.json(),
    {
        let ghost items = self@.map_values(|b: u8| byte_json(b));
        let mut s = String::from_str("{\"limbs\":[");
        assert(items.take(0) =~= Seq::<Seq<char>>::empty());
        assert(s@ =~= "{\"limbs\":["@ + join(items.take(0)));
        for i in 0..32usize
            invariant
                items == self@.map_values(|b: u8| byte_json(b)),
                s@ == "{\"limbs\":["@ + join(items.take(i as int)),
        {
            let ghost before = s@;
            if i > 0 {
                s.append(",");
            }
            let item = self.limbs[i].to_json();
            s.append(item.as_str());
            proof {
                assert(items[i as int] == item@);
                assert(items.take(i + 1) =~= items.take(i as int).push(items[i as int]));
                lemma_join_push(items.take(i as int), items[i as int]);
                assert(s@ =~= "{\"limbs\":["@ + join(items.take(i + 1)));
            }
        }
        s.append("]}");
        proof {
            assert(items.take(32) =~= items);
        }
        s
    }
}

impl HashInputs {
    /// The JSON text of the pair.
    pub open spec fn json(&self) -> Seq<char> {
        hash_inputs_json(self@)
    }

    /// Writes the pair as a JSON object: the member `words` holds the two
    /// words in order.
    pub fn to_json(&self) -> (s: String)
        ensures
            s@ == self.json(),
    {
        let mut s = String::from_str("{\"words\":[");
        let first = self.words[0].to_json();
        s.append(first.as_str());
        s.append(",");
        let second = self.words[1].to_json();
        s.append(second.as_str());
        s.append("]}");
        proof {
            let items = self@.map_values(|bytes: Seq<u8>| word_json(bytes));
            assert(items =~= seq![first@].push(second@));
            lemma_join_push(seq![first@], second@);
            assert(s@ =~= self.json());
        }
        s
    }
}

impl CircuitInputGroth16 {
    /// The JSON text of the argument list.
    pub open spec fn json(&self) -> Seq<char> {
        circuit_input_json(self@)
    }

    /// Writes the argument list as a JSON array of one element.
    pub fn to_json(&self) -> (s: String)
        ensures
            s@ == self.json(),
    {
        let mut s = String::from_str("[");
        let inner = self.w.to_json();
        s.append(inner.as_str());
        s.append("]");
        s
    }
}

impl State {
    /// The JSON text of the state.
    pub open spec fn json(&self) -> Seq<char> {
        state_json(self@)
    }

    /// Writes the state as a JSON object: the member `idx` holds the step
    /// index, the member `outputs` the output words in order.
    pub fn to_json(&self) -> (s: String)
        ensures
            s@ == self.json(),
    {
        let ghost items = self@.outputs.map_values(|bytes: Seq<u8>| word_json(bytes));
        let mut s = String::from_str("{\"idx\":");
        let idx = self.idx.to_json();
        s.append(idx.as_str());
        s.append(",\"outputs\":[");
        let ghost head = s@;
        assert(items.take(0) =~= Seq::<Seq<char>>::empty());
        assert(s@ =~= head + join(items.take(0)));
        for i in 0..SEQ_LEN
            invariant
                items == self@.outputs.map_values(|bytes: Seq<u8>| word_json(bytes)),
                head == "{\"idx\":"@ + self.idx.json() + ",\"outputs\":["@,
                s@ == head + join(items.take(i as int)),
        {
            if i > 0 {
                s.append(",");
            }
            let item = self.outputs[i].to_json();
            s.append(item.as_str());
            proof {
                assert(items[i as int] == item@);
                assert(items.take(i + 1) =~= items.take(i as int).push(items[i as int]));
                lemma_join_push(items.take(i as int), items[i as int]);
                assert(s@ =~= head + join(items.take(i + 1)));
            }
        }
        s.append("]}");
        proof {
            assert(items.take(SEQ_LEN as int) =~= items);
        }
        s
    }
}

} // verus!
