//! Different values have different texts: the JSON of a word, and of the
//! inputs of a step, can be read in one way only.

use vstd::prelude::*;
use crate::json::{byte_json, circuit_input_json, hash_inputs_json, join, word_json, words_json};
use crate::word::{decimal, digit_char};

verus! {

/// Whether `c` is one of the ten decimal digits.
pub open spec fn is_digit(c: char) -> bool {
    c == '0' || c == '1' || c == '2' || c == '3' || c == '4' || c == '5' || c == '6' || c == '7'
        || c == '8' || c == '9'
}

/// Whether `c` occurs nowhere in `s`.
pub open spec fn free_of(s: Seq<char>, c: char) -> bool {
    forall|i: int| 0 <= i < s.len() ==> s[i] != c
}

/// Whether `c` is the first character of `s` and occurs nowhere else in it.
pub open spec fn opens_with(s: Seq<char>, c: char) -> bool {
    &&& s.len() > 0
    &&& s[0] == c
    &&& forall|i: int| 0 < i < s.len() ==> s[i] != c
}

/// A numeral is one digit or more, and digits only.
pub proof fn lemma_decimal_digits(n: nat)
    ensures
        decimal(n).len() >= 1,
        n >= 10 ==> decimal(n).len() >= 2,
        forall|i: int| 0 <= i < decimal(n).len() ==> is_digit(#[trigger] decimal(n)[i]),
    decreases n,
{
    if n >= 10 {
        lemma_decimal_digits(n / 10);
    }
}

/// Different numbers have different numerals.
pub proof fn lemma_decimal_injective(a: nat, b: nat)
    requires
        decimal(a) == decimal(b),
    ensures
        a == b,
    decreases a,
{
    lemma_decimal_digits(a);
    lemma_decimal_digits(b);
    if a < 10 {
        assert(decimal(a)[0] == digit_char(a));
        assert(decimal(b)[0] == digit_char(b));
    } else {
        assert(b >= 10);
        assert(decimal(a).drop_last() =~= decimal(a / 10));
        assert(decimal(b).drop_last() =~= decimal(b / 10));
        assert(decimal(a).last() == digit_char(a % 10));
        assert(decimal(b).last() == digit_char(b % 10));
        lemma_decimal_injective(a / 10, b / 10);
    }
}

/// Whether a list item can be told from the list's commas: an inner item
/// holds no comma; an outer item opens with a brace and holds no other.
pub open spec fn marked(item: Seq<char>, inner: bool) -> bool {
    if inner {
        free_of(item, ',')
    } else {
        opens_with(item, '{')
    }
}

/// Where two texts that end with a comma and a marked item are the same, the
/// items are the same and so is what stands before the commas.
proof fn lemma_last_item(
    a: Seq<char>,
    x: Seq<char>,
    b: Seq<char>,
    y: Seq<char>,
    inner: bool,
)
    requires
        a + seq![','] + x == b + seq![','] + y,
        marked(x, inner),
        marked(y, inner),
    ensures
        a == b,
        x == y,
{
    let left = a + seq![','] + x;
    let right = b + seq![','] + y;
    let la = a.len() as int;
    let lb = b.len() as int;
    let lx = x.len() as int;
    let ly = y.len() as int;
    assert(left.len() == la + 1 + lx);
    assert(right.len() == lb + 1 + ly);
    if lx < ly {
        if inner {
            assert(left[la] == ',');
            assert(right[la] == y[la - lb - 1]);
        } else {
            assert(left[la + 1] == x[0]);
            assert(right[la + 1] == y[ly - lx]);
        }
        assert(false);
    }
    if ly < lx {
        if inner {
            assert(right[lb] == ',');
            assert(left[lb] == x[lb - la - 1]);
        } else {
            assert(right[lb + 1] == y[0]);
            assert(left[lb + 1] == x[lx - ly]);
        }
        assert(false);
    }
    assert(a =~= left.subrange(0, la));
    assert(b =~= right.subrange(0, lb));
    assert(x =~= left.subrange(la + 1, la + 1 + lx));
    assert(y =~= right.subrange(lb + 1, lb + 1 + ly));
}

/// Two lists of marked items, of one length, that are written the same are
/// the same list.
pub proof fn lemma_join_injective(xs: Seq<Seq<char>>, ys: Seq<Seq<char>>, inner: bool)
    requires
        xs.len() == ys.len(),
        forall|i: int| 0 <= i < xs.len() ==> marked(#[trigger] xs[i], inner),
        forall|i: int| 0 <= i < ys.len() ==> marked(#[trigger] ys[i], inner),
        join(xs) == join(ys),
    ensures
        xs == ys,
    decreases xs.len(),
{
    if xs.len() == 0 {
        assert(xs =~= ys);
    } else if xs.len() == 1 {
        assert(xs =~= ys);
    } else {
        reveal_strlit(",");
        assert(","@ =~= seq![',']);
        lemma_last_item(join(xs.drop_last()), xs.last(), join(ys.drop_last()), ys.last(), inner);
        lemma_join_injective(xs.drop_last(), ys.drop_last(), inner);
        assert(xs =~= xs.drop_last().push(xs.last()));
        assert(ys =~= ys.drop_last().push(ys.last()));
    }
}

/// A list holds a character other than the comma only inside its items.
pub proof fn lemma_join_free_of(items: Seq<Seq<char>>, c: char)
    requires
        c != ',',
        forall|i: int| 0 <= i < items.len() ==> free_of(#[trigger] items[i], c),
    ensures
        free_of(join(items), c),
    decreases items.len(),
{
    if items.len() >= 2 {
        reveal_strlit(",");
        assert(","@ =~= seq![',']);
        lemma_join_free_of(items.drop_last(), c);
    }
}

/// The text of a byte holds digits and double quotes only.
pub proof fn lemma_byte_json_chars(b: u8)
    ensures
        free_of(byte_json(b), ','),
        free_of(byte_json(b), '{'),
{
    reveal_strlit("\"");
    lemma_decimal_digits(b as nat);
    let text = byte_json(b);
    let numeral = decimal(b as nat);
    assert forall|i: int| 0 <= i < text.len() implies text[i] != ',' && text[i] != '{' by {
        if 0 < i <= numeral.len() {
            assert(text[i] == numeral[i - 1]);
            assert(is_digit(numeral[i - 1]));
        }
    }
}

/// Different bytes have different texts.
pub proof fn lemma_byte_json_injective(a: u8, b: u8)
    requires
        byte_json(a) == byte_json(b),
    ensures
        a == b,
{
    reveal_strlit("\"");
    let x = decimal(a as nat);
    let y = decimal(b as nat);
    assert(x =~= byte_json(a).subrange(1, 1 + x.len() as int));
    assert(y =~= byte_json(b).subrange(1, 1 + y.len() as int));
    assert(byte_json(a).len() == x.len() + 2);
    assert(byte_json(b).len() == y.len() + 2);
    lemma_decimal_injective(a as nat, b as nat);
}

/// The text of a word opens with a brace and holds no other opening brace.
pub proof fn lemma_word_json_opens(bytes: Seq<u8>)
    ensures
        opens_with(word_json(bytes), '{'),
{
    reveal_strlit("{\"limbs\":[");
    reveal_strlit("]}");
    let head = "{\"limbs\":["@;
    let items = bytes.map_values(|b: u8| byte_json(b));
    assert forall|i: int| 0 <= i < items.len() implies free_of(#[trigger] items[i], '{') by {
        lemma_byte_json_chars(bytes[i]);
    }
    lemma_join_free_of(items, '{');
    let list = join(items);
    let text = word_json(bytes);
    assert forall|i: int| 0 < i < text.len() implies text[i] != '{' by {
        if i < head.len() {
            assert(text[i] == head[i]);
        } else if i < head.len() + list.len() {
            assert(text[i] == list[i - head.len()]);
        } else {
            assert(text[i] == "]}"@[i - head.len() - list.len()]);
        }
    }
    assert(text[0] == head[0]);
}

/// Different words have different texts.
pub proof fn lemma_word_json_injective(a: Seq<u8>, b: Seq<u8>)
    requires
        a.len() == b.len(),
        word_json(a) == word_json(b),
    ensures
        a == b,
{
    reveal_strlit("{\"limbs\":[");
    reveal_strlit("]}");
    let head = "{\"limbs\":["@;
    let xs = a.map_values(|b: u8| byte_json(b));
    let ys = b.map_values(|b: u8| byte_json(b));
    let h = head.len() as int;
    assert(join(xs) =~= word_json(a).subrange(h, h + join(xs).len()));
    assert(join(ys) =~= word_json(b).subrange(h, h + join(ys).len()));
    assert(word_json(a).len() == h + join(xs).len() + 2);
    assert(word_json(b).len() == h + join(ys).len() + 2);
    assert forall|i: int| 0 <= i < xs.len() implies marked(#[trigger] xs[i], true) by {
        lemma_byte_json_chars(a[i]);
    }
    assert forall|i: int| 0 <= i < ys.len() implies marked(#[trigger] ys[i], true) by {
        lemma_byte_json_chars(b[i]);
    }
    lemma_join_injective(xs, ys, true);
    assert forall|i: int| 0 <= i < a.len() implies a[i] == b[i] by {
        assert(xs[i] == byte_json(a[i]));
        assert(ys[i] == byte_json(b[i]));
        lemma_byte_json_injective(a[i], b[i]);
    }
    assert(a =~= b);
}

/// Whether every one of `words` is 32 bytes long, as the bytes of every word
/// are.
pub open spec fn all_words(words: Seq<Seq<u8>>) -> bool {
    forall|i: int| 0 <= i < words.len() ==> (#[trigger] words[i]).len() == 32
}

/// Different lists of words, of one length, have different texts.
pub proof fn lemma_words_json_injective(a: Seq<Seq<u8>>, b: Seq<Seq<u8>>)
    requires
        a.len() == b.len(),
        all_words(a),
        all_words(b),
        words_json(a) == words_json(b),
    ensures
        a == b,
{
    let xs = a.map_values(|bytes: Seq<u8>| word_json(bytes));
    let ys = b.map_values(|bytes: Seq<u8>| word_json(bytes));
    assert forall|i: int| 0 <= i < xs.len() implies marked(#[trigger] xs[i], false) by {
        lemma_word_json_opens(a[i]);
    }
    assert forall|i: int| 0 <= i < ys.len() implies marked(#[trigger] ys[i], false) by {
        lemma_word_json_opens(b[i]);
    }
    lemma_join_injective(xs, ys, false);
    assert forall|i: int| 0 <= i < a.len() implies a[i] == b[i] by {
        assert(xs[i] == word_json(a[i]));
        assert(ys[i] == word_json(b[i]));
        lemma_word_json_injective(a[i], b[i]);
    }
    assert(a =~= b);
}

/// Different inputs of a step have different texts.
pub proof fn lemma_hash_inputs_json_injective(a: Seq<Seq<u8>>, b: Seq<Seq<u8>>)
    requires
        a.len() == b.len(),
        all_words(a),
        all_words(b),
        hash_inputs_json(a) == hash_inputs_json(b),
    ensures
        a == b,
{
    reveal_strlit("{\"words\":[");
    reveal_strlit("]}");
    let h = "{\"words\":["@.len() as int;
    let x = words_json(a);
    let y = words_json(b);
    assert(x =~= hash_inputs_json(a).subrange(h, h + x.len()));
    assert(y =~= hash_inputs_json(b).subrange(h, h + y.len()));
    assert(hash_inputs_json(a).len() == h + x.len() + 2);
    assert(hash_inputs_json(b).len() == h + y.len() + 2);
    lemma_words_json_injective(a, b);
}

/// Different argument lists of the per-step circuit have different texts.
pub proof fn lemma_circuit_input_json_injective(a: Seq<Seq<u8>>, b: Seq<Seq<u8>>)
    requires
        a.len() == b.len(),
        all_words(a),
        all_words(b),
        circuit_input_json(a) == circuit_input_json(b),
    ensures
        a == b,
{
    reveal_strlit("[");
    reveal_strlit("]");
    let x = hash_inputs_json(a);
    let y = hash_inputs_json(b);
    assert(x =~= circuit_input_json(a).subrange(1, 1 + x.len() as int));
    assert(y =~= circuit_input_json(b).subrange(1, 1 + y.len() as int));
    assert(circuit_input_json(a).len() == x.len() + 2);
    assert(circuit_input_json(b).len() == y.len() + 2);
    lemma_hash_inputs_json_injective(a, b);
}

} // verus!
