//! The query of a request: an ordered list of name and value pairs, filled
//! only with the fields that are present, and written in the
//! `application/x-www-form-urlencoded` form.

use vstd::prelude::*;
use vstd::utf8::{encode_utf8, is_ascii_chars, is_ascii_chars_encode_utf8};
use crate::percent::{escape, lemma_hex_digit_value};
use crate::text::{
    decimal, lemma_decimal_shape, lemma_occurrences_concat, lemma_occurrences_none, occurrences, signed_to_string,
    unsigned_to_string,
};

verus! {

/// The bytes that the form encoding leaves as they are.
pub open spec fn is_form_plain(b: u8) -> bool {
    ||| 0x41 <= b <= 0x5A
    ||| 0x61 <= b <= 0x7A
    ||| 0x30 <= b <= 0x39
    ||| b == 0x2A
    ||| b == 0x2D
    ||| b == 0x2E
    ||| b == 0x5F
}

/// What one byte becomes in the form encoding: itself, `+` for a space, or
/// `%` and its two hexadecimal digits.
pub open spec fn form_byte(b: u8) -> Seq<char> {
    if is_form_plain(b) {
        seq![b as char]
    } else if b == 0x20 {
        seq!['+']
    } else {
        escape(b)
    }
}

/// The form encoding of a byte string.
pub open spec fn form_bytes(bytes: Seq<u8>) -> Seq<char>
    decreases bytes.len(),
{
    if bytes.len() == 0 {
        Seq::empty()
    } else {
        form_bytes(bytes.drop_last()) + form_byte(bytes.last())
    }
}

/// The form encoding of a text, taken over its UTF-8 bytes.
pub open spec fn form_text(text: Seq<char>) -> Seq<char> {
    form_bytes(encode_utf8(text))
}

/// One pair as it stands in a query: the name, `=`, the value, both encoded.
pub open spec fn form_pair(pair: (Seq<char>, Seq<char>)) -> Seq<char> {
    form_text(pair.0) + seq!['='] + form_text(pair.1)
}

/// A list of pairs as a query: the pairs in order, with `&` between them.
pub open spec fn form_query(pairs: Seq<(Seq<char>, Seq<char>)>) -> Seq<char>
    decreases pairs.len(),
{
    if pairs.len() == 0 {
        Seq::empty()
    } else if pairs.len() == 1 {
        form_pair(pairs[0])
    } else {
        form_query(pairs.drop_last()) + seq!['&'] + form_pair(pairs.last())
    }
}

/// How many pairs of a list carry the given name.
pub open spec fn count_name(pairs: Seq<(Seq<char>, Seq<char>)>, name: Seq<char>) -> nat
    decreases pairs.len(),
{
    if pairs.len() == 0 {
        0
    } else {
        count_name(pairs.drop_last(), name) + if pairs.last().0 == name {
            1nat
        } else {
            0nat
        }
    }
}

/// A list with a text field added: the pair stands at the end when the
/// value is not empty, and the list is unchanged when it is.
pub open spec fn with_text(
    pairs: Seq<(Seq<char>, Seq<char>)>,
    name: Seq<char>,
    value: Seq<char>,
) -> Seq<(Seq<char>, Seq<char>)> {
    if value.len() > 0 {
        pairs.push((name, value))
    } else {
        pairs
    }
}

/// A list with a numeric field added: the pair stands at the end, the value
/// as a decimal numeral, when the number is above zero, and the list is
/// unchanged when it is not.
pub open spec fn with_number(
    pairs: Seq<(Seq<char>, Seq<char>)>,
    name: Seq<char>,
    value: int,
) -> Seq<(Seq<char>, Seq<char>)> {
    if value > 0 {
        pairs.push((name, decimal(value)))
    } else {
        pairs
    }
}

/// The error type of `serde_urlencoded`'s serializer, carried as it is:
/// nothing is said of what a value of it holds.
#[verifier::external_type_specification]
#[verifier::external_body]
pub struct ExUrlencodedError(serde_urlencoded::ser::Error);

/// `serde_urlencoded::to_string` on a list of string pairs. Not proved; the
/// contract says what the serializer's source shows.
///
/// The serializer takes a sequence of two-element tuples whose parts are
/// strings: its errors are for other shapes and for byte strings that are
/// not UTF-8, so on this type it returns `Ok`. It writes each pair as name,
/// `=`, value, with `&` before a pair when something is written already:
/// a pair writes at least its `=`, so that is before every pair but the
/// first. Names and values go through the byte serializer of
/// `form_urlencoded`, which keeps ASCII letters, digits, `*`, `-`, `.` and
/// `_`, writes a space as `+`, and writes any other byte as `%` and two
/// upper-case hexadecimal digits.
#[verifier::external_body]
fn form_urlencode(pairs: &Vec<(String, String)>) -> (r: Result<
    String,
    serde_urlencoded::ser::Error,
>)
    ensures
        r is Ok,
        r->Ok_0@ == form_query(pairs.deep_view()),
{
    serde_urlencoded::to_string(pairs)
}

/// The query arguments of one request, in the order in which they were
/// added.
pub struct QueryArgs {
    pub pairs: Vec<(String, String)>,
}

impl View for QueryArgs {
    type V = Seq<(Seq<char>, Seq<char>)>;

    open spec fn view(&self) -> Seq<(Seq<char>, Seq<char>)> {
        self.pairs.deep_view()
    }
}

impl QueryArgs {
    /// A list without arguments.
    pub fn new() -> (args: QueryArgs)
        ensures
            args@ == Seq::<(Seq<char>, Seq<char>)>::empty(),
    {
        let args = QueryArgs { pairs: Vec::new() };
        proof {
            assert(args@ =~= Seq::<(Seq<char>, Seq<char>)>::empty());
        }
        args
    }

    fn push_pair(&mut self, name: &str, value: String)
        ensures
            final(self)@ == old(self)@.push((name@, value@)),
    {
        self.pairs.push((name.to_owned(), value));
        proof {
            assert(self@ =~= old(self)@.push((name@, value@)));
        }
    }

    /// Adds a text field, unless its value is empty.
    pub fn add_text(&mut self, name: &str, value: &str)
        ensures
            final(self)@ == with_text(old(self)@, name@, value@),
    {
        if !value.is_empty() {
            self.push_pair(name, value.to_owned());
        }
    }

    /// Adds a numeric field, unless its value is zero or below.
    pub fn add_number(&mut self, name: &str, value: i64)
        ensures
            final(self)@ == with_number(old(self)@, name@, value as int),
    {
        if value > 0 {
            self.push_pair(name, signed_to_string(value));
        }
    }

    /// Adds an unsigned numeric field, unless its value is zero.
    pub fn add_count(&mut self, name: &str, value: u64)
        ensures
            final(self)@ == with_number(old(self)@, name@, value as int),
    {
        if value > 0 {
            self.push_pair(name, unsigned_to_string(value));
        }
    }

    /// Writes the arguments as a query string, without the leading `?`.
    pub fn encode(&self) -> (query: String)
        ensures
            query@ == form_query(self@),
    {
        form_urlencode(&self.pairs).unwrap()
    }
}

/// A text field that is empty leaves the list as it was. One that is not
/// adds its pair, which is one more pair under its name and none under
/// another. Either way every pair that was in the list stays.
pub proof fn lemma_count_with_text(
    pairs: Seq<(Seq<char>, Seq<char>)>,
    name: Seq<char>,
    value: Seq<char>,
    other: Seq<char>,
)
    ensures
        value.len() == 0 ==> with_text(pairs, name, value) == pairs,
        value.len() > 0 ==> with_text(pairs, name, value).contains((name, value)),
        forall|p: (Seq<char>, Seq<char>)|
            pairs.contains(p) ==> #[trigger] with_text(pairs, name, value).contains(p),
        count_name(with_text(pairs, name, value), other) == count_name(pairs, other) + if value.len()
            > 0 && other == name {
            1nat
        } else {
            0nat
        },
{
    if value.len() > 0 {
        let longer = pairs.push((name, value));
        assert(longer.drop_last() == pairs);
        assert(longer[pairs.len() as int] == (name, value));
        assert forall|p: (Seq<char>, Seq<char>)| pairs.contains(p) implies longer.contains(p) by {
            let i = choose|i: int| 0 <= i < pairs.len() && pairs[i] == p;
            assert(longer[i] == p);
        }
    }
}

/// A number at zero or below leaves the list as it was. A number above zero
/// adds its pair, with its decimal numeral as the value, which is one more
/// pair under its name and none under another. Either way every pair that
/// was in the list stays.
pub proof fn lemma_count_with_number(
    pairs: Seq<(Seq<char>, Seq<char>)>,
    name: Seq<char>,
    value: int,
    other: Seq<char>,
)
    ensures
        value <= 0 ==> with_number(pairs, name, value) == pairs,
        value > 0 ==> with_number(pairs, name, value).contains((name, decimal(value))),
        forall|p: (Seq<char>, Seq<char>)|
            pairs.contains(p) ==> #[trigger] with_number(pairs, name, value).contains(p),
        count_name(with_number(pairs, name, value), other) == count_name(pairs, other) + if value
            > 0 && other == name {
            1nat
        } else {
            0nat
        },
{
    if value > 0 {
        let longer = pairs.push((name, decimal(value)));
        assert(longer.drop_last() == pairs);
        assert(longer[pairs.len() as int] == (name, decimal(value)));
        assert forall|p: (Seq<char>, Seq<char>)| pairs.contains(p) implies longer.contains(p) by {
            let i = choose|i: int| 0 <= i < pairs.len() && pairs[i] == p;
            assert(longer[i] == p);
        }
    }
}

/// The text between the start of a query and its pair number `i`.
pub open spec fn query_before(pairs: Seq<(Seq<char>, Seq<char>)>, i: int) -> Seq<char> {
    if i == 0 {
        Seq::empty()
    } else {
        form_query(pairs.take(i)) + seq!['&']
    }
}

/// The text between pair number `i` of a query and its end.
pub open spec fn query_after(pairs: Seq<(Seq<char>, Seq<char>)>, i: int) -> Seq<char>
    decreases pairs.len(),
{
    if pairs.len() == 0 || pairs.len() <= i + 1 {
        Seq::empty()
    } else {
        query_after(pairs.drop_last(), i) + seq!['&'] + form_pair(pairs.last())
    }
}

/// Every pair of the list stands in the query as `name=value`, both parts
/// encoded: after the pairs before it and before the pairs after it.
pub proof fn lemma_query_holds_pair(pairs: Seq<(Seq<char>, Seq<char>)>, i: int)
    requires
        0 <= i < pairs.len(),
    ensures
        form_query(pairs) == query_before(pairs, i) + form_pair(pairs[i]) + query_after(pairs, i),
    decreases pairs.len(),
{
    if i + 1 == pairs.len() {
        assert(pairs.take(i) == pairs.drop_last());
        assert(form_query(pairs) =~= query_before(pairs, i) + form_pair(pairs[i]) + query_after(
            pairs,
            i,
        ));
    } else {
        let front = pairs.drop_last();
        lemma_query_holds_pair(front, i);
        assert(front.take(i) == pairs.take(i));
        assert(front[i] == pairs[i]);
        assert(form_query(pairs) =~= query_before(pairs, i) + form_pair(pairs[i]) + query_after(
            pairs,
            i,
        ));
    }
}

/// A pair that the list holds stands in the query as `name=value`, both
/// parts encoded, between some text before it and some text after it.
pub proof fn lemma_query_holds_present_pair(
    pairs: Seq<(Seq<char>, Seq<char>)>,
    pair: (Seq<char>, Seq<char>),
)
    requires
        pairs.contains(pair),
    ensures
        exists|before: Seq<char>, after: Seq<char>|
            form_query(pairs) == #[trigger] (before + form_pair(pair) + after),
{
    let i = choose|i: int| 0 <= i < pairs.len() && pairs[i] == pair;
    lemma_query_holds_pair(pairs, i);
    let before = query_before(pairs, i);
    let after = query_after(pairs, i);
    assert(form_query(pairs) == before + form_pair(pair) + after);
}

/// The characters that an encoded name or value is made of: neither `&` nor
/// `=` is among them.
pub open spec fn is_form_char(c: char) -> bool {
    ||| 'A' <= c <= 'Z'
    ||| 'a' <= c <= 'z'
    ||| '0' <= c <= '9'
    ||| c == '*'
    ||| c == '-'
    ||| c == '.'
    ||| c == '_'
    ||| c == '+'
    ||| c == '%'
}

/// Every character of a form-encoded byte string is a letter, a digit, one
/// of `*`, `-`, `.`, `_`, or `+` or `%`.
pub proof fn lemma_form_chars(bytes: Seq<u8>)
    ensures
        forall|i: int|
            0 <= i < form_bytes(bytes).len() ==> is_form_char(#[trigger] form_bytes(bytes)[i]),
    decreases bytes.len(),
{
    if bytes.len() > 0 {
        let front = form_bytes(bytes.drop_last());
        let b = bytes.last();
        let tail = form_byte(b);
        lemma_form_chars(bytes.drop_last());
        lemma_hex_digit_value(b / 16);
        lemma_hex_digit_value(b % 16);
        if is_form_plain(b) {
            assert(is_form_char(b as char));
        }
        assert forall|i: int| 0 <= i < form_bytes(bytes).len() implies is_form_char(
            #[trigger] form_bytes(bytes)[i],
        ) by {
            if i < front.len() {
                assert(form_bytes(bytes)[i] == front[i]);
            } else {
                assert(form_bytes(bytes)[i] == tail[i - front.len()]);
            }
        }
    }
}

/// A byte string of bytes that the form encoding leaves as they are is
/// encoded as these bytes, one character for each.
pub proof fn lemma_plain_form_bytes(bytes: Seq<u8>)
    requires
        forall|i: int| 0 <= i < bytes.len() ==> is_form_plain(#[trigger] bytes[i]),
    ensures
        form_bytes(bytes).len() == bytes.len(),
        forall|i: int| 0 <= i < bytes.len() ==> #[trigger] form_bytes(bytes)[i] == bytes[i] as char,
    decreases bytes.len(),
{
    if bytes.len() > 0 {
        lemma_plain_form_bytes(bytes.drop_last());
    }
}

/// A name or a value made of letters, digits and `*`, `-`, `.`, `_` alone
/// stands in the query as it was given.
pub proof fn lemma_plain_text(text: Seq<char>)
    requires
        forall|i: int|
            0 <= i < text.len() ==> {
                let c = #[trigger] text[i];
                is_form_char(c) && c != '+' && c != '%'
            },
    ensures
        form_text(text) == text,
{
    let bytes = encode_utf8(text);
    assert forall|i: int| 0 <= i < text.len() implies '\0' <= #[trigger] text[i] <= '\u{7f}' by {
        assert(is_form_char(text[i]));
    }
    assert(is_ascii_chars(text));
    is_ascii_chars_encode_utf8(text);
    assert forall|i: int| 0 <= i < bytes.len() implies is_form_plain(#[trigger] bytes[i]) by {
        assert(is_form_char(text[i]));
        assert(bytes[i] == text[i] as u8);
    }
    lemma_plain_form_bytes(bytes);
    assert forall|i: int| 0 <= i < text.len() implies form_text(text)[i] == text[i] by {
        assert(is_form_char(text[i]));
        assert(bytes[i] == text[i] as u8);
        assert(form_bytes(bytes)[i] == bytes[i] as char);
    }
    assert(form_text(text) =~= text);
}

/// A numeric field stands in the query as the encoded name, `=`, and the
/// decimal numeral of the number.
pub proof fn lemma_number_pair(name: Seq<char>, n: int)
    ensures
        form_pair((name, decimal(n))) == form_text(name) + seq!['='] + decimal(n),
{
    lemma_decimal_shape(n);
    lemma_plain_text(decimal(n));
}

/// One pair in a query holds `=` once and `&` not at all, whatever its name
/// and value hold.
pub proof fn lemma_pair_separators(pair: (Seq<char>, Seq<char>))
    ensures
        occurrences(form_pair(pair), '=') == 1,
        occurrences(form_pair(pair), '&') == 0,
{
    let name = form_text(pair.0);
    let value = form_text(pair.1);
    lemma_form_chars(encode_utf8(pair.0));
    lemma_form_chars(encode_utf8(pair.1));
    lemma_occurrences_none(name, '=');
    lemma_occurrences_none(name, '&');
    lemma_occurrences_none(value, '=');
    lemma_occurrences_none(value, '&');
    assert(occurrences(seq!['='], '=') == 1 && occurrences(seq!['='], '&') == 0) by {
        assert(seq!['='].drop_last() == Seq::<char>::empty());
        reveal_with_fuel(occurrences, 2);
    }
    lemma_occurrences_concat(name, seq!['='], '=');
    lemma_occurrences_concat(name, seq!['='], '&');
    lemma_occurrences_concat(name + seq!['='], value, '=');
    lemma_occurrences_concat(name + seq!['='], value, '&');
}

/// A query holds one `=` for each pair and one `&` between two pairs that
/// follow each other, and no others: what a name or a value holds never
/// splits a pair or adds one.
pub proof fn lemma_query_separators(pairs: Seq<(Seq<char>, Seq<char>)>)
    ensures
        occurrences(form_query(pairs), '=') == pairs.len(),
        occurrences(form_query(pairs), '&') == if pairs.len() == 0 {
            0
        } else {
            pairs.len() - 1
        },
    decreases pairs.len(),
{
    if pairs.len() == 1 {
        lemma_pair_separators(pairs[0]);
    } else if pairs.len() > 1 {
        let front = form_query(pairs.drop_last());
        let last = form_pair(pairs.last());
        lemma_query_separators(pairs.drop_last());
        lemma_pair_separators(pairs.last());
        assert(occurrences(seq!['&'], '&') == 1 && occurrences(seq!['&'], '=') == 0) by {
            assert(seq!['&'].drop_last() == Seq::<char>::empty());
            reveal_with_fuel(occurrences, 2);
        }
        lemma_occurrences_concat(front, seq!['&'], '=');
        lemma_occurrences_concat(front, seq!['&'], '&');
        lemma_occurrences_concat(front + seq!['&'], last, '=');
        lemma_occurrences_concat(front + seq!['&'], last, '&');
    }
}

} // verus!
