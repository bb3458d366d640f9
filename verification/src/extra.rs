//! Extra data that is written behind a command.

use crate::json::{json_quoted, json_string};
use crate::text::{int_text, lemma_encoding_concat, push_int, push_text};
use vstd::prelude::*;
use vstd::std_specs::cmp::PartialEqSpec;
use vstd::utf8::{encode_utf8, is_ascii_chars_encode_utf8};

verus! {

/// How extra data is written behind a command.
#[derive(Clone, Copy, Debug, PartialEq, Eq, Structural)]
pub enum ExtraFormat {
    JsonArray,
    JsonMap,
    SpaceKeyValue,
    SpaceValue,
}

impl Default for ExtraFormat {
    fn default() -> (r: Self)
        ensures
            r == ExtraFormat::JsonMap,
    {
        ExtraFormat::JsonMap
    }
}

/// Named values, in the order in which they were configured.
#[derive(Clone, Debug)]
pub struct ExtraMap(pub Vec<(String, ExtraValue)>);

/// A floating-point number, by its IEEE 754 bits and by the two texts that it is written as.
#[derive(Clone, Debug)]
pub struct FloatValue {
    /// The bits of the 64-bit number.
    pub bits: u64,
    /// The number as plain text.
    pub text: String,
    /// The number as JSON, which is `null` for a number that JSON does not have.
    pub json: String,
}

/// A value of extra data.
#[derive(Clone, Debug)]
pub enum ExtraValue {
    Int(i64),
    Float(FloatValue),
    String(String),
}

/// The number without its sign, as bits.
pub open spec fn float_magnitude(bits: u64) -> int {
    bits as int % 0x8000_0000_0000_0000
}

/// The bits are not those of a number.
pub open spec fn float_is_nan(bits: u64) -> bool {
    float_magnitude(bits) > 0x7ff0_0000_0000_0000
}

/// Two floating-point numbers are equal: none of them is a NaN, and they are the same number, the
/// two zeros counting as one.
pub open spec fn same_float(a: u64, b: u64) -> bool {
    &&& !float_is_nan(a)
    &&& !float_is_nan(b)
    &&& a == b || (float_magnitude(a) == 0 && float_magnitude(b) == 0)
}

/// Two values are of the same kind and equal.
pub open spec fn same_value(a: ExtraValue, b: ExtraValue) -> bool {
    match (a, b) {
        (ExtraValue::Int(x), ExtraValue::Int(y)) => x == y,
        (ExtraValue::Float(x), ExtraValue::Float(y)) => same_float(x.bits, y.bits),
        (ExtraValue::String(x), ExtraValue::String(y)) => x@ == y@,
        _ => false,
    }
}

/// Two named values have the same name and equal values.
pub open spec fn same_pair(a: (String, ExtraValue), b: (String, ExtraValue)) -> bool {
    a.0@ == b.0@ && same_value(a.1, b.1)
}

/// Two maps hold equal named values in the same order.
pub open spec fn same_extra(a: Seq<(String, ExtraValue)>, b: Seq<(String, ExtraValue)>) -> bool {
    a.len() == b.len() && forall|i: int| 0 <= i < a.len() ==> same_pair(#[trigger] a[i], b[i])
}

impl PartialEq for FloatValue {
    fn eq(&self, other: &Self) -> (r: bool) {
        let left: u64 = self.bits % 0x8000_0000_0000_0000;
        let right: u64 = other.bits % 0x8000_0000_0000_0000;
        left <= 0x7ff0_0000_0000_0000 && right <= 0x7ff0_0000_0000_0000 && (self.bits == other.bits
            || (left == 0 && right == 0))
    }
}

impl vstd::std_specs::cmp::PartialEqSpecImpl for FloatValue {
    open spec fn obeys_eq_spec() -> bool {
        true
    }

    open spec fn eq_spec(&self, other: &Self) -> bool {
        same_float(self.bits, other.bits)
    }
}

impl PartialEq for ExtraValue {
    fn eq(&self, other: &Self) -> (r: bool) {
        match (self, other) {
            (ExtraValue::Int(x), ExtraValue::Int(y)) => *x == *y,
            (ExtraValue::Float(x), ExtraValue::Float(y)) => *x == *y,
            (ExtraValue::String(x), ExtraValue::String(y)) => *x == *y,
            _ => false,
        }
    }
}

impl vstd::std_specs::cmp::PartialEqSpecImpl for ExtraValue {
    open spec fn obeys_eq_spec() -> bool {
        true
    }

    open spec fn eq_spec(&self, other: &Self) -> bool {
        same_value(*self, *other)
    }
}

impl PartialEq for ExtraMap {
    fn eq(&self, other: &Self) -> (r: bool) {
        if self.0.len() != other.0.len() {
            return false;
        }
        let mut i: usize = 0;
        while i < self.0.len()
            invariant
                0 <= i <= self.0@.len(),
                self.0@.len() == other.0@.len(),
                forall|k: int| 0 <= k < i ==> same_pair(#[trigger] self.0@[k], other.0@[k]),
            decreases self.0@.len() - i,
        {
            if self.0[i].0 != other.0[i].0 || self.0[i].1 != other.0[i].1 {
                assert(!same_pair(self.0@[i as int], other.0@[i as int]));
                return false;
            }
            i = i + 1;
        }
        true
    }
}

impl vstd::std_specs::cmp::PartialEqSpecImpl for ExtraMap {
    open spec fn obeys_eq_spec() -> bool {
        true
    }

    open spec fn eq_spec(&self, other: &Self) -> bool {
        same_extra(self.0@, other.0@)
    }
}

/// The value as plain text.
pub open spec fn value_text(value: ExtraValue) -> Seq<char> {
    match value {
        ExtraValue::Int(x) => int_text(x as int),
        ExtraValue::Float(x) => x.text@,
        ExtraValue::String(x) => x@,
    }
}

/// The value as JSON.
pub open spec fn value_json(value: ExtraValue) -> Seq<char> {
    match value {
        ExtraValue::Int(x) => int_text(x as int),
        ExtraValue::Float(x) => x.json@,
        ExtraValue::String(x) => json_quoted(x@),
    }
}

/// One entry of a JSON object.
pub open spec fn entry_json(pair: (String, ExtraValue)) -> Seq<char> {
    json_quoted(pair.0@) + seq![':'] + value_json(pair.1)
}

/// One named value behind a space.
pub open spec fn entry_text(pair: (String, ExtraValue)) -> Seq<char> {
    seq![' '] + pair.0@ + seq!['='] + value_text(pair.1)
}

/// The parts one behind the other, with commas in between.
pub open spec fn comma_joined(parts: Seq<Seq<char>>) -> Seq<char>
    decreases parts.len(),
{
    if parts.len() == 0 {
        Seq::empty()
    } else if parts.len() == 1 {
        parts[0]
    } else {
        comma_joined(parts.drop_last()) + seq![','] + parts.last()
    }
}

/// What is written behind a command: nothing where there is no extra data, else a space followed
/// by the data as a JSON array of the values or as a JSON object, or each value (with its name
/// and an equals sign, or alone) behind a space of its own.
pub open spec fn extra_text(format: ExtraFormat, pairs: Seq<(String, ExtraValue)>) -> Seq<char> {
    if pairs.len() == 0 {
        Seq::empty()
    } else {
        match format {
            ExtraFormat::JsonArray => seq![' ', '['] + comma_joined(
                pairs.map_values(|pair: (String, ExtraValue)| value_json(pair.1)),
            ) + seq![']'],
            ExtraFormat::JsonMap => seq![' ', '{'] + comma_joined(
                pairs.map_values(|pair: (String, ExtraValue)| entry_json(pair)),
            ) + seq!['}'],
            ExtraFormat::SpaceKeyValue => pairs.flat_map(
                |pair: (String, ExtraValue)| entry_text(pair),
            ),
            ExtraFormat::SpaceValue => pairs.flat_map(
                |pair: (String, ExtraValue)| seq![' '] + value_text(pair.1),
            ),
        }
    }
}

/// Where there is extra data, something is written behind the command.
pub proof fn lemma_extra_data_shows(format: ExtraFormat, pairs: Seq<(String, ExtraValue)>)
    requires
        pairs.len() > 0,
    ensures
        extra_text(format, pairs).len() > 0,
{
    let named = |pair: (String, ExtraValue)| entry_text(pair);
    let alone = |pair: (String, ExtraValue)| seq![' '] + value_text(pair.1);
    assert(pairs.map_values(named).first() == entry_text(pairs[0]));
    assert(pairs.flat_map(named).len() >= entry_text(pairs[0]).len());
    assert(pairs.map_values(alone).first() == seq![' '] + value_text(pairs[0].1));
    assert(pairs.flat_map(alone).len() >= 1);
}

/// Appends one ASCII character.
fn push_ascii(out: &mut Vec<u8>, c: char)
    requires
        (c as u32) < 128,
    ensures
        final(out)@ == old(out)@ + encode_utf8(seq![c]),
{
    out.push(c as u8);
    proof {
        let one: Seq<char> = seq![c];
        is_ascii_chars_encode_utf8(one);
        assert(out@ =~= old(out)@ + encode_utf8(one));
    }
}

/// Where two pieces of text were appended in turn, their concatenation was.
proof fn lemma_appended(start: Seq<u8>, a: Seq<char>, b: Seq<char>)
    ensures
        start + encode_utf8(a) + encode_utf8(b) == start + encode_utf8(a + b),
{
    lemma_encoding_concat(a, b);
    assert(start + encode_utf8(a) + encode_utf8(b) =~= start + (encode_utf8(a) + encode_utf8(b)));
}

impl ExtraValue {
    /// Appends the value as plain text.
    pub fn push_plain(&self, out: &mut Vec<u8>)
        ensures
            final(out)@ == old(out)@ + encode_utf8(value_text(*self)),
    {
        match self {
            ExtraValue::Int(x) => push_int(out, *x),
            ExtraValue::Float(x) => push_text(out, x.text.as_str()),
            ExtraValue::String(x) => push_text(out, x.as_str()),
        }
    }

    /// The value as plain text.
    pub fn to_text(&self) -> (r: String)
        ensures
            r@ == value_text(*self),
    {
        match self {
            ExtraValue::Int(x) => crate::text::decimal(*x),
            ExtraValue::Float(x) => x.text.clone(),
            ExtraValue::String(x) => x.clone(),
        }
    }

    /// Appends the value as JSON.
    pub fn push_json(&self, out: &mut Vec<u8>) -> (r: Result<(), ::serde_json::Error>)
        ensures
            r is Ok,
            final(out)@ == old(out)@ + encode_utf8(value_json(*self)),
    {
        match self {
            ExtraValue::Int(x) => push_int(out, *x),
            ExtraValue::Float(x) => push_text(out, x.json.as_str()),
            ExtraValue::String(x) => {
                let quoted: String = match json_string(x.as_str()) {
                    Ok(quoted) => quoted,
                    Err(e) => {
                        return Err(e);
                    },
                };
                push_text(out, quoted.as_str());
            },
        }
        Ok(())
    }
}

impl ExtraFormat {
    /// Appends the extra data to `writer`, behind what it holds already.
    pub fn write(&self, writer: &mut Vec<u8>, pairs: &Vec<(String, ExtraValue)>) -> (r: Result<
        (),
        ::serde_json::Error,
    >)
        ensures
            r is Ok,
            final(writer)@ == old(writer)@ + encode_utf8(extra_text(*self, pairs@)),
    {
        if pairs.len() == 0 {
            assert(encode_utf8(Seq::<char>::empty()) =~= Seq::<u8>::empty());
            assert(writer@ =~= old(writer)@ + encode_utf8(extra_text(*self, pairs@)));
            return Ok(());
        }
        match self {
            ExtraFormat::JsonArray => write_json_array(writer, pairs),
            ExtraFormat::JsonMap => write_json_map(writer, pairs),
            ExtraFormat::SpaceKeyValue => {
                write_key_values(writer, pairs);
                Ok(())
            },
            ExtraFormat::SpaceValue => {
                write_values(writer, pairs);
                Ok(())
            },
        }
    }
}

fn write_json_array(writer: &mut Vec<u8>, pairs: &Vec<(String, ExtraValue)>) -> (r: Result<
    (),
    ::serde_json::Error,
>)
    requires
        pairs@.len() > 0,
    ensures
        r is Ok,
        final(writer)@ == old(writer)@ + encode_utf8(extra_text(ExtraFormat::JsonArray, pairs@)),
{
    let ghost start: Seq<u8> = writer@;
    let ghost open: Seq<char> = seq![' ', '['];
    let ghost parts: Seq<Seq<char>> = pairs@.map_values(
        |pair: (String, ExtraValue)| value_json(pair.1),
    );
    push_ascii(writer, ' ');
    push_ascii(writer, '[');
    proof {
        lemma_appended(start, seq![' '], seq!['[']);
        assert(seq![' '] + seq!['['] =~= open);
        assert(open + comma_joined(parts.take(0)) =~= open);
    }
    let mut i: usize = 0;
    while i < pairs.len()
        invariant
            0 <= i <= pairs@.len(),
            parts == pairs@.map_values(|pair: (String, ExtraValue)| value_json(pair.1)),
            writer@ == start + encode_utf8(open + comma_joined(parts.take(i as int))),
        decreases pairs@.len() - i,
    {
        let ghost done: Seq<char> = open + comma_joined(parts.take(i as int));
        if i > 0 {
            push_ascii(writer, ',');
            proof {
                lemma_appended(start, done, seq![',']);
            }
        }
        let ghost before: Seq<char> = if i > 0 {
            done + seq![',']
        } else {
            done
        };
        match pairs[i].1.push_json(writer) {
            Ok(()) => {},
            Err(e) => {
                return Err(e);
            },
        }
        proof {
            lemma_appended(start, before, parts[i as int]);
            assert(parts.take(i + 1).drop_last() =~= parts.take(i as int));
            assert(before + parts[i as int] =~= open + comma_joined(parts.take(i + 1)));
        }
        i = i + 1;
    }
    push_ascii(writer, ']');
    proof {
        assert(parts.take(i as int) =~= parts);
        lemma_appended(start, open + comma_joined(parts), seq![']']);
    }
    Ok(())
}

fn write_json_map(writer: &mut Vec<u8>, pairs: &Vec<(String, ExtraValue)>) -> (r: Result<
    (),
    ::serde_json::Error,
>)
    requires
        pairs@.len() > 0,
    ensures
        r is Ok,
        final(writer)@ == old(writer)@ + encode_utf8(extra_text(ExtraFormat::JsonMap, pairs@)),
{
    let ghost start: Seq<u8> = writer@;
    let ghost open: Seq<char> = seq![' ', '{'];
    let ghost parts: Seq<Seq<char>> = pairs@.map_values(
        |pair: (String, ExtraValue)| entry_json(pair),
    );
    push_ascii(writer, ' ');
    push_ascii(writer, '{');
    proof {
        lemma_appended(start, seq![' '], seq!['{']);
        assert(seq![' '] + seq!['{'] =~= open);
        assert(open + comma_joined(parts.take(0)) =~= open);
    }
    let mut i: usize = 0;
    while i < pairs.len()
        invariant
            0 <= i <= pairs@.len(),
            parts == pairs@.map_values(|pair: (String, ExtraValue)| entry_json(pair)),
            writer@ == start + encode_utf8(open + comma_joined(parts.take(i as int))),
        decreases pairs@.len() - i,
    {
        let ghost done: Seq<char> = open + comma_joined(parts.take(i as int));
        if i > 0 {
            push_ascii(writer, ',');
            proof {
                lemma_appended(start, done, seq![',']);
            }
        }
        let ghost before: Seq<char> = if i > 0 {
            done + seq![',']
        } else {
            done
        };
        let key: String = match json_string(pairs[i].0.as_str()) {
            Ok(key) => key,
            Err(e) => {
                return Err(e);
            },
        };
        push_text(writer, key.as_str());
        push_ascii(writer, ':');
        match pairs[i].1.push_json(writer) {
            Ok(()) => {},
            Err(e) => {
                return Err(e);
            },
        }
        proof {
            let value: Seq<char> = value_json(pairs@[i as int].1);
            lemma_appended(start, before, key@);
            lemma_appended(start, before + key@, seq![':']);
            lemma_appended(start, before + key@ + seq![':'], value);
            assert(before + key@ + seq![':'] + value =~= before + parts[i as int]);
            assert(parts.take(i + 1).drop_last() =~= parts.take(i as int));
            assert(before + parts[i as int] =~= open + comma_joined(parts.take(i + 1)));
        }
        i = i + 1;
    }
    push_ascii(writer, '}');
    proof {
        assert(parts.take(i as int) =~= parts);
        lemma_appended(start, open + comma_joined(parts), seq!['}']);
    }
    Ok(())
}

fn write_key_values(writer: &mut Vec<u8>, pairs: &Vec<(String, ExtraValue)>)
    requires
        pairs@.len() > 0,
    ensures
        final(writer)@ == old(writer)@ + encode_utf8(
            extra_text(ExtraFormat::SpaceKeyValue, pairs@),
        ),
{
    let ghost start: Seq<u8> = writer@;
    let ghost part = |pair: (String, ExtraValue)| entry_text(pair);
    let mut i: usize = 0;
    proof {
        assert(pairs@.take(0).flat_map(part) =~= Seq::<char>::empty());
        assert(encode_utf8(Seq::<char>::empty()) =~= Seq::<u8>::empty());
        assert(start =~= start + encode_utf8(pairs@.take(0).flat_map(part)));
    }
    while i < pairs.len()
        invariant
            0 <= i <= pairs@.len(),
            part == (|pair: (String, ExtraValue)| entry_text(pair)),
            writer@ == start + encode_utf8(pairs@.take(i as int).flat_map(part)),
        decreases pairs@.len() - i,
    {
        let ghost done: Seq<char> = pairs@.take(i as int).flat_map(part);
        push_ascii(writer, ' ');
        push_text(writer, pairs[i].0.as_str());
        push_ascii(writer, '=');
        pairs[i].1.push_plain(writer);
        proof {
            let key: Seq<char> = pairs@[i as int].0@;
            let value: Seq<char> = value_text(pairs@[i as int].1);
            lemma_appended(start, done, seq![' ']);
            lemma_appended(start, done + seq![' '], key);
            lemma_appended(start, done + seq![' '] + key, seq!['=']);
            lemma_appended(start, done + seq![' '] + key + seq!['='], value);
            assert(done + seq![' '] + key + seq!['='] + value =~= done + part(pairs@[i as int]));
            pairs@.lemma_flat_map_take_append(part, i as int);
        }
        i = i + 1;
    }
    assert(pairs@.take(i as int) =~= pairs@);
}

fn write_values(writer: &mut Vec<u8>, pairs: &Vec<(String, ExtraValue)>)
    requires
        pairs@.len() > 0,
    ensures
        final(writer)@ == old(writer)@ + encode_utf8(extra_text(ExtraFormat::SpaceValue, pairs@)),
{
    let ghost start: Seq<u8> = writer@;
    let ghost part = |pair: (String, ExtraValue)| seq![' '] + value_text(pair.1);
    let mut i: usize = 0;
    proof {
        assert(pairs@.take(0).flat_map(part) =~= Seq::<char>::empty());
        assert(encode_utf8(Seq::<char>::empty()) =~= Seq::<u8>::empty());
        assert(start =~= start + encode_utf8(pairs@.take(0).flat_map(part)));
    }
    while i < pairs.len()
        invariant
            0 <= i <= pairs@.len(),
            part == (|pair: (String, ExtraValue)| seq![' '] + value_text(pair.1)),
            writer@ == start + encode_utf8(pairs@.take(i as int).flat_map(part)),
        decreases pairs@.len() - i,
    {
        let ghost done: Seq<char> = pairs@.take(i as int).flat_map(part);
        push_ascii(writer, ' ');
        pairs[i].1.push_plain(writer);
        proof {
            let value: Seq<char> = value_text(pairs@[i as int].1);
            lemma_appended(start, done, seq![' ']);
            lemma_appended(start, done + seq![' '], value);
            assert(done + seq![' '] + value =~= done + part(pairs@[i as int]));
            pairs@.lemma_flat_map_take_append(part, i as int);
        }
        i = i + 1;
    }
    assert(pairs@.take(i as int) =~= pairs@);
}

/// Floating-point numbers are compared as numbers: a NaN, whose exponent is all ones and whose fraction
/// is not zero, is equal to nothing, the two zeros are equal, and other numbers are equal if and only if
/// they have the same bits.
pub proof fn law_floats_compare_as_numbers(a: u64, b: u64)
    ensures
        ({
            let a_nan = (a as int / 0x10_0000_0000_0000) % 2048 == 2047 && a as int
                % 0x10_0000_0000_0000 != 0;
            let b_nan = (b as int / 0x10_0000_0000_0000) % 2048 == 2047 && b as int
                % 0x10_0000_0000_0000 != 0;
            let a_zero = a == 0 || a == 0x8000_0000_0000_0000;
            let b_zero = b == 0 || b == 0x8000_0000_0000_0000;
            same_float(a, b) <==> !a_nan && !b_nan && (a == b || (a_zero && b_zero))
        }),
{
}

/// Extra data counts as the same if and only if it holds the same names in the same order, each with
/// a value of the same kind and content.
pub proof fn law_same_extra_data(a: Seq<(String, ExtraValue)>, b: Seq<(String, ExtraValue)>)
    ensures
        same_extra(a, b) <==> a.len() == b.len() && (forall|i: int|
            0 <= i < a.len() ==> (#[trigger] a[i]).0@ == b[i].0@) && (forall|i: int|
            0 <= i < a.len() ==> match ((#[trigger] a[i]).1, b[i].1) {
                (ExtraValue::Int(x), ExtraValue::Int(y)) => x == y,
                (ExtraValue::Float(x), ExtraValue::Float(y)) => same_float(x.bits, y.bits),
                (ExtraValue::String(x), ExtraValue::String(y)) => x@ == y@,
                _ => false,
            }),
{
    if a.len() == b.len() && (forall|i: int| 0 <= i < a.len() ==> (#[trigger] a[i]).0@ == b[i].0@)
        && (forall|i: int|
        0 <= i < a.len() ==> match ((#[trigger] a[i]).1, b[i].1) {
            (ExtraValue::Int(x), ExtraValue::Int(y)) => x == y,
            (ExtraValue::Float(x), ExtraValue::Float(y)) => same_float(x.bits, y.bits),
            (ExtraValue::String(x), ExtraValue::String(y)) => x@ == y@,
            _ => false,
        }) {
        assert forall|i: int| 0 <= i < a.len() implies same_pair(#[trigger] a[i], b[i]) by {}
    }
    if same_extra(a, b) {
        assert forall|i: int| 0 <= i < a.len() implies (#[trigger] a[i]).0@ == b[i].0@ by {
            assert(same_pair(a[i], b[i]));
        }
        assert forall|i: int| 0 <= i < a.len() implies match ((#[trigger] a[i]).1, b[i].1) {
            (ExtraValue::Int(x), ExtraValue::Int(y)) => x == y,
            (ExtraValue::Float(x), ExtraValue::Float(y)) => same_float(x.bits, y.bits),
            (ExtraValue::String(x), ExtraValue::String(y)) => x@ == y@,
            _ => false,
        } by {
            assert(same_pair(a[i], b[i]));
        }
    }
}

/// `==` on extra data and its values means that they hold the same.
pub proof fn law_extra_data_is_compared_by_content(
    a: ExtraMap,
    b: ExtraMap,
    x: ExtraValue,
    y: ExtraValue,
    f: FloatValue,
    g: FloatValue,
)
    ensures
        a.eq_spec(&b) <==> same_extra(a.0@, b.0@),
        f.eq_spec(&g) <==> same_float(f.bits, g.bits),
        x.eq_spec(&y) <==> match (x, y) {
            (ExtraValue::Int(m), ExtraValue::Int(n)) => m == n,
            (ExtraValue::Float(m), ExtraValue::Float(n)) => same_float(m.bits, n.bits),
            (ExtraValue::String(m), ExtraValue::String(n)) => m@ == n@,
            _ => false,
        },
{
}

} // verus!
