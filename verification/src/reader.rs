//! Reading back what is written behind a command.

use crate::extra::{
    comma_joined, entry_json, extra_text, value_json, value_text, ExtraFormat, ExtraValue,
};
use crate::json::{hex_char, json_escaped, json_quoted, lemma_contents_front};
use crate::text::{int_text, lemma_nat_text_digits, nat_text};
use vstd::prelude::*;

verus! {

/// A JSON value as it is read: a string by its text, anything else as it stands.
pub enum JsonItem {
    Text(Seq<char>),
    Bare(Seq<char>),
}

/// The value of a hexadecimal digit.
pub open spec fn hex_digit_value(c: char) -> int {
    if '0' <= c <= '9' {
        c as int - 48
    } else {
        c as int - 87
    }
}

/// The character that a backslash and a letter stand for.
pub open spec fn escape_meaning(letter: char) -> char {
    if letter == 'b' {
        8 as char
    } else if letter == 't' {
        9 as char
    } else if letter == 'n' {
        10 as char
    } else if letter == 'f' {
        12 as char
    } else if letter == 'r' {
        13 as char
    } else {
        letter
    }
}

/// Reads a JSON string behind its opening quote: its text, and what follows the closing quote.
pub open spec fn read_text(s: Seq<char>) -> Option<(Seq<char>, Seq<char>)>
    decreases s.len(),
{
    if s.len() == 0 {
        None
    } else if s[0] == '"' {
        Some((Seq::empty(), s.skip(1)))
    } else if s[0] != '\\' {
        match read_text(s.skip(1)) {
            Some((text, rest)) => Some((seq![s[0]] + text, rest)),
            None => None,
        }
    } else if s.len() < 2 {
        None
    } else if s[1] == 'u' {
        if s.len() < 6 {
            None
        } else {
            let code = 4096 * hex_digit_value(s[2]) + 256 * hex_digit_value(s[3]) + 16
                * hex_digit_value(s[4]) + hex_digit_value(s[5]);
            match read_text(s.skip(6)) {
                Some((text, rest)) => Some((seq![code as char] + text, rest)),
                None => None,
            }
        }
    } else {
        match read_text(s.skip(2)) {
            Some((text, rest)) => Some((seq![escape_meaning(s[1])] + text, rest)),
            None => None,
        }
    }
}

/// The character ends a value that is not a string.
pub open spec fn ends_value(c: char) -> bool {
    c == ',' || c == '}' || c == ']'
}

/// Reads up to the end of a value that is not a string.
pub open spec fn read_bare(s: Seq<char>) -> (Seq<char>, Seq<char>)
    decreases s.len(),
{
    if s.len() == 0 || ends_value(s[0]) {
        (Seq::empty(), s)
    } else {
        let (token, rest) = read_bare(s.skip(1));
        (seq![s[0]] + token, rest)
    }
}

/// Reads a value, and what follows it.
pub open spec fn read_item(s: Seq<char>) -> Option<(JsonItem, Seq<char>)> {
    if s.len() > 0 && s[0] == '"' {
        match read_text(s.skip(1)) {
            Some((text, rest)) => Some((JsonItem::Text(text), rest)),
            None => None,
        }
    } else {
        let (token, rest) = read_bare(s);
        if token.len() == 0 {
            None
        } else {
            Some((JsonItem::Bare(token), rest))
        }
    }
}

/// Reads the values of an array behind its opening bracket, or behind a comma in it.
pub open spec fn read_items(s: Seq<char>) -> Option<Seq<JsonItem>>
    decreases s.len(),
{
    match read_item(s) {
        Some((item, rest)) => if rest == seq![']'] {
            Some(seq![item])
        } else if 0 < rest.len() < s.len() && rest[0] == ',' {
            match read_items(rest.skip(1)) {
                Some(more) => Some(seq![item] + more),
                None => None,
            }
        } else {
            None
        },
        None => None,
    }
}

/// Reads an array.
pub open spec fn read_array(s: Seq<char>) -> Option<Seq<JsonItem>> {
    if s.len() > 0 && s[0] == '[' {
        read_items(s.skip(1))
    } else {
        None
    }
}

/// Reads the members of an object behind its opening brace, or behind a comma in it.
pub open spec fn read_members(s: Seq<char>) -> Option<Seq<(Seq<char>, JsonItem)>>
    decreases s.len(),
{
    if s.len() == 0 || s[0] != '"' {
        None
    } else {
        match read_text(s.skip(1)) {
            Some((name, after)) => if after.len() == 0 || after[0] != ':' {
                None
            } else {
                match read_item(after.skip(1)) {
                    Some((item, rest)) => if rest == seq!['}'] {
                        Some(seq![(name, item)])
                    } else if 0 < rest.len() < s.len() && rest[0] == ',' {
                        match read_members(rest.skip(1)) {
                            Some(more) => Some(seq![(name, item)] + more),
                            None => None,
                        }
                    } else {
                        None
                    },
                    None => None,
                }
            },
            None => None,
        }
    }
}

/// Reads an object.
pub open spec fn read_object(s: Seq<char>) -> Option<Seq<(Seq<char>, JsonItem)>> {
    if s.len() > 0 && s[0] == '{' {
        read_members(s.skip(1))
    } else {
        None
    }
}

/// The value as it is read.
pub open spec fn item_of(value: ExtraValue) -> JsonItem {
    match value {
        ExtraValue::Int(x) => JsonItem::Bare(int_text(x as int)),
        ExtraValue::Float(x) => JsonItem::Bare(x.json@),
        ExtraValue::String(x) => JsonItem::Text(x@),
    }
}

/// A floating-point number has a JSON text, and nothing in it looks like the end of a value or the
/// beginning of a string.
pub open spec fn float_json_is_bare(value: ExtraValue) -> bool {
    match value {
        ExtraValue::Float(x) => {
            &&& x.json@.len() > 0
            &&& x.json@[0] != '"'
            &&& forall|i: int| 0 <= i < x.json@.len() ==> !ends_value(#[trigger] x.json@[i])
        },
        _ => true,
    }
}

proof fn lemma_escape_read(c: char, tail: Seq<char>)
    requires
        read_text(tail) is Some,
    ensures
        read_text(json_escaped(c) + tail) == Some(
            (seq![c] + read_text(tail)->Some_0.0, read_text(tail)->Some_0.1),
        ),
{
    let s = json_escaped(c) + tail;
    let n = json_escaped(c).len() as int;
    assert(s.skip(n) =~= tail);
    assert(s[0] == json_escaped(c)[0]);
    if n >= 2 {
        assert(s[1] == json_escaped(c)[1]);
    }
    if n == 6 {
        assert(s[2] == '0' && s[3] == '0');
        assert(s[4] == hex_char(c as int / 16));
        assert(s[5] == hex_char(c as int % 16));
        assert(c as int / 16 < 10 && c as int % 16 < 16);
        assert(hex_digit_value(s[4]) == c as int / 16);
        assert(hex_digit_value(s[5]) == c as int % 16);
    }
}

proof fn lemma_text_read(text: Seq<char>, rest: Seq<char>)
    ensures
        read_text(text.flat_map(|c: char| json_escaped(c)) + seq!['"'] + rest) == Some((text, rest)),
    decreases text.len(),
{
    let escape = |c: char| json_escaped(c);
    let s = text.flat_map(escape) + seq!['"'] + rest;
    if text.len() == 0 {
        assert(text.map_values(escape).len() == 0);
        assert(text.flat_map(escape).len() == 0);
        assert(s =~= seq!['"'] + rest);
        assert(s.skip(1) =~= rest);
        assert(text =~= Seq::empty());
    } else {
        let tail = text.drop_first().flat_map(escape) + seq!['"'] + rest;
        lemma_contents_front(text);
        lemma_text_read(text.drop_first(), rest);
        assert(s =~= json_escaped(text[0]) + tail);
        lemma_escape_read(text[0], tail);
        assert(seq![text[0]] + text.drop_first() =~= text);
    }
}

proof fn lemma_quoted_read(text: Seq<char>, rest: Seq<char>)
    ensures
        json_quoted(text).len() > 0,
        (json_quoted(text) + rest)[0] == '"',
        read_text((json_quoted(text) + rest).skip(1)) == Some((text, rest)),
{
    lemma_text_read(text, rest);
    assert((json_quoted(text) + rest).skip(1) =~= text.flat_map(|c: char| json_escaped(c))
        + seq!['"'] + rest);
}

proof fn lemma_bare_read(token: Seq<char>, rest: Seq<char>)
    requires
        forall|i: int| 0 <= i < token.len() ==> !ends_value(#[trigger] token[i]),
        rest.len() > 0,
        ends_value(rest[0]),
    ensures
        read_bare(token + rest) == (token, rest),
    decreases token.len(),
{
    if token.len() == 0 {
        assert(token + rest =~= rest);
        assert(token =~= Seq::empty());
    } else {
        assert(!ends_value(token[0]));
        assert((token + rest).skip(1) =~= token.drop_first() + rest);
        assert forall|i: int| 0 <= i < token.drop_first().len() implies !ends_value(
            #[trigger] token.drop_first()[i],
        ) by {
            assert(!ends_value(token[i + 1]));
        }
        lemma_bare_read(token.drop_first(), rest);
        assert(seq![token[0]] + token.drop_first() =~= token);
    }
}

proof fn lemma_int_is_bare(x: int)
    ensures
        int_text(x).len() > 0,
        int_text(x)[0] != '"',
        forall|i: int| 0 <= i < int_text(x).len() ==> !ends_value(#[trigger] int_text(x)[i]),
{
    let magnitude: nat = if x < 0 {
        (-x) as nat
    } else {
        x as nat
    };
    lemma_nat_text_digits(magnitude);
    assert forall|i: int| 0 <= i < int_text(x).len() implies !ends_value(
        #[trigger] int_text(x)[i],
    ) by {
        if x < 0 {
            if i > 0 {
                assert(int_text(x)[i] == nat_text(magnitude)[i - 1]);
            }
        } else {
            assert(int_text(x)[i] == nat_text(magnitude)[i]);
        }
    }
    if x >= 0 {
        assert('0' <= nat_text(magnitude)[0] <= '9');
    }
}

proof fn lemma_item_read(value: ExtraValue, rest: Seq<char>)
    requires
        float_json_is_bare(value),
        rest.len() > 0,
        ends_value(rest[0]),
    ensures
        read_item(value_json(value) + rest) == Some((item_of(value), rest)),
        value_json(value).len() > 0,
{
    let s = value_json(value) + rest;
    match value {
        ExtraValue::Int(x) => {
            lemma_int_is_bare(x as int);
            lemma_bare_read(int_text(x as int), rest);
            assert(s[0] == int_text(x as int)[0]);
        },
        ExtraValue::Float(x) => {
            lemma_bare_read(x.json@, rest);
            assert(s[0] == x.json@[0]);
        },
        ExtraValue::String(x) => {
            lemma_quoted_read(x@, rest);
        },
    }
}

proof fn lemma_joined_front(parts: Seq<Seq<char>>)
    requires
        parts.len() > 1,
    ensures
        comma_joined(parts) == parts[0] + seq![','] + comma_joined(parts.drop_first()),
    decreases parts.len(),
{
    let rest = parts.drop_first();
    if parts.len() == 2 {
        assert(comma_joined(parts.drop_last()) == parts[0]);
        assert(comma_joined(rest) == parts.last());
    } else {
        lemma_joined_front(parts.drop_last());
        assert(parts.drop_last().drop_first() =~= rest.drop_last());
        assert(comma_joined(parts) =~= parts[0] + seq![','] + comma_joined(rest));
    }
}

proof fn lemma_items_read(pairs: Seq<(String, ExtraValue)>)
    requires
        pairs.len() > 0,
        forall|i: int| 0 <= i < pairs.len() ==> float_json_is_bare((#[trigger] pairs[i]).1),
    ensures
        read_items(
            comma_joined(pairs.map_values(|pair: (String, ExtraValue)| value_json(pair.1)))
                + seq![']'],
        ) == Some(pairs.map_values(|pair: (String, ExtraValue)| item_of(pair.1))),
    decreases pairs.len(),
{
    let part = |pair: (String, ExtraValue)| value_json(pair.1);
    let item = |pair: (String, ExtraValue)| item_of(pair.1);
    let s = comma_joined(pairs.map_values(part)) + seq![']'];
    let first = pairs[0].1;
    if pairs.len() == 1 {
        assert(pairs.map_values(part)[0] == value_json(first));
        assert(s =~= value_json(first) + seq![']']);
        lemma_item_read(first, seq![']']);
        assert(seq![item_of(first)] =~= pairs.map_values(item));
    } else {
        let later = pairs.drop_first();
        let tail = comma_joined(later.map_values(part)) + seq![']'];
        assert forall|i: int| 0 <= i < later.len() implies float_json_is_bare(
            (#[trigger] later[i]).1,
        ) by {
            assert(later[i] == pairs[i + 1]);
        }
        lemma_items_read(later);
        lemma_joined_front(pairs.map_values(part));
        assert(pairs.map_values(part).drop_first() =~= later.map_values(part));
        assert(s =~= value_json(first) + (seq![','] + tail));
        lemma_item_read(first, seq![','] + tail);
        assert((seq![','] + tail).skip(1) =~= tail);
        assert(tail.len() > 0);
        assert((seq![','] + tail) != seq![']']) by {
            assert((seq![','] + tail)[0] == ',');
        }
        assert(seq![item_of(first)] + later.map_values(item) =~= pairs.map_values(item));
    }
}

proof fn lemma_members_read(pairs: Seq<(String, ExtraValue)>)
    requires
        pairs.len() > 0,
        forall|i: int| 0 <= i < pairs.len() ==> float_json_is_bare((#[trigger] pairs[i]).1),
    ensures
        read_members(
            comma_joined(pairs.map_values(|pair: (String, ExtraValue)| entry_json(pair)))
                + seq!['}'],
        ) == Some(pairs.map_values(|pair: (String, ExtraValue)| (pair.0@, item_of(pair.1)))),
    decreases pairs.len(),
{
    let part = |pair: (String, ExtraValue)| entry_json(pair);
    let member = |pair: (String, ExtraValue)| (pair.0@, item_of(pair.1));
    let s = comma_joined(pairs.map_values(part)) + seq!['}'];
    let name = pairs[0].0@;
    let first = pairs[0].1;
    if pairs.len() == 1 {
        let after = seq![':'] + value_json(first) + seq!['}'];
        assert(pairs.map_values(part)[0] == entry_json(pairs[0]));
        assert(s =~= json_quoted(name) + after);
        lemma_quoted_read(name, after);
        assert(after.skip(1) =~= value_json(first) + seq!['}']);
        lemma_item_read(first, seq!['}']);
        assert(seq![(name, item_of(first))] =~= pairs.map_values(member));
    } else {
        let later = pairs.drop_first();
        let tail = comma_joined(later.map_values(part)) + seq!['}'];
        let after = seq![':'] + value_json(first) + (seq![','] + tail);
        assert forall|i: int| 0 <= i < later.len() implies float_json_is_bare(
            (#[trigger] later[i]).1,
        ) by {
            assert(later[i] == pairs[i + 1]);
        }
        lemma_members_read(later);
        lemma_joined_front(pairs.map_values(part));
        assert(pairs.map_values(part).drop_first() =~= later.map_values(part));
        assert(s =~= json_quoted(name) + after);
        lemma_quoted_read(name, after);
        assert(after.skip(1) =~= value_json(first) + (seq![','] + tail));
        lemma_item_read(first, seq![','] + tail);
        assert((seq![','] + tail).skip(1) =~= tail);
        assert((seq![','] + tail) != seq!['}']) by {
            assert((seq![','] + tail)[0] == ',');
        }
        assert(seq![(name, item_of(first))] + later.map_values(member) =~= pairs.map_values(
            member,
        ));
    }
}

/// As a JSON map, extra data is a space and an object that reads back as the given names with the
/// given values, all of them and in the given order, however many there are.
pub proof fn law_json_map_reads_back(pairs: Seq<(String, ExtraValue)>)
    requires
        pairs.len() > 0,
        forall|i: int| 0 <= i < pairs.len() ==> float_json_is_bare((#[trigger] pairs[i]).1),
    ensures
        extra_text(ExtraFormat::JsonMap, pairs).len() > 0,
        extra_text(ExtraFormat::JsonMap, pairs)[0] == ' ',
        read_object(extra_text(ExtraFormat::JsonMap, pairs).skip(1)) matches Some(members) && {
            &&& members.len() == pairs.len()
            &&& forall|i: int|
                0 <= i < pairs.len() ==> (#[trigger] members[i]).0 == pairs[i].0@ && members[i].1
                    == (match pairs[i].1 {
                    ExtraValue::Int(x) => JsonItem::Bare(int_text(x as int)),
                    ExtraValue::Float(x) => JsonItem::Bare(x.json@),
                    ExtraValue::String(x) => JsonItem::Text(x@),
                })
        },
{
    let text = extra_text(ExtraFormat::JsonMap, pairs);
    let body = comma_joined(pairs.map_values(|pair: (String, ExtraValue)| entry_json(pair)));
    lemma_members_read(pairs);
    assert(text.skip(1)[0] == '{');
    assert(text.skip(1).skip(1) =~= body + seq!['}']);
}

/// As a JSON array, extra data is a space and an array that reads back as the given values, all of them
/// and in the given order, however many there are.
pub proof fn law_json_array_reads_back(pairs: Seq<(String, ExtraValue)>)
    requires
        pairs.len() > 0,
        forall|i: int| 0 <= i < pairs.len() ==> float_json_is_bare((#[trigger] pairs[i]).1),
    ensures
        extra_text(ExtraFormat::JsonArray, pairs).len() > 0,
        extra_text(ExtraFormat::JsonArray, pairs)[0] == ' ',
        read_array(extra_text(ExtraFormat::JsonArray, pairs).skip(1)) matches Some(items) && {
            &&& items.len() == pairs.len()
            &&& forall|i: int|
                0 <= i < pairs.len() ==> (#[trigger] items[i]) == (match pairs[i].1 {
                    ExtraValue::Int(x) => JsonItem::Bare(int_text(x as int)),
                    ExtraValue::Float(x) => JsonItem::Bare(x.json@),
                    ExtraValue::String(x) => JsonItem::Text(x@),
                })
        },
{
    let text = extra_text(ExtraFormat::JsonArray, pairs);
    let body = comma_joined(pairs.map_values(|pair: (String, ExtraValue)| value_json(pair.1)));
    lemma_items_read(pairs);
    assert(text.skip(1)[0] == '[');
    assert(text.skip(1).skip(1) =~= body + seq![']']);
}

/// What one more value adds to the extra data in each format, behind any number of others: in JSON a
/// comma and the value (with its name) before the closing bracket, otherwise a space and the value
/// (with its name and an equals sign) at the end. Without any value nothing is written.
pub proof fn law_one_more_value(pairs: Seq<(String, ExtraValue)>, pair: (String, ExtraValue))
    ensures
        forall|format: ExtraFormat| (#[trigger] extra_text(format, Seq::empty())).len() == 0,
        ({
            let text = match pair.1 {
                ExtraValue::Int(x) => int_text(x as int),
                ExtraValue::Float(x) => x.text@,
                ExtraValue::String(x) => x@,
            };
            let json = match pair.1 {
                ExtraValue::Int(x) => int_text(x as int),
                ExtraValue::Float(x) => x.json@,
                ExtraValue::String(x) => json_quoted(x@),
            };
            let more = pairs.push(pair);
            let array = extra_text(ExtraFormat::JsonArray, pairs);
            let map = extra_text(ExtraFormat::JsonMap, pairs);
            let member = json_quoted(pair.0@) + seq![':'] + json;
            &&& extra_text(ExtraFormat::JsonArray, more) == (if pairs.len() == 0 {
                seq![' ', '['] + json + seq![']']
            } else {
                array.drop_last() + seq![','] + json + seq![']']
            })
            &&& extra_text(ExtraFormat::JsonMap, more) == (if pairs.len() == 0 {
                seq![' ', '{'] + member + seq!['}']
            } else {
                map.drop_last() + seq![','] + member + seq!['}']
            })
            &&& extra_text(ExtraFormat::SpaceKeyValue, more) == extra_text(
                ExtraFormat::SpaceKeyValue,
                pairs,
            ) + seq![' '] + pair.0@ + seq!['='] + text
            &&& extra_text(ExtraFormat::SpaceValue, more) == extra_text(
                ExtraFormat::SpaceValue,
                pairs,
            ) + seq![' '] + text
        }),
{
    let json_value = |pair: (String, ExtraValue)| value_json(pair.1);
    let json_entry = |pair: (String, ExtraValue)| entry_json(pair);
    let named = |pair: (String, ExtraValue)| crate::extra::entry_text(pair);
    let alone = |pair: (String, ExtraValue)| seq![' '] + value_text(pair.1);
    let more = pairs.push(pair);
    let n = pairs.len() as int;
    assert(more.map_values(json_value).drop_last() =~= pairs.map_values(json_value));
    assert(more.map_values(json_value).last() == value_json(pair.1));
    assert(more.map_values(json_entry).drop_last() =~= pairs.map_values(json_entry));
    assert(more.map_values(json_entry).last() == entry_json(pair));
    let array = extra_text(ExtraFormat::JsonArray, pairs);
    let map = extra_text(ExtraFormat::JsonMap, pairs);
    if n > 0 {
        assert(array.drop_last() =~= seq![' ', '['] + comma_joined(pairs.map_values(json_value)));
        assert(map.drop_last() =~= seq![' ', '{'] + comma_joined(pairs.map_values(json_entry)));
        assert(extra_text(ExtraFormat::JsonArray, more) =~= array.drop_last() + seq![',']
            + value_json(pair.1) + seq![']']);
        assert(extra_text(ExtraFormat::JsonMap, more) =~= map.drop_last() + seq![',']
            + entry_json(pair) + seq!['}']);
    }
    more.lemma_flat_map_take_append(named, n);
    more.lemma_flat_map_take_append(alone, n);
    assert(more.take(n) =~= pairs);
    assert(more.take(n + 1) =~= more);
    if n == 0 {
        assert(pairs.flat_map(named) =~= Seq::empty());
        assert(pairs.flat_map(alone) =~= Seq::empty());
    }
    assert(extra_text(ExtraFormat::SpaceKeyValue, more) =~= extra_text(
        ExtraFormat::SpaceKeyValue,
        pairs,
    ) + seq![' '] + pair.0@ + seq!['='] + value_text(pair.1));
    assert(extra_text(ExtraFormat::SpaceValue, more) =~= extra_text(ExtraFormat::SpaceValue, pairs)
        + seq![' '] + value_text(pair.1));
}

/// The plain and the JSON text of a value: a number is written in decimal, a text stands for itself and
/// is quoted in JSON so that it can be read back.
pub proof fn law_value_texts(value: ExtraValue, rest: Seq<char>)
    ensures
        value_text(value) == (match value {
            ExtraValue::Int(x) => int_text(x as int),
            ExtraValue::Float(x) => x.text@,
            ExtraValue::String(x) => x@,
        }),
        match value {
            ExtraValue::Int(x) => value_json(value) == int_text(x as int),
            ExtraValue::Float(x) => value_json(value) == x.json@,
            ExtraValue::String(x) => read_item(value_json(value) + rest) == Some(
                (JsonItem::Text(x@), rest),
            ),
        },
{
    match value {
        ExtraValue::String(x) => {
            lemma_quoted_read(x@, rest);
        },
        _ => {},
    }
}

} // verus!
