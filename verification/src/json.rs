//! JSON strings.

use vstd::prelude::*;

verus! {

/// The error of a JSON writer.
#[verifier::external_type_specification]
#[verifier::external_body]
pub struct ExJsonError(::serde_json::Error);

/// The character of a hexadecimal digit, in lower case.
pub open spec fn hex_char(d: int) -> char {
    if d < 10 {
        (48 + d) as char
    } else {
        (87 + d) as char
    }
}

/// How one character is written inside a JSON string: quotes, backslashes and control characters
/// are escaped, everything else stands for itself.
pub open spec fn json_escaped(c: char) -> Seq<char> {
    if c == '"' {
        seq!['\\', '"']
    } else if c == '\\' {
        seq!['\\', '\\']
    } else if c as u32 == 8 {
        seq!['\\', 'b']
    } else if c as u32 == 9 {
        seq!['\\', 't']
    } else if c as u32 == 10 {
        seq!['\\', 'n']
    } else if c as u32 == 12 {
        seq!['\\', 'f']
    } else if c as u32 == 13 {
        seq!['\\', 'r']
    } else if (c as u32) < 32 {
        seq!['\\', 'u', '0', '0', hex_char(c as int / 16), hex_char(c as int % 16)]
    } else {
        seq![c]
    }
}

/// The JSON string for a text.
pub open spec fn json_quoted(s: Seq<char>) -> Seq<char> {
    seq!['"'] + s.flat_map(|c: char| json_escaped(c)) + seq!['"']
}

/// `serde_json::to_string` of a text. Writing a text into memory does not fail, and gives the
/// text between double quotes with its characters escaped one by one.
#[verifier::external_body]
pub(crate) fn json_string(s: &str) -> (r: Result<String, ::serde_json::Error>)
    ensures
        r is Ok,
        r->Ok_0@ == json_quoted(s@),
{
    ::serde_json::to_string(s)
}

proof fn lemma_escaped_apart(c: char, d: char, after_c: Seq<char>, after_d: Seq<char>)
    requires
        json_escaped(c) + after_c == json_escaped(d) + after_d,
    ensures
        c == d,
{
    let left = json_escaped(c) + after_c;
    let right = json_escaped(d) + after_d;
    assert(left[0] == json_escaped(c)[0]);
    assert(right[0] == json_escaped(d)[0]);
    if left[0] == '\\' {
        assert(left[1] == json_escaped(c)[1]);
        assert(right[1] == json_escaped(d)[1]);
        if left[1] == 'u' {
            assert(left[4] == json_escaped(c)[4]);
            assert(right[4] == json_escaped(d)[4]);
            assert(left[5] == json_escaped(c)[5]);
            assert(right[5] == json_escaped(d)[5]);
            assert(hex_char(c as int / 16) == hex_char(d as int / 16));
            assert(hex_char(c as int % 16) == hex_char(d as int % 16));
            assert(c as int / 16 == d as int / 16);
            assert(c as int % 16 == d as int % 16);
        }
    }
}

/// The contents of a JSON string begin with those of its first character.
pub proof fn lemma_contents_front(s: Seq<char>)
    requires
        s.len() > 0,
    ensures
        s.flat_map(|c: char| json_escaped(c)) == json_escaped(s[0]) + s.drop_first().flat_map(
            |c: char| json_escaped(c),
        ),
{
    let escape = |c: char| json_escaped(c);
    assert(s.map_values(escape).drop_first() =~= s.drop_first().map_values(escape));
}

proof fn lemma_contents_injective(a: Seq<char>, b: Seq<char>)
    requires
        a.flat_map(|c: char| json_escaped(c)) == b.flat_map(|c: char| json_escaped(c)),
    ensures
        a == b,
    decreases a.len(),
{
    let escape = |c: char| json_escaped(c);
    if a.len() > 0 {
        lemma_contents_front(a);
    } else {
        assert(a.map_values(escape).len() == 0);
        assert(a.flat_map(escape).len() == 0);
    }
    if b.len() > 0 {
        lemma_contents_front(b);
        assert(json_escaped(b[0]).len() > 0);
    } else {
        assert(b.map_values(escape).len() == 0);
        assert(b.flat_map(escape).len() == 0);
    }
    if a.len() == 0 || b.len() == 0 {
        assert(a =~= b);
    } else {
        let left = a.drop_first();
        let right = b.drop_first();
        lemma_escaped_apart(a[0], b[0], left.flat_map(escape), right.flat_map(escape));
        let n = json_escaped(a[0]).len() as int;
        assert(left.flat_map(escape) =~= a.flat_map(escape).skip(n));
        assert(right.flat_map(escape) =~= b.flat_map(escape).skip(n));
        lemma_contents_injective(left, right);
        assert(a =~= seq![a[0]] + left);
        assert(b =~= seq![b[0]] + right);
    }
}

/// Different texts give different JSON strings.
pub proof fn law_json_strings_differ(a: Seq<char>, b: Seq<char>)
    requires
        json_quoted(a) == json_quoted(b),
    ensures
        a == b,
{
    let left = a.flat_map(|c: char| json_escaped(c));
    let right = b.flat_map(|c: char| json_escaped(c));
    assert(left =~= json_quoted(a).subrange(1, json_quoted(a).len() - 1));
    assert(right =~= json_quoted(b).subrange(1, json_quoted(b).len() - 1));
    lemma_contents_injective(a, b);
}

} // verus!
