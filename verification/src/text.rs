//! Text as the rest of the library reads and writes it: its UTF-8 bytes, the order of two texts,
//! and decimal numbers.

use vstd::prelude::*;
use vstd::utf8::*;

verus! {

/// `a` comes before `b`, or is `b`, when bytes are compared one by one from the front.
pub open spec fn bytes_at_most(a: Seq<u8>, b: Seq<u8>) -> bool
    decreases a.len(),
{
    if a.len() == 0 {
        true
    } else if b.len() == 0 {
        false
    } else if a[0] != b[0] {
        a[0] < b[0]
    } else {
        bytes_at_most(a.drop_first(), b.drop_first())
    }
}

/// The order of texts: that of their UTF-8 bytes.
pub open spec fn text_at_most(a: Seq<char>, b: Seq<char>) -> bool {
    bytes_at_most(encode_utf8(a), encode_utf8(b))
}

/// `a` comes strictly before `b`.
pub open spec fn text_before(a: Seq<char>, b: Seq<char>) -> bool {
    !text_at_most(b, a)
}

proof fn lemma_bytes_total(a: Seq<u8>, b: Seq<u8>)
    ensures
        bytes_at_most(a, b) || bytes_at_most(b, a),
    decreases a.len(),
{
    if a.len() > 0 && b.len() > 0 && a[0] == b[0] {
        lemma_bytes_total(a.drop_first(), b.drop_first());
    }
}

proof fn lemma_bytes_antisymmetric(a: Seq<u8>, b: Seq<u8>)
    requires
        bytes_at_most(a, b),
        bytes_at_most(b, a),
    ensures
        a == b,
    decreases a.len(),
{
    if a.len() == 0 {
        assert(a =~= b);
    } else {
        lemma_bytes_antisymmetric(a.drop_first(), b.drop_first());
        assert(a =~= seq![a[0]] + a.drop_first());
        assert(b =~= seq![b[0]] + b.drop_first());
    }
}

proof fn lemma_bytes_transitive(a: Seq<u8>, b: Seq<u8>, c: Seq<u8>)
    requires
        bytes_at_most(a, b),
        bytes_at_most(b, c),
    ensures
        bytes_at_most(a, c),
    decreases a.len(),
{
    if a.len() > 0 && a[0] == b[0] && b[0] == c[0] {
        lemma_bytes_transitive(a.drop_first(), b.drop_first(), c.drop_first());
    }
}

/// Two texts with the same UTF-8 bytes are the same text.
pub proof fn lemma_encoding_injective(a: Seq<char>, b: Seq<char>)
    requires
        encode_utf8(a) == encode_utf8(b),
    ensures
        a == b,
{
    encode_utf8_decode_utf8(a);
    encode_utf8_decode_utf8(b);
}

/// Of any two texts, one comes before the other or they are the same.
pub proof fn law_order_total(a: Seq<char>, b: Seq<char>)
    ensures
        text_at_most(a, b) || text_at_most(b, a),
        text_at_most(a, a),
        text_at_most(a, b) && text_at_most(b, a) ==> a == b,
{
    lemma_bytes_total(encode_utf8(a), encode_utf8(b));
    lemma_bytes_total(encode_utf8(a), encode_utf8(a));
    if text_at_most(a, b) && text_at_most(b, a) {
        lemma_bytes_antisymmetric(encode_utf8(a), encode_utf8(b));
        lemma_encoding_injective(a, b);
    }
}

/// The order of texts is transitive.
pub proof fn law_order_transitive(a: Seq<char>, b: Seq<char>, c: Seq<char>)
    requires
        text_at_most(a, b),
        text_at_most(b, c),
    ensures
        text_at_most(a, c),
{
    lemma_bytes_transitive(encode_utf8(a), encode_utf8(b), encode_utf8(c));
}

/// Whether `a` comes strictly before `b`.
pub fn is_before(a: &str, b: &str) -> (r: bool)
    ensures
        r == text_before(a@, b@),
{
    let left: &[u8] = a.as_bytes();
    let right: &[u8] = b.as_bytes();
    let mut i: usize = 0;
    proof {
        assert(left@.skip(0) =~= left@);
        assert(right@.skip(0) =~= right@);
    }
    while i < left.len() && i < right.len()
        invariant
            left@ == encode_utf8(a@),
            right@ == encode_utf8(b@),
            i <= left@.len(),
            i <= right@.len(),
            bytes_at_most(right@, left@) == bytes_at_most(right@.skip(i as int), left@.skip(i as int)),
        decreases left@.len() - i,
    {
        proof {
            assert(left@.skip(i as int).drop_first() =~= left@.skip(i + 1));
            assert(right@.skip(i as int).drop_first() =~= right@.skip(i + 1));
        }
        if left[i] != right[i] {
            return left[i] < right[i];
        }
        i = i + 1;
    }
    i < right.len()
}

/// Whether two texts are the same.
pub fn is_same(a: &str, b: &str) -> (r: bool)
    ensures
        r == (a@ == b@),
{
    let left: &[u8] = a.as_bytes();
    let right: &[u8] = b.as_bytes();
    if left.len() != right.len() {
        return false;
    }
    let mut i: usize = 0;
    while i < left.len()
        invariant
            left@ == encode_utf8(a@),
            right@ == encode_utf8(b@),
            left@.len() == right@.len(),
            i <= left@.len(),
            forall|k: int| 0 <= k < i ==> left@[k] == right@[k],
        decreases left@.len() - i,
    {
        if left[i] != right[i] {
            return false;
        }
        i = i + 1;
    }
    proof {
        assert(left@ =~= right@);
        lemma_encoding_injective(a@, b@);
    }
    true
}

/// Encoding text piece by piece gives the same bytes as encoding the whole.
pub proof fn lemma_encoding_concat(a: Seq<char>, b: Seq<char>)
    ensures
        encode_utf8(a + b) == encode_utf8(a) + encode_utf8(b),
    decreases a.len(),
{
    if a.len() == 0 {
        assert(a + b =~= b);
        assert(encode_utf8(a) =~= Seq::<u8>::empty());
        assert(encode_utf8(a) + encode_utf8(b) =~= encode_utf8(b));
    } else {
        lemma_encoding_concat(a.drop_first(), b);
        assert((a + b).drop_first() =~= a.drop_first() + b);
        let head: Seq<u8> = encode_scalar(a[0] as u32);
        assert(head + (encode_utf8(a.drop_first()) + encode_utf8(b)) =~= (head + encode_utf8(
            a.drop_first(),
        )) + encode_utf8(b));
    }
}

/// An ASCII character is encoded as the one byte of its code.
pub proof fn lemma_encoding_ascii_push(a: Seq<char>, c: char)
    requires
        (c as u32) < 128,
    ensures
        encode_utf8(a.push(c)) == encode_utf8(a).push(c as u8),
{
    let one: Seq<char> = seq![c];
    assert(a.push(c) =~= a + one);
    lemma_encoding_concat(a, one);
    is_ascii_chars_encode_utf8(one);
    assert(encode_utf8(a) + encode_utf8(one) =~= encode_utf8(a).push(c as u8));
}

/// Appends the UTF-8 bytes of `s`.
pub fn push_text(out: &mut Vec<u8>, s: &str)
    ensures
        final(out)@ == old(out)@ + encode_utf8(s@),
{
    let bytes: &[u8] = s.as_bytes();
    out.extend_from_slice(bytes);
    assert(out@ =~= old(out)@ + bytes@);
}

/// The error for bytes that are not UTF-8.
#[verifier::external_type_specification]
#[verifier::external_body]
pub struct ExFromUtf8Error(std::string::FromUtf8Error);

/// `String::from_utf8` takes valid UTF-8 and refuses everything else. The text that it gives is
/// the one that the bytes encode.
pub assume_specification[ std::string::String::from_utf8 ](vec: Vec<u8>) -> (r: Result<
    std::string::String,
    std::string::FromUtf8Error,
>)
    ensures
        r is Ok <==> valid_utf8(vec@),
        r is Ok ==> encode_utf8(r->Ok_0@) == vec@,
;

/// The text whose UTF-8 encoding is in `bytes`.
pub fn text_of(bytes: Vec<u8>) -> (r: Result<String, std::string::FromUtf8Error>)
    ensures
        r is Ok <==> valid_utf8(bytes@),
        r is Ok ==> r->Ok_0@ == decode_utf8(bytes@),
{
    let r: Result<String, std::string::FromUtf8Error> = String::from_utf8(bytes);
    proof {
        if r is Ok {
            encode_utf8_decode_utf8(r->Ok_0@);
        }
    }
    r
}

/// `Arc::<str>::from` of a string, which keeps the text.
#[verifier::external_body]
pub(crate) fn shared_text(s: String) -> (r: std::sync::Arc<str>)
    ensures
        (*r)@ == s@,
{
    std::sync::Arc::from(s)
}

/// The character of a decimal digit.
pub open spec fn digit_char(d: nat) -> char {
    (48 + d) as char
}

/// A natural number in decimal, without leading zeros.
pub open spec fn nat_text(n: nat) -> Seq<char>
    decreases n,
{
    if n < 10 {
        seq![digit_char(n)]
    } else {
        nat_text(n / 10).push(digit_char(n % 10))
    }
}

/// An integer in decimal, with a minus sign in front if it is negative.
pub open spec fn int_text(x: int) -> Seq<char> {
    if x < 0 {
        seq!['-'] + nat_text((-x) as nat)
    } else {
        nat_text(x as nat)
    }
}

/// Appends `n` in decimal.
pub fn push_nat(out: &mut Vec<u8>, n: u64)
    ensures
        final(out)@ == old(out)@ + encode_utf8(nat_text(n as nat)),
    decreases n,
{
    let ghost before: Seq<u8> = out@;
    let last: u8 = (n % 10) as u8;
    let ghost front: Seq<char> = if n < 10 {
        Seq::<char>::empty()
    } else {
        nat_text((n / 10) as nat)
    };
    if n >= 10 {
        push_nat(out, n / 10);
    } else {
        assert(encode_utf8(front) =~= Seq::<u8>::empty());
    }
    out.push(48 + last);
    proof {
        lemma_encoding_ascii_push(front, digit_char(last as nat));
        assert(nat_text(n as nat) =~= front.push(digit_char(last as nat)));
        assert(out@ =~= before + encode_utf8(front).push((48 + last) as u8));
    }
}

/// Appends `x` in decimal.
pub fn push_int(out: &mut Vec<u8>, x: i64)
    ensures
        final(out)@ == old(out)@ + encode_utf8(int_text(x as int)),
{
    if x < 0 {
        let ghost before: Seq<u8> = out@;
        let magnitude: u64 = (-(x + 1)) as u64 + 1;
        out.push(45);
        push_nat(out, magnitude);
        proof {
            let sign: Seq<char> = seq!['-'];
            lemma_encoding_concat(sign, nat_text(magnitude as nat));
            is_ascii_chars_encode_utf8(sign);
            assert(out@ =~= before + (encode_utf8(sign) + encode_utf8(
                nat_text(magnitude as nat),
            )));
        }
    } else {
        push_nat(out, x as u64);
    }
}

/// `x` in decimal.
pub fn decimal(x: i64) -> (r: String)
    ensures
        r@ == int_text(x as int),
{
    let mut bytes: Vec<u8> = Vec::new();
    push_int(&mut bytes, x);
    proof {
        assert(bytes@ =~= encode_utf8(int_text(x as int)));
        encode_utf8_valid_utf8(int_text(x as int));
        encode_utf8_decode_utf8(int_text(x as int));
    }
    match text_of(bytes) {
        Ok(s) => s,
        Err(_) => String::new(),
    }
}

/// Every character is a decimal digit.
pub open spec fn all_digits(s: Seq<char>) -> bool {
    forall|i: int| 0 <= i < s.len() ==> '0' <= #[trigger] s[i] <= '9'
}

/// The number that a row of decimal digits stands for.
pub open spec fn digits_value(s: Seq<char>) -> nat
    decreases s.len(),
{
    if s.len() == 0 {
        0
    } else {
        digits_value(s.drop_last()) * 10 + ((s.last() as int - 48) as nat)
    }
}

/// What follows the sign, where there is a plus sign in front.
pub open spec fn without_plus(s: Seq<char>) -> Seq<char> {
    if s.len() > 0 && s[0] == '+' {
        s.skip(1)
    } else {
        s
    }
}

/// The number that a text stands for: an optional plus sign, then one or more digits and nothing
/// else, for a number that fits in 32 bits.
pub open spec fn parsed_u32(s: Seq<char>) -> Option<u32> {
    let digits = without_plus(s);
    if digits.len() > 0 && all_digits(digits) && digits_value(digits) <= u32::MAX {
        Some(digits_value(digits) as u32)
    } else {
        None
    }
}

proof fn lemma_digits_value_grows(s: Seq<char>, n: int)
    requires
        0 <= n <= s.len(),
    ensures
        digits_value(s.take(n)) <= digits_value(s),
    decreases s.len(),
{
    if n < s.len() {
        lemma_digits_value_grows(s.drop_last(), n);
        assert(s.drop_last().take(n) =~= s.take(n));
    } else {
        assert(s.take(n) =~= s);
    }
}

/// Reads an unsigned number.
pub fn parse_u32(s: &str) -> (r: Option<u32>)
    ensures
        r == parsed_u32(s@),
{
    if !s.is_ascii() {
        proof {
            if all_digits(without_plus(s@)) {
                assert forall|i: int| 0 <= i < s@.len() implies '\0' <= #[trigger] s@[i] <= '\u{7f}' by {
                    if s@[0] == '+' && i > 0 {
                        assert(without_plus(s@)[i - 1] == s@[i]);
                    } else if s@[0] != '+' {
                        assert(without_plus(s@)[i] == s@[i]);
                    }
                }
            }
        }
        return None;
    }
    let bytes: &[u8] = s.as_bytes();
    proof {
        is_ascii_chars_encode_utf8(s@);
    }
    let start: usize = if bytes.len() > 0 && bytes[0] == 43 {
        1
    } else {
        0
    };
    let ghost digits: Seq<char> = without_plus(s@);
    assert(digits =~= s@.skip(start as int));
    if bytes.len() == start {
        return None;
    }
    let mut value: u32 = 0;
    let mut i: usize = start;
    while i < bytes.len()
        invariant
            start <= i <= bytes@.len(),
            bytes@.len() == s@.len(),
            forall|k: int| 0 <= k < bytes@.len() ==> #[trigger] bytes@[k] == s@[k] as u8,
            is_ascii_chars(s@),
            digits == s@.skip(start as int),
            digits == without_plus(s@),
            all_digits(digits.take(i - start)),
            value == digits_value(digits.take(i - start)),
        decreases bytes@.len() - i,
    {
        let b: u8 = bytes[i];
        proof {
            assert(digits[i - start] == s@[i as int]);
            assert(digits.take(i - start + 1).drop_last() =~= digits.take(i - start));
            assert(digits.take(i - start + 1).last() == digits[i - start]);
            assert(b == s@[i as int] as u8);
            lemma_digits_value_grows(digits, i - start + 1);
        }
        if b < 48 || b > 57 {
            return None;
        }
        let d: u32 = (b - 48) as u32;
        if value > u32::MAX / 10 {
            return None;
        }
        match (value * 10).checked_add(d) {
            Some(sum) => {
                value = sum;
            },
            None => {
                return None;
            },
        }
        i = i + 1;
    }
    assert(digits.take(i - start) =~= digits);
    Some(value)
}

/// A natural number in decimal is a row of digits that stands for it.
pub proof fn lemma_nat_text_digits(n: nat)
    ensures
        nat_text(n).len() > 0,
        all_digits(nat_text(n)),
        digits_value(nat_text(n)) == n,
    decreases n,
{
    if n < 10 {
        let one: Seq<char> = nat_text(n);
        assert(one.drop_last() =~= Seq::<char>::empty());
        assert(digits_value(one.drop_last()) == 0);
    } else {
        lemma_nat_text_digits(n / 10);
        assert(nat_text(n).drop_last() =~= nat_text(n / 10));
    }
}

/// A number that was written in decimal is read back as the same number.
pub proof fn law_decimal_read_back(n: u32)
    ensures
        parsed_u32(nat_text(n as nat)) == Some(n),
{
    lemma_nat_text_digits(n as nat);
}

proof fn lemma_bytes_first_difference(a: Seq<u8>, b: Seq<u8>, at: int)
    requires
        0 <= at < a.len(),
        at < b.len(),
        forall|i: int| 0 <= i < at ==> a[i] == b[i],
        a[at] < b[at],
    ensures
        bytes_at_most(a, b),
        !bytes_at_most(b, a),
    decreases at,
{
    if at > 0 {
        lemma_bytes_first_difference(a.drop_first(), b.drop_first(), at - 1);
    }
}

proof fn lemma_bytes_front(a: Seq<u8>, b: Seq<u8>)
    ensures
        bytes_at_most(a, a + b),
    decreases a.len(),
{
    if a.len() > 0 {
        lemma_bytes_front(a.drop_first(), b);
        assert((a + b).drop_first() =~= a.drop_first() + b);
    }
}

/// Of two texts, the one with the smaller byte at the first place where their bytes differ comes
/// first.
pub proof fn law_first_difference_decides(a: Seq<char>, b: Seq<char>, at: int)
    requires
        0 <= at < encode_utf8(a).len(),
        at < encode_utf8(b).len(),
        forall|i: int| 0 <= i < at ==> encode_utf8(a)[i] == encode_utf8(b)[i],
        encode_utf8(a)[at] < encode_utf8(b)[at],
    ensures
        text_before(a, b),
        text_at_most(a, b),
        !text_before(b, a),
{
    lemma_bytes_first_difference(encode_utf8(a), encode_utf8(b), at);
}

/// A text comes before every longer one that begins with it.
pub proof fn law_beginning_comes_first(a: Seq<char>, more: Seq<char>)
    ensures
        text_at_most(a, a + more),
        more.len() > 0 ==> text_before(a, a + more),
        !text_before(a, a),
{
    lemma_encoding_concat(a, more);
    lemma_bytes_front(encode_utf8(a), encode_utf8(more));
    law_order_total(a, a + more);
    law_order_total(a, a);
    if more.len() > 0 {
        assert(a.len() != (a + more).len());
    }
}

/// Numbers are written in decimal: a digit stands for itself, writing a digit behind a number
/// multiplies it by ten and adds the digit, and a negative number has a minus sign in front. There
/// are no zeros in front.
pub proof fn law_numbers_in_decimal(n: nat, digit: nat)
    requires
        digit < 10,
    ensures
        int_text(digit as int) == seq![(48 + digit) as char],
        n > 0 ==> int_text((10 * n + digit) as int) == int_text(n as int).push(
            (48 + digit) as char,
        ),
        n > 0 ==> int_text(-(n as int)) == seq!['-'] + int_text(n as int),
        n > 0 ==> int_text(n as int)[0] != '0',
        nat_text(n) == int_text(n as int),
    decreases n,
{
    if n > 0 {
        assert((10 * n + digit) / 10 == n);
        assert((10 * n + digit) % 10 == digit);
        if n >= 10 {
            law_numbers_in_decimal(n / 10, n % 10);
            assert(n == 10 * (n / 10) + n % 10);
            lemma_nat_text_digits(n / 10);
        }
    }
}

/// A row of digits is read as the number that it stands for, with or without a plus sign in front,
/// and refused where that does not fit in 32 bits.
pub proof fn law_digits_are_read(s: Seq<char>, last: char)
    requires
        forall|i: int| 0 <= i < s.len() ==> 48 <= (#[trigger] s[i]) as int <= 57,
        48 <= last as int <= 57,
    ensures
        digits_value(Seq::empty()) == 0,
        digits_value(s.push(last)) == 10 * digits_value(s) + (last as int - 48),
        parsed_u32(s.push(last)) == (if digits_value(s.push(last)) <= 4294967295 {
            Some(digits_value(s.push(last)) as u32)
        } else {
            None
        }),
        parsed_u32(seq!['+'] + s.push(last)) == parsed_u32(s.push(last)),
{
    let digits = s.push(last);
    assert(digits.drop_last() =~= s);
    assert((seq!['+'] + digits).skip(1) =~= digits);
    assert(digits[0] != '+');
    assert(all_digits(digits));
}

/// What is not a row of digits is refused: a text without any, and one with another character than a
/// plus sign in front.
pub proof fn law_other_texts_are_refused(s: Seq<char>, at: int)
    requires
        s.len() == 0 || s == seq!['+'] || (0 <= at < s.len() && !(48 <= s[at] as int <= 57) && !(at
            == 0 && s[at] == '+')),
    ensures
        parsed_u32(s) is None,
{
    if s == seq!['+'] {
        assert(s.skip(1).len() == 0);
    } else if s.len() > 0 {
        if s[0] == '+' {
            assert(without_plus(s)[at - 1] == s[at]);
        } else {
            assert(without_plus(s)[at] == s[at]);
        }
    }
}

} // verus!
