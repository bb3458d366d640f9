use twitch_rcon::text::{decimal, is_before, is_same, parse_u32, push_int, push_nat, push_text, text_of};

#[test]
fn reads_numbers() {
    assert_eq!(parse_u32("27620241"), Some(27620241));
    assert_eq!(parse_u32("0"), Some(0));
    assert_eq!(parse_u32("007"), Some(7));
    assert_eq!(parse_u32("+5"), Some(5));
    assert_eq!(parse_u32("4294967295"), Some(u32::MAX));
}

#[test]
fn refuses_what_is_not_a_number() {
    for text in ["", "+", "-", "-1", " 1", "1 ", "1_000", "12a", "++1", "1+", "\u{661}", "0x10"] {
        assert_eq!(parse_u32(text), None, "{:?}", text);
        assert!(text.parse::<u32>().is_err(), "{:?}", text);
    }
}

#[test]
fn refuses_numbers_that_do_not_fit() {
    assert_eq!(parse_u32("4294967296"), None);
    assert_eq!(parse_u32("4294967300"), None);
    assert_eq!(parse_u32("99999999999999999999"), None);
    assert_eq!(parse_u32("00000000000000000004294967295"), Some(u32::MAX));
}

#[test]
fn written_numbers_are_read_back() {
    for n in [0u32, 1, 9, 10, 99, 100, 65535, 65536, 4294967295] {
        let mut bytes: Vec<u8> = Vec::new();
        push_nat(&mut bytes, n as u64);
        assert_eq!(parse_u32(&text_of(bytes).unwrap()), Some(n));
    }
}

#[test]
fn writes_integers() {
    for x in [0i64, 7, 10, -1, -10, 123456789, i64::MAX, i64::MIN] {
        assert_eq!(decimal(x), x.to_string());
    }
    let mut bytes: Vec<u8> = vec![b'x'];
    push_int(&mut bytes, -305);
    assert_eq!(bytes, b"x-305".to_vec());
}

#[test]
fn orders_texts_by_their_bytes() {
    let texts = ["", "A", "AB", "B", "a", "a ", "aa", "z", "\u{e9}", "\u{ffff}", "\u{10000}"];
    for (i, a) in texts.iter().enumerate() {
        for (j, b) in texts.iter().enumerate() {
            assert_eq!(is_before(a, b), i < j, "{:?} {:?}", a, b);
            assert_eq!(is_before(a, b), a < b);
            assert_eq!(is_same(a, b), i == j);
        }
    }
}

#[test]
fn decodes_utf8_and_nothing_else() {
    let mut bytes: Vec<u8> = Vec::new();
    push_text(&mut bytes, "h\u{e9}llo ");
    push_text(&mut bytes, "\u{1f600}");
    assert_eq!(text_of(bytes).unwrap(), "h\u{e9}llo \u{1f600}");
    assert!(text_of(vec![0xff]).is_err());
    assert!(text_of(vec![0xc3]).is_err());
    assert_eq!(text_of(Vec::new()).unwrap(), "");
}
