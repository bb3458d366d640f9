use twitch_rcon::extra::{ExtraFormat, ExtraMap, ExtraValue, FloatValue};

fn float(x: f64) -> ExtraValue {
    ExtraValue::Float(FloatValue {
        bits: x.to_bits(),
        text: x.to_string(),
        json: serde_json::to_string(&x).unwrap(),
    })
}

fn text(s: &str) -> ExtraValue {
    ExtraValue::String(String::from(s))
}

fn pairs() -> Vec<(String, ExtraValue)> {
    vec![
        (String::from("count"), ExtraValue::Int(-12)),
        (String::from("speed"), float(1.5)),
        (String::from("say \"hi\""), text("line\nbreak")),
    ]
}

fn written(format: ExtraFormat, pairs: &Vec<(String, ExtraValue)>) -> String {
    let mut out: Vec<u8> = b"cmd".to_vec();
    format.write(&mut out, pairs).unwrap();
    String::from_utf8(out).unwrap()
}

#[test]
fn writes_a_json_array() {
    assert_eq!(written(ExtraFormat::JsonArray, &pairs()), "cmd [-12,1.5,\"line\\nbreak\"]");
}

#[test]
fn writes_a_json_map() {
    assert_eq!(
        written(ExtraFormat::JsonMap, &pairs()),
        "cmd {\"count\":-12,\"speed\":1.5,\"say \\\"hi\\\"\":\"line\\nbreak\"}"
    );
}

#[test]
fn writes_named_values() {
    assert_eq!(
        written(ExtraFormat::SpaceKeyValue, &pairs()),
        "cmd count=-12 speed=1.5 say \"hi\"=line\nbreak"
    );
}

#[test]
fn writes_values_alone() {
    assert_eq!(written(ExtraFormat::SpaceValue, &pairs()), "cmd -12 1.5 line\nbreak");
}

#[test]
fn writes_nothing_without_extra_data() {
    let none: Vec<(String, ExtraValue)> = Vec::new();
    for format in [
        ExtraFormat::JsonArray,
        ExtraFormat::JsonMap,
        ExtraFormat::SpaceKeyValue,
        ExtraFormat::SpaceValue,
    ] {
        assert_eq!(written(format, &none), "cmd");
    }
}

#[test]
fn writes_one_value_without_commas() {
    let one = vec![(String::from("k"), ExtraValue::Int(i64::MIN))];
    assert_eq!(written(ExtraFormat::JsonArray, &one), "cmd [-9223372036854775808]");
    assert_eq!(written(ExtraFormat::JsonMap, &one), "cmd {\"k\":-9223372036854775808}");
}

#[test]
fn keeps_the_order_and_repeated_names() {
    let twice = vec![(String::from("b"), ExtraValue::Int(1)), (String::from("a"), ExtraValue::Int(2)), (String::from("b"), ExtraValue::Int(3))];
    assert_eq!(written(ExtraFormat::JsonMap, &twice), "cmd {\"b\":1,\"a\":2,\"b\":3}");
    assert_eq!(written(ExtraFormat::SpaceKeyValue, &twice), "cmd b=1 a=2 b=3");
}

#[test]
fn escapes_json_strings() {
    let all = "\u{0}\u{8}\t\n\u{b}\u{c}\r\u{1f} \"\\/\u{7f}\u{e9}\u{2028}";
    let one = vec![(String::from("k"), text(all))];
    assert_eq!(
        written(ExtraFormat::JsonArray, &one),
        "cmd [\"\\u0000\\b\\t\\n\\u000b\\f\\r\\u001f \\\"\\\\/\u{7f}\u{e9}\u{2028}\"]"
    );
}

#[test]
fn different_strings_give_different_json() {
    let texts = ["", "n", "\n", "\\n", "\\", "\\\\", "\"", "\\\"", "u0000", "\u{0}", "\u{10}"];
    for a in texts {
        for b in texts {
            let left = written(ExtraFormat::JsonArray, &vec![(String::new(), text(a))]);
            let right = written(ExtraFormat::JsonArray, &vec![(String::new(), text(b))]);
            assert_eq!(left == right, a == b);
        }
    }
}

#[test]
fn floats_without_a_json_number_are_null() {
    let odd = vec![(String::from("x"), float(f64::NAN)), (String::from("y"), float(f64::INFINITY))];
    assert_eq!(written(ExtraFormat::JsonArray, &odd), "cmd [null,null]");
    assert_eq!(written(ExtraFormat::SpaceValue, &odd), "cmd NaN inf");
}

#[test]
fn floats_look_different_in_json() {
    let whole = vec![(String::from("x"), float(2.0))];
    assert_eq!(written(ExtraFormat::JsonArray, &whole), "cmd [2.0]");
    assert_eq!(written(ExtraFormat::SpaceValue, &whole), "cmd 2");
}

#[test]
fn values_as_text() {
    assert_eq!(ExtraValue::Int(-5).to_text(), "-5");
    assert_eq!(float(0.25).to_text(), "0.25");
    assert_eq!(text("a b").to_text(), "a b");
    let mut out: Vec<u8> = Vec::new();
    text("q\"").push_json(&mut out).unwrap();
    text("q\"").push_plain(&mut out);
    assert_eq!(String::from_utf8(out).unwrap(), "\"q\\\"\"q\"");
}

#[test]
fn the_default_format_is_a_json_map() {
    assert_eq!(ExtraFormat::default(), ExtraFormat::JsonMap);
}

#[test]
fn values_are_equal_by_kind_and_content() {
    assert!(ExtraValue::Int(1) == ExtraValue::Int(1));
    assert!(ExtraValue::Int(1) != ExtraValue::Int(2));
    assert!(ExtraValue::Int(1) != float(1.0));
    assert!(ExtraValue::Int(1) != text("1"));
    assert!(text("a") == text("a"));
    assert!(text("a") != text("b"));
    for x in [0.0, -0.0, 1.0, -1.0, f64::MIN_POSITIVE, f64::MAX, f64::INFINITY, f64::NEG_INFINITY, f64::NAN, -f64::NAN] {
        for y in [0.0, -0.0, 1.0, -1.0, f64::MIN_POSITIVE, f64::MAX, f64::INFINITY, f64::NEG_INFINITY, f64::NAN, -f64::NAN] {
            assert_eq!(float(x) == float(y), x == y, "{} {}", x, y);
        }
    }
}

#[test]
fn maps_are_equal_in_order() {
    assert!(ExtraMap(pairs()) == ExtraMap(pairs()));
    let mut turned = pairs();
    turned.reverse();
    assert!(ExtraMap(pairs()) != ExtraMap(turned));
    let mut shorter = pairs();
    shorter.pop();
    assert!(ExtraMap(pairs()) != ExtraMap(shorter));
}
