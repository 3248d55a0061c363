use etcd_client::json::text_within_parser_limits;
use etcd_client::{EtcdError, JsonObject, JsonValue};

#[test]
fn parsing_scalars() {
    assert_eq!(JsonValue::parse("null"), Ok(JsonValue::Null));
    assert_eq!(JsonValue::parse("true"), Ok(JsonValue::Boolean(true)));
    assert_eq!(JsonValue::parse("false"), Ok(JsonValue::Boolean(false)));
    assert_eq!(JsonValue::parse("17"), Ok(JsonValue::U64(17)));
    assert_eq!(JsonValue::parse("0"), Ok(JsonValue::U64(0)));
    assert_eq!(JsonValue::parse("-17"), Ok(JsonValue::I64(-17)));
    assert_eq!(JsonValue::parse("\"a\\nb\""), Ok(JsonValue::String("a\nb".to_string())));
    assert_eq!(JsonValue::parse(" \"\\u00e9\" "), Ok(JsonValue::String("\u{00e9}".to_string())));
}

#[test]
fn a_number_with_a_fraction_or_an_exponent_is_a_float() {
    assert_eq!(JsonValue::parse("1.5"), Ok(JsonValue::Float));
    assert_eq!(JsonValue::parse("-0.25"), Ok(JsonValue::Float));
    assert_eq!(JsonValue::parse("1e2"), Ok(JsonValue::Float));
    assert_eq!(JsonValue::parse("2E-3"), Ok(JsonValue::Float));
    assert_eq!(JsonValue::parse("0e999"), Ok(JsonValue::Float));
    assert_eq!(JsonValue::parse("0e999"), JsonValue::parse("0e999"));
    assert_eq!(
        JsonValue::parse("[1e5, 2E-3, 3e+7, 4]"),
        Ok(JsonValue::Array(vec![
            JsonValue::Float,
            JsonValue::Float,
            JsonValue::Float,
            JsonValue::U64(4)
        ]))
    );
}

#[test]
fn exponents_up_to_nine_digits_parse() {
    assert!(text_within_parser_limits("1e999999999"));
    assert_eq!(JsonValue::parse("1e999999999"), Ok(JsonValue::Float));
    assert_eq!(JsonValue::parse("1E-000000001"), Ok(JsonValue::Float));
    assert_eq!(JsonValue::parse("[1.5e+123456789]"), Ok(JsonValue::Array(vec![JsonValue::Float])));
    assert!(!text_within_parser_limits("1e1000000000"));
    assert_eq!(JsonValue::parse("1e1000000000"), Err(EtcdError::DecodeFailure));
    assert_eq!(JsonValue::parse("1E+0000000001"), Err(EtcdError::DecodeFailure));
    assert_eq!(JsonValue::parse("1e-1234567890"), Err(EtcdError::DecodeFailure));
    assert_eq!(JsonValue::parse("1e100000000000000000000"), Err(EtcdError::DecodeFailure));
    assert_eq!(
        JsonValue::parse("{\"a\": [1, 2e99999999999999999999999999999999999999]}"),
        Err(EtcdError::DecodeFailure)
    );
    assert_eq!(JsonValue::from_bytes(b"1e100000000000000000000"), Err(EtcdError::DecodeFailure));
}

#[test]
fn digits_inside_strings_are_no_exponent() {
    let text = "{\"e12345678901234567890\": \"1e12345678901234567890\"}";
    assert!(text_within_parser_limits(text));
    let value = JsonValue::parse(text).unwrap();
    assert_eq!(
        value.as_object().unwrap().get("e12345678901234567890"),
        Some(&JsonValue::String("1e12345678901234567890".to_string()))
    );
    assert!(text_within_parser_limits("[true, false, 12345678901234567890]"));
    assert_eq!(
        JsonValue::parse("[true, 12345678901234567890]"),
        Ok(JsonValue::Array(vec![JsonValue::Boolean(true), JsonValue::U64(12345678901234567890)]))
    );
}

#[test]
fn parsing_arrays_and_objects() {
    assert_eq!(
        JsonValue::parse("[1, \"two\", [null]]"),
        Ok(JsonValue::Array(vec![
            JsonValue::U64(1),
            JsonValue::String("two".to_string()),
            JsonValue::Array(vec![JsonValue::Null]),
        ]))
    );
    assert_eq!(JsonValue::parse("{}"), Ok(JsonValue::Object(JsonObject { entries: Vec::new() })));
    assert_eq!(
        JsonValue::parse("{\"b\": 1, \"a\": {\"c\": true}}"),
        Ok(JsonValue::Object(JsonObject {
            entries: vec![
                (
                    "a".to_string(),
                    JsonValue::Object(JsonObject {
                        entries: vec![("c".to_string(), JsonValue::Boolean(true))]
                    })
                ),
                ("b".to_string(), JsonValue::U64(1)),
            ]
        }))
    );
}

#[test]
fn a_repeated_member_keeps_its_last_value() {
    let value = JsonValue::parse("{\"a\": 1, \"a\": 2}").unwrap();
    let object = value.as_object().unwrap();
    assert_eq!(object.entries.len(), 1);
    assert_eq!(object.get("a"), Some(&JsonValue::U64(2)));
}

#[test]
fn texts_that_are_not_json() {
    assert_eq!(JsonValue::parse(""), Err(EtcdError::DecodeFailure));
    assert_eq!(JsonValue::parse("{"), Err(EtcdError::DecodeFailure));
    assert_eq!(JsonValue::parse("{\"a\" 1}"), Err(EtcdError::DecodeFailure));
    assert_eq!(JsonValue::parse("[1,]"), Err(EtcdError::DecodeFailure));
    assert_eq!(JsonValue::parse("nope"), Err(EtcdError::DecodeFailure));
    assert_eq!(JsonValue::parse("{} {}"), Err(EtcdError::DecodeFailure));
    assert_eq!(JsonValue::parse("<html>502</html>"), Err(EtcdError::DecodeFailure));
}

#[test]
fn looking_up_members() {
    let object = JsonObject {
        entries: vec![
            ("a".to_string(), JsonValue::U64(1)),
            ("b".to_string(), JsonValue::Null),
            ("a".to_string(), JsonValue::U64(3)),
        ],
    };
    assert_eq!(object.get("a"), Some(&JsonValue::U64(1)));
    assert_eq!(object.get("b"), Some(&JsonValue::Null));
    assert_eq!(object.get("c"), None);
    assert_eq!(object.get("A"), None);
    assert_eq!(object.get(""), None);
    assert_eq!(JsonObject { entries: Vec::new() }.get("a"), None);
}

#[test]
fn reading_values_by_kind() {
    let text = JsonValue::String("x".to_string());
    assert_eq!(text.as_string(), Some(&"x".to_string()));
    assert_eq!(text.as_i64(), None);
    assert_eq!(text.as_boolean(), None);
    assert_eq!(text.as_array(), None);
    assert_eq!(text.as_object(), None);

    assert_eq!(JsonValue::Boolean(true).as_boolean(), Some(true));
    assert_eq!(JsonValue::Boolean(false).as_boolean(), Some(false));
    assert_eq!(JsonValue::Null.as_boolean(), None);
    assert_eq!(JsonValue::U64(1).as_string(), None);

    let array = JsonValue::Array(vec![JsonValue::Null]);
    assert_eq!(array.as_array(), Some(&vec![JsonValue::Null]));
    assert_eq!(array.as_object(), None);

    let object = JsonValue::Object(JsonObject { entries: Vec::new() });
    assert_eq!(object.as_object(), Some(&JsonObject { entries: Vec::new() }));
    assert_eq!(object.as_array(), None);
}

#[test]
fn reading_integers() {
    assert_eq!(JsonValue::I64(-5).as_i64(), Some(-5));
    assert_eq!(JsonValue::I64(i64::MIN).as_i64(), Some(i64::MIN));
    assert_eq!(JsonValue::U64(0).as_i64(), Some(0));
    assert_eq!(JsonValue::U64(9223372036854775806).as_i64(), Some(9223372036854775806));
    assert_eq!(JsonValue::U64(9223372036854775807).as_i64(), Some(i64::MAX));
    assert_eq!(JsonValue::U64(9223372036854775808).as_i64(), None);
    assert_eq!(JsonValue::U64(u64::MAX).as_i64(), None);
    assert_eq!(JsonValue::Float.as_i64(), None);
    assert_eq!(JsonValue::Null.as_i64(), None);
    assert_eq!(JsonValue::parse("9223372036854775807").unwrap().as_i64(), Some(i64::MAX));
    assert_eq!(JsonValue::parse("9223372036854775808").unwrap().as_i64(), None);
    assert_eq!(JsonValue::parse("-9223372036854775808").unwrap().as_i64(), Some(i64::MIN));
}

fn nested(depth: usize) -> String {
    let mut text = String::new();
    for _ in 0..depth {
        text.push('[');
    }
    for _ in 0..depth {
        text.push(']');
    }
    text
}

fn with_name(len: usize) -> String {
    format!("{{\"{}\": 1}}", "n".repeat(len))
}

#[test]
fn nesting_up_to_the_limit_parses() {
    assert!(text_within_parser_limits(&nested(512)));
    assert!(JsonValue::parse(&nested(512)).is_ok());
    assert!(!text_within_parser_limits(&nested(513)));
    assert_eq!(JsonValue::parse(&nested(513)), Err(EtcdError::DecodeFailure));
    assert_eq!(JsonValue::parse(&nested(100_000)), Err(EtcdError::DecodeFailure));
    let objects = format!("{}1{}", "{\"a\":".repeat(512), "}".repeat(512));
    let value = JsonValue::parse(&objects);
    assert!(value.is_ok());
    assert!(format!("{:?}", value).len() > 512);
    let objects = format!("{}1{}", "{\"a\":".repeat(513), "}".repeat(513));
    assert_eq!(JsonValue::parse(&objects), Err(EtcdError::DecodeFailure));
}

#[test]
fn brackets_inside_strings_do_not_nest() {
    let text = format!("\"{}\"", "[".repeat(1000));
    assert!(text_within_parser_limits(&text));
    assert_eq!(JsonValue::parse(&text), Ok(JsonValue::String("[".repeat(1000))));
    let text = format!("\"\\\"{}\"", "{".repeat(1000));
    assert!(text_within_parser_limits(&text));
    assert_eq!(JsonValue::parse(&text), Ok(JsonValue::String(format!("\"{}", "{".repeat(1000)))));
}

#[test]
fn siblings_do_not_add_to_the_depth() {
    let text = format!("[{}[]]", "[],".repeat(5000));
    assert!(text_within_parser_limits(&text));
    assert_eq!(JsonValue::parse(&text).unwrap().as_array().unwrap().len(), 5001);
}

#[test]
fn member_names_up_to_the_limit_parse() {
    assert!(text_within_parser_limits(&with_name(65535)));
    let value = JsonValue::parse(&with_name(65535)).unwrap();
    assert_eq!(value.as_object().unwrap().get(&"n".repeat(65535)), Some(&JsonValue::U64(1)));
    assert!(!text_within_parser_limits(&with_name(65536)));
    assert_eq!(JsonValue::parse(&with_name(65536)), Err(EtcdError::DecodeFailure));
    let spaced = format!("{{\"{}\" \t\r\n : 1}}", "n".repeat(65536));
    assert!(!text_within_parser_limits(&spaced));
    let two_deep = format!("[{}]", with_name(32767));
    assert!(JsonValue::parse(&two_deep).is_ok());
    let two_deep = format!("[{}]", with_name(32768));
    assert_eq!(JsonValue::parse(&two_deep), Err(EtcdError::DecodeFailure));
}

#[test]
fn long_values_are_no_names() {
    let text = format!("{{\"value\": \"{}\"}}", "v".repeat(100_000));
    assert!(text_within_parser_limits(&text));
    let value = JsonValue::parse(&text).unwrap();
    assert_eq!(
        value.as_object().unwrap().get("value").unwrap().as_string().unwrap().len(),
        100_000
    );
    let text = format!("[\"{}\", 1]", "v".repeat(100_000));
    assert!(text_within_parser_limits(&text));
    assert!(JsonValue::parse(&text).is_ok());
}

#[test]
fn names_deep_in_a_document_parse() {
    let name = "n".repeat(511);
    let text = format!("{}1{}", format!("{{\"{}\":", name).repeat(128), "}".repeat(128));
    assert!(text_within_parser_limits(&text));
    let mut value = JsonValue::parse(&text).unwrap();
    let mut depth = 0;
    while let JsonValue::Object(mut object) = value {
        assert_eq!(object.entries.len(), 1);
        let (member, inner) = object.entries.remove(0);
        assert_eq!(member, name);
        value = inner;
        depth += 1;
    }
    assert_eq!(depth, 128);
    assert_eq!(value, JsonValue::U64(1));
    let name = "n".repeat(512);
    let text = format!("{}1{}", format!("{{\"{}\":", name).repeat(128), "}".repeat(128));
    assert!(!text_within_parser_limits(&text));
    assert_eq!(JsonValue::parse(&text), Err(EtcdError::DecodeFailure));
    let name = "n".repeat(127);
    let text = format!("{}1{}", format!("{{\"{}\":", name).repeat(512), "}".repeat(512));
    assert!(JsonValue::parse(&text).is_ok());
    let name = "n".repeat(128);
    let text = format!("{}1{}", format!("{{\"{}\":", name).repeat(512), "}".repeat(512));
    assert_eq!(JsonValue::parse(&text), Err(EtcdError::DecodeFailure));
}

#[test]
fn a_comma_before_a_closing_brace_is_refused() {
    assert!(!text_within_parser_limits("[{\"a\":{\"b\":1,},7]"));
    assert!(!text_within_parser_limits("{\"a\":1,}"));
    assert!(!text_within_parser_limits("{\"a\":1 , \n\t\r }"));
    assert!(!text_within_parser_limits("{\"a\":\"x\",}"));
    assert!(!text_within_parser_limits("{\"a\":1e5,}"));
    assert!(!text_within_parser_limits("{\"a\":true,}"));
    assert!(text_within_parser_limits("{\"a\":1,\"b\":{}}"));
    assert!(text_within_parser_limits("[1,]"));
    assert!(text_within_parser_limits("{\"a\":\",}\"}"));
    assert!(text_within_parser_limits("[{},{}]"));
    assert!(text_within_parser_limits("{\"a\":[1,2],\"b\":{\"c\":[{},{}]}}"));
    assert_eq!(JsonValue::parse("[1,]"), Err(EtcdError::DecodeFailure));
    assert!(JsonValue::parse("{\"a\":[1,2],\"b\":{\"c\":[{},{}]}}").is_ok());
    assert_eq!(JsonValue::parse("[{\"a\":{\"b\":1,},7]"), Err(EtcdError::DecodeFailure));
}

const TOKENS: [&str; 16] = [
    "[", "]", "{", "}", ",", ":", "\"a\"", "\"b\"", "1", "-0", "1.5", "1e5", "true", "null", " ",
    "\"\\\"\"",
];

#[test]
fn the_parser_returns_on_every_short_admitted_text() {
    let mut count = 0usize;
    let mut text = String::new();
    for length in 0..6u32 {
        for code in 0..16usize.pow(length) {
            text.clear();
            let mut rest = code;
            for _ in 0..length {
                text.push_str(TOKENS[rest % 16]);
                rest /= 16;
            }
            if text_within_parser_limits(&text) {
                let _ = JsonValue::parse(&text);
                count += 1;
            }
        }
    }
    assert!(count > 500_000);
}

fn next(state: &mut u64) -> usize {
    *state ^= *state << 13;
    *state ^= *state >> 7;
    *state ^= *state << 17;
    (*state >> 11) as usize
}

fn document(state: &mut u64, depth: usize, out: &mut Vec<&'static str>) {
    let kind = next(state) % if depth >= 4 { 6 } else { 10 };
    match kind {
        0 => out.push("1"),
        1 => out.push("-0"),
        2 => out.push("1e5"),
        3 => out.push("\"a\""),
        4 => out.push("true"),
        5 => out.push("null"),
        6 | 7 => {
            out.push("[");
            let items = next(state) % 3;
            for i in 0..items {
                if i > 0 {
                    out.push(",");
                }
                document(state, depth + 1, out);
            }
            out.push("]");
        }
        _ => {
            out.push("{");
            let members = next(state) % 3;
            for i in 0..members {
                if i > 0 {
                    out.push(",");
                }
                out.push(if next(state) % 2 == 0 { "\"a\"" } else { "\"b\"" });
                out.push(":");
                document(state, depth + 1, out);
            }
            out.push("}");
        }
    }
}

#[test]
fn the_parser_returns_on_admitted_texts_near_valid_json() {
    let mut state: u64 = 0x2545_f491_4f6c_dd1d;
    let mut admitted = 0usize;
    let mut parsed = 0usize;
    let mut refused = 0usize;
    let mut tokens: Vec<&'static str> = Vec::new();
    for _ in 0..300_000 {
        tokens.clear();
        document(&mut state, 0, &mut tokens);
        for _ in 0..next(&mut state) % 4 {
            let at = next(&mut state) % (tokens.len() + 1);
            match next(&mut state) % 3 {
                0 => tokens.insert(at, TOKENS[next(&mut state) % 16]),
                1 if at < tokens.len() => {
                    tokens.remove(at);
                }
                _ if at < tokens.len() => tokens[at] = TOKENS[next(&mut state) % 16],
                _ => {}
            }
        }
        let text = tokens.concat();
        if text_within_parser_limits(&text) {
            admitted += 1;
            if JsonValue::parse(&text).is_ok() {
                parsed += 1;
            }
        } else {
            refused += 1;
            assert_eq!(JsonValue::parse(&text), Err(EtcdError::DecodeFailure));
        }
    }
    assert!(parsed > 50_000);
    assert!(admitted > parsed + 50_000);
    assert!(refused > 1_000);
}
