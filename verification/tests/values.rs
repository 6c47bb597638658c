use qwen_gateway::execution::{count_tokens, try_count_tokens};
use qwen_gateway::json::Json;
use qwen_gateway::number::{parse_i64, parse_usize, print_i64};
use qwen_gateway::tally::{counts_json, tally};
use qwen_gateway::text::{is_before, lines, strip_prefixes};

#[test]
fn json_reads_and_prints() {
    let text = r#" {"b": [1, -2, 2.5, "x", null, true, {}], "a": 18446744073709551615} "#;
    let json = Json::parse(text).unwrap();
    assert_eq!(
        json.to_text(),
        r#"{"a":18446744073709551615,"b":[1,-2,2.5,"x",null,true,{}]}"#
    );
    assert_eq!(json.clone().to_text(), json.to_text());
    assert!(Json::parse("{").is_none());
    assert!(Json::parse("").is_none());
    assert!(Json::parse("[DONE]").is_none());
}

#[test]
fn json_reads_bytes() {
    assert_eq!(Json::parse_bytes(b"[false]").unwrap().to_text(), "[false]");
    assert!(Json::parse_bytes(&[0x22, 0xff, 0x22]).is_none());
}

#[test]
fn json_members() {
    let json = Json::parse(r#"{"t":"x","n":-5,"u":9223372036854775808,"f":1.5,"l":[1]}"#).unwrap();
    assert_eq!(json.get("t").and_then(|v| v.as_str()), Some("x"));
    assert_eq!(json.get("n").and_then(|v| v.as_i64()), Some(-5));
    assert_eq!(json.get("n").and_then(|v| v.as_u64()), None);
    assert_eq!(json.get("u").and_then(|v| v.as_i64()), None);
    assert_eq!(json.get("u").and_then(|v| v.as_u64()), Some(9223372036854775808));
    assert_eq!(json.get("f").and_then(|v| v.as_i64()), None);
    assert!(json.get("f").unwrap().get("x").is_none());
    assert_eq!(json.get("l").and_then(|v| v.as_list()).map(|l| l.len()), Some(1));
    assert!(json.get("missing").is_none());
}

#[test]
fn the_last_entry_of_a_key_counts() {
    let json = Json::object().with("k", Json::Signed(1)).with("k", Json::text("two"));
    assert_eq!(json.get("k").and_then(|v| v.as_str()), Some("two"));
    assert_eq!(json.to_text(), r#"{"k":"two"}"#);
    assert_eq!(Json::Null.with("k", Json::Null).to_text(), "null");
}

#[test]
fn numbers_are_read_as_std_reads_them() {
    for s in [
        "0", "7", "007", "+12", "-12", "-0", "", "+", "-", "+-1", "1_000", " 1", "1 ", "1.0", "x",
        "१", "18446744073709551615", "18446744073709551616", "9223372036854775807",
        "9223372036854775808", "-9223372036854775808", "-9223372036854775809",
        "99999999999999999999999999999999999999999", "4294967295", "4294967296",
    ] {
        assert_eq!(parse_usize(s), s.parse::<usize>().ok(), "{s:?}");
        assert_eq!(parse_i64(s), s.parse::<i64>().ok(), "{s:?}");
    }
}

#[test]
fn numbers_are_printed_as_std_prints_them() {
    for n in [0, 1, 9, 10, 99, 100, -1, -10, 1_700_000_000_123, i64::MAX, i64::MIN] {
        assert_eq!(print_i64(n), n.to_string());
        assert_eq!(parse_i64(&print_i64(n)), Some(n));
    }
}

#[test]
fn lines_are_split_as_std_splits_them() {
    for s in ["", "a", "a\n", "a\nb", "a\r\nb\r\n", "\n\n", "\r", "a\r", "\r\n", "x\n\ry\n"] {
        assert_eq!(lines(s), s.lines().collect::<Vec<_>>(), "{s:?}");
    }
}

#[test]
fn prefixes_come_off_as_often_as_they_are_there() {
    for s in ["Bearer Bearer x", "Bearer x", "x", "", "Bearer ", "bearer x"] {
        assert_eq!(strip_prefixes(s, "Bearer "), s.trim_start_matches("Bearer "));
    }
    assert_eq!(strip_prefixes("abc", ""), "abc");
}

#[test]
fn texts_are_tallied() {
    let texts: Vec<String> = ["a", "b", "a", "", "a"].iter().map(|s| s.to_string()).collect();
    assert_eq!(
        tally(&texts),
        vec![("".to_string(), 1), ("a".to_string(), 3), ("b".to_string(), 1)]
    );
    assert_eq!(counts_json(&texts).to_text(), r#"{"":1,"a":3,"b":1}"#);
    assert_eq!(counts_json(&vec![]).to_text(), "{}");
}

#[test]
fn texts_are_ordered_as_std_orders_them() {
    let texts = ["", "a", "ab", "b", "B", "é", "日", "日本", "\u{10ffff}", "\u{ffff}", "z"];
    for a in texts {
        for b in texts {
            assert_eq!(is_before(a, b), a < b, "{a:?} {b:?}");
        }
    }
    let mut sorted: Vec<String> = texts.iter().map(|s| s.to_string()).collect();
    let table = tally(&sorted);
    sorted.sort();
    assert_eq!(table.into_iter().map(|(text, _)| text).collect::<Vec<_>>(), sorted);
}

/// An object with the key that `serde_json` keeps for itself is printed, but
/// not read again.
#[test]
fn a_reserved_key_does_not_read_back() {
    let json = Json::object().with("$serde_json::private::RawValue", Json::Unsigned(1));
    let text = json.to_text();
    assert_eq!(text, r#"{"$serde_json::private::RawValue":1}"#);
    assert!(Json::parse(&text).is_none());
    let swapped = Json::object().with("$serde_json::private::RawValue", Json::text("[2]"));
    assert_eq!(Json::parse(&swapped.to_text()).unwrap().to_text(), "[2]");
}

#[test]
fn printed_values_are_one_line() {
    let json = Json::object().with("a\nb", Json::text("\r\n\t\u{0}\u{85}\u{2028}"));
    let text = json.to_text();
    assert!(!text.contains('\n'));
    assert!(text.starts_with('{') && text.ends_with('}'));
    assert_eq!(Json::parse(&text).unwrap().to_text(), text);
}

/// A later entry of a key replaces an earlier one, wherever it stands.
#[test]
fn repeated_keys_are_replaced_in_place() {
    let json = Json::object()
        .with("b", Json::Unsigned(1))
        .with("a", Json::Unsigned(2))
        .with("b", Json::object().with("x", Json::Null).with("x", Json::Bool(true)))
        .with("a", Json::Unsigned(3))
        .with("c", Json::Unsigned(4));
    assert_eq!(json.to_text(), r#"{"a":3,"b":{"x":true},"c":4}"#);
}

#[test]
fn tokens_are_counted() {
    assert_eq!(try_count_tokens(""), Some(0));
    assert_eq!(try_count_tokens("hello world"), Some(2));
    assert_eq!(count_tokens("hello world"), 2);
    // A special token is text like any other.
    assert_eq!(try_count_tokens("<|endoftext|>"), Some(7));
}
