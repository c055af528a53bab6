use vise::decimal::{parse_signed, parse_unsigned, to_decimal, to_decimal_signed};
use vise::host::StopState;
use vise::json::{object1, parse_json, text_value, with_member, Json};
use vise::table::Table;
use vise::text::{
    chars_of, find_char, is_white_space, read_utf8, replace, same_text, split_lines, split_on,
    split_once, split_word, strip_prefix, strip_trailing, text_of, to_lower, trim, trim_end,
    trim_start,
};

fn texts(parts: Vec<&[char]>) -> Vec<String> {
    parts.into_iter().map(text_of).collect()
}

#[test]
fn numerals_round_trip() {
    for n in [0, 1, 9, 10, 4_194_303, u64::MAX] {
        let digits = to_decimal(n);
        assert_eq!(text_of(&digits), n.to_string());
        assert_eq!(parse_unsigned(&digits, u64::MAX), Some(n));
    }
    for n in [0, -1, 7, i64::MAX, i64::MIN] {
        let digits = to_decimal_signed(n);
        assert_eq!(text_of(&digits), n.to_string());
        assert_eq!(parse_signed(&digits), Some(n));
    }
}

#[test]
fn numerals_are_read_like_the_standard_library_reads_them() {
    for text in ["", "+", "-", "+7", "-7", "--7", "07", "7 ", "1_0", "x", "256", "99999999999999999999"] {
        let chars = chars_of(text);
        assert_eq!(parse_unsigned(&chars, u64::MAX), text.parse::<u64>().ok(), "{text:?}");
        assert_eq!(parse_unsigned(&chars, 255), text.parse::<u8>().ok().map(u64::from), "{text:?}");
        assert_eq!(parse_signed(&chars), text.parse::<i64>().ok(), "{text:?}");
    }
}

#[test]
fn texts_are_trimmed_and_split_like_the_standard_library_does() {
    for text in [
        "",
        " ",
        "a",
        " a b ",
        "\u{2003}x\u{a0}",
        "\u{85}é\t\r\n",
        "a\nb\r\nc\r",
        "\n",
        "a\n\n",
        "\r\n",
        "x=y=z",
        "=",
    ] {
        let chars = chars_of(text);
        assert_eq!(text_of(trim(&chars)), text.trim(), "{text:?}");
        assert_eq!(text_of(trim_start(&chars)), text.trim_start(), "{text:?}");
        assert_eq!(text_of(trim_end(&chars)), text.trim_end(), "{text:?}");
        assert_eq!(texts(split_lines(&chars)), text.lines().collect::<Vec<_>>(), "{text:?}");
        assert_eq!(texts(split_on(&chars, '=')), text.split('=').collect::<Vec<_>>(), "{text:?}");
        let pair = split_once(&chars, '=').map(|(a, b)| (text_of(a), text_of(b)));
        let expected = text.split_once('=').map(|(a, b)| (a.to_string(), b.to_string()));
        assert_eq!(pair, expected, "{text:?}");
        assert_eq!(text_of(&to_lower(&chars)), text.to_ascii_lowercase(), "{text:?}");
    }
}

#[test]
fn white_space_is_unicode_white_space() {
    for code in 0..0x11_0000 {
        if let Some(c) = char::from_u32(code) {
            assert_eq!(is_white_space(c), c.is_whitespace(), "{code:#x}");
        }
    }
}

#[test]
fn parts_of_texts() {
    let chars = chars_of("a.b//");
    assert_eq!(find_char(&chars, '.'), 1);
    assert_eq!(find_char(&chars, 'x'), 5);
    assert_eq!(text_of(strip_trailing(&chars, '/')), "a.b");
    assert_eq!(strip_prefix(&chars, &chars_of("a.")).map(text_of).as_deref(), Some("b//"));
    assert!(strip_prefix(&chars, &chars_of("b")).is_none());
    let words = chars_of("two words");
    let (word, rest) = split_word(&words);
    assert_eq!((text_of(word).as_str(), text_of(rest).as_str()), ("two", " words"));
    assert!(same_text("é", "é") && !same_text("é", "e"));
}

#[test]
fn replacing_goes_from_left_to_right() {
    for (text, from, to) in [
        ("aaa", "aa", "b"),
        ("abcabc", "bc", ""),
        ("none", "x", "y"),
        ("tok tok", "tok", "[redacted]"),
    ] {
        let replaced = replace(&chars_of(text), &chars_of(from), &chars_of(to));
        assert_eq!(text_of(&replaced), text.replace(from, to), "{text}");
    }
}

#[test]
fn bytes_are_read_as_text() {
    for bytes in [&b"ok"[..], "é€😀".as_bytes(), b"\xff\xc3\x28", b"\xf0\x9f", b""] {
        assert_eq!(read_utf8(bytes), String::from_utf8_lossy(bytes));
    }
}

#[test]
fn tables_hold_one_value_per_key() {
    let mut table: Table<u32> = Table::new();
    assert_eq!(table.len(), 0);
    table.insert("a", 1);
    table.insert("b", 2);
    table.insert("a", 3);
    assert_eq!((table.get("a"), table.get("b"), table.len()), (Some(&3), Some(&2), 2));
    table.remove("a");
    table.remove("x");
    assert_eq!((table.get("a"), table.get("b"), table.len()), (None, Some(&2), 1));
}

#[test]
fn json_values_are_built_and_read() {
    let value = with_member(object1("a", text_value("x")), "b", Json::Bool(true));
    assert_eq!(value, parse_json(r#"{"a":"x","b":true}"#).unwrap());
    assert_eq!(value.get_str("a"), Some("x"));
    assert_eq!(value.get_str("b"), None);
    assert_eq!(value.get("b"), Some(&Json::Bool(true)));
    assert_eq!(value.get("c"), None);
    assert!(value.is_object() && !Json::Null.is_object());
    assert_eq!(parse_json(r#""é\n""#).unwrap().as_str(), Some("é\n"));
    assert_eq!(Json::Null.get("a"), None);
}

#[test]
fn stopping_always_ends() {
    for first in [true, false] {
        for second in [true, false] {
            let end = StopState::Terminate.after_wait(first).after_wait(second);
            assert!(matches!(end, StopState::Stopped | StopState::Stuck));
        }
    }
}
