//! Text, JSON values and cells.
use motherduck_connector::json::{Fields, Json};
use motherduck_connector::query::{cell_to_json, hex_encode, is_query, run_query, Cell, Run};
use motherduck_connector::text::{
    chars_of, is_blank, is_white_space, lower_starts_with, place, same, same_ignoring_case,
    to_lower_char, trim, trim_start, Place,
};
use serde_json::Number;

#[test]
fn trimming_agrees_with_the_standard_library() {
    for text in [
        "", " ", "a", " a", "a ", "\t\n\u{b}\u{c}\r a b \u{85}\u{a0}\u{1680}",
        "\u{2000}\u{200a}x\u{2028}\u{2029}\u{202f}\u{205f}\u{3000}", "\u{200b}x\u{200b}",
        "\u{180e}", "\u{feff}é ",
    ] {
        assert_eq!(trim(text), text.trim());
        assert_eq!(trim_start(text), text.trim_start());
        assert_eq!(is_blank(text), text.trim().is_empty());
    }
}

#[test]
fn white_space_and_case_agree_with_the_standard_library_on_every_character() {
    for n in 0..=0x10ffffu32 {
        if let Some(c) = char::from_u32(n) {
            assert_eq!(is_white_space(c), c.is_whitespace());
            assert_eq!(to_lower_char(c), c.to_ascii_lowercase());
        }
    }
}

#[test]
fn strings_compare_by_their_characters() {
    assert!(same("é", "é"));
    assert!(!same("e", "é"));
    assert!(same_ignoring_case("VIEW", "vIeW"));
    assert!(!same_ignoring_case("VIEW", "VIEWS"));
    assert!(!same_ignoring_case("É", "é"));
    assert!(lower_starts_with("SELECTed", "select"));
    assert!(!lower_starts_with("sel", "select"));
    assert_eq!(chars_of("aé"), vec!['a', 'é']);
    let texts = ["", "Z", "a", "ab", "b", "é", "\u{ffff}", "\u{10000}"];
    for a in texts {
        for b in texts {
            let expected = if a < b {
                Place::Before
            } else if a == b {
                Place::Same
            } else {
                Place::After
            };
            assert_eq!(place(a, b), expected);
        }
    }
}

#[test]
fn statements_are_told_apart_by_their_first_word() {
    for sql in [
        "select 1", " \n WITH x", "show tables", "PRAGMA a", "explain", "Describe t", "values (1)",
        "table t", "call f()", "selection", "\u{3000}select",
    ] {
        assert!(is_query(sql));
    }
    for sql in ["", "insert into t", "-- select", "(select 1)", "sel ect", "create table t"] {
        assert!(!is_query(sql));
    }
    assert!(matches!(
        run_query("c".to_string(), " Select 1".to_string(), 3),
        Run::Select(_)
    ));
    assert!(matches!(
        run_query("c".to_string(), "drop".to_string(), 3),
        Run::Execute(_)
    ));
}

#[test]
fn bytes_are_two_digits_each() {
    assert_eq!(hex_encode(&[]), "");
    assert_eq!(hex_encode(&[0x00, 0x0a, 0x9f, 0xa0, 0xff]), "000a9fa0ff");
    for byte in 0..=255u8 {
        assert_eq!(hex_encode(&[byte]), format!("{byte:02x}"));
    }
}

#[test]
fn cells_become_json() {
    let text = |cell: Cell| cell_to_json(cell).to_text();
    assert_eq!(text(Cell::Null), "null");
    assert_eq!(text(Cell::Unreadable), "null");
    assert_eq!(text(Cell::Boolean(true)), "true");
    assert_eq!(text(Cell::TinyInt(-128)), "-128");
    assert_eq!(text(Cell::SmallInt(-1)), "-1");
    assert_eq!(text(Cell::Int(7)), "7");
    assert_eq!(text(Cell::BigInt(i64::MIN)), "-9223372036854775808");
    assert_eq!(text(Cell::UTinyInt(255)), "255");
    assert_eq!(text(Cell::USmallInt(65535)), "65535");
    assert_eq!(text(Cell::UInt(4294967295)), "4294967295");
    assert_eq!(text(Cell::UBigInt(u64::MAX)), "18446744073709551615");
    assert_eq!(text(Cell::Float(Number::from_f64(0.5f32 as f64))), "0.5");
    assert_eq!(text(Cell::Double(Number::from_f64(-2.25))), "-2.25");
    assert_eq!(text(Cell::Double(Number::from_f64(1.0))), "1.0");
    assert_eq!(text(Cell::Double(Number::from_f64(f64::NAN))), "null");
    assert_eq!(text(Cell::Text("a\"b".to_string())), r#""a\"b""#);
    assert_eq!(text(Cell::Blob(vec![0xde, 0xad])), r#""\\xdead""#);
    assert_eq!(text(Cell::Other("Date32(1)".to_string())), r#""Date32(1)""#);
}

#[test]
fn json_is_read_and_written() {
    let text = r#"{"a":[1,-2,3.5,true,null,"x"],"b":{"c":18446744073709551615}}"#;
    assert_eq!(Json::parse(text).unwrap().to_text(), text);
    assert_eq!(
        Json::parse(" [ ] x").unwrap_err(),
        "trailing characters at line 1 column 6"
    );
    let fields = Fields::new()
        .with("z", Json::Unsigned(1))
        .with("a", Json::Array(vec![Json::Null]))
        .with("z", Json::Signed(-1));
    assert_eq!(Json::Object(fields).to_text(), r#"{"a":[null],"z":-1}"#);
    let value = Json::parse(r#"{"n":1.0,"m":-1,"s":"t","b":false}"#).unwrap();
    assert_eq!(value.get("n").unwrap().as_u64(), None);
    assert_eq!(value.get("m").unwrap().as_u64(), None);
    assert_eq!(value.get("s").unwrap().as_str(), Some("t"));
    assert_eq!(value.get("b").unwrap().as_bool(), Some(false));
    assert_eq!(value.get("b").unwrap().as_str(), None);
    assert!(value.get("none").is_none());
    assert!(Json::Null.get("n").is_none());
}

#[test]
fn json_nests_as_deep_as_the_parser_goes() {
    let nested = |depth: usize| {
        let mut json = Json::Unsigned(0);
        for _ in 0..depth {
            json = Json::Array(vec![json]);
        }
        json.to_text()
    };
    assert_eq!(Json::parse(&nested(127)).unwrap().to_text(), nested(127));
    assert!(Json::parse(&nested(128)).is_err());
}
