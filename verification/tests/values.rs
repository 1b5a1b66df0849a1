use abcb::data::{read_json, read_toml, Data};
use abcb::decode::{Form, Shape};

#[test]
fn json_is_read_as_plain_data() {
    let v = read_json(r#" {"b":[1,-1,2.5,"t",true,null],"a":{}} "#).expect("json");
    assert_eq!(
        v,
        Data::Object(vec![
            (
                "b".to_string(),
                Data::Array(vec![
                    Data::Unsigned(1),
                    Data::Negative(-1),
                    Data::Other("2.5".to_string()),
                    Data::Text("t".to_string()),
                    Data::Bool(true),
                    Data::Null,
                ])
            ),
            ("a".to_string(), Data::Object(vec![])),
        ])
    );
    assert_eq!(v.to_json(), r#"{"b":[1,-1,2.5,"t",true,null],"a":{}}"#);
    assert_eq!(read_json(&v.to_json()), Ok(v.clone()));
}

#[test]
fn the_limits_of_whole_numbers_are_kept() {
    assert_eq!(read_json("18446744073709551615"), Ok(Data::Unsigned(u64::MAX)));
    assert_eq!(read_json("-9223372036854775808"), Ok(Data::Negative(i64::MIN)));
    assert_eq!(Data::Negative(i64::MIN).to_json(), "-9223372036854775808");
    assert_eq!(Data::Unsigned(u64::MAX).to_json(), "18446744073709551615");
    assert_eq!(read_json("0"), Ok(Data::Unsigned(0)));
}

#[test]
fn what_is_written_is_read_back_at_any_depth_that_is_allowed() {
    let mut v = Data::Text("deep".to_string());
    for _ in 0..127 {
        v = Data::Array(vec![v]);
    }
    assert_eq!(read_json(&v.to_json()), Ok(v.clone()));
    assert!(read_json(&Data::Array(vec![v]).to_json()).is_err());
}

#[test]
fn every_character_is_quoted_so_that_it_is_read_back() {
    let mut text = String::new();
    for c in 0u32..0x300 {
        text.push(char::from_u32(c).expect("a character"));
    }
    text.push('\u{2028}');
    text.push('\u{10ffff}');
    let v = Data::Text(text);
    let json = v.to_json();
    assert!(json.chars().all(|c| c >= ' '));
    assert!(json.starts_with("\"\\u0000\\u0001"));
    assert!(json.contains("\\b\\t\\n\\u000b\\f\\r\\u000e"));
    assert_eq!(read_json(&json), Ok(v));
}

#[test]
fn the_last_of_equal_names_counts() {
    assert_eq!(
        read_json(r#"{"a":1,"b":2,"a":3}"#),
        Ok(Data::Object(vec![
            ("a".to_string(), Data::Unsigned(3)),
            ("b".to_string(), Data::Unsigned(2)),
        ]))
    );
}

#[test]
fn broken_json_is_refused() {
    for text in ["", "{", "nul", "[1,]", "\"a", "1 2", "{\"a\":}"] {
        assert!(read_json(text).is_err(), "{text}");
    }
}

#[test]
fn toml_is_read_as_plain_data() {
    let v = read_toml("[s]\nn = -3\nd = 1979-05-27\nf = 0.5\nl = [true, \"x\"]\n").expect("toml");
    let section = v.field(0, "s").expect("section");
    assert_eq!(section.field(0, "n"), Some(&Data::Negative(-3)));
    assert_eq!(section.field(0, "d"), Some(&Data::Other("1979-05-27".to_string())));
    assert_eq!(section.field(0, "f"), Some(&Data::Other("0.5".to_string())));
    assert_eq!(
        section.field(0, "l"),
        Some(&Data::Array(vec![Data::Bool(true), Data::Text("x".to_string())]))
    );
    assert!(read_toml("= 3").is_err());
}

#[test]
fn fields_are_found_by_name_or_by_position() {
    let shape = Shape { name: "struct Pair", fields: 2, form: Form::Value };
    let object = read_json(r#"{"a":"x","b":null}"#).expect("json");
    assert_eq!(shape.text_of(&object, 7, "a"), Ok("x".to_string()));
    assert_eq!(shape.optional_text_of(&object, 7, "b"), Ok(None));
    assert_eq!(shape.optional_text_of(&object, 7, "c"), Ok(None));
    assert_eq!(shape.text_of(&object, 0, "c"), Err("missing field `c`".to_string()));
    assert_eq!(
        shape.text_of(&object, 0, "b"),
        Err("invalid type: null, expected a string".to_string())
    );
    let array = read_json(r#"["x",5]"#).expect("json");
    assert_eq!(shape.text_of(&array, 0, "a"), Ok("x".to_string()));
    assert_eq!(shape.number_in(&array, 1, "b"), Ok(5));
    assert_eq!(
        shape.number_in(&array, 2, "c"),
        Err("invalid length 2, expected struct Pair with 2 elements".to_string())
    );
    assert!(shape.number_in(&array, 0, "a").is_err());
    let tagged = Shape { name: "struct variant Both::One", fields: 1, form: Form::Tagged };
    assert_eq!(tagged.number_in(&array, 0, "b"), Ok(5));
    assert_eq!(tagged.surplus_of(&array), None);
}

#[test]
fn records_are_objects_or_arrays_that_are_not_too_long() {
    let two = |form: Form| Shape { name: "struct Pair", fields: 2, form };
    let array = read_json("[1,2,3]").expect("json");
    for form in [Form::Document, Form::Value, Form::Tagged] {
        assert_eq!(two(form).error_of(&array), None);
        assert_eq!(
            two(form).error_of(&Data::Bool(true)),
            Some("invalid type: boolean `true`, expected struct Pair".to_string())
        );
    }
    assert_eq!(two(Form::Document).surplus_of(&array), Some("trailing characters".to_string()));
    assert_eq!(
        two(Form::Value).surplus_of(&array),
        Some("invalid length 3, expected fewer elements in array".to_string())
    );
    assert_eq!(two(Form::Tagged).surplus_of(&array), None);
    let longer = read_json("[1,2,3,4]").expect("json");
    assert_eq!(
        two(Form::Tagged).surplus_of(&longer),
        Some("invalid length 3, expected 2 elements in sequence".to_string())
    );
}

#[test]
fn values_that_do_not_fit_are_told_in_the_words_of_serde() {
    for json in ["null", "true", "-3", "1.5", "1e300", r#""a\"b\n""#, "[1]", r#"{"a":1}"#] {
        let value: serde_json::Value = serde_json::from_str(json).expect("json");
        let number = serde_json::from_value::<u64>(value.clone());
        let read = read_json(json).expect("json");
        assert_eq!(read.number().err(), number.err().map(|e| e.to_string()));
        let text = serde_json::from_value::<String>(value);
        assert_eq!(read.text_misfit(), text.err().map(|e| e.to_string()));
    }
    assert_eq!(read_json("7").expect("json").number(), Ok(7));
}
