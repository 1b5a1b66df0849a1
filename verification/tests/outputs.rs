use abcb::data::{read_json, Data};
use abcb::output::{extract_json, ModelOutput, ModelOutputError};

fn data(json: &str) -> Data {
    read_json(json).expect("json")
}

#[test]
fn parse_tool_call_envelope() {
    let raw = r#"{"kind":"tool_call","tool_name":"echo","arguments":{"text":"hi"},"note":"thinking"}"#;

    let output = ModelOutput::parse(raw).expect("should parse");

    assert_eq!(
        output,
        ModelOutput::ToolCall {
            tool_name: "echo".into(),
            arguments: data(r#"{"text": "hi"}"#),
            note: Some("thinking".into()),
        }
    );
}

#[test]
fn parse_tool_call_without_note_defaults_to_none() {
    let raw = r#"{"kind":"tool_call","tool_name":"echo","arguments":{}}"#;

    let output = ModelOutput::parse(raw).expect("should parse");

    assert_eq!(
        output,
        ModelOutput::ToolCall {
            tool_name: "echo".into(),
            arguments: data("{}"),
            note: None,
        }
    );
}

#[test]
fn parse_final_envelope() {
    let raw = r#"{"kind":"final","content":"all done"}"#;

    let output = ModelOutput::parse(raw).expect("should parse");

    assert_eq!(
        output,
        ModelOutput::Final {
            content: "all done".into()
        }
    );
}

#[test]
fn parse_rejects_invalid_json() {
    let err = ModelOutput::parse("not json").expect_err("should fail");

    assert!(matches!(err, ModelOutputError::Parse(_)));
}

#[test]
fn parse_rejects_unknown_kind() {
    let raw = r#"{"kind":"banana","content":"x"}"#;

    let err = ModelOutput::parse(raw).expect_err("should fail");

    assert!(matches!(err, ModelOutputError::Parse(_)));
}

#[test]
fn parse_tolerates_a_json_code_fence() {
    let raw = "```json\n{\"kind\":\"final\",\"content\":\"done\"}\n```";

    let output = ModelOutput::parse(raw).expect("fenced JSON should parse");

    assert_eq!(
        output,
        ModelOutput::Final {
            content: "done".into()
        }
    );
}

#[test]
fn parse_tolerates_a_bare_fence_with_surrounding_prose() {
    let raw = "Here is my response:\n```\n{\"kind\":\"final\",\"content\":\"done\"}\n```";

    let output = ModelOutput::parse(raw).expect("prose + fence should parse");

    assert_eq!(
        output,
        ModelOutput::Final {
            content: "done".into()
        }
    );
}

#[test]
fn parse_still_accepts_clean_json_and_trims_whitespace() {
    let raw = "  {\"kind\":\"final\",\"content\":\"done\"}  ";

    let output = ModelOutput::parse(raw).expect("clean JSON should still parse");

    assert_eq!(
        output,
        ModelOutput::Final {
            content: "done".into()
        }
    );
}

#[test]
fn parse_rejects_prose_with_no_json() {
    let err = ModelOutput::parse("Sure, I can help with that!").expect_err("no json");

    assert!(matches!(err, ModelOutputError::Parse(_)));
}

#[test]
fn extract_json_takes_the_first_fenced_block() {
    assert_eq!(extract_json(" a b \n"), "a b");
    assert_eq!(extract_json("x ```tag\n one \n``` y ```\ntwo\n```"), "one");
    assert_eq!(extract_json("```no newline"), "no newline");
    assert_eq!(extract_json("```rust\nopen"), "open");
    assert_eq!(extract_json("é```\nü```"), "ü");
    assert_eq!(extract_json("```"), "");
    assert_eq!(extract_json(""), "");
    assert_eq!(extract_json("````\nx```"), "x");
}

#[test]
fn outputs_are_read_back_from_their_json() {
    let call = ModelOutput::ToolCall {
        tool_name: "echo".into(),
        arguments: data(r#"{"a":[1,-2,true,null,{"b":"x\ny"}]}"#),
        note: None,
    };
    assert_eq!(
        call.to_json(),
        r#"{"kind":"tool_call","tool_name":"echo","arguments":{"a":[1,-2,true,null,{"b":"x\ny"}]},"note":null}"#
    );
    assert_eq!(ModelOutput::parse(&call.to_json()), Ok(call.clone()));
    let fenced = format!("Sure.\n```json\n{}\n```\nThat is it.", call.to_json());
    assert_eq!(ModelOutput::parse(&fenced), Ok(call));
}

#[test]
fn envelopes_say_what_they_lack() {
    let err = ModelOutput::parse(r#"{"kind":"tool_call","tool_name":"echo"}"#)
        .expect_err("arguments are missing");
    assert_eq!(err, ModelOutputError::Parse("missing field `arguments`".to_string()));
    assert_eq!(
        err.to_string(),
        "failed to parse model output: missing field `arguments`"
    );
    assert_eq!(err.source(), Some("missing field `arguments`".to_string()));
    assert!(ModelOutput::parse(r#"{"kind":"final","content":1}"#).is_err());
    assert!(ModelOutput::parse(r#"{"content":"x"}"#).is_err());
    assert!(ModelOutput::parse(r#"{"kind":"tool_call","tool_name":"t","arguments":1,"note":2}"#).is_err());
    assert_eq!(
        ModelOutput::parse(r#"["final","x"]"#),
        Ok(ModelOutput::Final { content: "x".into() })
    );
    assert!(ModelOutput::parse(r#"["final","x","y"]"#).is_err());
}

#[test]
fn to_extract_twice_changes_nothing() {
    for raw in [
        "",
        "  plain  ",
        "say\n```json\n {\"a\":1} \n```\nbye ```x```",
        "```no line",
        "``` ` ```",
        "```\n````\n```",
    ] {
        let once = extract_json(raw).to_string();
        assert_eq!(extract_json(&once), once);
        assert!(!once.contains("```"));
    }
}

#[test]
fn outputs_that_do_not_fit_are_told_why() {
    let told = |raw: &str| match ModelOutput::parse(raw) {
        Ok(_) => String::new(),
        Err(e) => e.source().unwrap_or_default(),
    };
    assert_eq!(told("5"), "invalid type: integer `5`, expected internally tagged enum ModelOutput");
    assert_eq!(told("{}"), "missing field `kind`");
    assert_eq!(told(r#"{"kind":true}"#), "invalid type: boolean `true`, expected variant identifier");
    assert_eq!(told(r#"{"kind":"x"}"#), "unknown variant `x`, expected `tool_call` or `final`");
    assert_eq!(told(r#"{"kind":"final"}"#), "missing field `content`");
    assert_eq!(
        told(r#"{"kind":"final","content":null}"#),
        "invalid type: null, expected a string"
    );
    assert_eq!(
        told(r#"{"kind":"final","content":{"a":"b"}}"#),
        "invalid type: map, expected a string"
    );
    assert_eq!(
        told(r#"{"kind":"tool_call","tool_name":"t","arguments":1,"note":["n"]}"#),
        "invalid type: sequence, expected a string"
    );
    assert_eq!(
        told(r#"{"kind":"tool_call","note":2}"#),
        "invalid type: integer `2`, expected a string"
    );
    assert_eq!(
        told(r#"["tool_call","t"]"#),
        "invalid length 1, expected struct variant ModelOutput::ToolCall with 3 elements"
    );
    assert_eq!(
        told(r#"["tool_call","t",{},null,1]"#),
        "invalid length 4, expected 3 elements in sequence"
    );
}
