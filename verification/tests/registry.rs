use abcb::data::{read_json, Data};
use abcb::tool::{system_prompt, RegistryError, Tool, ToolError, ToolRegistry};
use abcb::tools::read_text_argument;

fn data(json: &str) -> Data {
    read_json(json).expect("json")
}

enum Stub {
    Echo,
    Noop,
}

impl Tool for Stub {
    fn name(&self) -> &str {
        match self {
            Stub::Echo => "stub_echo",
            Stub::Noop => "stub_noop",
        }
    }

    fn description(&self) -> &str {
        match self {
            Stub::Echo => "Echoes the `text` field of its arguments.",
            Stub::Noop => "Does nothing and returns an empty string.",
        }
    }

    fn invoke(&self, args: &Data) -> Result<String, ToolError> {
        match self {
            Stub::Echo => read_text_argument("struct StubEchoArgs", args, "text"),
            Stub::Noop => Ok(String::new()),
        }
    }
}

#[test]
fn tool_exposes_name_and_description() {
    let tool = Stub::Echo;

    assert_eq!(tool.name(), "stub_echo");
    assert!(tool.description().to_lowercase().contains("echoes"));
}

#[test]
fn tool_invoke_returns_string_output() {
    let tool = Stub::Echo;
    let args = data(r#"{"text": "hello"}"#);

    let output = tool.invoke(&args).expect("invoke should succeed");

    assert_eq!(output, "hello");
}

#[test]
fn tool_invoke_with_wrong_arg_shape_errors_as_invalid_arguments() {
    let tool = Stub::Echo;
    let args = data(r#"{"wrong_field": 42}"#);

    let err = tool.invoke(&args).expect_err("invoke should fail");

    assert!(matches!(err, ToolError::InvalidArguments(_)));
}

#[test]
fn tool_errors_say_what_happened() {
    let invalid = ToolError::InvalidArguments("missing field `text`".to_string());
    assert_eq!(invalid.to_string(), "invalid tool arguments: missing field `text`");
    assert_eq!(invalid.source(), Some("missing field `text`".to_string()));
    let failed = ToolError::Execution("boom".to_string());
    assert_eq!(failed.to_string(), "tool execution failed: boom");
    assert_eq!(failed.source(), None);
    let io = ToolError::Io("denied".to_string());
    assert_eq!(io.to_string(), "tool io error: denied");
    assert_eq!(io.source(), Some("denied".to_string()));
}

#[test]
fn registry_starts_empty() {
    let registry = ToolRegistry::<Stub>::new();

    assert_eq!(registry.names().len(), 0);
    assert_eq!(ToolRegistry::<Stub>::default().names().len(), 0);
}

#[test]
fn register_then_get_returns_tool() {
    let mut registry = ToolRegistry::new();
    registry
        .register(Stub::Echo)
        .expect("first register should succeed");

    let tool = registry
        .get("stub_echo")
        .expect("tool should be registered");
    let args = data(r#"{"text": "hi"}"#);

    assert_eq!(tool.invoke(&args).expect("invoke should succeed"), "hi");
}

#[test]
fn get_unknown_name_returns_none() {
    let registry = ToolRegistry::<Stub>::new();

    assert!(registry.get("missing").is_none());
}

#[test]
fn register_duplicate_name_errors() {
    let mut registry = ToolRegistry::new();
    registry.register(Stub::Echo).expect("first register");

    let err = registry
        .register(Stub::Echo)
        .expect_err("second register should fail");

    assert_eq!(err, RegistryError::DuplicateName("stub_echo".into()));
    assert_eq!(err.to_string(), "tool already registered: stub_echo");
    assert_eq!(registry.names(), vec!["stub_echo".to_string()]);
}

#[test]
fn names_lists_registered_tools() {
    let mut registry = ToolRegistry::new();
    registry.register(Stub::Echo).expect("register echo");
    registry.register(Stub::Noop).expect("register noop");

    let mut names: Vec<String> = registry.names();
    names.sort();

    assert_eq!(names, vec!["stub_echo", "stub_noop"]);
}

#[test]
fn registering_another_tool_leaves_the_others() {
    let mut registry = ToolRegistry::new();
    registry.register(Stub::Echo).expect("register echo");
    assert!(registry.get("stub_noop").is_none());
    registry.register(Stub::Noop).expect("register noop");
    assert_eq!(registry.get("stub_echo").expect("echo").name(), "stub_echo");
    assert_eq!(registry.get("stub_noop").expect("noop").name(), "stub_noop");
}

#[test]
fn system_prompt_states_the_contract_and_lists_tools() {
    let mut registry = ToolRegistry::new();
    registry.register(Stub::Echo).expect("register stub_echo");

    let prompt = system_prompt(&registry);

    assert!(prompt.contains(r#""kind":"tool_call""#));
    assert!(prompt.contains(r#""kind":"final""#));
    assert!(prompt.contains("no markdown code fences"));
    assert!(prompt.contains("- stub_echo: Echoes the `text` field of its arguments."));
}

#[test]
fn system_prompt_is_the_same_in_any_order() {
    let mut one = ToolRegistry::new();
    one.register(Stub::Echo).expect("register");
    one.register(Stub::Noop).expect("register");
    let mut two = ToolRegistry::new();
    two.register(Stub::Noop).expect("register");
    two.register(Stub::Echo).expect("register");

    assert_eq!(system_prompt(&one), system_prompt(&two));
    assert_eq!(
        system_prompt(&one),
        "You are abcb, an agent that acts by emitting JSON.\n\n\
         Respond with EXACTLY ONE JSON object and nothing else: no prose, no markdown code fences.\n\n\
         The object must be one of two shapes:\n\n\
         To call a tool:\n  \
         {\"kind\":\"tool_call\",\"tool_name\":\"<one of the tools below>\",\"arguments\":{...}}\n\n\
         To give your final answer:\n  \
         {\"kind\":\"final\",\"content\":\"<your answer>\"}\n\n\
         Available tools:\n\
         - stub_echo: Echoes the `text` field of its arguments.\n\
         - stub_noop: Does nothing and returns an empty string.\n\
         \nExamples:\n  \
         {\"kind\":\"tool_call\",\"tool_name\":\"echo\",\"arguments\":{\"text\":\"hello\"}}\n  \
         {\"kind\":\"final\",\"content\":\"All done.\"}"
    );
}
