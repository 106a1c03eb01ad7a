use openai_ng::request::{add_stop, check_chat_request, check_generation_request};
use openai_ng::Stop;
use openai_ng::{
    Bearer, Content, Error, FileContentRequest, FileDeleteRequest, FileGetRequest, FilePurpose,
    Function, Message, ParameterProperty, ParameterType, Parameters, Role, ToolCall,
};

#[test]
fn message_builder_sets_fields() {
    let m = Message::builder()
        .with_role(Role::system)
        .with_content(Content::from_text("you are a good llm model"))
        .with_tool_call_id("c1")
        .add_tool_call(ToolCall::from_function(Function::builder().with_name("f").build().unwrap()))
        .build();
    assert_eq!(m.role, Some(Role::system));
    assert!(matches!(m.content, Some(Content::Text(ref t)) if t == "you are a good llm model"));
    assert_eq!(m.tool_call_id.as_deref(), Some("c1"));
    assert_eq!(m.tool_calls.len(), 1);
    assert_eq!(m.tool_calls[0].typ.as_deref(), Some("function"));
    let empty = Message::builder().build();
    assert!(empty.role.is_none() && empty.content.is_none() && empty.tool_calls.is_empty());
}

#[test]
fn function_builder_needs_a_name() {
    assert!(matches!(Function::builder().build(), Err(Error::ToolCallFunctionBuild)));
    let f = Function::builder()
        .with_name("add_number")
        .with_description("add two numbers")
        .build()
        .unwrap();
    assert_eq!(f.name.as_deref(), Some("add_number"));
    assert_eq!(f.description.as_deref(), Some("add two numbers"));
}

#[test]
fn tool_call_builder_needs_a_function() {
    assert!(matches!(ToolCall::builder().build(), Err(Error::ToolCallBuild)));
    let f = Function::builder().with_name("g").build().unwrap();
    let t = ToolCall::builder().with_function(f).build().unwrap();
    assert_eq!(t.typ.as_deref(), Some("function"));
    assert!(t.id.is_none());
}

#[test]
fn parameter_property_needs_type_and_description() {
    assert!(matches!(
        ParameterProperty::builder().with_type(ParameterType::number).build(),
        Err(Error::ToolCallParametersBuild)
    ));
    assert!(matches!(
        ParameterProperty::builder().with_description("d").build(),
        Err(Error::ToolCallParametersBuild)
    ));
    let p = ParameterProperty::builder()
        .with_description("number 1 in 2 numbers")
        .with_type(ParameterType::number)
        .with_items("type", "string")
        .with_items("type", "number")
        .with_items("format", "f")
        .build()
        .unwrap();
    assert_eq!(p.typ, Some(ParameterType::number));
    assert_eq!(p.description, "number 1 in 2 numbers");
    assert_eq!(
        p.items,
        Some(vec![("type".to_string(), "number".to_string()), ("format".to_string(), "f".to_string())])
    );
}

#[test]
fn parameters_replace_property_of_same_name() {
    let a = ParameterProperty::builder().with_type(ParameterType::number).with_description("first").build().unwrap();
    let b = ParameterProperty::builder().with_type(ParameterType::string).with_description("second").build().unwrap();
    let c = ParameterProperty::builder().with_type(ParameterType::integer).with_description("third").build().unwrap();
    let p = Parameters::builder()
        .add_property("a", a)
        .add_property("b", b)
        .add_property("a", c)
        .add_required("a")
        .build()
        .unwrap();
    assert_eq!(p.typ, "object");
    assert_eq!(p.properties.len(), 2);
    assert_eq!(p.properties[0].0, "a");
    assert_eq!(p.properties[0].1.description, "third");
    assert_eq!(p.properties[1].0, "b");
    assert_eq!(p.required, vec!["a".to_string()]);
}

#[test]
fn bearer_header() {
    let b = Bearer::new("sk-123".to_string());
    assert_eq!(b.authorization(), "Bearer sk-123");
    let v = b.header_value().unwrap();
    assert_eq!(v.to_str().unwrap(), "Bearer sk-123");
    let bad = Bearer::new("bad\nkey".to_string());
    assert!(matches!(bad.header_value(), Err(Error::HeaderValue)));
    let tab = Bearer::new("a\tb".to_string());
    assert!(tab.header_value().is_ok());
}

#[test]
fn file_request_paths() {
    assert_eq!(FileContentRequest::new("f1").path(), "files/f1/content");
    assert_eq!(FileGetRequest::new("f2").path(), "files/f2");
    assert_eq!(FileDeleteRequest::new("f3").id, "f3");
    assert_eq!(FileDeleteRequest::new("f3").path(), "files/f3");
    assert_eq!(FilePurpose::default().as_text(), "file-extract");
}

#[test]
fn chat_request_needs_model_and_messages() {
    let m = Message::builder().with_role(Role::user).build();
    assert!(matches!(check_chat_request(None, &vec![m.clone()]), Err(Error::ChatCompletionRequestBuild)));
    assert!(matches!(check_chat_request(Some("step-1-8k".into()), &vec![]), Err(Error::ChatCompletionRequestBuild)));
    assert_eq!(check_chat_request(Some("step-1-8k".into()), &vec![m]).unwrap(), "step-1-8k");
}

#[test]
fn generation_request_needs_model_and_prompt() {
    assert!(matches!(check_generation_request(Some("m".into()), None), Err(Error::GenerationRequestBuild)));
    assert!(matches!(check_generation_request(None, Some("p".into())), Err(Error::GenerationRequestBuild)));
    assert_eq!(
        check_generation_request(Some("m".into()), Some("p".into())).unwrap(),
        ("m".to_string(), "p".to_string())
    );
}

#[test]
fn add_stop_starts_or_appends() {
    assert!(matches!(add_stop(None, Stop::Text("a".into())), Stop::Text(ref t) if t == "a"));
    match add_stop(Some(Stop::Text("a".into())), Stop::Text("b".into())) {
        Stop::Texts(ts) => assert_eq!(ts, vec!["a", "b"]),
        other => panic!("unexpected {:?}", other),
    }
}
