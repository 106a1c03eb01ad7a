use openai_ng::{
    ChatCompletionResponse, ChatCompletionStreamData, ChatComplitionUsage, Content, Error,
    Function, Message, Role, StreamChoice, ToolCall,
};

fn fragment(index: usize, role: Option<Role>, content: Option<Content>) -> StreamChoice {
    StreamChoice {
        index,
        delta: Message { role, content, tool_call_id: None, tool_calls: vec![] },
        finish_reason: None,
        usage: None,
    }
}

fn delta(choices: Vec<StreamChoice>) -> ChatCompletionStreamData {
    ChatCompletionStreamData {
        id: None,
        object: None,
        created: None,
        model: None,
        choices,
        usage: None,
    }
}

fn text_of(c: &Option<Content>) -> String {
    match c {
        Some(Content::Text(s)) => s.clone(),
        other => panic!("not a text: {:?}", other),
    }
}

fn call_fragment(name: Option<&str>, arguments: Option<&str>) -> ToolCall {
    ToolCall {
        id: None,
        typ: None,
        function: Function {
            name: name.map(|s| s.to_string()),
            description: None,
            parameters: None,
            arguments: arguments.map(|s| s.to_string()),
        },
    }
}

#[test]
fn text_fragments_concatenate() {
    let mut r = ChatCompletionResponse::default();
    r.merge_delta(delta(vec![fragment(0, None, Some(Content::from_text("Hel")))]));
    r.merge_delta(delta(vec![fragment(0, None, Some(Content::from_text("lo")))]));
    assert_eq!(r.choices.len(), 1);
    assert_eq!(text_of(&r.choices[0].message.content), "Hello");
}

#[test]
fn tool_call_arguments_concatenate() {
    let mut r = ChatCompletionResponse::default();
    let mut first = fragment(0, None, None);
    first.delta.tool_calls = vec![call_fragment(Some("add"), Some("{\"a\":"))];
    let mut second = fragment(0, None, None);
    second.delta.tool_calls = vec![call_fragment(None, Some("1}"))];
    r.merge_delta(delta(vec![first]));
    r.merge_delta(delta(vec![second]));
    let calls = &r.choices[0].message.tool_calls;
    assert_eq!(calls.len(), 1);
    assert_eq!(calls[0].function.arguments.as_deref(), Some("{\"a\":1}"));
    assert_eq!(calls[0].function.name.as_deref(), Some("add"));
}

#[test]
fn empty_name_keeps_held_name_and_extra_fragments_drop() {
    let mut r = ChatCompletionResponse::default();
    let mut first = fragment(0, None, None);
    first.delta.tool_calls = vec![call_fragment(Some("add"), None)];
    let mut second = fragment(0, None, None);
    second.delta.tool_calls =
        vec![call_fragment(Some(""), Some("{}")), call_fragment(Some("mul"), Some("{}"))];
    r.merge_delta(delta(vec![first]));
    r.merge_delta(delta(vec![second]));
    let calls = &r.choices[0].message.tool_calls;
    assert_eq!(calls.len(), 1);
    assert_eq!(calls[0].function.name.as_deref(), Some("add"));
    assert_eq!(calls[0].function.arguments.as_deref(), Some("{}"));
}

#[test]
fn role_is_never_overwritten() {
    let mut r = ChatCompletionResponse::default();
    r.merge_delta(delta(vec![fragment(0, Some(Role::assistant), None)]));
    r.merge_delta(delta(vec![fragment(0, None, Some(Content::from_text("a")))]));
    r.merge_delta(delta(vec![fragment(0, None, Some(Content::from_text("b")))]));
    assert_eq!(r.choices[0].message.role, Some(Role::assistant));
    r.merge_delta(delta(vec![fragment(0, Some(Role::user), None)]));
    assert_eq!(r.choices[0].message.role, Some(Role::assistant));
}

#[test]
fn empty_fold_keeps_fresh_response() {
    let mut r = ChatCompletionResponse::default();
    r.merge_results(vec![]);
    assert!(r.choices.is_empty());
    assert_eq!(r.id, "");
    assert_eq!(r.object, "chat.completion");
    assert_eq!(r.created, 0);
    assert_eq!(r.model, "");
    assert!(r.usage.is_none());
}

#[test]
fn decode_failure_mid_stream_is_skipped() {
    let failure = Error::JsonDecode { reason: "expected value".to_string(), payload: "{".to_string() };
    let mut with_failure = ChatCompletionResponse::default();
    with_failure.merge_results(vec![
        Ok(delta(vec![fragment(0, Some(Role::assistant), Some(Content::from_text("Hel")))])),
        Err(failure),
        Ok(delta(vec![fragment(0, None, Some(Content::from_text("lo")))])),
    ]);
    assert_eq!(text_of(&with_failure.choices[0].message.content), "Hello");
    let mut r = ChatCompletionResponse::default();
    r.merge_result(Err(Error::SendMessage));
    assert!(r.choices.is_empty());
    assert_eq!(r.object, "chat.completion");
}

#[test]
fn slots_keep_first_seen_order() {
    let mut r = ChatCompletionResponse::default();
    r.merge_delta(delta(vec![
        fragment(2, None, Some(Content::from_text("x"))),
        fragment(0, None, Some(Content::from_text("y"))),
    ]));
    r.merge_delta(delta(vec![fragment(2, None, Some(Content::from_text("z")))]));
    assert_eq!(r.choices.len(), 2);
    assert_eq!(r.choices[0].index, 2);
    assert_eq!(text_of(&r.choices[0].message.content), "xz");
    assert_eq!(r.choices[1].index, 0);
}

#[test]
fn header_fields_follow_their_rules() {
    let mut r = ChatCompletionResponse::default();
    r.object = String::new();
    let usage = ChatComplitionUsage { cached_tokens: None, completion_tokens: 1, prompt_tokens: 2, total_tokens: 3 };
    let mut d1 = delta(vec![]);
    d1.id = Some("id-1".to_string());
    d1.object = Some("chat.completion.chunk".to_string());
    d1.created = Some(7);
    d1.model = Some("m".to_string());
    d1.usage = Some(usage);
    r.merge_delta(d1);
    let mut d2 = delta(vec![]);
    d2.id = Some("id-2".to_string());
    d2.object = Some("other".to_string());
    r.merge_delta(d2);
    assert_eq!(r.id, "id-2");
    assert_eq!(r.object, "chat.completion.chunk");
    assert_eq!(r.created, 7);
    assert_eq!(r.model, "m");
    assert_eq!(r.usage, Some(usage));
}

#[test]
fn choice_usage_and_finish_reason_overwrite() {
    let mut r = ChatCompletionResponse::default();
    let first = ChatComplitionUsage { cached_tokens: Some(1), completion_tokens: 1, prompt_tokens: 1, total_tokens: 2 };
    let second = ChatComplitionUsage { cached_tokens: None, completion_tokens: 5, prompt_tokens: 1, total_tokens: 6 };
    let mut d = delta(vec![]);
    d.usage = Some(first);
    r.merge_delta(d);
    let mut f = fragment(0, None, None);
    f.usage = Some(second);
    f.finish_reason = Some("stop".to_string());
    r.merge_delta(delta(vec![f]));
    let mut g = fragment(0, None, None);
    g.finish_reason = Some("length".to_string());
    r.merge_delta(delta(vec![g]));
    assert_eq!(r.usage, Some(second));
    assert_eq!(r.choices[0].finish_reason.as_deref(), Some("length"));
}

#[test]
fn tool_call_id_set_only_when_given() {
    let mut r = ChatCompletionResponse::default();
    let mut f = fragment(0, None, None);
    f.delta.tool_call_id = Some("call-1".to_string());
    r.merge_delta(delta(vec![f]));
    r.merge_delta(delta(vec![fragment(0, None, None)]));
    assert_eq!(r.choices[0].message.tool_call_id.as_deref(), Some("call-1"));
}
