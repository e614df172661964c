use harbor_bridge::frame::{decode, encode, frame_length, FrameError, MAX_FRAME};
use harbor_bridge::tools::{
    in_process_result, queued_result, tool_reply, CallToolParams, FallbackStep, RegisterToolsParams, SubmitResultParams, ToolInfo, ToolQueue, ToolRegistry,
    UnregisterToolsParams,
};

#[test]
fn tool_call_falls_back_to_extension_queue() {
    let mut q = ToolQueue::new();
    let id = q.enqueue(CallToolParams {
        server_id: "ext".to_string(),
        tool_name: "foo".to_string(),
        args: "{}".to_string(),
    });
    assert_eq!(id, "call-1");
    let polled = q.poll_pending_calls();
    assert_eq!(polled.len(), 1);
    assert_eq!(polled[0].call_id, "call-1");
    assert_eq!(polled[0].tool_name, "foo");
    assert!(matches!(q.fallback_step(&id, 100), FallbackStep::Wait));
    let result = "{\"content\":[{\"type\":\"text\",\"text\":\"ok\"}]}".to_string();
    q.submit_call_result(SubmitResultParams { call_id: id.clone(), result: Some(result.clone()), error: None });
    match q.fallback_step(&id, 200) {
        FallbackStep::Done(Ok(r)) => assert_eq!(r, Some(result)),
        other => panic!("unexpected {:?}", other),
    }
    assert!(q.poll_pending_calls().is_empty());
}

#[test]
fn tool_call_error_and_timeout() {
    let mut q = ToolQueue::new();
    let a = q.enqueue(CallToolParams { server_id: "s".to_string(), tool_name: "t".to_string(), args: "1".to_string() });
    let b = q.enqueue(CallToolParams { server_id: "s".to_string(), tool_name: "t".to_string(), args: "2".to_string() });
    assert_eq!(b, "call-2");
    q.submit_call_result(SubmitResultParams { call_id: a.clone(), result: None, error: Some("bad".to_string()) });
    match q.fallback_step(&a, 0) {
        FallbackStep::Done(Err(e)) => {
            assert_eq!(e.code, -32000);
            assert_eq!(e.message, "bad");
        },
        other => panic!("unexpected {:?}", other),
    }
    match q.fallback_step(&b, 60001) {
        FallbackStep::Done(Err(e)) => assert_eq!(e.message, "Tool call timed out waiting for Harbor"),
        other => panic!("unexpected {:?}", other),
    }
    assert!(q.poll_pending_calls().is_empty());
}

#[test]
fn frame_round_trip() {
    let payload = b"{\"type\":\"ping\"}".to_vec();
    let f = encode(&payload);
    assert_eq!(&f[..4], &[15u8, 0, 0, 0]);
    let (p, used) = decode(&f).unwrap();
    assert_eq!(p, payload);
    assert_eq!(used, f.len());
    assert_eq!(encode(&p), f);
}

#[test]
fn frame_errors() {
    assert_eq!(decode(&[1, 0]), Err(FrameError::Truncated));
    assert_eq!(decode(&[5, 0, 0, 0, b'a']), Err(FrameError::Truncated));
    let big = (MAX_FRAME as u32 + 1).to_le_bytes();
    assert_eq!(decode(&big), Err(FrameError::TooLarge));
    assert_eq!(frame_length(&(MAX_FRAME as u32).to_le_bytes()), Ok(MAX_FRAME));
    let (p, used) = decode(&[1, 0, 0, 0, b'x', 9, 9]).unwrap();
    assert_eq!(p, vec![b'x']);
    assert_eq!(used, 5);
    let (empty, n) = decode(&[0, 0, 0, 0]).unwrap();
    assert!(empty.is_empty());
    assert_eq!(n, 4);
}

#[test]
fn tool_registry_register_and_unregister() {
    let mut reg = ToolRegistry::new();
    reg.register_tools(RegisterToolsParams {
        server_id: "gmail".to_string(),
        tools: vec![
            ToolInfo { name: "search".to_string(), description: Some("Search mail".to_string()), input_schema: None },
            ToolInfo { name: "send".to_string(), description: None, input_schema: Some("{}".to_string()) },
        ],
    });
    reg.register_tools(RegisterToolsParams {
        server_id: "time".to_string(),
        tools: vec![ToolInfo { name: "now".to_string(), description: None, input_schema: None }],
    });
    let names: Vec<String> = reg.tools.entries.iter().map(|e| e.0.clone()).collect();
    assert_eq!(names, vec!["gmail/search", "gmail/send", "time/now"]);
    assert_eq!(reg.list_tools()[0].description.as_deref(), Some("Search mail"));
    reg.unregister_tools(UnregisterToolsParams { server_id: "gmail".to_string() });
    let left = reg.list_tools();
    assert_eq!(left.len(), 1);
    assert_eq!(left[0].server_id, "time");
    assert_eq!(left[0].name, "now");
}

#[test]
fn minted_ids_are_fresh_and_polling_keeps_calls() {
    let mut q = ToolQueue::new();
    let mut ids = Vec::new();
    for n in 0..12 {
        ids.push(q.enqueue(CallToolParams { server_id: "ext".to_string(), tool_name: "foo".to_string(), args: format!("{}", n) }));
    }
    assert_eq!(ids[11], "call-12");
    let mut sorted = ids.clone();
    sorted.sort();
    sorted.dedup();
    assert_eq!(sorted.len(), 12);
    assert_eq!(q.poll_pending_calls().len(), 12);
    assert_eq!(q.poll_pending_calls().len(), 12);
    assert_eq!(q.poll_pending_calls()[0].args, "0");
}

#[test]
fn tool_replies() {
    assert_eq!(tool_reply("{\"content\":[]}"), "{\"result\":{\"content\":[]}}");
    assert_eq!(in_process_result(Some("1".to_string()), "{\"result\":1}".to_string()), "1");
    assert_eq!(in_process_result(None, "{\"x\":1}".to_string()), "{\"x\":1}");
    assert_eq!(queued_result(None), "null");
    assert_eq!(queued_result(Some("[1]".to_string())), "[1]");
}
