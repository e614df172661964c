use harbor_bridge::rpc::{
    is_streaming_method, list_methods, lookup_method, system_health, Method, RpcError, INTERNAL_ERROR,
    INVALID_PARAMS, METHOD_NOT_FOUND,
};

#[test]
fn test_system_health() {
    let method = lookup_method("system.health");
    assert_eq!(method, Some(Method::SystemHealth));
    let result = system_health();
    assert_eq!(result, "{\"status\":\"ok\"}");
}

#[test]
fn test_unknown_method() {
    assert!(lookup_method("unknown.method").is_none());
    let error = RpcError::method_not_found("unknown.method");
    assert_eq!(error.code, -32601);
    assert_eq!(error.message, "Unknown method: unknown.method");
}

#[test]
fn test_list_methods() {
    let methods = list_methods();
    assert!(methods.contains(&"system.health"));
    assert!(methods.contains(&"llm.chat"));
    assert!(methods.contains(&"fs.read"));
}

#[test]
fn list_methods_is_sorted_and_complete() {
    let methods = list_methods();
    assert_eq!(methods.len(), 40);
    let mut sorted = methods.clone();
    sorted.sort();
    assert_eq!(methods, sorted);
    for m in &methods {
        assert_eq!(lookup_method(m).map(|x| x.name()), Some(*m));
    }
}

#[test]
fn health_is_the_same_on_every_call() {
    assert_eq!(system_health(), system_health());
}

#[test]
fn only_chat_stream_is_streaming() {
    assert!(is_streaming_method("llm.chat_stream"));
    assert!(!is_streaming_method("llm.chat"));
    assert!(!is_streaming_method(""));
}

#[test]
fn error_constructors_set_codes() {
    assert_eq!(RpcError::invalid_params("bad".to_string()).code, INVALID_PARAMS);
    assert_eq!(RpcError::internal("boom".to_string()).code, INTERNAL_ERROR);
    assert_eq!(RpcError::method_not_found("x").code, METHOD_NOT_FOUND);
    assert_eq!(RpcError::new(-32000, "m".to_string()).message, "m");
}
