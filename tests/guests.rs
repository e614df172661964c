use harbor_bridge::host::{guest_outcome, host_key, reply_outcome, HostDelivery, PendingReplies, HOST_REPLY_DEADLINE_MS};
use harbor_bridge::inject::{
    context_script, escape, fetch_reply_script, fetch_reply_scripts, host_payload, host_reply_script,
    host_reply_scripts, request_script, Quote,
};
use harbor_bridge::pump::{startup_continues, timeout_message, Inbox, ItemPump, PumpStep, ITERATION_CAP};
use harbor_bridge::registry::{call_failed, GuestRegistry};
use harbor_bridge::rpc::SERVER_ERROR;

#[test]
fn second_start_fails_until_stop() {
    let mut reg: GuestRegistry<u32> = GuestRegistry::new();
    assert!(reg.start("echo".to_string(), Ok(1)).is_ok());
    let err = reg.start("echo".to_string(), Ok(2)).unwrap_err();
    assert_eq!(err.code, SERVER_ERROR);
    assert_eq!(err.message, "Server 'echo' is already running");
    assert_eq!(*reg.get("echo").unwrap(), 1);
    assert_eq!(reg.stop("echo").unwrap(), 1);
    assert!(reg.start("echo".to_string(), Ok(3)).is_ok());
    assert_eq!(*reg.get("echo").unwrap(), 3);
}

#[test]
fn missing_guest_errors() {
    let mut reg: GuestRegistry<u32> = GuestRegistry::new();
    assert_eq!(reg.get("nope").unwrap_err().message, "Server 'nope' not found");
    assert_eq!(reg.stop("nope").unwrap_err().code, SERVER_ERROR);
    let failed = reg.start("bad".to_string(), Err("syntax error".to_string())).unwrap_err();
    assert_eq!(failed.message, "Failed to start server: syntax error");
    assert!(reg.list().is_empty());
    assert_eq!(call_failed("Timeout").message, "Server call failed: Timeout");
}

#[test]
fn list_reports_running_guests_in_start_order() {
    let mut reg: GuestRegistry<()> = GuestRegistry::new();
    reg.start("a".to_string(), Ok(())).unwrap();
    reg.start("b".to_string(), Ok(())).unwrap();
    let ids: Vec<String> = reg.list().into_iter().map(|s| s.id).collect();
    assert_eq!(ids, vec!["a".to_string(), "b".to_string()]);
    assert!(reg.check_free("c").is_ok());
    assert!(reg.check_free("a").is_err());
}

#[test]
fn inbox_serves_in_submission_order() {
    let mut inbox: Inbox<u32> = Inbox::new();
    inbox.submit(1);
    inbox.submit(2);
    inbox.submit(3);
    assert_eq!(inbox.serve(), Some(1));
    assert_eq!(inbox.serve(), None);
    inbox.finish();
    assert_eq!(inbox.serve(), Some(2));
    inbox.finish();
    inbox.submit(4);
    assert_eq!(inbox.serve(), Some(3));
    inbox.finish();
    assert_eq!(inbox.serve(), Some(4));
    assert_eq!(inbox.serve(), None);
    inbox.finish();
    assert_eq!(inbox.serve(), None);
}

#[test]
fn last_written_line_is_the_reply() {
    let mut pump = ItemPump::new(ITERATION_CAP);
    assert!(matches!(pump.after_round(vec![]), PumpStep::Again));
    match pump.after_round(vec!["{\"a\":1}".to_string(), "{\"ok\":true}".to_string()]) {
        PumpStep::Reply(s) => assert_eq!(s, "{\"ok\":true}"),
        other => panic!("unexpected {:?}", other),
    }
}

#[test]
fn silent_guest_times_out_after_cap() {
    let mut pump = ItemPump::new(3);
    assert!(matches!(pump.after_round(vec![]), PumpStep::Again));
    assert!(matches!(pump.after_round(vec![]), PumpStep::Again));
    assert!(matches!(pump.after_round(vec![]), PumpStep::TimedOut));
    assert!(timeout_message().contains("Timeout waiting"));
}

#[test]
fn startup_pump_stops() {
    assert!(startup_continues(0, true, false));
    assert!(!startup_continues(0, false, false));
    assert!(!startup_continues(5, true, true));
    assert!(!startup_continues(1000, true, false));
}

#[test]
fn escaping_backslash_first() {
    assert_eq!(escape("a\\'b\n\r\t", Quote::Single), "a\\\\\\'b\\n\\r\\t");
    assert_eq!(escape("\"x\"\t", Quote::Double), "\\\"x\\\"\t");
    assert_eq!(escape("", Quote::Single), "");
}

#[test]
fn request_script_carries_payload() {
    let s = request_script("{\"hello\":1}");
    assert!(s.starts_with("try { const req = '{\"hello\":1}';"));
    assert!(s.contains("globalThis.__mcp_requests.push(req)"));
    let c = context_script("{\"tabId\":'7'}");
    assert_eq!(c, "globalThis.__requestHostContext = JSON.parse('{\"tabId\":\\'7\\'}');");
}

#[test]
fn host_reply_script_builders() {
    let p = host_payload(&Ok("{\"title\":\"T\"}".to_string()));
    assert_eq!(p, "{\"result\":{\"title\":\"T\"}}");
    let e = host_payload(&Err("\"denied\"".to_string()));
    assert_eq!(e, "{\"err\":\"denied\"}");
    let s = host_reply_script("1", &p);
    assert_eq!(s, "globalThis.__host_responses[\"1\"] = JSON.parse(\"{\\\"result\\\":{\\\"title\\\":\\\"T\\\"}}\");");
    assert_eq!(fetch_reply_script(12, "{\"status\":200}"), "globalThis.__fetch_responses[12] = {\"status\":200};");
}

#[test]
fn host_round_trip_correlates_by_id() {
    let mut pending: PendingReplies<&str> = PendingReplies::new();
    assert_eq!(pending.register("1".to_string(), "waiter-1", 0), None);
    assert_eq!(pending.register("2".to_string(), "waiter-2", 0), None);
    assert_eq!(pending.settle("2"), Some("waiter-2"));
    assert_eq!(pending.settle("2"), None);
    assert_eq!(pending.settle("9"), None);
    assert_eq!(pending.settle("1"), Some("waiter-1"));
    pending.register("3".to_string(), "w", 0);
    pending.clear();
    assert_eq!(pending.settle("3"), None);
}

#[test]
fn equal_request_ids_of_two_guests_do_not_collide() {
    let a = host_key("alpha", "1");
    let b = host_key("beta", "1");
    assert_eq!(a, "5:alpha1");
    assert_ne!(a, b);
    assert_ne!(host_key("a:b", "c"), host_key("a", "b:c"));
    let mut pending: PendingReplies<&str> = PendingReplies::new();
    assert_eq!(pending.register(a.clone(), "alpha waiter", 0), None);
    assert_eq!(pending.register(b.clone(), "beta waiter", 0), None);
    assert_eq!(pending.settle(&b), Some("beta waiter"));
    assert_eq!(pending.settle(&a), Some("alpha waiter"));
}

#[test]
fn register_hands_back_a_displaced_waiter() {
    let mut pending: PendingReplies<&str> = PendingReplies::new();
    assert_eq!(pending.register("k".to_string(), "first", 0), None);
    assert_eq!(pending.register("k".to_string(), "second", 5), Some("first"));
    assert_eq!(pending.settle("k"), Some("second"));
}

#[test]
fn unanswered_host_requests_are_reaped_after_deadline() {
    let mut pending: PendingReplies<&str> = PendingReplies::new();
    pending.register("old".to_string(), "w-old", 1_000);
    pending.register("new".to_string(), "w-new", 20_000);
    assert!(pending.reap_one(31_000, HOST_REPLY_DEADLINE_MS).is_none());
    assert_eq!(pending.reap_one(31_001, HOST_REPLY_DEADLINE_MS), Some(("old".to_string(), "w-old")));
    assert!(pending.reap_one(31_001, HOST_REPLY_DEADLINE_MS).is_none());
    assert_eq!(pending.settle("new"), Some("w-new"));
}

#[test]
fn delivery_outcomes_for_the_guest() {
    assert_eq!(guest_outcome(HostDelivery::Replied(Ok("{}".to_string()))), Ok("{}".to_string()));
    assert_eq!(guest_outcome(HostDelivery::Replied(Err("denied".to_string()))), Err("denied".to_string()));
    assert_eq!(guest_outcome(HostDelivery::Lost), Err("host_response timeout".to_string()));
    assert_eq!(
        guest_outcome(HostDelivery::NoChannel),
        Err("host requests are not available on this transport".to_string())
    );
    assert_eq!(
        guest_outcome(HostDelivery::SendFailed("full".to_string())),
        Err("host_request_tx send: full".to_string())
    );
}

#[test]
fn one_reply_script_per_drained_request() {
    let fetches = fetch_reply_scripts(&vec![(3, "{}".to_string()), (4, "{\"status\":200}".to_string())]);
    assert_eq!(fetches.len(), 2);
    assert_eq!(fetches[0], "globalThis.__fetch_responses[3] = {};");
    assert_eq!(fetches[1], "globalThis.__fetch_responses[4] = {\"status\":200};");
    let hosts = host_reply_scripts(&vec![("1".to_string(), Ok("2".to_string())), ("2".to_string(), Err("\"x\"".to_string()))]);
    assert_eq!(hosts.len(), 2);
    assert_eq!(hosts[0], "globalThis.__host_responses[\"1\"] = JSON.parse(\"{\\\"result\\\":2}\");");
    assert_eq!(hosts[1], "globalThis.__host_responses[\"2\"] = JSON.parse(\"{\\\"err\\\":\\\"x\\\"}\");");
}

#[test]
fn host_reply_outcomes() {
    assert_eq!(reply_outcome(Some("{\"title\":\"T\"}".to_string()), None), Ok("{\"title\":\"T\"}".to_string()));
    assert_eq!(reply_outcome(None, None), Ok("null".to_string()));
    assert_eq!(reply_outcome(Some("1".to_string()), Some("\"no\"".to_string())), Err("\"no\"".to_string()));
}
