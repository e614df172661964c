use harbor_bridge::fetch::{plan_fetch, FetchPlan};
use harbor_bridge::guest_scripts::{BASE_SCRIPT, CONSOLE_SCRIPT, FETCH_SCRIPT, MCP_SCRIPT, TIMER_SCRIPT};
use harbor_bridge::inject::{fetch_reply_script, host_payload, host_reply_script, request_script};
use harbor_bridge::pump::{timeout_message, ItemPump, PumpStep, ITERATION_CAP};
use harbor_bridge::sandbox::NetworkCapabilities;
use rquickjs::{Context, Runtime};

struct Guest {
    runtime: Runtime,
    context: Context,
    network: NetworkCapabilities,
}

fn start(code: &str, allowed_hosts: &[&str]) -> Guest {
    let runtime = Runtime::new().unwrap();
    let context = Context::full(&runtime).unwrap();
    let network = NetworkCapabilities { allowed_hosts: allowed_hosts.iter().map(|h| h.to_string()).collect() };
    context.with(|ctx| {
        ctx.eval::<(), _>(BASE_SCRIPT).unwrap();
        ctx.eval::<(), _>(CONSOLE_SCRIPT).unwrap();
        ctx.eval::<(), _>(MCP_SCRIPT).unwrap();
        ctx.eval::<(), _>(TIMER_SCRIPT).unwrap();
        if network.grants_fetch() {
            ctx.eval::<(), _>(FETCH_SCRIPT).unwrap();
        }
        ctx.eval::<(), _>(code).unwrap();
    });
    let mut rounds = 0;
    while runtime.is_job_pending() && rounds < 1000 {
        runtime.execute_pending_job().unwrap();
        rounds += 1;
    }
    Guest { runtime, context, network }
}

fn drain(guest: &Guest, queue: &str) -> Vec<serde_json::Value> {
    let code = format!("JSON.stringify(globalThis.{q} ? globalThis.{q}.splice(0) : [])", q = queue);
    let json: String = guest.context.with(|ctx| ctx.eval(code).unwrap());
    serde_json::from_str(&json).unwrap()
}

fn call(
    guest: &Guest,
    request: &serde_json::Value,
    cap: u32,
    host: &dyn Fn(&str, &serde_json::Value) -> Result<serde_json::Value, String>,
    fetch_body: &str,
) -> Result<serde_json::Value, String> {
    let script = request_script(&request.to_string());
    guest.context.with(|ctx| ctx.eval::<(), _>(script).unwrap());
    let mut pump = ItemPump::new(cap);
    loop {
        while guest.runtime.is_job_pending() {
            guest.runtime.execute_pending_job().unwrap();
        }
        guest.context.with(|ctx| {
            let _: i32 = ctx.eval("globalThis.__processTimers()").unwrap();
        });
        for req in drain(guest, "__fetch_requests") {
            let url = req["url"].as_str().unwrap();
            let response = match plan_fetch(&guest.network, url, req["options"]["method"].as_str()) {
                FetchPlan::Send(_) => j(&format!(
                    r#"{{"status":200,"statusText":"OK","headers":{{}},"body":{},"error":null}}"#,
                    serde_json::Value::String(fetch_body.to_string())
                )),
                FetchPlan::Refuse(m) => j(&format!(
                    r#"{{"status":0,"statusText":"","headers":{{}},"body":"","error":{}}}"#,
                    serde_json::Value::String(m)
                )),
            };
            let script = fetch_reply_script(req["id"].as_u64().unwrap(), &response.to_string());
            guest.context.with(|ctx| ctx.eval::<(), _>(script).unwrap());
        }
        for req in drain(guest, "__host_requests") {
            let outcome = match host(req["method"].as_str().unwrap(), &req["params"]) {
                Ok(v) => Ok(v.to_string()),
                Err(m) => Err(serde_json::Value::String(m).to_string()),
            };
            let script = host_reply_script(req["id"].as_str().unwrap(), &host_payload(&outcome));
            guest.context.with(|ctx| ctx.eval::<(), _>(script).unwrap());
        }
        let lines: Vec<String> =
            drain(guest, "__mcp_responses").into_iter().map(|v| v.as_str().unwrap().to_string()).collect();
        match pump.after_round(lines) {
            PumpStep::Reply(text) => return Ok(serde_json::from_str(&text).unwrap()),
            PumpStep::TimedOut => return Err(timeout_message()),
            PumpStep::Again => {
                let t = std::time::Instant::now();
                while t.elapsed() < std::time::Duration::from_millis(1) {}
            },
        }
    }
}

fn j(text: &str) -> serde_json::Value {
    serde_json::from_str(text).unwrap()
}

fn no_host(_: &str, _: &serde_json::Value) -> Result<serde_json::Value, String> {
    Err("no host".to_string())
}

#[test]
fn echo_guest_replies_with_its_input() {
    let guest = start(
        "async function m(){ while(true){ const s = await MCP.readLine(); MCP.writeLine(s); } } m();",
        &[],
    );
    let request = j(r#"{"hello":1}"#);
    assert_eq!(call(&guest, &request, ITERATION_CAP, &no_host, "").unwrap(), request);
    let second = j(r#"{"again":[1,2]}"#);
    assert_eq!(call(&guest, &second, ITERATION_CAP, &no_host, "").unwrap(), second);
}

#[test]
fn params_round_trip_through_guest() {
    let guest = start(
        "async function m(){ while(true){ const r = JSON.parse(await MCP.readLine()); \
         MCP.writeLine(JSON.stringify({ id: r.id, result: r.params })); } } m();",
        &[],
    );
    let params = j(r#"{"s":"it's a \\ back\nslash\t\"quoted\"\r","n":[1.5,null,true]}"#);
    let reply = call(&guest, &j(&format!(r#"{{"id":7,"params":{}}}"#, params)), ITERATION_CAP, &no_host, "").unwrap();
    assert_eq!(reply["result"], params);
    assert_eq!(reply["id"], 7);
}

#[test]
fn delayed_response_arrives() {
    let guest = start(
        "async function m(){ while(true){ await MCP.readLine(); \
         setTimeout(() => MCP.writeLine('{\"ok\":true}'), 50); } } m();",
        &[],
    );
    let started = std::time::Instant::now();
    let reply = call(&guest, &j("{}"), ITERATION_CAP, &no_host, "").unwrap();
    assert_eq!(reply, j(r#"{"ok":true}"#));
    assert!(started.elapsed() < std::time::Duration::from_secs(1));
}

#[test]
fn fetch_pass_through() {
    let guest = start(
        "async function m(){ while(true){ const req = JSON.parse(await MCP.readLine()); \
         const resp = await fetch(req.url); const body = await resp.text(); \
         MCP.writeLine(JSON.stringify({ len: body.length })); } } m();",
        &["*"],
    );
    let reply =
        call(&guest, &j(r#"{"url":"http://127.0.0.1:9/fixture"}"#), ITERATION_CAP, &no_host, "abcde")
            .unwrap();
    assert_eq!(reply, j(r#"{"len":5}"#));
}

#[test]
fn fetch_to_disallowed_host_rejects_inside_guest() {
    let guest = start(
        "async function m(){ while(true){ const req = JSON.parse(await MCP.readLine()); \
         try { await fetch(req.url); MCP.writeLine('{\"ok\":true}'); } \
         catch (e) { MCP.writeLine(JSON.stringify({ error: e.message })); } } } m();",
        &["*.example.com"],
    );
    let ok = call(&guest, &j(r#"{"url":"https://api.example.com/x"}"#), ITERATION_CAP, &no_host, "x");
    assert_eq!(ok.unwrap(), j(r#"{"ok":true}"#));
    let denied = call(&guest, &j(r#"{"url":"https://evil.com/x"}"#), ITERATION_CAP, &no_host, "x");
    assert_eq!(denied.unwrap(), j(r#"{"error":"Host not allowed: https://evil.com/x"}"#));
}

#[test]
fn guest_without_grant_has_no_fetch() {
    let guest = start("globalThis.kind = typeof fetch;", &[]);
    let kind: String = guest.context.with(|ctx| ctx.eval("globalThis.kind").unwrap());
    assert_eq!(kind, "undefined");
}

#[test]
fn host_round_trip_returns_title() {
    let guest = start(
        "async function m(){ while(true){ const req = JSON.parse(await MCP.readLine()); \
         const r = await MCP.requestHost('open_tab', { url: req.url }); \
         MCP.writeLine(JSON.stringify({ title: r.title })); } } m();",
        &[],
    );
    let host = |method: &str, params: &serde_json::Value| -> Result<serde_json::Value, String> {
        assert_eq!(method, "open_tab");
        assert_eq!(params["url"], "https://a.test/");
        Ok(j(r#"{"title":"T"}"#))
    };
    let reply = call(&guest, &j(r#"{"url":"https://a.test/"}"#), ITERATION_CAP, &host, "").unwrap();
    assert_eq!(reply, j(r#"{"title":"T"}"#));
}

#[test]
fn host_error_rejects_guest_promise() {
    let guest = start(
        "async function m(){ while(true){ await MCP.readLine(); \
         try { await MCP.requestHost('open_tab', {}); } \
         catch (e) { MCP.writeLine(JSON.stringify({ error: e.message })); } } } m();",
        &[],
    );
    let reply = call(&guest, &j("{}"), ITERATION_CAP, &no_host, "").unwrap();
    assert_eq!(reply, j(r#"{"error":"no host"}"#));
}

#[test]
fn silent_guest_times_out_and_stays_alive() {
    let guest = start(
        "async function m(){ while(true){ const s = await MCP.readLine(); if (s !== '{}') MCP.writeLine(s); } } m();",
        &[],
    );
    let err = call(&guest, &j("{}"), 50, &no_host, "").unwrap_err();
    assert!(err.contains("Timeout waiting"));
    let after = call(&guest, &j(r#"{"x":1}"#), ITERATION_CAP, &no_host, "").unwrap();
    assert_eq!(after, j(r#"{"x":1}"#));
}
