//! The JavaScript that sets up a guest's global scope before its own
//! program runs. The pump talks to the guest only through the globals these
//! scripts define.

use vstd::prelude::*;

verus! {

/// The queues of lines the guest reads and writes.
pub const BASE_SCRIPT: &'static str = r#"
    globalThis.__mcp_responses = [];
    globalThis.__mcp_requests = [];
"#;

/// A `console` whose calls are captured for the host to forward.
pub const CONSOLE_SCRIPT: &'static str = r#"
    globalThis.__console_logs = [];
    const __capture = (level) => (...args) => {
        globalThis.__console_logs.push({ level: level, args: args.map(a => String(a)) });
    };
    globalThis.console = {
        log: __capture('log'),
        warn: __capture('warn'),
        error: __capture('error'),
        info: __capture('info'),
        debug: __capture('debug'),
    };
"#;

/// The `MCP` object (`readLine`, `writeLine`, `requestHost`); `eval` is removed.
pub const MCP_SCRIPT: &'static str = r#"
    globalThis.__host_requests = [];
    globalThis.__host_responses = {};
    globalThis.__host_id = 0;
    globalThis.__requestHostContext = {};
    globalThis.MCP = {
        readLine: function() {
            return new Promise((resolve) => {
                globalThis.__mcp_pendingRead = resolve;
            });
        },
        writeLine: function(json) {
            globalThis.__mcp_responses.push(json);
        },
        requestHost: function(method, params) {
            const id = String(++globalThis.__host_id);
            globalThis.__host_requests.push({ id: id, method: method, params: params || {} });
            return new Promise((resolve, reject) => {
                const check = function() {
                    const r = globalThis.__host_responses[id];
                    if (r !== undefined) {
                        delete globalThis.__host_responses[id];
                        if (r.err) reject(new Error(r.err)); else resolve(r.result);
                    } else {
                        setTimeout(check, 1);
                    }
                };
                check();
            });
        },
    };
    delete globalThis.eval;
"#;

/// Timers kept in a list that the pump advances through `__processTimers`.
pub const TIMER_SCRIPT: &'static str = r#"
    globalThis.__timers = [];
    globalThis.__timer_id = 0;
    const __schedule = (type) => function(callback, delay) {
        const id = ++globalThis.__timer_id;
        globalThis.__timers.push({ id: id, callback: callback, delay: delay || 0, scheduled: Date.now(), type: type });
        return id;
    };
    globalThis.setTimeout = __schedule('timeout');
    globalThis.setInterval = __schedule('interval');
    globalThis.clearTimeout = function(id) {
        const idx = globalThis.__timers.findIndex(t => t.id === id);
        if (idx !== -1) {
            globalThis.__timers.splice(idx, 1);
        }
    };
    globalThis.clearInterval = globalThis.clearTimeout;
    globalThis.__processTimers = function() {
        const now = Date.now();
        const ready = [];
        const keep = [];
        for (const timer of globalThis.__timers) {
            if (now >= timer.scheduled + timer.delay) {
                ready.push(timer);
                if (timer.type === 'interval') {
                    keep.push({ ...timer, scheduled: now });
                }
            } else {
                keep.push(timer);
            }
        }
        globalThis.__timers = keep;
        for (const timer of ready) {
            try {
                timer.callback();
            } catch (e) {
                console.error('Timer callback error:', e);
            }
        }
        return ready.length;
    };
"#;

/// A `fetch` whose requests the pump performs and answers by id.
pub const FETCH_SCRIPT: &'static str = r#"
    globalThis.__fetch_requests = [];
    globalThis.__fetch_responses = {};
    globalThis.__fetch_id = 0;
    globalThis.fetch = async function(url, options) {
        const id = ++globalThis.__fetch_id;
        globalThis.__fetch_requests.push({ id: id, url: url, options: options || {} });
        return new Promise((resolve, reject) => {
            const check = () => {
                const resp = globalThis.__fetch_responses[id];
                if (resp) {
                    delete globalThis.__fetch_responses[id];
                    if (resp.error) {
                        reject(new Error(resp.error));
                    } else {
                        resolve({
                            ok: resp.status >= 200 && resp.status < 300,
                            status: resp.status,
                            statusText: resp.statusText || '',
                            headers: new Map(Object.entries(resp.headers || {})),
                            text: async () => resp.body,
                            json: async () => JSON.parse(resp.body),
                        });
                    }
                } else {
                    setTimeout(check, 1);
                }
            };
            check();
        });
    };
"#;

} // verus!
