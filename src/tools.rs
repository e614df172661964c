//! The tool-call arbitrator's queue for extension-side guests.
//!
//! A tool call first goes to an in-process guest. When that fails for any
//! reason, the call is queued here under a fresh `call-N` id; the extension
//! polls the queue, runs the tool and submits a result, and the waiting call
//! picks it up or gives up after a deadline.

use vstd::prelude::*;
use crate::keyed::KeyedList;
use crate::rpc::{RpcError, SERVER_ERROR};
use crate::text::{decimal, decimal_spec, lemma_decimal_injective};
use crate::config::clone_opt;

verus! {

/// How long a queued call waits for its result, in milliseconds.
pub const FALLBACK_TIMEOUT_MS: u64 = 60000;

/// How often a queued call looks for its result, in milliseconds.
pub const POLL_INTERVAL_MS: u64 = 100;

/// Parameters of a tool call. `args` is JSON text.
#[derive(Debug)]
pub struct CallToolParams {
    pub server_id: String,
    pub tool_name: String,
    pub args: String,
}

/// A call waiting for the extension. `args` is JSON text.
#[derive(Debug)]
pub struct PendingToolCall {
    pub call_id: String,
    pub server_id: String,
    pub tool_name: String,
    pub args: String,
}

impl PendingToolCall {
    /// A copy of this call.
    pub fn duplicate(&self) -> (r: PendingToolCall)
        ensures
            r == *self,
    {
        PendingToolCall {
            call_id: self.call_id.clone(),
            server_id: self.server_id.clone(),
            tool_name: self.tool_name.clone(),
            args: self.args.clone(),
        }
    }
}

/// What the extension submitted for a call: a result (JSON text) or an error
/// message.
#[derive(Debug)]
pub struct ToolCallResult {
    pub call_id: String,
    pub result: Option<String>,
    pub error: Option<String>,
}

/// Parameters of a result submission.
#[derive(Debug)]
pub struct SubmitResultParams {
    pub call_id: String,
    pub result: Option<String>,
    pub error: Option<String>,
}

/// What a waiting call does after one look at the queue.
#[derive(Debug)]
pub enum FallbackStep {
    /// The call is over: the submitted result (JSON text, if any) or an error.
    Done(Result<Option<String>, RpcError>),
    /// Nothing yet: sleep for a poll interval and look again.
    Wait,
}

/// The reply of a tool call, around its result (JSON text).
pub open spec fn tool_reply_spec(result_json: Seq<char>) -> Seq<char> {
    "{\"result\":"@ + result_json + "}"@
}

/// Wraps a tool call's result (JSON text) as its reply.
pub fn tool_reply(result_json: &str) -> (r: String)
    ensures
        r@ == tool_reply_spec(result_json@),
{
    let mut out = String::from_str("{\"result\":");
    out.append(result_json);
    out.append("}");
    out
}

/// The result an in-process guest gave: the `result` field of its reply
/// when there is one, else the whole reply (both JSON text).
pub fn in_process_result(result_field: Option<String>, whole: String) -> (r: String)
    ensures
        r == (match result_field {
            Some(f) => f,
            None => whole,
        }),
{
    match result_field {
        Some(f) => f,
        None => whole,
    }
}

/// The result the extension submitted (JSON text), or `null` when it
/// submitted none.
pub fn queued_result(result: Option<String>) -> (r: String)
    ensures
        r@ == (match result {
            Some(v) => v@,
            None => "null"@,
        }),
{
    match result {
        Some(v) => v,
        None => String::from_str("null"),
    }
}

/// The id minted from counter value `n`.
pub open spec fn call_id_spec(n: nat) -> Seq<char> {
    "call-"@ + decimal_spec(n)
}

/// Ids minted from different counter values differ, so no two queued calls
/// share an id and each submitted result reaches exactly one waiting call.
pub proof fn minted_call_ids_differ(a: nat, b: nat)
    requires
        a != b,
    ensures
        call_id_spec(a) != call_id_spec(b),
{
    reveal_strlit("call-");
    if call_id_spec(a) == call_id_spec(b) {
        assert(call_id_spec(a).subrange(5, call_id_spec(a).len() as int) =~= decimal_spec(a));
        assert(call_id_spec(b).subrange(5, call_id_spec(b).len() as int) =~= decimal_spec(b));
        lemma_decimal_injective(a, b);
    }
}

pub open spec fn timed_out_msg() -> Seq<char> {
    "Tool call timed out waiting for Harbor"@
}

/// The outcome a submitted result gives the waiting call.
pub open spec fn outcome_ok(r: ToolCallResult) -> bool {
    r.error.is_none()
}

/// The queue of calls handed to the extension and of results it submitted.
pub struct ToolQueue {
    pub next_call: u64,
    pub pending: KeyedList<PendingToolCall>,
    pub results: KeyedList<ToolCallResult>,
}

impl ToolQueue {
    /// Keys are unique, and each waiting call is filed under its own id,
    /// minted from a counter value the queue has already passed.
    pub open spec fn wf(&self) -> bool {
        &&& self.pending.wf()
        &&& self.results.wf()
        &&& self.next_call >= 1
        &&& forall|k: Seq<char>| #[trigger] self.pending@.contains_key(k) ==> self.pending@[k].call_id@ == k
            && exists|n: nat| 1 <= n < self.next_call && k == call_id_spec(n)
    }

    /// An empty queue whose first call will be `call-1`.
    pub fn new() -> (r: ToolQueue)
        ensures
            r.wf(),
            r.next_call == 1,
            r.pending@ == Map::<Seq<char>, PendingToolCall>::empty(),
            r.results@ == Map::<Seq<char>, ToolCallResult>::empty(),
    {
        ToolQueue { next_call: 1, pending: KeyedList::new(), results: KeyedList::new() }
    }

    /// Queues a call for the extension under a freshly minted id, which it
    /// returns.
    pub fn enqueue(&mut self, params: CallToolParams) -> (r: String)
        requires
            old(self).wf(),
            old(self).next_call < u64::MAX,
        ensures
            final(self).wf(),
            r@ == call_id_spec(old(self).next_call as nat),
            !old(self).pending@.contains_key(r@),
            final(self).next_call == old(self).next_call + 1,
            final(self).pending@ == old(self).pending@.insert(
                r@,
                (PendingToolCall {
                    call_id: r,
                    server_id: params.server_id,
                    tool_name: params.tool_name,
                    args: params.args,
                }),
            ),
            final(self).results@ == old(self).results@,
    {
        let mut id = String::from_str("call-");
        let n = decimal(self.next_call);
        id.append(n.as_str());
        self.next_call = self.next_call + 1;
        let call = PendingToolCall {
            call_id: id.clone(),
            server_id: params.server_id,
            tool_name: params.tool_name,
            args: params.args,
        };
        proof {
            if old(self).pending@.contains_key(id@) {
                let m = choose|m: nat| 1 <= m < old(self).next_call && id@ == call_id_spec(m);
                minted_call_ids_differ(m, old(self).next_call as nat);
            }
        }
        self.pending.insert(id.clone(), call);
        proof {
            assert forall|k: Seq<char>| #[trigger] self.pending@.contains_key(k) implies self.pending@[k].call_id@
                == k && exists|n: nat| 1 <= n < self.next_call && k == call_id_spec(n) by {
                if k != id@ {
                    let m = choose|m: nat| 1 <= m < old(self).next_call && k == call_id_spec(m);
                    assert(self.pending@[k] == old(self).pending@[k]);
                    assert(1 <= m < self.next_call && k == call_id_spec(m));
                } else {
                    let m = old(self).next_call as nat;
                    assert(1 <= m < self.next_call && k == call_id_spec(m));
                }
            }
        }
        id
    }

    /// The calls waiting for the extension, oldest first.
    pub fn poll_pending_calls(&self) -> (r: Vec<PendingToolCall>)
        requires
            self.wf(),
        ensures
            r@.len() == self.pending.entries@.len(),
            forall|i: int| 0 <= i < r@.len() ==> #[trigger] r@[i] == self.pending.entries@[i].1,
    {
        let mut out: Vec<PendingToolCall> = Vec::new();
        let mut i: usize = 0;
        while i < self.pending.entries.len()
            invariant
                i <= self.pending.entries@.len(),
                out@.len() == i,
                forall|j: int| 0 <= j < i ==> #[trigger] out@[j] == self.pending.entries@[j].1,
            decreases self.pending.entries@.len() - i,
        {
            out.push(self.pending.entries[i].1.duplicate());
            i = i + 1;
        }
        out
    }

    /// Records what the extension submitted for a call; a later submission
    /// for the same id replaces an earlier one.
    pub fn submit_call_result(&mut self, params: SubmitResultParams)
        requires
            old(self).wf(),
        ensures
            final(self).wf(),
            final(self).results@ == old(self).results@.insert(
                params.call_id@,
                ToolCallResult {
                    call_id: params.call_id,
                    result: params.result,
                    error: params.error,
                },
            ),
            final(self).pending@ == old(self).pending@,
            final(self).next_call == old(self).next_call,
    {
        let key = params.call_id.clone();
        let r = ToolCallResult { call_id: params.call_id, result: params.result, error: params.error };
        self.results.insert(key, r);
    }

    /// One look at the queue by the call waiting on `call_id`, `elapsed_ms`
    /// after it was queued. A submitted result ends the call and clears both
    /// entries; past the deadline the call is dropped with a timeout error.
    pub fn fallback_step(&mut self, call_id: &str, elapsed_ms: u64) -> (r: FallbackStep)
        requires
            old(self).wf(),
        ensures
            final(self).wf(),
            final(self).next_call == old(self).next_call,
            old(self).results@.contains_key(call_id@) ==> {
                let s = old(self).results@[call_id@];
                &&& final(self).results@ == old(self).results@.remove(call_id@)
                &&& final(self).pending@ == old(self).pending@.remove(call_id@)
                &&& match s.error {
                    Some(e) => r matches FallbackStep::Done(Err(x)) && x.code == SERVER_ERROR
                        && x.message == e,
                    None => r == FallbackStep::Done(Ok(s.result)),
                }
            },
            !old(self).results@.contains_key(call_id@) && elapsed_ms > FALLBACK_TIMEOUT_MS ==> {
                &&& final(self).results@ == old(self).results@
                &&& final(self).pending@ == old(self).pending@.remove(call_id@)
                &&& r matches FallbackStep::Done(Err(x)) && x.code == SERVER_ERROR
                    && x.message@ == timed_out_msg()
            },
            !old(self).results@.contains_key(call_id@) && elapsed_ms <= FALLBACK_TIMEOUT_MS ==> {
                &&& *final(self) == *old(self)
                &&& r == FallbackStep::Wait
            },
    {
        match self.results.remove(call_id) {
            Some(s) => {
                let _ = self.pending.remove(call_id);
                match s.error {
                    Some(e) => FallbackStep::Done(Err(RpcError::new(SERVER_ERROR, e))),
                    None => FallbackStep::Done(Ok(s.result)),
                }
            },
            None => {
                if elapsed_ms > FALLBACK_TIMEOUT_MS {
                    let _ = self.pending.remove(call_id);
                    FallbackStep::Done(
                        Err(
                            RpcError::new(
                                SERVER_ERROR,
                                String::from_str("Tool call timed out waiting for Harbor"),
                            ),
                        ),
                    )
                } else {
                    FallbackStep::Wait
                }
            },
        }
    }
}

/// A tool the extension registered for one of its guests. `input_schema` is
/// JSON text.
#[derive(Debug)]
pub struct RegisteredTool {
    pub server_id: String,
    pub name: String,
    pub description: Option<String>,
    pub input_schema: Option<String>,
}

impl RegisteredTool {
    /// A copy of this tool.
    pub fn duplicate(&self) -> (r: RegisteredTool)
        ensures
            r == *self,
    {
        RegisteredTool {
            server_id: self.server_id.clone(),
            name: self.name.clone(),
            description: clone_opt(&self.description),
            input_schema: clone_opt(&self.input_schema),
        }
    }
}

/// One tool of a registration. `input_schema` is JSON text.
#[derive(Debug)]
pub struct ToolInfo {
    pub name: String,
    pub description: Option<String>,
    pub input_schema: Option<String>,
}

/// The tools of one guest, as the extension registers them.
#[derive(Debug)]
pub struct RegisterToolsParams {
    pub server_id: String,
    pub tools: Vec<ToolInfo>,
}

/// Which guest's tools to drop.
#[derive(Debug)]
pub struct UnregisterToolsParams {
    pub server_id: String,
}

/// The key a tool is filed under: its guest id, a slash, and its name.
pub open spec fn tool_key(server_id: Seq<char>, name: Seq<char>) -> Seq<char> {
    server_id + "/"@ + name
}

/// The registered tools, keyed by `server/name`.
pub struct ToolRegistry {
    pub tools: KeyedList<RegisteredTool>,
}

impl ToolRegistry {
    pub open spec fn wf(&self) -> bool {
        self.tools.wf()
    }

    pub open spec fn view(&self) -> Map<Seq<char>, RegisteredTool> {
        self.tools@
    }

    pub fn new() -> (r: ToolRegistry)
        ensures
            r.wf(),
            r@ == Map::<Seq<char>, RegisteredTool>::empty(),
    {
        ToolRegistry { tools: KeyedList::new() }
    }

    /// Files each tool of a registration under `server/name`, replacing a
    /// tool already filed there.
    pub fn register_tools(&mut self, params: RegisterToolsParams)
        requires
            old(self).wf(),
        ensures
            final(self).wf(),
            forall|k: Seq<char>|
                #![trigger final(self)@.contains_key(k)]
                final(self)@.contains_key(k) <==> (old(self)@.contains_key(k) || exists|i: int|
                    0 <= i < params.tools@.len() && k == tool_key(params.server_id@, params.tools@[i].name@)),
            forall|i: int|
                0 <= i < params.tools@.len() && (forall|j: int|
                    i < j < params.tools@.len() ==> params.tools@[j].name@ != params.tools@[i].name@) ==> {
                    let t = #[trigger] params.tools@[i];
                    let r = final(self)@[tool_key(params.server_id@, t.name@)];
                    &&& r.server_id == params.server_id
                    &&& r.name == t.name
                    &&& r.description == t.description
                    &&& r.input_schema == t.input_schema
                },
    {
        let n = params.tools.len();
        let sid = params.server_id;
        let tools = params.tools;
        let mut i: usize = 0;
        while i < n
            invariant
                n == tools@.len(),
                i <= n,
                self.wf(),
                forall|k: Seq<char>|
                    #![trigger self@.contains_key(k)]
                    self@.contains_key(k) <==> (old(self)@.contains_key(k) || exists|j: int|
                        0 <= j < i && k == tool_key(sid@, tools@[j].name@)),
                forall|a: int|
                    0 <= a < i && (forall|j: int| a < j < i ==> tools@[j].name@ != tools@[a].name@) ==> {
                        let t = #[trigger] tools@[a];
                        let r = self@[tool_key(sid@, t.name@)];
                        &&& r.server_id == sid
                        &&& r.name == t.name
                        &&& r.description == t.description
                        &&& r.input_schema == t.input_schema
                    },
            decreases n - i,
        {
            let t = &tools[i];
            let mut key = sid.clone();
            key.append("/");
            key.append(t.name.as_str());
            let tool = RegisteredTool {
                server_id: sid.clone(),
                name: t.name.clone(),
                description: clone_opt(&t.description),
                input_schema: clone_opt(&t.input_schema),
            };
            let ghost before = self@;
            self.tools.insert(key, tool);
            proof {
                assert forall|k: Seq<char>| #[trigger] self@.contains_key(k) <==> (old(self)@.contains_key(k)
                    || exists|j: int| 0 <= j < i + 1 && k == tool_key(sid@, tools@[j].name@)) by {
                    if k == tool_key(sid@, tools@[i as int].name@) {
                    } else if exists|j: int| 0 <= j < i + 1 && k == tool_key(sid@, tools@[j].name@) {
                        let j = choose|j: int| 0 <= j < i + 1 && k == tool_key(sid@, tools@[j].name@);
                        assert(j < i);
                    }
                }
                assert forall|a: int|
                    0 <= a < i + 1 && (forall|j: int| a < j < i + 1 ==> tools@[j].name@ != tools@[a].name@)
                    implies {
                    let t = #[trigger] tools@[a];
                    let r = self@[tool_key(sid@, t.name@)];
                    &&& r.server_id == sid
                    &&& r.name == t.name
                    &&& r.description == t.description
                    &&& r.input_schema == t.input_schema
                } by {
                    if a < i {
                        assert(tools@[i as int].name@ != tools@[a].name@);
                        lemma_tool_key_injective(sid@, tools@[i as int].name@, tools@[a].name@);
                    }
                }
            }
            i = i + 1;
        }
    }

    /// Drops every tool of one guest.
    pub fn unregister_tools(&mut self, params: UnregisterToolsParams)
        requires
            old(self).wf(),
        ensures
            final(self).wf(),
            forall|k: Seq<char>|
                #![trigger final(self)@.contains_key(k)]
                final(self)@.contains_key(k) <==> (old(self)@.contains_key(k) && old(self)@[k].server_id@
                    != params.server_id@),
            forall|k: Seq<char>| #[trigger] final(self)@.contains_key(k) ==> final(self)@[k] == old(self)@[k],
    {
        let sid = params.server_id;
        let old_entries = &self.tools.entries;
        let n = old_entries.len();
        let mut kept: Vec<(String, RegisteredTool)> = Vec::new();
        let mut i: usize = 0;
        while i < n
            invariant
                n == old_entries@.len(),
                old_entries@ == old(self).tools.entries@,
                old(self).wf(),
                i <= n,
                forall|j: int| 0 <= j < kept@.len() ==> exists|k: int| 0 <= k < i && #[trigger] kept@[j] == old_entries@[k],
                forall|a: int, b: int| 0 <= a < kept@.len() && 0 <= b < kept@.len() && a != b ==> kept@[a].0@
                    != kept@[b].0@,
                forall|k: int| 0 <= k < i && old_entries@[k].1.server_id@ != sid@ ==> exists|j: int|
                    0 <= j < kept@.len() && kept@[j] == #[trigger] old_entries@[k],
                forall|j: int| 0 <= j < kept@.len() ==> (#[trigger] kept@[j]).1.server_id@ != sid@,
            decreases n - i,
        {
            let e = &old_entries[i];
            if e.1.server_id != sid {
                let ghost before = kept@;
                kept.push((e.0.clone(), e.1.duplicate()));
                proof {
                    assert(kept@[before.len() as int] == old_entries@[i as int]);
                    assert forall|j: int| 0 <= j < kept@.len() implies exists|k: int|
                        0 <= k < i + 1 && #[trigger] kept@[j] == old_entries@[k] by {
                        if j < before.len() {
                            assert(kept@[j] == before[j]);
                        }
                    }
                    assert forall|a: int, b: int| 0 <= a < kept@.len() && 0 <= b < kept@.len() && a != b
                        implies kept@[a].0@ != kept@[b].0@ by {
                        if a == before.len() && b < before.len() {
                            assert(kept@[b] == before[b]);
                            let k = choose|k: int| 0 <= k < i && before[b] == old_entries@[k];
                            assert(k != i);
                        } else if b == before.len() && a < before.len() {
                            assert(kept@[a] == before[a]);
                            let k = choose|k: int| 0 <= k < i && before[a] == old_entries@[k];
                            assert(k != i);
                        } else if a < before.len() && b < before.len() {
                            assert(kept@[a] == before[a] && kept@[b] == before[b]);
                        }
                    }
                    assert forall|k: int| 0 <= k < i + 1 && old_entries@[k].1.server_id@ != sid@ implies exists|j: int|
                        0 <= j < kept@.len() && kept@[j] == #[trigger] old_entries@[k] by {
                        if k < i {
                            let j = choose|j: int| 0 <= j < before.len() && before[j] == old_entries@[k];
                            assert(kept@[j] == before[j]);
                        } else {
                            assert(kept@[before.len() as int] == old_entries@[k]);
                        }
                    }
                    assert forall|j: int| 0 <= j < kept@.len() implies (#[trigger] kept@[j]).1.server_id@ != sid@ by {
                        if j < before.len() {
                            assert(kept@[j] == before[j]);
                        }
                    }
                }
            }
            i = i + 1;
        }
        let ghost old_list = self.tools;
        self.tools = KeyedList { entries: kept };
        proof {
            assert forall|k: Seq<char>| #[trigger] self@.contains_key(k) <==> (old(self)@.contains_key(k)
                && old(self)@[k].server_id@ != sid@) by {
                if self.tools.has(k) {
                    let j = self.tools.pos(k);
                    let q = choose|q: int| 0 <= q < n && kept@[j] == old_entries@[q];
                    old_list.lemma_pos(q);
                }
                if old_list.has(k) && old_list.lookup(k).server_id@ != sid@ {
                    let q = old_list.pos(k);
                    let j = choose|j: int| 0 <= j < kept@.len() && kept@[j] == old_entries@[q];
                    assert(self.tools.entries@[j].0@ == k);
                }
            }
            assert forall|k: Seq<char>| #[trigger] self@.contains_key(k) implies self@[k] == old(self)@[k] by {
                let j = self.tools.pos(k);
                self.tools.lemma_pos(j);
                let q = choose|q: int| 0 <= q < n && kept@[j] == old_entries@[q];
                old_list.lemma_pos(q);
            }
        }
    }

    /// The registered tools, in order of first registration.
    pub fn list_tools(&self) -> (r: Vec<RegisteredTool>)
        ensures
            r@.len() == self.tools.entries@.len(),
            forall|i: int| 0 <= i < r@.len() ==> #[trigger] r@[i] == self.tools.entries@[i].1,
    {
        let mut out: Vec<RegisteredTool> = Vec::new();
        let mut i: usize = 0;
        while i < self.tools.entries.len()
            invariant
                i <= self.tools.entries@.len(),
                out@.len() == i,
                forall|j: int| 0 <= j < i ==> #[trigger] out@[j] == self.tools.entries@[j].1,
            decreases self.tools.entries@.len() - i,
        {
            out.push(self.tools.entries[i].1.duplicate());
            i = i + 1;
        }
        out
    }
}

proof fn lemma_tool_key_injective(server_id: Seq<char>, a: Seq<char>, b: Seq<char>)
    requires
        a != b,
    ensures
        tool_key(server_id, a) != tool_key(server_id, b),
{
    let p = server_id + "/"@;
    if tool_key(server_id, a) == tool_key(server_id, b) {
        assert((p + a).subrange(p.len() as int, (p + a).len() as int) =~= a);
        assert((p + b).subrange(p.len() as int, (p + b).len() as int) =~= b);
    }
}

} // verus!
