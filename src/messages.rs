//! Message kinds of the two transports and the decisions taken on them.

use vstd::prelude::*;
use crate::rpc::{RpcError, is_streaming_method, is_streaming_spec};
use crate::text::same;

verus! {

/// What an inbound stdio frame asks for, by its `type` field.
#[derive(Debug, Clone, Copy, PartialEq, Eq, Structural)]
pub enum IncomingKind {
    Ping,
    Status,
    Shutdown,
    Rpc,
    HostResponse,
    Unknown,
}

pub open spec fn incoming_kind_spec(t: Seq<char>) -> IncomingKind {
    if t == "ping"@ {
        IncomingKind::Ping
    } else if t == "status"@ {
        IncomingKind::Status
    } else if t == "shutdown"@ {
        IncomingKind::Shutdown
    } else if t == "rpc"@ {
        IncomingKind::Rpc
    } else if t == "host_response"@ {
        IncomingKind::HostResponse
    } else {
        IncomingKind::Unknown
    }
}

/// Classifies an inbound frame by its `type` field.
pub fn classify_incoming(msg_type: &str) -> (r: IncomingKind)
    ensures
        r == incoming_kind_spec(msg_type@),
{
    if same(msg_type, "ping") {
        IncomingKind::Ping
    } else if same(msg_type, "status") {
        IncomingKind::Status
    } else if same(msg_type, "shutdown") {
        IncomingKind::Shutdown
    } else if same(msg_type, "rpc") {
        IncomingKind::Rpc
    } else if same(msg_type, "host_response") {
        IncomingKind::HostResponse
    } else {
        IncomingKind::Unknown
    }
}

/// How an RPC that arrived on stdio is served.
#[derive(Debug, Clone, Copy, PartialEq, Eq, Structural)]
pub enum RpcRoute {
    /// A streaming method: events are sent until the stream ends.
    Stream,
    /// A guest call on a transport that can carry host round-trips.
    CallWithHost,
    /// Any other method, through the method table.
    Dispatch,
}

/// Routes an RPC that arrived on stdio.
pub fn route_stdio_rpc(method: &str) -> (r: RpcRoute)
    ensures
        r == (if is_streaming_spec(method@) {
            RpcRoute::Stream
        } else if method@ == "js.call"@ {
            RpcRoute::CallWithHost
        } else {
            RpcRoute::Dispatch
        }),
{
    if is_streaming_method(method) {
        RpcRoute::Stream
    } else if same(method, "js.call") {
        RpcRoute::CallWithHost
    } else {
        RpcRoute::Dispatch
    }
}

/// The words of a log call, joined by single spaces.
pub open spec fn join_spec(args: Seq<Seq<char>>) -> Seq<char>
    decreases args.len(),
{
    if args.len() == 0 {
        Seq::empty()
    } else if args.len() == 1 {
        args[0]
    } else {
        join_spec(args.drop_last()) + " "@ + args.last()
    }
}

/// A console line of a guest, forwarded to the extension.
#[derive(Debug)]
pub struct ConsoleLogMessage {
    pub server_id: String,
    pub level: String,
    pub message: String,
}

/// The console line for one captured log call: the level defaults to `log`
/// and the arguments are joined by spaces.
pub fn console_message(server_id: &str, level: Option<String>, args: &Vec<String>) -> (r: ConsoleLogMessage)
    ensures
        r.server_id@ == server_id@,
        r.level@ == (match level {
            Some(l) => l@,
            None => "log"@,
        }),
        r.message@ == join_spec(args@.map_values(|a: String| a@)),
{
    let mut msg = String::new();
    let mut i: usize = 0;
    while i < args.len()
        invariant
            i <= args@.len(),
            msg@ == join_spec(args@.subrange(0, i as int).map_values(|a: String| a@)),
        decreases args@.len() - i,
    {
        proof {
            let pre = args@.subrange(0, i as int + 1).map_values(|a: String| a@);
            assert(pre.drop_last() =~= args@.subrange(0, i as int).map_values(|a: String| a@));
        }
        if i > 0 {
            msg.append(" ");
        }
        msg.append(args[i].as_str());
        i = i + 1;
    }
    assert(args@.subrange(0, i as int) =~= args@);
    let level = match level {
        Some(l) => l,
        None => String::from_str("log"),
    };
    ConsoleLogMessage { server_id: server_id.to_owned(), level, message: msg }
}

/// The error object of an HTTP or WebSocket reply.
#[derive(Debug)]
pub struct HttpRpcErrorResponse {
    pub code: i64,
    pub message: String,
}

impl HttpRpcErrorResponse {
    /// The reply form of an RPC error.
    pub fn from_error(e: RpcError) -> (r: HttpRpcErrorResponse)
        ensures
            r.code == e.code,
            r.message == e.message,
    {
        HttpRpcErrorResponse { code: e.code, message: e.message }
    }
}

} // verus!
