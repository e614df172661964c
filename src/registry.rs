//! The process-wide registry of running guests, keyed by caller-chosen ids.
//!
//! The registry holds one handle per guest; callers refer to a guest by id
//! only. The handle type is left open: whoever runs the guests decides what
//! a handle carries.

use vstd::prelude::*;
use crate::keyed::KeyedList;
use crate::rpc::{RpcError, SERVER_ERROR};
use crate::sandbox::Capabilities;

verus! {

/// Parameters of a start request.
#[derive(Debug)]
pub struct StartServerParams {
    /// Unique guest id.
    pub id: String,
    /// The guest program's source text.
    pub code: String,
    /// The sealed environment the guest sees as `process.env`.
    pub env: Vec<(String, String)>,
    /// What the guest may reach.
    pub capabilities: Capabilities,
}

/// Parameters of a stop request.
#[derive(Debug)]
pub struct StopServerParams {
    pub id: String,
}

/// One entry of a listing of running guests.
#[derive(Debug)]
pub struct ServerInfo {
    pub id: String,
    pub running: bool,
}

/// Everything needed to start one guest.
#[derive(Debug)]
pub struct JsServerConfig {
    pub id: String,
    pub code: String,
    pub env: Vec<(String, String)>,
    pub capabilities: Capabilities,
}

/// The guest runtime; its workers are started by the host program.
#[derive(Debug)]
pub struct JsServer;

impl JsServerConfig {
    /// The configuration a start request describes.
    pub fn from_params(p: StartServerParams) -> (r: JsServerConfig)
        ensures
            r.id == p.id,
            r.code == p.code,
            r.env == p.env,
            r.capabilities == p.capabilities,
    {
        JsServerConfig { id: p.id, code: p.code, env: p.env, capabilities: p.capabilities }
    }
}

pub open spec fn already_running_msg(id: Seq<char>) -> Seq<char> {
    "Server '"@ + id + "' is already running"@
}

pub open spec fn not_found_msg(id: Seq<char>) -> Seq<char> {
    "Server '"@ + id + "' not found"@
}

pub open spec fn start_failed_msg(reason: Seq<char>) -> Seq<char> {
    "Failed to start server: "@ + reason
}

pub open spec fn call_failed_msg(reason: Seq<char>) -> Seq<char> {
    "Server call failed: "@ + reason
}

fn quoted_id_error(id: &str, tail: &str) -> (r: RpcError)
    ensures
        r.code == SERVER_ERROR,
        r.message@ == "Server '"@ + id@ + tail@,
{
    let mut m = String::from_str("Server '");
    m.append(id);
    m.append(tail);
    RpcError::new(SERVER_ERROR, m)
}

/// The error for a call that reached a guest but got no reply from it.
pub fn call_failed(reason: &str) -> (r: RpcError)
    ensures
        r.code == SERVER_ERROR,
        r.message@ == call_failed_msg(reason@),
{
    let mut m = String::from_str("Server call failed: ");
    m.append(reason);
    RpcError::new(SERVER_ERROR, m)
}

/// Whether a start of `id` is admitted by a registry holding `running`.
pub open spec fn start_admitted<H>(running: Map<Seq<char>, H>, id: Seq<char>) -> bool {
    !running.contains_key(id)
}

/// The guests that are running, by id.
pub struct GuestRegistry<H> {
    pub servers: KeyedList<H>,
}

impl<H> GuestRegistry<H> {
    pub open spec fn wf(&self) -> bool {
        self.servers.wf()
    }

    pub open spec fn view(&self) -> Map<Seq<char>, H> {
        self.servers@
    }

    /// A registry with no guest.
    pub fn new() -> (r: GuestRegistry<H>)
        ensures
            r.wf(),
            r@ == Map::<Seq<char>, H>::empty(),
    {
        GuestRegistry { servers: KeyedList::new() }
    }

    /// Checks, before a guest is launched, that its id is free.
    pub fn check_free(&self, id: &str) -> (r: Result<(), RpcError>)
        requires
            self.wf(),
        ensures
            r.is_ok() == start_admitted(self@, id@),
            r matches Err(e) ==> e.code == SERVER_ERROR && e.message@ == already_running_msg(id@),
    {
        if self.servers.contains(id) {
            proof {
                reveal_strlit("' is already running");
            }
            Err(quoted_id_error(id, "' is already running"))
        } else {
            Ok(())
        }
    }

    /// Records a guest under `id` once its launch is known: a taken id is
    /// refused, a failed launch is reported, and otherwise the handle is
    /// kept.
    pub fn start(&mut self, id: String, launched: Result<H, String>) -> (r: Result<(), RpcError>)
        requires
            old(self).wf(),
        ensures
            final(self).wf(),
            r.is_ok() == (start_admitted(old(self)@, id@) && launched.is_ok()),
            r.is_ok() ==> final(self)@ == old(self)@.insert(id@, launched->Ok_0),
            r.is_err() ==> final(self)@ == old(self)@,
            !start_admitted(old(self)@, id@) ==> (r matches Err(e) && e.code == SERVER_ERROR
                && e.message@ == already_running_msg(id@)),
            start_admitted(old(self)@, id@) && launched is Err ==> (r matches Err(e) && e.code
                == SERVER_ERROR && e.message@ == start_failed_msg(launched->Err_0@)),
    {
        match self.check_free(id.as_str()) {
            Err(e) => Err(e),
            Ok(()) => match launched {
                Err(reason) => {
                    let mut m = String::from_str("Failed to start server: ");
                    m.append(reason.as_str());
                    Err(RpcError::new(SERVER_ERROR, m))
                },
                Ok(h) => {
                    self.servers.insert(id, h);
                    Ok(())
                },
            },
        }
    }

    /// Takes a guest out of the registry; the caller then fires its shutdown
    /// signal with the handle returned.
    pub fn stop(&mut self, id: &str) -> (r: Result<H, RpcError>)
        requires
            old(self).wf(),
        ensures
            final(self).wf(),
            final(self)@ == old(self)@.remove(id@),
            r.is_ok() == old(self)@.contains_key(id@),
            r matches Ok(h) ==> h == old(self)@[id@],
            r matches Err(e) ==> e.code == SERVER_ERROR && e.message@ == not_found_msg(id@),
    {
        match self.servers.remove(id) {
            Some(h) => Ok(h),
            None => {
                proof {
                    reveal_strlit("' not found");
                }
                Err(quoted_id_error(id, "' not found"))
            },
        }
    }

    /// The handle through which a call reaches guest `id`.
    pub fn get(&self, id: &str) -> (r: Result<&H, RpcError>)
        requires
            self.wf(),
        ensures
            r.is_ok() == self@.contains_key(id@),
            r matches Ok(h) ==> *h == self@[id@],
            r matches Err(e) ==> e.code == SERVER_ERROR && e.message@ == not_found_msg(id@),
    {
        match self.servers.get(id) {
            Some(h) => Ok(h),
            None => {
                proof {
                    reveal_strlit("' not found");
                }
                Err(quoted_id_error(id, "' not found"))
            },
        }
    }

    /// The ids of the running guests, in order of start.
    pub fn list(&self) -> (r: Vec<ServerInfo>)
        requires
            self.wf(),
        ensures
            r@.len() == self.servers.keys().len(),
            forall|i: int| 0 <= i < r@.len() ==> (#[trigger] r@[i]).id@ == self.servers.keys()[i]
                && r@[i].running,
    {
        let mut out: Vec<ServerInfo> = Vec::new();
        let mut i: usize = 0;
        while i < self.servers.entries.len()
            invariant
                i <= self.servers.entries@.len(),
                out@.len() == i,
                forall|j: int| 0 <= j < i ==> (#[trigger] out@[j]).id@ == self.servers.keys()[j]
                    && out@[j].running,
            decreases self.servers.entries@.len() - i,
        {
            out.push(ServerInfo { id: self.servers.entries[i].0.clone(), running: true });
            i = i + 1;
        }
        out
    }
}

/// A guest id is exclusive from a successful start until its stop: once
/// started, a second start of the same id is refused; once stopped, a start
/// of it is admitted again.
pub proof fn start_exclusive_until_stop<H>(running: Map<Seq<char>, H>, id: Seq<char>, h: H)
    requires
        start_admitted(running, id),
    ensures
        !start_admitted(running.insert(id, h), id),
        start_admitted(running.insert(id, h).remove(id), id),
{
}

} // verus!
