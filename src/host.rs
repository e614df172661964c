//! Host round-trips: a guest asks the extension for browser-side work and
//! awaits the correlated reply.
//!
//! Request ids are minted by each guest and are unique only within it, so
//! the transport files each waiting request under a key that joins the guest
//! id and the request id. A reply settles the waiter under its key exactly
//! once; a reply whose key has no waiter is an orphan and is dropped; a
//! waiter with no reply after a deadline is reaped.

use vstd::prelude::*;
use crate::keyed::KeyedList;
use crate::text::{decimal, decimal_spec, digit_char, lemma_decimal_injective};

verus! {

/// How long a host request waits for its reply, in milliseconds.
pub const HOST_REPLY_DEADLINE_MS: u64 = 30000;

/// The key a host request travels under: the length of the guest id in
/// decimal, a colon, the guest id, then the guest's own request id.
pub open spec fn host_key_spec(guest: Seq<char>, id: Seq<char>) -> Seq<char> {
    decimal_spec(guest.len()) + ":"@ + guest + id
}

/// The key under which guest `guest`'s request `id` travels.
pub fn host_key(guest: &str, id: &str) -> (r: String)
    ensures
        r@ == host_key_spec(guest@, id@),
{
    let n = guest.unicode_len();
    let mut k = decimal(n as u64);
    k.append(":");
    k.append(guest);
    k.append(id);
    k
}

proof fn lemma_decimal_digits(n: nat)
    ensures
        forall|j: int| 0 <= j < decimal_spec(n).len() ==> decimal_spec(n)[j] != ':',
    decreases n,
{
    if n < 10 {
        assert(decimal_spec(n)[0] == digit_char(n));
        assert(((n + 48) as u8) as char != ':');
    } else {
        lemma_decimal_digits(n / 10);
        let d = n % 10;
        assert(((d + 48) as u8) as char != ':');
        assert forall|j: int| 0 <= j < decimal_spec(n).len() implies decimal_spec(n)[j] != ':' by {
            if j < decimal_spec(n / 10).len() {
                assert(decimal_spec(n)[j] == decimal_spec(n / 10)[j]);
            }
        }
    }
}

/// Requests of different guests, or different requests of one guest,
/// travel under different keys, so no reply can reach another's waiter.
pub proof fn host_keys_differ(g1: Seq<char>, i1: Seq<char>, g2: Seq<char>, i2: Seq<char>)
    requires
        g1 != g2 || i1 != i2,
    ensures
        host_key_spec(g1, i1) != host_key_spec(g2, i2),
{
    reveal_strlit(":");
    let d1 = decimal_spec(g1.len());
    let d2 = decimal_spec(g2.len());
    let k1 = host_key_spec(g1, i1);
    let k2 = host_key_spec(g2, i2);
    if k1 == k2 {
        lemma_decimal_digits(g1.len());
        lemma_decimal_digits(g2.len());
        if d1.len() < d2.len() {
            assert(k1[d1.len() as int] == ':');
            assert(k2[d1.len() as int] == d2[d1.len() as int]);
        } else if d2.len() < d1.len() {
            assert(k2[d2.len() as int] == ':');
            assert(k1[d2.len() as int] == d1[d2.len() as int]);
        } else {
            assert(k1.subrange(0, d1.len() as int) =~= d1);
            assert(k2.subrange(0, d2.len() as int) =~= d2);
            lemma_decimal_injective(g1.len(), g2.len());
            let s: int = d1.len() as int + 1;
            assert(k1.subrange(s, s + g1.len()) =~= g1);
            assert(k2.subrange(s, s + g2.len()) =~= g2);
            assert(k1.subrange(s + g1.len(), k1.len() as int) =~= i1);
            assert(k2.subrange(s + g2.len(), k2.len() as int) =~= i2);
        }
    }
}

/// A waiter and the time its request went out.
#[derive(Debug)]
pub struct Waiting<W> {
    pub waiter: W,
    pub since_ms: u64,
}

/// Whether a request sent at `since` has outlived the deadline at `now`.
pub open spec fn expired(since: u64, now: u64, deadline: u64) -> bool {
    now as int - since as int > deadline as int
}

/// Waiters for host replies, keyed by `host_key`.
pub struct PendingReplies<W> {
    pub waiters: KeyedList<Waiting<W>>,
}

impl<W> PendingReplies<W> {
    pub open spec fn wf(&self) -> bool {
        self.waiters.wf()
    }

    pub open spec fn view(&self) -> Map<Seq<char>, Waiting<W>> {
        self.waiters@
    }

    pub fn new() -> (r: PendingReplies<W>)
        ensures
            r.wf(),
            r@ == Map::<Seq<char>, Waiting<W>>::empty(),
    {
        PendingReplies { waiters: KeyedList::new() }
    }

    /// Records the waiter of a request sent at `now_ms` under `key`. A waiter
    /// already under that key is handed back rather than dropped.
    pub fn register(&mut self, key: String, waiter: W, now_ms: u64) -> (r: Option<W>)
        requires
            old(self).wf(),
        ensures
            final(self).wf(),
            final(self)@ == old(self)@.insert(key@, Waiting { waiter, since_ms: now_ms }),
            match r {
                Some(w) => old(self)@.contains_key(key@) && w == old(self)@[key@].waiter,
                None => !old(self)@.contains_key(key@),
            },
    {
        let displaced = self.waiters.remove(key.as_str());
        let ghost mid = self@;
        self.waiters.insert(key, Waiting { waiter, since_ms: now_ms });
        proof {
            assert(self@ =~= old(self)@.insert(key@, Waiting { waiter, since_ms: now_ms }));
        }
        match displaced {
            Some(d) => Some(d.waiter),
            None => None,
        }
    }

    /// Takes the waiter a reply under `key` settles; `None` for an orphan.
    pub fn settle(&mut self, key: &str) -> (r: Option<W>)
        requires
            old(self).wf(),
        ensures
            final(self).wf(),
            final(self)@ == old(self)@.remove(key@),
            match r {
                Some(w) => old(self)@.contains_key(key@) && w == old(self)@[key@].waiter,
                None => !old(self)@.contains_key(key@),
            },
    {
        match self.waiters.remove(key) {
            Some(d) => Some(d.waiter),
            None => None,
        }
    }

    /// Takes out one waiter whose request has outlived `deadline_ms` at
    /// `now_ms`, with its key; `None` when no waiter has.
    pub fn reap_one(&mut self, now_ms: u64, deadline_ms: u64) -> (r: Option<(String, W)>)
        requires
            old(self).wf(),
        ensures
            final(self).wf(),
            match r {
                Some((k, w)) => {
                    &&& old(self)@.contains_key(k@)
                    &&& expired(old(self)@[k@].since_ms, now_ms, deadline_ms)
                    &&& w == old(self)@[k@].waiter
                    &&& final(self)@ == old(self)@.remove(k@)
                },
                None => {
                    &&& forall|k: Seq<char>| #[trigger] old(self)@.contains_key(k) ==> !expired(
                        old(self)@[k].since_ms,
                        now_ms,
                        deadline_ms,
                    )
                    &&& *final(self) == *old(self)
                },
            },
    {
        let n = self.waiters.entries.len();
        let mut i: usize = 0;
        while i < n
            invariant
                n == self.waiters.entries@.len(),
                *self == *old(self),
                self.wf(),
                i <= n,
                forall|j: int| 0 <= j < i ==> !expired(self.waiters.entries@[j].1.since_ms, now_ms, deadline_ms),
            decreases n - i,
        {
            let since = self.waiters.entries[i].1.since_ms;
            if now_ms > since && now_ms - since > deadline_ms {
                let key = self.waiters.entries[i].0.clone();
                proof {
                    self.waiters.lemma_pos(i as int);
                }
                match self.waiters.remove(key.as_str()) {
                    Some(d) => return Some((key, d.waiter)),
                    None => return None,
                }
            }
            i = i + 1;
        }
        proof {
            assert forall|k: Seq<char>| #[trigger] self@.contains_key(k) implies !expired(
                self@[k].since_ms,
                now_ms,
                deadline_ms,
            ) by {
                let j = self.waiters.pos(k);
                assert(self.waiters.has(k));
            }
        }
        None
    }

    /// Drops every waiter, as tearing the transport down does.
    pub fn clear(&mut self)
        ensures
            final(self).wf(),
            final(self)@ == Map::<Seq<char>, Waiting<W>>::empty(),
    {
        self.waiters = KeyedList::new();
    }
}

/// Effect of settling `id` on waiters `m`: the waiter handed out, if any,
/// and the waiters left.
pub open spec fn settle_spec<W>(m: Map<Seq<char>, W>, id: Seq<char>) -> (Option<W>, Map<Seq<char>, W>) {
    if m.contains_key(id) {
        (Some(m[id]), m.remove(id))
    } else {
        (None, m)
    }
}

/// Every registered request is settled exactly once: the first reply with
/// its id reaches its waiter, and any later reply with that id is an orphan.
/// Replies for other ids do not touch it.
pub proof fn reply_settles_once<W>(m: Map<Seq<char>, W>, id: Seq<char>, w: W, other: Seq<char>)
    requires
        other != id,
    ensures
        settle_spec(m.insert(id, w), id).0 == Some(w),
        settle_spec(settle_spec(m.insert(id, w), id).1, id).0.is_none(),
        settle_spec(settle_spec(m.insert(id, w), other).1, id).0 == Some(w),
{
    assert(m.insert(id, w).remove(other).contains_key(id));
}

/// What a host reply carries to the guest: an error when the reply holds one,
/// and otherwise its result, or JSON `null` when it holds neither. Both are
/// JSON text.
pub open spec fn reply_outcome_spec(result: Option<Seq<char>>, error: Option<Seq<char>>) -> Result<
    Seq<char>,
    Seq<char>,
> {
    match error {
        Some(e) => Err(e),
        None => match result {
            Some(r) => Ok(r),
            None => Ok("null"@),
        },
    }
}

/// The outcome of a host reply with the given fields.
pub fn reply_outcome(result: Option<String>, error: Option<String>) -> (r: Result<String, String>)
    ensures
        match r {
            Ok(v) => reply_outcome_spec(
                match result {
                    Some(x) => Some(x@),
                    None => None,
                },
                match error {
                    Some(x) => Some(x@),
                    None => None,
                },
            ) == Ok::<Seq<char>, Seq<char>>(v@),
            Err(e) => reply_outcome_spec(
                match result {
                    Some(x) => Some(x@),
                    None => None,
                },
                match error {
                    Some(x) => Some(x@),
                    None => None,
                },
            ) == Err::<Seq<char>, Seq<char>>(e@),
        },
{
    match error {
        Some(e) => Err(e),
        None => match result {
            Some(v) => Ok(v),
            None => Ok(String::from_str("null")),
        },
    }
}

/// What became of one host request on its way out and back.
#[derive(Debug)]
pub enum HostDelivery {
    /// The call arrived on a transport with no way back to the extension.
    NoChannel,
    /// The request could not be handed to the transport, for this reason.
    SendFailed(String),
    /// The extension replied: a result (JSON text) or an error message.
    Replied(Result<String, String>),
    /// The waiter was dropped without a reply (reaped after the deadline,
    /// or the transport went away).
    Lost,
}

pub open spec fn send_failed_msg(reason: Seq<char>) -> Seq<char> {
    "host_request_tx send: "@ + reason
}

/// What the guest's promise receives for a delivery: the result, or an error
/// message that says what went wrong.
pub fn guest_outcome(d: HostDelivery) -> (r: Result<String, String>)
    ensures
        match d {
            HostDelivery::NoChannel => r matches Err(m) && m@
                == "host requests are not available on this transport"@,
            HostDelivery::SendFailed(e) => r matches Err(m) && m@ == send_failed_msg(e@),
            HostDelivery::Replied(o) => r == o,
            HostDelivery::Lost => r matches Err(m) && m@ == "host_response timeout"@,
        },
{
    match d {
        HostDelivery::NoChannel => Err(no_host_channel_message()),
        HostDelivery::SendFailed(e) => {
            let mut m = String::from_str("host_request_tx send: ");
            m.append(e.as_str());
            Err(m)
        },
        HostDelivery::Replied(o) => o,
        HostDelivery::Lost => Err(reply_timeout_message()),
    }
}

/// Message given to the guest when its host request cannot travel: the call
/// arrived on a transport with no way back to the extension.
pub fn no_host_channel_message() -> (r: String)
    ensures
        r@ == "host requests are not available on this transport"@,
{
    String::from_str("host requests are not available on this transport")
}

/// Message given to the guest when the extension never replied.
pub fn reply_timeout_message() -> (r: String)
    ensures
        r@ == "host_response timeout"@,
{
    String::from_str("host_response timeout")
}

} // verus!
