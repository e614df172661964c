//! Scripts that carry values into a guest's global scope.
//!
//! A value reaches the guest as the text of a string literal inside a small
//! script, so every character that could end the literal or break the line is
//! written as an escape sequence.

use vstd::prelude::*;
use crate::text::{push_char, decimal, decimal_spec};

verus! {

/// How a literal is delimited: single quotes (tabs escaped too) or double quotes.
#[derive(Clone, Copy, PartialEq, Eq, Structural, Debug)]
pub enum Quote {
    Single,
    Double,
}

/// The escape sequence that stands for one character inside a literal.
pub open spec fn escape_char_spec(c: char, q: Quote) -> Seq<char> {
    if c == '\\' {
        seq!['\\', '\\']
    } else if c == '\n' {
        seq!['\\', 'n']
    } else if c == '\r' {
        seq!['\\', 'r']
    } else if q == Quote::Single && c == '\'' {
        seq!['\\', '\'']
    } else if q == Quote::Single && c == '\t' {
        seq!['\\', 't']
    } else if q == Quote::Double && c == '"' {
        seq!['\\', '"']
    } else {
        seq![c]
    }
}

/// The body of a literal that denotes `s`: each character escaped in turn.
pub open spec fn escape_spec(s: Seq<char>, q: Quote) -> Seq<char>
    decreases s.len(),
{
    if s.len() == 0 {
        Seq::empty()
    } else {
        escape_spec(s.drop_last(), q) + escape_char_spec(s.last(), q)
    }
}

/// Escapes `s` for a literal delimited by `q`.
pub fn escape(s: &str, q: Quote) -> (r: String)
    ensures
        r@ == escape_spec(s@, q),
{
    let n = s.unicode_len();
    let mut out = String::new();
    let mut i: usize = 0;
    while i < n
        invariant
            n == s@.len(),
            i <= n,
            out@ == escape_spec(s@.subrange(0, i as int), q),
        decreases n - i,
    {
        let c = s.get_char(i);
        if c == '\\' {
            push_char(&mut out, '\\');
            push_char(&mut out, '\\');
        } else if c == '\n' {
            push_char(&mut out, '\\');
            push_char(&mut out, 'n');
        } else if c == '\r' {
            push_char(&mut out, '\\');
            push_char(&mut out, 'r');
        } else if q == Quote::Single && c == '\'' {
            push_char(&mut out, '\\');
            push_char(&mut out, '\'');
        } else if q == Quote::Single && c == '\t' {
            push_char(&mut out, '\\');
            push_char(&mut out, 't');
        } else if q == Quote::Double && c == '"' {
            push_char(&mut out, '\\');
            push_char(&mut out, '"');
        } else {
            push_char(&mut out, c);
        }
        proof {
            let pre = s@.subrange(0, i as int + 1);
            assert(pre.drop_last() =~= s@.subrange(0, i as int));
            assert(pre.last() == c);
        }
        i = i + 1;
    }
    assert(s@.subrange(0, n as int) =~= s@);
    out
}

/// The script that hands one request to the guest: it resolves a waiting
/// `readLine` if one is armed and otherwise queues the request.
pub open spec fn request_script_spec(request_json: Seq<char>) -> Seq<char> {
    "try { const req = '"@ + escape_spec(request_json, Quote::Single)
        + "'; if (globalThis.__mcp_pendingRead) { const resolve = globalThis.__mcp_pendingRead; globalThis.__mcp_pendingRead = null; resolve(req); } else { globalThis.__mcp_requests.push(req); } } catch (e) { console.error('Inject error:', e, e.stack); throw e; }"@
}

/// Builds the script that delivers `request_json` to the guest.
pub fn request_script(request_json: &str) -> (r: String)
    ensures
        r@ == request_script_spec(request_json@),
{
    let mut out = String::from_str("try { const req = '");
    let body = escape(request_json, Quote::Single);
    out.append(body.as_str());
    out.append("'; if (globalThis.__mcp_pendingRead) { const resolve = globalThis.__mcp_pendingRead; globalThis.__mcp_pendingRead = null; resolve(req); } else { globalThis.__mcp_requests.push(req); } } catch (e) { console.error('Inject error:', e, e.stack); throw e; }");
    out
}

/// The script that sets the context attached to the guest's host requests.
pub open spec fn context_script_spec(context_json: Seq<char>) -> Seq<char> {
    "globalThis.__requestHostContext = JSON.parse('"@ + escape_spec(context_json, Quote::Single) + "');"@
}

/// Builds the script that installs the host-request context.
pub fn context_script(context_json: &str) -> (r: String)
    ensures
        r@ == context_script_spec(context_json@),
{
    let mut out = String::from_str("globalThis.__requestHostContext = JSON.parse('");
    let body = escape(context_json, Quote::Single);
    out.append(body.as_str());
    out.append("');");
    out
}

/// The script that answers the guest's host request `id` with `payload_json`.
pub open spec fn host_reply_script_spec(id: Seq<char>, payload_json: Seq<char>) -> Seq<char> {
    "globalThis.__host_responses[\""@ + escape_spec(id, Quote::Double) + "\"] = JSON.parse(\""@
        + escape_spec(payload_json, Quote::Double) + "\");"@
}

/// Builds the script that settles the guest's host request `id`.
pub fn host_reply_script(id: &str, payload_json: &str) -> (r: String)
    ensures
        r@ == host_reply_script_spec(id@, payload_json@),
{
    let mut out = String::from_str("globalThis.__host_responses[\"");
    let eid = escape(id, Quote::Double);
    out.append(eid.as_str());
    out.append("\"] = JSON.parse(\"");
    let ep = escape(payload_json, Quote::Double);
    out.append(ep.as_str());
    out.append("\");");
    out
}

/// The script that answers the guest's fetch `id` with the response object
/// `response_json` (already JSON text, inserted as an expression).
pub open spec fn fetch_reply_script_spec(id: nat, response_json: Seq<char>) -> Seq<char> {
    "globalThis.__fetch_responses["@ + decimal_spec(id) + "] = "@ + response_json + ";"@
}

/// Builds the script that settles the guest's fetch `id`.
pub fn fetch_reply_script(id: u64, response_json: &str) -> (r: String)
    ensures
        r@ == fetch_reply_script_spec(id as nat, response_json@),
{
    let mut out = String::from_str("globalThis.__fetch_responses[");
    let d = decimal(id);
    out.append(d.as_str());
    out.append("] = ");
    out.append(response_json);
    out.append(";");
    out
}

/// What the guest's host-request promise receives: `{"result": ...}` on
/// success, `{"err": ...}` on failure. Both parts are JSON text already.
pub open spec fn host_payload_spec(outcome: Result<Seq<char>, Seq<char>>) -> Seq<char> {
    match outcome {
        Ok(v) => "{\"result\":"@ + v + "}"@,
        Err(e) => "{\"err\":"@ + e + "}"@,
    }
}

/// Wraps the outcome of a host request for the guest. `Ok` holds the result as
/// JSON text; `Err` holds the error message as a JSON string literal.
pub fn host_payload(outcome: &Result<String, String>) -> (r: String)
    ensures
        r@ == host_payload_spec(match outcome {
            Ok(v) => Ok(v@),
            Err(e) => Err(e@),
        }),
{
    match outcome {
        Ok(v) => {
            let mut out = String::from_str("{\"result\":");
            out.append(v.as_str());
            out.append("}");
            out
        },
        Err(e) => {
            let mut out = String::from_str("{\"err\":");
            out.append(e.as_str());
            out.append("}");
            out
        },
    }
}

/// The view of a host-request outcome.
pub open spec fn outcome_view(o: Result<String, String>) -> Result<Seq<char>, Seq<char>> {
    match o {
        Ok(v) => Ok(v@),
        Err(e) => Err(e@),
    }
}

/// The scripts that answer a round's drained fetches: one per fetch, in the
/// order drained, each under that fetch's own id.
pub fn fetch_reply_scripts(replies: &Vec<(u64, String)>) -> (r: Vec<String>)
    ensures
        r@.len() == replies@.len(),
        forall|i: int| 0 <= i < r@.len() ==> (#[trigger] r@[i])@ == fetch_reply_script_spec(
            replies@[i].0 as nat,
            replies@[i].1@,
        ),
{
    let mut out: Vec<String> = Vec::new();
    let mut i: usize = 0;
    while i < replies.len()
        invariant
            i <= replies@.len(),
            out@.len() == i,
            forall|j: int| 0 <= j < i ==> (#[trigger] out@[j])@ == fetch_reply_script_spec(
                replies@[j].0 as nat,
                replies@[j].1@,
            ),
        decreases replies@.len() - i,
    {
        out.push(fetch_reply_script(replies[i].0, replies[i].1.as_str()));
        i = i + 1;
    }
    out
}

/// The scripts that answer a round's drained host requests: one per request,
/// in the order drained, each under that request's own id.
pub fn host_reply_scripts(replies: &Vec<(String, Result<String, String>)>) -> (r: Vec<String>)
    ensures
        r@.len() == replies@.len(),
        forall|i: int| 0 <= i < r@.len() ==> (#[trigger] r@[i])@ == host_reply_script_spec(
            replies@[i].0@,
            host_payload_spec(outcome_view(replies@[i].1)),
        ),
{
    let mut out: Vec<String> = Vec::new();
    let mut i: usize = 0;
    while i < replies.len()
        invariant
            i <= replies@.len(),
            out@.len() == i,
            forall|j: int| 0 <= j < i ==> (#[trigger] out@[j])@ == host_reply_script_spec(
                replies@[j].0@,
                host_payload_spec(outcome_view(replies@[j].1)),
            ),
        decreases replies@.len() - i,
    {
        let payload = host_payload(&replies[i].1);
        out.push(host_reply_script(replies[i].0.as_str(), payload.as_str()));
        i = i + 1;
    }
    out
}

/// How a literal body delimited by `q` reads back: each escape sequence
/// stands for the character it names.
pub open spec fn unescape_spec(s: Seq<char>, q: Quote) -> Seq<char>
    decreases s.len(),
{
    if s.len() == 0 {
        s
    } else if s[0] == '\\' && s.len() >= 2 {
        let c = if s[1] == 'n' {
            '\n'
        } else if s[1] == 'r' {
            '\r'
        } else if s[1] == 't' {
            '\t'
        } else {
            s[1]
        };
        seq![c] + unescape_spec(s.subrange(2, s.len() as int), q)
    } else {
        seq![s[0]] + unescape_spec(s.drop_first(), q)
    }
}

proof fn lemma_escape_front(s: Seq<char>, q: Quote)
    requires
        s.len() > 0,
    ensures
        escape_spec(s, q) == escape_char_spec(s[0], q) + escape_spec(s.drop_first(), q),
    decreases s.len(),
{
    if s.len() == 1 {
        assert(s.drop_last() =~= Seq::<char>::empty());
        assert(s.drop_first() =~= Seq::<char>::empty());
        assert(escape_spec(s.drop_last(), q) =~= Seq::<char>::empty());
        assert(s.last() == s[0]);
        assert(escape_spec(s, q) =~= escape_char_spec(s[0], q));
        assert(escape_spec(s.drop_first(), q) =~= Seq::<char>::empty());
    } else {
        lemma_escape_front(s.drop_last(), q);
        assert(s.drop_last().drop_first() =~= s.drop_first().drop_last());
        assert(s.drop_first().last() == s.last());
        assert(escape_spec(s, q) =~= escape_char_spec(s[0], q) + escape_spec(s.drop_first(), q));
    }
}

/// The literal that carries a value reads back as that value: whatever the
/// text of a request, the guest receives exactly that text.
pub proof fn escape_round_trip(s: Seq<char>, q: Quote)
    ensures
        unescape_spec(escape_spec(s, q), q) == s,
    decreases s.len(),
{
    if s.len() > 0 {
        lemma_escape_front(s, q);
        escape_round_trip(s.drop_first(), q);
        let e = escape_char_spec(s[0], q);
        let rest = escape_spec(s.drop_first(), q);
        let all = e + rest;
        if e.len() == 2 {
            assert(all.subrange(2, all.len() as int) =~= rest);
            assert(all[0] == '\\');
        } else {
            assert(all.drop_first() =~= rest);
            assert(all[0] == s[0]);
            assert(s[0] != '\\');
        }
        assert(seq![s[0]] + s.drop_first() =~= s);
    }
}

} // verus!
