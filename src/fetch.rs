//! What becomes of a guest's `fetch`: the capability check and the choice of
//! HTTP method, taken before any request leaves the process.

use vstd::prelude::*;
use crate::sandbox::NetworkCapabilities;
use crate::text::same;

verus! {

/// The upper-case form of a text.
pub uninterp spec fn upper_text_of(s: Seq<char>) -> Seq<char>;

/// Relies on `str::to_uppercase`: the upper-case mapping of a text, which
/// depends on the text alone.
#[verifier::external_body]
fn upper_text(s: &str) -> (r: String)
    ensures
        r@ == upper_text_of(s@),
{
    s.to_uppercase()
}

/// The HTTP methods a guest may use.
#[derive(Debug, Clone, Copy, PartialEq, Eq, Structural)]
pub enum HttpMethod {
    Get,
    Post,
    Put,
    Delete,
    Patch,
    Head,
}

pub open spec fn method_of(upper: Seq<char>) -> Option<HttpMethod> {
    if upper == "GET"@ {
        Some(HttpMethod::Get)
    } else if upper == "POST"@ {
        Some(HttpMethod::Post)
    } else if upper == "PUT"@ {
        Some(HttpMethod::Put)
    } else if upper == "DELETE"@ {
        Some(HttpMethod::Delete)
    } else if upper == "PATCH"@ {
        Some(HttpMethod::Patch)
    } else if upper == "HEAD"@ {
        Some(HttpMethod::Head)
    } else {
        None
    }
}

/// The method an upper-case name denotes.
pub fn http_method(upper: &str) -> (r: Option<HttpMethod>)
    ensures
        r == method_of(upper@),
{
    if same(upper, "GET") {
        Some(HttpMethod::Get)
    } else if same(upper, "POST") {
        Some(HttpMethod::Post)
    } else if same(upper, "PUT") {
        Some(HttpMethod::Put)
    } else if same(upper, "DELETE") {
        Some(HttpMethod::Delete)
    } else if same(upper, "PATCH") {
        Some(HttpMethod::Patch)
    } else if same(upper, "HEAD") {
        Some(HttpMethod::Head)
    } else {
        None
    }
}

/// What the pump does with one fetch of the guest.
#[derive(Debug)]
pub enum FetchPlan {
    /// Perform the request with this method.
    Send(HttpMethod),
    /// Answer the guest with this error instead; nothing leaves the process.
    Refuse(String),
}

pub open spec fn denied_msg(url: Seq<char>) -> Seq<char> {
    "Host not allowed: "@ + url
}

pub open spec fn unsupported_msg(upper: Seq<char>) -> Seq<char> {
    "Unsupported method: "@ + upper
}

/// Decides a fetch, given the upper-cased method name (`GET` when the guest
/// gave none): refused when the grant does not admit the URL's host or the
/// method is not one of the supported ones, sent otherwise.
pub fn plan_fetch_with(caps: &NetworkCapabilities, url: &str, upper_method: &str) -> (r: FetchPlan)
    ensures
        !caps.is_host_allowed_spec(url@) ==> (r matches FetchPlan::Refuse(m) && m@ == denied_msg(url@)),
        caps.is_host_allowed_spec(url@) ==> match method_of(upper_method@) {
            Some(m) => r == FetchPlan::Send(m),
            None => r matches FetchPlan::Refuse(e) && e@ == unsupported_msg(upper_method@),
        },
{
    if !caps.is_host_allowed(url) {
        let mut m = String::from_str("Host not allowed: ");
        m.append(url);
        return FetchPlan::Refuse(m);
    }
    match http_method(upper_method) {
        Some(m) => FetchPlan::Send(m),
        None => {
            let mut e = String::from_str("Unsupported method: ");
            e.append(upper_method);
            FetchPlan::Refuse(e)
        },
    }
}

/// The upper-cased method name of a fetch: `GET` when the guest gave none.
pub open spec fn fetch_method_name(method: Option<Seq<char>>) -> Seq<char> {
    match method {
        Some(m) => upper_text_of(m),
        None => "GET"@,
    }
}

/// Decides a fetch of the guest with the method name it gave, if any.
pub fn plan_fetch(caps: &NetworkCapabilities, url: &str, method: Option<&str>) -> (r: FetchPlan)
    ensures
        !caps.is_host_allowed_spec(url@) ==> (r matches FetchPlan::Refuse(m) && m@ == denied_msg(url@)),
        caps.is_host_allowed_spec(url@) ==> {
            let upper = fetch_method_name(
                match method {
                    Some(m) => Some(m@),
                    None => None,
                },
            );
            match method_of(upper) {
                Some(m) => r == FetchPlan::Send(m),
                None => r matches FetchPlan::Refuse(e) && e@ == unsupported_msg(upper),
            }
        },
        caps.is_host_allowed_spec(url@) && method.is_none() ==> r == FetchPlan::Send(HttpMethod::Get),
{
    let upper = match method {
        Some(m) => upper_text(m),
        None => String::from_str("GET"),
    };
    proof {
        reveal_strlit("GET");
    }
    plan_fetch_with(caps, url, upper.as_str())
}

} // verus!
