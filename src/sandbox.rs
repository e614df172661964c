//! Capability grants of a guest: which hosts it may fetch from and which
//! paths it may read or write.

use vstd::prelude::*;
use crate::text::{starts_with, ends_with, same, suffix_from};

verus! {

/// The host that `url::Url` parses out of a URL text, if the text parses and
/// has a host.
pub uninterp spec fn url_host_of(url: Seq<char>) -> Option<Seq<char>>;

/// Relies on `url::Url::parse` followed by `Url::host_str`: the host of the
/// parsed URL, or nothing when the text does not parse or has no host. The
/// result depends on the text alone.
#[verifier::external_body]
fn url_host(url: &str) -> (r: Option<String>)
    ensures
        match r {
            Some(h) => url_host_of(url@) == Some(h@),
            None => url_host_of(url@).is_none(),
        },
{
    match url::Url::parse(url) {
        Ok(u) => u.host_str().map(|h| h.to_string()),
        Err(_) => None,
    }
}

/// Whether one host pattern admits `host`: `*` admits every host, `*.suffix`
/// admits `suffix` itself and every host ending in `.suffix`, and any other
/// pattern admits exactly that host.
pub open spec fn host_matches(pattern: Seq<char>, host: Seq<char>) -> bool {
    if pattern == "*"@ {
        true
    } else if pattern.len() >= 2 && pattern.subrange(0, 2) == "*."@ {
        let dotted = pattern.subrange(1, pattern.len() as int);
        (dotted.len() <= host.len() && host.subrange(host.len() - dotted.len(), host.len() as int)
            == dotted) || host == pattern.subrange(2, pattern.len() as int)
    } else {
        host == pattern
    }
}

/// Whether some pattern of the list admits `host`.
pub open spec fn hosts_admit(patterns: Seq<String>, host: Seq<char>) -> bool {
    exists|i: int| 0 <= i < patterns.len() && host_matches(patterns[i]@, host)
}

/// Whether one host pattern admits `host`.
pub fn pattern_matches(pattern: &str, host: &str) -> (r: bool)
    ensures
        r == host_matches(pattern@, host@),
{
    proof {
        reveal_strlit("*");
        reveal_strlit("*.");
    }
    if same(pattern, "*") {
        return true;
    }
    if starts_with(pattern, "*.") {
        let dotted = suffix_from(pattern, 1);
        let bare = suffix_from(pattern, 2);
        ends_with(host, dotted.as_str()) || same(host, bare.as_str())
    } else {
        same(host, pattern)
    }
}

/// A wildcard pattern `*.suffix` admits the bare `suffix` and every name one
/// label below it; an exact pattern admits only itself.
pub proof fn host_pattern_law(suffix: Seq<char>, label: Seq<char>, pattern: Seq<char>, host: Seq<char>)
    requires
        pattern != "*"@,
        !(pattern.len() >= 2 && pattern.subrange(0, 2) == "*."@),
    ensures
        host_matches("*."@ + suffix, suffix),
        host_matches("*."@ + suffix, label + "."@ + suffix),
        host_matches(pattern, host) <==> host == pattern,
{
    reveal_strlit("*");
    reveal_strlit("*.");
    reveal_strlit(".");
    let p = "*."@ + suffix;
    assert(p.len() >= 2);
    assert(p.subrange(0, 2) =~= "*."@);
    assert(p != "*"@) by {
        assert(p.len() != 1 || p.len() == 1);
        if p.len() == 1 {
            assert(false);
        }
    }
    assert(p.subrange(2, p.len() as int) =~= suffix);
    let dotted = p.subrange(1, p.len() as int);
    assert(dotted =~= "."@ + suffix);
    let h = label + "."@ + suffix;
    assert(h.subrange(h.len() - dotted.len(), h.len() as int) =~= dotted);
}

/// Network grant: the host patterns a guest may fetch from.
#[derive(Debug)]
pub struct NetworkCapabilities {
    pub allowed_hosts: Vec<String>,
}

impl NetworkCapabilities {
    /// Whether a fetch to `url` is admitted: the grant is not empty, the URL
    /// parses with a host, and some pattern admits that host.
    pub open spec fn is_host_allowed_spec(&self, url: Seq<char>) -> bool {
        self.allowed_hosts@.len() > 0 && match url_host_of(url) {
            Some(h) => hosts_admit(self.allowed_hosts@, h),
            None => false,
        }
    }

    /// Whether the guest gets a `fetch` at all: only a non-empty grant
    /// installs it.
    pub fn grants_fetch(&self) -> (r: bool)
        ensures
            r == (self.allowed_hosts@.len() > 0),
    {
        self.allowed_hosts.len() > 0
    }

    /// Whether a fetch to `host` is admitted.
    pub fn allows_host(&self, host: &str) -> (r: bool)
        ensures
            r == hosts_admit(self.allowed_hosts@, host@),
    {
        let mut i: usize = 0;
        while i < self.allowed_hosts.len()
            invariant
                i <= self.allowed_hosts@.len(),
                forall|j: int| 0 <= j < i ==> !host_matches(self.allowed_hosts@[j]@, host@),
            decreases self.allowed_hosts@.len() - i,
        {
            if pattern_matches(self.allowed_hosts[i].as_str(), host) {
                return true;
            }
            i = i + 1;
        }
        false
    }

    /// Whether a fetch to `url` is admitted: the grant is not empty, the URL
    /// parses with a host, and some pattern admits that host.
    pub fn is_host_allowed(&self, url: &str) -> (r: bool)
        ensures
            r == self.is_host_allowed_spec(url@),
    {
        if self.allowed_hosts.len() == 0 {
            return false;
        }
        match url_host(url) {
            Some(h) => self.allows_host(h.as_str()),
            None => false,
        }
    }
}

impl Default for NetworkCapabilities {
    fn default() -> (r: NetworkCapabilities)
        ensures
            r.allowed_hosts@.len() == 0,
    {
        NetworkCapabilities { allowed_hosts: Vec::new() }
    }
}

/// Whether the canonical path `path` lies at or below the canonical path
/// `prefix`, comparing whole components.
pub open spec fn descends(path: Seq<char>, prefix: Seq<char>) -> bool {
    path == prefix || (prefix.len() < path.len() && path.subrange(0, prefix.len() as int) == prefix
        && (prefix.len() > 0 && prefix.last() == '/' || path[prefix.len() as int] == '/'))
}

/// Whether `path` lies at or below `prefix`.
pub fn is_descendant(path: &str, prefix: &str) -> (r: bool)
    ensures
        r == descends(path@, prefix@),
{
    if same(path, prefix) {
        return true;
    }
    let n = path.unicode_len();
    let m = prefix.unicode_len();
    if m >= n || !starts_with(path, prefix) {
        return false;
    }
    (m > 0 && prefix.get_char(m - 1) == '/') || path.get_char(m) == '/'
}

/// The part after `~/` of a home-relative prefix.
pub open spec fn home_relative_spec(prefix: Seq<char>) -> Option<Seq<char>> {
    if prefix.len() >= 2 && prefix.subrange(0, 2) == "~/"@ {
        Some(prefix.subrange(2, prefix.len() as int))
    } else {
        None
    }
}

/// The part after `~/` of a home-relative prefix, which is resolved against
/// the user's home directory.
pub fn home_relative(prefix: &str) -> (r: Option<String>)
    ensures
        match r {
            Some(s) => home_relative_spec(prefix@) == Some(s@),
            None => home_relative_spec(prefix@).is_none(),
        },
{
    proof {
        reveal_strlit("~/");
    }
    if starts_with(prefix, "~/") {
        Some(suffix_from(prefix, 2))
    } else {
        None
    }
}

/// What the file system said of one granted prefix: its canonical form, and
/// for a home-relative prefix the canonical form of its expansion. Either is
/// absent where the path does not exist.
#[derive(Debug)]
pub struct ResolvedPrefix {
    pub canonical: Option<String>,
    pub home_canonical: Option<String>,
}

/// Whether one granted prefix, as resolved, admits the canonical `path`.
pub open spec fn prefix_admits(prefix: Seq<char>, resolved: ResolvedPrefix, path: Seq<char>) -> bool {
    (match resolved.canonical {
        Some(c) => descends(path, c@),
        None => false,
    }) || (home_relative_spec(prefix).is_some() && match resolved.home_canonical {
        Some(c) => descends(path, c@),
        None => false,
    })
}

/// Whether a grant admits the canonical `path`, given how each of its
/// prefixes resolved. An empty grant, or a path that could not be resolved,
/// admits nothing.
pub open spec fn grant_admits(
    allowed: Seq<String>,
    resolved: Seq<ResolvedPrefix>,
    path: Option<Seq<char>>,
) -> bool {
    allowed.len() > 0 && match path {
        Some(p) => exists|i: int| 0 <= i < allowed.len() && prefix_admits(allowed[i]@, resolved[i], p),
        None => false,
    }
}

fn opt_descends(path: &str, c: &Option<String>) -> (r: bool)
    ensures
        r == match c {
            Some(c) => descends(path@, c@),
            None => false,
        },
{
    match c {
        Some(c) => is_descendant(path, c.as_str()),
        None => false,
    }
}

/// Whether a grant admits the canonical `path`.
pub fn grant_allows(allowed: &Vec<String>, resolved: &Vec<ResolvedPrefix>, path: &Option<String>) -> (r: bool)
    requires
        resolved@.len() == allowed@.len(),
    ensures
        r == grant_admits(allowed@, resolved@, match path {
            Some(p) => Some(p@),
            None => None,
        }),
{
    if allowed.len() == 0 {
        return false;
    }
    match path {
        None => false,
        Some(p) => {
            let mut i: usize = 0;
            while i < allowed.len()
                invariant
                    resolved@.len() == allowed@.len(),
                    allowed@.len() > 0,
                    *path == Some(*p),
                    i <= allowed@.len(),
                    forall|j: int| 0 <= j < i ==> !prefix_admits(allowed@[j]@, resolved@[j], p@),
                decreases allowed@.len() - i,
            {
                let r = &resolved[i];
                if opt_descends(p.as_str(), &r.canonical) {
                    assert(prefix_admits(allowed@[i as int]@, resolved@[i as int], p@));
                    return true;
                }
                if home_relative(allowed[i].as_str()).is_some() && opt_descends(
                    p.as_str(),
                    &r.home_canonical,
                ) {
                    assert(prefix_admits(allowed@[i as int]@, resolved@[i as int], p@));
                    return true;
                }
                i = i + 1;
            }
            false
        },
    }
}

/// File-system grant: path prefixes a guest may read and write under.
#[derive(Debug)]
pub struct FilesystemCapabilities {
    pub read_paths: Vec<String>,
    pub write_paths: Vec<String>,
}

impl FilesystemCapabilities {
    /// Whether the canonical `path` may be read, given how each read prefix
    /// resolved (in the order of `read_paths`).
    pub fn can_read(&self, path: &Option<String>, resolved: &Vec<ResolvedPrefix>) -> (r: bool)
        requires
            resolved@.len() == self.read_paths@.len(),
        ensures
            r == grant_admits(self.read_paths@, resolved@, match path {
                Some(p) => Some(p@),
                None => None,
            }),
    {
        grant_allows(&self.read_paths, resolved, path)
    }

    /// Whether the canonical `path` may be written, given how each write
    /// prefix resolved (in the order of `write_paths`).
    pub fn can_write(&self, path: &Option<String>, resolved: &Vec<ResolvedPrefix>) -> (r: bool)
        requires
            resolved@.len() == self.write_paths@.len(),
        ensures
            r == grant_admits(self.write_paths@, resolved@, match path {
                Some(p) => Some(p@),
                None => None,
            }),
    {
        grant_allows(&self.write_paths, resolved, path)
    }
}

impl Default for FilesystemCapabilities {
    fn default() -> (r: FilesystemCapabilities)
        ensures
            r.read_paths@.len() == 0,
            r.write_paths@.len() == 0,
    {
        FilesystemCapabilities { read_paths: Vec::new(), write_paths: Vec::new() }
    }
}

/// Everything granted to one guest.
#[derive(Debug)]
pub struct Capabilities {
    pub network: NetworkCapabilities,
    pub filesystem: FilesystemCapabilities,
}

impl Default for Capabilities {
    fn default() -> (r: Capabilities)
        ensures
            r.network.allowed_hosts@.len() == 0,
            r.filesystem.read_paths@.len() == 0,
            r.filesystem.write_paths@.len() == 0,
    {
        Capabilities { network: NetworkCapabilities::default(), filesystem: FilesystemCapabilities::default() }
    }
}

} // verus!
