use vstd::prelude::*;
use vstd::string::{StrSliceExecFns, StringExecFns};

use crate::ops::opt_str;

verus! {

/// Port used when an endpoint URL names none.
pub const DEFAULT_PORT: u16 = 4222;

/// The parts of a parsed endpoint URL that the client reads.
#[derive(Debug, Clone, PartialEq, Eq)]
pub struct NodeUrl {
    pub host: Option<String>,
    pub port: Option<u16>,
    pub username: String,
    pub password: Option<String>,
}

/// A candidate endpoint: its URL, and the host and port to dial.
#[derive(Debug, Clone, PartialEq, Eq)]
pub struct Endpoint {
    pub url: NodeUrl,
    pub host: String,
    pub port: u16,
}

/// What `url::Url::parse` makes of a string: `None` when it is refused, else the
/// URL's host, explicit port, user name and password.
pub uninterp spec fn url_parse(s: Seq<char>) -> Option<
    (Option<Seq<char>>, Option<u16>, Seq<char>, Option<Seq<char>>),
>;

impl NodeUrl {
    pub open spec fn parts(&self) -> (Option<Seq<char>>, Option<u16>, Seq<char>, Option<Seq<char>>) {
        (opt_str(self.host), self.port, self.username@, opt_str(self.password))
    }
}

impl Endpoint {
    pub open spec fn view(&self) -> (
        (Option<Seq<char>>, Option<u16>, Seq<char>, Option<Seq<char>>),
        Seq<char>,
        u16,
    ) {
        (self.url.parts(), self.host@, self.port)
    }
}

/// Relies on `url::Url::parse`, then reads the parsed URL's `host_str`, `port`,
/// `username` and `password`.
#[verifier::external_body]
fn parse_url(s: &str) -> (r: Option<NodeUrl>)
    ensures
        match r {
            Some(u) => url_parse(s@) == Some(u.parts()),
            None => url_parse(s@) is None,
        },
{
    match url::Url::parse(s) {
        Ok(u) => Some(NodeUrl {
            host: u.host_str().map(String::from),
            port: u.port(),
            username: String::from(u.username()),
            password: u.password().map(String::from),
        }),
        Err(_) => None,
    }
}

/// Whether `prefix` begins `s`.
fn has_prefix(s: &str, prefix: &str) -> (r: bool)
    ensures
        r == prefix@.is_prefix_of(s@),
{
    let n = prefix.unicode_len();
    if n > s.unicode_len() {
        return false;
    }
    let mut i: usize = 0;
    while i < n
        invariant
            n == prefix@.len(),
            n <= s@.len(),
            i <= n,
            forall|j: int| 0 <= j < i ==> prefix@[j] == s@[j],
        decreases n - i,
    {
        if prefix.get_char(i) != s.get_char(i) {
            assert(prefix@[i as int] != s@.subrange(0, n as int)[i as int]);
            return false;
        }
        i = i + 1;
    }
    assert(prefix@ =~= s@.subrange(0, n as int));
    true
}

/// The scheme prefix of an endpoint URL.
pub open spec fn scheme() -> Seq<char> {
    seq!['n', 'a', 't', 's', ':', '/', '/']
}

/// An endpoint URL with the scheme prefix added when it is missing.
pub open spec fn normalized(uri: Seq<char>) -> Seq<char> {
    if scheme().is_prefix_of(uri) {
        uri
    } else {
        scheme() + uri
    }
}

/// The candidate that one configured URL yields, if its normalized form parses
/// and has a host; the port defaults to `DEFAULT_PORT`.
pub open spec fn endpoint_of(uri: Seq<char>) -> Option<
    ((Option<Seq<char>>, Option<u16>, Seq<char>, Option<Seq<char>>), Seq<char>, u16),
> {
    match url_parse(normalized(uri)) {
        Some(p) => match p.0 {
            Some(h) => Some(
                (
                    p,
                    h,
                    match p.1 {
                        Some(x) => x,
                        None => DEFAULT_PORT,
                    },
                ),
            ),
            None => None,
        },
        None => None,
    }
}

/// Adds the scheme prefix to `uri` when it is missing.
pub fn normalize_uri(uri: &String) -> (r: String)
    ensures
        r@ == normalized(uri@),
{
    let prefix = "nats://";
    proof {
        reveal_strlit("nats://");
        assert(prefix@ =~= scheme());
    }
    if has_prefix(uri.as_str(), prefix) {
        uri.clone()
    } else {
        String::from_str(prefix).concat(uri.as_str())
    }
}

/// The candidate endpoint of one configured URL, if any.
pub fn parse_uri(uri: &String) -> (r: Option<Endpoint>)
    ensures
        match r {
            Some(e) => endpoint_of(uri@) == Some(e@),
            None => endpoint_of(uri@) is None,
        },
{
    let formatted = normalize_uri(uri);
    match parse_url(formatted.as_str()) {
        None => None,
        Some(u) => {
            let port = match u.port {
                Some(p) => p,
                None => DEFAULT_PORT,
            };
            match &u.host {
                None => None,
                Some(h) => {
                    let host = h.clone();
                    Some(Endpoint { url: u, host, port })
                },
            }
        },
    }
}

} // verus!
