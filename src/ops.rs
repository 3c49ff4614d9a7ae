use vstd::prelude::*;

verus! {

/// An inbound message delivered for a subscription.
#[derive(Debug, Clone)]
pub struct Message {
    pub subject: String,
    pub sid: String,
    pub reply_to: Option<String>,
    pub payload: Vec<u8>,
}

/// An outbound publish command.
#[derive(Debug, Clone)]
pub struct Publish {
    pub subject: String,
    pub payload: Vec<u8>,
    pub reply_to: Option<String>,
}

/// A subscribe command; `sid` identifies the subscription.
#[derive(Debug, Clone, PartialEq, Eq)]
pub struct Subscribe {
    pub subject: String,
    pub sid: String,
    pub queue_group: Option<String>,
}

/// An unsubscribe command, optionally after `max_msgs` further messages.
#[derive(Debug, Clone, PartialEq, Eq)]
pub struct UnSubscribe {
    pub sid: String,
    pub max_msgs: Option<u64>,
}

/// The server's self-description, sent in `INFO`.
#[derive(Debug, Clone)]
pub struct ServerInfo {
    pub max_payload: usize,
    pub connect_urls: Vec<String>,
    /// Challenge to be signed when a user JWT is configured; empty when absent.
    pub nonce: String,
}

/// The client's handshake, sent in `CONNECT`.
#[derive(Debug, Clone, PartialEq, Eq)]
pub struct Connect {
    pub verbose: bool,
    pub pedantic: bool,
    pub tls_required: bool,
    pub auth_token: Option<String>,
    pub user: Option<String>,
    pub pass: Option<String>,
    pub name: Option<String>,
    pub lang: String,
    pub version: String,
    pub protocol: u8,
    pub echo: bool,
    pub sig: Option<String>,
    pub jwt: Option<String>,
}

/// One protocol frame; `CLOSE` is a local sentinel that never goes on the wire.
#[derive(Debug, Clone)]
pub enum Op {
    CONNECT(Connect),
    INFO(ServerInfo),
    MSG(Message),
    PUB(Publish),
    SUB(Subscribe),
    UNSUB(UnSubscribe),
    PING,
    PONG,
    ERR(String),
    CLOSE,
}

/// The view of an optional string as an optional character sequence.
pub open spec fn opt_str(o: Option<String>) -> Option<Seq<char>> {
    match o {
        Some(s) => Some(s@),
        None => None,
    }
}

/// Copies an optional string.
pub fn copy_opt_string(o: &Option<String>) -> (r: Option<String>)
    ensures
        r == *o,
{
    match o {
        Some(s) => Some(s.clone()),
        None => None,
    }
}

impl Subscribe {
    /// A field-by-field copy of the command.
    pub fn copy(&self) -> (r: Subscribe)
        ensures
            r == *self,
    {
        Subscribe {
            subject: self.subject.clone(),
            sid: self.sid.clone(),
            queue_group: copy_opt_string(&self.queue_group),
        }
    }
}

} // verus!
