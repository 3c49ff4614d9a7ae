use vstd::prelude::*;
use vstd::string::StringExecFns;

use crate::connection::{reconnect_decision, same_but_phase, strs, NatsConnection, NatsConnectionState};
use crate::endpoint::NodeUrl;
use crate::error::RatsioError;
use crate::ops::{opt_str, Connect, Message, Op, Publish, ServerInfo, Subscribe, UnSubscribe};
use crate::registry::{
    after_delivery, after_set_max, deliveries_are, delivered_items, fresh_sink, Delivery,
    NatsClientMultiplexer, SinkMessage, SubscriptionSink,
};

verus! {

/// Client configuration.
#[derive(Debug, Clone)]
pub struct NatsClientOptions {
    pub cluster_uris: Vec<String>,
    pub tls_required: bool,
    pub verbose: bool,
    pub pedantic: bool,
    pub echo: bool,
    /// Empty means absent.
    pub auth_token: String,
    /// Empty means absent.
    pub username: String,
    /// Empty means absent.
    pub password: String,
    /// Empty means absent.
    pub name: String,
    /// The user JWT; when set, the server's nonce is signed during the handshake.
    pub user_jwt: Option<String>,
    /// Seconds between liveness pings.
    pub ping_interval: u16,
    /// Unanswered pings tolerated before the connection counts as lost.
    pub ping_max_out: u16,
    /// Milliseconds to wait before a failed connection is tried again.
    pub reconnect_timeout: u64,
    /// Whether a failed initial connection is retried rather than reported.
    pub ensure_connect: bool,
    /// Whether subscriptions survive a reconnection (else they are closed).
    pub subscribe_on_reconnect: bool,
}

/// State of the client as a whole.
#[derive(Debug, Clone, Copy, PartialEq, Eq)]
pub enum NatsClientState {
    Connecting,
    Connected,
    Reconnecting,
    Disconnected,
}

/// What an attempt to connect leads to.
pub enum ConnectStep {
    /// A transport was reached; the client waits for the server's `INFO`.
    Ready(NatsClient),
    /// Nothing was reached; try again after this many milliseconds.
    RetryAfter(u64),
    /// Nothing was reached and no retry is configured.
    Failed(RatsioError),
}

/// The connected-client engine. It holds no transport: inbound frames, timer
/// ticks and transport events are handed to it, and the frames it releases are
/// taken with `take_outbound` and written in order.
pub struct NatsClient {
    opts: NatsClientOptions,
    connection: NatsConnection,
    state: NatsClientState,
    server_info: Option<ServerInfo>,
    receiver: NatsClientMultiplexer,
    pings_out: u64,
    /// Frames submitted while not connected, released after the next `CONNECT`.
    held: Vec<Op>,
    /// Frames released to the transport and not yet taken.
    outbox: Vec<Op>,
    /// Every frame released to the current transport, in order.
    wire: Ghost<Seq<Op>>,
}

/// What `data_encoding::BASE64URL_NOPAD` encodes bytes to.
pub uninterp spec fn base64url_nopad(b: Seq<u8>) -> Seq<char>;

/// Relies on `data_encoding::BASE64URL_NOPAD.encode`, which panics above
/// `usize::MAX / 512` input bytes.
#[verifier::external_body]
fn encode_signature(b: &Vec<u8>) -> (r: String)
    requires
        b@.len() <= usize::MAX / 512,
    ensures
        r@ == base64url_nopad(b@),
{
    data_encoding::BASE64URL_NOPAD.encode(b.as_slice())
}

/// A copy of `s`, or `None` when it is empty.
fn non_empty_string(s: &String) -> (r: Option<String>)
    ensures
        opt_str(r) == non_empty(s@),
{
    if s.as_str().is_empty() {
        None
    } else {
        Some(s.clone())
    }
}

/// A string option that is absent when empty.
pub open spec fn non_empty(s: Seq<char>) -> Option<Seq<char>> {
    if s.len() == 0 {
        None
    } else {
        Some(s)
    }
}

pub open spec fn client_lang() -> Seq<char> {
    seq!['r', 'u', 's', 't']
}

pub open spec fn client_version() -> Seq<char> {
    seq!['0', '.', '2', '.', '0']
}

/// The signer's result on the server nonce is small enough to encode.
pub open spec fn signature_ok(sig: Option<Result<Vec<u8>, String>>) -> bool {
    match sig {
        Some(Ok(b)) => b@.len() <= usize::MAX / 512,
        _ => true,
    }
}

/// `c` is the handshake for options `opts`, endpoint `url`, and the signer's
/// result `sig` on the server's nonce (`None` when no signer ran).
/// Credentials in the endpoint URL take precedence over the configured ones.
/// The JWT and its signature go out together, only when the signer succeeded.
pub open spec fn connect_matches(
    c: Connect,
    opts: NatsClientOptions,
    url: NodeUrl,
    sig: Option<Result<Vec<u8>, String>>,
) -> bool {
    &&& c.verbose == opts.verbose
    &&& c.pedantic == opts.pedantic
    &&& c.tls_required == opts.tls_required
    &&& c.echo == opts.echo
    &&& opt_str(c.auth_token) == non_empty(opts.auth_token@)
    &&& opt_str(c.name) == non_empty(opts.name@)
    &&& opt_str(c.user) == if url.username@.len() > 0 {
        Some(url.username@)
    } else {
        non_empty(opts.username@)
    }
    &&& opt_str(c.pass) == match url.password {
        Some(p) => Some(p@),
        None => non_empty(opts.password@),
    }
    &&& c.lang@ == client_lang()
    &&& c.version@ == client_version()
    &&& c.protocol == 1
    &&& opt_str(c.jwt) == match (opts.user_jwt, sig) {
        (Some(j), Some(Ok(_))) => Some(j@),
        _ => None,
    }
    &&& opt_str(c.sig) == match (opts.user_jwt, sig) {
        (Some(_), Some(Ok(b))) => Some(base64url_nopad(b@)),
        _ => None,
    }
}

/// Whether a payload of `len` bytes exceeds the limit the server advertised.
pub open spec fn overflows(info: Option<ServerInfo>, len: nat) -> bool {
    match info {
        Some(si) => len > si.max_payload,
        None => false,
    }
}

/// The sink that a request registers for its reply.
pub open spec fn request_sink(inbox: String, sid: String) -> SubscriptionSink {
    SubscriptionSink {
        cmd: Subscribe { subject: inbox, sid, queue_group: None },
        max_count: Some(1),
        count: 0,
    }
}

/// Frames pass to the transport only while both the client and its transport
/// are connected.
pub open spec fn can_transmit(c: NatsClient) -> bool {
    &&& c.state_spec() == NatsClientState::Connected
    &&& c.connection_spec().phase_spec() == NatsConnectionState::Connected
}

/// Frames that carry the user's work and are kept across a reconnection.
/// `SUB` frames are not among them: the registry replays the subscriptions
/// that survive a reconnection, and the others are closed by it.
pub open spec fn is_user_frame(op: Op) -> bool {
    op is PUB || op is UNSUB
}

pub open spec fn user_frames(s: Seq<Op>) -> Seq<Op> {
    s.filter(|op: Op| is_user_frame(op))
}

/// `new` differs from `old` by `frames` having been submitted: released to the
/// transport while it can transmit, held otherwise.
pub open spec fn frames_submitted(old: NatsClient, new: NatsClient, frames: Seq<Op>) -> bool {
    if can_transmit(old) {
        &&& new.wire_spec() == old.wire_spec() + frames
        &&& new.outbox_spec() == old.outbox_spec() + frames
        &&& new.held_spec() == old.held_spec()
    } else {
        &&& new.held_spec() == old.held_spec() + frames
        &&& new.wire_spec() == old.wire_spec()
        &&& new.outbox_spec() == old.outbox_spec()
    }
}

/// State, ping accounting, server information, options and transport are as before.
pub open spec fn same_session(old: NatsClient, new: NatsClient) -> bool {
    &&& new.state_spec() == old.state_spec()
    &&& new.pings_spec() == old.pings_spec()
    &&& new.server_info_spec() == old.server_info_spec()
    &&& new.opts_spec() == old.opts_spec()
    &&& new.connection_spec() == old.connection_spec()
}

/// The limit a payload is held to: the server's, or none before `INFO`.
pub open spec fn payload_limit(info: Option<ServerInfo>) -> usize {
    match info {
        Some(si) => si.max_payload,
        None => 0,
    }
}

/// Everything but the ping accounting is as before.
pub open spec fn same_but_pings(old: NatsClient, new: NatsClient) -> bool {
    &&& new.state_spec() == old.state_spec()
    &&& new.server_info_spec() == old.server_info_spec()
    &&& new.opts_spec() == old.opts_spec()
    &&& new.connection_spec() == old.connection_spec()
    &&& new.registry() == old.registry()
    &&& new.held_spec() == old.held_spec()
    &&& new.wire_spec() == old.wire_spec()
    &&& new.outbox_spec() == old.outbox_spec()
}

/// The frames replay every registered subscription once, with its own command.
pub open spec fn replays(frames: Seq<Op>, reg: Map<Seq<char>, SubscriptionSink>) -> bool {
    &&& frames.len() == reg.len()
    &&& forall|i: int| 0 <= i < frames.len() ==> match #[trigger] frames[i] {
        Op::SUB(c) => reg.contains_key(c.sid@) && reg[c.sid@].cmd == c,
        _ => false,
    }
    &&& forall|k: Seq<char>| #[trigger] reg.contains_key(k) ==> exists|i: int|
        0 <= i < frames.len() && frames[i] == Op::SUB(reg[k].cmd)
}

/// How the client answers the server's `INFO`: pings reset, information kept,
/// endpoint list learned, `CONNECT` released ahead of the held frames, connected.
pub open spec fn info_handled(
    old: NatsClient,
    new: NatsClient,
    info: ServerInfo,
    sig: Option<Result<Vec<u8>, String>>,
) -> bool {
    &&& new.pings_spec() == 0
    &&& new.server_info_spec() == Some(info)
    &&& new.state_spec() == NatsClientState::Connected
    &&& new.registry() == old.registry()
    &&& new.opts_spec() == old.opts_spec()
    &&& new.connection_spec().phase_spec() == old.connection_spec().phase_spec()
    &&& new.connection_spec().version_spec() == old.connection_spec().version_spec()
    &&& new.connection_spec().url_spec() == old.connection_spec().url_spec()
    &&& new.connection_spec().init_hosts_spec() == old.connection_spec().init_hosts_spec()
    &&& new.connection_spec().tls_spec() == old.connection_spec().tls_spec()
    &&& new.connection_spec().timeout_spec() == old.connection_spec().timeout_spec()
    &&& new.connection_spec().reconnect_hosts_spec() == strs(info.connect_urls@)
        + old.connection_spec().init_hosts_spec()
    &&& new.held_spec() == Seq::<Op>::empty()
    &&& exists|c: Connect|
        {
            &&& connect_matches(c, old.opts_spec(), old.connection_spec().url_spec(), sig)
            &&& new.wire_spec() == old.wire_spec() + seq![Op::CONNECT(c)] + old.held_spec()
            &&& new.outbox_spec() == old.outbox_spec() + seq![Op::CONNECT(c)] + old.held_spec()
        }
}

/// The effect of one inbound frame; `r` holds the items for subscription streams.
pub open spec fn frame_handled(
    old: NatsClient,
    new: NatsClient,
    op: Op,
    sig: Option<Result<Vec<u8>, String>>,
    r: Seq<Delivery>,
) -> bool {
    match op {
        Op::MSG(m) => {
            &&& new.registry() == after_delivery(old.registry(), m.sid@)
            &&& deliveries_are(r, m.sid@, delivered_items(old.registry(), m))
            &&& same_session(old, new)
            &&& new.held_spec() == old.held_spec()
            &&& new.wire_spec() == old.wire_spec()
            &&& new.outbox_spec() == old.outbox_spec()
        },
        Op::PING => {
            &&& new.pings_spec() == 0
            &&& frames_submitted(old, new, seq![Op::PONG])
            &&& new.state_spec() == old.state_spec()
            &&& new.server_info_spec() == old.server_info_spec()
            &&& new.opts_spec() == old.opts_spec()
            &&& new.connection_spec() == old.connection_spec()
            &&& new.registry() == old.registry()
            &&& r.len() == 0
        },
        Op::INFO(info) => info_handled(old, new, info, sig) && r.len() == 0,
        Op::ERR(_) => new == old && r.len() == 0,
        Op::CLOSE => new == old && r.len() == 0,
        _ => new.pings_spec() == 0 && same_but_pings(old, new) && r.len() == 0,
    }
}

/// Every transport's first frame is `CONNECT`.
pub proof fn lemma_first_frame_is_connect(c: NatsClient)
    requires
        c.wf(),
        c.wire_spec().len() > 0,
    ensures
        c.wire_spec()[0] is CONNECT,
{
}

/// A request's reply, the one message on its reply subscription, is passed on
/// unchanged and ends the subscription, which leaves the registry.
pub proof fn lemma_request_reply(
    m: Map<Seq<char>, SubscriptionSink>,
    inbox: String,
    sid: String,
    reply: Message,
)
    requires
        reply.sid@ == sid@,
    ensures
        ({
            let m1 = m.insert(sid@, request_sink(inbox, sid));
            &&& delivered_items(m1, reply) == seq![SinkMessage::Message(reply), SinkMessage::MaxReached(1)]
            &&& after_delivery(m1, sid@) == m.remove(sid@)
            &&& !m.contains_key(sid@) ==> after_delivery(m1, sid@) == m
        }),
{
    let m1 = m.insert(sid@, request_sink(inbox, sid));
    assert(m1.remove(sid@) =~= m.remove(sid@));
    if !m.contains_key(sid@) {
        assert(m.remove(sid@) =~= m);
    }
}

proof fn lemma_submitted_chain(a: NatsClient, b: NatsClient, c: NatsClient, x: Seq<Op>, y: Seq<Op>)
    requires
        frames_submitted(a, b, x),
        frames_submitted(b, c, y),
        a.state_spec() == b.state_spec(),
        a.connection_spec() == b.connection_spec(),
    ensures
        frames_submitted(a, c, x + y),
{
    assert(a.wire_spec() + x + y =~= a.wire_spec() + (x + y));
    assert(a.outbox_spec() + x + y =~= a.outbox_spec() + (x + y));
    assert(a.held_spec() + x + y =~= a.held_spec() + (x + y));
}

/// The publish and unsubscribe frames of `frames`, in order.
fn keep_user_frames(frames: Vec<Op>) -> (r: Vec<Op>)
    ensures
        r@ == user_frames(frames@),
{
    let ghost f0 = frames@;
    let mut frames = frames;
    let mut r: Vec<Op> = Vec::new();
    while frames.len() > 0
        invariant
            frames@.len() <= f0.len(),
            frames@ == f0.subrange(f0.len() - frames@.len(), f0.len() as int),
            r@ == user_frames(f0.subrange(0, f0.len() - frames@.len())),
        decreases frames@.len(),
    {
        let ghost k = f0.len() - frames@.len();
        let op = frames.remove(0);
        assert(op == f0[k]);
        assert(f0.subrange(0, k + 1).drop_last() =~= f0.subrange(0, k));
        assert(f0.subrange(0, k + 1).last() == op);
        let ghost prev = f0.subrange(0, k);
        proof {
            reveal(Seq::filter);
        }
        assert(user_frames(f0.subrange(0, k + 1)) == if is_user_frame(op) {
            user_frames(prev).push(op)
        } else {
            user_frames(prev)
        });
        if matches!(op, Op::PUB(_)) || matches!(op, Op::UNSUB(_)) {
            r.push(op);
        }
        assert(frames@ =~= f0.subrange(f0.len() - frames@.len(), f0.len() as int));
    }
    assert(f0.subrange(0, f0.len() as int) =~= f0);
    r
}

/// Appends `more` to `dst`, in order.
fn append_frames(dst: &mut Vec<Op>, more: Vec<Op>)
    ensures
        final(dst)@ == old(dst)@ + more@,
{
    let ghost m0 = more@;
    let mut more = more;
    while more.len() > 0
        invariant
            more@.len() <= m0.len(),
            more@ == m0.subrange(m0.len() - more@.len(), m0.len() as int),
            dst@ == old(dst)@ + m0.subrange(0, m0.len() - more@.len()),
        decreases more@.len(),
    {
        let ghost k = m0.len() - more@.len();
        let op = more.remove(0);
        assert(op == m0[k]);
        dst.push(op);
        assert(m0.subrange(0, k + 1) =~= m0.subrange(0, k).push(op));
        assert(more@ =~= m0.subrange(m0.len() - more@.len(), m0.len() as int));
    }
    assert(m0.subrange(0, m0.len() as int) =~= m0);
}

impl NatsClient {
    pub closed spec fn state_spec(&self) -> NatsClientState {
        self.state
    }

    /// Pings sent and not yet answered.
    pub closed spec fn pings_spec(&self) -> u64 {
        self.pings_out
    }

    /// The subscription registry.
    pub closed spec fn registry(&self) -> Map<Seq<char>, SubscriptionSink> {
        self.receiver@
    }

    pub closed spec fn server_info_spec(&self) -> Option<ServerInfo> {
        self.server_info
    }

    pub closed spec fn opts_spec(&self) -> NatsClientOptions {
        self.opts
    }

    pub closed spec fn connection_spec(&self) -> NatsConnection {
        self.connection
    }

    /// Frames waiting for the next `CONNECT`.
    pub closed spec fn held_spec(&self) -> Seq<Op> {
        self.held@
    }

    /// Frames released and not yet taken by the writer.
    pub closed spec fn outbox_spec(&self) -> Seq<Op> {
        self.outbox@
    }

    /// Every frame released to the current transport since it was established.
    pub closed spec fn wire_spec(&self) -> Seq<Op> {
        self.wire@
    }

    /// The frames not yet taken are the last ones released.
    closed spec fn frames_ok(&self) -> bool {
        &&& self.outbox@.len() <= self.wire@.len()
        &&& self.outbox@ == self.wire@.subrange(
            self.wire@.len() - self.outbox@.len(),
            self.wire@.len() as int,
        )
    }

    pub closed spec fn wf(&self) -> bool {
        &&& self.receiver.wf()
        &&& self.frames_ok()
        &&& self.wire@.len() > 0 ==> self.wire@[0] is CONNECT
        &&& self.state == NatsClientState::Connected ==> {
            &&& self.wire@.len() > 0
            &&& self.pings_out <= self.opts.ping_max_out
        }
        &&& (self.state == NatsClientState::Connected && self.connection.phase_spec()
            == NatsConnectionState::Connected) ==> self.held@.len() == 0
        &&& self.pings_out <= self.opts.ping_max_out + 1
    }

    /// A client on a just-established connection, before the handshake.
    pub open spec fn is_fresh(&self, opts: NatsClientOptions, connection: NatsConnection) -> bool {
        &&& self.wf()
        &&& self.state_spec() == NatsClientState::Connecting
        &&& self.pings_spec() == 0
        &&& self.registry() == Map::<Seq<char>, SubscriptionSink>::empty()
        &&& self.server_info_spec() is None
        &&& self.held_spec() == Seq::<Op>::empty()
        &&& self.wire_spec() == Seq::<Op>::empty()
        &&& self.outbox_spec() == Seq::<Op>::empty()
        &&& self.opts_spec() == opts
        &&& self.connection_spec() == connection
    }

    /// Builds the client around a connection that was just established.
    pub fn create_client(opts: NatsClientOptions, connection: NatsConnection) -> (r: Self)
        ensures
            r.is_fresh(opts, connection),
    {
        let r = NatsClient {
            opts,
            connection,
            state: NatsClientState::Connecting,
            server_info: None,
            receiver: NatsClientMultiplexer::new(),
            pings_out: 0,
            held: Vec::new(),
            outbox: Vec::new(),
            wire: Ghost(Seq::empty()),
        };
        assert(r.outbox@ =~= r.wire@.subrange(0, 0));
        r
    }

    /// Decides what follows an initial connection attempt: `dialed` is the
    /// connection reached, or `None` when every candidate failed.
    pub fn connect(opts: NatsClientOptions, dialed: Option<NatsConnection>) -> (r: ConnectStep)
        ensures
            match dialed {
                Some(c) => match r {
                    ConnectStep::Ready(client) => client.is_fresh(opts, c),
                    _ => false,
                },
                None => if opts.ensure_connect {
                    r == ConnectStep::RetryAfter(opts.reconnect_timeout)
                } else {
                    r == ConnectStep::Failed(RatsioError::NoRouteToHostError)
                },
            },
    {
        match dialed {
            Some(c) => ConnectStep::Ready(NatsClient::create_client(opts, c)),
            None => if opts.ensure_connect {
                ConnectStep::RetryAfter(opts.reconnect_timeout)
            } else {
                ConnectStep::Failed(RatsioError::NoRouteToHostError)
            },
        }
    }

    pub fn get_state(&self) -> (r: NatsClientState)
        ensures
            r == self.state_spec(),
    {
        self.state
    }

    pub fn connection(&self) -> (r: &NatsConnection)
        ensures
            *r == self.connection_spec(),
    {
        &self.connection
    }

    pub fn options(&self) -> (r: &NatsClientOptions)
        ensures
            *r == self.opts_spec(),
    {
        &self.opts
    }

    /// Number of pings sent and not yet answered.
    pub fn pings_outstanding(&self) -> (r: u64)
        ensures
            r == self.pings_spec(),
    {
        self.pings_out
    }

    /// Whether a subscription with this id is registered.
    pub fn is_subscribed(&self, sid: &String) -> (r: bool)
        requires
            self.wf(),
        ensures
            r == self.registry().contains_key(sid@),
    {
        self.receiver.contains(sid)
    }

    /// Number of registered subscriptions.
    pub fn subscription_count(&self) -> (r: usize)
        requires
            self.wf(),
        ensures
            r == self.registry().len(),
    {
        self.receiver.len()
    }

    /// Hands over the frames released so far, to be written in order.
    pub fn take_outbound(&mut self) -> (r: Vec<Op>)
        requires
            old(self).wf(),
        ensures
            final(self).wf(),
            r@ == old(self).outbox_spec(),
            final(self).outbox_spec() == Seq::<Op>::empty(),
            final(self).wire_spec() == old(self).wire_spec(),
            final(self).held_spec() == old(self).held_spec(),
            final(self).registry() == old(self).registry(),
            same_session(*old(self), *final(self)),
    {
        let mut r: Vec<Op> = Vec::new();
        std::mem::swap(&mut self.outbox, &mut r);
        let ghost n = self.wire@.len();
        assert(self.outbox@ =~= self.wire@.subrange(n as int, n as int));
        r
    }

    /// Submits one frame: released while connected, held otherwise.
    fn send(&mut self, op: Op)
        requires
            old(self).wf(),
        ensures
            final(self).wf(),
            frames_submitted(*old(self), *final(self), seq![op]),
            final(self).registry() == old(self).registry(),
            same_session(*old(self), *final(self)),
    {
        let ghost frame = op;
        if matches!(self.state, NatsClientState::Connected) && self.connection.is_ready() {
            self.release(op);
            assert(old(self).wire@.push(frame) =~= old(self).wire@ + seq![frame]);
            assert(old(self).outbox@.push(frame) =~= old(self).outbox@ + seq![frame]);
        } else {
            self.held.push(op);
            assert(old(self).held@.push(frame) =~= old(self).held@ + seq![frame]);
        }
    }

    /// Puts one frame on the transport.
    fn release(&mut self, op: Op)
        requires
            old(self).frames_ok(),
        ensures
            final(self).frames_ok(),
            final(self).wire@ == old(self).wire@.push(op),
            final(self).outbox@ == old(self).outbox@.push(op),
            final(self).held@ == old(self).held@,
            final(self).receiver == old(self).receiver,
            final(self).state == old(self).state,
            final(self).pings_out == old(self).pings_out,
            final(self).server_info == old(self).server_info,
            final(self).opts == old(self).opts,
            final(self).connection == old(self).connection,
    {
        let ghost w = self.wire@.push(op);
        self.wire = Ghost(w);
        self.outbox.push(op);
        proof {
            let n = self.wire@.len();
            let k = self.outbox@.len();
            assert(self.outbox@ =~= self.wire@.subrange(n - k, n as int));
        }
    }

    /// Releases `pending`, in order, after a `CONNECT`.
    fn flush(&mut self, pending: Vec<Op>)
        requires
            old(self).wf(),
            old(self).state == NatsClientState::Connected,
        ensures
            final(self).wf(),
            final(self).wire@ == old(self).wire@ + pending@,
            final(self).outbox@ == old(self).outbox@ + pending@,
            final(self).held@ == old(self).held@,
            final(self).receiver == old(self).receiver,
            final(self).state == old(self).state,
            final(self).pings_out == old(self).pings_out,
            final(self).server_info == old(self).server_info,
            final(self).opts == old(self).opts,
            final(self).connection == old(self).connection,
    {
        let ghost p0 = pending@;
        let mut pending = pending;
        while pending.len() > 0
            invariant
                self.wf(),
                self.state == NatsClientState::Connected,
                pending@.len() <= p0.len(),
                pending@ == p0.subrange(p0.len() - pending@.len(), p0.len() as int),
                self.wire@ == old(self).wire@ + p0.subrange(0, p0.len() - pending@.len()),
                self.outbox@ == old(self).outbox@ + p0.subrange(0, p0.len() - pending@.len()),
                self.held@ == old(self).held@,
                self.receiver == old(self).receiver,
                self.pings_out == old(self).pings_out,
                self.server_info == old(self).server_info,
                self.opts == old(self).opts,
                self.connection == old(self).connection,
            decreases pending@.len(),
        {
            let ghost k = p0.len() - pending@.len();
            let op = pending.remove(0);
            assert(op == p0[k]);
            self.release(op);
            assert(p0.subrange(0, k + 1) =~= p0.subrange(0, k).push(op));
            assert(pending@ =~= p0.subrange(p0.len() - pending@.len(), p0.len() as int));
        }
        assert(p0.subrange(0, p0.len() as int) =~= p0);
    }
    /// Publishes `cmd`, unless its payload exceeds the server's limit.
    pub fn publish(&mut self, cmd: Publish) -> (r: Result<(), RatsioError>)
        requires
            old(self).wf(),
        ensures
            final(self).wf(),
            overflows(old(self).server_info_spec(), cmd.payload@.len()) ==> {
                &&& r == Err::<(), RatsioError>(
                    RatsioError::MaxPayloadOverflow(payload_limit(old(self).server_info_spec())),
                )
                &&& *final(self) == *old(self)
            },
            !overflows(old(self).server_info_spec(), cmd.payload@.len()) ==> {
                &&& r is Ok
                &&& frames_submitted(*old(self), *final(self), seq![Op::PUB(cmd)])
                &&& final(self).registry() == old(self).registry()
                &&& same_session(*old(self), *final(self))
            },
    {
        match &self.server_info {
            Some(si) => {
                if cmd.payload.len() > si.max_payload {
                    return Err(RatsioError::MaxPayloadOverflow(si.max_payload));
                }
            },
            None => {},
        }
        self.send(Op::PUB(cmd));
        Ok(())
    }

    /// Registers a subscription and submits its `SUB`.
    pub fn subscribe(&mut self, cmd: Subscribe)
        requires
            old(self).wf(),
        ensures
            final(self).wf(),
            final(self).registry() == old(self).registry().insert(cmd.sid@, fresh_sink(cmd)),
            frames_submitted(*old(self), *final(self), seq![Op::SUB(cmd)]),
            same_session(*old(self), *final(self)),
    {
        let copy = cmd.copy();
        self.receiver.for_sid(cmd);
        self.send(Op::SUB(copy));
    }

    /// Submits an `UNSUB`. With a message budget, records it on the subscription
    /// (ending it at once if already used up); without one, removes the
    /// subscription and closes its stream.
    pub fn unsubscribe(&mut self, cmd: UnSubscribe) -> (r: Vec<Delivery>)
        requires
            old(self).wf(),
        ensures
            final(self).wf(),
            frames_submitted(*old(self), *final(self), seq![Op::UNSUB(cmd)]),
            same_session(*old(self), *final(self)),
            match cmd.max_msgs {
                Some(n) => {
                    &&& final(self).registry() == after_set_max(old(self).registry(), cmd.sid@, n)
                    &&& deliveries_are(
                        r@,
                        cmd.sid@,
                        if old(self).registry().contains_key(cmd.sid@) && old(self).registry()[cmd.sid@].count >= n {
                            seq![SinkMessage::MaxReached(n)]
                        } else {
                            Seq::empty()
                        },
                    )
                },
                None => {
                    &&& final(self).registry() == old(self).registry().remove(cmd.sid@)
                    &&& deliveries_are(
                        r@,
                        cmd.sid@,
                        if old(self).registry().contains_key(cmd.sid@) {
                            seq![SinkMessage::CLOSE]
                        } else {
                            Seq::empty()
                        },
                    )
                },
            },
    {
        let r = match cmd.max_msgs {
            Some(n) => self.receiver.set_max(&cmd.sid, n),
            None => {
                let mut r: Vec<Delivery> = Vec::new();
                if self.receiver.contains(&cmd.sid) {
                    self.receiver.remove_sid(&cmd.sid);
                    r.push(Delivery { sid: cmd.sid.clone(), item: SinkMessage::CLOSE });
                }
                r
            },
        };
        self.send(Op::UNSUB(cmd));
        r
    }

    /// Removes the subscription `sid` without telling the server.
    pub fn remove_sid(&mut self, sid: &String)
        requires
            old(self).wf(),
        ensures
            final(self).wf(),
            final(self).registry() == old(self).registry().remove(sid@),
            same_session(*old(self), *final(self)),
            final(self).held_spec() == old(self).held_spec(),
            final(self).wire_spec() == old(self).wire_spec(),
            final(self).outbox_spec() == old(self).outbox_spec(),
    {
        self.receiver.remove_sid(sid);
    }

    /// Sends a request: registers the reply subscription `sid` on subject `inbox`
    /// with a budget of one message, then submits its `SUB`, an `UNSUB` after one
    /// message, and the `PUB` whose reply-to is `inbox`. Nothing happens when the
    /// payload exceeds the server's limit. `sid` must not be in use.
    pub fn request(&mut self, subject: String, payload: &[u8], inbox: String, sid: String) -> (r: Result<(), RatsioError>)
        requires
            old(self).wf(),
            !old(self).registry().contains_key(sid@),
        ensures
            final(self).wf(),
            overflows(old(self).server_info_spec(), payload@.len()) ==> {
                &&& r == Err::<(), RatsioError>(
                    RatsioError::MaxPayloadOverflow(payload_limit(old(self).server_info_spec())),
                )
                &&& *final(self) == *old(self)
            },
            !overflows(old(self).server_info_spec(), payload@.len()) ==> {
                &&& r is Ok
                &&& final(self).registry() == old(self).registry().insert(sid@, request_sink(inbox, sid))
                &&& exists|p: Vec<u8>|
                    {
                        &&& p@ == payload@
                        &&& frames_submitted(
                            *old(self),
                            *final(self),
                            seq![
                                Op::SUB(Subscribe { subject: inbox, sid, queue_group: None }),
                                Op::UNSUB(UnSubscribe { sid, max_msgs: Some(1) }),
                                Op::PUB(Publish { subject, payload: p, reply_to: Some(inbox) }),
                            ],
                        )
                    }
                &&& same_session(*old(self), *final(self))
            },
    {
        match &self.server_info {
            Some(si) => {
                if payload.len() > si.max_payload {
                    return Err(RatsioError::MaxPayloadOverflow(si.max_payload));
                }
            },
            None => {},
        }
        let p = vstd::slice::slice_to_vec(payload);
        let sub = Subscribe { subject: inbox.clone(), sid: sid.clone(), queue_group: None };
        let unsub = UnSubscribe { sid: sid.clone(), max_msgs: Some(1) };
        let publish = Publish { subject, payload: p, reply_to: Some(inbox) };
        let ghost frames = seq![Op::SUB(sub), Op::UNSUB(unsub), Op::PUB(publish)];
        let ghost s0 = *self;
        self.receiver.for_sid(sub.copy());
        let _ = self.receiver.set_max(&sid, 1);
        assert(self.receiver@ =~= s0.receiver@.insert(sid@, request_sink(sub.subject, sid)));
        let ghost s1 = *self;
        assert(frames_submitted(s0, s1, Seq::empty())) by {
            assert(s0.wire@ + Seq::<Op>::empty() =~= s0.wire@);
            assert(s0.outbox@ + Seq::<Op>::empty() =~= s0.outbox@);
            assert(s0.held@ + Seq::<Op>::empty() =~= s0.held@);
        }
        self.send(Op::SUB(sub));
        let ghost s2 = *self;
        proof { lemma_submitted_chain(s0, s1, s2, Seq::empty(), seq![frames[0]]); }
        self.send(Op::UNSUB(unsub));
        let ghost s3 = *self;
        proof { lemma_submitted_chain(s0, s2, s3, Seq::empty().push(frames[0]), seq![frames[1]]); }
        self.send(Op::PUB(publish));
        let ghost s4 = *self;
        proof {
            lemma_submitted_chain(s0, s3, s4, Seq::empty().push(frames[0]) + seq![frames[1]], seq![frames[2]]);
            assert(Seq::empty().push(frames[0]) + seq![frames[1]] + seq![frames[2]] =~= frames);
        }
        Ok(())
    }

    /// The `CONNECT` for the current endpoint; `nonce_signature` is the signer's
    /// result on the server's nonce, or `None` when no signer ran.
    pub fn generate_connect(&self, nonce_signature: &Option<Result<Vec<u8>, String>>) -> (r: Connect)
        requires
            signature_ok(*nonce_signature),
        ensures
            connect_matches(r, self.opts_spec(), self.connection_spec().url_spec(), *nonce_signature),
    {
        let mut sig: Option<String> = None;
        let mut jwt: Option<String> = None;
        match &self.opts.user_jwt {
            Some(j) => match nonce_signature {
                Some(Ok(b)) => {
                    jwt = Some(j.clone());
                    sig = Some(encode_signature(b));
                },
                _ => {},
            },
            None => {},
        }
        let url = self.connection.url();
        let user = if url.username.as_str().is_empty() {
            non_empty_string(&self.opts.username)
        } else {
            Some(url.username.clone())
        };
        let pass = match &url.password {
            Some(p) => Some(p.clone()),
            None => non_empty_string(&self.opts.password),
        };
        let lang = String::from_str("rust");
        let version = String::from_str("0.2.0");
        proof {
            reveal_strlit("rust");
            reveal_strlit("0.2.0");
        }
        assert(lang@ =~= client_lang());
        assert(version@ =~= client_version());
        Connect {
            verbose: self.opts.verbose,
            pedantic: self.opts.pedantic,
            tls_required: self.opts.tls_required,
            auth_token: non_empty_string(&self.opts.auth_token),
            user,
            pass,
            name: non_empty_string(&self.opts.name),
            lang,
            version,
            protocol: 1,
            echo: self.opts.echo,
            sig,
            jwt,
        }
    }
    /// Handles one inbound frame. Messages go to their subscription; `PING`,
    /// `PONG`, `INFO` and other frames reset the ping accounting; `PING` is
    /// answered; `INFO` completes the handshake. `-ERR` is only reported.
    /// `version` is the connection version of the transport the frame came
    /// from; a frame from a replaced transport is ignored.
    /// `nonce_signature` is the signer's result on this frame's nonce, if any.
    pub fn handle_frame(
        &mut self,
        op: Op,
        version: u64,
        nonce_signature: Option<Result<Vec<u8>, String>>,
    ) -> (r: Vec<Delivery>)
        requires
            old(self).wf(),
            signature_ok(nonce_signature),
        ensures
            final(self).wf(),
            version != old(self).connection_spec().version_spec() ==> *final(self) == *old(self)
                && r@.len() == 0,
            version == old(self).connection_spec().version_spec() ==> frame_handled(
                *old(self),
                *final(self),
                op,
                nonce_signature,
                r@,
            ),
    {
        if version != self.connection.version() {
            return Vec::new();
        }
        match op {
            Op::MSG(m) => self.receiver.deliver(m),
            Op::PING => {
                self.pings_out = 0;
                self.send(Op::PONG);
                Vec::new()
            },
            Op::PONG => {
                self.pings_out = 0;
                Vec::new()
            },
            Op::INFO(info) => {
                self.handle_info(info, &nonce_signature);
                Vec::new()
            },
            Op::ERR(_) => Vec::new(),
            Op::CLOSE => Vec::new(),
            _ => {
                self.pings_out = 0;
                Vec::new()
            },
        }
    }

    fn handle_info(&mut self, info: ServerInfo, nonce_signature: &Option<Result<Vec<u8>, String>>)
        requires
            old(self).wf(),
            signature_ok(*nonce_signature),
        ensures
            final(self).wf(),
            info_handled(*old(self), *final(self), info, *nonce_signature),
    {
        let ghost info0 = info;
        self.pings_out = 0;
        let connect = self.generate_connect(nonce_signature);
        let ghost c = connect;
        self.connection.learn_hosts(&info.connect_urls);
        self.server_info = Some(info);
        let mut pending: Vec<Op> = Vec::new();
        std::mem::swap(&mut self.held, &mut pending);
        self.release(Op::CONNECT(connect));
        self.state = NatsClientState::Connected;
        self.flush(pending);
        assert(self.wire@ =~= old(self).wire@ + seq![Op::CONNECT(c)] + old(self).held@);
        assert(self.outbox@ =~= old(self).outbox@ + seq![Op::CONNECT(c)] + old(self).held@);
        assert(self.held@ =~= Seq::<Op>::empty());
    }

    /// One tick of the liveness timer. While the client can transmit, a `PING` is submitted
    /// and counted; once more pings are unanswered than `ping_max_out` allows,
    /// the client is disconnected and a reconnection is requested. Returns
    /// whether the caller now owns that reconnection.
    pub fn ping_tick(&mut self) -> (r: bool)
        requires
            old(self).wf(),
        ensures
            final(self).wf(),
            !can_transmit(*old(self)) ==> *final(self) == *old(self) && !r,
            can_transmit(*old(self)) ==> {
                &&& frames_submitted(*old(self), *final(self), seq![Op::PING])
                &&& final(self).pings_spec() == old(self).pings_spec() + 1
                &&& final(self).registry() == old(self).registry()
                &&& final(self).server_info_spec() == old(self).server_info_spec()
                &&& final(self).opts_spec() == old(self).opts_spec()
                &&& if old(self).pings_spec() + 1 > old(self).opts_spec().ping_max_out {
                    &&& final(self).state_spec() == NatsClientState::Disconnected
                    &&& (final(self).connection_spec().phase_spec(), r) == reconnect_decision(
                        old(self).connection_spec().phase_spec(),
                        old(self).connection_spec().version_spec(),
                        old(self).connection_spec().version_spec(),
                    )
                    &&& same_but_phase(old(self).connection_spec(), final(self).connection_spec())
                } else {
                    &&& final(self).state_spec() == NatsClientState::Connected
                    &&& final(self).connection_spec() == old(self).connection_spec()
                    &&& !r
                }
            },
    {
        if !(matches!(self.state, NatsClientState::Connected) && self.connection.is_ready()) {
            return false;
        }
        self.send(Op::PING);
        self.pings_out = self.pings_out + 1;
        if self.pings_out > self.opts.ping_max_out as u64 {
            self.state = NatsClientState::Disconnected;
            let v = self.connection.version();
            self.connection.trigger_reconnect(v)
        } else {
            false
        }
    }

    /// The transport failed while the caller saw connection version `observed`.
    /// Returns whether the caller now owns the reconnection.
    pub fn transport_failed(&mut self, observed: u64) -> (r: bool)
        requires
            old(self).wf(),
        ensures
            final(self).wf(),
            (final(self).connection_spec().phase_spec(), r) == reconnect_decision(
                old(self).connection_spec().phase_spec(),
                old(self).connection_spec().version_spec(),
                observed,
            ),
            same_but_phase(old(self).connection_spec(), final(self).connection_spec()),
            final(self).state_spec() == old(self).state_spec(),
            final(self).pings_spec() == old(self).pings_spec(),
            final(self).server_info_spec() == old(self).server_info_spec(),
            final(self).opts_spec() == old(self).opts_spec(),
            final(self).registry() == old(self).registry(),
            final(self).held_spec() == old(self).held_spec(),
            final(self).wire_spec() == old(self).wire_spec(),
            final(self).outbox_spec() == old(self).outbox_spec(),
    {
        self.connection.trigger_reconnect(observed)
    }

    /// Every candidate failed during a reconnection; the caller retries after
    /// the connection's `reconnect_timeout` by calling `transport_failed`.
    pub fn reconnect_failed(&mut self)
        requires
            old(self).wf(),
            old(self).connection_spec().phase_spec() == NatsConnectionState::Reconnecting,
        ensures
            final(self).wf(),
            final(self).connection_spec().phase_spec() == NatsConnectionState::Disconnected,
            same_but_phase(old(self).connection_spec(), final(self).connection_spec()),
            final(self).state_spec() == old(self).state_spec(),
            final(self).pings_spec() == old(self).pings_spec(),
            final(self).server_info_spec() == old(self).server_info_spec(),
            final(self).opts_spec() == old(self).opts_spec(),
            final(self).registry() == old(self).registry(),
            final(self).held_spec() == old(self).held_spec(),
            final(self).wire_spec() == old(self).wire_spec(),
            final(self).outbox_spec() == old(self).outbox_spec(),
    {
        self.connection.reconnect_failed();
    }

    /// A reconnection reached the endpoint `url` on a new transport. The new
    /// transport starts with nothing sent, and the client waits for its `INFO`.
    /// Publish and unsubscribe frames not yet taken for the old
    /// transport are held again, ahead of the frames already held.
    /// Subscriptions are replayed after the handshake, or closed, as configured.
    pub fn reconnected(&mut self, url: NodeUrl) -> (r: Vec<Delivery>)
        requires
            old(self).wf(),
            old(self).connection_spec().phase_spec() == NatsConnectionState::Reconnecting,
            old(self).connection_spec().version_spec() < u64::MAX,
        ensures
            final(self).wf(),
            final(self).connection_spec().phase_spec() == NatsConnectionState::Connected,
            final(self).connection_spec().version_spec() == old(self).connection_spec().version_spec() + 1,
            final(self).connection_spec().url_spec() == url,
            final(self).connection_spec().init_hosts_spec() == old(self).connection_spec().init_hosts_spec(),
            final(self).connection_spec().reconnect_hosts_spec() == old(self).connection_spec().reconnect_hosts_spec(),
            final(self).connection_spec().tls_spec() == old(self).connection_spec().tls_spec(),
            final(self).connection_spec().timeout_spec() == old(self).connection_spec().timeout_spec(),
            final(self).state_spec() == NatsClientState::Reconnecting,
            final(self).pings_spec() == 0,
            final(self).wire_spec() == Seq::<Op>::empty(),
            final(self).outbox_spec() == Seq::<Op>::empty(),
            final(self).server_info_spec() == old(self).server_info_spec(),
            final(self).opts_spec() == old(self).opts_spec(),
            ({
                let kept = user_frames(old(self).outbox_spec()) + old(self).held_spec();
                &&& final(self).held_spec().len() >= kept.len()
                &&& final(self).held_spec().subrange(0, kept.len() as int) == kept
                &&& old(self).opts_spec().subscribe_on_reconnect ==> replays(
                    final(self).held_spec().subrange(kept.len() as int, final(self).held_spec().len() as int),
                    old(self).registry(),
                )
                &&& !old(self).opts_spec().subscribe_on_reconnect ==> final(self).held_spec() == kept
            }),
            old(self).opts_spec().subscribe_on_reconnect ==> {
                &&& final(self).registry() == old(self).registry()
                &&& r@.len() == 0
            },
            !old(self).opts_spec().subscribe_on_reconnect ==> {
                &&& final(self).registry() == Map::<Seq<char>, SubscriptionSink>::empty()
                &&& r@.len() == old(self).registry().len()
                &&& forall|i: int| 0 <= i < r@.len() ==> #[trigger] r@[i].item is CLOSE
                &&& forall|i: int| 0 <= i < r@.len() ==> old(self).registry().contains_key(#[trigger] r@[i].sid@)
                &&& forall|k: Seq<char>| #[trigger] old(self).registry().contains_key(k) ==> exists|i: int|
                    0 <= i < r@.len() && r@[i].sid@ == k
                &&& forall|i: int, j: int|
                    0 <= i < r@.len() && 0 <= j < r@.len() && i != j ==> r@[i].sid@ != r@[j].sid@
            },
    {
        self.connection.reconnect_succeeded(url);
        self.state = NatsClientState::Reconnecting;
        self.pings_out = 0;
        let mut untaken: Vec<Op> = Vec::new();
        std::mem::swap(&mut self.outbox, &mut untaken);
        self.wire = Ghost(Seq::empty());
        assert(self.outbox@ =~= self.wire@.subrange(0, 0));
        let mut kept = keep_user_frames(untaken);
        let mut held: Vec<Op> = Vec::new();
        std::mem::swap(&mut self.held, &mut held);
        append_frames(&mut kept, held);
        self.held = kept;
        if self.opts.subscribe_on_reconnect {
            let cmds = self.receiver.commands();
            let ghost h0 = self.held@;
            let ghost conn0 = self.connection;
            let mut i: usize = 0;
            while i < cmds.len()
                invariant
                    self.wf(),
                    self.state == NatsClientState::Reconnecting,
                    self.receiver == old(self).receiver,
                    self.held@.len() == h0.len() + i,
                    self.held@.subrange(0, h0.len() as int) == h0,
                    i <= cmds@.len(),
                    forall|j: int| 0 <= j < i ==> self.held@[h0.len() + j] == Op::SUB(cmds@[j]),
                    self.pings_out == 0,
                    self.wire@ == Seq::<Op>::empty(),
                    self.outbox@ == Seq::<Op>::empty(),
                    self.server_info == old(self).server_info,
                    self.opts == old(self).opts,
                    self.connection == conn0,
                decreases cmds@.len() - i,
            {
                let ghost before = self.held@;
                self.held.push(Op::SUB(cmds[i].copy()));
                assert(self.held@.subrange(0, h0.len() as int) =~= before.subrange(0, h0.len() as int));
                i = i + 1;
            }
            proof {
                let tail = self.held@.subrange(h0.len() as int, self.held@.len() as int);
                assert forall|j: int| 0 <= j < tail.len() implies tail[j] == Op::SUB(cmds@[j]) by {}
                assert forall|k: Seq<char>| #[trigger] self.receiver@.contains_key(k) implies exists|j: int|
                    0 <= j < tail.len() && tail[j] == Op::SUB(self.receiver@[k].cmd) by {
                    let j = choose|j: int| 0 <= j < cmds@.len() && cmds@[j].sid@ == k;
                    assert(tail[j] == Op::SUB(cmds@[j]));
                }
            }
            Vec::new()
        } else {
            self.receiver.close_all()
        }
    }
}

} // verus!
