use vstd::prelude::*;

use crate::error::RatsioError;
use crate::endpoint::{endpoint_of, parse_uri, Endpoint, NodeUrl};

verus! {

/// Phase of the transport to the server.
#[derive(Debug, Clone, Copy, PartialEq, Eq)]
pub enum NatsConnectionState {
    Connected,
    Reconnecting,
    Disconnected,
}

/// The transport's bookkeeping: which endpoint it reaches, its phase, and a
/// version that grows by one on each successful reconnection.
pub struct NatsConnection {
    is_tls: bool,
    reconnect_timeout: u64,
    url: NodeUrl,
    phase: NatsConnectionState,
    version: u64,
    init_hosts: Vec<String>,
    reconnect_hosts: Vec<String>,
}

/// Outcome of a reconnect request made by a caller that last saw `observed`:
/// the new phase, and whether that caller now owns the reconnection.
pub open spec fn reconnect_decision(
    phase: NatsConnectionState,
    version: u64,
    observed: u64,
) -> (NatsConnectionState, bool) {
    if phase == NatsConnectionState::Reconnecting {
        (phase, false)
    } else if phase == NatsConnectionState::Connected && version > observed {
        (phase, false)
    } else {
        (NatsConnectionState::Reconnecting, true)
    }
}

/// The next move while walking the candidate endpoints in order.
#[derive(Debug, Clone, Copy, PartialEq, Eq)]
pub enum WalkStep {
    /// The candidate at this index was reached.
    Done(usize),
    /// Dial the candidate at this index.
    Try(usize),
    /// Every candidate was tried and none was reached.
    Fail(RatsioError),
}

/// Where a walk over `n` candidates starts.
pub fn walk_start(n: usize) -> (r: WalkStep)
    ensures
        n == 0 ==> r == WalkStep::Fail(RatsioError::NoRouteToHostError),
        n > 0 ==> r == WalkStep::Try(0),
{
    if n == 0 {
        WalkStep::Fail(RatsioError::NoRouteToHostError)
    } else {
        WalkStep::Try(0)
    }
}

/// The move after dialing candidate `tried` of `n`, which succeeded when `dialed_ok`.
pub fn walk_step(tried: usize, n: usize, dialed_ok: bool) -> (r: WalkStep)
    requires
        tried < n,
    ensures
        dialed_ok ==> r == WalkStep::Done(tried),
        !dialed_ok && tried + 1 < n ==> r == WalkStep::Try((tried + 1) as usize),
        !dialed_ok && tried + 1 >= n ==> r == WalkStep::Fail(RatsioError::NoRouteToHostError),
{
    if dialed_ok {
        WalkStep::Done(tried)
    } else if tried + 1 < n {
        WalkStep::Try(tried + 1)
    } else {
        WalkStep::Fail(RatsioError::NoRouteToHostError)
    }
}

/// `b` differs from `a` at most in its phase.
pub open spec fn same_but_phase(a: NatsConnection, b: NatsConnection) -> bool {
    &&& b.version_spec() == a.version_spec()
    &&& b.url_spec() == a.url_spec()
    &&& b.init_hosts_spec() == a.init_hosts_spec()
    &&& b.reconnect_hosts_spec() == a.reconnect_hosts_spec()
    &&& b.tls_spec() == a.tls_spec()
    &&& b.timeout_spec() == a.timeout_spec()
}

/// Strings viewed as character sequences.
pub open spec fn strs(v: Seq<String>) -> Seq<Seq<char>> {
    v.map_values(|s: String| s@)
}

impl NatsConnection {
    pub closed spec fn phase_spec(&self) -> NatsConnectionState {
        self.phase
    }

    pub closed spec fn version_spec(&self) -> u64 {
        self.version
    }

    /// Whether the transport is upgraded to TLS.
    pub closed spec fn tls_spec(&self) -> bool {
        self.is_tls
    }

    /// Delay in milliseconds before a failed reconnection is tried again.
    pub closed spec fn timeout_spec(&self) -> u64 {
        self.reconnect_timeout
    }

    pub closed spec fn url_spec(&self) -> NodeUrl {
        self.url
    }

    /// The configured endpoint URLs.
    pub closed spec fn init_hosts_spec(&self) -> Seq<Seq<char>> {
        strs(self.init_hosts@)
    }

    /// The endpoint URLs tried on reconnection.
    pub closed spec fn reconnect_hosts_spec(&self) -> Seq<Seq<char>> {
        strs(self.reconnect_hosts@)
    }

    /// A connection just established to the endpoint `url`.
    pub fn create_connection(
        reconnect_timeout: u64,
        cluster_uris: &Vec<String>,
        tls_required: bool,
        url: NodeUrl,
    ) -> (r: Self)
        ensures
            r.phase_spec() == NatsConnectionState::Connected,
            r.version_spec() == 0,
            r.url_spec() == url,
            r.tls_spec() == tls_required,
            r.timeout_spec() == reconnect_timeout,
            r.init_hosts_spec() == strs(cluster_uris@),
            r.reconnect_hosts_spec() == strs(cluster_uris@),
    {
        NatsConnection {
            is_tls: tls_required,
            reconnect_timeout,
            url,
            phase: NatsConnectionState::Connected,
            version: 0,
            init_hosts: cluster_uris.clone(),
            reconnect_hosts: cluster_uris.clone(),
        }
    }

    pub fn is_tls(&self) -> (r: bool)
        ensures
            r == self.tls_spec(),
    {
        self.is_tls
    }

    pub fn reconnect_timeout(&self) -> (r: u64)
        ensures
            r == self.timeout_spec(),
    {
        self.reconnect_timeout
    }

    pub fn phase(&self) -> (r: NatsConnectionState)
        ensures
            r == self.phase_spec(),
    {
        self.phase
    }

    pub fn version(&self) -> (r: u64)
        ensures
            r == self.version_spec(),
    {
        self.version
    }

    /// The endpoint the current transport reaches.
    pub fn url(&self) -> (r: &NodeUrl)
        ensures
            *r == self.url_spec(),
    {
        &self.url
    }

    /// Whether frames may pass: only while connected.
    pub fn is_ready(&self) -> (r: bool)
        ensures
            r == (self.phase_spec() == NatsConnectionState::Connected),
    {
        matches!(self.phase, NatsConnectionState::Connected)
    }

    /// Asks for a reconnection on behalf of a caller that last saw version
    /// `observed`. Returns whether that caller must now walk the candidates;
    /// it does not when a reconnection is under way or one already completed.
    pub fn trigger_reconnect(&mut self, observed: u64) -> (r: bool)
        ensures
            (final(self).phase_spec(), r) == reconnect_decision(
                old(self).phase_spec(),
                old(self).version_spec(),
                observed,
            ),
            final(self).version_spec() == old(self).version_spec(),
            final(self).url_spec() == old(self).url_spec(),
            final(self).init_hosts_spec() == old(self).init_hosts_spec(),
            final(self).reconnect_hosts_spec() == old(self).reconnect_hosts_spec(),
            final(self).tls_spec() == old(self).tls_spec(),
            final(self).timeout_spec() == old(self).timeout_spec(),
    {
        if matches!(self.phase, NatsConnectionState::Reconnecting) {
            false
        } else if matches!(self.phase, NatsConnectionState::Connected) && self.version > observed {
            false
        } else {
            self.phase = NatsConnectionState::Disconnected;
            self.phase = NatsConnectionState::Reconnecting;
            true
        }
    }

    /// The candidate endpoints of the configured URLs, in order; URLs that do not
    /// parse or have no host yield none. Name resolution is left to the caller.
    pub fn parse_uris(cluster_uris: &Vec<String>) -> (r: Vec<Endpoint>)
        ensures
            r@.map_values(|e: Endpoint| e@) == cluster_uris@.map_values(|s: String| s@).filter_map(
                |u: Seq<char>| endpoint_of(u),
            ),
    {
        let ghost uris = cluster_uris@.map_values(|s: String| s@);
        let mut r: Vec<Endpoint> = Vec::new();
        let mut i: usize = 0;
        while i < cluster_uris.len()
            invariant
                i <= cluster_uris@.len(),
                uris == cluster_uris@.map_values(|s: String| s@),
                r@.map_values(|e: Endpoint| e@) == uris.subrange(0, i as int).filter_map(
                    |u: Seq<char>| endpoint_of(u),
                ),
            decreases cluster_uris@.len() - i,
        {
            let ghost before = r@;
            let e = parse_uri(&cluster_uris[i]);
            proof {
                assert(uris.subrange(0, i + 1).drop_last() =~= uris.subrange(0, i as int));
                assert(uris.subrange(0, i + 1).last() == cluster_uris@[i as int]@);
            }
            match e {
                Some(e) => {
                    r.push(e);
                    assert(r@.map_values(|e: Endpoint| e@) =~= before.map_values(|e: Endpoint| e@)
                        + seq![e@]);
                },
                None => {},
            }
            i = i + 1;
        }
        assert(uris.subrange(0, i as int) =~= uris);
        r
    }

    /// The candidates to try on reconnection, in order.
    pub fn reconnect_candidates(&self) -> (r: Vec<Endpoint>)
        ensures
            r@.map_values(|e: Endpoint| e@) == self.reconnect_hosts_spec().filter_map(
                |u: Seq<char>| endpoint_of(u),
            ),
    {
        NatsConnection::parse_uris(&self.reconnect_hosts)
    }

    /// A candidate was reached: the new transport reaches `url`.
    pub fn reconnect_succeeded(&mut self, url: NodeUrl)
        requires
            old(self).phase_spec() == NatsConnectionState::Reconnecting,
            old(self).version_spec() < u64::MAX,
        ensures
            final(self).phase_spec() == NatsConnectionState::Connected,
            final(self).version_spec() == old(self).version_spec() + 1,
            final(self).url_spec() == url,
            final(self).init_hosts_spec() == old(self).init_hosts_spec(),
            final(self).reconnect_hosts_spec() == old(self).reconnect_hosts_spec(),
            final(self).tls_spec() == old(self).tls_spec(),
            final(self).timeout_spec() == old(self).timeout_spec(),
    {
        self.url = url;
        self.phase = NatsConnectionState::Connected;
        self.version = self.version + 1;
    }

    /// Every candidate failed; a retry follows after `reconnect_timeout`.
    pub fn reconnect_failed(&mut self)
        requires
            old(self).phase_spec() == NatsConnectionState::Reconnecting,
        ensures
            final(self).phase_spec() == NatsConnectionState::Disconnected,
            final(self).version_spec() == old(self).version_spec(),
            final(self).url_spec() == old(self).url_spec(),
            final(self).init_hosts_spec() == old(self).init_hosts_spec(),
            final(self).reconnect_hosts_spec() == old(self).reconnect_hosts_spec(),
            final(self).tls_spec() == old(self).tls_spec(),
            final(self).timeout_spec() == old(self).timeout_spec(),
    {
        self.phase = NatsConnectionState::Disconnected;
    }

    /// Sets the reconnection list to the endpoints a server advertised followed
    /// by the configured ones.
    pub fn learn_hosts(&mut self, connect_urls: &Vec<String>)
        ensures
            final(self).reconnect_hosts_spec() == strs(connect_urls@) + old(self).init_hosts_spec(),
            final(self).phase_spec() == old(self).phase_spec(),
            final(self).version_spec() == old(self).version_spec(),
            final(self).url_spec() == old(self).url_spec(),
            final(self).init_hosts_spec() == old(self).init_hosts_spec(),
            final(self).tls_spec() == old(self).tls_spec(),
            final(self).timeout_spec() == old(self).timeout_spec(),
    {
        let mut hosts = connect_urls.clone();
        let mut i: usize = 0;
        while i < self.init_hosts.len()
            invariant
                i <= self.init_hosts@.len(),
                strs(hosts@) == strs(connect_urls@) + strs(self.init_hosts@.subrange(0, i as int)),
            decreases self.init_hosts@.len() - i,
        {
            let ghost before = hosts@;
            hosts.push(self.init_hosts[i].clone());
            assert(strs(hosts@) =~= strs(before) + seq![self.init_hosts@[i as int]@]);
            assert(strs(self.init_hosts@.subrange(0, i + 1)) =~= strs(
                self.init_hosts@.subrange(0, i as int),
            ) + seq![self.init_hosts@[i as int]@]);
            i = i + 1;
        }
        assert(self.init_hosts@.subrange(0, i as int) =~= self.init_hosts@);
        self.reconnect_hosts = hosts;
    }
}

/// Only one reconnection is in flight at a time: once a caller owns it, every
/// further request, whatever version its caller saw, is turned away without
/// changing the phase, until the attempt ends.
pub proof fn lemma_single_reconnect(phase: NatsConnectionState, version: u64, first: u64, second: u64)
    requires
        reconnect_decision(phase, version, first).1,
    ensures
        phase != NatsConnectionState::Reconnecting,
        reconnect_decision(phase, version, first).0 == NatsConnectionState::Reconnecting,
        reconnect_decision(reconnect_decision(phase, version, first).0, version, second)
            == (NatsConnectionState::Reconnecting, false),
{
}

} // verus!
