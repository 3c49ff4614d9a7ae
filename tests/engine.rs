use ratsio::client::{ConnectStep, NatsClient, NatsClientOptions, NatsClientState};
use ratsio::connection::{walk_start, walk_step, NatsConnection, NatsConnectionState, WalkStep};
use ratsio::endpoint::NodeUrl;
use ratsio::error::RatsioError;
use ratsio::ops::{Message, Op, Publish, ServerInfo, Subscribe, UnSubscribe};
use ratsio::registry::{Delivery, NatsClientMultiplexer, SinkMessage};

fn options() -> NatsClientOptions {
    NatsClientOptions {
        cluster_uris: vec!["127.0.0.1:4222".to_string()],
        tls_required: false,
        verbose: false,
        pedantic: false,
        echo: true,
        auth_token: String::new(),
        username: String::new(),
        password: String::new(),
        name: String::new(),
        user_jwt: None,
        ping_interval: 1,
        ping_max_out: 2,
        reconnect_timeout: 1000,
        ensure_connect: false,
        subscribe_on_reconnect: true,
    }
}

fn plain_url() -> NodeUrl {
    NodeUrl { host: Some("127.0.0.1".to_string()), port: Some(4222), username: String::new(), password: None }
}

fn client_with(opts: NatsClientOptions, url: NodeUrl) -> NatsClient {
    let conn = NatsConnection::create_connection(opts.reconnect_timeout, &opts.cluster_uris, opts.tls_required, url);
    NatsClient::create_client(opts, conn)
}

fn info(max_payload: usize) -> Op {
    Op::INFO(ServerInfo { max_payload, connect_urls: vec![], nonce: String::new() })
}

fn msg(sid: &str, payload: Vec<u8>) -> Op {
    Op::MSG(Message { subject: "x".to_string(), sid: sid.to_string(), reply_to: None, payload })
}

fn sub(sid: &str, subject: &str) -> Subscribe {
    Subscribe { subject: subject.to_string(), sid: sid.to_string(), queue_group: None }
}

fn connected(opts: NatsClientOptions) -> NatsClient {
    let mut c = client_with(opts, plain_url());
    feed(&mut c, info(1048576));
    c.take_outbound();
    c
}

fn feed(c: &mut NatsClient, op: Op) -> Vec<Delivery> {
    let v = c.connection().version();
    c.handle_frame(op, v, None)
}

fn is_close(d: &Delivery, sid: &str) -> bool {
    d.sid == sid && matches!(d.item, SinkMessage::CLOSE)
}

#[test]
fn happy_publish() {
    let mut c = client_with(options(), plain_url());
    assert_eq!(c.get_state(), NatsClientState::Connecting);
    feed(&mut c, info(1048576));
    assert_eq!(c.get_state(), NatsClientState::Connected);
    let out = c.take_outbound();
    assert_eq!(out.len(), 1);
    assert!(matches!(out[0], Op::CONNECT(_)));
    let r = c.publish(Publish { subject: "a".to_string(), payload: vec![0x01, 0x02], reply_to: None });
    assert_eq!(r, Ok(()));
    let out = c.take_outbound();
    assert_eq!(out.len(), 1);
    match &out[0] {
        Op::PUB(p) => {
            assert_eq!(p.subject, "a");
            assert_eq!(p.payload, vec![0x01, 0x02]);
        }
        other => panic!("unexpected frame {:?}", other),
    }
}

#[test]
fn payload_overflow() {
    let mut c = client_with(options(), plain_url());
    feed(&mut c, info(4));
    c.take_outbound();
    let r = c.publish(Publish { subject: "a".to_string(), payload: vec![0; 5], reply_to: None });
    assert_eq!(r, Err(RatsioError::MaxPayloadOverflow(4)));
    assert!(c.take_outbound().is_empty());
}

#[test]
fn payload_at_limit_is_sent() {
    let mut c = client_with(options(), plain_url());
    feed(&mut c, info(4));
    c.take_outbound();
    assert_eq!(c.publish(Publish { subject: "a".to_string(), payload: vec![0; 4], reply_to: None }), Ok(()));
    assert_eq!(c.take_outbound().len(), 1);
}

#[test]
fn max_messages() {
    let mut c = connected(options());
    c.subscribe(sub("s1", "x"));
    let d = c.unsubscribe(UnSubscribe { sid: "s1".to_string(), max_msgs: Some(2) });
    assert!(d.is_empty());
    let d1 = feed(&mut c, msg("s1", vec![1]));
    assert_eq!(d1.len(), 1);
    assert!(matches!(&d1[0].item, SinkMessage::Message(m) if m.payload == vec![1]));
    let d2 = feed(&mut c, msg("s1", vec![2]));
    assert_eq!(d2.len(), 2);
    assert!(matches!(&d2[0].item, SinkMessage::Message(m) if m.payload == vec![2]));
    assert!(matches!(d2[1].item, SinkMessage::MaxReached(2)));
    let d3 = feed(&mut c, msg("s1", vec![3]));
    assert!(d3.is_empty());
    assert_eq!(c.subscription_count(), 0);
}

#[test]
fn reconnect_preserves_subscriptions() {
    let mut c = connected(options());
    c.subscribe(sub("s1", "x"));
    c.take_outbound();
    let v = c.connection().version();
    assert!(c.transport_failed(v));
    let d = c.reconnected(plain_url());
    assert!(d.is_empty());
    assert_eq!(c.get_state(), NatsClientState::Reconnecting);
    assert!(c.take_outbound().is_empty());
    feed(&mut c, info(1048576));
    let out = c.take_outbound();
    assert_eq!(out.len(), 2);
    assert!(matches!(out[0], Op::CONNECT(_)));
    match &out[1] {
        Op::SUB(s) => {
            assert_eq!(s.sid, "s1");
            assert_eq!(s.subject, "x");
        }
        other => panic!("unexpected frame {:?}", other),
    }
    assert!(c.is_subscribed(&"s1".to_string()));
}

#[test]
fn reconnect_closes_subscriptions() {
    let mut opts = options();
    opts.subscribe_on_reconnect = false;
    let mut c = connected(opts);
    c.subscribe(sub("s1", "x"));
    let v = c.connection().version();
    assert!(c.transport_failed(v));
    let d = c.reconnected(plain_url());
    assert_eq!(d.len(), 1);
    assert!(is_close(&d[0], "s1"));
    assert_eq!(c.subscription_count(), 0);
    feed(&mut c, info(1048576));
    let out = c.take_outbound();
    assert_eq!(out.len(), 1);
    assert!(matches!(out[0], Op::CONNECT(_)));
}

#[test]
fn liveness_breach() {
    let mut c = connected(options());
    assert!(!c.ping_tick());
    assert!(!c.ping_tick());
    assert_eq!(c.get_state(), NatsClientState::Connected);
    assert!(c.ping_tick());
    assert_eq!(c.get_state(), NatsClientState::Disconnected);
    assert_eq!(c.connection().phase(), NatsConnectionState::Reconnecting);
    assert!(!c.ping_tick());
    assert!(!c.ping_tick());
    let out = c.take_outbound();
    assert_eq!(out.len(), 3);
    assert!(out.iter().all(|f| matches!(f, Op::PING)));
    assert_eq!(c.pings_outstanding(), 3);
}

#[test]
fn pongs_reset_ping_count() {
    let mut c = connected(options());
    c.ping_tick();
    c.ping_tick();
    assert_eq!(c.pings_outstanding(), 2);
    feed(&mut c, Op::PONG);
    assert_eq!(c.pings_outstanding(), 0);
    c.ping_tick();
    feed(&mut c, Op::PING);
    assert_eq!(c.pings_outstanding(), 0);
    let out = c.take_outbound();
    assert!(matches!(out.last(), Some(Op::PONG)));
    c.ping_tick();
    feed(&mut c, info(10));
    assert_eq!(c.pings_outstanding(), 0);
    assert!(!c.ping_tick());
    assert!(!c.ping_tick());
    assert_eq!(c.get_state(), NatsClientState::Connected);
}

#[test]
fn errors_from_server_are_ignored() {
    let mut c = connected(options());
    c.ping_tick();
    let d = feed(&mut c, Op::ERR("bad".to_string()));
    assert!(d.is_empty());
    assert_eq!(c.pings_outstanding(), 1);
    assert_eq!(c.get_state(), NatsClientState::Connected);
}

#[test]
fn version_grows_per_reconnect() {
    let mut c = connected(options());
    assert_eq!(c.connection().version(), 0);
    for expected in 1..4u64 {
        let v = c.connection().version();
        assert!(c.transport_failed(v));
        c.reconnected(plain_url());
        assert_eq!(c.connection().version(), expected);
        assert_eq!(c.connection().phase(), NatsConnectionState::Connected);
    }
}

#[test]
fn single_reconnect_in_flight() {
    let mut c = connected(options());
    assert!(c.transport_failed(0));
    assert!(!c.transport_failed(0));
    assert!(!c.transport_failed(7));
    c.reconnected(plain_url());
    // A caller that saw the old version finds the reconnection already done.
    assert!(!c.transport_failed(0));
    assert_eq!(c.connection().phase(), NatsConnectionState::Connected);
    assert!(c.transport_failed(1));
}

#[test]
fn failed_reconnect_is_retried() {
    let mut c = connected(options());
    assert!(c.transport_failed(0));
    c.reconnect_failed();
    assert_eq!(c.connection().phase(), NatsConnectionState::Disconnected);
    assert_eq!(c.connection().version(), 0);
    assert!(c.transport_failed(0));
}

#[test]
fn frames_before_info_follow_connect() {
    let mut c = client_with(options(), plain_url());
    assert_eq!(c.publish(Publish { subject: "a".to_string(), payload: vec![9], reply_to: None }), Ok(()));
    c.subscribe(sub("s2", "y"));
    assert!(c.take_outbound().is_empty());
    feed(&mut c, info(100));
    let out = c.take_outbound();
    assert_eq!(out.len(), 3);
    assert!(matches!(out[0], Op::CONNECT(_)));
    assert!(matches!(out[1], Op::PUB(_)));
    assert!(matches!(out[2], Op::SUB(_)));
}

#[test]
fn subscribe_then_unsubscribe() {
    let mut c = connected(options());
    c.subscribe(sub("s1", "x"));
    assert_eq!(c.subscription_count(), 1);
    let d = c.unsubscribe(UnSubscribe { sid: "s1".to_string(), max_msgs: None });
    assert_eq!(d.len(), 1);
    assert!(is_close(&d[0], "s1"));
    assert_eq!(c.subscription_count(), 0);
    assert!(feed(&mut c, msg("s1", vec![1])).is_empty());
    let out = c.take_outbound();
    assert_eq!(out.len(), 2);
    assert!(matches!(&out[1], Op::UNSUB(u) if u.sid == "s1" && u.max_msgs.is_none()));
}

#[test]
fn unsubscribe_unknown_sid() {
    let mut c = connected(options());
    assert!(c.unsubscribe(UnSubscribe { sid: "zz".to_string(), max_msgs: None }).is_empty());
    assert!(c.unsubscribe(UnSubscribe { sid: "zz".to_string(), max_msgs: Some(3) }).is_empty());
    assert_eq!(c.take_outbound().len(), 2);
}

#[test]
fn zero_budget_ends_at_once() {
    let mut c = connected(options());
    c.subscribe(sub("s1", "x"));
    let d = c.unsubscribe(UnSubscribe { sid: "s1".to_string(), max_msgs: Some(0) });
    assert_eq!(d.len(), 1);
    assert!(matches!(d[0].item, SinkMessage::MaxReached(0)));
    assert_eq!(c.subscription_count(), 0);
}

#[test]
fn request_reply() {
    let mut c = connected(options());
    let r = c.request("svc".to_string(), &[7, 8], "_INBOX.1".to_string(), "r1".to_string());
    assert_eq!(r, Ok(()));
    let out = c.take_outbound();
    assert_eq!(out.len(), 3);
    assert!(matches!(&out[0], Op::SUB(s) if s.sid == "r1" && s.subject == "_INBOX.1"));
    assert!(matches!(&out[1], Op::UNSUB(u) if u.sid == "r1" && u.max_msgs == Some(1)));
    assert!(matches!(&out[2], Op::PUB(p) if p.subject == "svc" && p.payload == vec![7, 8]
        && p.reply_to.as_deref() == Some("_INBOX.1")));
    let d = feed(&mut c, msg("r1", vec![42]));
    assert_eq!(d.len(), 2);
    assert!(matches!(&d[0].item, SinkMessage::Message(m) if m.payload == vec![42]));
    assert!(matches!(d[1].item, SinkMessage::MaxReached(1)));
    assert_eq!(c.subscription_count(), 0);
}

#[test]
fn request_overflow() {
    let mut c = client_with(options(), plain_url());
    feed(&mut c, info(1));
    c.take_outbound();
    let r = c.request("svc".to_string(), &[1, 2], "_INBOX.2".to_string(), "r2".to_string());
    assert_eq!(r, Err(RatsioError::MaxPayloadOverflow(1)));
    assert!(c.take_outbound().is_empty());
    assert_eq!(c.subscription_count(), 0);
}

#[test]
fn unknown_sid_is_dropped() {
    let mut c = connected(options());
    c.subscribe(sub("s1", "x"));
    assert!(feed(&mut c, msg("other", vec![1])).is_empty());
    let d = feed(&mut c, msg("s1", vec![1]));
    assert_eq!(d.len(), 1);
    assert_eq!(d[0].sid, "s1");
}

#[test]
fn info_learns_hosts() {
    let mut c = client_with(options(), plain_url());
    feed(
        &mut c,
        Op::INFO(ServerInfo { max_payload: 10, connect_urls: vec!["10.0.0.2:4222".to_string()], nonce: String::new() }),
    );
    let cands = c.connection().reconnect_candidates();
    assert_eq!(cands.len(), 2);
    assert_eq!(cands[0].host, "10.0.0.2");
    assert_eq!(cands[1].host, "127.0.0.1");
}

#[test]
fn connect_fields() {
    let mut opts = options();
    opts.auth_token = "tok".to_string();
    opts.name = String::new();
    opts.username = "cfg".to_string();
    opts.password = "cfgpass".to_string();
    let c = client_with(opts, plain_url());
    let k = c.generate_connect(&None);
    assert_eq!(k.auth_token.as_deref(), Some("tok"));
    assert_eq!(k.name, None);
    assert_eq!(k.user.as_deref(), Some("cfg"));
    assert_eq!(k.pass.as_deref(), Some("cfgpass"));
    assert_eq!(k.lang, "rust");
    assert_eq!(k.version, "0.2.0");
    assert_eq!(k.protocol, 1);
    assert!(k.echo);
    assert_eq!(k.jwt, None);
    assert_eq!(k.sig, None);
}

#[test]
fn connect_url_credentials_win() {
    let mut opts = options();
    opts.username = "cfg".to_string();
    opts.password = "cfgpass".to_string();
    let url = NodeUrl {
        host: Some("h".to_string()),
        port: None,
        username: "alice".to_string(),
        password: Some("secret".to_string()),
    };
    let k = client_with(opts, url).generate_connect(&None);
    assert_eq!(k.user.as_deref(), Some("alice"));
    assert_eq!(k.pass.as_deref(), Some("secret"));
}

#[test]
fn connect_signs_nonce() {
    let mut opts = options();
    opts.user_jwt = Some("the.jwt".to_string());
    let c = client_with(opts, plain_url());
    let k = c.generate_connect(&Some(Ok(vec![0xfb, 0xff])));
    assert_eq!(k.jwt.as_deref(), Some("the.jwt"));
    assert_eq!(k.sig.as_deref(), Some("-_8"));
    let k = c.generate_connect(&Some(Err("no key".to_string())));
    assert_eq!(k.jwt, None);
    assert_eq!(k.sig, None);
    let k = c.generate_connect(&None);
    assert_eq!(k.jwt, None);
    assert_eq!(k.sig, None);
}

#[test]
fn connect_without_jwt_ignores_signature() {
    let c = client_with(options(), plain_url());
    let k = c.generate_connect(&Some(Ok(vec![1, 2, 3])));
    assert_eq!(k.sig, None);
    assert_eq!(k.jwt, None);
}

#[test]
fn connect_step_decisions() {
    let mut opts = options();
    assert!(matches!(NatsClient::connect(options(), None), ConnectStep::Failed(RatsioError::NoRouteToHostError)));
    opts.ensure_connect = true;
    assert!(matches!(NatsClient::connect(opts, None), ConnectStep::RetryAfter(1000)));
    let conn = NatsConnection::create_connection(5, &vec!["a".to_string()], false, plain_url());
    match NatsClient::connect(options(), Some(conn)) {
        ConnectStep::Ready(c) => {
            assert_eq!(c.get_state(), NatsClientState::Connecting);
            assert_eq!(c.pings_outstanding(), 0);
            assert_eq!(c.subscription_count(), 0);
        }
        _ => panic!("expected a client"),
    }
}

#[test]
fn parse_uris_defaults() {
    let uris = vec![
        "127.0.0.1".to_string(),
        "nats://bob:pw@10.1.2.3:4333".to_string(),
        "demo.example.org:5000".to_string(),
    ];
    let eps = NatsConnection::parse_uris(&uris);
    assert_eq!(eps.len(), 3);
    assert_eq!(eps[0].host, "127.0.0.1");
    assert_eq!(eps[0].port, 4222);
    assert_eq!(eps[0].url.port, None);
    assert_eq!(eps[1].host, "10.1.2.3");
    assert_eq!(eps[1].port, 4333);
    assert_eq!(eps[1].url.username, "bob");
    assert_eq!(eps[1].url.password.as_deref(), Some("pw"));
    assert_eq!(eps[2].host, "demo.example.org");
    assert_eq!(eps[2].port, 5000);
}

#[test]
fn parse_uris_skips_bad_entries() {
    let uris = vec!["nats://bad host".to_string(), "nats://ok.example".to_string()];
    let eps = NatsConnection::parse_uris(&uris);
    assert_eq!(eps.len(), 1);
    assert_eq!(eps[0].host, "ok.example");
    assert!(NatsConnection::parse_uris(&vec![]).is_empty());
}

#[test]
fn registry_replace_and_remove() {
    let mut m = NatsClientMultiplexer::new();
    m.for_sid(sub("a", "x"));
    m.for_sid(sub("b", "y"));
    m.for_sid(sub("a", "z"));
    assert_eq!(m.len(), 2);
    let cmds = m.commands();
    assert!(cmds.iter().any(|c| c.sid == "a" && c.subject == "z"));
    m.remove_sid(&"a".to_string());
    assert!(!m.contains(&"a".to_string()));
    assert!(m.contains(&"b".to_string()));
    let d = m.close_all();
    assert_eq!(d.len(), 1);
    assert!(is_close(&d[0], "b"));
    assert_eq!(m.len(), 0);
}

#[test]
fn frames_during_reconnect_are_kept() {
    let mut c = connected(options());
    c.subscribe(sub("s1", "x"));
    assert_eq!(c.publish(Publish { subject: "early".to_string(), payload: vec![1], reply_to: None }), Ok(()));
    let v = c.connection().version();
    assert!(c.transport_failed(v));
    assert_eq!(c.publish(Publish { subject: "late".to_string(), payload: vec![2], reply_to: None }), Ok(()));
    assert!(!c.ping_tick());
    c.reconnected(plain_url());
    assert!(c.take_outbound().is_empty());
    feed(&mut c, info(100));
    let out = c.take_outbound();
    assert_eq!(out.len(), 4);
    assert!(matches!(out[0], Op::CONNECT(_)));
    assert!(matches!(&out[1], Op::PUB(p) if p.subject == "early"));
    assert!(matches!(&out[2], Op::PUB(p) if p.subject == "late"));
    assert!(matches!(&out[3], Op::SUB(s) if s.sid == "s1"));
}

#[test]
fn frames_from_replaced_transport_are_ignored() {
    let mut c = connected(options());
    c.subscribe(sub("s1", "x"));
    c.take_outbound();
    assert!(c.transport_failed(0));
    c.reconnected(plain_url());
    assert_eq!(c.connection().version(), 1);
    assert!(c.handle_frame(Op::PING, 0, None).is_empty());
    assert!(c.handle_frame(info(100), 0, None).is_empty());
    assert!(c.handle_frame(msg("s1", vec![1]), 0, None).is_empty());
    assert_eq!(c.get_state(), NatsClientState::Reconnecting);
    assert!(c.take_outbound().is_empty());
    assert_eq!(c.handle_frame(msg("s1", vec![1]), 1, None).len(), 1);
}

#[test]
fn candidate_walk() {
    assert_eq!(walk_start(0), WalkStep::Fail(RatsioError::NoRouteToHostError));
    assert_eq!(walk_start(2), WalkStep::Try(0));
    assert_eq!(walk_step(0, 2, false), WalkStep::Try(1));
    assert_eq!(walk_step(1, 2, false), WalkStep::Fail(RatsioError::NoRouteToHostError));
    assert_eq!(walk_step(1, 2, true), WalkStep::Done(1));
}
