use vstd::prelude::*;

use crate::ops::{Message, Subscribe};

verus! {

/// One registered subscription and its delivery accounting.
#[derive(Debug, Clone)]
pub struct SubscriptionSink {
    pub cmd: Subscribe,
    /// Number of messages after which the subscription ends, once set by an unsubscribe.
    pub max_count: Option<u64>,
    /// Messages delivered since `max_count` was set.
    pub count: u64,
}

/// An item pushed into a subscription's stream.
#[derive(Debug, Clone)]
pub enum SinkMessage {
    Message(Message),
    /// Terminal item: the subscription's message budget was used up.
    MaxReached(u64),
    /// Terminal item: the subscription was closed.
    CLOSE,
}

/// An item for the stream of subscription `sid`.
#[derive(Debug, Clone)]
pub struct Delivery {
    pub sid: String,
    pub item: SinkMessage,
}

/// The subscription registry: routes inbound messages to their subscription.
pub struct NatsClientMultiplexer {
    subs: Vec<SubscriptionSink>,
}

/// The registry's contents keyed by subscription id.
pub open spec fn sinks_map(s: Seq<SubscriptionSink>) -> Map<Seq<char>, SubscriptionSink> {
    Map::new(
        |k: Seq<char>| exists|i: int| 0 <= i < s.len() && s[i].cmd.sid@ == k,
        |k: Seq<char>| s[choose|i: int| 0 <= i < s.len() && s[i].cmd.sid@ == k],
    )
}

/// No two entries share a subscription id, and no entry has used up its budget.
pub open spec fn sinks_wf(s: Seq<SubscriptionSink>) -> bool {
    &&& forall|i: int, j: int|
        0 <= i < s.len() && 0 <= j < s.len() && i != j ==> s[i].cmd.sid@ != s[j].cmd.sid@
    &&& forall|i: int| 0 <= i < s.len() ==> sink_ok(#[trigger] s[i])
}

/// A sink with a budget has delivered fewer messages than the budget; one
/// without a budget has counted none.
pub open spec fn sink_ok(e: SubscriptionSink) -> bool {
    match e.max_count {
        Some(m) => e.count < m,
        None => e.count == 0,
    }
}

/// A fresh sink for `cmd`, with no budget.
pub open spec fn fresh_sink(cmd: Subscribe) -> SubscriptionSink {
    SubscriptionSink { cmd, max_count: None, count: 0 }
}

/// The registry after a message for `sid` is delivered.
pub open spec fn after_delivery(
    m: Map<Seq<char>, SubscriptionSink>,
    sid: Seq<char>,
) -> Map<Seq<char>, SubscriptionSink> {
    if !m.contains_key(sid) {
        m
    } else {
        let e = m[sid];
        match e.max_count {
            None => m,
            Some(n) => if e.count + 1 >= n {
                m.remove(sid)
            } else {
                m.insert(sid, SubscriptionSink { cmd: e.cmd, max_count: e.max_count, count: (e.count + 1) as u64 })
            },
        }
    }
}

/// The items pushed into the stream of `msg.sid` when `msg` arrives: nothing for an
/// unknown id; else the message, followed by the terminal item when it uses up the budget.
pub open spec fn delivered_items(m: Map<Seq<char>, SubscriptionSink>, msg: Message) -> Seq<
    SinkMessage,
> {
    let sid = msg.sid@;
    if !m.contains_key(sid) {
        Seq::empty()
    } else {
        match m[sid].max_count {
            Some(n) => if m[sid].count + 1 >= n {
                seq![SinkMessage::Message(msg), SinkMessage::MaxReached(n)]
            } else {
                seq![SinkMessage::Message(msg)]
            },
            None => seq![SinkMessage::Message(msg)],
        }
    }
}

/// The registry after an unsubscribe that sets a budget of `n` messages on `sid`.
pub open spec fn after_set_max(
    m: Map<Seq<char>, SubscriptionSink>,
    sid: Seq<char>,
    n: u64,
) -> Map<Seq<char>, SubscriptionSink> {
    if !m.contains_key(sid) {
        m
    } else if m[sid].count >= n {
        m.remove(sid)
    } else {
        m.insert(sid, SubscriptionSink { cmd: m[sid].cmd, max_count: Some(n), count: m[sid].count })
    }
}

/// Whether `r` holds, for the stream `sid`, exactly the items `items`.
pub open spec fn deliveries_are(r: Seq<Delivery>, sid: Seq<char>, items: Seq<SinkMessage>) -> bool {
    &&& r.len() == items.len()
    &&& forall|i: int| 0 <= i < r.len() ==> r[i].sid@ == sid && r[i].item == items[i]
}

/// The items produced when `msgs` arrive one after the other.
pub open spec fn deliver_all(m: Map<Seq<char>, SubscriptionSink>, msgs: Seq<Message>) -> Seq<
    SinkMessage,
>
    decreases msgs.len(),
{
    if msgs.len() == 0 {
        Seq::empty()
    } else {
        delivered_items(m, msgs[0]) + deliver_all(after_delivery(m, msgs[0].sid@), msgs.drop_first())
    }
}

/// Messages wrapped as stream items.
pub open spec fn as_items(msgs: Seq<Message>) -> Seq<SinkMessage> {
    msgs.map_values(|x: Message| SinkMessage::Message(x))
}

/// A message reaches a stream only through the subscription registered under
/// the message's own subscription id.
pub proof fn lemma_delivery_matches_sid(m: Map<Seq<char>, SubscriptionSink>, msg: Message)
    ensures
        delivered_items(m, msg).len() > 0 ==> m.contains_key(msg.sid@),
        forall|i: int| 0 <= i < delivered_items(m, msg).len() ==>
            match #[trigger] delivered_items(m, msg)[i] {
                SinkMessage::Message(x) => x == msg && x.sid@ == msg.sid@ && m.contains_key(x.sid@),
                SinkMessage::MaxReached(n) => m[msg.sid@].max_count == Some(n),
                SinkMessage::CLOSE => false,
            },
{
}

proof fn lemma_unknown_sid_silent(m: Map<Seq<char>, SubscriptionSink>, sid: Seq<char>, msgs: Seq<Message>)
    requires
        !m.contains_key(sid),
        forall|i: int| 0 <= i < msgs.len() ==> (#[trigger] msgs[i]).sid@ == sid,
    ensures
        deliver_all(m, msgs) == Seq::<SinkMessage>::empty(),
    decreases msgs.len(),
{
    if msgs.len() > 0 {
        let rest = msgs.drop_first();
        assert forall|i: int| 0 <= i < rest.len() implies (#[trigger] rest[i]).sid@ == sid by {
            assert(rest[i] == msgs[i + 1]);
        }
        lemma_unknown_sid_silent(m, sid, rest);
        assert(delivered_items(m, msgs[0]) =~= Seq::<SinkMessage>::empty());
        assert(deliver_all(m, msgs) =~= Seq::<SinkMessage>::empty());
    }
}

/// A subscription with a budget of `n` messages, `c` of them already counted,
/// passes on at most `n - c` further messages: exactly the first ones, then
/// ends with `MaxReached(n)` once the budget is used up; later messages are dropped.
pub proof fn lemma_budget(m: Map<Seq<char>, SubscriptionSink>, sid: Seq<char>, msgs: Seq<Message>)
    requires
        m.contains_key(sid),
        m[sid].max_count is Some,
        sink_ok(m[sid]),
        forall|i: int| 0 <= i < msgs.len() ==> (#[trigger] msgs[i]).sid@ == sid,
    ensures
        ({
            let n = m[sid].max_count->0;
            let b = n - m[sid].count;
            deliver_all(m, msgs) == if msgs.len() >= b {
                as_items(msgs.take(b)) + seq![SinkMessage::MaxReached(n)]
            } else {
                as_items(msgs)
            }
        }),
    decreases msgs.len(),
{
    let n = m[sid].max_count->0;
    let c = m[sid].count;
    let b = n - c;
    if msgs.len() == 0 {
        assert(as_items(msgs) =~= Seq::<SinkMessage>::empty());
    } else {
        let rest = msgs.drop_first();
        assert forall|i: int| 0 <= i < rest.len() implies (#[trigger] rest[i]).sid@ == sid by {
            assert(rest[i] == msgs[i + 1]);
        }
        let m2 = after_delivery(m, sid);
        if c + 1 >= n {
            assert(m2 == m.remove(sid));
            lemma_unknown_sid_silent(m2, sid, rest);
            assert(b == 1);
            assert(as_items(msgs.take(1)) =~= seq![SinkMessage::Message(msgs[0])]);
            assert(deliver_all(m, msgs) =~= seq![SinkMessage::Message(msgs[0]), SinkMessage::MaxReached(n)]);
        } else {
            assert(m2[sid].count == c + 1);
            lemma_budget(m2, sid, rest);
            if msgs.len() >= b {
                assert(as_items(msgs.take(b)) =~= seq![SinkMessage::Message(msgs[0])] + as_items(rest.take(b - 1)));
                assert(deliver_all(m, msgs) =~= as_items(msgs.take(b)) + seq![SinkMessage::MaxReached(n)]);
            } else {
                assert(as_items(msgs) =~= seq![SinkMessage::Message(msgs[0])] + as_items(rest));
            }
        }
    }
}

/// Subscribing and then unsubscribing without a budget leaves the registry as
/// it was without that id, and the stream receives `CLOSE`.
pub proof fn lemma_subscribe_unsubscribe(m: Map<Seq<char>, SubscriptionSink>, cmd: Subscribe)
    ensures
        m.insert(cmd.sid@, fresh_sink(cmd)).contains_key(cmd.sid@),
        m.insert(cmd.sid@, fresh_sink(cmd)).remove(cmd.sid@) == m.remove(cmd.sid@),
        !m.contains_key(cmd.sid@) ==> m.insert(cmd.sid@, fresh_sink(cmd)).remove(cmd.sid@) == m,
{
    assert(m.insert(cmd.sid@, fresh_sink(cmd)).remove(cmd.sid@) =~= m.remove(cmd.sid@));
    if !m.contains_key(cmd.sid@) {
        assert(m.remove(cmd.sid@) =~= m);
    }
}

proof fn lemma_map_at(s: Seq<SubscriptionSink>, i: int)
    requires
        sinks_wf(s),
        0 <= i < s.len(),
    ensures
        sinks_map(s).contains_key(s[i].cmd.sid@),
        sinks_map(s)[s[i].cmd.sid@] == s[i],
{
    let k = s[i].cmd.sid@;
    assert(exists|j: int| 0 <= j < s.len() && s[j].cmd.sid@ == k);
    let j = choose|j: int| 0 <= j < s.len() && s[j].cmd.sid@ == k;
    assert(j == i);
}

proof fn lemma_map_update(s: Seq<SubscriptionSink>, i: int, x: SubscriptionSink)
    requires
        sinks_wf(s),
        0 <= i < s.len(),
        x.cmd.sid@ == s[i].cmd.sid@,
        sink_ok(x),
    ensures
        sinks_wf(s.update(i, x)),
        sinks_map(s.update(i, x)) == sinks_map(s).insert(x.cmd.sid@, x),
{
    let t = s.update(i, x);
    assert(sinks_wf(t));
    lemma_map_at(t, i);
    assert forall|k: Seq<char>| #[trigger] sinks_map(t).contains_key(k) implies
        sinks_map(s).insert(x.cmd.sid@, x).contains_key(k) && sinks_map(t)[k]
            == sinks_map(s).insert(x.cmd.sid@, x)[k] by {
        let j = choose|j: int| 0 <= j < t.len() && t[j].cmd.sid@ == k;
        lemma_map_at(t, j);
        if j != i {
            lemma_map_at(s, j);
        }
    }
    assert forall|k: Seq<char>| #[trigger] sinks_map(s).insert(x.cmd.sid@, x).contains_key(k)
        implies sinks_map(t).contains_key(k) by {
        if k != x.cmd.sid@ {
            let j = choose|j: int| 0 <= j < s.len() && s[j].cmd.sid@ == k;
            assert(t[j].cmd.sid@ == k);
        }
    }
    assert(sinks_map(t) =~= sinks_map(s).insert(x.cmd.sid@, x));
}

proof fn lemma_map_push(s: Seq<SubscriptionSink>, x: SubscriptionSink)
    requires
        sinks_wf(s),
        !sinks_map(s).contains_key(x.cmd.sid@),
        sink_ok(x),
    ensures
        sinks_wf(s.push(x)),
        sinks_map(s.push(x)) == sinks_map(s).insert(x.cmd.sid@, x),
{
    let t = s.push(x);
    assert forall|i: int, j: int|
        0 <= i < t.len() && 0 <= j < t.len() && i != j implies t[i].cmd.sid@ != t[j].cmd.sid@ by {
        if i < s.len() && j < s.len() {
        } else if i < s.len() {
            assert(sinks_map(s).contains_key(s[i].cmd.sid@));
        } else {
            assert(sinks_map(s).contains_key(s[j].cmd.sid@));
        }
    }
    assert(sinks_wf(t));
    assert forall|k: Seq<char>| #[trigger] sinks_map(t).contains_key(k) implies
        sinks_map(s).insert(x.cmd.sid@, x).contains_key(k) && sinks_map(t)[k]
            == sinks_map(s).insert(x.cmd.sid@, x)[k] by {
        let j = choose|j: int| 0 <= j < t.len() && t[j].cmd.sid@ == k;
        lemma_map_at(t, j);
        if j < s.len() {
            lemma_map_at(s, j);
        }
    }
    assert forall|k: Seq<char>| #[trigger] sinks_map(s).insert(x.cmd.sid@, x).contains_key(k)
        implies sinks_map(t).contains_key(k) by {
        if k != x.cmd.sid@ {
            let j = choose|j: int| 0 <= j < s.len() && s[j].cmd.sid@ == k;
            assert(t[j].cmd.sid@ == k);
        } else {
            assert(t[s.len() as int].cmd.sid@ == k);
        }
    }
    assert(sinks_map(t) =~= sinks_map(s).insert(x.cmd.sid@, x));
}

proof fn lemma_map_remove(s: Seq<SubscriptionSink>, i: int)
    requires
        sinks_wf(s),
        0 <= i < s.len(),
    ensures
        sinks_wf(s.remove(i)),
        sinks_map(s.remove(i)) == sinks_map(s).remove(s[i].cmd.sid@),
{
    let t = s.remove(i);
    let key = s[i].cmd.sid@;
    assert forall|a: int, b: int|
        0 <= a < t.len() && 0 <= b < t.len() && a != b implies t[a].cmd.sid@ != t[b].cmd.sid@ by {
        let a2 = if a < i { a } else { a + 1 };
        let b2 = if b < i { b } else { b + 1 };
        assert(t[a] == s[a2]);
        assert(t[b] == s[b2]);
    }
    assert forall|a: int| 0 <= a < t.len() implies sink_ok(#[trigger] t[a]) by {
        let a2 = if a < i { a } else { a + 1 };
        assert(t[a] == s[a2]);
    }
    assert(sinks_wf(t));
    assert forall|k: Seq<char>| #[trigger] sinks_map(t).contains_key(k) implies
        sinks_map(s).remove(key).contains_key(k) && sinks_map(t)[k] == sinks_map(s).remove(key)[k] by {
        let j = choose|j: int| 0 <= j < t.len() && t[j].cmd.sid@ == k;
        lemma_map_at(t, j);
        let j2 = if j < i { j } else { j + 1 };
        assert(t[j] == s[j2]);
        lemma_map_at(s, j2);
    }
    assert forall|k: Seq<char>| #[trigger] sinks_map(s).remove(key).contains_key(k)
        implies sinks_map(t).contains_key(k) by {
        let j = choose|j: int| 0 <= j < s.len() && s[j].cmd.sid@ == k;
        let j2 = if j < i { j } else { j - 1 };
        assert(t[j2] == s[j]);
    }
    assert(sinks_map(t) =~= sinks_map(s).remove(key));
}

impl NatsClientMultiplexer {
    /// The registry keyed by subscription id.
    pub closed spec fn view(&self) -> Map<Seq<char>, SubscriptionSink> {
        sinks_map(self.subs@)
    }

    pub closed spec fn wf(&self) -> bool {
        sinks_wf(self.subs@)
    }

    /// An empty registry.
    pub fn new() -> (r: Self)
        ensures
            r.wf(),
            r@ == Map::<Seq<char>, SubscriptionSink>::empty(),
    {
        let r = NatsClientMultiplexer { subs: Vec::new() };
        assert(r@ =~= Map::<Seq<char>, SubscriptionSink>::empty());
        r
    }

    fn find(&self, sid: &String) -> (r: Option<usize>)
        requires
            self.wf(),
        ensures
            match r {
                Some(i) => i < self.subs@.len() && self.subs@[i as int].cmd.sid@ == sid@,
                None => !self@.contains_key(sid@),
            },
    {
        let mut i: usize = 0;
        while i < self.subs.len()
            invariant
                i <= self.subs@.len(),
                forall|j: int| 0 <= j < i ==> self.subs@[j].cmd.sid@ != sid@,
            decreases self.subs@.len() - i,
        {
            if self.subs[i].cmd.sid == *sid {
                return Some(i);
            }
            i = i + 1;
        }
        None
    }

    /// Whether a subscription with this id is registered.
    pub fn contains(&self, sid: &String) -> (r: bool)
        requires
            self.wf(),
        ensures
            r == self@.contains_key(sid@),
    {
        match self.find(sid) {
            Some(i) => {
                proof {
                    lemma_map_at(self.subs@, i as int);
                }
                true
            },
            None => false,
        }
    }

    /// Number of registered subscriptions.
    pub fn len(&self) -> (r: usize)
        requires
            self.wf(),
        ensures
            r == self@.len(),
    {
        proof {
            self.lemma_len();
        }
        self.subs.len()
    }

    proof fn lemma_len(&self)
        requires
            self.wf(),
        ensures
            self@.dom().len() == self.subs@.len(),
        decreases self.subs@.len(),
    {
        let s = self.subs@;
        let f = |i: int| s[i].cmd.sid@;
        assert forall|i: int| 0 <= i < s.len() implies self@.contains_key(#[trigger] f(i)) by {
            lemma_map_at(s, i);
        }
        let idx = Set::new(|i: int| 0 <= i < s.len());
        assert(idx =~= vstd::set_lib::set_int_range(0, s.len() as int));
        vstd::set_lib::lemma_int_range(0, s.len() as int);
        assert forall|a: int, b: int| idx.contains(a) && idx.contains(b) && #[trigger] f(a) == #[trigger] f(b)
            implies a == b by {}
        vstd::set_lib::lemma_map_size(idx, idx.map(f), f);
        assert(idx.map(f) =~= self@.dom()) by {
            assert forall|k: Seq<char>| self@.dom().contains(k) implies idx.map(f).contains(k) by {
                let j = choose|j: int| 0 <= j < s.len() && s[j].cmd.sid@ == k;
                assert(idx.contains(j) && f(j) == k);
            }
        }
    }

    /// Registers a fresh sink for `cmd`, replacing any entry with the same id.
    pub fn for_sid(&mut self, cmd: Subscribe)
        requires
            old(self).wf(),
        ensures
            final(self).wf(),
            final(self)@ == old(self)@.insert(cmd.sid@, fresh_sink(cmd)),
    {
        let sink = SubscriptionSink { cmd, max_count: None, count: 0 };
        match self.find(&sink.cmd.sid) {
            Some(i) => {
                proof {
                    lemma_map_update(self.subs@, i as int, sink);
                }
                self.subs.set(i, sink);
            },
            None => {
                proof {
                    lemma_map_push(self.subs@, sink);
                }
                self.subs.push(sink);
            },
        }
    }

    /// Drops the entry for `sid`, if any.
    pub fn remove_sid(&mut self, sid: &String)
        requires
            old(self).wf(),
        ensures
            final(self).wf(),
            final(self)@ == old(self)@.remove(sid@),
    {
        match self.find(sid) {
            Some(i) => {
                proof {
                    lemma_map_remove(self.subs@, i as int);
                }
                self.subs.remove(i);
            },
            None => {
                assert(self@ =~= old(self)@.remove(sid@));
            },
        }
    }
    /// Routes `msg` to its subscription and does the budget accounting.
    pub fn deliver(&mut self, msg: Message) -> (r: Vec<Delivery>)
        requires
            old(self).wf(),
        ensures
            final(self).wf(),
            final(self)@ == after_delivery(old(self)@, msg.sid@),
            deliveries_are(r@, msg.sid@, delivered_items(old(self)@, msg)),
    {
        let ghost m0 = self@;
        let ghost msg0 = msg;
        match self.find(&msg.sid) {
            None => Vec::new(),
            Some(i) => {
                proof {
                    lemma_map_at(self.subs@, i as int);
                }
                let sid = msg.sid.clone();
                let mut r: Vec<Delivery> = Vec::new();
                r.push(Delivery { sid: msg.sid.clone(), item: SinkMessage::Message(msg) });
                match self.subs[i].max_count {
                    None => {},
                    Some(n) => {
                        let c = self.subs[i].count + 1;
                        if c >= n {
                            proof {
                                lemma_map_remove(self.subs@, i as int);
                            }
                            self.subs.remove(i);
                            r.push(Delivery { sid, item: SinkMessage::MaxReached(n) });
                        } else {
                            let e = SubscriptionSink {
                                cmd: self.subs[i].cmd.copy(),
                                max_count: Some(n),
                                count: c,
                            };
                            proof {
                                lemma_map_update(self.subs@, i as int, e);
                            }
                            self.subs.set(i, e);
                        }
                    },
                }
                assert(deliveries_are(r@, msg0.sid@, delivered_items(m0, msg0)));
                r
            },
        }
    }

    /// Records a budget of `n` messages on `sid`; ends the subscription at once when
    /// the messages already counted use it up. Nothing happens for an unknown id.
    pub fn set_max(&mut self, sid: &String, n: u64) -> (r: Vec<Delivery>)
        requires
            old(self).wf(),
        ensures
            final(self).wf(),
            final(self)@ == after_set_max(old(self)@, sid@, n),
            deliveries_are(
                r@,
                sid@,
                if old(self)@.contains_key(sid@) && old(self)@[sid@].count >= n {
                    seq![SinkMessage::MaxReached(n)]
                } else {
                    Seq::empty()
                },
            ),
    {
        let mut r: Vec<Delivery> = Vec::new();
        match self.find(sid) {
            None => {},
            Some(i) => {
                proof {
                    lemma_map_at(self.subs@, i as int);
                }
                if self.subs[i].count >= n {
                    proof {
                        lemma_map_remove(self.subs@, i as int);
                    }
                    self.subs.remove(i);
                    r.push(Delivery { sid: sid.clone(), item: SinkMessage::MaxReached(n) });
                } else {
                    let e = SubscriptionSink {
                        cmd: self.subs[i].cmd.copy(),
                        max_count: Some(n),
                        count: self.subs[i].count,
                    };
                    proof {
                        lemma_map_update(self.subs@, i as int, e);
                    }
                    self.subs.set(i, e);
                }
            },
        }
        r
    }

    /// Ends every subscription: one `CLOSE` per registered id, and the registry empties.
    pub fn close_all(&mut self) -> (r: Vec<Delivery>)
        requires
            old(self).wf(),
        ensures
            final(self).wf(),
            final(self)@ == Map::<Seq<char>, SubscriptionSink>::empty(),
            r@.len() == old(self)@.len(),
            forall|i: int| 0 <= i < r@.len() ==> #[trigger] r@[i].item is CLOSE,
            forall|i: int| 0 <= i < r@.len() ==> old(self)@.contains_key(#[trigger] r@[i].sid@),
            forall|k: Seq<char>| #[trigger] old(self)@.contains_key(k) ==> exists|i: int|
                0 <= i < r@.len() && r@[i].sid@ == k,
            forall|i: int, j: int|
                0 <= i < r@.len() && 0 <= j < r@.len() && i != j ==> r@[i].sid@ != r@[j].sid@,
    {
        proof {
            self.lemma_len();
        }
        let mut r: Vec<Delivery> = Vec::new();
        let mut i: usize = 0;
        while i < self.subs.len()
            invariant
                i <= self.subs@.len(),
                r@.len() == i,
                forall|j: int| 0 <= j < i ==> r@[j].item is CLOSE && r@[j].sid@ == self.subs@[j].cmd.sid@,
            decreases self.subs@.len() - i,
        {
            r.push(Delivery { sid: self.subs[i].cmd.sid.clone(), item: SinkMessage::CLOSE });
            i = i + 1;
        }
        proof {
            let s = self.subs@;
            assert forall|j: int| 0 <= j < r@.len() implies old(self)@.contains_key(#[trigger] r@[j].sid@) by {
                lemma_map_at(s, j);
            }
            assert forall|k: Seq<char>| #[trigger] old(self)@.contains_key(k) implies exists|j: int|
                0 <= j < r@.len() && r@[j].sid@ == k by {
                let j = choose|j: int| 0 <= j < s.len() && s[j].cmd.sid@ == k;
                assert(r@[j].sid@ == k);
            }
        }
        self.subs = Vec::new();
        assert(self@ =~= Map::<Seq<char>, SubscriptionSink>::empty());
        r
    }

    /// The subscribe commands of every registered subscription.
    pub fn commands(&self) -> (r: Vec<Subscribe>)
        requires
            self.wf(),
        ensures
            r@.len() == self@.len(),
            forall|i: int| 0 <= i < r@.len() ==> self@.contains_key(#[trigger] r@[i].sid@)
                && self@[r@[i].sid@].cmd == r@[i],
            forall|k: Seq<char>| #[trigger] self@.contains_key(k) ==> exists|i: int|
                0 <= i < r@.len() && r@[i].sid@ == k,
    {
        proof {
            self.lemma_len();
        }
        let mut r: Vec<Subscribe> = Vec::new();
        let mut i: usize = 0;
        while i < self.subs.len()
            invariant
                i <= self.subs@.len(),
                r@.len() == i,
                forall|j: int| 0 <= j < i ==> r@[j] == self.subs@[j].cmd,
            decreases self.subs@.len() - i,
        {
            r.push(self.subs[i].cmd.copy());
            i = i + 1;
        }
        proof {
            let s = self.subs@;
            assert forall|j: int| 0 <= j < r@.len() implies self@.contains_key(#[trigger] r@[j].sid@)
                && self@[r@[j].sid@].cmd == r@[j] by {
                lemma_map_at(s, j);
            }
            assert forall|k: Seq<char>| #[trigger] self@.contains_key(k) implies exists|j: int|
                0 <= j < r@.len() && r@[j].sid@ == k by {
                let j = choose|j: int| 0 <= j < s.len() && s[j].cmd.sid@ == k;
                assert(r@[j].sid@ == k);
            }
        }
        r
    }
}

} // verus!
