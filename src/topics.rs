use vstd::prelude::*;

use crate::channel::{deliver, DeliveryChannel};
use crate::error::HeaderError;
use crate::message::{msg_bytes, response_msg_of, Msg, MsgModel};
use crate::pkt::PktType;
use crate::routing::{request_of, step, step_targets};
use crate::text::{
    decimal, decimal_string, json_object, json_object_string, json_quote, json_string,
    string_bytes,
};
use vstd::utf8::encode_utf8;

verus! {

/// One subscription of a topic: the subscribing connection's id and the
/// channel through which the router reaches it.
pub struct Subscriber {
    pub client_id: String,
    pub channel: DeliveryChannel,
}

/// A topic and its subscribers, in the order in which they subscribed.
pub struct TopicEntry {
    pub topic: String,
    pub subscribers: Vec<Subscriber>,
}

/// The router's state: each topic that has subscribers, in the order in which
/// it got its first one, with its subscribers. A topic whose last subscriber
/// leaves is dropped at once, so no empty topic is ever kept or listed.
pub struct TopicMap {
    pub map: Vec<TopicEntry>,
}

/// One delivery that the router tried: to whom, which frame, and whether the
/// channel took it.
pub struct Attempt {
    pub client_id: String,
    pub frame: Vec<u8>,
    pub delivered: bool,
}

/// Subscribers as (client id, channel) pairs.
pub type SubsView = Seq<(Seq<char>, DeliveryChannel)>;

/// Topics with their subscribers.
pub type TopicsView = Seq<(Seq<char>, SubsView)>;

impl View for Subscriber {
    type V = (Seq<char>, DeliveryChannel);

    open spec fn view(&self) -> (Seq<char>, DeliveryChannel) {
        (self.client_id@, self.channel)
    }
}

impl View for TopicEntry {
    type V = (Seq<char>, SubsView);

    open spec fn view(&self) -> (Seq<char>, SubsView) {
        (self.topic@, self.subscribers@.map_values(|s: Subscriber| s@))
    }
}

impl View for TopicMap {
    type V = TopicsView;

    open spec fn view(&self) -> TopicsView {
        self.map@.map_values(|e: TopicEntry| e@)
    }
}

impl View for Attempt {
    type V = (Seq<char>, Seq<u8>, bool);

    open spec fn view(&self) -> (Seq<char>, Seq<u8>, bool) {
        (self.client_id@, self.frame@, self.delivered)
    }
}

/// No two subscribers share a client id.
pub open spec fn ids_distinct(s: SubsView) -> bool {
    forall|a: int, b: int| 0 <= a < b < s.len() ==> s[a].0 != s[b].0
}

/// Topics are unique, and each one listed has at least one subscriber, none twice.
pub open spec fn topics_wf(v: TopicsView) -> bool {
    &&& forall|i: int, j: int| 0 <= i < j < v.len() ==> v[i].0 != v[j].0
    &&& forall|i: int| 0 <= i < v.len() ==> v[i].1.len() > 0 && ids_distinct(#[trigger] v[i].1)
}

/// Topic `t` is listed.
pub open spec fn has_topic(v: TopicsView, t: Seq<char>) -> bool {
    exists|i: int| 0 <= i < v.len() && v[i].0 == t
}

/// Where topic `t` is listed.
pub open spec fn topic_pos(v: TopicsView, t: Seq<char>) -> int {
    choose|i: int| 0 <= i < v.len() && v[i].0 == t
}

/// The subscribers of topic `t`, in the order in which they subscribed.
pub open spec fn subscribers(v: TopicsView, t: Seq<char>) -> SubsView {
    if has_topic(v, t) {
        v[topic_pos(v, t)].1
    } else {
        Seq::empty()
    }
}

/// The client ids of the subscribers of topic `t`, in order.
pub open spec fn subscriber_ids(v: TopicsView, t: Seq<char>) -> Seq<Seq<char>> {
    subscribers(v, t).map_values(|p: (Seq<char>, DeliveryChannel)| p.0)
}

/// The number of subscribers of topic `t`.
pub open spec fn subscriber_count(v: TopicsView, t: Seq<char>) -> nat {
    subscribers(v, t).len()
}

/// Client `c` is subscribed to topic `t`.
pub open spec fn is_subscribed(v: TopicsView, t: Seq<char>, c: Seq<char>) -> bool {
    subscriber_ids(v, t).contains(c)
}

/// Where client `c` stands among subscribers `s`.
pub open spec fn client_pos(s: SubsView, c: Seq<char>) -> int {
    choose|j: int| 0 <= j < s.len() && s[j].0 == c
}

/// The state after client `c` subscribes to topic `t` through channel `ch`:
/// a client already subscribed keeps its first channel.
pub open spec fn after_subscribe(
    v: TopicsView,
    t: Seq<char>,
    c: Seq<char>,
    ch: DeliveryChannel,
) -> TopicsView {
    if !has_topic(v, t) {
        v.push((t, seq![(c, ch)]))
    } else if is_subscribed(v, t, c) {
        v
    } else {
        v.update(topic_pos(v, t), (t, subscribers(v, t).push((c, ch))))
    }
}

/// Topic `t` with subscribers `s`, or no entry when `s` is empty.
pub open spec fn with_subscribers(v: TopicsView, t: Seq<char>, s: SubsView) -> TopicsView {
    if s.len() == 0 {
        v.remove(topic_pos(v, t))
    } else {
        v.update(topic_pos(v, t), (t, s))
    }
}

/// The state after client `c` unsubscribes from topic `t`; a topic left
/// without subscribers is dropped.
pub open spec fn after_unsubscribe(v: TopicsView, t: Seq<char>, c: Seq<char>) -> TopicsView {
    if is_subscribed(v, t, c) {
        with_subscribers(
            v,
            t,
            subscribers(v, t).remove(client_pos(subscribers(v, t), c)),
        )
    } else {
        v
    }
}

/// The subscribers of `s` whose flag in `f` is set, in order.
pub open spec fn retain(s: SubsView, f: Seq<bool>) -> SubsView
    decreases s.len(),
{
    if s.len() == 0 || f.len() == 0 {
        Seq::empty()
    } else {
        retain(s.drop_last(), f.drop_last()) + if f.last() {
            seq![s.last()]
        } else {
            Seq::empty()
        }
    }
}

/// The state after a publish to topic `t` whose deliveries succeeded as `f`
/// says, subscriber by subscriber: those whose delivery failed are gone.
pub open spec fn after_publish(v: TopicsView, t: Seq<char>, f: Seq<bool>) -> TopicsView {
    if has_topic(v, t) {
        with_subscribers(v, t, retain(subscribers(v, t), f))
    } else {
        v
    }
}

/// The delivery flags of attempts `a`.
pub open spec fn flags_of(a: Seq<(Seq<char>, Seq<u8>, bool)>) -> Seq<bool> {
    a.map_values(|x: (Seq<char>, Seq<u8>, bool)| x.2)
}

/// The client ids of attempts `a`.
pub open spec fn targets_of(a: Seq<(Seq<char>, Seq<u8>, bool)>) -> Seq<Seq<char>> {
    a.map_values(|x: (Seq<char>, Seq<u8>, bool)| x.0)
}

/// The line that lists topic entry `e` in the answer to a query of all topics.
pub open spec fn topic_line(e: (Seq<char>, SubsView)) -> Seq<char> {
    e.0 + seq![':', ' '] + decimal(e.1.len())
}

/// The answer to a query of topic `t`: for `*`, every listed topic with its
/// subscriber count; otherwise the subscriber count of `t` (0 when unknown).
pub open spec fn query_body(v: TopicsView, t: Seq<char>) -> Seq<char> {
    if t == all_topics() {
        json_object(json_string(t), v.map_values(|e: (Seq<char>, SubsView)| json_string(topic_line(e))))
    } else {
        json_object(json_string(t), seq![json_string(decimal(subscriber_count(v, t)))])
    }
}

/// The topics that a query of all topics lists, in order.
pub open spec fn listed_topics(v: TopicsView) -> Seq<Seq<char>> {
    v.map_values(|e: (Seq<char>, SubsView)| e.0)
}

/// The response that answers query `m` in state `v`.
pub open spec fn query_response(v: TopicsView, m: MsgModel) -> Result<MsgModel, HeaderError> {
    response_msg_of(m, encode_utf8(query_body(v, m.topic)))
}

/// The client id that `msg` carries, or the empty id.
pub open spec fn sender_id(msg: Msg) -> Seq<char> {
    match msg.client_id {
        Some(c) => c@,
        None => Seq::empty(),
    }
}

/// The topic `*`, which a query uses to ask for all topics.
pub open spec fn all_topics() -> Seq<char> {
    seq!['*']
}

/// In a well-formed state the topic at `i` is found there.
pub proof fn lemma_topic_pos(v: TopicsView, t: Seq<char>, i: int)
    requires
        topics_wf(v),
        0 <= i < v.len(),
        v[i].0 == t,
    ensures
        has_topic(v, t),
        topic_pos(v, t) == i,
        subscribers(v, t) == v[i].1,
{
    assert(has_topic(v, t));
    let p = topic_pos(v, t);
    if p != i {
        if p < i {
            assert(v[p].0 != v[i].0);
        } else {
            assert(v[i].0 != v[p].0);
        }
    }
}

/// Among distinct ids the client at `j` is found there.
pub proof fn lemma_client_pos(s: SubsView, c: Seq<char>, j: int)
    requires
        ids_distinct(s),
        0 <= j < s.len(),
        s[j].0 == c,
    ensures
        client_pos(s, c) == j,
{
    let p = client_pos(s, c);
    assert(0 <= p < s.len() && s[p].0 == c);
    if p != j {
        if p < j {
            assert(s[p].0 != s[j].0);
        } else {
            assert(s[j].0 != s[p].0);
        }
    }
}

/// Client `c` is among subscribers `s` exactly when some position holds it.
pub proof fn lemma_ids_contains(s: SubsView, c: Seq<char>)
    ensures
        s.map_values(|p: (Seq<char>, DeliveryChannel)| p.0).contains(c) <==> exists|j: int|
            0 <= j < s.len() && s[j].0 == c,
{
    let ids = s.map_values(|p: (Seq<char>, DeliveryChannel)| p.0);
    if ids.contains(c) {
        let j = choose|j: int| 0 <= j < ids.len() && ids[j] == c;
        assert(s[j].0 == c);
    }
    if exists|j: int| 0 <= j < s.len() && s[j].0 == c {
        let j = choose|j: int| 0 <= j < s.len() && s[j].0 == c;
        assert(ids[j] == c);
    }
}

/// What `retain` keeps was in `s`, and its length counts the set flags.
pub proof fn lemma_retain_subset(s: SubsView, f: Seq<bool>)
    ensures
        forall|x| #[trigger] retain(s, f).contains(x) ==> s.contains(x),
        retain(s, f).len() <= s.len(),
    decreases s.len(),
{
    if s.len() == 0 || f.len() == 0 {
    } else {
        lemma_retain_subset(s.drop_last(), f.drop_last());
        let r = retain(s, f);
        let r0 = retain(s.drop_last(), f.drop_last());
        assert forall|x| #[trigger] r.contains(x) implies s.contains(x) by {
            let k = choose|k: int| 0 <= k < r.len() && r[k] == x;
            if k < r0.len() {
                assert(r0[k] == x);
                assert(r0.contains(x));
                let m = choose|m: int| 0 <= m < s.drop_last().len() && s.drop_last()[m] == x;
                assert(s[m] == x);
            } else {
                assert(x == s.last());
                assert(s[s.len() - 1] == x);
            }
        }
    }
}

/// `retain` keeps ids distinct.
pub proof fn lemma_retain_distinct(s: SubsView, f: Seq<bool>)
    requires
        ids_distinct(s),
    ensures
        ids_distinct(retain(s, f)),
    decreases s.len(),
{
    if s.len() == 0 || f.len() == 0 {
    } else {
        let s0 = s.drop_last();
        assert(ids_distinct(s0));
        lemma_retain_distinct(s0, f.drop_last());
        lemma_retain_subset(s0, f.drop_last());
        let r0 = retain(s0, f.drop_last());
        let r = retain(s, f);
        if f.last() {
            assert forall|a: int, b: int| 0 <= a < b < r.len() implies r[a].0 != r[b].0 by {
                if b == r.len() - 1 {
                    assert(r0.contains(r[a]));
                    let m = choose|m: int| 0 <= m < s0.len() && s0[m] == r[a];
                    assert(s[m].0 != s[s.len() - 1].0);
                } else {
                    assert(r0[a] == r[a] && r0[b] == r[b]);
                }
            }
        } else {
            assert(r =~= r0);
        }
    }
}

/// A subscriber whose delivery failed is not kept.
pub proof fn lemma_retain_drops(s: SubsView, f: Seq<bool>, j: int)
    requires
        ids_distinct(s),
        f.len() == s.len(),
        0 <= j < s.len(),
        !f[j],
    ensures
        !retain(s, f).map_values(|p: (Seq<char>, DeliveryChannel)| p.0).contains(s[j].0),
    decreases s.len(),
{
    let r = retain(s, f);
    lemma_ids_contains(r, s[j].0);
    let s0 = s.drop_last();
    let f0 = f.drop_last();
    let r0 = retain(s0, f0);
    lemma_retain_subset(s0, f0);
    if j == s.len() - 1 {
        assert(r =~= r0);
        if exists|k: int| 0 <= k < r.len() && r[k].0 == s[j].0 {
            let k = choose|k: int| 0 <= k < r.len() && r[k].0 == s[j].0;
            assert(r0.contains(r[k]));
            let m = choose|m: int| 0 <= m < s0.len() && s0[m] == r[k];
            assert(s[m].0 != s[j].0);
        }
    } else {
        assert(ids_distinct(s0));
        lemma_retain_drops(s0, f0, j);
        lemma_ids_contains(r0, s[j].0);
        if exists|k: int| 0 <= k < r.len() && r[k].0 == s[j].0 {
            let k = choose|k: int| 0 <= k < r.len() && r[k].0 == s[j].0;
            if k < r0.len() {
                assert(r0[k] == r[k]);
            } else {
                assert(r[k] == s.last());
                assert(s[j].0 != s[s.len() - 1].0);
            }
        }
    }
}


/// Where client `client_id` stands among `subs`, if anywhere.
fn find_client(subs: &Vec<Subscriber>, client_id: &String) -> (r: Option<usize>)
    ensures
        r matches Some(j) ==> j < subs@.len() && subs@[j as int].client_id@ == client_id@,
        r is None ==> forall|j: int| 0 <= j < subs@.len() ==> subs@[j].client_id@ != client_id@,
{
    let mut j: usize = 0;
    while j < subs.len()
        invariant
            j <= subs@.len(),
            forall|k: int| 0 <= k < j ==> subs@[k].client_id@ != client_id@,
        decreases subs@.len() - j,
    {
        if subs[j].client_id == *client_id {
            return Some(j);
        }
        j = j + 1;
    }
    None
}

impl TopicMap {
    /// The router's invariant.
    pub open spec fn wf(&self) -> bool {
        topics_wf(self@)
    }

    /// An empty map.
    pub fn new() -> (r: TopicMap)
        ensures
            r.wf(),
            r@ == Seq::<(Seq<char>, SubsView)>::empty(),
    {
        let r = TopicMap { map: Vec::new() };
        assert(r@ =~= Seq::<(Seq<char>, SubsView)>::empty());
        r
    }

    /// Where `topic` is listed, if anywhere.
    fn find_topic(&self, topic: &String) -> (r: Option<usize>)
        requires
            self.wf(),
        ensures
            r matches Some(i) ==> i < self@.len() && self@[i as int].0 == topic@ && has_topic(
                self@,
                topic@,
            ) && topic_pos(self@, topic@) == i,
            r is None ==> !has_topic(self@, topic@),
    {
        let mut i: usize = 0;
        while i < self.map.len()
            invariant
                i <= self@.len(),
                self.wf(),
                self@.len() == self.map@.len(),
                forall|k: int| 0 <= k < i ==> self@[k].0 != topic@,
            decreases self.map@.len() - i,
        {
            if self.map[i].topic == *topic {
                proof {
                    lemma_topic_pos(self@, topic@, i as int);
                }
                return Some(i);
            }
            i = i + 1;
        }
        None
    }

    /// The number of subscribers of `topic`; 0 for an unknown topic.
    pub fn subscriber_count(&self, topic: &String) -> (r: usize)
        requires
            self.wf(),
        ensures
            r == subscriber_count(self@, topic@),
    {
        match self.find_topic(topic) {
            Some(i) => self.map[i].subscribers.len(),
            None => 0,
        }
    }

    /// Subscribes client `client_id` to `topic` through `channel`. A client
    /// already subscribed to the topic keeps its first channel.
    pub fn add_channel(&mut self, topic: String, client_id: String, channel: DeliveryChannel)
        requires
            old(self).wf(),
        ensures
            final(self).wf(),
            final(self)@ == after_subscribe(old(self)@, topic@, client_id@, channel),
    {
        let ghost v = self@;
        match self.find_topic(&topic) {
            Some(i) => {
                let found = find_client(&self.map[i].subscribers, &client_id);
                proof {
                    lemma_ids_contains(v[i as int].1, client_id@);
                }
                if found.is_none() {
                    let mut entry = self.map.remove(i);
                    entry.subscribers.push(Subscriber { client_id, channel });
                    assert(entry@.1 =~= v[i as int].1.push((client_id@, channel)));
                    self.map.insert(i, entry);
                    assert(self@ =~= after_subscribe(v, topic@, client_id@, channel));
                } else {
                    let j = found.unwrap();
                    assert(v[i as int].1[j as int].0 == client_id@);
                }
            },
            None => {
                let mut subs: Vec<Subscriber> = Vec::new();
                subs.push(Subscriber { client_id, channel });
                let entry = TopicEntry { topic, subscribers: subs };
                assert(entry@.1 =~= seq![(client_id@, channel)]);
                self.map.push(entry);
                assert(self@ =~= after_subscribe(v, entry@.0, client_id@, channel));
            },
        }
    }

    /// Unsubscribes client `client_id` from `topic`; nothing happens when it
    /// was not subscribed. A topic left without subscribers is dropped.
    pub fn remove_channel(&mut self, topic: String, client_id: String)
        requires
            old(self).wf(),
        ensures
            final(self).wf(),
            final(self)@ == after_unsubscribe(old(self)@, topic@, client_id@),
    {
        let ghost v = self@;
        match self.find_topic(&topic) {
            Some(i) => {
                let found = find_client(&self.map[i].subscribers, &client_id);
                proof {
                    lemma_ids_contains(v[i as int].1, client_id@);
                }
                match found {
                    Some(j) => {
                        proof {
                            lemma_client_pos(v[i as int].1, client_id@, j as int);
                            assert(v[i as int].1[j as int].0 == client_id@);
                            assert(subscribers(v, topic@) == v[i as int].1);
                            assert(is_subscribed(v, topic@, client_id@));
                        }
                        let mut entry = self.map.remove(i);
                        let _gone = entry.subscribers.remove(j);
                        assert(entry@.1 =~= v[i as int].1.remove(j as int));
                        if entry.subscribers.len() > 0 {
                            self.map.insert(i, entry);
                            assert(self@ =~= after_unsubscribe(v, topic@, client_id@));
                        } else {
                            assert(self@ =~= after_unsubscribe(v, topic@, client_id@));
                        }
                    },
                    None => {},
                }
            },
            None => {},
        }
    }

    /// Sends the frame of `msg` to every subscriber of its topic, in the order
    /// in which they subscribed, and drops each subscriber whose channel
    /// refused it. Returns the deliveries tried, in order.
    pub fn publish(&mut self, msg: &Msg) -> (attempts: Vec<Attempt>)
        requires
            old(self).wf(),
        ensures
            final(self).wf(),
            targets_of(attempts@.map_values(|a: Attempt| a@)) == subscriber_ids(
                old(self)@,
                msg.topic@,
            ),
            forall|k: int| 0 <= k < attempts@.len() ==> (#[trigger] attempts@[k]).frame@ == msg_bytes(msg@),
            final(self)@ == after_publish(
                old(self)@,
                msg.topic@,
                flags_of(attempts@.map_values(|a: Attempt| a@)),
            ),
    {
        let ghost v = self@;
        let mut attempts: Vec<Attempt> = Vec::new();
        let i = match self.find_topic(&msg.topic) {
            Some(i) => i,
            None => {
                assert(attempts@.map_values(|a: Attempt| a@) =~= Seq::empty());
                assert(subscriber_ids(v, msg.topic@) =~= Seq::empty());
                return attempts;
            },
        };
        let frame = msg.bytes();
        let entry = self.map.remove(i);
        let TopicEntry { topic, subscribers } = entry;
        let ghost orig = subscribers@.map_values(|s: Subscriber| s@);
        assert(orig == v[i as int].1);
        let mut rest = subscribers;
        let mut kept: Vec<Subscriber> = Vec::new();
        let mut k: usize = 0;
        let n = rest.len();
        while rest.len() > 0
            invariant
                n == orig.len(),
                k + rest@.len() == n,
                rest@.map_values(|s: Subscriber| s@) == orig.subrange(k as int, n as int),
                attempts@.len() == k,
                targets_of(attempts@.map_values(|a: Attempt| a@)) == orig.subrange(
                    0,
                    k as int,
                ).map_values(|p: (Seq<char>, DeliveryChannel)| p.0),
                forall|m: int| 0 <= m < attempts@.len() ==> (#[trigger] attempts@[m]).frame@ == frame@,
                kept@.map_values(|s: Subscriber| s@) == retain(
                    orig.subrange(0, k as int),
                    flags_of(attempts@.map_values(|a: Attempt| a@)),
                ),
            decreases rest@.len(),
        {
            assert(rest@.map_values(|s: Subscriber| s@)[0] == orig[k as int]);
            let ghost rest_before = rest@.map_values(|s: Subscriber| s@);
            let sub = rest.remove(0);
            assert(rest@.map_values(|s: Subscriber| s@) =~= rest_before.subrange(1, rest_before.len() as int));
            assert(sub@ == orig[k as int]);
            let delivered = deliver(&sub.channel, frame.clone());
            let ghost before = attempts@.map_values(|a: Attempt| a@);
            let ghost kept_before = kept@.map_values(|s: Subscriber| s@);
            attempts.push(Attempt { client_id: sub.client_id.clone(), frame: frame.clone(), delivered });
            if delivered {
                kept.push(sub);
            }
            proof {
                let after = attempts@.map_values(|a: Attempt| a@);
                assert(after =~= before.push((sub@.0, frame@, delivered)));
                let prefix = orig.subrange(0, k as int + 1);
                assert(prefix.drop_last() =~= orig.subrange(0, k as int));
                assert(flags_of(after).drop_last() =~= flags_of(before));
                assert(targets_of(after) =~= targets_of(before).push(sub@.0));
                assert(prefix =~= orig.subrange(0, k as int).push(orig[k as int]));
                assert(prefix.map_values(|p: (Seq<char>, DeliveryChannel)| p.0) =~= orig.subrange(
                    0,
                    k as int,
                ).map_values(|p: (Seq<char>, DeliveryChannel)| p.0).push(orig[k as int].0));
                assert(targets_of(after) =~= prefix.map_values(|p: (Seq<char>, DeliveryChannel)| p.0));
                if delivered {
                    assert(kept@.map_values(|s: Subscriber| s@) =~= kept_before.push(sub@));
                } else {
                    assert(kept@.map_values(|s: Subscriber| s@) =~= kept_before);
                }
                assert(rest@.map_values(|s: Subscriber| s@) =~= orig.subrange(k as int + 1, n as int));
            }
            k = k + 1;
        }
        proof {
            assert(orig.subrange(0, n as int) =~= orig);
            lemma_retain_distinct(orig, flags_of(attempts@.map_values(|a: Attempt| a@)));
            lemma_retain_subset(orig, flags_of(attempts@.map_values(|a: Attempt| a@)));
        }
        if kept.len() > 0 {
            let ghost kv = kept@.map_values(|s: Subscriber| s@);
            self.map.insert(i, TopicEntry { topic, subscribers: kept });
            assert(self@ =~= v.update(i as int, (msg.topic@, kv)));
        } else {
            assert(self@ =~= v.remove(i as int));
        }
        proof {
            let nv = self@;
            assert forall|a: int, b: int| 0 <= a < b < nv.len() implies nv[a].0 != nv[b].0 by {
                if kept@.len() > 0 {
                    assert(nv[a].0 == v[a].0 && nv[b].0 == v[b].0);
                } else {
                    let a2 = if a < i { a } else { a + 1 };
                    let b2 = if b < i { b } else { b + 1 };
                    assert(nv[a].0 == v[a2].0 && nv[b].0 == v[b2].0);
                }
            }
            assert forall|a: int| 0 <= a < nv.len() implies nv[a].1.len() > 0 && ids_distinct(
                #[trigger] nv[a].1,
            ) by {
                if kept@.len() > 0 {
                    if a != i {
                        assert(nv[a] == v[a]);
                    }
                } else {
                    let a2 = if a < i { a } else { a + 1 };
                    assert(nv[a] == v[a2]);
                }
            }
        }
        attempts
    }
    /// Answers a query of `topic` as compact JSON text: for `*`, each listed
    /// topic with its subscriber count (`{"*":["abc: 2","xyz: 1"]}`);
    /// otherwise the subscriber count of `topic` (`{"abc":["3"]}`, 0 when the
    /// topic is unknown).
    pub fn query(&self, topic: String) -> (r: String)
        requires
            self.wf(),
        ensures
            r@ == query_body(self@, topic@),
    {
        let key = json_quote(topic.as_str());
        let mut items: Vec<String> = Vec::new();
        let is_all = topic.as_str().unicode_len() == 1 && topic.as_str().get_char(0) == '*';
        proof {
            if is_all {
                assert(topic@ =~= all_topics());
            }
        }
        if is_all {
            let ghost v = self@;
            let mut i: usize = 0;
            while i < self.map.len()
                invariant
                    v == self@,
                    i <= v.len(),
                    v.len() == self.map@.len(),
                    items@.map_values(|s: String| s@) == v.subrange(0, i as int).map_values(
                        |e: (Seq<char>, SubsView)| json_string(topic_line(e)),
                    ),
                decreases self.map@.len() - i,
            {
                let entry = &self.map[i];
                let mut line = entry.topic.clone();
                line.append(": ");
                let count = decimal_string(entry.subscribers.len());
                line.append(count.as_str());
                let ghost before = items@.map_values(|s: String| s@);
                items.push(json_quote(line.as_str()));
                proof {
                    reveal_strlit(": ");
                    assert(line@ =~= topic_line(v[i as int]));
                    assert(items@.map_values(|s: String| s@) =~= before.push(
                        json_string(topic_line(v[i as int])),
                    ));
                    assert(v.subrange(0, i as int + 1) =~= v.subrange(0, i as int).push(
                        v[i as int],
                    ));
                    assert(items@.map_values(|s: String| s@) =~= v.subrange(
                        0,
                        i as int + 1,
                    ).map_values(|e: (Seq<char>, SubsView)| json_string(topic_line(e))));
                }
                i = i + 1;
            }
            assert(v.subrange(0, i as int) =~= v);
        } else {
            let count = decimal_string(self.subscriber_count(&topic));
            items.push(json_quote(count.as_str()));
            assert(items@.map_values(|s: String| s@) =~= seq![
                json_string(decimal(subscriber_count(self@, topic@))),
            ]);
        }
        json_object_string(&key, &items)
    }

    /// Handles one request that reached the router, on behalf of the
    /// connection whose id and delivery channel it carries. A request with an
    /// empty topic, a response, and a request that lacks the attachment it
    /// needs change nothing. Returns the deliveries tried, in order.
    pub fn dispatch(&mut self, msg: Msg) -> (attempts: Vec<Attempt>)
        requires
            old(self).wf(),
        ensures
            final(self).wf(),
            final(self)@ == step(
                old(self)@,
                request_of(msg),
                flags_of(attempts@.map_values(|a: Attempt| a@)),
            ),
            msg.header.pkt_type != PktType::QUERY ==> targets_of(
                attempts@.map_values(|a: Attempt| a@),
            ) == step_targets(old(self)@, request_of(msg)),
            msg.topic@.len() == 0 ==> final(self)@ == old(self)@ && attempts@.len() == 0,
            msg.topic@.len() > 0 ==> match msg.header.pkt_type {
                PktType::PUBLISH => {
                    &&& targets_of(attempts@.map_values(|a: Attempt| a@)) == subscriber_ids(
                        old(self)@,
                        msg.topic@,
                    )
                    &&& forall|k: int|
                        0 <= k < attempts@.len() ==> (#[trigger] attempts@[k]).frame@ == msg_bytes(
                            msg@,
                        )
                    &&& final(self)@ == after_publish(
                        old(self)@,
                        msg.topic@,
                        flags_of(attempts@.map_values(|a: Attempt| a@)),
                    )
                },
                PktType::SUBSCRIBE => {
                    &&& attempts@.len() == 0
                    &&& final(self)@ == match (msg.client_id, msg.channel) {
                        (Some(c), Some(ch)) => after_subscribe(old(self)@, msg.topic@, c@, ch),
                        _ => old(self)@,
                    }
                },
                PktType::UNSUBSCRIBE => {
                    &&& attempts@.len() == 0
                    &&& final(self)@ == match msg.client_id {
                        Some(c) => after_unsubscribe(old(self)@, msg.topic@, c@),
                        None => old(self)@,
                    }
                },
                PktType::QUERY => {
                    &&& final(self)@ == old(self)@
                    &&& if msg.channel is Some && query_response(old(self)@, msg@) is Ok {
                        &&& attempts@.len() == 1
                        &&& attempts@[0].client_id@ == sender_id(msg)
                        &&& attempts@[0].frame@ == msg_bytes(query_response(old(self)@, msg@)->Ok_0)
                    } else {
                        attempts@.len() == 0
                    }
                },
                _ => final(self)@ == old(self)@ && attempts@.len() == 0,
            },
    {
        let mut attempts: Vec<Attempt> = Vec::new();
        if msg.topic.as_str().is_empty() {
            return attempts;
        }
        match msg.header.pkt_type {
            PktType::PUBLISH => self.publish(&msg),
            PktType::SUBSCRIBE => {
                match (msg.client_id, msg.channel) {
                    (Some(c), Some(ch)) => self.add_channel(msg.topic, c, ch),
                    _ => {},
                }
                attempts
            },
            PktType::UNSUBSCRIBE => {
                match msg.client_id {
                    Some(c) => self.remove_channel(msg.topic, c),
                    None => {},
                }
                attempts
            },
            PktType::QUERY => {
                let body = self.query(msg.topic.clone());
                let resp = msg.response_msg(string_bytes(&body));
                match (&msg.channel, resp) {
                    (Some(ch), Ok(r)) => {
                        let frame = r.bytes();
                        let delivered = deliver(ch, frame.clone());
                        let client_id = match &msg.client_id {
                            Some(c) => c.clone(),
                            None => String::new(),
                        };
                        attempts.push(Attempt { client_id, frame, delivered });
                    },
                    _ => {},
                }
                attempts
            },
            _ => attempts,
        }
    }
}

} // verus!
