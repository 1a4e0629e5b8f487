//! What the router guarantees over whole runs of requests: its invariant,
//! idempotent subscription, cancellation by unsubscription, pruning of dead
//! subscribers, per-subscriber delivery order and the topic listing.
use vstd::prelude::*;

use crate::channel::DeliveryChannel;
use crate::message::Msg;
use crate::pkt::PktType;
use crate::topics::{
    after_publish, after_subscribe, after_unsubscribe, client_pos, has_topic, ids_distinct,
    is_subscribed, lemma_ids_contains, lemma_retain_distinct, lemma_retain_drops,
    lemma_retain_subset, lemma_topic_pos, listed_topics, retain, subscriber_count,
    subscriber_ids, subscribers, topic_pos, topics_wf, with_subscribers, SubsView, TopicsView,
};

verus! {

/// With one flag clear and every other set, `retain` keeps all subscribers but one.
pub proof fn lemma_retain_len_one_missing(s: SubsView, f: Seq<bool>, j: int)
    requires
        f.len() == s.len(),
        0 <= j < s.len(),
        !f[j],
        forall|k: int| 0 <= k < f.len() && k != j ==> f[k],
    ensures
        retain(s, f).len() == s.len() - 1,
    decreases s.len(),
{
    lemma_retain_all(s.drop_last(), f.drop_last(), j);
    if j < s.len() - 1 {
        lemma_retain_len_one_missing(s.drop_last(), f.drop_last(), j);
    }
}

/// With every flag set before `j`, `retain` keeps the whole prefix before `j`.
proof fn lemma_retain_all(s: SubsView, f: Seq<bool>, j: int)
    requires
        f.len() == s.len(),
        forall|k: int| 0 <= k < f.len() && k < j ==> f[k],
    ensures
        s.len() <= j ==> retain(s, f).len() == s.len(),
    decreases s.len(),
{
    if s.len() > 0 {
        lemma_retain_all(s.drop_last(), f.drop_last(), j);
    }
}

/// Replacing the subscribers of a listed topic keeps the router's invariant
/// and leaves every other topic's subscribers as they were.
proof fn lemma_with_subscribers_wf(v: TopicsView, t: Seq<char>, s: SubsView)
    requires
        topics_wf(v),
        has_topic(v, t),
        ids_distinct(s),
    ensures
        topics_wf(with_subscribers(v, t, s)),
        s.len() > 0 ==> has_topic(with_subscribers(v, t, s), t) && subscribers(
            with_subscribers(v, t, s),
            t,
        ) == s,
        s.len() == 0 ==> !has_topic(with_subscribers(v, t, s), t),
        forall|u: Seq<char>| u != t ==> subscribers(with_subscribers(v, t, s), u) == subscribers(v, u),
{
    let p = topic_pos(v, t);
    let w = with_subscribers(v, t, s);
    if s.len() == 0 {
        assert forall|a: int, b: int| 0 <= a < b < w.len() implies w[a].0 != w[b].0 by {
            let a2 = if a < p { a } else { a + 1 };
            let b2 = if b < p { b } else { b + 1 };
            assert(w[a] == v[a2] && w[b] == v[b2]);
        }
        assert forall|a: int| 0 <= a < w.len() implies w[a].1.len() > 0 && ids_distinct(
            #[trigger] w[a].1,
        ) by {
            let a2 = if a < p { a } else { a + 1 };
            assert(w[a] == v[a2]);
        }
        if has_topic(w, t) {
            let a = choose|a: int| 0 <= a < w.len() && w[a].0 == t;
            let a2 = if a < p { a } else { a + 1 };
            assert(w[a] == v[a2]);
            assert(v[a2].0 == v[p].0);
        }
        assert forall|u: Seq<char>| u != t implies subscribers(w, u) == subscribers(v, u) by {
            if has_topic(v, u) {
                let q = topic_pos(v, u);
                assert(q != p);
                let q2 = if q < p { q } else { q - 1 };
                assert(w[q2] == v[q]);
                lemma_topic_pos(w, u, q2);
            } else if has_topic(w, u) {
                let a = choose|a: int| 0 <= a < w.len() && w[a].0 == u;
                let a2 = if a < p { a } else { a + 1 };
                assert(w[a] == v[a2]);
            }
        }
    } else {
        assert forall|a: int, b: int| 0 <= a < b < w.len() implies w[a].0 != w[b].0 by {
            assert(w[a].0 == v[a].0 && w[b].0 == v[b].0);
        }
        assert forall|a: int| 0 <= a < w.len() implies w[a].1.len() > 0 && ids_distinct(
            #[trigger] w[a].1,
        ) by {
            if a != p {
                assert(w[a] == v[a]);
            }
        }
        lemma_topic_pos(w, t, p);
        assert forall|u: Seq<char>| u != t implies subscribers(w, u) == subscribers(v, u) by {
            if has_topic(v, u) {
                let q = topic_pos(v, u);
                assert(w[q] == v[q]);
                lemma_topic_pos(w, u, q);
            } else if has_topic(w, u) {
                let a = choose|a: int| 0 <= a < w.len() && w[a].0 == u;
                assert(w[a] == v[a]);
            }
        }
    }
}

/// Subscribing keeps the router's invariant, subscribes the client, and
/// touches no other topic.
pub proof fn lemma_subscribe_wf(v: TopicsView, t: Seq<char>, c: Seq<char>, ch: DeliveryChannel)
    requires
        topics_wf(v),
    ensures
        topics_wf(after_subscribe(v, t, c, ch)),
        is_subscribed(after_subscribe(v, t, c, ch), t, c),
        forall|u: Seq<char>| u != t ==> subscribers(after_subscribe(v, t, c, ch), u) == subscribers(v, u),
        forall|d: Seq<char>| d != c ==> (is_subscribed(after_subscribe(v, t, c, ch), t, d) <==> is_subscribed(v, t, d)),
{
    let w = after_subscribe(v, t, c, ch);
    if !has_topic(v, t) {
        assert forall|a: int, b: int| 0 <= a < b < w.len() implies w[a].0 != w[b].0 by {
            if b == v.len() {
                assert(w[a] == v[a]);
            } else {
                assert(w[a] == v[a] && w[b] == v[b]);
            }
        }
        assert forall|a: int| 0 <= a < w.len() implies w[a].1.len() > 0 && ids_distinct(
            #[trigger] w[a].1,
        ) by {
            if a < v.len() {
                assert(w[a] == v[a]);
            }
        }
        lemma_topic_pos(w, t, v.len() as int);
        lemma_ids_contains(subscribers(w, t), c);
        assert(subscribers(w, t)[0].0 == c);
        assert forall|u: Seq<char>| u != t implies subscribers(w, u) == subscribers(v, u) by {
            if has_topic(v, u) {
                let q = topic_pos(v, u);
                assert(w[q] == v[q]);
                lemma_topic_pos(w, u, q);
            } else if has_topic(w, u) {
                let a = choose|a: int| 0 <= a < w.len() && w[a].0 == u;
                assert(w[a] == v[a]);
            }
        }
        assert forall|d: Seq<char>| d != c implies (is_subscribed(w, t, d) <==> is_subscribed(v, t, d)) by {
            lemma_ids_contains(subscribers(w, t), d);
        }
    } else if is_subscribed(v, t, c) {
    } else {
        let p = topic_pos(v, t);
        let s = subscribers(v, t);
        let s2 = s.push((c, ch));
        lemma_ids_contains(s, c);
        assert(ids_distinct(s2)) by {
            assert forall|a: int, b: int| 0 <= a < b < s2.len() implies s2[a].0 != s2[b].0 by {
                if b == s.len() {
                    assert(s2[a] == s[a]);
                } else {
                    assert(s2[a] == s[a] && s2[b] == s[b]);
                }
            }
        }
        assert(w == with_subscribers(v, t, s2));
        lemma_with_subscribers_wf(v, t, s2);
        lemma_ids_contains(s2, c);
        assert(s2[s.len() as int].0 == c);
        assert forall|d: Seq<char>| d != c implies (is_subscribed(w, t, d) <==> is_subscribed(v, t, d)) by {
            lemma_ids_contains(s2, d);
            lemma_ids_contains(s, d);
            if is_subscribed(w, t, d) {
                let k = choose|k: int| 0 <= k < s2.len() && s2[k].0 == d;
                assert(s[k].0 == d);
            }
            if is_subscribed(v, t, d) {
                let k = choose|k: int| 0 <= k < s.len() && s[k].0 == d;
                assert(s2[k].0 == d);
            }
        }
    }
}

/// Unsubscribing keeps the router's invariant, unsubscribes the client, and
/// touches no other subscription.
pub proof fn lemma_unsubscribe_wf(v: TopicsView, t: Seq<char>, c: Seq<char>)
    requires
        topics_wf(v),
    ensures
        topics_wf(after_unsubscribe(v, t, c)),
        !is_subscribed(after_unsubscribe(v, t, c), t, c),
        forall|u: Seq<char>| u != t ==> subscribers(after_unsubscribe(v, t, c), u) == subscribers(v, u),
        forall|d: Seq<char>| d != c ==> (is_subscribed(after_unsubscribe(v, t, c), t, d) <==> is_subscribed(v, t, d)),
{
    let w = after_unsubscribe(v, t, c);
    let s = subscribers(v, t);
    lemma_ids_contains(s, c);
    if is_subscribed(v, t, c) {
        let p = topic_pos(v, t);
        assert(s == v[p].1);
        let j = client_pos(s, c);
        let s2 = s.remove(j);
        assert(ids_distinct(s2)) by {
            assert forall|a: int, b: int| 0 <= a < b < s2.len() implies s2[a].0 != s2[b].0 by {
                let a2 = if a < j { a } else { a + 1 };
                let b2 = if b < j { b } else { b + 1 };
                assert(s2[a] == s[a2] && s2[b] == s[b2]);
            }
        }
        lemma_with_subscribers_wf(v, t, s2);
        lemma_ids_contains(s2, c);
        if s2.len() > 0 {
            if exists|k: int| 0 <= k < s2.len() && s2[k].0 == c {
                let k = choose|k: int| 0 <= k < s2.len() && s2[k].0 == c;
                let k2 = if k < j { k } else { k + 1 };
                assert(s2[k] == s[k2]);
                assert(s[k2].0 == s[j].0);
            }
        }
        assert forall|d: Seq<char>| d != c implies (is_subscribed(w, t, d) <==> is_subscribed(v, t, d)) by {
            lemma_ids_contains(s2, d);
            lemma_ids_contains(s, d);
            if is_subscribed(v, t, d) {
                let k = choose|k: int| 0 <= k < s.len() && s[k].0 == d;
                assert(k != j);
                let k2 = if k < j { k } else { k - 1 };
                assert(s2[k2] == s[k]);
            }
            if s2.len() > 0 && is_subscribed(w, t, d) {
                let k = choose|k: int| 0 <= k < s2.len() && s2[k].0 == d;
                let k2 = if k < j { k } else { k + 1 };
                assert(s2[k] == s[k2]);
            }
        }
    }
}

/// A publish keeps the router's invariant, keeps exactly the subscribers whose
/// delivery succeeded, and touches no other topic.
pub proof fn lemma_publish_wf(v: TopicsView, t: Seq<char>, f: Seq<bool>)
    requires
        topics_wf(v),
    ensures
        topics_wf(after_publish(v, t, f)),
        subscribers(after_publish(v, t, f), t) == retain(subscribers(v, t), f),
        forall|u: Seq<char>| u != t ==> subscribers(after_publish(v, t, f), u) == subscribers(v, u),
{
    if has_topic(v, t) {
        let s = subscribers(v, t);
        assert(s == v[topic_pos(v, t)].1);
        lemma_retain_distinct(s, f);
        lemma_with_subscribers_wf(v, t, retain(s, f));
    } else {
        assert(retain(Seq::<(Seq<char>, DeliveryChannel)>::empty(), f) =~= Seq::empty());
    }
}

/// Subscribing twice from one client is subscribing once: the second request
/// changes nothing, and a topic that had no subscribers then has exactly one.
pub proof fn lemma_subscribe_idempotent(
    v: TopicsView,
    t: Seq<char>,
    c: Seq<char>,
    ch1: DeliveryChannel,
    ch2: DeliveryChannel,
)
    requires
        topics_wf(v),
    ensures
        after_subscribe(after_subscribe(v, t, c, ch1), t, c, ch2) == after_subscribe(v, t, c, ch1),
        !has_topic(v, t) ==> subscriber_count(after_subscribe(after_subscribe(v, t, c, ch1), t, c, ch2), t) == 1,
{
    lemma_subscribe_wf(v, t, c, ch1);
    let w = after_subscribe(v, t, c, ch1);
    assert(has_topic(w, t)) by {
        lemma_ids_contains(subscribers(w, t), c);
    }
    if !has_topic(v, t) {
        lemma_topic_pos(w, t, v.len() as int);
    }
}

/// After a client unsubscribes from a topic, it is no subscriber of it, so
/// the next publish to the topic is not sent to it.
pub proof fn lemma_unsubscribe_cancels(v: TopicsView, t: Seq<char>, c: Seq<char>)
    requires
        topics_wf(v),
    ensures
        !subscriber_ids(after_unsubscribe(v, t, c), t).contains(c),
{
    lemma_unsubscribe_wf(v, t, c);
}

/// A subscriber whose delivery failed during a publish is dropped from the
/// topic; when it was the only failure, the topic's count drops by one.
pub proof fn lemma_dead_subscriber_pruned(v: TopicsView, t: Seq<char>, f: Seq<bool>, j: int)
    requires
        topics_wf(v),
        f.len() == subscriber_count(v, t),
        0 <= j < f.len(),
        !f[j],
    ensures
        !is_subscribed(after_publish(v, t, f), t, subscribers(v, t)[j].0),
        (forall|k: int| 0 <= k < f.len() && k != j ==> f[k]) ==> subscriber_count(
            after_publish(v, t, f),
            t,
        ) == subscriber_count(v, t) - 1,
{
    lemma_publish_wf(v, t, f);
    let s = subscribers(v, t);
    assert(has_topic(v, t));
    assert(s == v[topic_pos(v, t)].1);
    lemma_retain_drops(s, f, j);
    if forall|k: int| 0 <= k < f.len() && k != j ==> f[k] {
        lemma_retain_len_one_missing(s, f, j);
    }
}

/// A query of all topics lists exactly the topics that have subscribers: a
/// topic whose last subscriber left is dropped at once, not kept empty.
pub proof fn lemma_query_all_lists_nonempty(v: TopicsView, t: Seq<char>)
    requires
        topics_wf(v),
    ensures
        listed_topics(v).contains(t) <==> subscriber_count(v, t) > 0,
{
    if listed_topics(v).contains(t) {
        let i = choose|i: int| 0 <= i < listed_topics(v).len() && listed_topics(v)[i] == t;
        lemma_topic_pos(v, t, i);
    }
    if subscriber_count(v, t) > 0 {
        let p = topic_pos(v, t);
        assert(listed_topics(v)[p] == t);
    }
}

/// A request as the router sees it: its kind and topic, and the id and
/// delivery channel of the connection that sent it, when it carries them.
pub struct RouterRequest {
    pub kind: PktType,
    pub topic: Seq<char>,
    pub client: Option<Seq<char>>,
    pub channel: Option<DeliveryChannel>,
}

/// What the router sees of message `msg`.
pub open spec fn request_of(msg: Msg) -> RouterRequest {
    RouterRequest {
        kind: msg.header.pkt_type,
        topic: msg.topic@,
        client: match msg.client_id {
            Some(c) => Some(c@),
            None => None,
        },
        channel: msg.channel,
    }
}

/// The state after the router handles request `r`; `f` says which of the
/// deliveries of a publish succeeded. A request that lacks the attachment it
/// needs changes nothing.
pub open spec fn step(v: TopicsView, r: RouterRequest, f: Seq<bool>) -> TopicsView {
    if r.topic.len() == 0 {
        v
    } else {
        match r.kind {
            PktType::PUBLISH => after_publish(v, r.topic, f),
            PktType::SUBSCRIBE => match (r.client, r.channel) {
                (Some(c), Some(ch)) => after_subscribe(v, r.topic, c, ch),
                _ => v,
            },
            PktType::UNSUBSCRIBE => match r.client {
                Some(c) => after_unsubscribe(v, r.topic, c),
                None => v,
            },
            _ => v,
        }
    }
}

/// The clients to which the router sends publish `r` in state `v`, in order.
pub open spec fn step_targets(v: TopicsView, r: RouterRequest) -> Seq<Seq<char>> {
    if r.topic.len() > 0 && r.kind == PktType::PUBLISH {
        subscriber_ids(v, r.topic)
    } else {
        Seq::empty()
    }
}

/// The state after the router handles `reqs` in order, the k-th publish's
/// deliveries succeeding as `fs[k]` says.
pub open spec fn run(v: TopicsView, reqs: Seq<RouterRequest>, fs: Seq<Seq<bool>>) -> TopicsView
    decreases reqs.len(),
{
    if reqs.len() == 0 {
        v
    } else {
        step(run(v, reqs.drop_last(), fs), reqs.last(), fs[reqs.len() - 1])
    }
}

/// Every delivery the router makes while it handles `reqs`, in order: the
/// receiving client and the position in `reqs` of the publish delivered.
pub open spec fn run_log(v: TopicsView, reqs: Seq<RouterRequest>, fs: Seq<Seq<bool>>) -> Seq<
    (Seq<char>, int),
>
    decreases reqs.len(),
{
    if reqs.len() == 0 {
        Seq::empty()
    } else {
        run_log(v, reqs.drop_last(), fs) + step_targets(
            run(v, reqs.drop_last(), fs),
            reqs.last(),
        ).map_values(|c: Seq<char>| (c, reqs.len() - 1))
    }
}

/// Handling any requests keeps the router's invariant.
pub proof fn lemma_run_wf(v: TopicsView, reqs: Seq<RouterRequest>, fs: Seq<Seq<bool>>)
    requires
        topics_wf(v),
    ensures
        topics_wf(run(v, reqs, fs)),
    decreases reqs.len(),
{
    if reqs.len() > 0 {
        let u = run(v, reqs.drop_last(), fs);
        lemma_run_wf(v, reqs.drop_last(), fs);
        let r = reqs.last();
        if r.topic.len() > 0 {
            match r.kind {
                PktType::PUBLISH => lemma_publish_wf(u, r.topic, fs[reqs.len() - 1]),
                PktType::SUBSCRIBE => match (r.client, r.channel) {
                    (Some(c), Some(ch)) => lemma_subscribe_wf(u, r.topic, c, ch),
                    _ => {},
                },
                PktType::UNSUBSCRIBE => match r.client {
                    Some(c) => lemma_unsubscribe_wf(u, r.topic, c),
                    None => {},
                },
                _ => {},
            }
        }
    }
}

/// Deliveries are logged in the order in which their publishes reached the
/// router, and each names a request that was handled.
proof fn lemma_log_ordered(v: TopicsView, reqs: Seq<RouterRequest>, fs: Seq<Seq<bool>>)
    ensures
        forall|a: int| 0 <= a < run_log(v, reqs, fs).len() ==> 0 <= #[trigger] run_log(v, reqs, fs)[a].1 < reqs.len(),
        forall|a: int, b: int|
            0 <= a < b < run_log(v, reqs, fs).len() ==> #[trigger] run_log(v, reqs, fs)[a].1
                <= #[trigger] run_log(v, reqs, fs)[b].1,
    decreases reqs.len(),
{
    if reqs.len() > 0 {
        lemma_log_ordered(v, reqs.drop_last(), fs);
        let l0 = run_log(v, reqs.drop_last(), fs);
        let l = run_log(v, reqs, fs);
        assert forall|a: int| 0 <= a < l.len() implies 0 <= #[trigger] l[a].1 < reqs.len() by {
            if a < l0.len() {
                assert(l[a] == l0[a]);
            }
        }
        assert forall|a: int, b: int| 0 <= a < b < l.len() implies #[trigger] l[a].1 <= #[trigger] l[b].1 by {
            if b < l0.len() {
                assert(l[a] == l0[a] && l[b] == l0[b]);
            } else if a < l0.len() {
                assert(l[a] == l0[a]);
            }
        }
    }
}

/// Each subscriber receives publishes in the order in which they reached the
/// router: of two deliveries to one client, the one of the earlier publish
/// comes first.
pub proof fn lemma_publish_order(
    v: TopicsView,
    reqs: Seq<RouterRequest>,
    fs: Seq<Seq<bool>>,
    a: int,
    b: int,
)
    requires
        0 <= a < run_log(v, reqs, fs).len(),
        0 <= b < run_log(v, reqs, fs).len(),
        run_log(v, reqs, fs)[a].0 == run_log(v, reqs, fs)[b].0,
        run_log(v, reqs, fs)[a].1 < run_log(v, reqs, fs)[b].1,
    ensures
        a < b,
{
    lemma_log_ordered(v, reqs, fs);
    if b <= a {
        if b < a {
            assert(run_log(v, reqs, fs)[b].1 <= run_log(v, reqs, fs)[a].1);
        }
    }
}

/// Client `c` stays off topic `t` through requests none of which subscribes
/// it to `t` again.
proof fn lemma_stays_unsubscribed(
    v: TopicsView,
    t: Seq<char>,
    c: Seq<char>,
    reqs: Seq<RouterRequest>,
    fs: Seq<Seq<bool>>,
)
    requires
        topics_wf(v),
        !is_subscribed(v, t, c),
        forall|i: int|
            0 <= i < reqs.len() ==> !(#[trigger] reqs[i].kind == PktType::SUBSCRIBE && reqs[i].topic
                == t && reqs[i].client == Some(c)),
    ensures
        !is_subscribed(run(v, reqs, fs), t, c),
        forall|a: int| 0 <= a < run_log(v, reqs, fs).len() && reqs[run_log(v, reqs, fs)[a].1].topic == t ==> #[trigger] run_log(v, reqs, fs)[a].0 != c,
    decreases reqs.len(),
{
    lemma_log_ordered(v, reqs, fs);
    if reqs.len() > 0 {
        let r0 = reqs.drop_last();
        assert forall|i: int| 0 <= i < r0.len() implies !(#[trigger] r0[i].kind == PktType::SUBSCRIBE
            && r0[i].topic == t && r0[i].client == Some(c)) by {
            assert(r0[i] == reqs[i]);
        }
        lemma_stays_unsubscribed(v, t, c, r0, fs);
        lemma_run_wf(v, r0, fs);
        lemma_log_ordered(v, r0, fs);
        let u = run(v, r0, fs);
        let r = reqs.last();
        let f = fs[reqs.len() - 1];
        if r.topic.len() > 0 {
            match r.kind {
                PktType::PUBLISH => {
                    lemma_publish_wf(u, r.topic, f);
                    if r.topic == t {
                        let s = subscribers(u, t);
                        lemma_retain_subset(s, f);
                        lemma_ids_contains(s, c);
                        lemma_ids_contains(retain(s, f), c);
                        if is_subscribed(run(v, reqs, fs), t, c) {
                            let k = choose|k: int| 0 <= k < retain(s, f).len() && retain(s, f)[k].0 == c;
                            assert(retain(s, f).contains(retain(s, f)[k]));
                        }
                    }
                },
                PktType::SUBSCRIBE => match (r.client, r.channel) {
                    (Some(c), Some(ch)) => lemma_subscribe_wf(u, r.topic, c, ch),
                    _ => {},
                },
                PktType::UNSUBSCRIBE => match r.client {
                    Some(c) => lemma_unsubscribe_wf(u, r.topic, c),
                    None => {},
                },
                _ => {},
            }
        }
        let l0 = run_log(v, r0, fs);
        let l = run_log(v, reqs, fs);
        assert forall|a: int| 0 <= a < l.len() && reqs[l[a].1].topic == t implies #[trigger] l[a].0 != c by {
            if a < l0.len() {
                assert(l[a] == l0[a]);
                assert(r0[l0[a].1] == reqs[l0[a].1]);
            } else {
                let targets = step_targets(u, r);
                assert(l[a] == (targets[a - l0.len()], reqs.len() - 1));
                assert(targets.contains(targets[a - l0.len()]));
            }
        }
    }
}

/// Once a client has unsubscribed from a topic, the router sends it no
/// publish to that topic until it subscribes to it again.
pub proof fn lemma_unsubscribe_cancels_delivery(
    v: TopicsView,
    t: Seq<char>,
    c: Seq<char>,
    reqs: Seq<RouterRequest>,
    fs: Seq<Seq<bool>>,
)
    requires
        topics_wf(v),
        forall|i: int|
            0 <= i < reqs.len() ==> !(#[trigger] reqs[i].kind == PktType::SUBSCRIBE && reqs[i].topic
                == t && reqs[i].client == Some(c)),
    ensures
        forall|a: int|
            0 <= a < run_log(after_unsubscribe(v, t, c), reqs, fs).len() && reqs[run_log(
                after_unsubscribe(v, t, c),
                reqs,
                fs,
            )[a].1].topic == t ==> #[trigger] run_log(after_unsubscribe(v, t, c), reqs, fs)[a].0
                != c,
{
    lemma_unsubscribe_wf(v, t, c);
    lemma_stays_unsubscribed(after_unsubscribe(v, t, c), t, c, reqs, fs);
}

} // verus!
