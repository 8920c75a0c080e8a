//! A small broker for quality of service 0: topic filters, who receives a
//! message, and what a connection answers.

use super::codec::{Packet, Publish};
use crate::error::{refuse, ConnectorError};
use crate::model::{fault, ErrorCode, Fault};
use crate::text::{begins, begins_chars, chars, from_chars, pieces, same, split, sub_chars, texts};
use vstd::prelude::*;
use vstd::string::*;

verus! {

/// Messages that wait for one connection.
pub const PER_CONN_OUTBOX: usize = 32;

/// Level by level, the filter names the topic's level or is a `+`.
pub open spec fn levels_match(f: Seq<Seq<char>>, t: Seq<Seq<char>>) -> bool {
    f.len() == t.len() && forall|i: int|
        0 <= i < f.len() ==> (#[trigger] f[i] == "+"@ || f[i] == t[i])
}

/// Whether the filter ends in `/#`.
pub open spec fn is_tree(f: Seq<char>) -> bool {
    f.len() >= 2 && f[f.len() - 2] == '/' && f[f.len() - 1] == '#'
}

/// Whether a topic filter covers a topic.
pub open spec fn covers(filter: Seq<char>, topic: Seq<char>) -> bool {
    if filter == "#"@ || filter == topic {
        true
    } else if is_tree(filter) {
        let prefix = filter.take(filter.len() - 2);
        topic == prefix || begins(topic, prefix.push('/'))
    } else if filter.contains('+') {
        levels_match(pieces(filter, '/'), pieces(topic, '/'))
    } else {
        false
    }
}

fn match_levels(f: &Vec<String>, t: &Vec<String>) -> (r: bool)
    ensures
        r == levels_match(texts(f@), texts(t@)),
{
    let ghost fs = texts(f@);
    let ghost ts = texts(t@);
    if f.len() != t.len() {
        return false;
    }
    let mut i: usize = 0;
    while i < f.len()
        invariant
            i <= f.len(),
            f.len() == t.len(),
            fs == texts(f@),
            ts == texts(t@),
            forall|j: int| 0 <= j < i ==> (#[trigger] fs[j] == "+"@ || fs[j] == ts[j]),
        decreases f.len() - i,
    {
        assert(fs[i as int] == f@[i as int]@);
        assert(ts[i as int] == t@[i as int]@);
        if !(same(f[i].as_str(), "+") || same(f[i].as_str(), t[i].as_str())) {
            return false;
        }
        i = i + 1;
    }
    true
}

fn holds_char(v: &Vec<char>, c: char) -> (r: bool)
    ensures
        r == v@.contains(c),
{
    let mut i: usize = 0;
    while i < v.len()
        invariant
            i <= v.len(),
            forall|j: int| 0 <= j < i ==> v@[j] != c,
        decreases v.len() - i,
    {
        if v[i] == c {
            return true;
        }
        i = i + 1;
    }
    false
}

/// Whether a topic filter covers a topic: it is the topic itself, `#`, a tree
/// that ends in `/#`, or names its levels with `+` for any one level.
pub fn topic_matches(filter: &str, topic: &str) -> (r: bool)
    ensures
        r == covers(filter@, topic@),
{
    if same(filter, "#") || same(filter, topic) {
        return true;
    }
    let f: Vec<char> = chars(filter);
    let n: usize = f.len();
    if n >= 2 && f[n - 2] == '/' && f[n - 1] == '#' {
        let mut prefix: Vec<char> = sub_chars(f.as_slice(), 0, n - 2);
        assert(prefix@ =~= filter@.take(filter@.len() - 2));
        let exact: String = from_chars(prefix.as_slice());
        if same(topic, exact.as_str()) {
            return true;
        }
        prefix.push('/');
        let t: Vec<char> = chars(topic);
        return begins_chars(t.as_slice(), prefix.as_slice());
    }
    if holds_char(&f, '+') {
        let fs: Vec<String> = split(filter, '/');
        let ts: Vec<String> = split(topic, '/');
        return match_levels(&fs, &ts);
    }
    false
}

/// Filters with the connections that asked for them; a filter occurs once.
#[derive(Debug)]
pub struct Hub {
    pub subs: Vec<(String, Vec<u64>)>,
}

/// The filters and their connections by what they hold.
pub open spec fn table(subs: Seq<(String, Vec<u64>)>) -> Seq<(Seq<char>, Seq<u64>)> {
    subs.map_values(|s: (String, Vec<u64>)| (s.0@, s.1@))
}

/// No filter occurs twice.
pub open spec fn distinct(t: Seq<(Seq<char>, Seq<u64>)>) -> bool {
    forall|i: int, j: int|
        0 <= i < j < t.len() ==> (#[trigger] t[i]).0 != (#[trigger] t[j]).0
}

/// The table after a connection asked for a filter.
pub open spec fn with_sub(
    t: Seq<(Seq<char>, Seq<u64>)>,
    filter: Seq<char>,
    id: u64,
) -> Seq<(Seq<char>, Seq<u64>)>
    decreases t.len(),
{
    if t.len() == 0 {
        seq![(filter, seq![id])]
    } else if t[0].0 == filter {
        seq![(filter, t[0].1.push(id))] + t.skip(1)
    } else {
        seq![t[0]] + with_sub(t.skip(1), filter, id)
    }
}

/// The connections that a message on the topic goes to, once for each filter
/// of theirs that covers it.
pub open spec fn receivers(t: Seq<(Seq<char>, Seq<u64>)>, topic: Seq<char>) -> Seq<u64>
    decreases t.len(),
{
    if t.len() == 0 {
        Seq::empty()
    } else {
        let rest = receivers(t.drop_last(), topic);
        if covers(t.last().0, topic) {
            rest + t.last().1
        } else {
            rest
        }
    }
}

/// How often a message on the topic goes to the connection.
pub open spec fn copies(t: Seq<(Seq<char>, Seq<u64>)>, topic: Seq<char>, id: u64) -> nat {
    receivers(t, topic).to_multiset().count(id)
}

impl View for Hub {
    type V = Seq<(Seq<char>, Seq<u64>)>;

    open spec fn view(&self) -> Seq<(Seq<char>, Seq<u64>)> {
        table(self.subs@)
    }
}

impl Hub {
    /// No connection has asked for anything.
    pub fn new() -> (r: Self)
        ensures
            r@ == Seq::<(Seq<char>, Seq<u64>)>::empty(),
            distinct(r@),
    {
        let r = Hub { subs: Vec::new() };
        assert(r@ =~= Seq::<(Seq<char>, Seq<u64>)>::empty());
        r
    }

    /// Takes note that a connection asks for a filter.
    pub fn subscribe(&mut self, filter: String, id: u64)
        requires
            distinct(old(self)@),
        ensures
            final(self)@ == with_sub(old(self)@, filter@, id),
            distinct(final(self)@),
    {
        let ghost before = self@;
        let mut i: usize = 0;
        assert(before.skip(0) =~= before);
        assert(before.take(0) + with_sub(before, filter@, id) =~= with_sub(before, filter@, id));
        while i < self.subs.len()
            invariant
                i <= self.subs.len(),
                self@ == before,
                before == old(self)@,
                distinct(before),
                with_sub(before, filter@, id) == before.take(i as int) + with_sub(
                    before.skip(i as int),
                    filter@,
                    id,
                ),
                forall|j: int| 0 <= j < i ==> (#[trigger] before[j]).0 != filter@,
            decreases self.subs.len() - i,
        {
            let ghost rest = before.skip(i as int);
            assert(rest[0] == before[i as int]);
            assert(before[i as int] == (self.subs@[i as int].0@, self.subs@[i as int].1@));
            if same(self.subs[i].0.as_str(), filter.as_str()) {
                let mut entry: (String, Vec<u64>) = (String::new(), Vec::new());
                std::mem::swap(&mut entry, &mut self.subs[i]);
                let ghost was = entry;
                entry.1.push(id);
                std::mem::swap(&mut entry, &mut self.subs[i]);
                proof {
                    let after = self@;
                    assert(after =~= before.update(i as int, (filter@, before[i as int].1.push(id))));
                    assert(rest.skip(1) =~= before.skip(i + 1));
                    assert(after =~= before.take(i as int) + (seq![
                        (filter@, before[i as int].1.push(id)),
                    ] + before.skip(i + 1)));
                    assert(distinct(after)) by {
                        assert forall|a: int, b: int| 0 <= a < b < after.len() implies (
                        #[trigger] after[a]).0 != (#[trigger] after[b]).0 by {
                            assert(after[a].0 == before[a].0);
                            assert(after[b].0 == before[b].0);
                        }
                    }
                }
                return;
            }
            proof {
                assert(rest.skip(1) =~= before.skip(i + 1));
                assert(before.take(i as int) + (seq![rest[0]] + with_sub(
                    rest.skip(1),
                    filter@,
                    id,
                )) =~= before.take(i + 1) + with_sub(before.skip(i + 1), filter@, id));
            }
            i = i + 1;
        }
        let mut ids: Vec<u64> = Vec::new();
        ids.push(id);
        let ghost f = filter@;
        assert(before.skip(i as int) =~= Seq::<(Seq<char>, Seq<u64>)>::empty());
        assert(before.take(i as int) =~= before);
        assert(ids@ =~= seq![id]);
        self.subs.push((filter, ids));
        proof {
            assert(self@ =~= before.push((f, seq![id])));
            assert(before.push((f, seq![id])) =~= before + seq![(f, seq![id])]);
        }
    }

    /// The connections that a message on the topic goes to.
    pub fn publish(&self, topic: &str) -> (r: Vec<u64>)
        ensures
            r@ == receivers(self@, topic@),
    {
        let ghost t = self@;
        let mut r: Vec<u64> = Vec::new();
        let mut i: usize = 0;
        while i < self.subs.len()
            invariant
                i <= self.subs.len(),
                t == self@,
                r@ == receivers(t.take(i as int), topic@),
            decreases self.subs.len() - i,
        {
            proof {
                let next = t.take(i + 1);
                assert(next.drop_last() =~= t.take(i as int));
                assert(next.last() == (self.subs@[i as int].0@, self.subs@[i as int].1@));
            }
            if topic_matches(self.subs[i].0.as_str(), topic) {
                let ghost had = r@;
                let ids: &Vec<u64> = &self.subs[i].1;
                let mut k: usize = 0;
                while k < ids.len()
                    invariant
                        k <= ids.len(),
                        r@ == had + ids@.take(k as int),
                    decreases ids.len() - k,
                {
                    r.push(ids[k]);
                    assert(ids@.take(k + 1) =~= ids@.take(k as int).push(ids@[k as int]));
                    assert(r@ =~= had + ids@.take(k + 1));
                    k = k + 1;
                }
                assert(ids@.take(k as int) =~= ids@);
            }
            i = i + 1;
        }
        assert(t.take(i as int) =~= t);
        r
    }
}

proof fn lemma_receivers_join(
    a: Seq<(Seq<char>, Seq<u64>)>,
    b: Seq<(Seq<char>, Seq<u64>)>,
    topic: Seq<char>,
)
    ensures
        receivers(a + b, topic) == receivers(a, topic) + receivers(b, topic),
    decreases b.len(),
{
    if b.len() == 0 {
        assert(a + b =~= a);
        assert(receivers(a, topic) + receivers(b, topic) =~= receivers(a, topic));
    } else {
        lemma_receivers_join(a, b.drop_last(), topic);
        assert((a + b).drop_last() =~= a + b.drop_last());
        assert((a + b).last() == b.last());
        if covers(b.last().0, topic) {
            assert((receivers(a, topic) + receivers(b.drop_last(), topic)) + b.last().1
                =~= receivers(a, topic) + (receivers(b.drop_last(), topic) + b.last().1));
        }
    }
}

proof fn lemma_receivers_one(e: (Seq<char>, Seq<u64>), topic: Seq<char>)
    ensures
        receivers(seq![e], topic) == if covers(e.0, topic) {
            e.1
        } else {
            Seq::empty()
        },
{
    let s = seq![e];
    assert(s.drop_last() =~= Seq::<(Seq<char>, Seq<u64>)>::empty());
    assert(s.last() == e);
    assert(receivers(s.drop_last(), topic) =~= Seq::<u64>::empty());
    assert(Seq::<u64>::empty() + e.1 =~= e.1);
}

proof fn lemma_count_join(a: Seq<u64>, b: Seq<u64>, id: u64)
    ensures
        (a + b).to_multiset().count(id) == a.to_multiset().count(id) + b.to_multiset().count(id),
{
    vstd::seq_lib::lemma_multiset_commutative(a, b);
}

/// A subscription adds one copy, for the connection that asked, of the messages
/// that its filter covers. Nobody else's copies change.
pub proof fn law_subscription_adds_one_copy(
    t: Seq<(Seq<char>, Seq<u64>)>,
    filter: Seq<char>,
    id: u64,
    topic: Seq<char>,
    other: u64,
)
    ensures
        copies(with_sub(t, filter, id), topic, other) == copies(t, topic, other) + if other == id
            && covers(filter, topic) {
            1nat
        } else {
            0
        },
    decreases t.len(),
{
    broadcast use vstd::seq_lib::group_to_multiset_ensures;

    let w = with_sub(t, filter, id);
    if t.len() == 0 {
        lemma_receivers_one((filter, seq![id]), topic);
        assert(seq![id] =~= Seq::<u64>::empty().push(id));
    } else {
        let rest = t.skip(1);
        assert(t =~= seq![t[0]] + rest);
        lemma_receivers_join(seq![t[0]], rest, topic);
        lemma_count_join(receivers(seq![t[0]], topic), receivers(rest, topic), other);
        lemma_receivers_one(t[0], topic);
        if t[0].0 == filter {
            let e = (filter, t[0].1.push(id));
            lemma_receivers_join(seq![e], rest, topic);
            lemma_receivers_one(e, topic);
            lemma_count_join(receivers(seq![e], topic), receivers(rest, topic), other);
        } else {
            law_subscription_adds_one_copy(rest, filter, id, topic, other);
            let more = with_sub(rest, filter, id);
            lemma_receivers_join(seq![t[0]], more, topic);
            lemma_count_join(receivers(seq![t[0]], topic), receivers(more, topic), other);
        }
    }
}

/// What a connection of the broker does with a packet.
#[derive(Debug)]
pub enum BrokerAction {
    /// The filters are noted for the connection, and the reply is sent.
    Subscribe { filters: Vec<String>, reply: Packet },
    /// The message goes to those who asked for its topic.
    Forward(Publish),
    /// The reply is sent.
    Reply(Packet),
    /// Nothing.
    Ignore,
    /// The connection ends.
    Close,
}

/// The fault of a connection that does not begin with a CONNECT.
pub open spec fn first_packet_fault() -> Fault {
    fault(ErrorCode::CodecViolation, "first packet must be CONNECT"@)
}

/// Answers the first packet of a connection.
pub fn broker_greet(first: &Packet) -> (r: Result<Packet, ConnectorError>)
    ensures
        match r {
            Ok(p) => first is Connect && p == (Packet::ConnAck {
                session_present: false,
                return_code: 0,
            }),
            Err(e) => !(first is Connect) && e@ == first_packet_fault(),
        },
{
    match first {
        Packet::Connect(_) => Ok(Packet::ConnAck { session_present: false, return_code: 0 }),
        _ => Err(refuse(ErrorCode::CodecViolation, "first packet must be CONNECT")),
    }
}

/// The filters that a SUBSCRIBE names.
pub open spec fn filters_of(topics: Seq<(String, u8)>) -> Seq<Seq<char>> {
    topics.map_values(|t: (String, u8)| t.0@)
}

/// The reply codes to a SUBSCRIBE: only quality of service 0 is granted.
pub open spec fn codes_of(topics: Seq<(String, u8)>) -> Seq<u8> {
    topics.map_values(
        |t: (String, u8)|
            if t.1 > 0 {
                0x80u8
            } else {
                0u8
            },
    )
}

/// Decides what a connection does with a packet; `None` stands for one that
/// could not be read.
pub fn broker_step(packet: Option<Packet>) -> (r: BrokerAction)
    ensures
        match packet {
            None => r is Close,
            Some(Packet::Disconnect) => r is Close,
            Some(Packet::Publish(p)) => r == BrokerAction::Forward(p),
            Some(Packet::PingReq) => r == BrokerAction::Reply(Packet::PingResp),
            Some(Packet::Subscribe { packet_id, topics }) => match r {
                BrokerAction::Subscribe { filters, reply } => {
                    &&& texts(filters@) == filters_of(topics@)
                    &&& reply is SubAck
                    &&& reply->SubAck_packet_id == packet_id
                    &&& reply->codes@ == codes_of(topics@)
                },
                _ => false,
            },
            Some(_) => r is Ignore,
        },
{
    match packet {
        None => BrokerAction::Close,
        Some(Packet::Disconnect) => BrokerAction::Close,
        Some(Packet::Publish(p)) => BrokerAction::Forward(p),
        Some(Packet::PingReq) => BrokerAction::Reply(Packet::PingResp),
        Some(Packet::Subscribe { packet_id, topics }) => {
            let mut filters: Vec<String> = Vec::new();
            let mut codes: Vec<u8> = Vec::new();
            let mut i: usize = 0;
            while i < topics.len()
                invariant
                    i <= topics.len(),
                    texts(filters@) == filters_of(topics@).take(i as int),
                    codes@ == codes_of(topics@).take(i as int),
                decreases topics.len() - i,
            {
                let ghost fs = texts(filters@);
                filters.push(topics[i].0.clone());
                codes.push(
                    if topics[i].1 > 0 {
                        0x80
                    } else {
                        0
                    },
                );
                assert(texts(filters@) =~= fs.push(topics@[i as int].0@));
                assert(filters_of(topics@).take(i + 1) =~= filters_of(topics@).take(i as int).push(
                    topics@[i as int].0@,
                ));
                assert(codes@ =~= codes_of(topics@).take(i + 1));
                i = i + 1;
            }
            assert(filters_of(topics@).take(i as int) =~= filters_of(topics@));
            assert(codes_of(topics@).take(i as int) =~= codes_of(topics@));
            BrokerAction::Subscribe { filters, reply: Packet::SubAck { packet_id, codes } }
        },
        Some(_) => BrokerAction::Ignore,
    }
}

} // verus!
