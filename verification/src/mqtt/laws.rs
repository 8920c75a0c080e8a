//! What holds of MQTT 3.1.1 here: the packets byte by byte, the handshake, who
//! receives a message, and what becomes of each message of a session.

use super::broker::{broker_greet, broker_step, covers, BrokerAction};
use super::client::{
    connect_packet, expect_connack, expect_session, expect_suback, publish_packet, subscribe_packet,
};
use super::codec::{
    decoded, encoded, length_in, Connect, ConnectBody, Message, Packet, Publish, PublishBody,
};
use super::io::{expressible, lemma_remaining_shape, lemma_text_read, MqttFramedReader};
use super::session::{
    ping_every, Attempt, DecodeStep, Decoded, Held, Offer, PacketStep, RowStep, SourceSession,
    WaitEvent,
};
use super::sink::{MqttSink, MqttSinkConfig};
use super::source::{after_session, MqttSource, MqttSourceConfig, PumpStep};
use crate::error::ConnectorError;
use crate::model::{ErrorCode, Fault, Schema};
use crate::policy::{target_fault, TargetPolicy};
use crate::text::pieces;
use vstd::prelude::*;
use vstd::string::*;
use vstd::utf8::*;

verus! {

/// A text on the wire: its length in bytes, high byte first, and its bytes.
pub open spec fn text_on_wire(s: Seq<char>) -> Seq<u8> {
    bytes_on_wire(encode_utf8(s))
}

/// A byte string on the wire: its length, high byte first, and its bytes.
pub open spec fn bytes_on_wire(b: Seq<u8>) -> Seq<u8> {
    seq![(b.len() / 256) as u8, (b.len() % 256) as u8] + b
}

/// The length of what follows, in groups of seven bits, lowest first; a group
/// that another follows has 128 added.
pub open spec fn length_on_wire(n: nat) -> Seq<u8> {
    if n < 128 {
        seq![n as u8]
    } else if n < 128 * 128 {
        seq![(128 + n % 128) as u8, (n / 128) as u8]
    } else {
        seq![(128 + n % 128) as u8, (128 + n / 128 % 128) as u8, (n / 16384) as u8]
    }
}

/// A packet on the wire: the first byte, the length of the rest, the rest.
pub open spec fn on_wire(first: u8, body: Seq<u8>) -> Seq<u8> {
    seq![first] + length_on_wire(body.len()) + body
}

proof fn lemma_field_on_wire(b: Seq<u8>)
    requires
        b.len() < 65536,
    ensures
        super::codec::field(b) == bytes_on_wire(b),
{
    assert(super::codec::field(b) =~= bytes_on_wire(b));
}

proof fn lemma_framed_on_wire(first: u8, body: Seq<u8>)
    ensures
        body.len() <= 131072 ==> super::codec::framed(first, body) == Ok::<Seq<u8>, Fault>(
            on_wire(first, body),
        ),
        body.len() > 131072 ==> super::codec::framed(first, body) is Err
            && super::codec::framed(first, body)->Err_0.code == ErrorCode::MaxRecordSize,
{
    if body.len() <= 131072 {
        lemma_remaining_shape(body.len());
        assert(super::codec::remaining(body.len()) =~= length_on_wire(body.len()));
    }
}

/// The packets that have no strings, byte by byte.
pub proof fn law_short_packets_byte_by_byte(session_present: bool, return_code: u8)
    ensures
        encoded(Message::ConnAck { session_present, return_code }) == Ok::<Seq<u8>, Fault>(
            seq![0x20u8, 2u8, if session_present { 1u8 } else { 0u8 }, return_code],
        ),
        encoded(Message::PingReq) == Ok::<Seq<u8>, Fault>(seq![0xc0u8, 0u8]),
        encoded(Message::PingResp) == Ok::<Seq<u8>, Fault>(seq![0xd0u8, 0u8]),
        encoded(Message::Disconnect) == Ok::<Seq<u8>, Fault>(seq![0xe0u8, 0u8]),
{
}

/// The reply to a CONNECT is read byte by byte: the lowest bit of the first byte
/// says whether there was a session, the second is the return code.
pub proof fn law_connack_is_read_byte_by_byte(first: u8, b: Seq<u8>)
    requires
        0x20 <= first < 0x30,
    ensures
        b.len() >= 2 ==> decoded(first, b) == Ok::<Message, Fault>(
            Message::ConnAck { session_present: b[0] % 2 == 1, return_code: b[1] },
        ),
        b.len() < 2 ==> decoded(first, b) is Err && decoded(first, b)->Err_0.code
            == ErrorCode::CodecViolation,
{
}

/// The high half of the first byte says which packet it is; the halves that
/// stand for no packet that is known here are refused.
pub proof fn law_the_first_byte_names_the_packet(first: u8, b: Seq<u8>)
    ensures
        decoded(first, b) matches Ok(m) ==> match m {
            Message::Connect(_) => 0x10 <= first < 0x20,
            Message::ConnAck { .. } => 0x20 <= first < 0x30,
            Message::Publish(_) => 0x30 <= first < 0x40,
            Message::Subscribe { .. } => 0x80 <= first < 0x90,
            Message::SubAck { .. } => 0x90 <= first < 0xa0,
            Message::PingReq => 0xc0 <= first < 0xd0,
            Message::PingResp => 0xd0 <= first < 0xe0,
            Message::Disconnect => 0xe0 <= first < 0xf0,
        },
        0xc0 <= first < 0xf0 ==> decoded(first, b) is Ok,
        first < 0x10 || 0x40 <= first < 0x80 || 0xa0 <= first < 0xc0 || first >= 0xf0 ==> decoded(
            first,
            b,
        ) is Err,
{
}

/// A CONNECT byte by byte: the protocol's name and level 4, the flags, the
/// keepalive in seconds, the client's name, then a name and a password where
/// there are any.
pub proof fn law_connect_byte_by_byte(c: ConnectBody)
    requires
        expressible(Message::Connect(c)),
    ensures
        ({
            let flags = (if c.clean_session { 0x02int } else { 0 }) + (if c.password is Some {
                0x40int
            } else {
                0
            }) + (if c.username is Some { 0x80int } else { 0 });
            let body = seq![
                0u8,
                4u8,
                'M' as u8,
                'Q' as u8,
                'T' as u8,
                'T' as u8,
                4u8,
                flags as u8,
                (c.keepalive / 256) as u8,
                (c.keepalive % 256) as u8,
            ] + text_on_wire(c.client_id) + (match c.username {
                Some(u) => text_on_wire(u),
                None => Seq::empty(),
            }) + (match c.password {
                Some(p) => bytes_on_wire(p),
                None => Seq::empty(),
            });
            &&& body.len() <= 131072 ==> encoded(Message::Connect(c)) == Ok::<Seq<u8>, Fault>(
                on_wire(0x10, body),
            )
            &&& body.len() > 131072 ==> encoded(Message::Connect(c)) is Err
        }),
{
    reveal_strlit("MQTT");
    let proto = encode_utf8("MQTT"@);
    assert(is_ascii_chars("MQTT"@));
    is_ascii_chars_encode_utf8("MQTT"@);
    assert("MQTT"@[0] == 'M' && "MQTT"@[1] == 'Q' && "MQTT"@[2] == 'T' && "MQTT"@[3] == 'T');
    assert(proto =~= seq!['M' as u8, 'Q' as u8, 'T' as u8, 'T' as u8]);
    lemma_field_on_wire(encode_utf8(c.client_id));
    match c.username {
        Some(u) => lemma_field_on_wire(encode_utf8(u)),
        None => {},
    }
    match c.password {
        Some(p) => lemma_field_on_wire(p),
        None => {},
    }
    let flags = (if c.clean_session { 0x02int } else { 0 }) + (if c.password is Some {
        0x40int
    } else {
        0
    }) + (if c.username is Some { 0x80int } else { 0 });
    let body = seq![
        0u8,
        4u8,
        'M' as u8,
        'Q' as u8,
        'T' as u8,
        'T' as u8,
        4u8,
        flags as u8,
        (c.keepalive / 256) as u8,
        (c.keepalive % 256) as u8,
    ] + text_on_wire(c.client_id) + (match c.username {
        Some(u) => text_on_wire(u),
        None => Seq::empty(),
    }) + (match c.password {
        Some(p) => bytes_on_wire(p),
        None => Seq::empty(),
    });
    assert(super::codec::connect_bytes(c) =~= body);
    lemma_framed_on_wire(0x10, body);
}

/// A PUBLISH byte by byte: the flags in the first byte, the topic, an identifier
/// where the quality is above 0, and the payload.
pub proof fn law_publish_byte_by_byte(p: PublishBody)
    requires
        expressible(Message::Publish(p)),
    ensures
        ({
            let first = 0x30 + (if p.dup { 8int } else { 0 }) + 2 * p.qos + (if p.retain {
                1int
            } else {
                0
            });
            let id = match p.packet_id {
                Some(i) => seq![(i / 256) as u8, (i % 256) as u8],
                None => Seq::empty(),
            };
            let body = text_on_wire(p.topic) + id + p.payload;
            &&& body.len() <= 131072 ==> encoded(Message::Publish(p)) == Ok::<Seq<u8>, Fault>(
                on_wire(first as u8, body),
            )
            &&& body.len() > 131072 ==> encoded(Message::Publish(p)) is Err
        }),
{
    lemma_field_on_wire(encode_utf8(p.topic));
    let id = match p.packet_id {
        Some(i) => seq![(i / 256) as u8, (i % 256) as u8],
        None => Seq::empty(),
    };
    let body = text_on_wire(p.topic) + id + p.payload;
    assert(super::codec::publish_bytes(p) =~= body);
    lemma_framed_on_wire(super::codec::publish_first(p), body);
}

/// A message of an unknown quality is not sent.
pub proof fn law_an_unknown_quality_is_not_sent(p: PublishBody)
    requires
        p.qos > 2,
    ensures
        encoded(Message::Publish(p)) is Err,
        encoded(Message::Publish(p))->Err_0.code == ErrorCode::CodecViolation,
{
}

/// A PUBLISH is read byte by byte: bit 3 of the first byte is the repeat, bits 1
/// and 2 are the quality, bit 0 is the retaining; the topic comes first, then an
/// identifier where the quality is above 0, and all the rest is the payload.
pub proof fn law_publish_is_read_byte_by_byte(
    first: u8,
    topic: Seq<char>,
    hi: u8,
    lo: u8,
    payload: Seq<u8>,
)
    requires
        0x30 <= first < 0x40,
        encode_utf8(topic).len() < 65536,
    ensures
        ({
            let plain = decoded(first, text_on_wire(topic) + payload);
            let marked = decoded(first, text_on_wire(topic) + seq![hi, lo] + payload);
            let q = (first % 8) / 2;
            &&& q == 0 ==> plain == Ok::<Message, Fault>(
                Message::Publish(
                    PublishBody {
                        dup: first % 16 >= 8,
                        qos: 0,
                        retain: first % 2 == 1,
                        topic,
                        packet_id: None,
                        payload,
                    },
                ),
            )
            &&& q > 0 ==> marked == Ok::<Message, Fault>(
                Message::Publish(
                    PublishBody {
                        dup: first % 16 >= 8,
                        qos: q,
                        retain: first % 2 == 1,
                        topic,
                        packet_id: Some((hi * 256 + lo) as u16),
                        payload,
                    },
                ),
            )
        }),
{
    let t = encode_utf8(topic);
    lemma_field_on_wire(t);
    let e = Seq::<u8>::empty();
    let plain = text_on_wire(topic) + payload;
    assert(plain =~= e + super::codec::field(t) + payload);
    lemma_text_read(e, topic, payload);
    assert(plain.skip(2 + t.len() as int) =~= payload);
    let marked = text_on_wire(topic) + seq![hi, lo] + payload;
    assert(marked =~= e + super::codec::field(t) + (seq![hi, lo] + payload));
    lemma_text_read(e, topic, seq![hi, lo] + payload);
    assert(marked.skip(4 + t.len() as int) =~= payload);
    let i = 2 + t.len() as int;
    assert(marked[i] == hi && marked[i + 1] == lo);
    assert((first as int / 2) % 4 == (first % 8) / 2);
    assert((first as int / 8) % 2 == 1 <==> first % 16 >= 8);
    assert((first as int / 1) % 2 == first % 2);
}

/// A SUBSCRIBE for one topic and its reply, byte by byte.
pub proof fn law_subscribe_byte_by_byte(packet_id: u16, topic: Seq<char>, qos: u8, codes: Seq<u8>)
    requires
        encode_utf8(topic).len() < 65536,
        codes.len() <= 1000,
    ensures
        ({
            let id = seq![(packet_id / 256) as u8, (packet_id % 256) as u8];
            &&& encoded(Message::Subscribe { packet_id, topics: seq![(topic, qos)] }) == Ok::<
                Seq<u8>,
                Fault,
            >(on_wire(0x82, id + text_on_wire(topic) + seq![qos]))
            &&& encoded(Message::SubAck { packet_id, codes }) == Ok::<Seq<u8>, Fault>(
                on_wire(0x90, id + codes),
            )
        }),
{
    let id = seq![(packet_id / 256) as u8, (packet_id % 256) as u8];
    lemma_field_on_wire(encode_utf8(topic));
    let one = seq![(topic, qos)];
    reveal_with_fuel(super::codec::topics_bytes, 2);
    assert(one.skip(1) =~= Seq::empty());
    assert(super::codec::topics_bytes(one) =~= text_on_wire(topic) + seq![qos]);
    assert(super::codec::be16(packet_id as int) + super::codec::topics_bytes(one) =~= id
        + text_on_wire(topic) + seq![qos]);
    lemma_framed_on_wire(0x82, id + text_on_wire(topic) + seq![qos]);
    assert(super::codec::be16(packet_id as int) =~= id);
    lemma_framed_on_wire(0x90, id + codes);
}

/// The topics of a SUBSCRIBE are written one after another.
pub proof fn law_topics_follow_each_other(packet_id: u16, t: Seq<(Seq<char>, u8)>)
    requires
        t.len() > 0,
        encode_utf8(t[0].0).len() < 65536,
    ensures
        super::codec::topics_bytes(t) == text_on_wire(t[0].0) + seq![t[0].1]
            + super::codec::topics_bytes(t.skip(1)),
        super::codec::topics_bytes(Seq::empty()) == Seq::<u8>::empty(),
{
    lemma_field_on_wire(encode_utf8(t[0].0));
}

/// A remaining length is read group by group: up to four groups of seven bits,
/// the lowest first, the last one below 128. It is refused above 128 KiB, and so
/// is one that has no end within four bytes.
pub proof fn law_lengths_are_read_group_by_group(b: Seq<u8>)
    requires
        b.len() >= 4,
    ensures
        ({
            let v = if b[0] < 128 {
                (b[0] as int, 1int)
            } else if b[1] < 128 {
                (b[0] - 128 + 128 * b[1], 2)
            } else if b[2] < 128 {
                (b[0] - 128 + 128 * (b[1] - 128) + 16384 * b[2], 3)
            } else {
                (
                    b[0] - 128 + 128 * (b[1] - 128) + 16384 * (b[2] - 128) + 2097152 * b[3],
                    4,
                )
            };
            let ends = b[0] < 128 || b[1] < 128 || b[2] < 128 || b[3] < 128;
            &&& ends && v.0 <= 131072 ==> length_in(b) == Ok::<(int, int), Fault>(v)
            &&& ends && v.0 > 131072 ==> length_in(b) is Err && length_in(b)->Err_0.code
                == ErrorCode::MaxRecordSize
            &&& !ends ==> length_in(b) is Err && length_in(b)->Err_0.code
                == ErrorCode::CodecViolation
        }),
{
    let v0 = (b[0] % 128) as int;
    let v1 = v0 + (b[1] % 128) * 128;
    let v2 = v1 + (b[2] % 128) * 16384;
    assert(b[0] >= 128 ==> length_in(b) == super::codec::length_from(b, 1, 128, v0));
    assert(b[1] >= 128 ==> super::codec::length_from(b, 1, 128, v0) == super::codec::length_from(
        b,
        2,
        16384,
        v1,
    ));
    assert(b[2] >= 128 ==> super::codec::length_from(b, 2, 16384, v1) == super::codec::length_from(
        b,
        3,
        2097152,
        v2,
    ));
}

/// A stream that was closed and a buffer of more than a packet are faults; what
/// was read is kept in its order.
pub proof fn law_what_was_read_is_kept(
    reader: &mut MqttFramedReader,
    bytes: &[u8],
    r: Result<(), ConnectorError>,
)
    requires
        call_ensures(MqttFramedReader::feed, (reader, bytes), r),
    ensures
        final(reader).buf@ == old(reader).buf@ + bytes@,
        r is Ok <==> bytes@.len() > 0 && old(reader).buf@.len() + bytes@.len() <= 131072 + 8,
{
}

/// A session is open where the broker answers a CONNECT with a CONNACK of return
/// code 0, and a subscription stands where it answers with a SUBACK.
pub proof fn law_only_code_zero_opens_a_session(
    p: Packet,
    label: &str,
    shown: &str,
    a: Result<(), ConnectorError>,
    b: Result<(), ConnectorError>,
    c: Result<(), ConnectorError>,
)
    requires
        call_ensures(expect_connack, (&p, shown), a),
        call_ensures(expect_session, (&p, label, shown), b),
        call_ensures(expect_suback, (&p, shown), c),
    ensures
        a is Ok <==> (p matches Packet::ConnAck { return_code, .. } && return_code == 0),
        b is Ok <==> (p matches Packet::ConnAck { return_code, .. } && return_code == 0),
        c is Ok <==> p is SubAck,
{
}

/// What a client sends: a CONNECT with what it was told and the keepalive in
/// whole seconds, a message of quality 0, and a request for one topic of
/// quality 0.
pub proof fn law_what_a_client_sends(
    client_id: &str,
    clean_session: bool,
    keepalive_ms: u64,
    username: Option<String>,
    password: Option<Vec<u8>>,
    topic: &str,
    payload: Vec<u8>,
    hello: Packet,
    message: Packet,
    request: Packet,
)
    requires
        call_ensures(
            connect_packet,
            (client_id, clean_session, keepalive_ms, username, password),
            hello,
        ),
        call_ensures(publish_packet, (topic, payload), message),
        call_ensures(subscribe_packet, (topic,), request),
    ensures
        hello@ is Connect,
        hello@->Connect_0.client_id == client_id@,
        hello@->Connect_0.clean_session == clean_session,
        keepalive_ms < 65536000 ==> hello@->Connect_0.keepalive == keepalive_ms / 1000,
        hello@->Connect_0.username is Some <==> username is Some,
        username is Some ==> hello@->Connect_0.username->0 == username->0@,
        password is Some ==> hello@->Connect_0.password == Some(password->0@),
        message@ == Message::Publish(
            PublishBody {
                dup: false,
                qos: 0,
                retain: false,
                topic: topic@,
                packet_id: None,
                payload: payload@,
            },
        ),
        request@ is Subscribe,
        request@->topics == seq![(topic@, 0u8)],
        request@->Subscribe_packet_id == 1,
{
    assert(request@->topics =~= seq![(topic@, 0u8)]);
}

/// What the broker answers.
pub proof fn law_what_the_broker_answers(
    p: Packet,
    greeting: Result<Packet, ConnectorError>,
    action: BrokerAction,
)
    requires
        call_ensures(broker_greet, (&p,), greeting),
        call_ensures(broker_step, (Some(p),), action),
    ensures
        greeting is Ok <==> p is Connect,
        greeting matches Ok(g) ==> g@ == (Message::ConnAck {
            session_present: false,
            return_code: 0,
        }),
        p matches Packet::Publish(m) ==> action == BrokerAction::Forward(m),
        p is PingReq ==> (action matches BrokerAction::Reply(a) && a is PingResp),
        p is Disconnect ==> action is Close,
        p is Subscribe ==> {
            &&& action is Subscribe
            &&& action->filters@.len() == p->topics@.len()
            &&& action->reply is SubAck
            &&& action->reply->SubAck_packet_id == p->Subscribe_packet_id
            &&& action->reply->codes@.len() == p->topics@.len()
            &&& forall|i: int|
                0 <= i < p->topics@.len() ==> {
                    &&& (#[trigger] action->filters@[i])@ == p->topics@[i].0@
                    &&& action->reply->codes@[i] == if p->topics@[i].1 == 0 {
                        0u8
                    } else {
                        128u8
                    }
                }
        },
{
    if p is Subscribe {
        let f = crate::text::texts(action->filters@);
        assert(f.len() == p->topics@.len());
        assert forall|i: int| 0 <= i < p->topics@.len() implies {
            &&& (#[trigger] action->filters@[i])@ == p->topics@[i].0@
            &&& action->reply->codes@[i] == if p->topics@[i].1 == 0 {
                0u8
            } else {
                128u8
            }
        } by {
            assert(f[i] == action->filters@[i]@);
        }
    }
}

/// A packet that could not be read ends the connection.
pub proof fn law_an_unreadable_packet_ends_the_connection(action: BrokerAction)
    requires
        call_ensures(broker_step, (None,), action),
    ensures
        action is Close,
{
}

/// Which topics a filter covers: `#` covers every one, a filter covers itself,
/// and one that ends in `/#` covers what stands before that and everything below
/// it. A filter without wildcards covers nothing else.
pub proof fn law_which_topics_a_filter_covers(filter: Seq<char>, topic: Seq<char>, tail: Seq<char>)
    ensures
        covers(seq!['#'], topic),
        covers(topic, topic),
        covers(filter + seq!['/', '#'], filter),
        covers(filter + seq!['/', '#'], filter + seq!['/'] + tail),
        !filter.contains('+') && !filter.contains('#') && filter != topic ==> !covers(
            filter,
            topic,
        ),
        !filter.contains('+') && filter + seq!['/', '#'] != topic ==> (covers(
            filter + seq!['/', '#'],
            topic,
        ) <==> topic == filter || (topic.len() > filter.len() && topic.take(
            filter.len() as int + 1,
        ) == filter + seq!['/'])),
{
    reveal_strlit("#");
    assert("#"@ =~= seq!['#']);
    let tree = filter + seq!['/', '#'];
    assert(tree.take(tree.len() - 2) =~= filter);
    assert(filter.push('/') =~= filter + seq!['/']);
    let below = filter + seq!['/'] + tail;
    assert(below.take(filter.len() as int + 1) =~= filter + seq!['/']);
    assert(tree != "#"@) by {
        assert(tree.len() >= 2);
    }
    if !filter.contains('#') && filter.len() >= 2 {
        assert(filter[filter.len() - 1] != '#');
    }
    if filter == "#"@ {
        assert(filter[0] == '#');
    }
}

/// A filter with `+` covers the topics of as many levels that have any level
/// where it has a `+` and its own level everywhere else.
pub proof fn law_a_plus_covers_one_level(filter: Seq<char>, topic: Seq<char>)
    requires
        filter.contains('+'),
        !filter.contains('#'),
    ensures
        ({
            let f = pieces(filter, '/');
            let t = pieces(topic, '/');
            covers(filter, topic) <==> filter == topic || (f.len() == t.len() && forall|i: int|
                0 <= i < f.len() ==> #[trigger] f[i] == seq!['+'] || f[i] == t[i])
        }),
{
    reveal_strlit("+");
    reveal_strlit("#");
    assert("+"@ =~= seq!['+']);
    if filter.len() >= 2 {
        assert(filter[filter.len() - 1] != '#');
    }
    if filter == "#"@ {
        assert(filter[0] == '#');
    }
}

/// A session pings every half of its keepalive, every fifteen seconds where it
/// has none.
pub proof fn law_a_session_pings_twice_per_keepalive(keepalive_ms: u64, r: u64)
    requires
        call_ensures(ping_every, (keepalive_ms,), r),
    ensures
        keepalive_ms == 0 ==> r == 15 * 1000 * 1000,
        0 < keepalive_ms <= u64::MAX / 500 ==> 2 * r == keepalive_ms * 1000,
{
}

/// A ping moves the next one by the interval and changes nothing else.
pub proof fn law_a_ping_moves_the_next_one(s: &mut SourceSession, now: u64)
    requires
        call_ensures(SourceSession::on_ping, (s, now), ()),
        now + s.ping_every <= u64::MAX,
    ensures
        final(s).next_ping == now + old(s).ping_every,
        final(s).ping_every == old(s).ping_every,
        final(s).counts == old(s).counts,
        final(s).held == old(s).held,
{
}

/// A message is decoded, a DISCONNECT ends the session, and any other packet is
/// passed over.
pub proof fn law_messages_are_decoded(s: &mut SourceSession, p: Packet, r: PacketStep)
    requires
        call_ensures(SourceSession::on_packet, (s, p), r),
        s.counts.received < u64::MAX,
    ensures
        p is Publish ==> {
            &&& r == PacketStep::Decode(p->Publish_0.payload)
            &&& final(s).counts.received == old(s).counts.received + 1
            &&& final(s).held is Payload
        },
        p is Disconnect <==> r is Close,
        !(p is Publish) ==> *final(s) == *old(s),
        final(s).next_ping == old(s).next_ping,
{
}

/// A row goes to the inbox. What cannot be decoded is counted and passed over,
/// or fails the source where it was told to and decoding failed.
pub proof fn law_what_cannot_be_decoded_is_counted(
    s: &mut SourceSession,
    d: Decoded,
    fail_on_decode: bool,
    r: DecodeStep,
)
    requires
        call_ensures(SourceSession::on_decoded, (s, d, fail_on_decode), r),
        s.counts.decoded < u64::MAX,
        s.counts.dropped_bad < u64::MAX,
        s.counts.decode_errors < u64::MAX,
    ensures
        r == DecodeStep::Offer <==> d == Decoded::Row,
        r == DecodeStep::Fail <==> d == Decoded::Failed && fail_on_decode,
        d == Decoded::Row ==> final(s).counts.decoded == old(s).counts.decoded + 1
            && final(s).counts.dropped_bad == old(s).counts.dropped_bad,
        d != Decoded::Row ==> final(s).counts.dropped_bad == old(s).counts.dropped_bad + 1
            && final(s).counts.decode_errors == old(s).counts.decode_errors + 1
            && final(s).counts.decoded == old(s).counts.decoded && final(s).held is Nothing,
{
}

/// A row that the inbox takes is delivered. One that finds it full waits until
/// its time is over, or is dropped at once where it has none.
pub proof fn law_a_row_waits_for_room(
    s: &mut SourceSession,
    offer: Offer,
    wait: u64,
    now: u64,
    r: RowStep,
)
    requires
        call_ensures(SourceSession::on_offer, (s, offer, wait, now), r),
        s.counts.delivered < u64::MAX,
        s.counts.dropped_full < u64::MAX,
        s.counts.waits < u64::MAX,
        s.counts.abandoned < u64::MAX,
        now + wait <= u64::MAX,
    ensures
        offer == Offer::Taken ==> r == RowStep::Read && final(s).counts.delivered
            == old(s).counts.delivered + 1 && final(s).held is Nothing,
        offer == Offer::Full && wait == 0 ==> r == RowStep::Read && final(s).counts.dropped_full
            == old(s).counts.dropped_full + 1 && final(s).counts.waits == old(s).counts.waits,
        offer == Offer::Full && wait > 0 ==> r == RowStep::Wait && final(s).counts.waits
            == old(s).counts.waits + 1 && final(s).held == (Held::Waiting {
            deadline: (now + wait) as u64,
        }) && final(s).counts.dropped_full == old(s).counts.dropped_full,
        offer == Offer::Closed ==> r == RowStep::Close && final(s).counts.abandoned
            == old(s).counts.abandoned + 1,
        offer != Offer::Taken ==> final(s).counts.delivered == old(s).counts.delivered,
{
}

/// How the wait of a row ends: it is delivered where there is room, dropped at
/// its deadline, and given up where the session ends. A ping changes neither the
/// row nor its deadline.
pub proof fn law_how_a_wait_ends(s: &mut SourceSession, event: WaitEvent, r: RowStep)
    requires
        call_ensures(SourceSession::on_wait, (s, event), r),
        s.counts.delivered < u64::MAX,
        s.counts.recovered < u64::MAX,
        s.counts.dropped_full < u64::MAX,
        s.counts.abandoned < u64::MAX,
    ensures
        event is PingDue ==> r == RowStep::PingThenWait && final(s).held == old(s).held
            && final(s).counts == old(s).counts,
        event is Room ==> r == RowStep::Send && final(s).counts.delivered
            == old(s).counts.delivered + 1 && final(s).counts.recovered
            == old(s).counts.recovered + 1 && final(s).counts.dropped_full
            == old(s).counts.dropped_full,
        event is Deadline ==> r == RowStep::Read && final(s).counts.dropped_full
            == old(s).counts.dropped_full + 1 && final(s).counts.delivered
            == old(s).counts.delivered,
        event is Cancelled || event is Closed ==> r == RowStep::Close && final(s).counts.abandoned
            == old(s).counts.abandoned + 1,
{
}

/// A row that no inbox could hold is dropped and counted; any other goes on.
pub proof fn law_a_row_that_fits_no_inbox_is_dropped(
    s: &mut SourceSession,
    bytes: usize,
    queue_bytes: usize,
    max_row_bytes: usize,
    r: bool,
)
    requires
        call_ensures(SourceSession::on_size, (s, bytes, queue_bytes, max_row_bytes), r),
        s.counts.dropped_oversize < u64::MAX,
    ensures
        r <==> bytes <= queue_bytes && bytes <= max_row_bytes,
        r ==> *final(s) == *old(s),
        !r ==> final(s).counts.dropped_oversize == old(s).counts.dropped_oversize + 1
            && final(s).held is Nothing,
{
}

/// A charged row is put into the inbox, waits while there is neither room nor
/// memory, and is dropped once its time is over: for want of memory where that
/// was the reason.
pub proof fn law_a_charged_row_waits(
    s: &mut SourceSession,
    attempt: Attempt,
    now: u64,
    r: RowStep,
)
    requires
        call_ensures(SourceSession::on_attempt, (s, attempt, now), r),
        s.held is Charged,
        s.counts.delivered < u64::MAX,
        s.counts.dropped_full < u64::MAX,
        s.counts.dropped_budget < u64::MAX,
        s.counts.abandoned < u64::MAX,
    ensures
        attempt == Attempt::Taken ==> r == RowStep::Read && final(s).counts.delivered
            == old(s).counts.delivered + 1,
        attempt == Attempt::Cancelled || attempt == Attempt::Closed ==> r == RowStep::Close
            && final(s).counts.abandoned == old(s).counts.abandoned + 1,
        (attempt == Attempt::Full || attempt == Attempt::NoCredit) && now
            >= old(s).held->Charged_deadline ==> {
            &&& r == RowStep::Read
            &&& final(s).counts.dropped_full == old(s).counts.dropped_full + 1
            &&& final(s).counts.dropped_budget == old(s).counts.dropped_budget + if attempt
                == Attempt::NoCredit {
                1int
            } else {
                0
            }
        },
        attempt == Attempt::Full && now < old(s).held->Charged_deadline ==> r == RowStep::Wait
            && final(s).held is Charged && final(s).held->Charged_deadline
            == old(s).held->Charged_deadline && final(s).counts.dropped_full
            == old(s).counts.dropped_full,
        attempt == Attempt::NoCredit && now < old(s).held->Charged_deadline ==> r
            == RowStep::WaitForCredit && final(s).held is Charged
            && final(s).held->Charged_deadline == old(s).held->Charged_deadline,
{
}

/// What follows the end of a session: the source is done where it ended well,
/// fails on bad data where it was told to, and else opens another after its
/// pause; the pause after that is twice as long, up to the longest.
pub proof fn law_what_follows_a_session(
    ended: Result<(), ErrorCode>,
    fail_on_decode: bool,
    backoff_ms: u64,
    max_ms: u64,
    r: PumpStep,
)
    requires
        call_ensures(after_session, (ended, fail_on_decode, backoff_ms, max_ms), r),
    ensures
        ended is Ok <==> r is Done,
        r is Fail <==> fail_on_decode && (ended matches Err(c) && (c == ErrorCode::CodecViolation
            || c == ErrorCode::MaxRecordSize || c == ErrorCode::InvalidSchema || c
            == ErrorCode::TypeMismatch || c == ErrorCode::BoundExceeded)),
        r matches PumpStep::Reconnect { sleep_ms, next_ms } ==> {
            &&& sleep_ms == backoff_ms
            &&& next_ms == if 2 * backoff_ms < max_ms {
                2 * backoff_ms
            } else {
                max_ms as int
            }
        },
{
}

/// Which settings of the source are accepted before secrets are looked up.
pub proof fn law_source_settings(cfg: MqttSourceConfig, policy: TargetPolicy)
    ensures
        cfg.fault(policy) is None <==> {
            &&& cfg.qos == 0
            &&& cfg.clean_session
            &&& cfg.restore is Absent
            &&& !cfg.tls.skip_verify
            &&& (cfg.tcp_quickack ==> cfg.quickack_available)
            &&& cfg.host@.len() > 0 && cfg.client_id@.len() > 0 && cfg.topic@.len() > 0
            &&& 1 <= cfg.inbox_capacity <= if cfg.inbox_bytes is Some {
                4096int
            } else {
                1024
            }
            &&& cfg.inbox_wait_ms <= 1000
            &&& target_fault(policy.allowed@, cfg.host@, cfg.port) is None
            &&& (cfg.username_secret is Some || cfg.password_secret is Some ==> cfg.tls.enabled)
        },
{
}

/// Which inboxes fit a queue: all their rows of the largest size, or their bytes
/// where rows are charged; four MiB at most.
pub proof fn law_which_inboxes_fit(cfg: MqttSourceConfig, queue_budget: usize)
    requires
        cfg.inbox_capacity * cfg.json_limits.max_bytes <= usize::MAX,
    ensures
        cfg.inbox_bytes is None ==> (cfg.budget_fault(queue_budget) is None <==> cfg.inbox_capacity
            * cfg.json_limits.max_bytes <= queue_budget && cfg.inbox_capacity
            * cfg.json_limits.max_bytes <= 4 * 1024 * 1024),
        cfg.inbox_bytes matches Some(n) ==> (cfg.budget_fault(queue_budget) is None <==> n > 0 && n
            + cfg.channel_bytes <= queue_budget && n + cfg.channel_bytes <= 4 * 1024 * 1024
            && cfg.json_limits.max_bytes <= 64 * 1024),
        cfg.budget_fault(queue_budget) matches Some(f) ==> f.code == ErrorCode::BoundExceeded,
{
}

/// Which settings of the sink are accepted.
pub proof fn law_sink_settings(cfg: MqttSinkConfig, policy: TargetPolicy)
    ensures
        cfg.fault(policy) is None <==> {
            &&& cfg.qos == 0
            &&& cfg.clean_session
            &&& cfg.restore is Absent
            &&& !cfg.tls.skip_verify
            &&& cfg.host@.len() > 0 && cfg.client_id@.len() > 0 && cfg.topic@.len() > 0
            &&& 1 <= cfg.outbox_capacity <= 1024
            &&& target_fault(policy.allowed@, cfg.host@, cfg.port) is None
        },
{
}

/// A row is one message of quality 0 on the sink's topic; one that could not be
/// encoded or is too long is none.
pub proof fn law_a_row_is_one_message(
    sink: MqttSink,
    body: Option<Vec<u8>>,
    max_bytes: usize,
    r: Option<Packet>,
)
    requires
        call_ensures(MqttSink::row_packet, (&sink, body, max_bytes), r),
    ensures
        r is Some <==> body is Some && body->0@.len() <= max_bytes,
        r matches Some(p) ==> p@ == Message::Publish(
            PublishBody {
                dup: false,
                qos: 0,
                retain: false,
                topic: sink.config.topic@,
                packet_id: None,
                payload: body->0@,
            },
        ),
{
}

/// A packet says what its fields say.
pub proof fn law_a_packet_says_what_its_fields_say(c: Connect, p: Publish, i: int, t: Vec<(String, u8)>)
    requires
        0 <= i < t@.len(),
    ensures
        Packet::Connect(c)@ == Message::Connect(c@),
        c@.client_id == c.client_id@ && c@.clean_session == c.clean_session && c@.keepalive
            == c.keepalive,
        c.username is Some ==> c@.username == Some(c.username->0@),
        c.username is None ==> c@.username is None,
        c.password is Some ==> c@.password == Some(c.password->0@),
        c.password is None ==> c@.password is None,
        Packet::Publish(p)@ == Message::Publish(p@),
        p@.dup == p.dup && p@.qos == p.qos && p@.retain == p.retain && p@.topic == p.topic@
            && p@.packet_id == p.packet_id && p@.payload == p.payload@,
        (Packet::Subscribe { packet_id: 7, topics: t })@->topics.len() == t@.len(),
        (Packet::Subscribe { packet_id: 7, topics: t })@->topics[i] == (t@[i].0@, t@[i].1),
{
}

/// A row whose memory is reserved waits until its time is over; one for which
/// there is not even working memory is dropped and counted.
pub proof fn law_a_reservation_is_made(
    s: &mut SourceSession,
    reserved: bool,
    bytes: u64,
    wait: u64,
    now: u64,
    r: bool,
)
    requires
        call_ensures(SourceSession::on_reservation, (s, reserved, bytes, wait, now), r),
        s.counts.dropped_budget < u64::MAX,
        s.counts.unreserved < u64::MAX,
        now + wait <= u64::MAX,
    ensures
        r <==> reserved,
        reserved ==> final(s).held == (Held::Charged {
            bytes,
            deadline: (now + wait) as u64,
            waited: false,
            no_credit: false,
        }),
        reserved ==> final(s).counts == old(s).counts,
        !reserved ==> final(s).held is Nothing && final(s).counts.dropped_budget
            == old(s).counts.dropped_budget + 1 && final(s).counts.unreserved
            == old(s).counts.unreserved + 1 && final(s).counts.dropped_full
            == old(s).counts.dropped_full,
{
}

/// How the wait of a charged row ends: it is tried again where there is room, and
/// dropped at its deadline, for want of memory where that was the reason. A ping
/// changes neither the row nor its deadline.
pub proof fn law_how_a_charged_wait_ends(s: &mut SourceSession, event: WaitEvent, r: RowStep)
    requires
        call_ensures(SourceSession::on_charged_wait, (s, event), r),
        s.held is Charged,
        s.counts.dropped_full < u64::MAX,
        s.counts.dropped_budget < u64::MAX,
        s.counts.abandoned < u64::MAX,
    ensures
        event is PingDue ==> r == RowStep::PingThenRetry && final(s).held == old(s).held
            && final(s).counts == old(s).counts,
        event is Room || event is Closed ==> r == RowStep::Retry && *final(s) == *old(s),
        event is Deadline ==> r == RowStep::Read && final(s).held is Nothing
            && final(s).counts.dropped_full == old(s).counts.dropped_full + 1,
        event is Deadline && old(s).held->no_credit ==> final(s).counts.dropped_budget
            == old(s).counts.dropped_budget + 1,
        event is Deadline && !old(s).held->no_credit ==> final(s).counts.dropped_budget
            == old(s).counts.dropped_budget,
        event is Cancelled ==> r == RowStep::Close && final(s).held is Nothing
            && final(s).counts.abandoned == old(s).counts.abandoned + 1,
        final(s).counts.delivered == old(s).counts.delivered,
{
}

/// An inbox that counts bytes is run with a budget, any other without one.
pub proof fn law_which_inboxes_are_budgeted(
    s: MqttSource,
    a: Result<(), ConnectorError>,
    capacity: usize,
    budget: usize,
    b: Result<usize, ConnectorError>,
)
    requires
        call_ensures(MqttSource::check_run, (&s,), a),
        call_ensures(MqttSource::check_run_budgeted, (&s, capacity, budget), b),
    ensures
        a is Ok <==> s.config.inbox_bytes is None,
        b is Ok ==> s.config.inbox_bytes == Some(b->Ok_0) && capacity == s.config.inbox_capacity
            && b->Ok_0 > 0 && b->Ok_0 + s.config.channel_bytes <= budget,
        capacity != s.config.inbox_capacity ==> b is Err && b->Err_0.code
            == ErrorCode::InvalidArgument,
        s.config.inbox_bytes is None ==> b is Err,
{
}

/// How a source and a sink greet a broker: as the client and with the session,
/// the seconds of keepalive and the credentials that they are set to.
pub proof fn law_how_a_broker_is_greeted(s: MqttSource, a: Packet, k: MqttSink, b: Packet)
    requires
        call_ensures(MqttSource::hello, (&s,), a),
        call_ensures(MqttSink::hello, (&k,), b),
    ensures
        a is Connect && b is Connect,
        a->Connect_0.client_id@ == s.config.client_id@,
        a->Connect_0.clean_session == s.config.clean_session,
        s.config.keepalive_ms < 65536000 ==> a->Connect_0.keepalive == s.config.keepalive_ms / 1000,
        s.username is Some ==> a->Connect_0.username is Some && a->Connect_0.username->0@
            == s.username->0@,
        s.username is None ==> a->Connect_0.username is None,
        s.password is Some ==> a->Connect_0.password is Some && a->Connect_0.password->0@
            == s.password->0@,
        s.password is None ==> a->Connect_0.password is None,
        b->Connect_0.client_id@ == k.config.client_id@,
        b->Connect_0.clean_session == k.config.clean_session,
        k.config.keepalive_ms < 65536000 ==> b->Connect_0.keepalive == k.config.keepalive_ms / 1000,
        b->Connect_0.username is None && b->Connect_0.password is None,
{
}

/// The settings of the demonstration.
pub proof fn law_settings_of_the_demonstration(
    host: &str,
    port: u16,
    schema: Schema,
    s: MqttSourceConfig,
    k: MqttSinkConfig,
)
    requires
        call_ensures(MqttSourceConfig::demo, (host, port, schema), s),
        call_ensures(MqttSinkConfig::demo, (host, port), k),
    ensures
        s.host@ == host@ && s.port == port && s.schema == schema,
        s.client_id@ == "sparrow-mqtt-source"@ && s.topic@ == "sensors/json"@,
        s.qos == 0 && s.clean_session && !s.tls.enabled && s.inbox_capacity == 32
            && s.inbox_wait_ms == 5 && s.keepalive_ms == 30000 && s.connect_timeout_ms == 2000
            && s.reconnect_min_ms == 50 && s.reconnect_max_ms == 2000 && s.inbox_bytes is None
            && !s.fail_on_decode && s.json_limits.max_bytes == 64 * 1024,
        k.host@ == host@ && k.port == port,
        k.client_id@ == "sparrow-mqtt-sink"@ && k.topic@ == "sparrow/out"@,
        k.qos == 0 && k.clean_session && !k.tls.enabled && k.outbox_capacity == 32 && k.keepalive_ms
            == 30000 && k.connect_timeout_ms == 2000,
{
}

/// A packet that is complete is taken off the bytes that were read, as it was
/// sent; what is left stays.
pub proof fn law_a_packet_is_taken_off(
    r: &mut MqttFramedReader,
    out: Result<Option<Packet>, ConnectorError>,
    m: Message,
    rest: Seq<u8>,
)
    requires
        call_ensures(MqttFramedReader::try_next, (r,), out),
        expressible(m),
        encoded(m) is Ok,
        r.buf@ == encoded(m)->Ok_0 + rest,
    ensures
        out is Ok && out->Ok_0 is Some,
        out->Ok_0->0@ == m,
        final(r).buf@ == rest,
{
    super::io::law_packet_is_read_back(m, rest);
    let e = encoded(m)->Ok_0;
    assert((e + rest).skip(e.len() as int) =~= rest);
}

/// A charged row that got room after it had waited counts as recovered; the first
/// time that it has to wait is counted, and no other. What it waits for last is
/// remembered.
pub proof fn law_waits_are_counted_once(
    s: &mut SourceSession,
    attempt: Attempt,
    now: u64,
    r: RowStep,
    keepalive_ms: u64,
    start: u64,
    fresh: SourceSession,
)
    requires
        call_ensures(SourceSession::on_attempt, (s, attempt, now), r),
        call_ensures(SourceSession::new, (keepalive_ms, start), fresh),
        s.held is Charged,
        s.counts.recovered < u64::MAX,
        s.counts.waits < u64::MAX,
    ensures
        attempt == Attempt::Taken && old(s).held->waited ==> final(s).counts.recovered
            == old(s).counts.recovered + 1,
        attempt == Attempt::Taken && !old(s).held->waited ==> final(s).counts.recovered
            == old(s).counts.recovered,
        (attempt == Attempt::Full || attempt == Attempt::NoCredit) && now
            < old(s).held->Charged_deadline ==> {
            &&& final(s).held->waited
            &&& final(s).held->no_credit <==> attempt == Attempt::NoCredit
            &&& final(s).held->bytes == old(s).held->bytes
            &&& final(s).counts.waits == old(s).counts.waits + if old(s).held->waited {
                0int
            } else {
                1
            }
            &&& final(s).counts.delivered == old(s).counts.delivered
        },
        attempt == Attempt::Taken ==> final(s).held is Nothing && final(s).counts.waits
            == old(s).counts.waits,
        fresh.held is Nothing && fresh.counts.received == 0,
        keepalive_ms == 0 && start <= u64::MAX - 15000000 ==> fresh.next_ping == start + 15000000,
{
}

} // verus!
