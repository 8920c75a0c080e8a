//! What stands for what: the mathematical values that contracts speak of say all
//! that the values hold, and nothing else.

use crate::bench::body::{item, items, shape, Body, Member};
use crate::bench::check::{maybe_outputs, output, outputs, BodyRow, Check};
use crate::bench::options::Options;
use crate::demo::{hot_sensor_filter, projected_sensor_schema};
use crate::error::{io, reported, ConnectorError};
use crate::expr::eval::seen;
use crate::expr::kernels::mask_seen;
use crate::expr::Expr;
use crate::file_replay::{
    contents, ending_of, found_of, Ending, Found, FrameEvent, ReadOutcome, RecordFramer,
};
use crate::http::push::{push_seen, PushAction, PushStep};
use crate::http::wire::{step_seen, RequestStep, Step};
use crate::ip::ints;
use crate::log::encodings;
use crate::model::{
    dyn_of, dyns_of, fault, members_of, outcome, DataType, Dyn, DynamicValue, ErrorCode, Fault,
    Scalar, Schema, SparrowError, Val,
};
use crate::mqtt::broker::table;
use crate::mqtt::codec::bytes_seen;
use crate::policy::{resolved_seen, UrlParts};
use crate::socket::socket_seen;
use crate::table::Table;
use crate::text::{same, texts};
use vstd::prelude::*;

verus! {

/// An error is its code and its text.
pub proof fn law_an_error_is_its_code_and_text(
    e: SparrowError,
    c: ConnectorError,
    code: ErrorCode,
    text: Seq<char>,
    passed: SparrowError,
)
    requires
        call_ensures(io, (c,), passed),
    ensures
        e@.code == e.code && e@.text == e.message@,
        e.context is None ==> e@.context is None,
        e.context is Some ==> e@.context == Some(((e.context->0).0@, (e.context->0).1@)),
        c@.code == c.code && c@.text == c.message@ && c@.context is None,
        passed.code == c.code && passed.message@ == c.message@,
        fault(code, text).code == code && fault(code, text).text == text && fault(
            code,
            text,
        ).context is None,
        outcome(Ok::<u64, SparrowError>(7)) == Ok::<u64, Fault>(7),
        outcome(Err::<u64, SparrowError>(e)) == Err::<u64, Fault>(e@),
        reported(Err::<u64, ConnectorError>(c)) == Err::<u64, Fault>(c@),
{
}

/// A list of texts is its texts, in order.
pub proof fn law_texts_in_order(v: Seq<String>, i: int, a: &str, b: &str, r: bool)
    requires
        0 <= i < v.len(),
        call_ensures(same, (a, b), r),
    ensures
        texts(v).len() == v.len(),
        texts(v)[i] == v[i]@,
        r <==> a@ == b@,
{
}

/// A value is what it holds.
pub proof fn law_a_value_is_what_it_holds(
    b: bool,
    n: i64,
    u: u64,
    s: String,
    v: Vec<u8>,
    d: DynamicValue,
)
    ensures
        Scalar::Null@ == Val::Null,
        Scalar::Bool(b)@ == Val::Bool(b),
        Scalar::Int64(n)@ == Val::Int64(n),
        Scalar::UInt64(u)@ == Val::UInt64(u),
        Scalar::Float64(u)@ == Val::Float64(u),
        Scalar::Utf8(s)@ == Val::Utf8(s@),
        Scalar::Bytes(v)@ == Val::Bytes(v@),
        Scalar::TimestampMicrosUTC(n)@ == Val::TimestampMicrosUTC(n),
        Scalar::Dynamic(d)@ == Val::Dynamic(dyn_of(d)),
        dyn_of(DynamicValue::Null) == Dyn::Null,
        dyn_of(DynamicValue::Bool(b)) == Dyn::Bool(b),
        dyn_of(DynamicValue::Int64(n)) == Dyn::Int64(n),
        dyn_of(DynamicValue::UInt64(u)) == Dyn::UInt64(u),
        dyn_of(DynamicValue::Float64(u)) == Dyn::Float64(u),
        dyn_of(DynamicValue::Utf8(s)) == Dyn::Utf8(s@),
        dyn_of(DynamicValue::Bytes(v)) == Dyn::Bytes(v@),
{
}

/// A dynamic array holds its values in order, and an object its members.
pub proof fn law_dynamic_values_in_order(
    v: Seq<DynamicValue>,
    m: Seq<(String, DynamicValue)>,
    i: int,
    j: int,
)
    requires
        0 <= i < v.len(),
        0 <= j < m.len(),
    ensures
        dyns_of(v).len() == v.len(),
        dyns_of(v)[i] == dyn_of(v[i]),
        members_of(m).len() == m.len(),
        members_of(m)[j] == (m[j].0@, dyn_of(m[j].1)),
    decreases v.len() + m.len(),
{
    if i < v.len() - 1 {
        law_dynamic_values_in_order(v.drop_last(), m, i, j);
    } else if v.len() > 1 {
        law_dynamic_values_in_order(v.drop_last(), m, 0, j);
    } else if j < m.len() - 1 {
        law_dynamic_values_in_order(v, m.drop_last(), i, j);
    } else if m.len() > 1 {
        law_dynamic_values_in_order(v, m.drop_last(), i, 0);
    }
    reveal_with_fuel(dyns_of, 2);
    reveal_with_fuel(members_of, 2);
}

/// The result of an expression is the value that comes back, or its error.
pub proof fn law_a_result_is_what_comes_back(r: Result<Scalar, SparrowError>, m: Result<Vec<bool>, SparrowError>)
    ensures
        r is Ok ==> seen(r) == Ok::<Val, Fault>(r->Ok_0@),
        r is Err ==> seen(r) == Err::<Val, Fault>(r->Err_0@),
        m is Ok ==> mask_seen(m) == Ok::<Seq<bool>, Fault>(m->Ok_0@),
        m is Err ==> mask_seen(m) == Err::<Seq<bool>, Fault>(m->Err_0@),
{
}

/// What is read of a file is what was found, whole.
pub proof fn law_what_is_read_is_what_was_found(b: Vec<u8>, parts: Seq<Vec<u8>>, i: int, f: RecordFramer)
    requires
        0 <= i < parts.len(),
    ensures
        found_of(ReadOutcome::Frame(b)) == Found::Frame(b@),
        found_of(ReadOutcome::NeedMore) == Found::NeedMore,
        found_of(ReadOutcome::Pending) == Found::Pending,
        found_of(ReadOutcome::End) == Found::End,
        found_of(ReadOutcome::Oversized) == Found::Oversized,
        ending_of(FrameEvent::Frame(b)) == Some(Ending::Frame(b@)),
        ending_of(FrameEvent::More) is None,
        ending_of(FrameEvent::Blank) == Some(Ending::Blank),
        ending_of(FrameEvent::Oversized) == Some(Ending::Oversized),
        contents(parts).len() == parts.len(),
        contents(parts)[i] == parts[i]@,
        f@.offset == f.offset && f@.index == f.record_index && f@.pending == f.pending@ && f@.seen
            == f.record_bytes && f@.discarding == f.discarding,
{
}

/// What is to be done on a connection is what is handed out, body and all.
pub proof fn law_requests_are_handed_out_whole(
    b: Vec<u8>,
    close: bool,
    taken: usize,
    e: ConnectorError,
)
    ensures
        step_seen(Ok(RequestStep::Request { body: b, close, taken })) == Ok::<Step, Fault>(
            Step::Request { body: b@, close, taken: taken as int },
        ),
        step_seen(Ok(RequestStep::ReadHead)) == Ok::<Step, Fault>(Step::ReadHead),
        step_seen(Ok(RequestStep::ReadBody)) == Ok::<Step, Fault>(Step::ReadBody),
        step_seen(Err(e)) == Err::<Step, Fault>(e@),
        push_seen(Ok(PushAction::Body(b))) == Ok::<PushStep, Fault>(PushStep::Body(b@)),
        push_seen(Ok(PushAction::ReadHead)) == Ok::<PushStep, Fault>(PushStep::ReadHead),
        push_seen(Ok(PushAction::ReadBody)) == Ok::<PushStep, Fault>(PushStep::ReadBody),
        push_seen(Err(e)) == Err::<PushStep, Fault>(e@),
{
}

/// Bytes that are written are those that come back; subscriptions, addresses and
/// rows are what their lists hold.
pub proof fn law_lists_are_what_they_hold(
    b: Vec<u8>,
    e: ConnectorError,
    subs: Seq<(String, Vec<u64>)>,
    groups: Seq<u16>,
    rows: Seq<Option<Vec<u8>>>,
    i: int,
    host: String,
    port: u16,
)
    ensures
        bytes_seen(Ok(b)) == Ok::<Seq<u8>, Fault>(b@),
        bytes_seen(Err(e)) == Err::<Seq<u8>, Fault>(e@),
        resolved_seen(Ok(host)) == Ok::<Seq<char>, Fault>(host@),
        resolved_seen(Err(e)) == Err::<Seq<char>, Fault>(e@),
        table(subs).len() == subs.len(),
        0 <= i < subs.len() ==> table(subs)[i] == (subs[i].0@, subs[i].1@),
        ints(groups).len() == groups.len(),
        0 <= i < groups.len() ==> ints(groups)[i] == groups[i],
        encodings(rows).len() == rows.len(),
        0 <= i < rows.len() && rows[i] is Some ==> encodings(rows)[i] == Some(rows[i]->0@),
        0 <= i < rows.len() && rows[i] is None ==> encodings(rows)[i] is None,
        socket_seen(Some((host, port))) == Some((host@, port)),
        socket_seen(None) is None,
{
}

/// The parts of an address are its scheme, its host and its port.
pub proof fn law_the_parts_of_an_address(p: UrlParts)
    ensures
        p@.0 == p.scheme@,
        p.host is Some ==> p@.1 == Some(p.host->0@),
        p.host is None ==> p@.1 is None,
        p@.2 == p.port,
{
}

/// A body is what is read in it, member by member.
pub proof fn law_a_body_is_what_is_read_in_it(
    b: Body,
    m: Member,
    v: Seq<Member>,
    rows: Vec<Option<Vec<Member>>>,
    i: int,
    r: BodyRow,
    out: Vec<BodyRow>,
)
    requires
        0 <= i,
    ensures
        item(m).name == m.name@ && item(m).figure == m.figure,
        m.text is Some ==> item(m).text == Some(m.text->0@),
        m.text is None ==> item(m).text is None,
        items(v).len() == v.len(),
        i < v.len() ==> items(v)[i] == item(v[i]),
        shape(None) is None,
        shape(Some(b)) is Some,
        b.rows is None ==> shape(Some(b))->0.rows is None,
        b.rows == Some(rows) ==> shape(Some(b))->0.rows is Some && shape(Some(b))->0.rows->0.len()
            == rows@.len(),
        b.rows == Some(rows) && i < rows@.len() && rows@[i] is Some ==> shape(
            Some(b),
        )->0.rows->0[i] == Some(items(rows@[i]->0@)),
        b.rows == Some(rows) && i < rows@.len() && rows@[i] is None ==> shape(
            Some(b),
        )->0.rows->0[i] is None,
        b.members is Some ==> shape(Some(b))->0.members == Some(items(b.members->0@)),
        b.members is None ==> shape(Some(b))->0.members is None,
        output(r).s == r.s && output(r).seq == r.seq && output(r).ts == r.ts && output(
            r,
        ).temperature == r.temperature,
        r.device_id is Some ==> output(r).device == Some(r.device_id->0@),
        r.device_id is None ==> output(r).device is None,
        maybe_outputs(None) is None,
        maybe_outputs(Some(out)) == Some(outputs(out@)),
        outputs(out@).len() == out@.len(),
        i < out@.len() ==> outputs(out@)[i] == output(out@[i]),
{
}

/// What a check has seen, and what a run is told, is what their fields hold.
pub proof fn law_checks_and_options_are_what_they_hold(c: Check, o: Options, i: int)
    ensures
        c@.kind == c.kind && c@.input == c.input && c@.window == c.window && c@.seen == c.seen@
            && c@.sent == c.sent@ && c@.unique == c.unique && c@.duplicate == c.duplicate
            && c@.invalid == c.invalid && c@.rows == c.rows && c@.requests == c.requests
            && c@.latencies == c.latencies@ && c@.first == c.first && c@.last == c.last,
        o@.engine == o.engine@ && o@.server == o.server@ && o@.mosquitto == o.mosquitto@ && o@.out
            == o.out@,
        o@.rounds == o.rounds && o@.mqtt_events == o.mqtt_events && o@.file_events
            == o.file_events && o@.checkpoint_events == o.checkpoint_events && o@.pressure_events
            == o.pressure_events && o@.rate == o.rate && o@.drain_secs == o.drain_secs && o@.window
            == o.window && o@.sink_delay_ms == o.sink_delay_ms && o@.metrics_ms == o.metrics_ms
            && o@.observe_ms == o.observe_ms && o@.broker_nodelay == o.broker_nodelay
            && o@.checkpoint_before_sink == o.checkpoint_before_sink && o@.inbox_wait_ms
            == o.inbox_wait_ms,
        o@.scenarios.len() == o.scenarios@.len(),
        0 <= i < o.scenarios@.len() ==> o@.scenarios[i] == o.scenarios@[i]@,
        o@.source_tuning.len() == o.source_tuning@.len(),
        0 <= i < o.source_tuning@.len() ==> o@.source_tuning[i] == (
            o.source_tuning@[i].0@,
            o.source_tuning@[i].1,
        ),
{
}

/// What is put into a table is found under its name and under no other, until it
/// is taken out.
pub proof fn law_a_table_gives_back_what_was_put<V>(
    t: &mut Table<V>,
    k: String,
    v: V,
    u: &mut Table<V>,
    name: &str,
    r: Option<V>,
    w: Table<V>,
    got: Option<&V>,
    other: Seq<char>,
)
    requires
        call_ensures(Table::<V>::put, (t, k, v), ()),
        call_ensures(Table::<V>::take, (u, name), r),
        call_ensures(Table::<V>::get, (&w, name), got),
    ensures
        final(t)@.dom().contains(k@) && final(t)@[k@] == v,
        other != k@ && old(t)@.dom().contains(other) ==> final(t)@.dom().contains(other)
            && final(t)@[other] == old(t)@[other],
        other != k@ && !old(t)@.dom().contains(other) ==> !final(t)@.dom().contains(other),
        r is Some <==> old(u)@.dom().contains(name@),
        r is Some ==> r->0 == old(u)@[name@],
        !final(u)@.dom().contains(name@),
        other != name@ && old(u)@.dom().contains(other) ==> final(u)@.dom().contains(other)
            && final(u)@[other] == old(u)@[other],
        got is Some <==> w@.dom().contains(name@),
        got is Some ==> *got->0 == w@[name@],
{
}

/// The demonstration lets readings above twenty-five degrees through, with three
/// of their columns.
pub proof fn law_what_the_demonstration_shows(s: Schema, e: Expr)
    requires
        call_ensures(projected_sensor_schema, (), s),
        call_ensures(hot_sensor_filter, (), e),
    ensures
        s.id == 2 && s.fields@.len() == 3,
        s.fields@[0].name@ == "device_id"@ && s.fields@[0].data_type == DataType::Utf8
            && !s.fields@[0].nullable && s.fields@[0].id == 1,
        s.fields@[1].name@ == "temperature"@ && s.fields@[1].data_type == DataType::Float64
            && s.fields@[1].nullable && s.fields@[1].id == 2,
        s.fields@[2].name@ == "ts"@ && s.fields@[2].data_type == DataType::TimestampMicrosUTC
            && !s.fields@[2].nullable && s.fields@[2].id == 4,
        *e->right == Expr::Literal(Scalar::Float64(0x4039000000000000)),
        (*e->left)->Column_name@ == "temperature"@,
{
}

} // verus!
