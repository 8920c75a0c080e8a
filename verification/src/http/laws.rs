//! What holds of deliveries over HTTP: which replies are final, how groups are
//! joined, which settings are accepted and how a request is read.

use super::push::{
    push_dropped, push_reply, push_url, push_with, Handoff, HttpPushSourceConfig, PushConn, PushStep,
};
use super::sink::{
    after_post, drain_reply, due, encode_drop, encoded_delivery, merged_bytes, post_step, power_above, sends,
    Delivery, EncodeDrop, Growth, HttpSinkConfig, MergePlan, PostResult, PostStep, SinkAction,
    SinkLoop,
};
use super::wire::{
    capture_status, closes, content_length, header_end, length_line, lines_in, request_with,
    text_lines, CaptureBuffer, CaptureConn, CapturedRequest, Step,
};
use crate::error::ConnectorError;
use crate::model::{fault, ErrorCode, Fault, Schema};
use crate::policy::{listen_fault, url_fault, TargetPolicy};
use crate::text::{decimal, law_decimal_is_read_back, lowered, pieces};
use crate::text_laws::{
    law_decimal_has_digits_alone, law_only_the_ends_are_trimmed,
    law_pieces_stand_between_separators, law_what_is_printed_is_not_white,
};
use vstd::arithmetic::power2::{lemma2_to64, lemma_pow2_unfold, pow2};
use vstd::prelude::*;
use vstd::string::*;

verus! {

/// A reply from 200 to 299 is acceptance, and nothing else is. A reply from 400
/// to 499 is failure for good. Any other reply, and none at all, is answered by
/// another request while retries are left and by failure once they are used up.
pub proof fn law_only_success_is_acceptance(
    result: PostResult,
    attempt: u32,
    max_retries: u32,
    r: PostStep,
)
    requires
        call_ensures(after_post, (result, attempt, max_retries), r),
    ensures
        r is Accepted <==> (result matches PostResult::Status(s) && s / 100 == 2),
        (result matches PostResult::Status(s) && s / 100 == 4) ==> r is Failed,
        (result matches PostResult::Status(s) && s / 100 != 2 && s / 100 != 4) ==> (r is Retry
            <==> attempt < max_retries),
        result is NoReply ==> (r is Retry <==> attempt < max_retries),
        result is Unbuildable ==> r is Failed,
        attempt >= max_retries ==> !(r is Retry),
{
}

/// A batch that an endpoint has taken is not sent again.
pub proof fn law_accepted_batch_is_sent_once(
    results: spec_fn(u32) -> PostResult,
    attempt: u32,
    max_retries: u32,
)
    requires
        results(attempt) matches PostResult::Status(s) && 200 <= s <= 299,
    ensures
        sends(results, attempt, max_retries) == 1,
        post_step(results(attempt), attempt, max_retries) is Accepted,
{
}

/// A server that fails is asked as often as retries allow: once more than there
/// are retries.
pub proof fn law_every_retry_is_used(
    results: spec_fn(u32) -> PostResult,
    attempt: u32,
    max_retries: u32,
)
    requires
        attempt <= max_retries,
        forall|i: u32|
            attempt <= i <= max_retries ==> (#[trigger] results(i) is NoReply || (results(
                i,
            ) matches PostResult::Status(s) && s >= 500)),
    ensures
        sends(results, attempt, max_retries) == max_retries - attempt + 1,
    decreases max_retries - attempt,
{
    assert(results(attempt) is NoReply || (results(attempt) matches PostResult::Status(s) && s
        >= 500));
    if attempt < max_retries {
        law_every_retry_is_used(results, (attempt + 1) as u32, max_retries);
    }
}

/// Two arrays are joined into one: the elements of the first, a comma where both
/// have elements, the elements of the second.
pub proof fn law_arrays_are_joined(a: Delivery, b: Delivery, x: Seq<u8>, y: Seq<u8>)
    requires
        a.bytes@ == seq!['[' as u8] + x + seq![']' as u8],
        b.bytes@ == seq!['[' as u8] + y + seq![']' as u8],
    ensures
        a.rows > 0 && b.rows > 0 ==> merged_bytes(a, b) == seq!['[' as u8] + x + seq![
            ',' as u8,
        ] + y + seq![']' as u8],
        a.rows == 0 || b.rows == 0 ==> merged_bytes(a, b) == seq!['[' as u8] + x + y + seq![
            ']' as u8,
        ],
{
    assert(a.bytes@.drop_last() =~= seq!['[' as u8] + x);
    assert(b.bytes@.subrange(1, b.bytes@.len() - 1) =~= y);
    if a.rows > 0 && b.rows > 0 {
        assert(merged_bytes(a, b) =~= seq!['[' as u8] + x + seq![',' as u8] + y + seq![
            ']' as u8,
        ]);
    } else {
        assert(merged_bytes(a, b) =~= seq!['[' as u8] + x + y + seq![']' as u8]);
    }
}

proof fn lemma_power_above(n: int, p: int, k: nat)
    requires
        p == pow2(k),
        n >= 1,
        p < 2 * n,
    ensures
        n <= power_above(n, p) < 2 * n,
        exists|e: nat| power_above(n, p) == pow2(e),
    decreases (if n > p { n - p } else { 0 }),
{
    vstd::arithmetic::power2::lemma_pow2_pos(k);
    if p < n {
        lemma_pow2_unfold((k + 1) as nat);
        lemma_power_above(n, 2 * p, (k + 1) as nat);
    }
}

/// Two groups are sent as one exactly where they are of one schema and one
/// owner, and the joined body and rows stay within the bounds. The buffer grows
/// only where the joined body does not fit it: to the next power of two, or to
/// the bound on a body.
pub proof fn law_groups_are_joined_within_bounds(
    a: Delivery,
    b: Delivery,
    capacity: usize,
    cap: usize,
    target_rows: usize,
    r: MergePlan,
)
    requires
        a.bytes@.len() >= 2,
        b.bytes@.len() >= 2,
        call_ensures(Delivery::plan_merge, (&a, &b, capacity, cap, target_rows), r),
    ensures
        !(r is Separate) <==> {
            &&& merged_bytes(a, b).len() <= cap
            &&& a.rows + b.rows <= target_rows
            &&& a.schema == b.schema
            &&& a.owner == b.owner
        },
        r is InPlace ==> merged_bytes(a, b).len() <= capacity,
        r matches MergePlan::Grow(n) ==> {
            &&& capacity < merged_bytes(a, b).len() <= n <= cap
            &&& n < 2 * merged_bytes(a, b).len()
            &&& n == cap || exists|e: nat| n == pow2(e)
        },
{
    lemma2_to64();
    lemma_power_above(merged_bytes(a, b).len() as int, 1, 0);
}

/// A group that is not hurried is sent once it has its rows or its bytes or has
/// waited its time, and not before.
pub proof fn law_group_waits_until_it_is_full(
    g: Delivery,
    batch_rows: usize,
    batch_bytes: usize,
    linger_ms: u64,
    now_ms: u64,
)
    requires
        g.first_ms <= now_ms,
    ensures
        due(g, true, batch_rows, batch_bytes, linger_ms, now_ms),
        !due(g, false, batch_rows, batch_bytes, linger_ms, now_ms) <==> g.rows < batch_rows
            && g.bytes@.len() < batch_bytes && now_ms < g.first_ms + linger_ms,
{
}

/// A batch that did not fit becomes the group once the group is gone and a
/// request may be made; nothing that is held is lost.
pub proof fn law_carried_batch_moves_up(s: SinkLoop, max_inflight: usize)
    ensures
        s.group is Some ==> s.front(max_inflight) == s.group && s.back(max_inflight) == s.carry,
        s.group is None && s.tasks < max_inflight ==> s.front(max_inflight) == s.carry && s.back(
            max_inflight,
        ) is None,
        s.group is None && s.tasks >= max_inflight ==> s.front(max_inflight) is None && s.back(
            max_inflight,
        ) == s.carry,
        (match s.group { Some(g) => g.batches as int, None => 0 }) + (match s.carry {
            Some(g) => g.batches as int,
            None => 0,
        }) == s.batches(),
{
}

/// Which settings of the sink are accepted.
pub proof fn law_sink_settings(
    cfg: HttpSinkConfig,
    policy: TargetPolicy,
    parts: Result<(Seq<char>, Option<Seq<char>>, Option<u16>), Seq<char>>,
)
    ensures
        cfg.fault(policy, parts) is None <==> {
            &&& cfg.restore is Absent
            &&& 1 <= cfg.batch_rows <= 65536
            &&& 2 <= cfg.batch_bytes <= 1048576
            &&& cfg.linger_ms <= 1000
            &&& 1 <= cfg.max_inflight <= 8
            &&& (cfg.batch_bytes + 512) * (cfg.max_inflight + 2) <= 4 * 1024 * 1024
            &&& 1 <= cfg.outbox_capacity <= 1024
            &&& cfg.max_retries <= 8
            &&& !cfg.tls.skip_verify
            &&& (cfg.tls.enabled || cfg.header_secret is Some ==> cfg.url@.len() >= 8
                && cfg.url@.take(8) == "https://"@)
            &&& url_fault(policy.allowed@, parts) is None
        },
        cfg.restore is Absent && cfg.bounds_hold() && cfg.tls.skip_verify ==> cfg.fault(
            policy,
            parts,
        ) is Some && cfg.fault(policy, parts)->0.code == ErrorCode::PolicyDenied,
{
    reveal_strlit("https://");
}

/// Which settings of the push source are accepted.
pub proof fn law_push_settings(cfg: HttpPushSourceConfig, policy: TargetPolicy)
    ensures
        cfg.fault(policy) is None <==> {
            &&& cfg.restore is Absent
            &&& 1 <= cfg.inbox_capacity <= 1024
            &&& cfg.path@.len() > 0
            &&& listen_fault(policy.allowed@, cfg.bind@) is None
        },
{
}

proof fn lemma_header_end(b: Seq<u8>, i: int)
    requires
        0 <= i,
    ensures
        match header_end(b, i) {
            Some(h) => {
                &&& i <= h && h + 4 <= b.len()
                &&& b.subrange(h, h + 4) == seq![13u8, 10u8, 13u8, 10u8]
                &&& forall|j: int|
                    i <= j < h ==> #[trigger] b.subrange(j, j + 4) != seq![13u8, 10u8, 13u8, 10u8]
            },
            None => forall|j: int|
                i <= j && j + 4 <= b.len() ==> #[trigger] b.subrange(j, j + 4) != seq![
                    13u8,
                    10u8,
                    13u8,
                    10u8,
                ],
        },
    decreases b.len() - i,
{
    let mark = seq![13u8, 10u8, 13u8, 10u8];
    if i + 4 <= b.len() {
        let s = b.subrange(i, i + 4);
        assert(s[0] == b[i] && s[1] == b[i + 1] && s[2] == b[i + 2] && s[3] == b[i + 3]);
        if b[i] == 13 && b[i + 1] == 10 && b[i + 2] == 13 && b[i + 3] == 10 {
            assert(s =~= mark);
        } else {
            assert(mark[0] == 13 && mark[1] == 10 && mark[2] == 13 && mark[3] == 10);
            assert(s != mark);
            lemma_header_end(b, i + 1);
        }
    }
}

/// The head of a request ends at the first blank line.
pub proof fn law_head_ends_at_the_first_blank_line(b: Seq<u8>)
    ensures
        match header_end(b, 0) {
            Some(h) => {
                &&& 0 <= h && h + 4 <= b.len()
                &&& b.subrange(h, h + 4) == seq![13u8, 10u8, 13u8, 10u8]
                &&& forall|j: int|
                    0 <= j < h ==> #[trigger] b.subrange(j, j + 4) != seq![13u8, 10u8, 13u8, 10u8]
            },
            None => forall|j: int|
                0 <= j && j + 4 <= b.len() ==> #[trigger] b.subrange(j, j + 4) != seq![
                    13u8,
                    10u8,
                    13u8,
                    10u8,
                ],
        },
{
    lemma_header_end(b, 0);
}

/// The body of a request is the bytes after its head, as many as are announced;
/// it is waited for until it is there, and refused above 64 KiB.
pub proof fn law_body_follows_the_head(
    head: Seq<u8>,
    body: Seq<u8>,
    rest: Seq<u8>,
    text: Seq<char>,
    too_large: Seq<char>,
)
    ensures
        ({
            let b = head + seq![13u8, 10u8, 13u8, 10u8] + body + rest;
            let n = content_length(text_lines(text));
            let r = request_with(b, head.len() as int, text, too_large);
            let p = push_with(b, head.len() as int, text, false);
            &&& n > 64 * 1024 ==> r == Err::<Step, Fault>(
                fault(ErrorCode::MaxRecordSize, too_large),
            ) && p is Err
            &&& n == body.len() && n <= 64 * 1024 ==> {
                &&& r is Ok
                &&& r->Ok_0 is Request
                &&& r->Ok_0->body == body
                &&& r->Ok_0->taken == head.len() + 4 + body.len()
                &&& p == Ok::<PushStep, Fault>(PushStep::Body(body))
            }
            &&& n > body.len() + rest.len() && n <= 64 * 1024 ==> {
                &&& r == Ok::<Step, Fault>(Step::ReadBody)
                &&& p == Ok::<PushStep, Fault>(PushStep::ReadBody)
                &&& push_with(b, head.len() as int, text, true) == Ok::<PushStep, Fault>(
                    PushStep::Body(body + rest),
                )
            }
        }),
{
    let b = head + seq![13u8, 10u8, 13u8, 10u8] + body + rest;
    let h = head.len() as int;
    assert(b.subrange(h + 4, h + 4 + body.len()) =~= body);
    assert(b.skip(h + 4) =~= body + rest);
}

proof fn lemma_lines_join(l: Seq<char>, t: Seq<char>)
    requires
        !l.contains('\n'),
    ensures
        pieces(l + seq!['\n'] + t, '\n') == seq![l] + pieces(t, '\n'),
        pieces(t, '\n').len() > 0,
{
    law_pieces_stand_between_separators(l, '\n', t);
}

proof fn lemma_first_line(l: Seq<char>, p: Seq<Seq<char>>)
    requires
        p.len() > 0,
    ensures
        lines_in(seq![l] + p) == seq![super::wire::uncarried(l)] + lines_in(p),
{
    let q = seq![l] + p;
    assert(q.last() == p.last());
    assert(q.drop_last() =~= seq![l] + p.drop_last());
    assert(lines_in(q) =~= seq![super::wire::uncarried(l)] + lines_in(p));
}

/// The lines of a text, one by one: each ends with a newline, before which a
/// carriage return does not count.
pub proof fn law_lines_end_with_newlines(l: Seq<char>, t: Seq<char>)
    requires
        !l.contains('\n'),
        l.len() > 0,
        l.last() != '\r',
    ensures
        text_lines(l + seq!['\n'] + t) == seq![l] + text_lines(t),
        text_lines(l + seq!['\r', '\n'] + t) == seq![l] + text_lines(t),
        text_lines(l) == seq![l],
        text_lines(Seq::empty()) == Seq::<Seq<char>>::empty(),
{
    lemma_lines_join(l, t);
    lemma_first_line(l, pieces(t, '\n'));
    let k = l.push('\r');
    assert(!k.contains('\n')) by {
        if k.contains('\n') {
            let i = choose|i: int| 0 <= i < k.len() && k[i] == '\n';
            assert(l[i] == '\n');
        }
    }
    assert(l + seq!['\r', '\n'] + t =~= k + seq!['\n'] + t);
    lemma_lines_join(k, t);
    lemma_first_line(k, pieces(t, '\n'));
    assert(k.drop_last() =~= l);
    law_pieces_stand_between_separators(l, '\n', t);
    assert(text_lines(l) =~= seq![l]);
    let e = Seq::<char>::empty();
    law_pieces_stand_between_separators(e, '\n', e);
    assert(text_lines(e) =~= Seq::<Seq<char>>::empty());
}

/// The name of the header that announces the length of a body.
pub open spec fn length_name() -> Seq<char> {
    seq!['c', 'o', 'n', 't', 'e', 'n', 't', '-', 'l', 'e', 'n', 'g', 't', 'h', ':']
}

proof fn lemma_length_line(name: Seq<char>, n: nat)
    requires
        lowered(name) == length_name(),
        n <= usize::MAX,
    ensures
        length_line(name + seq![' '] + decimal(n)) == Some(n),
        length_line(name + decimal(n)) == Some(n),
{
    reveal_strlit("content-length:");
    assert("content-length:"@ =~= length_name());
    law_decimal_is_read_back(n, usize::MAX as nat);
    let d = decimal(n);
    assert forall|i: int| 0 <= i < d.len() implies '0' <= #[trigger] d[i] <= '9' by {
        law_decimal_has_digits_alone(n, i);
    }
    let a = name + seq![' '] + d;
    let b = name + d;
    assert(name.len() == lowered(name).len());
    assert(lowered(d) =~= d);
    assert(lowered(a) =~= lowered(name) + (seq![' '] + d));
    assert(lowered(b) =~= lowered(name) + d);
    assert(lowered(a).take(15) =~= length_name());
    assert(lowered(b).take(15) =~= length_name());
    assert(lowered(a).skip(15) =~= seq![' '] + d);
    assert(lowered(b).skip(15) =~= d);
    assert(d.len() > 0) by {
        reveal(decimal);
    }
    law_what_is_printed_is_not_white(d[0]);
    law_what_is_printed_is_not_white(d.last());
    let e = Seq::<char>::empty();
    assert(seq![' '] + d + e =~= seq![' '] + d);
    assert(crate::text::white(' '));
    law_only_the_ends_are_trimmed(seq![' '], d, e);
}

/// The length of a body is what the first header says that is named
/// `content-length`, in any case of letters; it is zero where none is.
pub proof fn law_the_first_length_counts(
    lines: Seq<Seq<char>>,
    k: int,
    name: Seq<char>,
    n: nat,
)
    requires
        0 <= k <= lines.len(),
        forall|i: int|
            0 <= i < k ==> lowered(#[trigger] lines[i]).len() < 15 || lowered(lines[i]).take(15)
                != length_name(),
        lowered(name) == length_name(),
        n <= usize::MAX,
        k < lines.len() ==> lines[k] == name + seq![' '] + decimal(n) || lines[k] == name + decimal(
            n,
        ),
    ensures
        content_length(lines) == if k < lines.len() {
            n
        } else {
            0
        },
    decreases k,
{
    reveal_strlit("content-length:");
    assert("content-length:"@ =~= length_name());
    lemma_length_line(name, n);
    if k > 0 {
        assert(length_line(lines[0]) is None);
        assert forall|i: int| 0 <= i < k - 1 implies lowered(#[trigger] lines.skip(1)[i]).len() < 15
            || lowered(lines.skip(1)[i]).take(15) != length_name() by {
            assert(lines.skip(1)[i] == lines[i + 1]);
        }
        law_the_first_length_counts(lines.skip(1), k - 1, name, n);
    }
}

/// A connection is closed after the reply exactly where a header asks for it.
pub proof fn law_close_is_asked_for(lines: Seq<Seq<char>>)
    ensures
        closes(lines) <==> exists|i: int|
            0 <= i < lines.len() && lowered(#[trigger] lines[i]) == seq![
                'c', 'o', 'n', 'n', 'e', 'c', 't', 'i', 'o', 'n', ':', ' ', 'c', 'l', 'o', 's', 'e',
            ],
{
    reveal_strlit("connection: close");
    assert("connection: close"@ =~= seq![
        'c', 'o', 'n', 'n', 'e', 'c', 't', 'i', 'o', 'n', ':', ' ', 'c', 'l', 'o', 's', 'e',
    ]);
}

/// A reply that is read is read up to 64 KiB.
pub proof fn law_a_reply_is_read_up_to_64_kib(drained: usize, chunk: usize, r: (usize, bool))
    requires
        call_ensures(drain_reply, (drained, chunk), r),
        drained + chunk <= usize::MAX,
    ensures
        r.0 == drained + chunk,
        r.1 <==> drained + chunk <= 64 * 1024,
{
}

/// A body is sent as one batch where it was encoded and is no larger than a
/// request may be; else it is dropped, for want of memory where that was why.
pub proof fn law_which_bodies_are_sent(
    body: Result<Vec<u8>, ErrorCode>,
    schema: u64,
    owner: u64,
    rows: usize,
    now_ms: u64,
    cfg: HttpSinkConfig,
    r: Result<Delivery, EncodeDrop>,
)
    requires
        call_ensures(encoded_delivery, (body, schema, owner, rows, now_ms, &cfg), r),
    ensures
        r is Ok <==> body is Ok && 2 <= body->Ok_0@.len() <= cfg.batch_bytes,
        r matches Ok(d) ==> d.bytes@ == body->Ok_0@ && d.rows == rows && d.batches == 1 && d.schema
            == schema && d.owner == owner && d.first_ms == now_ms,
        r == Err::<Delivery, EncodeDrop>(EncodeDrop::Budget) <==> body is Err && body->Err_0
            == ErrorCode::ResourceExhausted,
{
}

/// A merged group has the rows and batches of both, and the schema, owner and
/// moment of the first.
pub proof fn law_a_merged_group_counts_both(a: &mut Delivery, b: Delivery)
    requires
        call_ensures(Delivery::merge, (a, b), ()),
    ensures
        final(a).bytes@ == merged_bytes(*old(a), b),
        final(a).rows == old(a).rows + b.rows,
        final(a).batches == old(a).batches + b.batches,
        final(a).schema == old(a).schema,
        final(a).owner == old(a).owner,
        final(a).first_ms == old(a).first_ms,
{
}

/// What the sending loop does: once it is cancelled it stops. A group that is
/// full or hurried is sent while a request may be made; else the loop waits, and
/// takes in a batch only where it has nothing carried and may make a request. It
/// ends by itself once no more batches come and nothing is left.
pub proof fn law_what_the_sending_loop_does(
    s: &mut SinkLoop,
    cfg: HttpSinkConfig,
    cancelled: bool,
    outbox_empty: bool,
    now_ms: u64,
    r: SinkAction,
)
    requires
        call_ensures(SinkLoop::next_action, (s, &cfg, cancelled, outbox_empty, now_ms), r),
        s.carry is None,
        s.group matches Some(g) ==> g.first_ms <= now_ms,
    ensures
        cancelled ==> r is Stop && *final(s) == *old(s),
        !cancelled ==> {
            let hurried = old(s).flush || old(s).closed || (old(s).force_flush && !outbox_empty);
            let full = old(s).group is Some && (hurried || old(s).group->0.rows >= cfg.batch_rows
                || old(s).group->0.bytes@.len() >= cfg.batch_bytes || now_ms
                >= old(s).group->0.first_ms + cfg.linger_ms);
            let free = old(s).tasks < cfg.max_inflight;
            &&& r is Post <==> full && free
            &&& r is Post ==> r->Post_0 == old(s).group->0 && final(s).group is None
                && final(s).tasks == old(s).tasks + 1
            &&& !(r is Post) ==> final(s).group == old(s).group && final(s).tasks == old(s).tasks
            &&& r is Stop <==> old(s).closed && old(s).group is None && old(s).tasks == 0
            &&& r is Wait ==> {
                &&& r->join <==> old(s).tasks > 0
                &&& r->receive <==> !old(s).closed && !old(s).flush && free
                &&& r->linger_until is Some <==> old(s).group is Some && !old(s).flush
                &&& r->linger_until is Some && old(s).group->0.first_ms + cfg.linger_ms <= u64::MAX
                    ==> r->linger_until->0 == old(s).group->0.first_ms + cfg.linger_ms
            }
        },
{
}

/// A batch that comes in is the group where there is none; it joins the group
/// where the plan says so and the memory is paid for; else it is carried. No
/// batch is lost: what cannot be paid for is handed back.
pub proof fn law_what_becomes_of_a_batch(
    s: &mut SinkLoop,
    next: Delivery,
    plan: MergePlan,
    grown: Growth,
    cfg: HttpSinkConfig,
    r: Option<Delivery>,
)
    requires
        call_ensures(SinkLoop::on_batch, (s, next, plan, grown, &cfg), r),
        s.carry is None,
    ensures
        old(s).group is None ==> r is None && final(s).group == Some(next),
        old(s).group is Some && plan is Separate ==> r is None && final(s).group == old(s).group
            && final(s).carry == Some(next) && final(s).flush,
        old(s).group is Some && (plan is InPlace || (plan is Grow && grown is Granted)) ==> {
            &&& r is None
            &&& final(s).group is Some
            &&& final(s).group->0.bytes@ == merged_bytes(old(s).group->0, next)
            &&& final(s).group->0.rows == old(s).group->0.rows + next.rows
            &&& final(s).group->0.batches == old(s).group->0.batches + next.batches
        },
        old(s).group is Some && plan is Grow && grown is Unpaid ==> r == old(s).group
            && final(s).carry == Some(next),
        final(s).tasks == old(s).tasks,
{
}

/// A request that completes makes room for another; a request to flush, the end
/// of a wait and the end of the batches are taken note of.
pub proof fn law_what_the_sending_loop_is_told(
    a: &mut SinkLoop,
    b: &mut SinkLoop,
    c: &mut SinkLoop,
    d: &mut SinkLoop,
)
    requires
        call_ensures(SinkLoop::on_joined, (a,), ()),
        call_ensures(SinkLoop::on_flush_request, (b,), ()),
        call_ensures(SinkLoop::on_linger, (c,), ()),
        call_ensures(SinkLoop::on_closed, (d,), ()),
    ensures
        final(a).tasks == old(a).tasks - 1 && final(a).group == old(a).group && final(a).carry
            == old(a).carry && final(a).closed == old(a).closed,
        final(b).force_flush && final(b).group == old(b).group && final(b).tasks == old(b).tasks,
        old(c).group is Some ==> final(c).flush && final(c).group == old(c).group,
        final(d).closed && final(d).group == old(d).group && final(d).tasks == old(d).tasks,
{
}

/// The reply of the capture server names its status, and says whether the
/// connection is closed.
pub proof fn law_a_capture_is_answered(code: u16, close: bool, captured: bool, r: u16)
    requires
        call_ensures(capture_status, (captured, code), r),
    ensures
        captured ==> r == code,
        !captured ==> r == 503,
        code >= 400 ==> crate::text::begins(
            super::wire::reply(code, close),
            "HTTP/1.1 "@ + decimal(code as nat) + " ERR\r\n"@,
        ),
        code == 204 ==> super::wire::reply(code, true) == "HTTP/1.1 204 No Content\r\nconnection: "@
            + "close"@ + "\r\n\r\n"@,
        code == 204 ==> super::wire::reply(code, false)
            == "HTTP/1.1 204 No Content\r\nconnection: "@ + "keep-alive"@ + "\r\n\r\n"@,
        code < 400 && code != 204 ==> super::wire::reply(code, false)
            == "HTTP/1.1 200 OK\r\ncontent-length: 2\r\nconnection: "@ + "keep-alive"@
            + "\r\n\r\nok"@,
        code < 400 && code != 204 ==> super::wire::reply(code, true)
            == "HTTP/1.1 200 OK\r\ncontent-length: 2\r\nconnection: "@ + "close"@
            + "\r\n\r\nok"@,
{
    if code >= 400 {
        let head = "HTTP/1.1 "@ + decimal(code as nat) + " ERR\r\n"@;
        reveal_strlit(" ERR\r\n");
        reveal_strlit(" ERR\r\ncontent-length: 0\r\nconnection: ");
        assert(super::wire::reply(code, close).take(head.len() as int) =~= head);
    }
}

/// A captured request is kept within 32 MiB and 262144 requests, and handed out
/// in the order in which it came.
pub proof fn law_captures_are_bounded(
    b: &mut CaptureBuffer,
    request: CapturedRequest,
    r: bool,
)
    requires
        call_ensures(CaptureBuffer::keep, (b, request), r),
    ensures
        r <==> old(b).bytes + request.body@.len() <= 32 * 1024 * 1024 && old(b).requests@.len()
            < 262144,
        r ==> final(b).requests@ == old(b).requests@.push(request),
        !r ==> *final(b) == *old(b),
{
}

/// A pushed request counts as dropped where it holds no row, or finds no room.
pub proof fn law_which_pushes_are_dropped(decoded: bool, handoff: Handoff, r: bool)
    requires
        call_ensures(push_dropped, (decoded, handoff), r),
    ensures
        r <==> !decoded || handoff == Handoff::Full,
{
}

/// The settings of the demonstration.
pub proof fn law_settings_of_the_demonstration(
    url: &str,
    k: HttpSinkConfig,
    schema: Schema,
    s: HttpPushSourceConfig,
    port: u16,
    path: &str,
    at: String,
)
    requires
        call_ensures(HttpSinkConfig::demo, (url,), k),
        call_ensures(HttpPushSourceConfig::demo, (schema,), s),
        call_ensures(push_url, (port, path), at),
    ensures
        k.url@ == url@ && !k.tls.enabled && !k.tls.skip_verify && k.timeout_ms == 1500
            && k.connect_timeout_ms == 500 && k.max_retries == 2 && k.retry_backoff_ms == 40
            && k.outbox_capacity == 16 && k.batch_rows == 1 && k.batch_bytes == 256 * 1024
            && k.linger_ms == 0 && k.max_inflight == 1 && k.header_secret is None
            && k.restore is Absent,
        s.bind@ == "127.0.0.1:0"@ && s.path@ == "/push"@ && s.inbox_capacity == 32 && s.schema
            == schema && s.json_limits.max_bytes == 64 * 1024 && s.restore is Absent,
        at@ == "http://127.0.0.1:"@ + decimal(port as nat) + path@,
{
}

/// A request is read up to 128 KiB; what was read is kept in order.
pub proof fn law_requests_are_read_up_to_128_kib(
    c: &mut CaptureConn,
    b: &[u8],
    r: Result<(), ConnectorError>,
    p: &mut PushConn,
    q: Result<(), ConnectorError>,
    d: &mut CaptureConn,
    e: &mut PushConn,
)
    requires
        call_ensures(CaptureConn::feed_head, (c, b), r),
        call_ensures(PushConn::feed_head, (p, b), q),
        call_ensures(CaptureConn::feed_body, (d, b), ()),
        call_ensures(PushConn::feed_body, (e, b), ()),
    ensures
        final(c).buf@ == old(c).buf@ + b@,
        final(p).buf@ == old(p).buf@ + b@,
        final(d).buf@ == old(d).buf@ + b@,
        final(e).buf@ == old(e).buf@ + b@,
        r is Ok <==> old(c).buf@.len() + b@.len() <= 128 * 1024,
        q is Ok <==> old(p).buf@.len() + b@.len() <= 128 * 1024,
        r is Err ==> r->Err_0.code == ErrorCode::MaxRecordSize,
        q is Err ==> q->Err_0.code == ErrorCode::MaxRecordSize,
{
}

/// A pushed request is answered once it is read; captured requests are handed out
/// once.
pub proof fn law_what_is_answered_and_handed_out(
    t: &'static str,
    b: &mut CaptureBuffer,
    r: Vec<CapturedRequest>,
    code: ErrorCode,
    d: EncodeDrop,
)
    requires
        call_ensures(push_reply, (), t),
        call_ensures(CaptureBuffer::drain_requests, (b,), r),
        call_ensures(encode_drop, (code,), d),
    ensures
        t@ == "HTTP/1.1 202 Accepted\r\ncontent-length: 2\r\nconnection: close\r\n\r\nok"@,
        r@ == old(b).requests@,
        final(b).requests@.len() == 0 && final(b).bytes == 0,
        d == EncodeDrop::Budget <==> code == ErrorCode::ResourceExhausted,
{
}

/// A blank line is a line: a newline alone, or one with a carriage return.
pub proof fn law_a_blank_line_is_a_line(t: Seq<char>)
    ensures
        text_lines(seq!['\n'] + t) == seq![Seq::<char>::empty()] + text_lines(t),
        text_lines(seq!['\r', '\n'] + t) == seq![Seq::<char>::empty()] + text_lines(t),
{
    let e = Seq::<char>::empty();
    let c = seq!['\r'];
    lemma_lines_join(e, t);
    lemma_first_line(e, pieces(t, '\n'));
    assert(e + seq!['\n'] + t =~= seq!['\n'] + t);
    lemma_lines_join(c, t);
    lemma_first_line(c, pieces(t, '\n'));
    assert(c + seq!['\n'] + t =~= seq!['\r', '\n'] + t);
    assert(c.drop_last() =~= e);
}

/// A hurry ends once nothing is left to be sent, and lasts until then; only the
/// end of a wait, or a batch that cannot join, begins one.
pub proof fn law_when_a_hurry_ends(
    a: &mut SinkLoop,
    b: &mut SinkLoop,
    c: &mut SinkLoop,
    d: &mut SinkLoop,
    e: SinkLoop,
)
    requires
        call_ensures(SinkLoop::on_joined, (a,), ()),
        call_ensures(SinkLoop::on_flush_request, (b,), ()),
        call_ensures(SinkLoop::on_linger, (c,), ()),
        call_ensures(SinkLoop::on_closed, (d,), ()),
        call_ensures(SinkLoop::new, (), e),
    ensures
        final(a).flush <==> old(a).flush && (old(a).group is Some || old(a).carry is Some),
        final(b).flush <==> old(b).flush && (old(b).group is Some || old(b).carry is Some),
        final(c).flush <==> old(c).group is Some || old(c).carry is Some,
        final(d).flush <==> old(d).flush && (old(d).group is Some || old(d).carry is Some),
        final(a).force_flush == old(a).force_flush,
        final(c).force_flush == old(c).force_flush,
        final(d).force_flush == old(d).force_flush,
        e.group is None && e.carry is None && !e.closed && !e.flush && !e.force_flush && e.tasks
            == 0,
{
}

} // verus!
