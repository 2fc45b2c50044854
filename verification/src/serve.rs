//! The request-servicing loop: receive one datagram, let the codec rule on it,
//! send the response back to the originator, and classify failures — a
//! malformed request is discarded and service resumes; every other failure is
//! fatal and surfaces to the caller.
//!
//! Because the service is meant to run indefinitely, the unbounded loop itself
//! lives with the embedding program; this module provides and verifies one
//! full iteration ([`serve_step`]), a budget-bounded runner ([`run_bounded`]),
//! and the trace predicates and laws that pin down what any number of
//! iterations may do to the endpoint's datagram log.

use vstd::prelude::*;

use crate::addr::NetAddr;
use crate::codec::{Codec, CodecVerdict, DnsError};
use crate::transport::{Event, Transport};

verus! {

/// A terminal failure of the servicing loop: either the transport broke, or
/// the codec failed in a way other than "the request was malformed".
#[derive(Clone, Copy, Debug, PartialEq, Eq, Structural)]
pub enum DnsIoError {
    /// A codec failure other than a malformed request.
    DnsError,
    /// A transport-layer failure (bind, receive or send).
    IoError,
}

/// What the loop does next, once the codec has ruled on a received request.
#[derive(Clone, Copy, Debug, PartialEq, Eq, Structural)]
pub enum Action {
    /// The codec produced a response of this length: send it to the origin.
    Send(usize),
    /// The request was malformed: discard it and resume listening.
    Skip,
    /// A non-recoverable codec failure: stop and surface it.
    Stop(DnsIoError),
}

/// The loop's policy for one codec outcome: a success is sent back, a
/// malformed request is skipped, and any other codec failure ends the loop
/// with a codec-classified (never transport-classified) error.
pub fn next_action(outcome: &Result<usize, DnsError>) -> (a: Action)
    ensures
        a == (match outcome {
            Ok(n) => Action::Send(*n),
            Err(DnsError::InvalidMessage) => Action::Skip,
            Err(_) => Action::Stop(DnsIoError::DnsError),
        }),
{
    match outcome {
        Ok(n) => Action::Send(*n),
        Err(DnsError::InvalidMessage) => Action::Skip,
        Err(_) => Action::Stop(DnsIoError::DnsError),
    }
}

/// How one fully answered iteration extends the endpoint's log: one received
/// datagram, followed by one sent datagram whose payload is exactly the
/// codec's response to the received bytes and whose destination is exactly the
/// origin of that request.
pub open spec fn answered_step<C: Codec>(
    c: &C,
    pre: Seq<Event>,
    post: Seq<Event>,
    ip: Seq<u8>,
    ttl_secs: u32,
    capacity: nat,
) -> bool {
    &&& post.len() == pre.len() + 2
    &&& post.take(pre.len() as int) == pre
    &&& post[pre.len() as int] matches Event::Recv { query, origin } && (
    c.verdict(query, ip, ttl_secs, capacity) matches CodecVerdict::Reply(resp)
        && post[pre.len() as int + 1] == (Event::Send { payload: resp, dest: origin }))
}

/// How one skipped iteration extends the log: one received datagram that the
/// codec classified as malformed, and nothing sent.
pub open spec fn skipped_step<C: Codec>(
    c: &C,
    pre: Seq<Event>,
    post: Seq<Event>,
    ip: Seq<u8>,
    ttl_secs: u32,
    capacity: nat,
) -> bool {
    &&& post.len() == pre.len() + 1
    &&& post.take(pre.len() as int) == pre
    &&& post.last() matches Event::Recv { query, origin } && c.verdict(
        query,
        ip,
        ttl_secs,
        capacity,
    ) == CodecVerdict::Refuse(DnsError::InvalidMessage)
}

/// How an iteration that ends the loop with a codec-classified error extends
/// the log: one received datagram on which the codec failed in some way other
/// than "malformed", and nothing sent.
pub open spec fn refused_step<C: Codec>(
    c: &C,
    pre: Seq<Event>,
    post: Seq<Event>,
    ip: Seq<u8>,
    ttl_secs: u32,
    capacity: nat,
) -> bool {
    &&& post.len() == pre.len() + 1
    &&& post.take(pre.len() as int) == pre
    &&& post.last() matches Event::Recv { query, origin } && (c.verdict(
        query,
        ip,
        ttl_secs,
        capacity,
    ) matches CodecVerdict::Refuse(e) && e != DnsError::InvalidMessage)
}

/// How an iteration whose send failed extends the log: one received datagram
/// the codec answered, but no sent datagram, the transport having faulted.
pub open spec fn lost_reply_step<C: Codec>(
    c: &C,
    pre: Seq<Event>,
    post: Seq<Event>,
    ip: Seq<u8>,
    ttl_secs: u32,
    capacity: nat,
) -> bool {
    &&& post.len() == pre.len() + 1
    &&& post.take(pre.len() as int) == pre
    &&& post.last() matches Event::Recv { query, origin } && c.verdict(
        query,
        ip,
        ttl_secs,
        capacity,
    ) is Reply
}

/// A datagram log segment that a healthy servicing loop produces: zero or more
/// iterations, each either answered — a request followed immediately by
/// exactly the codec's response, sent to the exact origin of that request —
/// or skipped — a request the codec classified as malformed, with nothing
/// sent.
pub open spec fn is_service_trace<C: Codec>(
    c: &C,
    tr: Seq<Event>,
    ip: Seq<u8>,
    ttl_secs: u32,
    capacity: nat,
) -> bool
    decreases tr.len(),
{
    if tr.len() == 0 {
        true
    } else {
        tr[0] matches Event::Recv { query, origin } && (match c.verdict(
            query,
            ip,
            ttl_secs,
            capacity,
        ) {
            CodecVerdict::Reply(resp) => tr.len() >= 2 && tr[1] == (Event::Send {
                payload: resp,
                dest: origin,
            }) && is_service_trace(c, tr.skip(2), ip, ttl_secs, capacity),
            CodecVerdict::Refuse(e) => e == DnsError::InvalidMessage && is_service_trace(
                c,
                tr.skip(1),
                ip,
                ttl_secs,
                capacity,
            ),
        })
    }
}

/// A log segment of a loop that served healthily and then died of a transport
/// fault: either the fault hit the receive (nothing more was logged), or it
/// hit the send of the final response (its request was logged, the reply was
/// lost).
pub open spec fn io_fault_trace<C: Codec>(
    c: &C,
    tr: Seq<Event>,
    ip: Seq<u8>,
    ttl_secs: u32,
    capacity: nat,
) -> bool {
    ||| is_service_trace(c, tr, ip, ttl_secs, capacity)
    ||| {
        &&& tr.len() >= 1
        &&& is_service_trace(c, tr.take(tr.len() - 1), ip, ttl_secs, capacity)
        &&& tr.last() matches Event::Recv { query, origin } && c.verdict(
            query,
            ip,
            ttl_secs,
            capacity,
        ) is Reply
    }
}

/// A log segment of a loop that served healthily until a request on which the
/// codec failed in some way other than "malformed": that request is the last
/// event logged, and nothing was sent for it.
pub open spec fn codec_fault_trace<C: Codec>(
    c: &C,
    tr: Seq<Event>,
    ip: Seq<u8>,
    ttl_secs: u32,
    capacity: nat,
) -> bool {
    &&& tr.len() >= 1
    &&& is_service_trace(c, tr.take(tr.len() - 1), ip, ttl_secs, capacity)
    &&& tr.last() matches Event::Recv { query, origin } && (c.verdict(
        query,
        ip,
        ttl_secs,
        capacity,
    ) matches CodecVerdict::Refuse(e) && e != DnsError::InvalidMessage)
}

/// How many requests a log segment records.
pub open spec fn recv_count(tr: Seq<Event>) -> nat
    decreases tr.len(),
{
    if tr.len() == 0 {
        0
    } else {
        recv_count(tr.drop_last()) + if tr.last() is Recv {
            1nat
        } else {
            0nat
        }
    }
}

/// Law: an answered iteration extends a healthy trace into a healthy trace —
/// appending a request the codec answers, followed by exactly the codec's
/// response sent to that request's origin, preserves trace health.
pub proof fn lemma_trace_append_answered<C: Codec>(
    c: &C,
    tr: Seq<Event>,
    q: Seq<u8>,
    o: NetAddr,
    resp: Seq<u8>,
    ip: Seq<u8>,
    ttl_secs: u32,
    capacity: nat,
)
    requires
        is_service_trace(c, tr, ip, ttl_secs, capacity),
        c.verdict(q, ip, ttl_secs, capacity) == CodecVerdict::Reply(resp),
    ensures
        is_service_trace(
            c,
            tr + seq![
                Event::Recv { query: q, origin: o },
                Event::Send { payload: resp, dest: o },
            ],
            ip,
            ttl_secs,
            capacity,
        ),
    decreases tr.len(),
{
    let chunk = seq![
        Event::Recv { query: q, origin: o },
        Event::Send { payload: resp, dest: o },
    ];
    let ext = tr + chunk;
    if tr.len() == 0 {
        assert(ext =~= chunk);
        assert(ext.skip(2) =~= Seq::<Event>::empty());
        assert(is_service_trace(c, Seq::<Event>::empty(), ip, ttl_secs, capacity));
    } else {
        match tr[0] {
            Event::Recv { query, origin } => {
                match c.verdict(query, ip, ttl_secs, capacity) {
                    CodecVerdict::Reply(_) => {
                        lemma_trace_append_answered(
                            c,
                            tr.skip(2),
                            q,
                            o,
                            resp,
                            ip,
                            ttl_secs,
                            capacity,
                        );
                        assert(ext.skip(2) =~= tr.skip(2) + chunk);
                        assert(ext[0] == tr[0]);
                        assert(ext[1] == tr[1]);
                    },
                    CodecVerdict::Refuse(_) => {
                        lemma_trace_append_answered(
                            c,
                            tr.skip(1),
                            q,
                            o,
                            resp,
                            ip,
                            ttl_secs,
                            capacity,
                        );
                        assert(ext.skip(1) =~= tr.skip(1) + chunk);
                        assert(ext[0] == tr[0]);
                    },
                }
            },
            Event::Send { .. } => {
                assert(false);
            },
        }
    }
}

/// Law: a malformed request never ends the service. Appending a request the
/// codec classifies as malformed — and nothing else — to a healthy trace
/// yields a healthy trace: the loop is back in its listening state, ready for
/// the next request.
pub proof fn lemma_trace_append_skipped<C: Codec>(
    c: &C,
    tr: Seq<Event>,
    q: Seq<u8>,
    o: NetAddr,
    ip: Seq<u8>,
    ttl_secs: u32,
    capacity: nat,
)
    requires
        is_service_trace(c, tr, ip, ttl_secs, capacity),
        c.verdict(q, ip, ttl_secs, capacity) == CodecVerdict::Refuse(DnsError::InvalidMessage),
    ensures
        is_service_trace(
            c,
            tr.push(Event::Recv { query: q, origin: o }),
            ip,
            ttl_secs,
            capacity,
        ),
    decreases tr.len(),
{
    let ext = tr.push(Event::Recv { query: q, origin: o });
    if tr.len() == 0 {
        assert(ext.skip(1) =~= Seq::<Event>::empty());
        assert(is_service_trace(c, Seq::<Event>::empty(), ip, ttl_secs, capacity));
        assert(ext[0] == (Event::Recv { query: q, origin: o }));
    } else {
        match tr[0] {
            Event::Recv { query, origin } => {
                match c.verdict(query, ip, ttl_secs, capacity) {
                    CodecVerdict::Reply(_) => {
                        lemma_trace_append_skipped(c, tr.skip(2), q, o, ip, ttl_secs, capacity);
                        assert(ext.skip(2) =~= tr.skip(2).push(
                            Event::Recv { query: q, origin: o },
                        ));
                        assert(ext[0] == tr[0]);
                        assert(ext[1] == tr[1]);
                    },
                    CodecVerdict::Refuse(_) => {
                        lemma_trace_append_skipped(c, tr.skip(1), q, o, ip, ttl_secs, capacity);
                        assert(ext.skip(1) =~= tr.skip(1).push(
                            Event::Recv { query: q, origin: o },
                        ));
                        assert(ext[0] == tr[0]);
                    },
                }
            },
            Event::Send { .. } => {
                assert(false);
            },
        }
    }
}

/// Law: in a healthy trace, every sent datagram answers the request received
/// immediately before it — its payload is exactly the codec's response to that
/// request's bytes (so never more bytes than the codec reported), and its
/// destination is exactly that request's origin (so never a stale or default
/// address).
pub proof fn lemma_send_answers_preceding_recv<C: Codec>(
    c: &C,
    tr: Seq<Event>,
    ip: Seq<u8>,
    ttl_secs: u32,
    capacity: nat,
    i: int,
)
    requires
        is_service_trace(c, tr, ip, ttl_secs, capacity),
        0 <= i < tr.len(),
        tr[i] is Send,
    ensures
        1 <= i,
        tr[i - 1] matches Event::Recv { query, origin } && (c.verdict(
            query,
            ip,
            ttl_secs,
            capacity,
        ) matches CodecVerdict::Reply(resp) && tr[i] == (Event::Send {
            payload: resp,
            dest: origin,
        })),
    decreases tr.len(),
{
    match tr[0] {
        Event::Recv { query, origin } => {
            match c.verdict(query, ip, ttl_secs, capacity) {
                CodecVerdict::Reply(_) => {
                    if i >= 2 {
                        lemma_send_answers_preceding_recv(
                            c,
                            tr.skip(2),
                            ip,
                            ttl_secs,
                            capacity,
                            i - 2,
                        );
                        assert(tr.skip(2)[i - 2] == tr[i]);
                        assert(tr.skip(2)[i - 3] == tr[i - 1]);
                    }
                },
                CodecVerdict::Refuse(_) => {
                    lemma_send_answers_preceding_recv(c, tr.skip(1), ip, ttl_secs, capacity, i - 1);
                    assert(tr.skip(1)[i - 1] == tr[i]);
                    assert(tr.skip(1)[i - 2] == tr[i - 1]);
                },
            }
        },
        Event::Send { .. } => {
            assert(false);
        },
    }
}

/// Law (idempotence): the codec being a pure function of the request and the
/// fixed configuration, two requests with the same bytes are answered, within
/// one healthy trace, by responses with identical bytes — whatever their
/// origins, and wherever in the trace they occur.
pub proof fn lemma_equal_queries_equal_replies<C: Codec>(
    c: &C,
    tr: Seq<Event>,
    ip: Seq<u8>,
    ttl_secs: u32,
    capacity: nat,
    i: int,
    j: int,
)
    requires
        is_service_trace(c, tr, ip, ttl_secs, capacity),
        0 <= i < tr.len(),
        0 <= j < tr.len(),
        tr[i] is Send,
        tr[j] is Send,
        tr[i - 1] matches Event::Recv { query: qi, .. } && (tr[j - 1] matches Event::Recv {
            query: qj,
            ..
        } && qi == qj),
    ensures
        tr[i]->payload == tr[j]->payload,
{
    lemma_send_answers_preceding_recv(c, tr, ip, ttl_secs, capacity, i);
    lemma_send_answers_preceding_recv(c, tr, ip, ttl_secs, capacity, j);
}

/// Pushing one event onto a log segment raises its request count by one
/// exactly when that event is a received datagram.
proof fn lemma_recv_count_push(tr: Seq<Event>, e: Event)
    ensures
        recv_count(tr.push(e)) == recv_count(tr) + if e is Recv {
            1nat
        } else {
            0nat
        },
{
    assert(tr.push(e).drop_last() =~= tr);
    assert(tr.push(e).last() == e);
}

/// The result of one loop iteration.
#[derive(Clone, Copy, Debug, PartialEq, Eq, Structural)]
pub enum StepOutcome {
    /// A request was received and its response sent back to the originator.
    Answered,
    /// A malformed request was received and discarded; service resumes.
    Skipped,
    /// The loop is over: a transport failure, or a fatal codec failure.
    Stop(DnsIoError),
}

/// One full iteration of the request-servicing loop: receive into `rx_buf`,
/// hand exactly the received bytes to the codec together with the resolution
/// target and `tx_buf` as response space, and on success send exactly the
/// codec's response back to the originator.
///
/// The contract classifies every outcome over the endpoint's datagram log:
/// a reply goes only to the origin of the request it answers and carries
/// exactly the codec's response bytes; a malformed request leaves the loop
/// ready for the next one; `IoError` arises only from the transport, and
/// `DnsError` only from a non-recoverable codec failure.
pub fn serve_step<T: Transport, C: Codec>(
    transport: &mut T,
    codec: &C,
    rx_buf: &mut Vec<u8>,
    tx_buf: &mut Vec<u8>,
    ip: &[u8; 4],
    ttl_secs: u32,
) -> (r: StepOutcome)
    ensures
        final(rx_buf)@.len() == old(rx_buf)@.len(),
        final(tx_buf)@.len() == old(tx_buf)@.len(),
        (match r {
            StepOutcome::Answered => answered_step(
                codec,
                old(transport).log(),
                final(transport).log(),
                ip@,
                ttl_secs,
                old(tx_buf)@.len() as nat,
            ),
            StepOutcome::Skipped => skipped_step(
                codec,
                old(transport).log(),
                final(transport).log(),
                ip@,
                ttl_secs,
                old(tx_buf)@.len() as nat,
            ),
            StepOutcome::Stop(DnsIoError::DnsError) => refused_step(
                codec,
                old(transport).log(),
                final(transport).log(),
                ip@,
                ttl_secs,
                old(tx_buf)@.len() as nat,
            ),
            StepOutcome::Stop(DnsIoError::IoError) => final(transport).log() == old(
                transport,
            ).log() || lost_reply_step(
                codec,
                old(transport).log(),
                final(transport).log(),
                ip@,
                ttl_secs,
                old(tx_buf)@.len() as nat,
            ),
        }),
{
    let received = transport.receive(rx_buf);
    let (len, origin) = match received {
        Ok(pair) => pair,
        Err(_) => {
            return StepOutcome::Stop(DnsIoError::IoError);
        },
    };
    let request = vstd::slice::slice_subrange(rx_buf.as_slice(), 0, len);
    let outcome = codec.reply(request, ip, ttl_secs, tx_buf);
    match next_action(&outcome) {
        Action::Send(n) => {
            let payload = vstd::slice::slice_subrange(tx_buf.as_slice(), 0, n);
            match transport.send(payload, origin) {
                Ok(_) => {
                    proof {
                        let pre = old(transport).log();
                        let q = rx_buf@.take(len as int);
                        let ev_recv = (Event::Recv { query: q, origin });
                        let ev_send = (Event::Send { payload: payload@, dest: origin });
                        assert(transport.log() == pre.push(ev_recv).push(ev_send));
                        assert(transport.log().take(pre.len() as int) =~= pre);
                        assert(payload@ =~= tx_buf@.take(n as int));
                    }
                    StepOutcome::Answered
                },
                Err(_) => {
                    proof {
                        assert(transport.log().take(old(transport).log().len() as int)
                            =~= old(transport).log());
                    }
                    StepOutcome::Stop(DnsIoError::IoError)
                },
            }
        },
        Action::Skip => {
            proof {
                assert(transport.log().take(old(transport).log().len() as int)
                    =~= old(transport).log());
            }
            StepOutcome::Skipped
        },
        Action::Stop(e) => {
            proof {
                assert(transport.log().take(old(transport).log().len() as int)
                    =~= old(transport).log());
            }
            StepOutcome::Stop(e)
        },
    }
}

/// Runs the servicing loop for at most `budget` requests — the caller's stand-
/// in for "indefinitely" where an a-priori bound is wanted, as in a test rig or
/// a cooperative scheduler slot; an embedding program that wants the unbounded
/// service simply calls [`serve_step`] forever.
///
/// `None` means the budget was spent without a fatal failure: the endpoint's
/// log grew by a healthy trace recording exactly `budget` requests. `IoError`
/// arises only from a transport fault (on receive, or on the send of the final
/// response), `DnsError` only from a request on which the codec failed in some
/// way other than "malformed"; either way the log grew by the matching
/// terminated trace, and everything already logged stays logged.
pub fn run_bounded<T: Transport, C: Codec>(
    transport: &mut T,
    codec: &C,
    rx_buf: &mut Vec<u8>,
    tx_buf: &mut Vec<u8>,
    ip: &[u8; 4],
    ttl_secs: u32,
    budget: usize,
) -> (r: Option<DnsIoError>)
    ensures
        final(rx_buf)@.len() == old(rx_buf)@.len(),
        final(tx_buf)@.len() == old(tx_buf)@.len(),
        final(transport).log().take(old(transport).log().len() as int) == old(transport).log(),
        ({
            let tr = final(transport).log().skip(old(transport).log().len() as int);
            let cap = old(tx_buf)@.len() as nat;
            match r {
                None => is_service_trace(codec, tr, ip@, ttl_secs, cap) && recv_count(tr)
                    == budget,
                Some(DnsIoError::IoError) => io_fault_trace(codec, tr, ip@, ttl_secs, cap)
                    && recv_count(tr) <= budget,
                Some(DnsIoError::DnsError) => codec_fault_trace(codec, tr, ip@, ttl_secs, cap)
                    && recv_count(tr) <= budget,
            }
        }),
{
    let ghost base = old(transport).log();
    let ghost cap = tx_buf@.len() as nat;
    let mut served: usize = 0;
    while served < budget
        invariant
            served <= budget,
            rx_buf@.len() == old(rx_buf)@.len(),
            tx_buf@.len() == old(tx_buf)@.len(),
            cap == old(tx_buf)@.len() as nat,
            base == old(transport).log(),
            transport.log().len() >= base.len(),
            transport.log().take(base.len() as int) == base,
            is_service_trace(
                codec,
                transport.log().skip(base.len() as int),
                ip@,
                ttl_secs,
                cap,
            ),
            recv_count(transport.log().skip(base.len() as int)) == served,
        decreases budget - served,
    {
        let ghost prev = transport.log();
        let ghost tr_prev = prev.skip(base.len() as int);
        let step = serve_step(transport, codec, rx_buf, tx_buf, ip, ttl_secs);
        let ghost tr_cur = transport.log().skip(base.len() as int);
        match step {
            StepOutcome::Answered => {
                proof {
                    match transport.log()[prev.len() as int] {
                        Event::Recv { query, origin } => {
                            match codec.verdict(query, ip@, ttl_secs, cap) {
                                CodecVerdict::Reply(resp) => {
                                    let ev_recv = (Event::Recv { query, origin });
                                    let ev_send = (Event::Send { payload: resp, dest: origin });
                                    lemma_trace_append_answered(
                                        codec,
                                        tr_prev,
                                        query,
                                        origin,
                                        resp,
                                        ip@,
                                        ttl_secs,
                                        cap,
                                    );
                                    assert(tr_cur =~= tr_prev + seq![ev_recv, ev_send]);
                                    assert(tr_cur =~= tr_prev.push(ev_recv).push(ev_send));
                                    lemma_recv_count_push(tr_prev, ev_recv);
                                    lemma_recv_count_push(tr_prev.push(ev_recv), ev_send);
                                },
                                CodecVerdict::Refuse(_) => {
                                    assert(false);
                                },
                            }
                        },
                        Event::Send { .. } => {
                            assert(false);
                        },
                    }
                    assert(transport.log().take(base.len() as int) =~= base);
                }
            },
            StepOutcome::Skipped => {
                proof {
                    match transport.log().last() {
                        Event::Recv { query, origin } => {
                            let ev_recv = (Event::Recv { query, origin });
                            lemma_trace_append_skipped(
                                codec,
                                tr_prev,
                                query,
                                origin,
                                ip@,
                                ttl_secs,
                                cap,
                            );
                            assert(tr_cur =~= tr_prev.push(ev_recv));
                            lemma_recv_count_push(tr_prev, ev_recv);
                        },
                        Event::Send { .. } => {
                            assert(false);
                        },
                    }
                    assert(transport.log().take(base.len() as int) =~= base);
                }
            },
            StepOutcome::Stop(e) => {
                proof {
                    assert(transport.log().take(base.len() as int) =~= base);
                    if transport.log() == prev {
                        assert(tr_cur == tr_prev);
                    } else {
                        match transport.log().last() {
                            Event::Recv { query, origin } => {
                                let ev_recv = (Event::Recv { query, origin });
                                assert(tr_cur =~= tr_prev.push(ev_recv));
                                assert(tr_cur.take(tr_cur.len() - 1) =~= tr_prev);
                                assert(tr_cur.last() == ev_recv);
                                lemma_recv_count_push(tr_prev, ev_recv);
                            },
                            Event::Send { .. } => {
                                assert(false);
                            },
                        }
                    }
                }
                return Some(e);
            },
        }
        served = served + 1;
    }
    None
}

} // verus!

