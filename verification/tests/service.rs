use edge_captive::addr::{IpBytes, NetAddr};
use edge_captive::codec::{Codec, DnsError, EchoCodec, HEADER_LEN, TRAILER_LEN};
use edge_captive::serve::{next_action, run_bounded, serve_step, Action, DnsIoError, StepOutcome};
use edge_captive::transport::{Datagram, Exchange, ScriptedTransport, Transport};

const TARGET: [u8; 4] = [192, 168, 0, 1];
const TTL: u32 = 60;

fn addr(last_octet: u8, port: u16) -> NetAddr {
    NetAddr { ip: IpBytes::V4([10, 0, 0, last_octet]), port }
}

fn query(len: usize, fill: u8) -> Vec<u8> {
    vec![fill; len]
}

fn expected_response(q: &[u8]) -> Vec<u8> {
    let mut r = q.to_vec();
    r.extend_from_slice(&TARGET);
    r.extend_from_slice(&TTL.to_be_bytes());
    r
}

fn take_send(t: &ScriptedTransport, i: usize) -> (Vec<u8>, NetAddr) {
    match t.exchange_at(i) {
        Exchange::Send(payload, dest) => (payload.clone(), *dest),
        Exchange::Recv(_, _) => panic!("exchange {} is a receive, expected a send", i),
    }
}

fn take_recv(t: &ScriptedTransport, i: usize) -> (Vec<u8>, NetAddr) {
    match t.exchange_at(i) {
        Exchange::Recv(data, origin) => (data.clone(), *origin),
        Exchange::Send(_, _) => panic!("exchange {} is a send, expected a receive", i),
    }
}

#[test]
fn response_embeds_target_and_ttl() {
    let origin = addr(7, 5353);
    let q = query(HEADER_LEN, 0xAB);
    let script = vec![Datagram { payload: q.clone(), peer: origin }];
    let mut t = ScriptedTransport::new(script, false);
    let mut rx = vec![0u8; 512];
    let mut tx = vec![0u8; 512];

    let r = run_bounded(&mut t, &EchoCodec, &mut rx, &mut tx, &TARGET, TTL, 1);

    assert_eq!(r, None);
    assert_eq!(t.exchanged(), 2);
    let (received, from) = take_recv(&t, 0);
    assert_eq!(received, q);
    assert_eq!(from, origin);
    let (payload, dest) = take_send(&t, 1);
    assert_eq!(payload, expected_response(&q));
    assert_eq!(dest, origin);
    // The configured address and TTL stand at fixed offsets of the response.
    assert_eq!(&payload[HEADER_LEN..HEADER_LEN + 4], &TARGET);
    assert_eq!(&payload[HEADER_LEN + 4..HEADER_LEN + 8], &[0, 0, 0, 60]);
}

#[test]
fn malformed_query_is_skipped_and_service_continues() {
    let noisy = addr(66, 1024);
    let honest = addr(7, 5353);
    let junk = query(4, 0xFF);
    let good = query(HEADER_LEN, 0x01);
    let script = vec![
        Datagram { payload: junk.clone(), peer: noisy },
        Datagram { payload: good.clone(), peer: honest },
    ];
    let mut t = ScriptedTransport::new(script, false);
    let mut rx = vec![0u8; 512];
    let mut tx = vec![0u8; 512];

    let r = run_bounded(&mut t, &EchoCodec, &mut rx, &mut tx, &TARGET, TTL, 2);

    assert_eq!(r, None);
    // Three exchanges: the junk received (nothing sent), then the good query
    // and its answer.
    assert_eq!(t.exchanged(), 3);
    let (received, _) = take_recv(&t, 0);
    assert_eq!(received, junk);
    let (received, _) = take_recv(&t, 1);
    assert_eq!(received, good);
    let (payload, dest) = take_send(&t, 2);
    assert_eq!(payload, expected_response(&good));
    assert_eq!(dest, honest);
}

#[test]
fn every_reply_goes_to_its_own_origin() {
    let first = addr(1, 1111);
    let second = addr(2, 2222);
    let q1 = query(HEADER_LEN, 0x11);
    let q2 = query(HEADER_LEN + 5, 0x22);
    let script = vec![
        Datagram { payload: q1.clone(), peer: first },
        Datagram { payload: q2.clone(), peer: second },
    ];
    let mut t = ScriptedTransport::new(script, false);
    let mut rx = vec![0u8; 512];
    let mut tx = vec![0u8; 512];

    let r = run_bounded(&mut t, &EchoCodec, &mut rx, &mut tx, &TARGET, TTL, 2);

    assert_eq!(r, None);
    assert_eq!(t.exchanged(), 4);
    let (first_reply, first_dest) = take_send(&t, 1);
    let (second_reply, second_dest) = take_send(&t, 3);
    assert_eq!(first_dest, first);
    assert_eq!(second_dest, second);
    // Never more bytes than the codec reports: exactly request + trailer.
    assert_eq!(first_reply.len(), q1.len() + TRAILER_LEN);
    assert_eq!(second_reply.len(), q2.len() + TRAILER_LEN);
}

#[test]
fn same_query_twice_yields_identical_responses() {
    let origin = addr(9, 4242);
    let q = query(HEADER_LEN + 3, 0x5A);
    let script = vec![
        Datagram { payload: q.clone(), peer: origin },
        Datagram { payload: q.clone(), peer: origin },
    ];
    let mut t = ScriptedTransport::new(script, false);
    let mut rx = vec![0u8; 512];
    let mut tx = vec![0u8; 512];

    let r = run_bounded(&mut t, &EchoCodec, &mut rx, &mut tx, &TARGET, TTL, 2);

    assert_eq!(r, None);
    assert_eq!(t.exchanged(), 4);
    let (first_reply, _) = take_send(&t, 1);
    let (second_reply, _) = take_send(&t, 3);
    assert_eq!(first_reply, second_reply);
}

#[test]
fn receive_fault_is_transport_classified() {
    let mut t = ScriptedTransport::new(Vec::new(), false);
    let mut rx = vec![0u8; 512];
    let mut tx = vec![0u8; 512];

    let r = run_bounded(&mut t, &EchoCodec, &mut rx, &mut tx, &TARGET, TTL, 1);

    assert_eq!(r, Some(DnsIoError::IoError));
    assert_ne!(r, Some(DnsIoError::DnsError));
    assert_eq!(t.exchanged(), 0);
}

#[test]
fn send_fault_is_transport_classified() {
    let origin = addr(3, 3333);
    let q = query(HEADER_LEN, 0x00);
    let script = vec![Datagram { payload: q, peer: origin }];
    let mut t = ScriptedTransport::new(script, true);
    let mut rx = vec![0u8; 512];
    let mut tx = vec![0u8; 512];

    let r = run_bounded(&mut t, &EchoCodec, &mut rx, &mut tx, &TARGET, TTL, 1);

    assert_eq!(r, Some(DnsIoError::IoError));
    // The request was received; its reply was lost to the fault.
    assert_eq!(t.exchanged(), 1);
}

#[test]
fn short_output_buffer_is_codec_classified() {
    let origin = addr(4, 4444);
    let q = query(HEADER_LEN, 0x00);
    let script = vec![Datagram { payload: q, peer: origin }];
    let mut t = ScriptedTransport::new(script, false);
    let mut rx = vec![0u8; 512];
    // Too small for any response: a response needs request + trailer bytes.
    let mut tx = vec![0u8; HEADER_LEN];

    let r = run_bounded(&mut t, &EchoCodec, &mut rx, &mut tx, &TARGET, TTL, 1);

    assert_eq!(r, Some(DnsIoError::DnsError));
    assert_ne!(r, Some(DnsIoError::IoError));
    // The offending request was received; nothing was sent.
    assert_eq!(t.exchanged(), 1);
}

#[test]
fn step_answers_one_request() {
    let origin = addr(5, 5555);
    let q = query(HEADER_LEN, 0x77);
    let script = vec![Datagram { payload: q.clone(), peer: origin }];
    let mut t = ScriptedTransport::new(script, false);
    let mut rx = vec![0u8; 512];
    let mut tx = vec![0u8; 512];

    let r = serve_step(&mut t, &EchoCodec, &mut rx, &mut tx, &TARGET, TTL);

    assert_eq!(r, StepOutcome::Answered);
    let (payload, dest) = take_send(&t, 1);
    assert_eq!(payload, expected_response(&q));
    assert_eq!(dest, origin);
}

#[test]
fn step_stops_on_receive_fault() {
    let mut t = ScriptedTransport::new(Vec::new(), false);
    let mut rx = vec![0u8; 512];
    let mut tx = vec![0u8; 512];

    let r = serve_step(&mut t, &EchoCodec, &mut rx, &mut tx, &TARGET, TTL);

    assert_eq!(r, StepOutcome::Stop(DnsIoError::IoError));
}

#[test]
fn classification_of_codec_outcomes() {
    assert_eq!(next_action(&Ok(17)), Action::Send(17));
    assert_eq!(next_action(&Err(DnsError::InvalidMessage)), Action::Skip);
    assert_eq!(
        next_action(&Err(DnsError::ShortBuf)),
        Action::Stop(DnsIoError::DnsError)
    );
}

#[test]
fn echo_codec_exact_bytes() {
    let q: Vec<u8> = (0..HEADER_LEN as u8).collect();
    let mut tx = vec![0u8; 64];

    let r = EchoCodec.reply(&q, &TARGET, 0x01020304, &mut tx);

    assert_eq!(r, Ok(HEADER_LEN + TRAILER_LEN));
    let mut expected = q.clone();
    expected.extend_from_slice(&TARGET);
    expected.extend_from_slice(&[1, 2, 3, 4]);
    assert_eq!(&tx[..HEADER_LEN + TRAILER_LEN], &expected[..]);
    assert_eq!(tx.len(), 64);
}

#[test]
fn echo_codec_rejects_short_requests() {
    let q = query(HEADER_LEN - 1, 0xEE);
    let mut tx = vec![0u8; 64];
    let r = EchoCodec.reply(&q, &TARGET, TTL, &mut tx);
    assert_eq!(r, Err(DnsError::InvalidMessage));
}

#[test]
fn echo_codec_reports_short_buffer() {
    let q = query(HEADER_LEN, 0xEE);
    let mut tx = vec![0u8; HEADER_LEN + TRAILER_LEN - 1];
    let r = EchoCodec.reply(&q, &TARGET, TTL, &mut tx);
    assert_eq!(r, Err(DnsError::ShortBuf));
}

#[test]
fn exactly_fitting_output_buffer_is_answered() {
    let origin = addr(6, 6666);
    let q = query(HEADER_LEN, 0x2B);
    let script = vec![Datagram { payload: q.clone(), peer: origin }];
    let mut t = ScriptedTransport::new(script, false);
    let mut rx = vec![0u8; 512];
    let mut tx = vec![0u8; HEADER_LEN + TRAILER_LEN];

    let r = run_bounded(&mut t, &EchoCodec, &mut rx, &mut tx, &TARGET, TTL, 1);

    assert_eq!(r, None);
    let (payload, _) = take_send(&t, 1);
    assert_eq!(payload, expected_response(&q));
}

#[test]
fn bound_endpoint_starts_with_empty_log() {
    let local = addr(0, 53);
    let t = <ScriptedTransport as Transport>::bind(&local).unwrap();
    assert_eq!(t.exchanged(), 0);
}

#[test]
fn long_datagram_is_truncated_to_the_buffer() {
    let origin = addr(8, 8888);
    let q = query(40, 0x3C);
    let script = vec![Datagram { payload: q.clone(), peer: origin }];
    let mut t = ScriptedTransport::new(script, false);
    let mut rx = vec![0u8; 16];
    let mut tx = vec![0u8; 512];

    let r = serve_step(&mut t, &EchoCodec, &mut rx, &mut tx, &TARGET, TTL);

    // Only the buffer's worth arrives; the truncated query is still a valid
    // request for this codec, so it is answered.
    assert_eq!(r, StepOutcome::Answered);
    let (received, _) = take_recv(&t, 0);
    assert_eq!(received, &q[..16]);
    let (payload, _) = take_send(&t, 1);
    assert_eq!(payload, expected_response(&q[..16]));
}
