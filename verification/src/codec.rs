//! The DNS message codec, seen from the servicing loop.
//!
//! The codec itself (parsing a query, validating its structure, building the
//! answer record for the configured address and TTL) is an external
//! collaborator: the loop consumes it as a single operation that maps one raw
//! request, a resolution address, a TTL and an output buffer either to a
//! response length or to a classified failure. The trait below is that
//! interface; [`EchoCodec`] is a minimal verified implementation used to
//! exercise the loop.

use vstd::prelude::*;

verus! {

/// A classified codec failure.
///
/// `InvalidMessage` marks a request that failed structural validation; it is
/// the only failure the servicing loop treats as recoverable. Every other
/// failure (here: a response that does not fit the output buffer) is fatal to
/// the loop.
#[derive(Clone, Copy, Debug, PartialEq, Eq, Structural)]
pub enum DnsError {
    /// The request is not a structurally valid message.
    InvalidMessage,
    /// The response would not fit in the provided output buffer.
    ShortBuf,
}

/// What a codec does with one request, as a mathematical value: either the
/// exact response bytes, or a classified failure.
pub ghost enum CodecVerdict {
    Reply(Seq<u8>),
    Refuse(DnsError),
}

/// The codec collaborator.
///
/// A codec is a pure function of the request bytes, the resolution target and
/// the capacity of the output buffer: `verdict` is that function, and `reply`
/// must realise it exactly. In particular, two calls on the same request under
/// the same configuration produce identical response bytes.
pub trait Codec {
    /// The codec's ruling on one request: `request` is the raw query, `ip` the
    /// four octets of the configured resolution address, `ttl_secs` the
    /// configured time-to-live, and `capacity` the room the output buffer
    /// offers.
    spec fn verdict(&self, request: Seq<u8>, ip: Seq<u8>, ttl_secs: u32, capacity: nat) -> CodecVerdict;

    /// Answers one request: on success the response occupies the first `n`
    /// bytes of `tx_buf` and `n` is returned; the rest of `tx_buf` is scratch.
    /// The buffer's capacity is never changed.
    fn reply(&self, request: &[u8], ip: &[u8; 4], ttl_secs: u32, tx_buf: &mut Vec<u8>) -> (r: Result<
        usize,
        DnsError,
    >)
        ensures
            final(tx_buf)@.len() == old(tx_buf)@.len(),
            (match self.verdict(request@, ip@, ttl_secs, old(tx_buf)@.len() as nat) {
                CodecVerdict::Reply(resp) => {
                    &&& resp.len() <= old(tx_buf)@.len()
                    &&& r matches Ok(n) && n == resp.len()
                    &&& final(tx_buf)@.take(resp.len() as int) == resp
                },
                CodecVerdict::Refuse(e) => r == Err::<usize, DnsError>(e),
            }),
    ;
}

/// A request shorter than this is rejected as malformed (the length of a DNS
/// message header, the least any query carries).
pub const HEADER_LEN: usize = 12;

/// The bytes [`EchoCodec`] appends to an echoed request: the four octets of
/// the resolution address and the four big-endian octets of the TTL.
pub const TRAILER_LEN: usize = 8;

/// The TTL as the four big-endian octets a response carries.
pub open spec fn ttl_octets(ttl_secs: u32) -> Seq<u8> {
    seq![
        ((ttl_secs >> 24) & 0xff) as u8,
        ((ttl_secs >> 16) & 0xff) as u8,
        ((ttl_secs >> 8) & 0xff) as u8,
        (ttl_secs & 0xff) as u8,
    ]
}

/// [`EchoCodec`]'s ruling: a request shorter than a message header is
/// malformed; a response that would not fit the output buffer is a fatal
/// shortage; otherwise the response echoes the request and appends the
/// resolution address and the TTL.
pub open spec fn echo_verdict(
    request: Seq<u8>,
    ip: Seq<u8>,
    ttl_secs: u32,
    capacity: nat,
) -> CodecVerdict {
    if request.len() < HEADER_LEN {
        CodecVerdict::Refuse(DnsError::InvalidMessage)
    } else if request.len() + TRAILER_LEN > capacity {
        CodecVerdict::Refuse(DnsError::ShortBuf)
    } else {
        CodecVerdict::Reply(request + ip + ttl_octets(ttl_secs))
    }
}

/// A minimal codec for exercising the servicing loop end to end: it answers
/// any request of at least a header's length by echoing the request (so the
/// transaction identifier comes back to its sender) and appending the
/// resolution address and the TTL. It performs no real DNS encoding; a
/// deployment supplies its own [`Codec`].
pub struct EchoCodec;

impl Codec for EchoCodec {
    open spec fn verdict(
        &self,
        request: Seq<u8>,
        ip: Seq<u8>,
        ttl_secs: u32,
        capacity: nat,
    ) -> CodecVerdict {
        echo_verdict(request, ip, ttl_secs, capacity)
    }

    fn reply(&self, request: &[u8], ip: &[u8; 4], ttl_secs: u32, tx_buf: &mut Vec<u8>) -> (r:
        Result<usize, DnsError>) {
        let req_len = request.len();
        if req_len < HEADER_LEN {
            return Err(DnsError::InvalidMessage);
        }
        if tx_buf.len() < TRAILER_LEN || req_len > tx_buf.len() - TRAILER_LEN {
            return Err(DnsError::ShortBuf);
        }
        let mut i: usize = 0;
        while i < req_len
            invariant
                i <= req_len,
                req_len == request@.len(),
                req_len + TRAILER_LEN <= tx_buf@.len(),
                tx_buf@.len() == old(tx_buf)@.len(),
                tx_buf@.take(i as int) == request@.take(i as int),
            decreases req_len - i,
        {
            let b = *vstd::slice::slice_index_get(request, i);
            tx_buf[i] = b;
            proof {
                assert(tx_buf@.take(i as int + 1) =~= request@.take(i as int + 1));
            }
            i += 1;
        }
        proof {
            assert(request@.take(req_len as int) =~= request@);
        }
        tx_buf[req_len] = ip[0];
        tx_buf[req_len + 1] = ip[1];
        tx_buf[req_len + 2] = ip[2];
        tx_buf[req_len + 3] = ip[3];
        tx_buf[req_len + 4] = #[verifier::truncate] (((ttl_secs >> 24) & 0xff) as u8);
        tx_buf[req_len + 5] = #[verifier::truncate] (((ttl_secs >> 16) & 0xff) as u8);
        tx_buf[req_len + 6] = #[verifier::truncate] (((ttl_secs >> 8) & 0xff) as u8);
        tx_buf[req_len + 7] = #[verifier::truncate] ((ttl_secs & 0xff) as u8);
        proof {
            let resp = request@ + ip@ + ttl_octets(ttl_secs);
            assert(tx_buf@.take(req_len as int) =~= request@);
            assert(tx_buf@.take(req_len as int + TRAILER_LEN as int) =~= resp);
        }
        Ok(req_len + TRAILER_LEN)
    }
}

/// Law: every response [`EchoCodec`] produces embeds the configured resolution
/// address and TTL — the four address octets stand right after the echoed
/// request and the four big-endian TTL octets close the response — whatever
/// name the request asked for.
pub proof fn lemma_echo_reply_embeds_target(
    request: Seq<u8>,
    ip: Seq<u8>,
    ttl_secs: u32,
    capacity: nat,
)
    ensures
        echo_verdict(request, ip, ttl_secs, capacity) matches CodecVerdict::Reply(resp) ==> {
            &&& resp.len() == request.len() + ip.len() + 4
            &&& resp.take(request.len() as int) == request
            &&& resp.subrange(request.len() as int, request.len() as int + ip.len() as int) == ip
            &&& resp.skip(request.len() + ip.len() as int) == ttl_octets(ttl_secs)
        },
{
    if echo_verdict(request, ip, ttl_secs, capacity) is Reply {
        let resp = request + ip + ttl_octets(ttl_secs);
        assert(resp.take(request.len() as int) =~= request);
        assert(resp.subrange(request.len() as int, request.len() as int + ip.len() as int) =~= ip);
        assert(resp.skip(request.len() + ip.len() as int) =~= ttl_octets(ttl_secs));
    }
}

} // verus!
