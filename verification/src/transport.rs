//! The transport capability: an abstract datagram endpoint offering exactly
//! bind, receive-with-sender and send-to-address, so the servicing loop runs
//! unmodified over hosted sockets or an embedded network stack.
//!
//! Every endpoint carries a ghost log of the datagrams it has exchanged, in
//! order; the loop's contracts are stated over that log.

use vstd::prelude::*;

use crate::addr::NetAddr;

verus! {

/// One datagram exchanged by an endpoint, as the endpoint's ghost log records
/// it: either a datagram received from some origin, or one sent to some
/// destination.
pub ghost enum Event {
    Recv { query: Seq<u8>, origin: NetAddr },
    Send { payload: Seq<u8>, dest: NetAddr },
}

/// A transport-layer failure: the address could not be bound, or a receive or
/// send hit an I/O fault. The loop treats every such failure as fatal, so no
/// further detail is carried.
#[derive(Clone, Copy, Debug, PartialEq, Eq, Structural)]
pub struct TransportError;

/// An abstract datagram endpoint.
///
/// `log` is the endpoint's ghost history of exchanged datagrams. A freshly
/// bound endpoint has exchanged nothing; a successful receive appends exactly
/// the datagram delivered (truncated to the buffer), and a successful send
/// appends exactly the bytes handed over and their destination. A failed
/// operation exchanges nothing.
pub trait Transport: Sized {
    /// The datagrams this endpoint has exchanged so far, oldest first.
    spec fn log(&self) -> Seq<Event>;

    /// Binds a fresh endpoint on the given local address.
    fn bind(local: &NetAddr) -> (r: Result<Self, TransportError>)
        ensures
            (r matches Ok(endpoint) ==> endpoint.log() == Seq::<Event>::empty()),
    ;

    /// Waits for one datagram; on success yields its length and the address of
    /// its sender, having written the datagram into the front of `buf`. At
    /// most `buf.len()` bytes are written; the rest of the buffer is at worst
    /// left stale, never read by this crate's loop.
    fn receive(&mut self, buf: &mut Vec<u8>) -> (r: Result<(usize, NetAddr), TransportError>)
        ensures
            final(buf)@.len() == old(buf)@.len(),
            (match r {
                Ok((len, origin)) => {
                    &&& len <= old(buf)@.len()
                    &&& final(self).log() == old(self).log().push(
                        Event::Recv { query: final(buf)@.take(len as int), origin },
                    )
                },
                Err(_) => {
                    &&& final(self).log() == old(self).log()
                    &&& final(buf)@ == old(buf)@
                },
            }),
    ;

    /// Transmits exactly the bytes of `data` to `dest`.
    fn send(&mut self, data: &[u8], dest: NetAddr) -> (r: Result<(), TransportError>)
        ensures
            (match r {
                Ok(_) => final(self).log() == old(self).log().push(
                    Event::Send { payload: data@, dest },
                ),
                Err(_) => final(self).log() == old(self).log(),
            }),
    ;
}

/// One datagram with its peer address, as a scripted endpoint stores it.
pub struct Datagram {
    pub payload: Vec<u8>,
    pub peer: NetAddr,
}

/// One exchanged datagram, as a scripted endpoint records it: the executable
/// counterpart of [`Event`], which is its view.
pub enum Exchange {
    Recv(Vec<u8>, NetAddr),
    Send(Vec<u8>, NetAddr),
}

impl View for Exchange {
    type V = Event;

    open spec fn view(&self) -> Event {
        match self {
            Exchange::Recv(data, addr) => Event::Recv { query: data@, origin: *addr },
            Exchange::Send(data, addr) => Event::Send { payload: data@, dest: *addr },
        }
    }
}

/// An in-memory endpoint fed by a fixed script of incoming datagrams, which it
/// delivers in order; once the script is exhausted — or at once, when
/// constructed to fail its sends — it reports a transport fault. Every
/// exchange is recorded, so the datagrams a servicing loop actually sent can
/// be inspected afterwards: the recorded exchanges are exactly the endpoint's
/// log.
pub struct ScriptedTransport {
    script: Vec<Datagram>,
    cursor: usize,
    events: Vec<Exchange>,
    fail_sends: bool,
}

impl ScriptedTransport {
    /// Whether this endpoint was constructed to fault on every send.
    pub closed spec fn fails_sends(&self) -> bool {
        self.fail_sends
    }

    /// The scripted datagrams not yet delivered, oldest first, each as its
    /// bytes and its peer address.
    pub closed spec fn pending(&self) -> Seq<(Seq<u8>, NetAddr)> {
        if self.cursor as int <= self.script@.len() {
            self.script@.skip(self.cursor as int).map_values(|d: Datagram| (d.payload@, d.peer))
        } else {
            Seq::<(Seq<u8>, NetAddr)>::empty()
        }
    }

    /// An endpoint that will deliver the given datagrams in order and then
    /// fault; when `fail_sends` is set, every send faults instead.
    pub fn new(script: Vec<Datagram>, fail_sends: bool) -> (t: ScriptedTransport)
        ensures
            t.log() == Seq::<Event>::empty(),
            t.pending() == script@.map_values(|d: Datagram| (d.payload@, d.peer)),
            t.fails_sends() == fail_sends,
    {
        let t = ScriptedTransport { script, cursor: 0, events: Vec::new(), fail_sends };
        proof {
            assert(t.log() =~= Seq::<Event>::empty());
            assert(t.script@.skip(0) =~= t.script@);
        }
        t
    }

    /// How many datagrams this endpoint has exchanged.
    pub fn exchanged(&self) -> (n: usize)
        ensures
            n == self.log().len(),
    {
        self.events.len()
    }

    /// The `i`-th exchanged datagram, oldest first: exactly the `i`-th event
    /// of the endpoint's log.
    pub fn exchange_at(&self, i: usize) -> (e: &Exchange)
        requires
            i < self.log().len(),
        ensures
            e@ == self.log()[i as int],
    {
        &self.events[i]
    }
}

impl Transport for ScriptedTransport {
    closed spec fn log(&self) -> Seq<Event> {
        self.events@.map_values(|e: Exchange| e@)
    }

    fn bind(local: &NetAddr) -> (r: Result<Self, TransportError>)
        ensures
            (r matches Ok(t) ==> t.pending().len() == 0 && !t.fails_sends()),
    {
        let t = ScriptedTransport {
            script: Vec::new(),
            cursor: 0,
            events: Vec::new(),
            fail_sends: false,
        };
        proof {
            assert(t.log() =~= Seq::<Event>::empty());
        }
        Ok(t)
    }

    fn receive(&mut self, buf: &mut Vec<u8>) -> (r: Result<(usize, NetAddr), TransportError>)
        ensures
            r is Err <==> old(self).pending().len() == 0,
            final(self).fails_sends() == old(self).fails_sends(),
            (r matches Ok((len, origin)) ==> {
                let (data, peer) = old(self).pending()[0];
                &&& origin == peer
                &&& len as int == (if data.len() <= old(buf)@.len() {
                    data.len() as int
                } else {
                    old(buf)@.len() as int
                })
                &&& final(buf)@.take(len as int) == data.take(len as int)
                &&& final(self).pending() == old(self).pending().skip(1)
            }),
    {
        if self.cursor >= self.script.len() {
            return Err(TransportError);
        }
        let origin = self.script[self.cursor].peer;
        let payload = &self.script[self.cursor].payload;
        let dgram_len = payload.len();
        let len: usize = if dgram_len < buf.len() {
            dgram_len
        } else {
            buf.len()
        };
        let mut recorded: Vec<u8> = Vec::new();
        let mut j: usize = 0;
        while j < len
            invariant
                j <= len,
                len <= buf@.len(),
                len <= payload@.len(),
                buf@.len() == old(buf)@.len(),
                recorded@ == buf@.take(j as int),
                recorded@ == payload@.take(j as int),
            decreases len - j,
        {
            let b = payload[j];
            buf[j] = b;
            recorded.push(b);
            proof {
                assert(recorded@ =~= buf@.take(j as int + 1));
                assert(recorded@ =~= payload@.take(j as int + 1));
            }
            j += 1;
        }
        self.cursor += 1;
        self.events.push(Exchange::Recv(recorded, origin));
        proof {
            let ev = self.events@.last();
            assert(self.log() =~= old(self).log().push(ev@));
            assert(ev@ == (Event::Recv { query: buf@.take(len as int), origin }));
            assert(old(self).pending()[0] == (
                old(self).script@[old(self).cursor as int].payload@,
                old(self).script@[old(self).cursor as int].peer,
            ));
            assert(self.pending() =~= old(self).pending().skip(1));
        }
        Ok((len, origin))
    }

    fn send(&mut self, data: &[u8], dest: NetAddr) -> (r: Result<(), TransportError>)
        ensures
            r is Err <==> old(self).fails_sends(),
            final(self).fails_sends() == old(self).fails_sends(),
            final(self).pending() == old(self).pending(),
    {
        if self.fail_sends {
            return Err(TransportError);
        }
        let recorded = vstd::slice::slice_to_vec(data);
        self.events.push(Exchange::Send(recorded, dest));
        proof {
            let ev = self.events@.last();
            assert(self.log() =~= old(self).log().push(ev@));
            assert(ev@ == (Event::Send { payload: data@, dest }));
        }
        Ok(())
    }
}

} // verus!
