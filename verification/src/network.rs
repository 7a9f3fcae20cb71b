//! Replication deltas and the message transport they are flushed to, with an
//! in-memory loopback transport for tests and single-process simulation.

use vstd::prelude::*;

use std::collections::VecDeque;

verus! {

// ---------------------------------------------------------------------------
// Transport.

/// Why a transport could not send or receive.
#[derive(Debug)]
pub enum TransportError {
    NotConnected,
    Message(String),
}

/// One framed message: a channel byte and its payload.
#[derive(Debug, Clone)]
pub struct Packet {
    pub channel: u8,
    pub payload: Vec<u8>,
}

/// A message transport.
pub trait Transport: Sized {
    /// The packets this transport has accepted for sending and not yet handed
    /// on, oldest first.
    spec fn outgoing(&self) -> Seq<Packet>;

    /// What sending `packet` from this state gives: `Ok` when the transport
    /// accepts it, else the error it refuses it with.
    spec fn send_result(&self, packet: Packet) -> Result<(), TransportError>;

    /// Queue `packet` for sending; on success it is the newest outgoing packet.
    /// A refused packet leaves the transport as it was.
    fn send(&mut self, packet: Packet) -> (r: Result<(), TransportError>)
        ensures
            r == old(self).send_result(packet),
            r is Ok ==> final(self).outgoing() == old(self).outgoing().push(packet),
            r is Err ==> *final(self) == *old(self),
    ;

    /// Take the next received packet, if any.
    fn recv(&mut self) -> Result<Option<Packet>, TransportError>;
}

/// Pure-Rust loopback queue for tests and single-process multiplayer simulation.
#[derive(Debug)]
pub struct InMemoryTransport {
    inbox: VecDeque<Packet>,
    outbox: VecDeque<Packet>,
}

impl InMemoryTransport {
    /// Packets received and not yet taken, oldest first.
    pub closed spec fn inbox(&self) -> Seq<Packet> {
        self.inbox@
    }

    /// Packets sent and not yet delivered, oldest first.
    pub closed spec fn outbox(&self) -> Seq<Packet> {
        self.outbox@
    }

    /// A transport with nothing queued.
    pub fn new() -> (t: Self)
        ensures
            t.inbox() == Seq::<Packet>::empty(),
            t.outbox() == Seq::<Packet>::empty(),
    {
        InMemoryTransport { inbox: VecDeque::new(), outbox: VecDeque::new() }
    }

    /// Moves every queued outgoing packet, in order, to the end of `peer`'s inbox.
    pub fn deliver_to(&mut self, peer: &mut InMemoryTransport)
        ensures
            final(self).outbox() == Seq::<Packet>::empty(),
            final(self).inbox() == old(self).inbox(),
            final(peer).inbox() == old(peer).inbox() + old(self).outbox(),
            final(peer).outbox() == old(peer).outbox(),
    {
        let ghost moved = self.outbox@;
        let ghost start = peer.inbox@;
        while self.outbox.len() > 0
            invariant
                moved == old(self).outbox(),
                start == old(peer).inbox(),
                self.inbox@ == old(self).inbox(),
                peer.outbox@ == old(peer).outbox(),
                self.outbox@.len() <= moved.len(),
                moved =~= moved.take(moved.len() - self.outbox@.len()) + self.outbox@,
                peer.inbox@ =~= start + moved.take(moved.len() - self.outbox@.len()),
            decreases self.outbox@.len(),
        {
            let ghost before = self.outbox@;
            let p = self.outbox.pop_front().unwrap();
            let ghost k = moved.len() - before.len();
            assert(moved.take(k + 1) =~= moved.take(k).push(p)) by {
                assert(moved[k] == before[0]);
            }
            peer.inbox.push_back(p);
        }
        assert(moved.take(moved.len() as int) =~= moved);
    }
}

impl Default for InMemoryTransport {
    fn default() -> (t: Self)
        ensures
            t.inbox() == Seq::<Packet>::empty(),
            t.outbox() == Seq::<Packet>::empty(),
    {
        InMemoryTransport::new()
    }
}

impl Transport for InMemoryTransport {
    open spec fn outgoing(&self) -> Seq<Packet> {
        self.outbox()
    }

    /// Every packet is accepted.
    open spec fn send_result(&self, packet: Packet) -> Result<(), TransportError> {
        Ok(())
    }

    /// Queues `packet` at the end of the outbox; never fails.
    fn send(&mut self, packet: Packet) -> (r: Result<(), TransportError>)
        ensures
            r is Ok,
            final(self).inbox() == old(self).inbox(),
    {
        self.outbox.push_back(packet);
        Ok(())
    }

    /// Takes the oldest inbox packet; never fails.
    fn recv(&mut self) -> (r: Result<Option<Packet>, TransportError>)
        ensures
            final(self).outbox() == old(self).outbox(),
            old(self).inbox().len() == 0 ==> r == Ok::<Option<Packet>, TransportError>(None)
                && final(self).inbox() == old(self).inbox(),
            old(self).inbox().len() > 0 ==> r == Ok::<Option<Packet>, TransportError>(
                Some(old(self).inbox()[0]),
            ) && final(self).inbox() == old(self).inbox().drop_first(),
    {
        Ok(self.inbox.pop_front())
    }
}

/// The outbox after sending each packet of `sent` in turn.
pub open spec fn after_sends(outbox: Seq<Packet>, sent: Seq<Packet>) -> Seq<Packet>
    decreases sent.len(),
{
    if sent.len() == 0 {
        outbox
    } else {
        after_sends(outbox, sent.drop_last()).push(sent.last())
    }
}

/// What `n` receives in a row take from `inbox`, in order.
pub open spec fn received(inbox: Seq<Packet>, n: nat) -> Seq<Packet>
    decreases n,
{
    if n == 0 || inbox.len() == 0 {
        Seq::empty()
    } else {
        seq![inbox[0]] + received(inbox.drop_first(), (n - 1) as nat)
    }
}

proof fn lemma_received_all(inbox: Seq<Packet>)
    ensures
        received(inbox, inbox.len()) == inbox,
    decreases inbox.len(),
{
    if inbox.len() > 0 {
        lemma_received_all(inbox.drop_first());
        assert(seq![inbox[0]] + inbox.drop_first() =~= inbox);
    }
}

/// The loopback transport is first-in first-out: when packets `sent` are
/// sent one by one on a transport whose outbox holds `queued`, and it is
/// delivered to a peer whose inbox holds `held`, the peer's receives give
/// `held`, then `queued`, then `sent`, each in order.
pub proof fn law_loopback_is_fifo(queued: Seq<Packet>, held: Seq<Packet>, sent: Seq<Packet>)
    ensures
        after_sends(queued, sent) == queued + sent,
        received(held + after_sends(queued, sent), (held.len() + queued.len() + sent.len()) as nat)
            == held + queued + sent,
    decreases sent.len(),
{
    if sent.len() > 0 {
        law_loopback_is_fifo(queued, held, sent.drop_last());
        assert(queued + sent.drop_last() + seq![sent.last()] =~= queued + sent);
        assert((queued + sent.drop_last()).push(sent.last()) =~= queued + sent);
    } else {
        assert(queued + sent =~= queued);
    }
    let all = held + (queued + sent);
    lemma_received_all(all);
    assert(all =~= held + queued + sent);
}

// ---------------------------------------------------------------------------
// Replication.

/// Marker for replicated-entity handles.
#[derive(Debug, Clone, Copy, Default)]
pub struct NetTag;

/// Delivery class of a replicated change.
#[derive(Debug, Clone, Copy, PartialEq, Eq, Structural, Hash)]
pub enum ReplicationChannel {
    Reliable,
    Unreliable,
    Snapshot,
}

/// Component-change payload for a single replicated entity.
#[derive(Debug, Clone)]
pub struct ReplicationDelta {
    pub net_id: u64,
    pub channel: ReplicationChannel,
    pub bytes: Vec<u8>,
}

/// Accumulates deltas for a tick before they are flushed to a [`Transport`].
#[derive(Debug)]
pub struct ReplicationBuffer {
    pub deltas: Vec<ReplicationDelta>,
}

/// Channel byte of a delivery class: its position in the enum.
pub open spec fn channel_byte(c: ReplicationChannel) -> u8 {
    match c {
        ReplicationChannel::Reliable => 0,
        ReplicationChannel::Unreliable => 1,
        ReplicationChannel::Snapshot => 2,
    }
}

/// The packets a flush sends: one per delta, in order, framed with the delta's
/// channel byte around its encoded bytes.
pub open spec fn flush_packets(deltas: Seq<ReplicationDelta>, payloads: Seq<Vec<u8>>) -> Seq<Packet> {
    Seq::new(
        deltas.len(),
        |i: int| Packet { channel: channel_byte(deltas[i].channel), payload: payloads[i] },
    )
}

impl Default for ReplicationBuffer {
    fn default() -> (b: Self)
        ensures
            b.deltas@ == Seq::<ReplicationDelta>::empty(),
    {
        ReplicationBuffer { deltas: Vec::new() }
    }
}

impl ReplicationBuffer {
    /// Queue a delta behind those already buffered.
    pub fn push(&mut self, delta: ReplicationDelta)
        ensures
            final(self).deltas@ == old(self).deltas@.push(delta),
    {
        self.deltas.push(delta);
    }

    /// Take every buffered delta, oldest first, leaving the buffer empty.
    pub fn drain(&mut self) -> (out: Vec<ReplicationDelta>)
        ensures
            out@ == old(self).deltas@,
            final(self).deltas@ == Seq::<ReplicationDelta>::empty(),
    {
        let mut out: Vec<ReplicationDelta> = Vec::new();
        std::mem::swap(&mut out, &mut self.deltas);
        out
    }

    /// Send each buffered delta over `transport`, framed with its channel byte
    /// (`Reliable` 0, `Unreliable` 1, `Snapshot` 2) around its encoded bytes
    /// (`payloads[i]` encodes the `i`-th delta). The buffer is emptied first.
    /// Returns how many packets were sent when the transport accepts them all;
    /// else the error of the first send it refuses, after which the remaining
    /// packets are not sent (on a transport that accepts every packet, such as
    /// [`InMemoryTransport`], the flush always succeeds).
    pub fn flush_to<T: Transport>(&mut self, transport: &mut T, payloads: Vec<Vec<u8>>) -> (r: Result<
        usize,
        TransportError,
    >)
        requires
            payloads@.len() == old(self).deltas@.len(),
        ensures
            final(self).deltas@ == Seq::<ReplicationDelta>::empty(),
            r matches Ok(n) ==> n == old(self).deltas@.len() && final(transport).outgoing()
                == old(transport).outgoing() + flush_packets(old(self).deltas@, payloads@),
            r matches Err(e) ==> exists|k: int|
                0 <= k < old(self).deltas@.len() && final(transport).outgoing() == old(
                    transport,
                ).outgoing() + #[trigger] flush_packets(old(self).deltas@, payloads@).take(k)
                    && final(transport).send_result(flush_packets(old(self).deltas@, payloads@)[k])
                    == Err::<(), TransportError>(e),
    {
        let deltas = self.drain();
        let n = deltas.len();
        let ghost pk = flush_packets(deltas@, payloads@);
        let ghost given = payloads@;
        let ghost start = transport.outgoing();
        let mut encoded = payloads;
        let mut i: usize = 0;
        while i < n
            invariant
                n == deltas@.len(),
                encoded@.len() == n,
                pk == flush_packets(deltas@, given),
                given.len() == n,
                given == payloads@,
                deltas@ == old(self).deltas@,
                self.deltas@ == Seq::<ReplicationDelta>::empty(),
                i <= n,
                forall|k: int| i <= k < n ==> #[trigger] encoded@[k] == given[k],
                start == old(transport).outgoing(),
                transport.outgoing() == start + pk.take(i as int),
            decreases n - i,
        {
            let channel: u8 = match deltas[i].channel {
                ReplicationChannel::Reliable => 0,
                ReplicationChannel::Unreliable => 1,
                ReplicationChannel::Snapshot => 2,
            };
            let mut payload: Vec<u8> = Vec::new();
            std::mem::swap(&mut payload, &mut encoded[i]);
            let packet = Packet { channel, payload };
            assert(packet == pk[i as int]);
            match transport.send(packet) {
                Ok(()) => {},
                Err(e) => {
                    proof {
                        assert(transport.send_result(pk[i as int]) == Err::<(), TransportError>(e));
                        assert(transport.outgoing() == old(transport).outgoing() + pk.take(i as int));
                    }
                    return Err(e);
                },
            }
            assert(pk.take(i + 1) =~= pk.take(i as int).push(pk[i as int]));
            i += 1;
        }
        assert(pk.take(n as int) =~= pk);
        Ok(n)
    }
}

/// Draining a buffer gives back exactly the deltas pushed since the last
/// drain, in push order.
pub proof fn law_drain_returns_pushed(before: Seq<ReplicationDelta>, pushed: Seq<ReplicationDelta>)
    ensures
        pushed.fold_left(before, |acc: Seq<ReplicationDelta>, d: ReplicationDelta| acc.push(d))
            == before + pushed,
    decreases pushed.len(),
{
    if pushed.len() == 0 {
        assert(before + pushed =~= before);
    } else {
        law_drain_returns_pushed(before, pushed.drop_last());
        assert(before + pushed =~= (before + pushed.drop_last()).push(pushed.last()));
    }
}

} // verus!
