use crate::phy;
use crate::phy::{Device, DeviceCapabilities, PacketMeta};
use crate::time::{Duration, Instant};
use std::collections::VecDeque;
use vstd::prelude::*;

verus! {

/// The largest transmission unit that the injector reports, whatever its inner device can do.
pub const MTU: usize = 1536;

/// An inbound entry as contracts see it: the bytes, the release instant in microseconds, and
/// the packet's metadata.
pub type RxEntry = (Seq<u8>, int, PacketMeta);

/// An outbound entry as contracts see it: the bytes and the release instant in microseconds.
pub type TxEntry = (Seq<u8>, int);

/// The inbound entries held in `q`.
pub open spec fn rx_model(q: Seq<(Vec<u8>, Instant, PacketMeta)>) -> Seq<RxEntry> {
    q.map_values(|e: (Vec<u8>, Instant, PacketMeta)| (e.0@, e.1.micros as int, e.2))
}

/// The outbound entries held in `q`.
pub open spec fn tx_model(q: Seq<(Vec<u8>, Instant)>) -> Seq<TxEntry> {
    q.map_values(|e: (Vec<u8>, Instant)| (e.0@, e.1.micros as int))
}

/// The MTU reported for an inner device whose MTU is `mtu`.
pub open spec fn clamped_mtu(mtu: usize) -> usize {
    if mtu > MTU {
        MTU
    } else {
        mtu
    }
}

/// Whether the head of the inbound queue `rx` may be handed out at `now`.
pub open spec fn rx_ready(rx: Seq<RxEntry>, now: int) -> bool {
    rx.len() > 0 && rx[0].1 <= now
}

/// The inbound queue after a receive at `now`, and the bytes and metadata handed out, if any.
pub open spec fn receive_step(rx: Seq<RxEntry>, now: int) -> (Seq<RxEntry>, Option<(Seq<u8>, PacketMeta)>) {
    if rx_ready(rx, now) {
        (rx.drop_first(), Some((rx[0].0, rx[0].2)))
    } else {
        (rx, None)
    }
}

/// The inbound queue after a packet arrives at `now` on a device delaying by `delay`.
pub open spec fn enqueue_inbound(rx: Seq<RxEntry>, bytes: Seq<u8>, meta: PacketMeta, now: int, delay: nat) -> Seq<RxEntry> {
    rx.push((bytes, now + delay, meta))
}

/// The outbound queue after a transmit slot is opened at `now`, before it is filled.
pub open spec fn enqueue_outbound(tx: Seq<TxEntry>, now: int) -> Seq<TxEntry> {
    tx.push((Seq::empty(), now))
}

/// The number of entries at the front of `tx` whose release instant is before `now`.
pub open spec fn due_count(tx: Seq<TxEntry>, now: int) -> nat
    decreases tx.len(),
{
    if tx.len() > 0 && tx[0].1 < now {
        1 + due_count(tx.drop_first(), now)
    } else {
        0
    }
}

/// The buffers that a poll at `now` forwards to the inner device, in queue order: those of the
/// entries counted by `due_count` that are not empty.
pub open spec fn due_payloads(tx: Seq<TxEntry>, now: int) -> Seq<Seq<u8>>
    decreases tx.len(),
{
    if tx.len() > 0 && tx[0].1 < now {
        let rest = due_payloads(tx.drop_first(), now);
        if tx[0].0.len() > 0 {
            seq![tx[0].0] + rest
        } else {
            rest
        }
    } else {
        seq![]
    }
}

/// `caps` with its MTU clamped to `MTU`; every other field is kept.
pub fn clamp_capabilities(caps: DeviceCapabilities) -> (r: DeviceCapabilities)
    ensures
        r.max_transmission_unit == clamped_mtu(caps.max_transmission_unit),
        r.max_burst_size == caps.max_burst_size,
{
    let mut caps = caps;
    if caps.max_transmission_unit > MTU {
        caps.max_transmission_unit = MTU;
    }
    caps
}

/// A fresh vector holding the bytes of `s`.
fn copy_bytes(s: &[u8]) -> (r: Vec<u8>)
    ensures
        r@ == s@,
{
    let mut r: Vec<u8> = Vec::new();
    let mut i: usize = 0;
    while i < s.len()
        invariant
            i <= s@.len(),
            r@ == s@.take(i as int),
        decreases s@.len() - i,
    {
        r.push(s[i]);
        i += 1;
        assert(r@ =~= s@.take(i as int));
    }
    assert(s@.take(i as int) =~= s@);
    r
}

/// A device that delays the packets passing through it by a fixed time, to simulate a slow
/// link in front of its inner device.
///
/// Inbound packets are held until `delay` after the poll that took them from the inner device.
/// Outbound packets are held until the first poll after the instant their slot was opened.
/// Both queues are strictly first in, first out.
///
/// The injector offers the operations of `Device` (`capabilities`, `receive`, `transmit`) as
/// inherent methods with the same signatures, not as an impl of the trait, since Verus does not
/// take generic associated types in an impl; so an injector cannot be the inner device of
/// another one.
pub struct DelayInjector<D: Device> {
    inner: D,
    delay: Duration,
    rx_queue: VecDeque<(Vec<u8>, Instant, PacketMeta)>,
    tx_queue: VecDeque<(Vec<u8>, Instant)>,
}

impl<D: Device> DelayInjector<D> {
    /// The wrapped device.
    pub closed spec fn inner_device(&self) -> D {
        self.inner
    }

    /// The delay added to inbound packets, in microseconds.
    pub closed spec fn delay(&self) -> nat {
        self.delay.micros as nat
    }

    /// The inbound queue, front first.
    pub closed spec fn inbound(&self) -> Seq<RxEntry> {
        rx_model(self.rx_queue@)
    }

    /// The outbound queue, front first.
    pub closed spec fn outbound(&self) -> Seq<TxEntry> {
        tx_model(self.tx_queue@)
    }

    /// Wraps `inner`, delaying inbound packets by `delay`; both queues start empty.
    pub fn new(inner: D, delay: Duration) -> (r: DelayInjector<D>)
        ensures
            r.inner_device() == inner,
            r.delay() == delay.micros,
            r.inbound().len() == 0,
            r.outbound().len() == 0,
    {
        DelayInjector { inner, delay, rx_queue: VecDeque::new(), tx_queue: VecDeque::new() }
    }

    /// Returns the inner device; packets still queued are dropped.
    pub fn into_inner(self) -> (r: D)
        ensures
            r == self.inner_device(),
    {
        self.inner
    }

    /// The number of packets waiting in the inbound queue.
    pub fn inbound_len(&self) -> (r: usize)
        ensures
            r == self.inbound().len(),
    {
        self.rx_queue.len()
    }

    /// The number of entries waiting in the outbound queue.
    pub fn outbound_len(&self) -> (r: usize)
        ensures
            r == self.outbound().len(),
    {
        self.tx_queue.len()
    }

    /// Pops the due entries off the outbound queue and returns their non-empty buffers, front
    /// first: exactly what `poll` forwards to the inner device, one transmit slot each.
    pub fn take_due(&mut self, timestamp: Instant) -> (r: Vec<Vec<u8>>)
        ensures
            final(self).outbound() == old(self).outbound().skip(
                due_count(old(self).outbound(), timestamp.micros as int) as int,
            ),
            r@.map_values(|b: Vec<u8>| b@) == due_payloads(old(self).outbound(), timestamp.micros as int),
            final(self).inbound() == old(self).inbound(),
            final(self).inner_device() == old(self).inner_device(),
            final(self).delay() == old(self).delay(),
    {
        let ghost now = timestamp.micros as int;
        let ghost orig = self.outbound();
        let ghost mut n: int = 0;
        let mut out: Vec<Vec<u8>> = Vec::new();
        assert(orig.skip(0) =~= orig);
        assert(out@.map_values(|b: Vec<u8>| b@) + due_payloads(orig, now) =~= due_payloads(orig, now));
        loop
            invariant
                0 <= n <= orig.len(),
                self.outbound() == orig.skip(n),
                due_count(orig, now) == n + due_count(self.outbound(), now),
                due_payloads(orig, now) == out@.map_values(|b: Vec<u8>| b@) + due_payloads(self.outbound(), now),
                self.rx_queue == old(self).rx_queue,
                self.inner == old(self).inner,
                self.delay == old(self).delay,
                now == timestamp.micros,
            ensures
                self.outbound() == orig.skip(due_count(orig, now) as int),
                due_payloads(orig, now) == out@.map_values(|b: Vec<u8>| b@),
                self.rx_queue == old(self).rx_queue,
                self.inner == old(self).inner,
                self.delay == old(self).delay,
            decreases self.tx_queue@.len(),
        {
            if self.tx_queue.len() == 0 || self.tx_queue[0].1.micros >= timestamp.micros {
                assert(due_count(self.outbound(), now) == 0);
                assert(out@.map_values(|b: Vec<u8>| b@) + due_payloads(self.outbound(), now)
                    =~= out@.map_values(|b: Vec<u8>| b@));
                break;
            }
            let ghost cur = self.outbound();
            let (buf, _) = self.tx_queue.pop_front().unwrap();
            assert(self.outbound() =~= cur.drop_first());
            assert(orig.skip(n + 1) =~= cur.drop_first());
            if buf.len() > 0 {
                out.push(buf);
            }
            proof {
                n = n + 1;
            }
            assert(due_payloads(orig, now) =~= out@.map_values(|b: Vec<u8>| b@) + due_payloads(self.outbound(), now));
        }
        out
    }

    /// Queues a packet that the inner device delivered at `timestamp`, released `delay` later;
    /// with no packet, nothing changes.
    pub fn enqueue_arrival(&mut self, arrived: Option<(Vec<u8>, PacketMeta)>, timestamp: Instant)
        requires
            timestamp.micros + old(self).delay() <= i64::MAX,
        ensures
            final(self).inbound() == match arrived {
                Some((b, m)) => enqueue_inbound(
                    old(self).inbound(),
                    b@,
                    m,
                    timestamp.micros as int,
                    old(self).delay(),
                ),
                None => old(self).inbound(),
            },
            final(self).outbound() == old(self).outbound(),
            final(self).inner_device() == old(self).inner_device(),
            final(self).delay() == old(self).delay(),
    {
        match arrived {
            Some((buf, rx_meta)) => {
                let release = timestamp.add_duration(self.delay);
                let ghost before = self.inbound();
                let ghost bytes = buf@;
                self.rx_queue.push_back((buf, release, rx_meta));
                assert(self.inbound() =~= enqueue_inbound(
                    before,
                    bytes,
                    rx_meta,
                    timestamp.micros as int,
                    self.delay(),
                ));
            },
            None => {},
        }
    }

    /// One step of the driving loop at `timestamp`.
    ///
    /// Takes at most one packet from the inner device into the inbound queue, released
    /// `delay` after `timestamp`; then forwards to the inner device, in order, the outbound
    /// entries whose release instant is before `timestamp`, skipping slots left empty.
    /// The packet it queues is handled by `enqueue_arrival`, and the buffers it forwards are
    /// those that `take_due` returns.
    pub fn poll(&mut self, timestamp: Instant)
        requires
            timestamp.micros + old(self).delay() <= i64::MAX,
        ensures
            final(self).delay() == old(self).delay(),
            final(self).outbound() == old(self).outbound().skip(
                due_count(old(self).outbound(), timestamp.micros as int) as int,
            ),
            final(self).inbound() == old(self).inbound() || exists|b: Seq<u8>, m: PacketMeta|
                final(self).inbound() == #[trigger] enqueue_inbound(
                    old(self).inbound(),
                    b,
                    m,
                    timestamp.micros as int,
                    old(self).delay(),
                ),
    {
        let arrived: Option<(Vec<u8>, PacketMeta)> = match self.inner.receive(timestamp) {
            Some((rx_token, _tx_token)) => {
                let rx_meta = phy::RxToken::meta(&rx_token);
                Some((phy::RxToken::consume(rx_token), rx_meta))
            },
            None => None,
        };
        self.enqueue_arrival(arrived, timestamp);
        let due = self.take_due(timestamp);
        let ghost rx_after = self.rx_queue;
        let ghost tx_after = self.tx_queue;
        let ghost delay_after = self.delay;
        let mut i: usize = 0;
        while i < due.len()
            invariant
                i <= due@.len(),
                self.rx_queue == rx_after,
                self.tx_queue == tx_after,
                self.delay == delay_after,
            decreases due@.len() - i,
        {
            match self.inner.transmit(timestamp) {
                Some(token) => phy::TxToken::consume(token, due[i].as_slice()),
                None => {},
            }
            i += 1;
        }
    }
}

impl<D: Device> DelayInjector<D> {
    /// The inner device's capabilities, with the MTU clamped to `MTU`.
    pub fn capabilities(&self) -> (r: DeviceCapabilities)
        ensures
            r.max_transmission_unit <= MTU,
    {
        clamp_capabilities(self.inner.capabilities())
    }

    /// Hands out the head of the inbound queue if its release instant is not after
    /// `timestamp`, paired with a new transmit slot opened at `timestamp`.
    pub fn receive(&mut self, timestamp: Instant) -> (r: Option<(RxToken, TxToken<'_>)>)
        ensures
            r is Some <==> rx_ready(old(self).inbound(), timestamp.micros as int),
            r matches Some((rx, tx)) ==> {
                &&& Some(rx@) == receive_step(old(self).inbound(), timestamp.micros as int).1
                &&& tx.pending() == enqueue_outbound(old(self).outbound(), timestamp.micros as int)
                &&& final(self).outbound() == tx_model(final(tx.slot())@)
            },
            r is None ==> final(self).outbound() == old(self).outbound(),
            final(self).inbound() == receive_step(old(self).inbound(), timestamp.micros as int).0,
            final(self).inner_device() == old(self).inner_device(),
            final(self).delay() == old(self).delay(),
    {
        if self.rx_queue.len() == 0 || self.rx_queue[0].1.micros > timestamp.micros {
            return None;
        }
        let ghost before = self.inbound();
        let (buf, _, rx_meta) = self.rx_queue.pop_front().unwrap();
        assert(self.inbound() =~= before.drop_first());
        let rx = RxToken { buf, meta: rx_meta };
        let tx = self.open_slot(timestamp);
        Some((rx, tx))
    }

    /// Opens a transmit slot: appends an empty outbound entry released at `timestamp`, and
    /// returns a token that fills it.
    pub fn transmit(&mut self, timestamp: Instant) -> (r: Option<TxToken<'_>>)
        ensures
            r is Some,
            r matches Some(tx) ==> {
                &&& tx.pending() == enqueue_outbound(old(self).outbound(), timestamp.micros as int)
                &&& final(self).outbound() == tx_model(final(tx.slot())@)
            },
            final(self).inbound() == old(self).inbound(),
            final(self).inner_device() == old(self).inner_device(),
            final(self).delay() == old(self).delay(),
    {
        Some(self.open_slot(timestamp))
    }

    fn open_slot(&mut self, timestamp: Instant) -> (r: TxToken<'_>)
        ensures
            r.pending() == enqueue_outbound(old(self).outbound(), timestamp.micros as int),
            final(self).outbound() == tx_model(final(r.slot())@),
            final(self).inbound() == old(self).inbound(),
            final(self).inner_device() == old(self).inner_device(),
            final(self).delay() == old(self).delay(),
    {
        let ghost before = self.outbound();
        self.tx_queue.push_back((Vec::new(), timestamp));
        assert(self.outbound() =~= enqueue_outbound(before, timestamp.micros as int));
        TxToken { queue: &mut self.tx_queue }
    }
}

/// A received packet handed out by `DelayInjector`.
pub struct RxToken {
    buf: Vec<u8>,
    meta: PacketMeta,
}

impl View for RxToken {
    type V = (Seq<u8>, PacketMeta);

    closed spec fn view(&self) -> (Seq<u8>, PacketMeta) {
        (self.buf@, self.meta)
    }
}

impl phy::RxToken for RxToken {
    /// The packet's bytes, as the inner device delivered them.
    fn consume(self) -> (r: Vec<u8>)
        ensures
            r@ == self@.0,
    {
        self.buf
    }

    /// The metadata that the inner device delivered with the packet.
    fn meta(&self) -> (r: PacketMeta)
        ensures
            r == self@.1,
    {
        self.meta
    }
}

/// A transmit slot handed out by `DelayInjector`: the last entry of its outbound queue.
pub struct TxToken<'a> {
    queue: &'a mut VecDeque<(Vec<u8>, Instant)>,
}

impl<'a> TxToken<'a> {
    /// The injector's outbound queue as it stands while the token is held; the token fills
    /// its last entry.
    pub closed spec fn pending(&self) -> Seq<TxEntry> {
        tx_model(self.queue@)
    }

    /// The reference to the injector's outbound queue that the token holds.
    pub closed spec fn slot(&self) -> &'a mut VecDeque<(Vec<u8>, Instant)> {
        self.queue
    }

    /// Gives the slot up unfilled: the outbound queue keeps the empty entry, which a later
    /// `poll` drops without forwarding it.
    pub fn discard(self)
        ensures
            tx_model(final(self.slot())@) == self.pending(),
    {
    }
}

impl<'a> phy::TxToken for TxToken<'a> {
    /// Puts `packet` in the last outbound entry, keeping its release instant.
    fn consume(self, packet: &[u8])
        ensures
            self.pending().len() > 0 ==> tx_model(final(self.slot())@) == self.pending().update(
                self.pending().len() - 1,
                (packet@, self.pending().last().1),
            ),
            self.pending().len() == 0 ==> tx_model(final(self.slot())@) == self.pending(),
    {
        let queue = self.queue;
        let ghost before = tx_model(queue@);
        match queue.pop_back() {
            Some((_, release)) => {
                queue.push_back((copy_bytes(packet), release));
                assert(tx_model(queue@) =~= before.update(before.len() - 1, (packet@, before.last().1)));
            },
            None => {},
        }
    }

    /// Accepted and ignored: no metadata travels on the outbound path.
    fn set_meta(&mut self, _meta: PacketMeta)
        ensures
            final(self).pending() == old(self).pending(),
            final(self).slot() == old(self).slot(),
    {
    }
}

/// `due_count` never exceeds the length of the queue.
pub proof fn lemma_due_count_bound(tx: Seq<TxEntry>, now: int)
    ensures
        due_count(tx, now) <= tx.len(),
    decreases tx.len(),
{
    if tx.len() > 0 && tx[0].1 < now {
        lemma_due_count_bound(tx.drop_first(), now);
    }
}

/// A poll at `now` forwards only entries whose release instant is before `now`.
pub proof fn lemma_outbound_not_early(tx: Seq<TxEntry>, now: int)
    ensures
        forall|i: int| 0 <= i < due_count(tx, now) ==> #[trigger] tx[i].1 < now,
    decreases tx.len(),
{
    lemma_due_count_bound(tx, now);
    if tx.len() > 0 && tx[0].1 < now {
        let rest = tx.drop_first();
        lemma_outbound_not_early(rest, now);
        assert forall|i: int| 0 <= i < due_count(tx, now) implies #[trigger] tx[i].1 < now by {
            if i > 0 {
                assert(tx[i] == rest[i - 1]);
            }
        }
    }
}

/// Opening a slot behind the others changes nothing of what a poll does with those before it:
/// the new entry is forwarded by a poll at `now` exactly when every entry ahead of it is due and
/// it is due too, and then after all of them.
pub proof fn lemma_outbound_fifo(tx: Seq<TxEntry>, e: TxEntry, now: int)
    ensures
        due_count(tx.push(e), now) as int == if due_count(tx, now) == tx.len() && e.1 < now {
            (tx.len() + 1) as int
        } else {
            due_count(tx, now) as int
        },
        due_payloads(tx.push(e), now) == if due_count(tx, now) == tx.len() && e.1 < now
            && e.0.len() > 0 {
            due_payloads(tx, now).push(e.0)
        } else {
            due_payloads(tx, now)
        },
    decreases tx.len(),
{
    let q = tx.push(e);
    if tx.len() == 0 {
        assert(q.drop_first() =~= tx);
        assert(due_count(tx, now) == 0);
        assert(due_payloads(tx, now) =~= Seq::<Seq<u8>>::empty());
        assert(due_payloads(tx, now).push(e.0) =~= seq![e.0] + due_payloads(tx, now));
    } else {
        assert(q.drop_first() =~= tx.drop_first().push(e));
        lemma_outbound_fifo(tx.drop_first(), e, now);
        if tx[0].1 < now {
            if tx[0].0.len() > 0 {
                assert(seq![tx[0].0] + due_payloads(tx.drop_first(), now).push(e.0)
                    =~= (seq![tx[0].0] + due_payloads(tx.drop_first(), now)).push(e.0));
            }
        }
    }
}

/// Each filled slot reaches the inner device exactly once, in the order the slots were opened,
/// however the polls are spread in time: a poll at `n1` followed by a poll at a later `n2`
/// forwards the same buffers, in the same order, as a single poll at `n2`, and leaves the
/// same entries queued.
pub proof fn lemma_outbound_drain_split(tx: Seq<TxEntry>, n1: int, n2: int)
    requires
        n1 <= n2,
    ensures
        due_count(tx, n1) + due_count(tx.skip(due_count(tx, n1) as int), n2) == due_count(tx, n2),
        due_payloads(tx, n1) + due_payloads(tx.skip(due_count(tx, n1) as int), n2) == due_payloads(tx, n2),
    decreases tx.len(),
{
    if tx.len() > 0 && tx[0].1 < n1 {
        let rest = tx.drop_first();
        lemma_outbound_drain_split(rest, n1, n2);
        lemma_due_count_bound(rest, n1);
        assert(tx.skip(due_count(tx, n1) as int) =~= rest.skip(due_count(rest, n1) as int));
        let later = due_payloads(rest.skip(due_count(rest, n1) as int), n2);
        if tx[0].0.len() > 0 {
            assert(seq![tx[0].0] + due_payloads(rest, n1) + later =~= seq![tx[0].0] + (due_payloads(rest, n1) + later));
        }
    } else {
        assert(tx.skip(0) =~= tx);
        assert(due_payloads(tx, n1) + due_payloads(tx, n2) =~= due_payloads(tx, n2));
    }
}

/// A slot filled with `bytes` and opened at `t`, once every slot ahead of it has been dealt
/// with, is not forwarded by a poll at any `now <= t`, and is forwarded by a poll at any
/// `now > t`, after which it is no longer queued.
pub proof fn lemma_outbound_release(bytes: Seq<u8>, t: int, now: int)
    ensures
        now <= t ==> due_count(seq![(bytes, t)], now) == 0 && due_payloads(seq![(bytes, t)], now).len() == 0,
        now > t ==> due_count(seq![(bytes, t)], now) == 1 && seq![(bytes, t)].skip(1).len() == 0,
        now > t && bytes.len() > 0 ==> due_payloads(seq![(bytes, t)], now) == seq![bytes],
{
    lemma_outbound_fifo(Seq::empty(), (bytes, t), now);
    assert(Seq::<TxEntry>::empty().push((bytes, t)) =~= seq![(bytes, t)]);
    assert(due_payloads(Seq::<TxEntry>::empty(), now).push(bytes) =~= seq![bytes]);
}

/// A packet that arrives at `t` is not handed out by a receive before `t + delay`: it is still
/// queued afterwards. Once every packet that arrived before it has been handed out, a receive
/// at or after `t + delay` hands it out, with its bytes and metadata.
pub proof fn lemma_inbound_release(
    rx: Seq<RxEntry>,
    bytes: Seq<u8>,
    meta: PacketMeta,
    t: int,
    delay: nat,
    now: int,
)
    ensures
        now < t + delay ==> receive_step(enqueue_inbound(rx, bytes, meta, t, delay), now).0.last()
            == (bytes, t + delay, meta),
        rx.len() == 0 && now >= t + delay ==> receive_step(
            enqueue_inbound(rx, bytes, meta, t, delay),
            now,
        ) == (Seq::<RxEntry>::empty(), Some((bytes, meta))),
{
    let q = enqueue_inbound(rx, bytes, meta, t, delay);
    if rx.len() == 0 {
        assert(q.drop_first() =~= Seq::<RxEntry>::empty());
    } else {
        assert(q.drop_first().last() == q.last());
    }
}

/// Packets leave the inbound queue in the order they arrived: a packet arriving behind others
/// does not change what the next receive hands out.
pub proof fn lemma_inbound_fifo(rx: Seq<RxEntry>, e: RxEntry, now: int)
    requires
        rx.len() > 0,
    ensures
        receive_step(rx.push(e), now).1 == receive_step(rx, now).1,
        receive_step(rx.push(e), now).0 == receive_step(rx, now).0.push(e),
{
    assert(rx.push(e).drop_first() =~= rx.drop_first().push(e));
}

/// With no inbound packet ready and no outbound entry due, receive and poll leave both queues
/// as they are, however often they are repeated.
pub proof fn lemma_idle(rx: Seq<RxEntry>, tx: Seq<TxEntry>, now: int)
    requires
        !rx_ready(rx, now),
        tx.len() == 0 || tx[0].1 >= now,
    ensures
        receive_step(rx, now) == (rx, Option::<(Seq<u8>, PacketMeta)>::None),
        due_count(tx, now) == 0,
        tx.skip(due_count(tx, now) as int) == tx,
        due_payloads(tx, now).len() == 0,
{
    assert(tx.skip(0) =~= tx);
}

/// Packets leave in the order they arrived: after two arrivals into an empty inbound queue,
/// a receive that hands out the first leaves the second at the head, and a receive at or
/// after the second's release instant hands it out with its bytes and metadata.
pub proof fn lemma_inbound_two_arrivals(
    p1: Seq<u8>,
    m1: PacketMeta,
    t1: int,
    p2: Seq<u8>,
    m2: PacketMeta,
    t2: int,
    delay: nat,
    u: int,
    now: int,
)
    requires
        u >= t1 + delay,
        now >= t2 + delay,
    ensures
        ({
            let q = enqueue_inbound(enqueue_inbound(Seq::empty(), p1, m1, t1, delay), p2, m2, t2, delay);
            let first = receive_step(q, u);
            &&& first.1 == Some((p1, m1))
            &&& receive_step(first.0, now) == (Seq::<RxEntry>::empty(), Some((p2, m2)))
        }),
{
    let q = enqueue_inbound(enqueue_inbound(Seq::empty(), p1, m1, t1, delay), p2, m2, t2, delay);
    assert(q.drop_first() =~= seq![(p2, t2 + delay, m2)]);
    assert(q.drop_first().drop_first() =~= Seq::<RxEntry>::empty());
}

} // verus!
