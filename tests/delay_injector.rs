use netdelay::delay_injector::{clamp_capabilities, MTU};
use netdelay::phy::{Device, DeviceCapabilities, PacketMeta, RxToken, TxToken};
use netdelay::time::{Duration, Instant};
use netdelay::DelayInjector;
use std::cell::RefCell;
use std::collections::VecDeque;
use std::rc::Rc;

struct MockDevice {
    incoming: VecDeque<(Vec<u8>, PacketMeta)>,
    sent: Rc<RefCell<Vec<Vec<u8>>>>,
    caps: DeviceCapabilities,
    receive_calls: usize,
}

struct MockRx {
    buf: Vec<u8>,
    meta: PacketMeta,
}

struct MockTx {
    sent: Rc<RefCell<Vec<Vec<u8>>>>,
}

impl RxToken for MockRx {
    fn consume(self) -> Vec<u8> {
        self.buf
    }

    fn meta(&self) -> PacketMeta {
        self.meta
    }
}

impl TxToken for MockTx {
    fn consume(self, packet: &[u8]) {
        self.sent.borrow_mut().push(packet.to_vec());
    }

    fn set_meta(&mut self, _meta: PacketMeta) {}
}

impl Device for MockDevice {
    type RxToken<'a> = MockRx where Self: 'a;
    type TxToken<'a> = MockTx where Self: 'a;

    fn capabilities(&self) -> DeviceCapabilities {
        self.caps
    }

    fn receive(&mut self, _timestamp: Instant) -> Option<(MockRx, MockTx)> {
        self.receive_calls += 1;
        let (buf, meta) = self.incoming.pop_front()?;
        Some((MockRx { buf, meta }, MockTx { sent: self.sent.clone() }))
    }

    fn transmit(&mut self, _timestamp: Instant) -> Option<MockTx> {
        Some(MockTx { sent: self.sent.clone() })
    }
}

fn mock(packets: Vec<(Vec<u8>, u32)>) -> (MockDevice, Rc<RefCell<Vec<Vec<u8>>>>) {
    let sent = Rc::new(RefCell::new(Vec::new()));
    let dev = MockDevice {
        incoming: packets.into_iter().map(|(b, id)| (b, PacketMeta { id })).collect(),
        sent: sent.clone(),
        caps: DeviceCapabilities { max_transmission_unit: 1500, max_burst_size: None },
        receive_calls: 0,
    };
    (dev, sent)
}

fn at(micros: i64) -> Instant {
    Instant::from_micros(micros)
}

#[test]
fn inbound_packet_released_after_delay() {
    let (dev, _) = mock(vec![(vec![7u8; 10], 42)]);
    let mut inj = DelayInjector::new(dev, Duration::from_micros(100));
    inj.poll(at(0));
    assert_eq!(inj.inbound_len(), 1);
    assert!(inj.receive(at(50)).is_none());
    assert_eq!(inj.inbound_len(), 1);
    let (rx, _tx) = inj.receive(at(150)).unwrap();
    assert_eq!(rx.meta(), PacketMeta { id: 42 });
    assert_eq!(rx.consume(), vec![7u8; 10]);
    assert_eq!(inj.inbound_len(), 0);
}

#[test]
fn inbound_released_exactly_at_deadline() {
    let (dev, _) = mock(vec![(vec![1, 2, 3], 1)]);
    let mut inj = DelayInjector::new(dev, Duration::from_micros(100));
    inj.poll(at(5));
    assert!(inj.receive(at(104)).is_none());
    let (rx, _tx) = inj.receive(at(105)).unwrap();
    assert_eq!(rx.consume(), vec![1, 2, 3]);
}

#[test]
fn transmit_forwarded_on_first_later_poll() {
    let (dev, sent) = mock(vec![]);
    let mut inj = DelayInjector::new(dev, Duration::from_micros(100));
    let tx = inj.transmit(at(10)).unwrap();
    tx.consume(&[1, 2, 3, 4, 5]);
    inj.poll(at(10));
    assert!(sent.borrow().is_empty());
    assert_eq!(inj.outbound_len(), 1);
    inj.poll(at(11));
    assert_eq!(*sent.borrow(), vec![vec![1u8, 2, 3, 4, 5]]);
    assert_eq!(inj.outbound_len(), 0);
    inj.poll(at(12));
    assert_eq!(sent.borrow().len(), 1);
}

#[test]
fn unfilled_slot_is_dropped_silently() {
    let (dev, sent) = mock(vec![]);
    let mut inj = DelayInjector::new(dev, Duration::from_micros(0));
    let _ = inj.transmit(at(1)).unwrap();
    assert_eq!(inj.outbound_len(), 1);
    inj.poll(at(2));
    assert!(sent.borrow().is_empty());
    assert_eq!(inj.outbound_len(), 0);
}

#[test]
fn into_inner_discards_queued_packets() {
    let (dev, sent) = mock(vec![(vec![1], 1), (vec![2], 2)]);
    let mut inj = DelayInjector::new(dev, Duration::from_micros(100));
    inj.poll(at(0));
    inj.poll(at(1));
    assert_eq!(inj.inbound_len(), 2);
    let inner = inj.into_inner();
    assert!(inner.incoming.is_empty());
    assert_eq!(inner.receive_calls, 2);
    assert!(sent.borrow().is_empty());
}

#[test]
fn inbound_fifo_order() {
    let (dev, _) = mock(vec![(vec![1], 1), (vec![2], 2), (vec![3], 3)]);
    let mut inj = DelayInjector::new(dev, Duration::from_micros(10));
    inj.poll(at(0));
    inj.poll(at(1));
    inj.poll(at(2));
    let mut got = Vec::new();
    for _ in 0..3 {
        let (rx, _tx) = inj.receive(at(100)).unwrap();
        got.push((rx.meta().id, rx.consume()));
    }
    assert_eq!(got, vec![(1, vec![1]), (2, vec![2]), (3, vec![3])]);
    assert!(inj.receive(at(100)).is_none());
}

#[test]
fn outbound_fifo_order() {
    let (dev, sent) = mock(vec![]);
    let mut inj = DelayInjector::new(dev, Duration::from_micros(10));
    inj.transmit(at(1)).unwrap().consume(&[1]);
    inj.transmit(at(2)).unwrap().consume(&[2, 2]);
    inj.transmit(at(3)).unwrap().consume(&[3, 3, 3]);
    inj.poll(at(3));
    assert_eq!(*sent.borrow(), vec![vec![1u8], vec![2, 2]]);
    inj.poll(at(4));
    assert_eq!(*sent.borrow(), vec![vec![1u8], vec![2, 2], vec![3, 3, 3]]);
}

#[test]
fn receive_opens_transmit_slot() {
    let (dev, sent) = mock(vec![(vec![9], 9)]);
    let mut inj = DelayInjector::new(dev, Duration::from_micros(0));
    inj.poll(at(0));
    let (rx, tx) = inj.receive(at(0)).unwrap();
    assert_eq!(rx.consume(), vec![9]);
    tx.consume(&[4, 4]);
    assert_eq!(inj.outbound_len(), 1);
    inj.poll(at(1));
    assert_eq!(*sent.borrow(), vec![vec![4u8, 4]]);
}

#[test]
fn idle_steps_change_nothing() {
    let (dev, sent) = mock(vec![]);
    let mut inj = DelayInjector::new(dev, Duration::from_micros(10));
    inj.transmit(at(50)).unwrap().consume(&[1]);
    for t in 0..5 {
        inj.poll(at(t));
        assert!(inj.receive(at(t)).is_none());
        assert_eq!(inj.inbound_len(), 0);
        assert_eq!(inj.outbound_len(), 1);
    }
    assert!(sent.borrow().is_empty());
}

#[test]
fn capabilities_clamp_mtu() {
    for (mtu, want) in [(1000usize, 1000usize), (1536, 1536), (9000, 1536), (0, 0)] {
        let (mut dev, _) = mock(vec![]);
        dev.caps = DeviceCapabilities { max_transmission_unit: mtu, max_burst_size: Some(4) };
        let inj = DelayInjector::new(dev, Duration::from_micros(1));
        let caps = inj.capabilities();
        assert_eq!(caps.max_transmission_unit, want);
        assert_eq!(caps.max_burst_size, Some(4));
    }
}

#[test]
fn clamp_capabilities_values() {
    let c = clamp_capabilities(DeviceCapabilities { max_transmission_unit: MTU + 1, max_burst_size: None });
    assert_eq!(c, DeviceCapabilities { max_transmission_unit: 1536, max_burst_size: None });
    let c = clamp_capabilities(DeviceCapabilities { max_transmission_unit: 576, max_burst_size: Some(2) });
    assert_eq!(c, DeviceCapabilities { max_transmission_unit: 576, max_burst_size: Some(2) });
}

#[test]
fn instant_and_duration_arithmetic() {
    let t = Instant::from_micros(-5).add_duration(Duration::from_micros(12));
    assert_eq!(t.total_micros(), 7);
    assert_eq!(Duration::from_micros(3).total_micros(), 3);
    assert_eq!(Instant::from_micros(9).total_micros(), 9);
}

#[test]
fn enqueue_arrival_stamps_release_time() {
    let (dev, _) = mock(vec![]);
    let mut inj = DelayInjector::new(dev, Duration::from_micros(100));
    inj.enqueue_arrival(None, at(0));
    assert_eq!(inj.inbound_len(), 0);
    inj.enqueue_arrival(Some((vec![5u8; 10], PacketMeta { id: 3 })), at(0));
    assert_eq!(inj.inbound_len(), 1);
    assert!(inj.receive(at(99)).is_none());
    let (rx, _tx) = inj.receive(at(100)).unwrap();
    assert_eq!(rx.meta(), PacketMeta { id: 3 });
    assert_eq!(rx.consume(), vec![5u8; 10]);
}

#[test]
fn take_due_returns_filled_due_buffers_in_order() {
    let (dev, sent) = mock(vec![]);
    let mut inj = DelayInjector::new(dev, Duration::from_micros(10));
    inj.transmit(at(1)).unwrap().consume(&[1]);
    let _ = inj.transmit(at(2)).unwrap();
    inj.transmit(at(3)).unwrap().consume(&[3, 3]);
    inj.transmit(at(9)).unwrap().consume(&[9]);
    let due = inj.take_due(at(4));
    assert_eq!(due, vec![vec![1u8], vec![3, 3]]);
    assert_eq!(inj.outbound_len(), 1);
    assert!(inj.take_due(at(4)).is_empty());
    assert!(sent.borrow().is_empty());
}

#[test]
fn set_meta_leaves_slot_alone() {
    let (dev, sent) = mock(vec![]);
    let mut inj = DelayInjector::new(dev, Duration::from_micros(10));
    let mut tx = inj.transmit(at(1)).unwrap();
    tx.set_meta(PacketMeta { id: 77 });
    tx.consume(&[8, 8]);
    assert_eq!(inj.outbound_len(), 1);
    inj.poll(at(2));
    assert_eq!(*sent.borrow(), vec![vec![8u8, 8]]);
}

#[test]
fn discarded_slot_stays_queued_then_skipped() {
    let (dev, sent) = mock(vec![(vec![6], 6)]);
    let mut inj = DelayInjector::new(dev, Duration::from_micros(0));
    inj.transmit(at(1)).unwrap().discard();
    assert_eq!(inj.outbound_len(), 1);
    inj.poll(at(1));
    let (_rx, tx) = inj.receive(at(1)).unwrap();
    tx.discard();
    assert_eq!(inj.outbound_len(), 2);
    inj.poll(at(2));
    assert_eq!(inj.outbound_len(), 0);
    assert!(sent.borrow().is_empty());
}
