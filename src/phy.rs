use crate::time::Instant;
use vstd::prelude::*;

verus! {

/// Metadata carried alongside a packet.
#[derive(Clone, Copy, Debug, PartialEq, Eq, Structural)]
pub struct PacketMeta {
    pub id: u32,
}

/// Properties that a device reports to the stack above it.
#[derive(Clone, Copy, Debug, PartialEq, Eq)]
pub struct DeviceCapabilities {
    /// The largest packet, in bytes, that the device can send or receive.
    pub max_transmission_unit: usize,
    /// How many packets the device can take in one burst, if it limits that.
    pub max_burst_size: Option<usize>,
}

/// A single-use handle on one received packet.
pub trait RxToken: Sized {
    /// Consumes the token and hands over the packet's bytes.
    fn consume(self) -> Vec<u8>;

    /// The metadata that came with the packet.
    fn meta(&self) -> PacketMeta;
}

/// A single-use handle on one slot of the transmit path.
pub trait TxToken: Sized {
    /// Consumes the token and hands `packet` to the transmit path.
    fn consume(self, packet: &[u8]);

    /// Attaches metadata to the packet that this token will carry.
    fn set_meta(&mut self, meta: PacketMeta);
}

/// A packet-level network interface.
pub trait Device {
    type RxToken<'a>: RxToken where Self: 'a;

    type TxToken<'a>: TxToken where Self: 'a;

    /// The properties of this device.
    fn capabilities(&self) -> DeviceCapabilities;

    /// A received packet, paired with a transmit slot, if one is ready at `timestamp`.
    fn receive(&mut self, timestamp: Instant) -> Option<(Self::RxToken<'_>, Self::TxToken<'_>)>;

    /// A transmit slot, if one is free at `timestamp`.
    fn transmit(&mut self, timestamp: Instant) -> Option<Self::TxToken<'_>>;
}

} // verus!
