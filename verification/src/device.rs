//! A device as its users see it: one framed channel.

use vstd::prelude::*;
use crate::tun::{frame_of, payload_of, DeviceOutcome, Tun, TunError};

verus! {

/// A virtual network device seen through its framed channel.
#[derive(Clone, Copy, Debug)]
pub struct Device {
    pub tun: Tun,
}

impl Device {
    /// A device over a fresh blocking channel.
    pub fn new(mtu: u16, packet_information: bool) -> (r: Device)
        ensures
            r.tun.mtu == mtu,
            r.tun.packet_information == packet_information,
            !r.tun.nonblocking,
    {
        Device { tun: Tun::new(mtu, packet_information) }
    }

    /// Set non-blocking mode.
    pub fn set_nonblock(&mut self)
        ensures
            final(self).tun.nonblocking,
            final(self).tun.mtu == old(self).tun.mtu,
            final(self).tun.packet_information == old(self).tun.packet_information,
    {
        self.tun.set_nonblock();
    }

    /// Unpacks a frame read from the device, as `Tun::recv` does.
    pub fn recv(&self, frame: &[u8], buf: &mut Vec<u8>) -> (r: Result<usize, TunError>)
        ensures
            match payload_of(self.tun.packet_information, frame@) {
                None => r == Err::<usize, TunError>(TunError::ShortTransfer) && final(buf)@ == old(buf)@,
                Some(payload) => r == Ok::<usize, TunError>(payload.len() as usize) && final(buf)@
                    == payload,
            },
    {
        self.tun.recv(frame, buf)
    }

    /// Lays out the frame for a packet, as `Tun::send` does.
    pub fn send(&self, buf: &[u8], local_buf: &mut Vec<u8>) -> (r: Result<usize, TunError>)
        ensures
            match frame_of(self.tun.packet_information, buf@) {
                None => r == Err::<usize, TunError>(TunError::MalformedPacket) && final(local_buf)@ == old(local_buf)@,
                Some(frame) => r == Ok::<usize, TunError>(frame.len() as usize)
                    && if self.tun.packet_information {
                    final(local_buf)@ == frame
                } else {
                    final(local_buf)@ == old(local_buf)@
                },
            },
    {
        self.tun.send(buf, local_buf)
    }

    /// The payload bytes moved by a transfer that the device reported.
    pub fn transferred(&self, outcome: DeviceOutcome) -> (r: Result<usize, TunError>)
        ensures
            r == match outcome {
                DeviceOutcome::Transferred(amount) => if amount >= self.tun.spec_offset() {
                    Ok::<usize, TunError>((amount - self.tun.spec_offset()) as usize)
                } else {
                    Err(TunError::ShortTransfer)
                },
                DeviceOutcome::WouldBlock => Err(TunError::WouldBlock),
                DeviceOutcome::Failed(code) => Err(TunError::Device(code)),
            },
    {
        self.tun.transferred(outcome)
    }

    pub fn mtu(&self) -> (r: u16)
        ensures
            r == self.tun.mtu,
    {
        self.tun.mtu()
    }

    pub fn set_mtu(&mut self, value: u16)
        ensures
            final(self).tun.mtu == value,
            final(self).tun.packet_information == old(self).tun.packet_information,
            final(self).tun.nonblocking == old(self).tun.nonblocking,
    {
        self.tun.set_mtu(value);
    }

    pub fn packet_information(&self) -> (r: bool)
        ensures
            r == self.tun.packet_information,
    {
        self.tun.packet_information()
    }
}

} // verus!
