//! The framed I/O channel: how a packet is laid out on the device handle,
//! how a frame read from it is unpacked, and which buffer a transfer uses.
//!
//! The channel never touches the handle itself. `send` lays out the bytes to
//! write, `recv` unpacks the bytes that were read, and `transferred` turns
//! what the device reported into the caller's result.

use vstd::prelude::*;
use crate::bytes_util::{append, append_range, be32, to_be32};

verus! {

/// Length of the protocol-information prefix.
pub const PACKET_INFORMATION_LENGTH: usize = 4;

/// The MTU assumed when none larger is configured.
pub const DEFAULT_MTU: u16 = 1500;

/// Protocol code of IPv4 in the prefix.
pub const PROTO_IPV4: u32 = 0x0800;

/// Protocol code of IPv6 in the prefix.
pub const PROTO_IPV6: u32 = 0x86DD;

/// Why a call on the channel failed.
#[derive(Clone, Copy, Debug, PartialEq, Eq, Structural)]
pub enum TunError {
    /// The payload is empty or its version nibble is neither 4 nor 6.
    MalformedPacket,
    /// The handle is non-blocking and the transfer would have blocked.
    WouldBlock,
    /// The device failed with this OS error code.
    Device(i32),
    /// Fewer bytes were transferred than the prefix takes.
    ShortTransfer,
}

/// What the device handle reported for one read or write.
#[derive(Clone, Copy, Debug, PartialEq, Eq, Structural)]
pub enum DeviceOutcome {
    /// This many bytes were transferred, prefix included.
    Transferred(usize),
    /// The transfer would have blocked.
    WouldBlock,
    /// The transfer failed with this OS error code.
    Failed(i32),
}

/// The buffer that a transfer on a framing channel goes through.
#[derive(Clone, Copy, Debug, PartialEq, Eq, Structural)]
pub enum LocalBuf {
    /// The channel's reusable buffer; nothing is allocated.
    Inline,
    /// A buffer allocated for this transfer alone, of exactly this size.
    Heap(usize),
}

/// The IP version that the first nibble of `buf` announces: `Some(true)` for
/// IPv6, `Some(false)` for IPv4, `None` for an empty buffer or another nibble.
pub open spec fn ip_version(buf: Seq<u8>) -> Option<bool> {
    if buf.len() == 0 {
        None
    } else if buf[0] / 16 == 4 {
        Some(false)
    } else if buf[0] / 16 == 6 {
        Some(true)
    } else {
        None
    }
}

/// The prefix that announces a packet of the given IP version.
pub open spec fn prefix_of(ipv6: bool) -> Seq<u8> {
    if ipv6 {
        be32(PROTO_IPV6)
    } else {
        be32(PROTO_IPV4)
    }
}

/// The bytes that go to the device for `payload`; `None` where the payload
/// cannot be classified on a channel that frames.
pub open spec fn frame_of(packet_information: bool, payload: Seq<u8>) -> Option<Seq<u8>> {
    if !packet_information {
        Some(payload)
    } else {
        match ip_version(payload) {
            Some(ipv6) => Some(prefix_of(ipv6) + payload),
            None => None,
        }
    }
}

/// The payload carried by `frame`; `None` where a framing channel got fewer
/// bytes than the prefix takes.
pub open spec fn payload_of(packet_information: bool, frame: Seq<u8>) -> Option<Seq<u8>> {
    if !packet_information {
        Some(frame)
    } else if frame.len() < PACKET_INFORMATION_LENGTH {
        None
    } else {
        Some(frame.subrange(PACKET_INFORMATION_LENGTH as int, frame.len() as int))
    }
}

/// `libc::ETH_P_IP`: the protocol code of IPv4 on Linux, 0x0800.
#[verifier::external_body]
fn eth_p_ip() -> (r: u32)
    ensures
        r == PROTO_IPV4,
{
    libc::ETH_P_IP as u32
}

/// `libc::ETH_P_IPV6`: the protocol code of IPv6 on Linux, 0x86DD.
#[verifier::external_body]
fn eth_p_ipv6() -> (r: u32)
    ensures
        r == PROTO_IPV6,
{
    libc::ETH_P_IPV6 as u32
}

/// Infers the protocol from the first nibble of the packet.
pub fn is_ipv6(buf: &[u8]) -> (r: Result<bool, TunError>)
    ensures
        r == match ip_version(buf@) {
            Some(ipv6) => Ok::<bool, TunError>(ipv6),
            None => Err(TunError::MalformedPacket),
        },
{
    if buf.len() == 0 {
        return Err(TunError::MalformedPacket);
    }
    let nibble: u8 = buf[0] / 16;
    if nibble == 4 {
        Ok(false)
    } else if nibble == 6 {
        Ok(true)
    } else {
        Err(TunError::MalformedPacket)
    }
}

/// The prefix for a packet of the given version, if the channel frames.
pub fn generate_packet_information(packet_information: bool, ipv6: bool) -> (r: Option<[u8; 4]>)
    ensures
        r.is_some() == packet_information,
        packet_information ==> r.unwrap()@ == prefix_of(ipv6),
{
    if packet_information {
        if ipv6 {
            Some(to_be32(eth_p_ipv6()))
        } else {
            Some(to_be32(eth_p_ip()))
        }
    } else {
        None
    }
}

/// The state of one framed channel.
#[derive(Clone, Copy, Debug)]
pub struct Tun {
    pub mtu: u16,
    pub packet_information: bool,
    pub nonblocking: bool,
}

impl Tun {
    /// Bytes of framing in front of every payload on this channel.
    pub open spec fn spec_offset(&self) -> nat {
        if self.packet_information {
            PACKET_INFORMATION_LENGTH as nat
        } else {
            0
        }
    }

    /// Size of the reusable buffer: room for the larger of the configured and
    /// the default MTU, and the prefix.
    pub open spec fn spec_inline_capacity(&self) -> nat {
        if self.mtu > DEFAULT_MTU {
            (self.mtu + PACKET_INFORMATION_LENGTH) as nat
        } else {
            (DEFAULT_MTU + PACKET_INFORMATION_LENGTH) as nat
        }
    }

    /// Whether a payload of this length needs a buffer of its own.
    pub open spec fn spec_needs_heap(&self, payload_len: nat) -> bool {
        self.packet_information && payload_len + self.spec_offset() > self.spec_inline_capacity()
    }

    /// A blocking channel with the given MTU.
    pub fn new(mtu: u16, packet_information: bool) -> (r: Tun)
        ensures
            r.mtu == mtu,
            r.packet_information == packet_information,
            !r.nonblocking,
    {
        Tun { mtu, packet_information, nonblocking: false }
    }

    /// Records that the handle is to be used without blocking.
    pub fn set_nonblock(&mut self)
        ensures
            final(self).nonblocking,
            final(self).mtu == old(self).mtu,
            final(self).packet_information == old(self).packet_information,
    {
        self.nonblocking = true;
    }

    /// Whether the handle is used without blocking.
    pub fn nonblocking(&self) -> (r: bool)
        ensures
            r == self.nonblocking,
    {
        self.nonblocking
    }

    /// Changes the MTU; only later buffer choices see it.
    pub fn set_mtu(&mut self, value: u16)
        ensures
            final(self).mtu == value,
            final(self).packet_information == old(self).packet_information,
            final(self).nonblocking == old(self).nonblocking,
    {
        self.mtu = value;
    }

    pub fn mtu(&self) -> (r: u16)
        ensures
            r == self.mtu,
    {
        self.mtu
    }

    pub fn packet_information(&self) -> (r: bool)
        ensures
            r == self.packet_information,
    {
        self.packet_information
    }

    pub fn offset(&self) -> (r: usize)
        ensures
            r == self.spec_offset(),
    {
        if self.packet_information {
            PACKET_INFORMATION_LENGTH
        } else {
            0
        }
    }

    pub fn inline_capacity(&self) -> (r: usize)
        ensures
            r == self.spec_inline_capacity(),
    {
        let larger: u16 = if self.mtu > DEFAULT_MTU {
            self.mtu
        } else {
            DEFAULT_MTU
        };
        let base: usize = larger as usize;
        base + PACKET_INFORMATION_LENGTH
    }

    /// Decides whether a transfer of `payload_len` payload bytes must use a
    /// buffer allocated for it alone, sized `payload_len + offset`.
    pub fn needs_heap(&self, payload_len: usize) -> (r: bool)
        ensures
            r == self.spec_needs_heap(payload_len as nat),
    {
        self.packet_information && payload_len > self.inline_capacity()
            - PACKET_INFORMATION_LENGTH
    }

    /// Chooses the buffer for a transfer of `payload_len` payload bytes: the
    /// reusable one as long as the transfer fits it, else one of the
    /// transfer's exact size.
    pub fn local_buf(&self, payload_len: usize) -> (r: LocalBuf)
        requires
            payload_len + PACKET_INFORMATION_LENGTH <= usize::MAX,
        ensures
            r == if self.spec_needs_heap(payload_len as nat) {
                LocalBuf::Heap((payload_len + self.spec_offset()) as usize)
            } else {
                LocalBuf::Inline
            },
    {
        if self.needs_heap(payload_len) {
            LocalBuf::Heap(payload_len + self.offset())
        } else {
            LocalBuf::Inline
        }
    }

    /// Lays out the bytes to write for `in_buf` and returns how many they
    /// are. On a framing channel they replace the contents of `local_buf`;
    /// otherwise the payload itself is written and `local_buf` is untouched.
    /// A payload that cannot be classified is refused before anything is
    /// laid out.
    pub fn send(&self, in_buf: &[u8], local_buf: &mut Vec<u8>) -> (r: Result<usize, TunError>)
        ensures
            match frame_of(self.packet_information, in_buf@) {
                None => r == Err::<usize, TunError>(TunError::MalformedPacket) && final(local_buf)@ == old(local_buf)@,
                Some(frame) => r == Ok::<usize, TunError>(frame.len() as usize)
                    && frame.len() == in_buf@.len() + self.spec_offset() && if self.packet_information {
                    final(local_buf)@ == frame
                } else {
                    final(local_buf)@ == old(local_buf)@
                },
            },
    {
        if !self.packet_information {
            return Ok(in_buf.len());
        }
        let ipv6 = match is_ipv6(in_buf) {
            Ok(v) => v,
            Err(e) => {
                return Err(e);
            },
        };
        match generate_packet_information(true, ipv6) {
            Some(header) => {
                local_buf.clear();
                append(local_buf, header.as_slice());
                append(local_buf, in_buf);
                Ok(local_buf.len())
            },
            None => Ok(in_buf.len()),
        }
    }

    /// Unpacks the bytes read from the device into `in_buf` and returns the
    /// payload's length. A frame shorter than the prefix leaves `in_buf` as
    /// it was.
    pub fn recv(&self, frame: &[u8], in_buf: &mut Vec<u8>) -> (r: Result<usize, TunError>)
        ensures
            match payload_of(self.packet_information, frame@) {
                None => r == Err::<usize, TunError>(TunError::ShortTransfer) && final(in_buf)@
                    == old(in_buf)@,
                Some(payload) => r == Ok::<usize, TunError>(payload.len() as usize) && final(in_buf)@ == payload && payload.len() + self.spec_offset() == frame@.len(),
            },
    {
        let offset = self.offset();
        if frame.len() < offset {
            return Err(TunError::ShortTransfer);
        }
        in_buf.clear();
        append_range(in_buf, frame, offset, frame.len());
        assert(frame@.subrange(0, frame@.len() as int) =~= frame@);
        Ok(frame.len() - offset)
    }

    /// Turns what the device reported for a read or a write into the number
    /// of payload bytes moved, the prefix left out of the count.
    pub fn transferred(&self, outcome: DeviceOutcome) -> (r: Result<usize, TunError>)
        ensures
            r == match outcome {
                DeviceOutcome::Transferred(amount) => if amount >= self.spec_offset() {
                    Ok::<usize, TunError>((amount - self.spec_offset()) as usize)
                } else {
                    Err(TunError::ShortTransfer)
                },
                DeviceOutcome::WouldBlock => Err(TunError::WouldBlock),
                DeviceOutcome::Failed(code) => Err(TunError::Device(code)),
            },
    {
        match outcome {
            DeviceOutcome::Transferred(amount) => {
                let offset = self.offset();
                if amount >= offset {
                    Ok(amount - offset)
                } else {
                    Err(TunError::ShortTransfer)
                }
            },
            DeviceOutcome::WouldBlock => Err(TunError::WouldBlock),
            DeviceOutcome::Failed(code) => Err(TunError::Device(code)),
        }
    }
}

/// What is sent is what is received: on any channel, unpacking the frame
/// laid out for a payload gives the payload back.
pub proof fn lemma_send_recv_round_trip(packet_information: bool, payload: Seq<u8>)
    requires
        frame_of(packet_information, payload).is_some(),
    ensures
        payload_of(packet_information, frame_of(packet_information, payload).unwrap()) == Some(
            payload,
        ),
{
    if packet_information {
        let ipv6 = ip_version(payload).unwrap();
        let frame = prefix_of(ipv6) + payload;
        assert(prefix_of(ipv6).len() == 4);
        assert(frame.subrange(4, frame.len() as int) =~= payload);
    }
}

/// A framing channel lays out every non-empty payload whose first nibble is
/// 4 or 6, with the prefix of that version in front.
pub proof fn lemma_frame_of_ip_packet(payload: Seq<u8>)
    requires
        payload.len() > 0,
        payload[0] / 16 == 4 || payload[0] / 16 == 6,
    ensures
        frame_of(true, payload) == Some(prefix_of(payload[0] / 16 == 6) + payload),
        payload_of(true, prefix_of(payload[0] / 16 == 6) + payload) == Some(payload),
{
    lemma_send_recv_round_trip(true, payload);
}

/// The reusable buffer serves a transfer that fills it exactly, and a
/// transfer one byte larger gets a buffer of its own.
pub proof fn lemma_buffer_boundary(tun: Tun)
    requires
        tun.packet_information,
    ensures
        !tun.spec_needs_heap((tun.spec_inline_capacity() - tun.spec_offset()) as nat),
        tun.spec_needs_heap((tun.spec_inline_capacity() - tun.spec_offset() + 1) as nat),
{
}

} // verus!
