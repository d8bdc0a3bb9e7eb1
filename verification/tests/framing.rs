use tun_offload::bytes_util::{append, append_range, read_be16, to_be16, to_be32};
use tun_offload::device::Device;
use tun_offload::tun::{
    generate_packet_information, is_ipv6, DeviceOutcome, LocalBuf, Tun, TunError, DEFAULT_MTU,
    PACKET_INFORMATION_LENGTH,
};

fn ipv4_payload(len: usize) -> Vec<u8> {
    let mut p = vec![0u8; len];
    for (i, b) in p.iter_mut().enumerate() {
        *b = (i % 251) as u8;
    }
    p[0] = 0x45;
    p
}

#[test]
fn be32_is_network_order() {
    assert_eq!(to_be32(0x0800), [0, 0, 0x08, 0x00]);
    assert_eq!(to_be32(0x86DD), [0, 0, 0x86, 0xDD]);
    assert_eq!(to_be32(0x0102_0304), [1, 2, 3, 4]);
    assert_eq!(to_be32(u32::MAX), [255, 255, 255, 255]);
}

#[test]
fn be16_reads_and_writes() {
    assert_eq!(to_be16(0x1388), (0x13, 0x88));
    assert_eq!(to_be16(0), (0, 0));
    assert_eq!(to_be16(u16::MAX), (255, 255));
    assert_eq!(read_be16(&[9, 0x13, 0x88, 7], 1), 0x1388);
    assert_eq!(read_be16(&[0xff, 0xff], 0), u16::MAX);
}

#[test]
fn append_adds_at_the_end() {
    let mut v = vec![1u8, 2];
    append(&mut v, &[3, 4, 5]);
    assert_eq!(v, vec![1, 2, 3, 4, 5]);
    append(&mut v, &[]);
    assert_eq!(v, vec![1, 2, 3, 4, 5]);
    append_range(&mut v, &[10, 11, 12, 13], 1, 3);
    assert_eq!(v, vec![1, 2, 3, 4, 5, 11, 12]);
    append_range(&mut v, &[10, 11], 2, 2);
    assert_eq!(v.len(), 7);
}

#[test]
fn version_nibble_is_classified() {
    assert_eq!(is_ipv6(&[0x45, 0, 0]), Ok(false));
    assert_eq!(is_ipv6(&[0x4f]), Ok(false));
    assert_eq!(is_ipv6(&[0x60]), Ok(true));
    assert_eq!(is_ipv6(&[0x6a, 1]), Ok(true));
    assert_eq!(is_ipv6(&[]), Err(TunError::MalformedPacket));
    assert_eq!(is_ipv6(&[0x00]), Err(TunError::MalformedPacket));
    assert_eq!(is_ipv6(&[0x54]), Err(TunError::MalformedPacket));
    assert_eq!(is_ipv6(&[0xf6]), Err(TunError::MalformedPacket));
}

#[test]
fn prefix_is_bit_exact() {
    assert_eq!(generate_packet_information(true, false), Some([0x00, 0x00, 0x08, 0x00]));
    assert_eq!(generate_packet_information(true, true), Some([0x00, 0x00, 0x86, 0xDD]));
    assert_eq!(generate_packet_information(false, false), None);
    assert_eq!(generate_packet_information(false, true), None);
}

#[test]
fn new_channel_keeps_its_settings() {
    let mut tun = Tun::new(1400, true);
    assert_eq!(tun.mtu(), 1400);
    assert!(tun.packet_information());
    assert!(!tun.nonblocking());
    assert_eq!(tun.offset(), PACKET_INFORMATION_LENGTH);
    tun.set_nonblock();
    assert!(tun.nonblocking());
    assert_eq!(tun.mtu(), 1400);
    tun.set_mtu(9000);
    assert_eq!(tun.mtu(), 9000);
    assert!(tun.nonblocking());
    assert!(tun.packet_information());
    let plain = Tun::new(1500, false);
    assert_eq!(plain.offset(), 0);
    assert!(!plain.packet_information());
}

#[test]
fn send_prefixes_ipv4() {
    let tun = Tun::new(1500, true);
    let mut local = vec![9u8; 3];
    let r = tun.send(&[0x45, 0xAA, 0xBB], &mut local);
    assert_eq!(r, Ok(7));
    assert_eq!(local, vec![0, 0, 0x08, 0x00, 0x45, 0xAA, 0xBB]);
    assert_eq!(tun.transferred(DeviceOutcome::Transferred(7)), Ok(3));
}

#[test]
fn send_prefixes_ipv6() {
    let tun = Tun::new(1500, true);
    let mut local = Vec::new();
    let r = tun.send(&[0x60, 1, 2, 3, 4], &mut local);
    assert_eq!(r, Ok(9));
    assert_eq!(local, vec![0, 0, 0x86, 0xDD, 0x60, 1, 2, 3, 4]);
}

#[test]
fn send_empty_payload_is_malformed() {
    let tun = Tun::new(1500, true);
    let mut local = vec![7u8, 7, 7];
    assert_eq!(tun.send(&[], &mut local), Err(TunError::MalformedPacket));
    assert_eq!(local, vec![7, 7, 7]);
}

#[test]
fn send_unknown_version_is_malformed() {
    let tun = Tun::new(1500, true);
    let mut local = vec![7u8];
    assert_eq!(tun.send(&[0x25, 1, 2], &mut local), Err(TunError::MalformedPacket));
    assert_eq!(tun.send(&[0x05], &mut local), Err(TunError::MalformedPacket));
    assert_eq!(local, vec![7]);
}

#[test]
fn send_without_framing_writes_the_payload_itself() {
    let tun = Tun::new(1500, false);
    let mut local = vec![1u8, 2];
    assert_eq!(tun.send(&[0x25, 1, 2], &mut local), Ok(3));
    assert_eq!(tun.send(&[], &mut local), Ok(0));
    assert_eq!(local, vec![1, 2]);
    assert_eq!(tun.transferred(DeviceOutcome::Transferred(3)), Ok(3));
}

#[test]
fn recv_strips_the_prefix() {
    let tun = Tun::new(1500, true);
    let mut sink = vec![1u8; 10];
    let r = tun.recv(&[0, 0, 0x08, 0x00, 0x45, 0xAA], &mut sink);
    assert_eq!(r, Ok(2));
    assert_eq!(sink, vec![0x45, 0xAA]);
    assert_eq!(tun.recv(&[0, 0, 0x08, 0x00], &mut sink), Ok(0));
    assert!(sink.is_empty());
}

#[test]
fn recv_without_framing_returns_the_frame() {
    let tun = Tun::new(1500, false);
    let mut sink = Vec::new();
    assert_eq!(tun.recv(&[0, 0, 0x08, 0x00, 0x45], &mut sink), Ok(5));
    assert_eq!(sink, vec![0, 0, 0x08, 0x00, 0x45]);
    assert_eq!(tun.recv(&[], &mut sink), Ok(0));
    assert!(sink.is_empty());
}

#[test]
fn recv_short_frame_fails() {
    let tun = Tun::new(1500, true);
    let mut sink = vec![5u8, 6];
    assert_eq!(tun.recv(&[0, 0, 8], &mut sink), Err(TunError::ShortTransfer));
    assert_eq!(tun.recv(&[], &mut sink), Err(TunError::ShortTransfer));
    assert_eq!(sink, vec![5, 6]);
}

#[test]
fn send_then_recv_round_trips() {
    let tun = Tun::new(1500, true);
    for first in [0x40u8, 0x45, 0x4f, 0x60, 0x6e] {
        for len in [1usize, 2, 20, 1500] {
            let mut payload = ipv4_payload(len);
            payload[0] = first;
            let mut frame = Vec::new();
            assert_eq!(tun.send(&payload, &mut frame), Ok(len + 4));
            let mut back = Vec::new();
            assert_eq!(tun.recv(&frame, &mut back), Ok(len));
            assert_eq!(back, payload);
        }
    }
}

#[test]
fn transferred_reports_payload_bytes() {
    let framed = Tun::new(1500, true);
    assert_eq!(framed.transferred(DeviceOutcome::Transferred(104)), Ok(100));
    assert_eq!(framed.transferred(DeviceOutcome::Transferred(4)), Ok(0));
    assert_eq!(framed.transferred(DeviceOutcome::Transferred(3)), Err(TunError::ShortTransfer));
    assert_eq!(framed.transferred(DeviceOutcome::Transferred(0)), Err(TunError::ShortTransfer));
    assert_eq!(framed.transferred(DeviceOutcome::WouldBlock), Err(TunError::WouldBlock));
    assert_eq!(framed.transferred(DeviceOutcome::Failed(5)), Err(TunError::Device(5)));
    let plain = Tun::new(1500, false);
    assert_eq!(plain.transferred(DeviceOutcome::Transferred(0)), Ok(0));
    assert_eq!(plain.transferred(DeviceOutcome::Transferred(100)), Ok(100));
    assert_eq!(plain.transferred(DeviceOutcome::WouldBlock), Err(TunError::WouldBlock));
    assert_eq!(plain.transferred(DeviceOutcome::Failed(-1)), Err(TunError::Device(-1)));
}

#[test]
fn inline_capacity_follows_the_larger_mtu() {
    assert_eq!(DEFAULT_MTU, 1500);
    assert_eq!(Tun::new(1500, true).inline_capacity(), 1504);
    assert_eq!(Tun::new(576, true).inline_capacity(), 1504);
    assert_eq!(Tun::new(0, false).inline_capacity(), 1504);
    assert_eq!(Tun::new(1501, true).inline_capacity(), 1505);
    assert_eq!(Tun::new(9000, true).inline_capacity(), 9004);
    assert_eq!(Tun::new(u16::MAX, true).inline_capacity(), 65539);
}

#[test]
fn buffer_boundary_is_the_inline_capacity() {
    let tun = Tun::new(1500, true);
    let at = tun.inline_capacity() - tun.offset();
    assert_eq!(at, 1500);
    assert!(!tun.needs_heap(0));
    assert!(!tun.needs_heap(at - 1));
    assert!(!tun.needs_heap(at));
    assert!(tun.needs_heap(at + 1));
    assert!(tun.needs_heap(usize::MAX));
    for len in [at, at + 1] {
        let payload = ipv4_payload(len);
        let mut frame = Vec::new();
        assert_eq!(tun.send(&payload, &mut frame), Ok(len + 4));
        assert_eq!(frame.len(), len + 4);
        let mut back = Vec::new();
        assert_eq!(tun.recv(&frame, &mut back), Ok(len));
        assert_eq!(back, payload);
    }
}

#[test]
fn unframed_channel_never_needs_its_own_buffer() {
    let tun = Tun::new(1500, false);
    assert!(!tun.needs_heap(1500));
    assert!(!tun.needs_heap(1501));
    assert!(!tun.needs_heap(usize::MAX));
}

#[test]
fn set_mtu_moves_the_threshold_for_later_calls() {
    let mut tun = Tun::new(1500, true);
    assert!(tun.needs_heap(1501));
    tun.set_mtu(9000);
    assert!(!tun.needs_heap(1501));
    assert!(!tun.needs_heap(9000));
    assert!(tun.needs_heap(9001));
    tun.set_mtu(100);
    assert!(!tun.needs_heap(1500));
    assert!(tun.needs_heap(1501));
}

#[test]
fn device_passes_on_to_its_channel() {
    let mut dev = Device::new(1400, true);
    assert_eq!(dev.mtu(), 1400);
    assert!(dev.packet_information());
    assert!(!dev.tun.nonblocking());
    dev.set_nonblock();
    assert!(dev.tun.nonblocking());
    dev.set_mtu(1300);
    assert_eq!(dev.mtu(), 1300);
    let mut frame = Vec::new();
    assert_eq!(dev.send(&[0x60, 9], &mut frame), Ok(6));
    assert_eq!(frame, vec![0, 0, 0x86, 0xDD, 0x60, 9]);
    assert_eq!(dev.send(&[], &mut frame), Err(TunError::MalformedPacket));
    let mut back = Vec::new();
    assert_eq!(dev.recv(&frame, &mut back), Ok(2));
    assert_eq!(back, vec![0x60, 9]);
    assert_eq!(dev.recv(&[1], &mut back), Err(TunError::ShortTransfer));
    assert_eq!(dev.transferred(DeviceOutcome::Transferred(6)), Ok(2));
    assert_eq!(dev.transferred(DeviceOutcome::WouldBlock), Err(TunError::WouldBlock));
}

#[test]
fn local_buf_is_inline_up_to_capacity_and_exact_beyond() {
    let tun = Tun::new(1500, true);
    assert_eq!(tun.local_buf(0), LocalBuf::Inline);
    assert_eq!(tun.local_buf(1500), LocalBuf::Inline);
    assert_eq!(tun.local_buf(1501), LocalBuf::Heap(1505));
    assert_eq!(tun.local_buf(70000), LocalBuf::Heap(70004));
    let jumbo = Tun::new(9000, true);
    assert_eq!(jumbo.local_buf(9000), LocalBuf::Inline);
    assert_eq!(jumbo.local_buf(9001), LocalBuf::Heap(9005));
    let plain = Tun::new(1500, false);
    assert_eq!(plain.local_buf(1501), LocalBuf::Inline);
    assert_eq!(plain.local_buf(1 << 20), LocalBuf::Inline);
}
