//! What holds of every batch that the table coalesces.

use vstd::prelude::*;
use crate::bytes_util::{be16, from_be16};
use crate::headers::{
    segment_of, IpSummary, Packet, Segment, UdpFlowKey, MAX_PACKET_LEN, UDP_HEADER_LEN,
};
use crate::offload::{
    absorbed, active_index, can_absorb, coalesced, emitted, flushed, fresh_item,
    payload_of_segment, step, usable, ItemView,
};

verus! {

/// Every item started within the first `n` packets, and the items stand in
/// the order in which their first packets arrived.
pub open spec fn in_arrival_order(items: Seq<ItemView>, n: nat) -> bool {
    &&& forall|i: int| 0 <= i < items.len() ==> (#[trigger] items[i]).first < n
    &&& forall|i: int, j: int|
        0 <= i < j < items.len() ==> (#[trigger] items[i]).first < (#[trigger] items[j]).first
}

/// Every item that holds one packet is that packet, byte for byte, with its
/// checksum not marked invalid; every other item is marked.
pub open spec fn singles_untouched(items: Seq<ItemView>, packets: Seq<Packet>) -> bool {
    forall|i: int|
        0 <= i < items.len() ==> {
            &&& (#[trigger] items[i]).num_merged >= 1
            &&& items[i].first < packets.len()
            &&& items[i].num_merged > 1 ==> items[i].checksum_known_invalid
            &&& items[i].num_merged == 1 ==> !items[i].checksum_known_invalid
                && items[i].packet_bytes() == packets[items[i].first as int].bytes@
        }
}

/// Among the first `n` items, the open item of a flow is one of them or -1.
pub proof fn lemma_active_index_range(items: Seq<ItemView>, key: UdpFlowKey, n: nat)
    requires
        n <= items.len(),
    ensures
        -1 <= active_index(items, key, n) < n,
        active_index(items, key, n) >= 0 ==> items[active_index(items, key, n)].segment == Some(
            items[active_index(items, key, n)].segment.unwrap(),
        ) && items[active_index(items, key, n)].segment.unwrap().key == key,
    decreases n,
{
    if n > 0 {
        lemma_active_index_range(items, key, (n - 1) as nat);
    }
}

/// A packet that starts an item is kept whole in it.
pub proof fn lemma_fresh_item_is_packet(bytes: Seq<u8>, segment: Option<Segment>, index: nat)
    ensures
        fresh_item(bytes, usable(segment, bytes), index).packet_bytes() == bytes,
        fresh_item(bytes, usable(segment, bytes), index).num_merged == 1,
        fresh_item(bytes, usable(segment, bytes), index).first == index,
        !fresh_item(bytes, usable(segment, bytes), index).checksum_known_invalid,
{
    let item = fresh_item(bytes, usable(segment, bytes), index);
    assert(item.packet_bytes() =~= bytes);
}

/// After any number of packets of a batch, the items stand in the order in
/// which their flows were first seen, and every item that holds one packet
/// is that packet unchanged.
pub proof fn lemma_coalesced_invariant(packets: Seq<Packet>, segments: Seq<Option<Segment>>, n: nat)
    requires
        n <= packets.len(),
    ensures
        in_arrival_order(coalesced(packets, segments, n), n),
        singles_untouched(coalesced(packets, segments, n), packets),
        coalesced(packets, segments, n).len() <= n,
    decreases n,
{
    if n > 0 {
        let m = (n - 1) as nat;
        lemma_coalesced_invariant(packets, segments, m);
        let before = coalesced(packets, segments, m);
        let bytes = packets[m as int].bytes@;
        let after = step(before, bytes, segments[m as int], m);
        lemma_fresh_item_is_packet(bytes, segments[m as int], m);
        match usable(segments[m as int], bytes) {
            None => {
                assert(after == before.push(fresh_item(bytes, None, m)));
            },
            Some(s) => {
                let at = active_index(before, s.key, before.len());
                lemma_active_index_range(before, s.key, before.len());
                let payload = payload_of_segment(s, bytes);
                if at >= 0 && can_absorb(before[at], s, payload) {
                    assert(after == before.update(at, absorbed(before[at], payload)));
                    assert forall|i: int| 0 <= i < after.len() implies (#[trigger] after[i]).first
                        == before[i].first by {}
                } else {
                    assert(after == before.push(fresh_item(bytes, Some(s), m)));
                }
            },
        }
    }
}

/// A segment derived from a packet's headers fits that packet.
pub proof fn lemma_segment_of_fits(bytes: Seq<u8>, recv_ack: u32, ip: IpSummary)
    ensures
        segment_of(bytes, recv_ack, ip) matches Some(s) ==> s.fits(bytes) && s.key.recv_ack
            == recv_ack && usable(segment_of(bytes, recv_ack, ip), bytes) == Some(s),
{
}

/// Once a merged item is flushed, its header announces the final sizes: the
/// UDP length field holds the UDP header and all the data, and the IP length
/// field holds the whole packet (IPv4) or all that follows the fixed header
/// (IPv6). Every other byte of the header is as it was.
pub proof fn lemma_flushed_lengths(item: ItemView)
    requires
        item.wf(),
        item.num_merged > 1,
    ensures
        flushed(item).header.len() == item.header.len(),
        ({
            let s = item.segment.unwrap();
            let h = s.ip_header_len as int;
            let out = flushed(item).header;
            let at = if s.ipv6 {
                4int
            } else {
                2int
            };
            &&& from_be16(out[h + 4], out[h + 5]) == UDP_HEADER_LEN + item.data.len()
            &&& from_be16(out[at], out[at + 1]) == if s.ipv6 {
                item.header.len() - 40 + item.data.len()
            } else {
                (item.header.len() + item.data.len()) as int
            }
            &&& forall|k: int|
                0 <= k < out.len() && k != h + 4 && k != h + 5 && k != at && k != at + 1
                    ==> out[k] == item.header[k]
        }),
{
    let s = item.segment.unwrap();
    let udp = (UDP_HEADER_LEN + item.data.len()) as u16;
    lemma_be16_round_trip(udp);
    if s.ipv6 {
        lemma_be16_round_trip((item.header.len() - 40 + item.data.len()) as u16);
    } else {
        lemma_be16_round_trip((item.header.len() + item.data.len()) as u16);
    }
}

/// Decoding the big-endian encoding of a number gives the number.
pub proof fn lemma_be16_round_trip(value: u16)
    ensures
        be16(value).len() == 2,
        from_be16(be16(value)[0], be16(value)[1]) == value,
{
}

/// Flushing changes neither the count, the position, the flag nor the data
/// of an item, and leaves an item that holds one packet as it is.
pub proof fn lemma_flushed_keeps(item: ItemView)
    ensures
        flushed(item).num_merged == item.num_merged,
        flushed(item).first == item.first,
        flushed(item).checksum_known_invalid == item.checksum_known_invalid,
        flushed(item).data == item.data,
        flushed(item).segment == item.segment,
        item.num_merged == 1 ==> flushed(item) == item,
{
}

/// Emission order: the items of a coalesced batch come out in the order in
/// which their first packets arrived, so a flow that was first seen before
/// another is emitted before it, however their packets interleave.
pub proof fn lemma_emission_order(packets: Seq<Packet>, segments: Seq<Option<Segment>>)
    ensures
        in_arrival_order(emitted(packets, segments), packets.len()),
        emitted(packets, segments).len() <= packets.len(),
{
    lemma_coalesced_invariant(packets, segments, packets.len());
    let open = coalesced(packets, segments, packets.len());
    let out = emitted(packets, segments);
    assert forall|i: int| 0 <= i < out.len() implies (#[trigger] out[i]).first == open[i].first by {
        lemma_flushed_keeps(open[i]);
    }
}

/// An emitted item that holds one packet is byte for byte the packet at the
/// position it records, header and payload, and its checksum is not marked
/// invalid; an item that holds more is marked.
pub proof fn lemma_single_items_identical(packets: Seq<Packet>, segments: Seq<Option<Segment>>)
    ensures
        singles_untouched(emitted(packets, segments), packets),
{
    lemma_coalesced_invariant(packets, segments, packets.len());
    let open = coalesced(packets, segments, packets.len());
    let out = emitted(packets, segments);
    assert forall|i: int| 0 <= i < out.len() implies {
        &&& (#[trigger] out[i]).num_merged >= 1
        &&& out[i].first < packets.len()
        &&& out[i].num_merged > 1 ==> out[i].checksum_known_invalid
        &&& out[i].num_merged == 1 ==> !out[i].checksum_known_invalid && out[i].packet_bytes()
            == packets[out[i].first as int].bytes@
    } by {
        lemma_flushed_keeps(open[i]);
        assert(open[i].num_merged >= 1);
    }
}

/// Whether none of the first `n` packets has a usable segment.
pub open spec fn none_parsed(packets: Seq<Packet>, segments: Seq<Option<Segment>>, n: nat) -> bool {
    forall|i: int| 0 <= i < n ==> usable(#[trigger] segments[i], packets[i].bytes@).is_none()
}

/// Where no packet of the first `n` parses, each stands alone in the table.
pub proof fn lemma_coalesced_unparsed(packets: Seq<Packet>, segments: Seq<Option<Segment>>, n: nat)
    requires
        n <= packets.len(),
        none_parsed(packets, segments, n),
    ensures
        coalesced(packets, segments, n).len() == n,
        forall|i: int|
            0 <= i < n ==> (#[trigger] coalesced(packets, segments, n)[i]) == fresh_item(
                packets[i].bytes@,
                None,
                i as nat,
            ),
    decreases n,
{
    if n > 0 {
        let m = (n - 1) as nat;
        lemma_coalesced_unparsed(packets, segments, m);
        assert(usable(segments[m as int], packets[m as int].bytes@).is_none());
    }
}

/// A batch in which no packet parses comes out packet for packet: as many
/// items as packets, each one packet, unmodified and in its place.
pub proof fn lemma_unparsed_batch_passes_through(packets: Seq<Packet>, segments: Seq<Option<Segment>>)
    requires
        none_parsed(packets, segments, packets.len()),
    ensures
        emitted(packets, segments).len() == packets.len(),
        forall|i: int|
            0 <= i < packets.len() ==> {
                &&& (#[trigger] emitted(packets, segments)[i]).num_merged == 1
                &&& emitted(packets, segments)[i].first == i
                &&& !emitted(packets, segments)[i].checksum_known_invalid
                &&& emitted(packets, segments)[i].packet_bytes() == packets[i].bytes@
            },
{
    lemma_coalesced_unparsed(packets, segments, packets.len());
    let open = coalesced(packets, segments, packets.len());
    assert forall|i: int| 0 <= i < packets.len() implies {
        &&& (#[trigger] emitted(packets, segments)[i]).num_merged == 1
        &&& emitted(packets, segments)[i].first == i
        &&& !emitted(packets, segments)[i].checksum_known_invalid
        &&& emitted(packets, segments)[i].packet_bytes() == packets[i].bytes@
    } by {
        assert(open[i] == fresh_item(packets[i].bytes@, None, i as nat));
        lemma_flushed_keeps(open[i]);
        assert(open[i].packet_bytes() =~= packets[i].bytes@);
    }
}

/// The payloads of the first `n` packets, one after the other.
pub open spec fn payloads(packets: Seq<Packet>, segments: Seq<Option<Segment>>, n: nat) -> Seq<u8>
    decreases n,
{
    if n == 0 {
        Seq::<u8>::empty()
    } else {
        payloads(packets, segments, (n - 1) as nat) + payload_of_segment(
            segments[n - 1].unwrap(),
            packets[n - 1].bytes@,
        )
    }
}

/// Whether the first `n` packets are segments of one flow that can all be
/// merged: each is the segment `flow` (the same flow key and the same header
/// layout), and the headers of the first with all the payloads fit one
/// packet.
pub open spec fn one_flow(packets: Seq<Packet>, segments: Seq<Option<Segment>>, flow: Segment, n: nat) -> bool {
    &&& 1 <= n <= packets.len()
    &&& n <= u32::MAX
    &&& forall|i: int|
        0 <= i < n ==> #[trigger] segments[i] == Some(flow) && flow.fits(packets[i].bytes@)
    &&& flow.ip_header_len + UDP_HEADER_LEN + payloads(packets, segments, n).len()
        <= MAX_PACKET_LEN
}

/// The first `n` packets of one flow, all of which can be merged, make one
/// open item that holds them all.
pub proof fn lemma_coalesced_one_flow(packets: Seq<Packet>, segments: Seq<Option<Segment>>, flow: Segment, n: nat)
    requires
        one_flow(packets, segments, flow, n),
    ensures
        coalesced(packets, segments, n).len() == 1,
        coalesced(packets, segments, n)[0].num_merged == n,
        coalesced(packets, segments, n)[0].first == 0,
        coalesced(packets, segments, n)[0].segment == Some(flow),
        coalesced(packets, segments, n)[0].header == packets[0].bytes@.subrange(
            0,
            flow.ip_header_len + UDP_HEADER_LEN,
        ),
        coalesced(packets, segments, n)[0].data == payloads(packets, segments, n),
        coalesced(packets, segments, n)[0].checksum_known_invalid == (n > 1),
    decreases n,
{
    assert(segments[0] == Some(flow));
    assert(usable(segments[0], packets[0].bytes@) == Some(flow));
    if n == 1 {
        let empty = coalesced(packets, segments, 0);
        assert(empty.len() == 0);
        assert(active_index(empty, flow.key, 0) == -1);
        assert(payloads(packets, segments, 0).len() == 0);
        assert(payloads(packets, segments, 1) =~= payload_of_segment(flow, packets[0].bytes@));
        assert(coalesced(packets, segments, 1) == empty.push(
            fresh_item(packets[0].bytes@, Some(flow), 0),
        ));
    } else {
        let m = (n - 1) as nat;
        assert(segments[m as int] == Some(flow));
        assert(one_flow(packets, segments, flow, m));
        lemma_coalesced_one_flow(packets, segments, flow, m);
        let before = coalesced(packets, segments, m);
        let bytes = packets[m as int].bytes@;
        assert(usable(segments[m as int], bytes) == Some(flow));
        assert(active_index(before, flow.key, 0) == -1);
        assert(active_index(before, flow.key, 1) == 0);
        assert(can_absorb(before[0], flow, payload_of_segment(flow, bytes)));
        assert(coalesced(packets, segments, n) == before.update(
            0,
            absorbed(before[0], payload_of_segment(flow, bytes)),
        ));
    }
}

/// A batch of one flow, all of whose packets can be merged, comes out as one
/// item that counts every packet of the batch and whose data is their
/// payloads in arrival order.
pub proof fn lemma_one_flow_merges(packets: Seq<Packet>, segments: Seq<Option<Segment>>, flow: Segment)
    requires
        one_flow(packets, segments, flow, packets.len()),
    ensures
        emitted(packets, segments).len() == 1,
        emitted(packets, segments)[0].num_merged == packets.len(),
        emitted(packets, segments)[0].data == payloads(packets, segments, packets.len()),
        emitted(packets, segments)[0].checksum_known_invalid == (packets.len() > 1),
{
    lemma_coalesced_one_flow(packets, segments, flow, packets.len());
    lemma_flushed_keeps(coalesced(packets, segments, packets.len())[0]);
}

} // verus!
