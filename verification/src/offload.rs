//! Receive-offload coalescing: consecutive UDP packets of one flow in a
//! batch are merged into one larger packet, and the batch comes out in the
//! order in which its flows were first seen.

use vstd::prelude::*;
use vstd::slice::slice_subrange;
use bytes::BytesMut;
use crate::buffer::{buffer_bytes, buffer_contents, buffer_extend, buffer_len, buffer_new};
use crate::bytes_util::{append, be16, to_be16};
use crate::headers::{
    classify, classify_spec, FlowKey, Packet, Segment, UdpFlowKey, MAX_PACKET_LEN, UDP_HEADER_LEN,
};

verus! {

/// One packet of the outgoing batch while it is being put together.
pub struct UdpGroItem {
    /// How many packets of the batch this item holds.
    pub num_merged: u32,
    /// Position in the batch of the first of them.
    pub first: usize,
    /// The flow and header layout of the first of them; `None` for a packet
    /// that is passed through unparsed.
    pub segment: Option<Segment>,
    /// IP and UDP header of the first of them; empty for a packet that is
    /// passed through unparsed.
    pub header: Vec<u8>,
    /// Set once the transport checksum no longer covers `data`.
    pub checksum_known_invalid: bool,
    /// The payloads, in arrival order; for a packet passed through unparsed,
    /// the whole packet.
    pub data: BytesMut,
}

/// An item as a mathematical value.
pub ghost struct ItemView {
    pub num_merged: nat,
    pub first: nat,
    pub segment: Option<Segment>,
    pub header: Seq<u8>,
    pub checksum_known_invalid: bool,
    pub data: Seq<u8>,
}

impl View for UdpGroItem {
    type V = ItemView;

    open spec fn view(&self) -> ItemView {
        ItemView {
            num_merged: self.num_merged as nat,
            first: self.first as nat,
            segment: self.segment,
            header: self.header@,
            checksum_known_invalid: self.checksum_known_invalid,
            data: buffer_contents(self.data),
        }
    }
}

impl ItemView {
    /// The packet that the item stands for, header first.
    pub open spec fn packet_bytes(self) -> Seq<u8> {
        self.header + self.data
    }

    /// What holds of every item of a table.
    pub open spec fn wf(self) -> bool {
        &&& self.num_merged >= 1
        &&& self.num_merged == 1 <==> !self.checksum_known_invalid
        &&& match self.segment {
            None => self.header.len() == 0 && self.num_merged == 1,
            Some(s) => {
                &&& s.min_ip_header_len() <= s.ip_header_len
                &&& self.header.len() == s.ip_header_len + UDP_HEADER_LEN
                &&& self.header.len() + self.data.len() <= MAX_PACKET_LEN
            },
        }
    }
}

/// The views of the items of a table, in order.
pub open spec fn views(items: Seq<UdpGroItem>) -> Seq<ItemView> {
    Seq::new(items.len(), |i: int| items[i]@)
}

/// The segment as far as it can be used for these bytes.
pub open spec fn usable(segment: Option<Segment>, bytes: Seq<u8>) -> Option<Segment> {
    match segment {
        Some(s) => if s.fits(bytes) {
            Some(s)
        } else {
            None
        },
        None => None,
    }
}

/// The payload of a segment: what follows its UDP header.
pub open spec fn payload_of_segment(s: Segment, bytes: Seq<u8>) -> Seq<u8> {
    bytes.subrange(s.ip_header_len + UDP_HEADER_LEN, bytes.len() as int)
}

/// The item that a packet starts, at position `index` of the batch.
pub open spec fn fresh_item(bytes: Seq<u8>, segment: Option<Segment>, index: nat) -> ItemView {
    match segment {
        Some(s) => ItemView {
            num_merged: 1,
            first: index,
            segment: Some(s),
            header: bytes.subrange(0, s.ip_header_len + UDP_HEADER_LEN),
            checksum_known_invalid: false,
            data: payload_of_segment(s, bytes),
        },
        None => ItemView {
            num_merged: 1,
            first: index,
            segment: None,
            header: Seq::<u8>::empty(),
            checksum_known_invalid: false,
            data: bytes,
        },
    }
}

/// Whether an item can take the payload of one more segment: the segment
/// is of the item's flow and its headers are laid out as the item's, so that
/// the item's header can stand for both; the merged packet's length still
/// fits the length fields; and the count does not overflow.
pub open spec fn can_absorb(item: ItemView, segment: Segment, payload: Seq<u8>) -> bool {
    &&& item.segment == Some(segment)
    &&& item.num_merged < u32::MAX
    &&& item.header.len() + item.data.len() + payload.len() <= MAX_PACKET_LEN
}

/// The item after it took one more payload.
pub open spec fn absorbed(item: ItemView, payload: Seq<u8>) -> ItemView {
    ItemView {
        num_merged: item.num_merged + 1,
        checksum_known_invalid: true,
        data: item.data + payload,
        ..item
    }
}

/// Position of the open item of a flow among the first `n` items: the last
/// one that was started for that key, or -1.
pub open spec fn active_index(items: Seq<ItemView>, key: UdpFlowKey, n: nat) -> int
    decreases n,
{
    if n == 0 {
        -1
    } else if items[n - 1].segment matches Some(s) && s.key == key {
        n - 1
    } else {
        active_index(items, key, (n - 1) as nat)
    }
}

/// The table after one more packet: the packet joins the open item of its
/// flow where that item can take it, and starts an item of its own at the
/// end otherwise.
pub open spec fn step(items: Seq<ItemView>, bytes: Seq<u8>, segment: Option<Segment>, index: nat) -> Seq<ItemView> {
    match usable(segment, bytes) {
        None => items.push(fresh_item(bytes, None, index)),
        Some(s) => {
            let at = active_index(items, s.key, items.len());
            if at >= 0 && can_absorb(items[at], s, payload_of_segment(s, bytes)) {
                items.update(at, absorbed(items[at], payload_of_segment(s, bytes)))
            } else {
                items.push(fresh_item(bytes, Some(s), index))
            }
        },
    }
}

/// The table after the first `n` packets of a batch.
pub open spec fn coalesced(packets: Seq<Packet>, segments: Seq<Option<Segment>>, n: nat) -> Seq<ItemView>
    decreases n,
{
    if n == 0 {
        Seq::<ItemView>::empty()
    } else {
        step(
            coalesced(packets, segments, (n - 1) as nat),
            packets[n - 1].bytes@,
            segments[n - 1],
            (n - 1) as nat,
        )
    }
}

/// The header of a merged item with its length fields set for `data_len`
/// bytes of payload: the UDP length, and the total length of IPv4 or the
/// payload length of IPv6.
pub open spec fn rewrite_lengths(header: Seq<u8>, s: Segment, data_len: nat) -> Seq<u8> {
    let h = s.ip_header_len as int;
    let udp = be16((UDP_HEADER_LEN + data_len) as u16);
    let with_udp = header.update(h + 4, udp[0]).update(h + 5, udp[1]);
    if s.ipv6 {
        let ip = be16((header.len() - 40 + data_len) as u16);
        with_udp.update(4, ip[0]).update(5, ip[1])
    } else {
        let ip = be16((header.len() + data_len) as u16);
        with_udp.update(2, ip[0]).update(3, ip[1])
    }
}

/// The item as it leaves the table: a merged item gets its length fields
/// rewritten, a single packet is left as it came.
pub open spec fn flushed(item: ItemView) -> ItemView {
    match item.segment {
        Some(s) if item.num_merged > 1 => ItemView {
            header: rewrite_lengths(item.header, s, item.data.len()),
            ..item
        },
        _ => item,
    }
}

/// What a batch comes out as.
pub open spec fn emitted(packets: Seq<Packet>, segments: Seq<Option<Segment>>) -> Seq<ItemView> {
    coalesced(packets, segments, packets.len()).map_values(|item: ItemView| flushed(item))
}

/// The segments of a batch as `classify` finds them.
pub open spec fn classified(packets: Seq<Packet>) -> Seq<Option<Segment>> {
    Seq::new(packets.len(), |i: int| classify_spec(packets[i].bytes@, packets[i].recv_ack))
}

impl UdpGroItem {
    /// Starts an item from one packet.
    pub fn start(bytes: &[u8], segment: Option<Segment>, index: usize) -> (r: UdpGroItem)
        requires
            segment matches Some(s) ==> s.fits(bytes@),
        ensures
            r@ == fresh_item(bytes@, segment, index as nat),
            r@.wf(),
    {
        let mut data = buffer_new();
        let mut header: Vec<u8> = Vec::new();
        match segment {
            Some(s) => {
                let split: usize = s.ip_header_len + UDP_HEADER_LEN;
                append(&mut header, slice_subrange(bytes, 0, split));
                buffer_extend(&mut data, slice_subrange(bytes, split, bytes.len()));
            },
            None => {
                let len: usize = bytes.len();
                assert(bytes@.len() == len);
                buffer_extend(&mut data, bytes);
            },
        }
        let r = UdpGroItem {
            num_merged: 1,
            first: index,
            segment,
            header,
            checksum_known_invalid: false,
            data,
        };
        assert(r@.data =~= fresh_item(bytes@, segment, index as nat).data);
        assert(r@.header =~= fresh_item(bytes@, segment, index as nat).header);
        r
    }

    /// Whether the item can take `payload`, the payload of `segment`, as well.
    pub fn can_take(&self, segment: &Segment, payload: &[u8]) -> (r: bool)
        requires
            self@.wf(),
        ensures
            r == can_absorb(self@, *segment, payload@),
    {
        let same = match self.segment {
            Some(own) => own == *segment,
            None => false,
        };
        same && self.num_merged < u32::MAX && payload.len() <= MAX_PACKET_LEN
            && self.header.len() + buffer_len(&self.data) <= MAX_PACKET_LEN - payload.len()
    }

    /// Appends one more payload to the item.
    pub fn take(&mut self, payload: &[u8])
        requires
            old(self)@.wf(),
            old(self)@.segment.is_some(),
            old(self)@.num_merged < u32::MAX,
            old(self)@.header.len() + old(self)@.data.len() + payload@.len() <= MAX_PACKET_LEN,
        ensures
            final(self)@ == absorbed(old(self)@, payload@),
            final(self)@.wf(),
    {
        buffer_extend(&mut self.data, payload);
        self.num_merged = self.num_merged + 1;
        self.checksum_known_invalid = true;
    }

    /// Prepares the item for emission.
    pub fn flush(&mut self)
        requires
            old(self)@.wf(),
        ensures
            final(self)@ == flushed(old(self)@),
    {
        match self.segment {
            Some(s) => {
                if self.num_merged > 1 {
                    let h: usize = s.ip_header_len;
                    let data_len: usize = buffer_len(&self.data);
                    let udp = to_be16((UDP_HEADER_LEN + data_len) as u16);
                    self.header.set(h + 4, udp.0);
                    self.header.set(h + 5, udp.1);
                    if s.ipv6 {
                        let ip = to_be16((self.header.len() - 40 + data_len) as u16);
                        self.header.set(4, ip.0);
                        self.header.set(5, ip.1);
                    } else {
                        let ip = to_be16((self.header.len() + data_len) as u16);
                        self.header.set(2, ip.0);
                        self.header.set(3, ip.1);
                    }
                }
            },
            None => {},
        }
    }

    /// The packet that the item stands for: its header, then its data.
    pub fn to_bytes(&self) -> (r: Vec<u8>)
        ensures
            r@ == self@.packet_bytes(),
    {
        let mut out: Vec<u8> = Vec::new();
        append(&mut out, self.header.as_slice());
        append(&mut out, buffer_bytes(&self.data));
        out
    }
}

/// The flow that an item belongs to, if it has one.
pub open spec fn flow_of(item: ItemView) -> Option<UdpFlowKey> {
    match item.segment {
        Some(s) => Some(s.key),
        None => None,
    }
}

/// Position of the last of the first `n` keys that is `key`, or -1.
pub open spec fn last_with_key<K>(keys: Seq<Option<K>>, key: K, n: nat) -> int
    decreases n,
{
    if n == 0 {
        -1
    } else if keys[n - 1] == Some(key) {
        n - 1
    } else {
        last_with_key(keys, key, (n - 1) as nat)
    }
}

/// The table of open items of one batch, in the order in which they were
/// started, each with the key of its flow. `keys[i]` belongs to `items[i]`;
/// an item without a flow has no key. Between batches the table is empty.
pub struct GroTable<K, I> {
    pub keys: Vec<Option<K>>,
    pub items: Vec<I>,
}

/// The table specialised to UDP flows.
pub type UdpGroTable = GroTable<UdpFlowKey, UdpGroItem>;

impl<K: FlowKey, I> GroTable<K, I> {
    /// An empty table.
    pub fn new() -> (r: Self)
        ensures
            r.keys@.len() == 0,
            r.items@.len() == 0,
    {
        GroTable { keys: Vec::new(), items: Vec::new() }
    }

    /// Finds the open item of a flow: the last one started under `key`.
    pub fn find_active(&self, key: &K) -> (r: Option<usize>)
        ensures
            match r {
                Some(at) => at == last_with_key(self.keys@, *key, self.keys@.len()),
                None => last_with_key(self.keys@, *key, self.keys@.len()) == -1,
            },
            r matches Some(at) ==> at < self.keys@.len(),
    {
        let mut n: usize = self.keys.len();
        while n > 0
            invariant
                n <= self.keys@.len(),
                last_with_key(self.keys@, *key, self.keys@.len()) == last_with_key(
                    self.keys@,
                    *key,
                    n as nat,
                ),
            decreases n,
        {
            let hit = match &self.keys[n - 1] {
                Some(k) => k.same_flow(key),
                None => false,
            };
            if hit {
                return Some(n - 1);
            }
            n = n - 1;
        }
        None
    }

    /// Starts an item at the end of the table.
    pub fn open(&mut self, key: Option<K>, item: I)
        ensures
            final(self).keys@ == old(self).keys@.push(key),
            final(self).items@ == old(self).items@.push(item),
    {
        self.keys.push(key);
        self.items.push(item);
    }

    /// Hands out the items in the order in which they were started and
    /// leaves the table empty.
    pub fn take_items(&mut self) -> (r: Vec<I>)
        ensures
            r@ == old(self).items@,
            final(self).keys@.len() == 0,
            final(self).items@.len() == 0,
    {
        let mut out: Vec<I> = Vec::new();
        std::mem::swap(&mut self.items, &mut out);
        self.keys.clear();
        out
    }
}

/// Where every key is the flow of its item, the last item under a key is
/// the open item of that flow.
pub proof fn lemma_last_with_key_is_active(keys: Seq<Option<UdpFlowKey>>, items: Seq<ItemView>, key: UdpFlowKey, n: nat)
    requires
        n <= keys.len() == items.len(),
        forall|i: int| 0 <= i < keys.len() ==> #[trigger] keys[i] == flow_of(items[i]),
    ensures
        last_with_key(keys, key, n) == active_index(items, key, n),
    decreases n,
{
    if n > 0 {
        lemma_last_with_key_is_active(keys, items, key, (n - 1) as nat);
    }
}

impl GroTable<UdpFlowKey, UdpGroItem> {
    /// What holds of a table of UDP items: every item is well formed and
    /// stands under the key of its flow.
    pub open spec fn wf(&self) -> bool {
        &&& self.keys@.len() == self.items@.len()
        &&& forall|k: int| 0 <= k < self.items@.len() ==> (#[trigger] self.items@[k])@.wf()
        &&& forall|k: int| 0 <= k < self.items@.len() ==> #[trigger] self.keys@[k] == flow_of(self.items@[k]@)
    }

    /// Takes one packet into the table.
    pub fn ingest(&mut self, bytes: &[u8], segment: Option<Segment>, index: usize)
        requires
            old(self).wf(),
        ensures
            final(self).wf(),
            views(final(self).items@) == step(views(old(self).items@), bytes@, segment, index as nat),
    {
        let ghost before = views(self.items@);
        let usable_segment = match segment {
            Some(s) => if s.check_fits(bytes) {
                Some(s)
            } else {
                None
            },
            None => None,
        };
        match usable_segment {
            Some(s) => {
                let payload = slice_subrange(bytes, s.ip_header_len + UDP_HEADER_LEN, bytes.len());
                proof {
                    lemma_last_with_key_is_active(self.keys@, before, s.key, self.keys@.len());
                }
                match self.find_active(&s.key) {
                    Some(at) => {
                        if self.items[at].can_take(&s, payload) {
                            let item = &mut self.items[at];
                            item.take(payload);
                            assert(views(self.items@) =~= before.update(
                                at as int,
                                absorbed(before[at as int], payload@),
                            ));
                            return ;
                        }
                    },
                    None => {},
                }
                let item = UdpGroItem::start(bytes, Some(s), index);
                self.open(Some(s.key), item);
                assert(views(self.items@) =~= before.push(fresh_item(bytes@, Some(s), index as nat)));
            },
            None => {
                let item = UdpGroItem::start(bytes, None, index);
                self.open(None, item);
                assert(views(self.items@) =~= before.push(fresh_item(bytes@, None, index as nat)));
            },
        }
    }

    /// Coalesces a batch whose packets were classified by the caller.
    /// `segments[i]` describes `packets[i]`; `None` marks a packet whose
    /// headers did not parse, which is passed through as it is. The table is
    /// empty again afterwards.
    pub fn ingest_parsed(&mut self, packets: &Vec<Packet>, segments: &Vec<Option<Segment>>) -> (r: Vec<UdpGroItem>)
        requires
            segments@.len() == packets@.len(),
        ensures
            views(r@) == emitted(packets@, segments@),
            final(self).items@.len() == 0,
            final(self).keys@.len() == 0,
    {
        self.keys.clear();
        self.items.clear();
        let mut i: usize = 0;
        while i < packets.len()
            invariant
                i <= packets@.len(),
                segments@.len() == packets@.len(),
                self.wf(),
                views(self.items@) == coalesced(packets@, segments@, i as nat),
            decreases packets@.len() - i,
        {
            self.ingest(packets[i].bytes.as_slice(), segments[i], i);
            i += 1;
        }
        let ghost open = views(self.items@);
        let mut j: usize = 0;
        while j < self.items.len()
            invariant
                j <= self.items@.len(),
                self.items@.len() == open.len(),
                forall|k: int| 0 <= k < j ==> (#[trigger] self.items@[k])@ == flushed(open[k]),
                forall|k: int| j <= k < self.items@.len() ==> (#[trigger] self.items@[k])@ == open[k],
                forall|k: int| j <= k < self.items@.len() ==> (#[trigger] self.items@[k])@.wf(),
            decreases self.items@.len() - j,
        {
            let item = &mut self.items[j];
            item.flush();
            j += 1;
        }
        let out = self.take_items();
        assert(views(out@) =~= emitted(packets@, segments@));
        out
    }

    /// Coalesces a batch of raw packets: each is classified by its headers,
    /// then the batch is coalesced as `ingest_parsed` does.
    pub fn ingest_batch(&mut self, packets: &Vec<Packet>) -> (r: Vec<UdpGroItem>)
        ensures
            views(r@) == emitted(packets@, classified(packets@)),
            final(self).items@.len() == 0,
            final(self).keys@.len() == 0,
    {
        let mut segments: Vec<Option<Segment>> = Vec::new();
        let mut i: usize = 0;
        while i < packets.len()
            invariant
                i <= packets@.len(),
                segments@.len() == i,
                forall|k: int| 0 <= k < i ==> #[trigger] segments@[k] == classify_spec(packets@[k].bytes@, packets@[k].recv_ack),
            decreases packets@.len() - i,
        {
            segments.push(classify(&packets[i]));
            i += 1;
        }
        assert(segments@ =~= classified(packets@));
        self.ingest_parsed(packets, &segments)
    }
}

} // verus!
