//! The wire format: big-endian field encodings, the byte layout of packets
//! and of whole packet sequences, and the round-trip law.

use vstd::prelude::*;

use crate::metadata::Metadata;

verus! {

/// The four big-endian bytes of a 32-bit unsigned value.
pub open spec fn u32_be(v: u32) -> Seq<u8> {
    seq![
        (v as int / 0x100_0000) as u8,
        ((v as int / 0x1_0000) % 0x100) as u8,
        ((v as int / 0x100) % 0x100) as u8,
        (v as int % 0x100) as u8,
    ]
}

/// The 32-bit unsigned value with the given big-endian bytes.
pub open spec fn u32_of_be(b0: u8, b1: u8, b2: u8, b3: u8) -> u32 {
    (b0 * 0x100_0000 + b1 * 0x1_0000 + b2 * 0x100 + b3) as u32
}

/// The unsigned 32-bit pattern that stands for a signed id on the wire
/// (two's complement).
pub open spec fn id_bits(id: i32) -> u32 {
    if id >= 0 {
        id as u32
    } else {
        (id + 0x1_0000_0000) as u32
    }
}

/// The signed id whose wire pattern is the given 32-bit value.
pub open spec fn id_of_bits(b: u32) -> i32 {
    if b <= 0x7FFF_FFFF {
        b as i32
    } else {
        (b - 0x1_0000_0000) as i32
    }
}

/// The nine header bytes of a packet: flags, big-endian length, big-endian id.
pub open spec fn header_bytes(flags: u8, len: u32, id: i32) -> Seq<u8> {
    seq![flags] + u32_be(len) + u32_be(id_bits(id))
}

/// A payload short enough for its length to fit in the four length bytes.
pub open spec fn encodable(payload: Seq<u8>) -> bool {
    payload.len() <= u32::MAX
}

/// The full wire bytes of one packet: header, then the payload.
pub open spec fn packet_bytes(payload: Seq<u8>, m: Metadata) -> Seq<u8>
    recommends
        encodable(payload),
{
    header_bytes(m.flags, payload.len() as u32, m.id) + payload
}

/// The end-of-stream marker: nine zero bytes in place of a header.
pub open spec fn eos_bytes() -> Seq<u8> {
    seq![0u8, 0u8, 0u8, 0u8, 0u8, 0u8, 0u8, 0u8, 0u8]
}

/// The wire bytes of a sequence of packets, without a terminating marker.
pub open spec fn items_bytes(items: Seq<(Seq<u8>, Metadata)>) -> Seq<u8>
    decreases items.len(),
{
    if items.len() == 0 {
        Seq::empty()
    } else {
        packet_bytes(items[0].0, items[0].1) + items_bytes(items.skip(1))
    }
}

/// The wire bytes of a terminated stream: the packets, then the marker.
pub open spec fn stream_bytes(items: Seq<(Seq<u8>, Metadata)>) -> Seq<u8> {
    items_bytes(items) + eos_bytes()
}

/// A packet whose header is bit-for-bit the end-of-stream marker: empty
/// payload, zero flags, zero id. Such a packet cannot be distinguished from
/// the marker on the wire, so decoding always ends the sequence there.
pub open spec fn marker_like(payload: Seq<u8>, m: Metadata) -> bool {
    payload.len() == 0 && m.flags == 0 && m.id == 0
}

/// Every item's payload fits the length field, and no item collides with the
/// end-of-stream marker.
pub open spec fn valid_items(items: Seq<(Seq<u8>, Metadata)>) -> bool {
    forall|i: int|
        0 <= i < items.len() ==> encodable(#[trigger] items[i].0) && !marker_like(
            items[i].0,
            items[i].1,
        )
}

/// Every item's payload fits the length field.
pub open spec fn encodable_items(items: Seq<(Seq<u8>, Metadata)>) -> bool {
    forall|i: int| 0 <= i < items.len() ==> encodable(#[trigger] items[i].0)
}

/// A 32-bit value is recovered from its four big-endian bytes.
pub proof fn lemma_u32_be_inverse(v: u32)
    ensures
        u32_be(v).len() == 4,
        u32_of_be(u32_be(v)[0], u32_be(v)[1], u32_be(v)[2], u32_be(v)[3]) == v,
{
    assert(v == ((v as int / 0x100_0000) % 0x100) * 0x100_0000 + ((v as int / 0x1_0000) % 0x100)
        * 0x1_0000 + ((v as int / 0x100) % 0x100) * 0x100 + (v as int % 0x100) && v as int
        / 0x100_0000 < 0x100) by (bit_vector);
}

/// A signed id is recovered from its wire pattern.
pub proof fn lemma_id_bits_inverse(id: i32)
    ensures
        id_of_bits(id_bits(id)) == id,
{
}

/// The nine header bytes determine the flags, the length, and the id.
pub proof fn lemma_header_bytes_injective(f1: u8, l1: u32, i1: i32, f2: u8, l2: u32, i2: i32)
    requires
        header_bytes(f1, l1, i1) == header_bytes(f2, l2, i2),
    ensures
        f1 == f2,
        l1 == l2,
        i1 == i2,
{
    let h1 = header_bytes(f1, l1, i1);
    let h2 = header_bytes(f2, l2, i2);
    assert(h1[0] == f1 && h2[0] == f2);
    assert(forall|k: int| 0 <= k < 4 ==> u32_be(l1)[k] == h1[k + 1] && u32_be(l2)[k] == h2[k + 1]);
    assert(forall|k: int|
        0 <= k < 4 ==> u32_be(id_bits(i1))[k] == h1[k + 5] && u32_be(id_bits(i2))[k] == h2[k + 5]);
    lemma_u32_be_inverse(l1);
    lemma_u32_be_inverse(l2);
    lemma_u32_be_inverse(id_bits(i1));
    lemma_u32_be_inverse(id_bits(i2));
    lemma_id_bits_inverse(i1);
    lemma_id_bits_inverse(i2);
}

/// The all-zero header belongs to no packet of a valid item sequence: it is
/// exactly the header of a marker-like packet.
pub proof fn lemma_header_zero_is_marker(flags: u8, len: u32, id: i32)
    requires
        header_bytes(flags, len, id) == eos_bytes(),
    ensures
        flags == 0,
        len == 0,
        id == 0,
{
    lemma_header_bytes_injective(flags, len, id, 0u8, 0u32, 0i32);
    assert(header_bytes(0u8, 0u32, 0i32) =~= eos_bytes());
}

/// The four big-endian bytes of a value assembled from four bytes are those
/// same four bytes.
pub proof fn lemma_u32_of_be_inverse(b0: u8, b1: u8, b2: u8, b3: u8)
    ensures
        u32_be(u32_of_be(b0, b1, b2, b3)) == seq![b0, b1, b2, b3],
{
    assert(((b0 * 0x100_0000 + b1 * 0x1_0000 + b2 * 0x100 + b3) as u32) as int / 0x100_0000 == b0
        && (((b0 * 0x100_0000 + b1 * 0x1_0000 + b2 * 0x100 + b3) as u32) as int / 0x1_0000) % 0x100
        == b1 && (((b0 * 0x100_0000 + b1 * 0x1_0000 + b2 * 0x100 + b3) as u32) as int / 0x100)
        % 0x100 == b2 && ((b0 * 0x100_0000 + b1 * 0x1_0000 + b2 * 0x100 + b3) as u32) as int % 0x100
        == b3) by (bit_vector);
    assert(u32_be(u32_of_be(b0, b1, b2, b3)) =~= seq![b0, b1, b2, b3]);
}

/// A 32-bit wire pattern is recovered from the signed id it stands for.
pub proof fn lemma_id_of_bits_inverse(b: u32)
    ensures
        id_bits(id_of_bits(b)) == b,
{
}

/// Appending an item to a sequence appends its packet to the wire bytes.
pub proof fn lemma_items_bytes_push(items: Seq<(Seq<u8>, Metadata)>, payload: Seq<u8>, m: Metadata)
    ensures
        items_bytes(items.push((payload, m))) == items_bytes(items) + packet_bytes(payload, m),
    decreases items.len(),
{
    let ext = items.push((payload, m));
    let c = packet_bytes(payload, m);
    if items.len() == 0 {
        assert(ext.skip(1) =~= Seq::<(Seq<u8>, Metadata)>::empty());
        assert(ext[0] == (payload, m));
        assert(items_bytes(ext) == c + items_bytes(ext.skip(1)));
        assert(c + Seq::<u8>::empty() =~= Seq::<u8>::empty() + c);
    } else {
        lemma_items_bytes_push(items.skip(1), payload, m);
        assert(ext.skip(1) =~= items.skip(1).push((payload, m)));
        assert(ext[0] == items[0]);
        let a = packet_bytes(items[0].0, items[0].1);
        let b = items_bytes(items.skip(1));
        assert(items_bytes(ext) == a + (b + c));
        assert(a + (b + c) =~= (a + b) + c);
    }
}

/// The round-trip law: a terminated wire stream determines the packet
/// sequence it encodes. Two sequences of in-bounds payloads with the same
/// terminated encoding are the same sequence, so decoding an encoder's
/// output can only give back exactly what was submitted, in order.
pub proof fn lemma_stream_round_trip(xs: Seq<(Seq<u8>, Metadata)>, ys: Seq<(Seq<u8>, Metadata)>)
    requires
        encodable_items(xs),
        encodable_items(ys),
        stream_bytes(xs) == stream_bytes(ys),
    ensures
        xs == ys,
    decreases xs.len(),
{
    if xs.len() == 0 && ys.len() == 0 {
        assert(xs =~= ys);
    } else if xs.len() == 0 {
        assert(stream_bytes(xs).len() == 9);
        assert(items_bytes(ys).len() >= 9);
        assert(false);
    } else if ys.len() == 0 {
        assert(stream_bytes(ys).len() == 9);
        assert(items_bytes(xs).len() >= 9);
        assert(false);
    } else {
        let px = xs[0].0;
        let mx = xs[0].1;
        let py = ys[0].0;
        let my = ys[0].1;
        let hx = header_bytes(mx.flags, px.len() as u32, mx.id);
        let hy = header_bytes(my.flags, py.len() as u32, my.id);
        assert(hx =~= stream_bytes(xs).take(9));
        assert(hy =~= stream_bytes(ys).take(9));
        lemma_header_bytes_injective(
            mx.flags,
            px.len() as u32,
            mx.id,
            my.flags,
            py.len() as u32,
            my.id,
        );
        assert(px.len() == py.len());
        let n = px.len() as int;
        assert(px =~= stream_bytes(xs).subrange(9, 9 + n));
        assert(py =~= stream_bytes(ys).subrange(9, 9 + n));
        assert(xs[0] == ys[0]);
        assert(stream_bytes(xs.skip(1)) =~= stream_bytes(xs).skip(9 + n));
        assert(stream_bytes(ys.skip(1)) =~= stream_bytes(ys).skip(9 + n));
        assert(encodable_items(xs.skip(1)) && encodable_items(ys.skip(1))) by {
            assert(forall|i: int|
                0 <= i < xs.skip(1).len() ==> xs.skip(1)[i] == xs[i + 1] && encodable(
                    #[trigger] xs.skip(1)[i].0,
                ));
            assert(forall|i: int|
                0 <= i < ys.skip(1).len() ==> ys.skip(1)[i] == ys[i + 1] && encodable(
                    #[trigger] ys.skip(1)[i].0,
                ));
        }
        lemma_stream_round_trip(xs.skip(1), ys.skip(1));
        assert(forall|i: int| 1 <= i < xs.len() ==> #[trigger] xs[i] == xs.skip(1)[i - 1]);
        assert(forall|i: int| 1 <= i < ys.len() ==> #[trigger] ys[i] == ys.skip(1)[i - 1]);
        assert(xs =~= ys);
    }
}

/// Computes one big-endian byte of a 32-bit value.
pub fn u32_be_byte(v: u32, i: usize) -> (b: u8)
    requires
        i < 4,
    ensures
        b == u32_be(v)[i as int],
{
    assert(v / 0x100_0000 < 0x100 && (v / 0x1_0000) % 0x100 < 0x100 && (v / 0x100) % 0x100 < 0x100
        && v % 0x100 < 0x100) by (bit_vector);
    if i == 0 {
        (v / 0x100_0000) as u8
    } else if i == 1 {
        ((v / 0x1_0000) % 0x100) as u8
    } else if i == 2 {
        ((v / 0x100) % 0x100) as u8
    } else {
        (v % 0x100) as u8
    }
}

/// Assembles a 32-bit value from its four big-endian bytes.
pub fn be4_to_u32(acc: &Vec<u8>) -> (v: u32)
    requires
        acc@.len() == 4,
    ensures
        v == u32_of_be(acc@[0], acc@[1], acc@[2], acc@[3]),
{
    (acc[0] as u32) * 0x100_0000 + (acc[1] as u32) * 0x1_0000 + (acc[2] as u32) * 0x100 + (acc[3]
        as u32)
}

/// Computes the unsigned wire pattern of a signed id.
pub fn id_to_bits(id: i32) -> (b: u32)
    ensures
        b == id_bits(id),
{
    if id >= 0 {
        id as u32
    } else {
        ((id as i64) + 0x1_0000_0000i64) as u32
    }
}

/// Recovers the signed id from its unsigned wire pattern.
pub fn bits_to_id(b: u32) -> (id: i32)
    ensures
        id == id_of_bits(b),
{
    if b <= 0x7FFF_FFFF {
        b as i32
    } else {
        ((b as i64) - 0x1_0000_0000i64) as i32
    }
}

} // verus!
