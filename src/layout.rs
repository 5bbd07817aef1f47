use vstd::prelude::*;

verus! {

/// Length of the fixed IPv6 header in bytes.
pub const HEADER_SIZE: usize = 40;

/// Largest payload the 16-bit payload length field and the header leave room for.
pub const MAX_PAYLOAD: usize = 65495;

/// Protocol version carried in the top nibble of the first byte.
pub const VERSION: u8 = 6;

/// Largest value of the 20-bit flow label.
pub const FLOW_LABEL_MASK: u32 = 0xfffff;

/// Top nibble of byte 0.
pub open spec fn version_of(s: Seq<u8>) -> int {
    (s[0] as int) / 16
}

/// Low nibble of byte 0 followed by the top nibble of byte 1.
pub open spec fn traffic_class_of(s: Seq<u8>) -> int {
    ((s[0] as int) % 16) * 16 + (s[1] as int) / 16
}

/// Low nibble of byte 1 followed by bytes 2 and 3.
pub open spec fn flow_label_of(s: Seq<u8>) -> int {
    ((s[1] as int) % 16) * 65536 + (s[2] as int) * 256 + (s[3] as int)
}

/// Bytes 4 and 5, big-endian. The field counts the payload bytes only, the 40-byte header
/// excluded.
pub open spec fn payload_length_of(s: Seq<u8>) -> int {
    (s[4] as int) * 256 + (s[5] as int)
}

pub open spec fn next_header_of(s: Seq<u8>) -> int {
    s[6] as int
}

pub open spec fn hop_limit_of(s: Seq<u8>) -> int {
    s[7] as int
}

/// Bytes 8 to 23.
pub open spec fn source_of(s: Seq<u8>) -> Seq<u8> {
    s.subrange(8, 24)
}

/// Bytes 24 to 39.
pub open spec fn destination_of(s: Seq<u8>) -> Seq<u8> {
    s.subrange(24, 40)
}

/// The bytes of a packet past its header, up to the end of the declared payload or of
/// the bytes, whichever comes first.
pub open spec fn payload_of(s: Seq<u8>) -> Seq<u8> {
    s.subrange(HEADER_SIZE as int, size_within(s) as int)
}

/// Header size plus declared payload length: the payload length field excludes the header.
pub open spec fn size_of(s: Seq<u8>) -> int {
    HEADER_SIZE + payload_length_of(s)
}

/// The declared size, cut to the bytes present.
pub open spec fn size_within(s: Seq<u8>) -> int {
    if size_of(s) <= s.len() {
        size_of(s)
    } else {
        s.len() as int
    }
}

/// The header is present and names version 6.
pub open spec fn header_valid(s: Seq<u8>) -> bool {
    s.len() >= HEADER_SIZE && version_of(s) == VERSION
}

/// The header is valid and the bytes hold the header plus the declared payload.
pub open spec fn packet_valid(s: Seq<u8>) -> bool {
    header_valid(s) && size_of(s) <= s.len()
}

/// `s` with the version nibble set to `v`, the rest of byte 0 kept.
pub open spec fn with_version(s: Seq<u8>, v: u8) -> Seq<u8> {
    s.update(0, ((v as int % 16) * 16 + (s[0] as int) % 16) as u8)
}

pub open spec fn with_traffic_class(s: Seq<u8>, v: u8) -> Seq<u8> {
    s.update(0, (((s[0] as int) / 16) * 16 + v as int / 16) as u8).update(1, ((v as int % 16) * 16 + (s[1] as int) % 16) as u8)
}

/// `s` with the low 20 bits of `v` as flow label; higher bits of `v` are ignored.
pub open spec fn with_flow_label(s: Seq<u8>, v: u32) -> Seq<u8> {
    s.update(1, (((s[1] as int) / 16) * 16 + (v as int / 65536) % 16) as u8).update(
        2,
        ((v as int / 256) % 256) as u8,
    ).update(3, (v as int % 256) as u8)
}

pub open spec fn with_payload_length(s: Seq<u8>, v: u16) -> Seq<u8> {
    s.update(4, (v as int / 256) as u8).update(5, (v as int % 256) as u8)
}

pub open spec fn with_next_header(s: Seq<u8>, v: u8) -> Seq<u8> {
    s.update(6, v)
}

pub open spec fn with_hop_limit(s: Seq<u8>, v: u8) -> Seq<u8> {
    s.update(7, v)
}

/// `s` with bytes 8 to 23 replaced by `a`.
pub open spec fn with_source(s: Seq<u8>, a: Seq<u8>) -> Seq<u8> {
    s.subrange(0, 8) + a + s.subrange(24, s.len() as int)
}

/// `s` with bytes 24 to 39 replaced by `a`.
pub open spec fn with_destination(s: Seq<u8>, a: Seq<u8>) -> Seq<u8> {
    s.subrange(0, 24) + a + s.subrange(40, s.len() as int)
}

} // verus!

verus! {

/// A byte made of a high and a low nibble splits back into them.
proof fn lemma_pack(hi: int, lo: int)
    by (nonlinear_arith)
    requires
        0 <= hi < 16,
        0 <= lo < 16,
    ensures
        0 <= hi * 16 + lo < 256,
        (hi * 16 + lo) / 16 == hi,
        (hi * 16 + lo) % 16 == lo,
{
}

/// A byte is its high nibble times sixteen plus its low nibble.
proof fn lemma_split(x: int)
    by (nonlinear_arith)
    requires
        0 <= x < 256,
    ensures
        0 <= x / 16 < 16,
        0 <= x % 16 < 16,
        (x / 16) * 16 + x % 16 == x,
{
}

/// The three low bytes of a 32-bit value, with only the low nibble of the third, give its
/// low 20 bits.
proof fn lemma_low_20_bits(w: u32)
    by (bit_vector)
    ensures
        ((w / 65536) % 16) * 65536 + ((w / 256) % 256) * 256 + w % 256 == w % 0x100000,
{
}

/// Setting the traffic class leaves the flow label and every other field as it was, and
/// reads back; setting the flow label leaves the traffic class and every other field as it
/// was, and reads back as its low 20 bits.
pub proof fn lemma_fields_independent(s: Seq<u8>, tc: u8, fl: u32)
    requires
        s.len() >= HEADER_SIZE,
    ensures
        traffic_class_of(with_traffic_class(s, tc)) == tc,
        flow_label_of(with_traffic_class(s, tc)) == flow_label_of(s),
        version_of(with_traffic_class(s, tc)) == version_of(s),
        with_traffic_class(s, tc).subrange(2, s.len() as int) == s.subrange(2, s.len() as int),
        flow_label_of(with_flow_label(s, fl)) == fl % 0x100000,
        traffic_class_of(with_flow_label(s, fl)) == traffic_class_of(s),
        version_of(with_flow_label(s, fl)) == version_of(s),
        with_flow_label(s, fl)[0] == s[0],
        with_flow_label(s, fl).subrange(4, s.len() as int) == s.subrange(4, s.len() as int),
{
    let a = s[0] as int;
    let b = s[1] as int;
    lemma_split(a);
    lemma_split(b);
    lemma_split(tc as int);
    lemma_pack(a / 16, tc as int / 16);
    lemma_pack(tc as int % 16, b % 16);
    let t = with_traffic_class(s, tc);
    assert(t[0] as int == (a / 16) * 16 + tc as int / 16);
    assert(t[1] as int == (tc as int % 16) * 16 + b % 16);
    assert(t.subrange(2, s.len() as int) =~= s.subrange(2, s.len() as int));
    let hi = (fl as int / 65536) % 16;
    lemma_pack(b / 16, hi);
    lemma_low_20_bits(fl);
    let f = with_flow_label(s, fl);
    assert(f[1] as int == (b / 16) * 16 + hi);
    assert(f.subrange(4, s.len() as int) =~= s.subrange(4, s.len() as int));
}

} // verus!
