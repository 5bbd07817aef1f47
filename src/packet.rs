use vstd::prelude::*;
use vstd::slice::{slice_subrange, slice_to_vec};

use crate::buffer::{Octets, OctetsMut};
use crate::error::Error;
use crate::layout::{
    destination_of, flow_label_of, header_valid, hop_limit_of, next_header_of, packet_valid,
    payload_length_of, payload_of, size_of, size_within, source_of, traffic_class_of, version_of,
    with_destination, with_flow_label, with_hop_limit, with_next_header, with_payload_length,
    with_source, with_traffic_class, FLOW_LABEL_MASK, HEADER_SIZE, MAX_PAYLOAD, VERSION,
};

verus! {

/// Byte-level facts behind the field accessors.
proof fn lemma_read_bits(b0: u8, b1: u8, b2: u8, b3: u8, b4: u8, b5: u8)
    by (bit_vector)
    ensures
        b0 >> 4 == b0 / 16,
        (b0 << 4 | b1 >> 4) == ((b0 % 16) * 16 + b1 / 16) as u8,
        ((b1 as u32) << 16 | (b2 as u32) << 8 | b3 as u32) & 0xfffff == ((b1 % 16) as u32)
            * 65536 + (b2 as u32) * 256 + b3 as u32,
        ((b4 as u16) << 8 | b5 as u16) == (b4 as u16) * 256 + b5 as u16,
{
}

/// Byte-level facts behind the traffic class mutator.
proof fn lemma_write_traffic_class(old0: u8, old1: u8, v: u8)
    by (bit_vector)
    ensures
        ((old0 & 0xf0) | ((v & 0xf0) >> 4)) == ((old0 / 16) * 16 + v / 16) as u8,
        ((old1 & 0x0f) | ((v & 0x0f) << 4)) == ((v % 16) * 16 + old1 % 16) as u8,
{
}

/// Byte-level facts behind the flow label mutator: merging the top nibble of byte 1.
proof fn lemma_write_flow_label(old1: u8, hi: u8)
    by (bit_vector)
    requires
        hi < 16,
    ensures
        ((old1 & 0xf0) | hi) == ((old1 / 16) * 16 + hi) as u8,
{
}

/// Byte-level facts behind the flow label mutator: the low three bytes of a 32-bit value.
proof fn lemma_u32_bytes(w: u32)
    by (bit_vector)
    ensures
        (w >> 16) & 0x0f == (w / 65536) % 16,
        (w >> 8) & 0xff == (w / 256) % 256,
        w & 0xff == w % 256,
{
}

/// Byte-level facts behind the payload length mutator.
proof fn lemma_u16_bytes(x: u16)
    by (bit_vector)
    ensures
        x >> 8 == x / 256,
        x & 0xff == x % 256,
{
}

/// A view of an IPv6 packet over a buffer of bytes.
#[derive(Clone)]
pub struct Packet<B> {
    buffer: B,
}

impl<B: Octets> Packet<B> {
    /// The buffer the packet is a view of.
    pub closed spec fn buffer(&self) -> B {
        self.buffer
    }

    /// The bytes the packet is a view of.
    pub open spec fn bytes(&self) -> Seq<u8> {
        self.buffer().octets()
    }

    /// Wraps `buffer` without checking it.
    pub fn unchecked(buffer: B) -> (r: Packet<B>)
        ensures
            r.buffer() == buffer,
    {
        Packet { buffer }
    }

    /// Gives up the view, handing back the buffer.
    pub fn into_inner(self) -> (r: B)
        ensures
            r.octets() == self.bytes(),
    {
        self.buffer
    }

    /// Parses the header of an IPv6 packet, leaving the payload unchecked.
    pub fn no_payload(buffer: B) -> (r: Result<Packet<B>, Error>)
        ensures
            r is Ok <==> header_valid(buffer.octets()),
            buffer.octets().len() < HEADER_SIZE ==> r == Err::<Packet<B>, Error>(
                Error::SmallBuffer,
            ),
            buffer.octets().len() >= HEADER_SIZE && version_of(buffer.octets()) != VERSION ==> r
                == Err::<Packet<B>, Error>(Error::InvalidPacket),
            r matches Ok(p) ==> p.bytes() == buffer.octets(),
    {
        let packet = Packet::unchecked(buffer);
        let d = packet.buffer.as_octets();
        if d.len() < HEADER_SIZE {
            return Err(Error::SmallBuffer);
        }
        if d[0] >> 4 != VERSION {
            proof {
                lemma_read_bits(d@[0], 0, 0, 0, 0, 0);
            }
            return Err(Error::InvalidPacket);
        }
        proof {
            lemma_read_bits(d@[0], 0, 0, 0, 0, 0);
        }
        Ok(packet)
    }

    /// Parses an IPv6 packet, checking that the bytes hold the header and the whole declared
    /// payload.
    pub fn new(buffer: B) -> (r: Result<Packet<B>, Error>)
        ensures
            r is Ok <==> packet_valid(buffer.octets()),
            buffer.octets().len() < HEADER_SIZE ==> r == Err::<Packet<B>, Error>(
                Error::SmallBuffer,
            ),
            buffer.octets().len() >= HEADER_SIZE && version_of(buffer.octets()) != VERSION ==> r
                == Err::<Packet<B>, Error>(Error::InvalidPacket),
            header_valid(buffer.octets()) && buffer.octets().len() < size_of(buffer.octets()) ==> r
                == Err::<Packet<B>, Error>(Error::SmallBuffer),
            r matches Ok(p) ==> p.bytes() == buffer.octets(),
    {
        let packet = Packet::no_payload(buffer)?;
        if packet.buffer.as_octets().len() < HEADER_SIZE + packet.payload_length() as usize {
            return Err(Error::SmallBuffer);
        }
        Ok(packet)
    }

    /// Copies the bytes into a packet that owns them.
    pub fn to_owned(&self) -> (r: Packet<Vec<u8>>)
        ensures
            r.bytes() == self.bytes(),
    {
        Packet::unchecked(slice_to_vec(self.buffer.as_octets()))
    }

    /// Smallest size of a packet: the header with an empty payload.
    pub fn min() -> (r: usize)
        ensures
            r == HEADER_SIZE,
    {
        HEADER_SIZE
    }

    /// Largest size of a packet: the header with the largest payload.
    pub fn max() -> (r: usize)
        ensures
            r == HEADER_SIZE + MAX_PAYLOAD,
    {
        HEADER_SIZE + MAX_PAYLOAD
    }

    /// Size of the payload, as the header declares it.
    pub fn payload_size(&self) -> (r: usize)
        requires
            self.bytes().len() >= HEADER_SIZE,
        ensures
            r == payload_length_of(self.bytes()),
    {
        self.payload_length() as usize
    }

    /// Size of the packet, as the header declares it: header plus payload.
    pub fn size(&self) -> (r: usize)
        requires
            self.bytes().len() >= HEADER_SIZE,
        ensures
            r == size_of(self.bytes()),
            r >= HEADER_SIZE,
            payload_length_of(self.bytes()) == 0 ==> r == HEADER_SIZE,
    {
        HEADER_SIZE + self.payload_size()
    }

    /// The packet's bytes, up to its declared size or the end of the buffer.
    pub fn as_ref(&self) -> (r: &[u8])
        requires
            self.bytes().len() >= HEADER_SIZE,
        ensures
            r@ == self.bytes().subrange(0, size_within(self.bytes())),
    {
        let size = self.size();
        let d = self.buffer.as_octets();
        if size <= d.len() {
            slice_subrange(d, 0, size)
        } else {
            d
        }
    }

    /// The bytes past the header, up to the declared payload length or the end of the buffer.
    pub fn payload(&self) -> (r: &[u8])
        requires
            self.bytes().len() >= HEADER_SIZE,
        ensures
            r@ == payload_of(self.bytes()),
    {
        let size = self.size();
        let d = self.buffer.as_octets();
        if size <= d.len() {
            slice_subrange(d, HEADER_SIZE, size)
        } else {
            slice_subrange(d, HEADER_SIZE, d.len())
        }
    }

    /// Splits the bytes into the header and everything after it.
    pub fn split(&self) -> (r: (&[u8], &[u8]))
        requires
            self.bytes().len() >= HEADER_SIZE,
        ensures
            r.0@ == self.bytes().subrange(0, HEADER_SIZE as int),
            r.1@ == self.bytes().subrange(HEADER_SIZE as int, self.bytes().len() as int),
    {
        self.buffer.as_octets().split_at(HEADER_SIZE)
    }

    /// IP protocol version; 6 for a parsed packet.
    pub fn version(&self) -> (r: u8)
        requires
            self.bytes().len() >= HEADER_SIZE,
        ensures
            r == version_of(self.bytes()),
    {
        let d = self.buffer.as_octets();
        proof {
            lemma_read_bits(d@[0], 0, 0, 0, 0, 0);
        }
        d[0] >> 4
    }

    /// The 8-bit traffic class.
    pub fn traffic_class(&self) -> (r: u8)
        requires
            self.bytes().len() >= HEADER_SIZE,
        ensures
            r == traffic_class_of(self.bytes()),
    {
        let d = self.buffer.as_octets();
        proof {
            lemma_read_bits(d@[0], d@[1], 0, 0, 0, 0);
        }
        d[0] << 4 | d[1] >> 4
    }

    /// The 20-bit flow label.
    pub fn flow_label(&self) -> (r: u32)
        requires
            self.bytes().len() >= HEADER_SIZE,
        ensures
            r == flow_label_of(self.bytes()),
    {
        let d = self.buffer.as_octets();
        proof {
            lemma_read_bits(0, d@[1], d@[2], d@[3], 0, 0);
        }
        ((d[1] as u32) << 16 | (d[2] as u32) << 8 | d[3] as u32) & FLOW_LABEL_MASK
    }

    /// Length of the payload that follows the header.
    pub fn payload_length(&self) -> (r: u16)
        requires
            self.bytes().len() >= HEADER_SIZE,
        ensures
            r == payload_length_of(self.bytes()),
    {
        let d = self.buffer.as_octets();
        proof {
            lemma_read_bits(0, 0, 0, 0, d@[4], d@[5]);
        }
        (d[4] as u16) << 8 | d[5] as u16
    }

    /// Protocol of the header that follows.
    pub fn next_header(&self) -> (r: u8)
        requires
            self.bytes().len() >= HEADER_SIZE,
        ensures
            r == next_header_of(self.bytes()),
    {
        self.buffer.as_octets()[6]
    }

    /// Number of hops the packet may still take.
    pub fn hop_limit(&self) -> (r: u8)
        requires
            self.bytes().len() >= HEADER_SIZE,
        ensures
            r == hop_limit_of(self.bytes()),
    {
        self.buffer.as_octets()[7]
    }

    /// Source address, in network order.
    pub fn source(&self) -> (r: [u8; 16])
        requires
            self.bytes().len() >= HEADER_SIZE,
        ensures
            r@ == source_of(self.bytes()),
    {
        address_at(self.buffer.as_octets(), 8)
    }

    /// Destination address, in network order.
    pub fn destination(&self) -> (r: [u8; 16])
        requires
            self.bytes().len() >= HEADER_SIZE,
        ensures
            r@ == destination_of(self.bytes()),
    {
        address_at(self.buffer.as_octets(), 24)
    }
}

impl<B: OctetsMut> Packet<B> {
    pub fn set_traffic_class(&mut self, value: u8) -> (r: Result<&mut Self, Error>)
        requires
            old(self).bytes().len() >= HEADER_SIZE,
        ensures
            r matches Ok(p) && p.bytes() == with_traffic_class(old(self).bytes(), value) && *final(self) == *final(p),
    {
        let old0 = self.buffer.as_octets()[0];
        let old1 = self.buffer.as_octets()[1];
        proof {
            lemma_write_traffic_class(old0, old1, value);
        }
        self.buffer.set_octet(0, (old0 & 0b1111_0000) | ((value & 0b1111_0000) >> 4));
        self.buffer.set_octet(1, (old1 & 0b0000_1111) | ((value & 0b0000_1111) << 4));
        Ok(self)
    }

    /// Sets the 20-bit flow label to the low 20 bits of `value`.
    pub fn set_flow_label(&mut self, value: u32) -> (r: Result<&mut Self, Error>)
        requires
            old(self).bytes().len() >= HEADER_SIZE,
        ensures
            r matches Ok(p) && p.bytes() == with_flow_label(old(self).bytes(), value) && *final(self) == *final(p),
    {
        let old1 = self.buffer.as_octets()[1];
        proof {
            lemma_u32_bytes(value);
        }
        let high = ((value >> 16) & 0b0000_1111) as u8;
        proof {
            lemma_write_flow_label(old1, high);
        }
        self.buffer.set_octet(1, (old1 & 0b1111_0000) | high);
        self.buffer.set_octet(2, ((value >> 8) & 0xff) as u8);
        self.buffer.set_octet(3, (value & 0xff) as u8);
        Ok(self)
    }

    pub fn set_payload_length(&mut self, value: u16) -> (r: Result<&mut Self, Error>)
        requires
            old(self).bytes().len() >= HEADER_SIZE,
        ensures
            r matches Ok(p) && p.bytes() == with_payload_length(old(self).bytes(), value)
                && *final(self) == *final(p),
    {
        proof {
            lemma_u16_bytes(value);
        }
        self.buffer.set_octet(4, (value >> 8) as u8);
        self.buffer.set_octet(5, (value & 0xff) as u8);
        Ok(self)
    }

    pub fn set_next_header(&mut self, value: u8) -> (r: Result<&mut Self, Error>)
        requires
            old(self).bytes().len() >= HEADER_SIZE,
        ensures
            r matches Ok(p) && p.bytes() == with_next_header(old(self).bytes(), value) && *final(self) == *final(p),
    {
        self.buffer.set_octet(6, value);
        Ok(self)
    }

    pub fn set_hop_limit(&mut self, value: u8) -> (r: Result<&mut Self, Error>)
        requires
            old(self).bytes().len() >= HEADER_SIZE,
        ensures
            r matches Ok(p) && p.bytes() == with_hop_limit(old(self).bytes(), value) && *final(self) == *final(p),
    {
        self.buffer.set_octet(7, value);
        Ok(self)
    }

    /// Sets the source address, given in network order.
    pub fn set_source(&mut self, value: [u8; 16]) -> (r: Result<&mut Self, Error>)
        requires
            old(self).bytes().len() >= HEADER_SIZE,
        ensures
            r matches Ok(p) && p.bytes() == with_source(old(self).bytes(), value@) && *final(self)
                == *final(p),
    {
        write_address(&mut self.buffer, 8, &value);
        assert(self.bytes() =~= with_source(old(self).bytes(), value@));
        Ok(self)
    }

    /// Sets the destination address, given in network order.
    pub fn set_destination(&mut self, value: [u8; 16]) -> (r: Result<&mut Self, Error>)
        requires
            old(self).bytes().len() >= HEADER_SIZE,
        ensures
            r matches Ok(p) && p.bytes() == with_destination(old(self).bytes(), value@) && *final(self) == *final(p),
    {
        write_address(&mut self.buffer, 24, &value);
        assert(self.bytes() =~= with_destination(old(self).bytes(), value@));
        Ok(self)
    }

    /// The packet's bytes, up to its declared size or the end of the buffer, for writing.
    pub fn as_mut(&mut self) -> (r: &mut [u8])
        requires
            old(self).bytes().len() >= HEADER_SIZE,
        ensures
            r@ == old(self).bytes().subrange(0, size_within(old(self).bytes())),
            final(self).bytes() == final(r)@ + old(self).bytes().subrange(
                size_within(old(self).bytes()),
                old(self).bytes().len() as int,
            ),
    {
        let size = self.size();
        let d = self.buffer.as_octets_mut();
        let cut = if size <= d.len() {
            size
        } else {
            d.len()
        };
        let (front, _back) = d.split_at_mut(cut);
        front
    }

    /// Splits the bytes, for writing, into the header and everything after it.
    pub fn split_mut(&mut self) -> (r: (&mut [u8], &mut [u8]))
        requires
            old(self).bytes().len() >= HEADER_SIZE,
        ensures
            r.0@ == old(self).bytes().subrange(0, HEADER_SIZE as int),
            r.1@ == old(self).bytes().subrange(HEADER_SIZE as int, old(self).bytes().len() as int),
            final(self).bytes() == final(r.0)@ + final(r.1)@,
    {
        self.buffer.as_octets_mut().split_at_mut(HEADER_SIZE)
    }

    /// A guard through which several fields can be set in one chain.
    pub fn checked(&mut self) -> (r: Checked<'_, B>)
        ensures
            r.packet.bytes() == old(self).bytes(),
            *final(r.packet) == *final(self),
    {
        Checked { packet: self }
    }
}

/// Writes the sixteen bytes of `a` into `buf` from `at` on.
fn write_address<B: OctetsMut>(buf: &mut B, at: usize, a: &[u8; 16])
    requires
        at <= 24,
        at + 16 <= old(buf).octets().len(),
    ensures
        final(buf).octets() == old(buf).octets().subrange(0, at as int) + a@ + old(buf).octets().subrange(at + 16, old(buf).octets().len() as int),
{
    let ghost s = buf.octets();
    let mut i: usize = 0;
    while i < 16
        invariant
            at <= 24,
            at + 16 <= s.len(),
            i <= 16,
            buf.octets().len() == s.len(),
            forall|j: int| 0 <= j < at ==> buf.octets()[j] == s[j],
            forall|j: int| at + 16 <= j < s.len() ==> buf.octets()[j] == s[j],
            forall|j: int| 0 <= j < i ==> buf.octets()[at + j] == a@[j],
            forall|j: int| at + i <= j < at + 16 ==> buf.octets()[j] == s[j],
        decreases 16 - i,
    {
        buf.set_octet(at + i, a[i]);
        i = i + 1;
    }
    assert(buf.octets() =~= s.subrange(0, at as int) + a@ + s.subrange(at + 16, s.len() as int));
}

/// A borrow of a packet whose setters return the borrow itself, for chained updates.
pub struct Checked<'a, B> {
    pub packet: &'a mut Packet<B>,
}

impl<'a, B: OctetsMut> Checked<'a, B> {
    pub fn set_traffic_class(&mut self, value: u8) -> (r: Result<&mut Self, Error>)
        requires
            old(self).packet.bytes().len() >= HEADER_SIZE,
        ensures
            r matches Ok(c) && c.packet.bytes() == with_traffic_class(
                old(self).packet.bytes(),
                value,
            ) && *final(c.packet) == *final(old(self).packet) && *final(self) == *final(c),
    {
        self.packet.set_traffic_class(value)?;
        Ok(self)
    }

    /// Sets the 20-bit flow label to the low 20 bits of `value`.
    pub fn set_flow_label(&mut self, value: u32) -> (r: Result<&mut Self, Error>)
        requires
            old(self).packet.bytes().len() >= HEADER_SIZE,
        ensures
            r matches Ok(c) && c.packet.bytes() == with_flow_label(old(self).packet.bytes(), value)
                && *final(c.packet) == *final(old(self).packet) && *final(self) == *final(c),
    {
        self.packet.set_flow_label(value)?;
        Ok(self)
    }

    pub fn set_payload_length(&mut self, value: u16) -> (r: Result<&mut Self, Error>)
        requires
            old(self).packet.bytes().len() >= HEADER_SIZE,
        ensures
            r matches Ok(c) && c.packet.bytes() == with_payload_length(
                old(self).packet.bytes(),
                value,
            ) && *final(c.packet) == *final(old(self).packet) && *final(self) == *final(c),
    {
        self.packet.set_payload_length(value)?;
        Ok(self)
    }

    pub fn set_next_header(&mut self, value: u8) -> (r: Result<&mut Self, Error>)
        requires
            old(self).packet.bytes().len() >= HEADER_SIZE,
        ensures
            r matches Ok(c) && c.packet.bytes() == with_next_header(old(self).packet.bytes(), value)
                && *final(c.packet) == *final(old(self).packet) && *final(self) == *final(c),
    {
        self.packet.set_next_header(value)?;
        Ok(self)
    }

    pub fn set_hop_limit(&mut self, value: u8) -> (r: Result<&mut Self, Error>)
        requires
            old(self).packet.bytes().len() >= HEADER_SIZE,
        ensures
            r matches Ok(c) && c.packet.bytes() == with_hop_limit(old(self).packet.bytes(), value)
                && *final(c.packet) == *final(old(self).packet) && *final(self) == *final(c),
    {
        self.packet.set_hop_limit(value)?;
        Ok(self)
    }

    pub fn set_source(&mut self, value: [u8; 16]) -> (r: Result<&mut Self, Error>)
        requires
            old(self).packet.bytes().len() >= HEADER_SIZE,
        ensures
            r matches Ok(c) && c.packet.bytes() == with_source(old(self).packet.bytes(), value@)
                && *final(c.packet) == *final(old(self).packet) && *final(self) == *final(c),
    {
        self.packet.set_source(value)?;
        Ok(self)
    }

    pub fn set_destination(&mut self, value: [u8; 16]) -> (r: Result<&mut Self, Error>)
        requires
            old(self).packet.bytes().len() >= HEADER_SIZE,
        ensures
            r matches Ok(c) && c.packet.bytes() == with_destination(
                old(self).packet.bytes(),
                value@,
            ) && *final(c.packet) == *final(old(self).packet) && *final(self) == *final(c),
    {
        self.packet.set_destination(value)?;
        Ok(self)
    }
}

/// The sixteen bytes of `d` from `at` on.
fn address_at(d: &[u8], at: usize) -> (r: [u8; 16])
    requires
        at + 16 <= d@.len(),
    ensures
        r@ == d@.subrange(at as int, at + 16),
{
    let n = d.len();
    let mut a = [0u8; 16];
    let mut i: usize = 0;
    while i < 16
        invariant
            at + 16 <= n,
            n == d@.len(),
            i <= 16,
            a@.len() == 16,
            forall|j: int| 0 <= j < i ==> a@[j] == d@[at + j],
        decreases 16 - i,
    {
        a[i] = d[at + i];
        i = i + 1;
    }
    assert(a@ =~= d@.subrange(at as int, at + 16));
    a
}

} // verus!
