use vstd::prelude::*;

use crate::buffer::{grown_to, Buffer, Dynamic, Octets, OctetsMut};
use crate::error::Error;
use crate::finalize::{all_fit, patched, patched_all, Finalization, Patch};
use crate::layout::{
    destination_of, flow_label_of, hop_limit_of, lemma_fields_independent, next_header_of,
    payload_length_of, payload_of, source_of, traffic_class_of, version_of, packet_valid,
    with_destination, with_flow_label, with_hop_limit, with_next_header,
    with_payload_length, with_source, with_traffic_class, HEADER_SIZE, VERSION,
};
use crate::packet::Packet;

verus! {

/// The bytes a builder starts from: `s` grown with zeros to a full header, its first byte
/// set to version 6 with a zero low nibble.
pub open spec fn fresh_header(s: Seq<u8>) -> Seq<u8> {
    grown_to(s, HEADER_SIZE as nat).update(0, 0x60)
}

/// The patch that `build` adds last: the version nibble at the start of the header.
pub open spec fn version_patch(start: nat) -> Patch {
    Patch::HighNibble { offset: start as usize, value: VERSION }
}

/// What a builder over a dynamic buffer holding the header `h` builds after setting, in this
/// order, traffic class, flow label, next header, hop limit, source and destination, and
/// appending `payload`.
pub open spec fn assembled(
    h: Seq<u8>,
    tc: u8,
    fl: u32,
    nh: u8,
    hl: u8,
    src: Seq<u8>,
    dst: Seq<u8>,
    payload: Seq<u8>,
) -> Seq<u8> {
    let fields = with_destination(
        with_source(
            with_hop_limit(with_next_header(with_flow_label(with_traffic_class(h, tc), fl), nh), hl),
            src,
        ),
        dst,
    );
    patched_all(
        seq![version_patch(0)],
        with_payload_length(fields + payload, payload.len() as u16),
    )
}

/// A 16-bit value splits into its two bytes and back.
proof fn lemma_u16_split(x: int)
    by (nonlinear_arith)
    requires
        0 <= x <= 0xffff,
    ensures
        0 <= x / 256 < 256,
        0 <= x % 256 < 256,
        (x / 256) * 256 + x % 256 == x,
{
}

/// Every field written through the builder reads back exactly from the bytes it builds, and
/// those bytes parse as a valid packet whose payload is the one appended.
pub proof fn lemma_round_trip(
    h: Seq<u8>,
    tc: u8,
    fl: u32,
    nh: u8,
    hl: u8,
    src: Seq<u8>,
    dst: Seq<u8>,
    payload: Seq<u8>,
)
    requires
        h.len() == HEADER_SIZE,
        src.len() == 16,
        dst.len() == 16,
        payload.len() <= u16::MAX,
    ensures
        ({
            let s = assembled(h, tc, fl, nh, hl, src, dst, payload);
            &&& packet_valid(s)
            &&& s.len() == HEADER_SIZE + payload.len()
            &&& version_of(s) == VERSION
            &&& traffic_class_of(s) == tc
            &&& flow_label_of(s) == fl % 0x100000
            &&& payload_length_of(s) == payload.len()
            &&& next_header_of(s) == nh
            &&& hop_limit_of(s) == hl
            &&& source_of(s) == src
            &&& destination_of(s) == dst
            &&& payload_of(s) == payload
        }),
{
    let t1 = with_traffic_class(h, tc);
    lemma_fields_independent(h, tc, fl);
    let t2 = with_flow_label(t1, fl);
    lemma_fields_independent(t1, tc, fl);
    assert(t2.len() == HEADER_SIZE);
    let t3 = with_next_header(t2, nh);
    let t4 = with_hop_limit(t3, hl);
    let t5 = with_source(t4, src);
    let fields = with_destination(t5, dst);
    assert(fields.len() == HEADER_SIZE);
    assert(forall|i: int| 0 <= i < 6 ==> fields[i] == t2[i]);
    assert(fields[6] == nh);
    assert(fields[7] == hl);
    assert(fields.subrange(8, 24) =~= src);
    assert(fields.subrange(24, 40) =~= dst);
    let len = payload.len() as u16;
    let y = fields + payload;
    let z = with_payload_length(y, len);
    lemma_u16_split(len as int);
    assert(z[4] as int == len as int / 256);
    assert(z[5] as int == len as int % 256);
    let p = version_patch(0);
    assert(seq![p].drop_last() =~= Seq::<Patch>::empty());
    assert(seq![p].last() == p);
    assert(patched_all(Seq::<Patch>::empty(), z) == z);
    assert(patched_all(seq![p].drop_last(), z) == z);
    let s = assembled(h, tc, fl, nh, hl, src, dst, payload);
    assert(s == patched(p, z));
    let low = z[0] as int % 16;
    assert(s[0] as int == 6 * 16 + low);
    assert(z[0] == t2[0] && z[1] == t2[1] && z[2] == t2[2] && z[3] == t2[3]);
    assert(s[1] == z[1] && s[2] == z[2] && s[3] == z[3]);
    assert(traffic_class_of(s) == traffic_class_of(t2));
    assert(flow_label_of(s) == flow_label_of(t2));
    assert(source_of(s) =~= src);
    assert(destination_of(s) =~= dst);
    assert(payload_of(s) =~= payload);
}

/// IPv6 packet builder: writes header fields into a buffer, appends the payload once, and
/// applies deferred patches when built.
pub struct Builder<B: Buffer = Dynamic> {
    buffer: B,
    finalizer: Finalization,
    payload: bool,
}

impl<B: Buffer> Builder<B> {
    /// The bytes written so far.
    pub open spec fn bytes(&self) -> Seq<u8> {
        self.buffer().octets()
    }

    /// Whether the payload has been written.
    pub closed spec fn payload_written(&self) -> bool {
        self.payload
    }

    /// The deferred patches registered so far.
    pub closed spec fn patches(&self) -> Seq<Patch> {
        self.finalizer.patches()
    }

    /// The buffer being written.
    pub closed spec fn buffer(&self) -> B {
        self.buffer
    }

    /// The header is in place.
    pub open spec fn wf(&self) -> bool {
        self.bytes().len() >= HEADER_SIZE
    }

    /// `self` and `other` agree on everything but the bytes.
    pub open spec fn same_state(&self, other: &Self) -> bool {
        &&& self.payload_written() == other.payload_written()
        &&& self.patches() == other.patches()
    }

    /// Starts a builder on `buffer`: reserves the header and writes the version.
    pub fn with(buffer: B) -> (r: Result<Self, Error>)
        ensures
            r is Ok <==> HEADER_SIZE <= buffer.capacity(),
            r is Err ==> r == Err::<Self, Error>(Error::SmallBuffer),
            r matches Ok(b) ==> {
                &&& b.wf()
                &&& b.bytes() == fresh_header(buffer.octets())
                &&& !b.payload_written()
                &&& b.patches() == Seq::<Patch>::empty()
                &&& b.buffer().start() == buffer.start()
                &&& b.buffer().capacity() == buffer.capacity()
            },
    {
        let mut buffer = buffer;
        match buffer.next(HEADER_SIZE) {
            Ok(()) => {},
            Err(e) => {
                return Err(e);
            },
        }
        assert(6u8 << 4u8 == 0x60u8) by (bit_vector);
        buffer.write(0, VERSION << 4);
        Ok(Builder { buffer, finalizer: Finalization::new(), payload: false })
    }

    /// The chain of deferred patches, for enclosing layers to add their own.
    pub fn finalizer(&mut self) -> (r: &mut Finalization)
        ensures
            r.patches() == old(self).patches(),
            final(self).patches() == final(r).patches(),
            final(self).bytes() == old(self).bytes(),
            final(self).buffer() == old(self).buffer(),
            final(self).payload_written() == old(self).payload_written(),
    {
        &mut self.finalizer
    }

    /// Registers the patch that sets the version nibble.
    fn prepare(&mut self)
        ensures
            final(self).patches() == old(self).patches().push(version_patch(old(self).buffer().start())),
            final(self).buffer() == old(self).buffer(),
            final(self).payload_written() == old(self).payload_written(),
    {
        let offset = self.buffer.offset();
        self.finalizer.add(Patch::HighNibble { offset, value: VERSION });
    }

    /// Applies the deferred patches, the version patch last, to the buffer's storage and
    /// hands the storage back.
    pub fn build(self) -> (r: Result<B::Inner, Error>)
        ensures
            r is Ok <==> all_fit(
                self.patches().push(version_patch(self.buffer().start())),
                self.buffer().storage().len(),
            ),
            r matches Ok(out) ==> out.octets() == patched_all(
                self.patches().push(version_patch(self.buffer().start())),
                self.buffer().storage(),
            ),
            r is Err ==> r == Err::<B::Inner, Error>(Error::InvalidOffset),
    {
        let mut b = self;
        b.prepare();
        let Builder { buffer, finalizer, payload: _ } = b;
        let mut out = buffer.into_inner();
        match finalizer.finalize(&mut out) {
            Ok(()) => Ok(out),
            Err(e) => Err(e),
        }
    }

    /// Parses the bytes written so far as a packet.
    pub fn as_packet(&self) -> (r: Result<Packet<&[u8]>, Error>)
        ensures
            r is Ok <==> packet_valid(self.bytes()),
            r matches Ok(p) ==> p.bytes() == self.bytes(),
    {
        Packet::new(self.buffer.as_octets())
    }

    /// Parses the bytes written so far as a packet that can be written through.
    pub fn as_packet_mut(&mut self) -> (r: Result<Packet<&mut [u8]>, Error>)
        ensures
            r is Ok <==> packet_valid(old(self).bytes()),
            r matches Ok(p) ==> p.bytes() == old(self).bytes() && final(self).bytes() == (*final(p.buffer()))@,
            r is Err ==> r == Err::<Packet<&mut [u8]>, Error>(Error::SmallBuffer) || r == Err::<
                Packet<&mut [u8]>,
                Error,
            >(Error::InvalidPacket),
            r is Err ==> final(self).bytes() == old(self).bytes(),
            final(self).same_state(old(self)),
    {
        match Packet::new(self.buffer.as_octets()) {
            Ok(_) => Ok(Packet::unchecked(self.buffer.as_octets_mut())),
            Err(e) => Err(e),
        }
    }

    pub fn traffic_class(self, value: u8) -> (r: Result<Self, Error>)
        requires
            self.wf(),
        ensures
            r matches Ok(b) && b.bytes() == with_traffic_class(self.bytes(), value)
                && b.same_state(&self),
    {
        let Builder { buffer, finalizer, payload } = self;
        let mut packet = Packet::unchecked(buffer);
        packet.set_traffic_class(value)?;
        Ok(Builder { buffer: packet.into_inner(), finalizer, payload })
    }

    /// Sets the flow label to the low 20 bits of `value`.
    pub fn flow_label(self, value: u32) -> (r: Result<Self, Error>)
        requires
            self.wf(),
        ensures
            r matches Ok(b) && b.bytes() == with_flow_label(self.bytes(), value) && b.same_state(
                &self,
            ),
    {
        let Builder { buffer, finalizer, payload } = self;
        let mut packet = Packet::unchecked(buffer);
        packet.set_flow_label(value)?;
        Ok(Builder { buffer: packet.into_inner(), finalizer, payload })
    }

    pub fn payload_length(self, value: u16) -> (r: Result<Self, Error>)
        requires
            self.wf(),
        ensures
            r matches Ok(b) && b.bytes() == with_payload_length(self.bytes(), value)
                && b.same_state(&self),
    {
        let Builder { buffer, finalizer, payload } = self;
        let mut packet = Packet::unchecked(buffer);
        packet.set_payload_length(value)?;
        Ok(Builder { buffer: packet.into_inner(), finalizer, payload })
    }

    pub fn next_header(self, value: u8) -> (r: Result<Self, Error>)
        requires
            self.wf(),
        ensures
            r matches Ok(b) && b.bytes() == with_next_header(self.bytes(), value)
                && b.same_state(&self),
    {
        let Builder { buffer, finalizer, payload } = self;
        let mut packet = Packet::unchecked(buffer);
        packet.set_next_header(value)?;
        Ok(Builder { buffer: packet.into_inner(), finalizer, payload })
    }

    pub fn hop_limit(self, value: u8) -> (r: Result<Self, Error>)
        requires
            self.wf(),
        ensures
            r matches Ok(b) && b.bytes() == with_hop_limit(self.bytes(), value) && b.same_state(
                &self,
            ),
    {
        let Builder { buffer, finalizer, payload } = self;
        let mut packet = Packet::unchecked(buffer);
        packet.set_hop_limit(value)?;
        Ok(Builder { buffer: packet.into_inner(), finalizer, payload })
    }

    /// Sets the source address, given in network order.
    pub fn source(self, value: [u8; 16]) -> (r: Result<Self, Error>)
        requires
            self.wf(),
        ensures
            r matches Ok(b) && b.bytes() == with_source(self.bytes(), value@) && b.same_state(
                &self,
            ),
    {
        let Builder { buffer, finalizer, payload } = self;
        let mut packet = Packet::unchecked(buffer);
        packet.set_source(value)?;
        Ok(Builder { buffer: packet.into_inner(), finalizer, payload })
    }

    /// Sets the destination address, given in network order.
    pub fn destination(self, value: [u8; 16]) -> (r: Result<Self, Error>)
        requires
            self.wf(),
        ensures
            r matches Ok(b) && b.bytes() == with_destination(self.bytes(), value@)
                && b.same_state(&self),
    {
        let Builder { buffer, finalizer, payload } = self;
        let mut packet = Packet::unchecked(buffer);
        packet.set_destination(value)?;
        Ok(Builder { buffer: packet.into_inner(), finalizer, payload })
    }

    /// Appends the payload and sets the payload length to its size. A builder takes one
    /// payload: a second call fails with `AlreadyDefined` and writes nothing.
    pub fn payload(self, value: &[u8]) -> (r: Result<Self, Error>)
        requires
            self.wf(),
            !self.payload_written() ==> value@.len() <= u16::MAX,
        ensures
            self.payload_written() ==> r == Err::<Self, Error>(Error::AlreadyDefined),
            !self.payload_written() && self.bytes().len() + value@.len()
                <= self.buffer().capacity() ==> (r matches Ok(b) && b.bytes() == with_payload_length(
                self.bytes() + value@,
                value@.len() as u16,
            ) && b.payload_written() && b.patches() == self.patches()),
            !self.payload_written() && self.bytes().len() + value@.len()
                > self.buffer().capacity() ==> r == Err::<Self, Error>(Error::OutOfCapacity),
    {
        if self.payload {
            return Err(Error::AlreadyDefined);
        }
        let Builder { buffer, finalizer, payload: _ } = self;
        let mut buffer = buffer;
        let ghost start = buffer.octets();
        let n = value.len();
        let mut len: u16 = 0;
        let mut i: usize = 0;
        while i < n
            invariant
                n == value@.len(),
                n <= u16::MAX,
                i <= n,
                len == i,
                buffer.octets() == start + value@.take(i as int),
                buffer.capacity() == self.buffer().capacity(),
                start == self.bytes(),
                start.len() >= HEADER_SIZE,
                !self.payload_written(),
            decreases n - i,
        {
            proof {
                buffer.lemma_window_in_storage();
            }
            match buffer.more(1) {
                Ok(()) => {},
                Err(e) => {
                    proof {
                        assert(start.len() + i + 1 > buffer.capacity());
                    }
                    return Err(e);
                },
            }
            let last = buffer.as_octets().len() - 1;
            buffer.write(last, value[i]);
            assert(value@.take(i + 1) =~= value@.take(i as int).push(value@[i as int]));
            assert(buffer.octets() =~= start + value@.take(i + 1));
            len = len + 1;
            i = i + 1;
        }
        assert(value@.take(n as int) =~= value@);
        proof {
            buffer.lemma_window_in_storage();
        }
        let b = Builder { buffer, finalizer, payload: true };
        b.payload_length(len)
    }
}

impl Default for Builder<Dynamic> {
    /// A builder over an empty dynamic buffer, holding a fresh header.
    fn default() -> (r: Builder<Dynamic>)
        ensures
            r.wf(),
            r.bytes() == fresh_header(Seq::<u8>::empty()),
            !r.payload_written(),
            r.patches() == Seq::<Patch>::empty(),
    {
        Builder::with(Dynamic::new()).unwrap()
    }
}

} // verus!
