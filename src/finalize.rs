use vstd::prelude::*;

use crate::buffer::{Octets, OctetsMut};
use crate::error::Error;

verus! {

/// A deferred patch, applied to the bytes once the whole packet is assembled.
#[derive(Clone, Copy, Debug, PartialEq, Eq, Structural)]
pub enum Patch {
    /// Sets the top nibble of the byte at `offset` to the low nibble of `value`, keeping the
    /// byte's low nibble (a version or a header length that shares its byte).
    HighNibble { offset: usize, value: u8 },
}

/// The patch touches only bytes within `len`.
pub open spec fn fits(p: Patch, len: nat) -> bool {
    match p {
        Patch::HighNibble { offset, .. } => offset < len,
    }
}

/// The bytes `s` after patch `p`.
pub open spec fn patched(p: Patch, s: Seq<u8>) -> Seq<u8> {
    match p {
        Patch::HighNibble { offset, value } => s.update(
            offset as int,
            ((value % 16) * 16 + s[offset as int] % 16) as u8,
        ),
    }
}

/// The bytes `s` after the patches `ps`, applied first to last.
pub open spec fn patched_all(ps: Seq<Patch>, s: Seq<u8>) -> Seq<u8>
    decreases ps.len(),
{
    if ps.len() == 0 {
        s
    } else {
        patched(ps.last(), patched_all(ps.drop_last(), s))
    }
}

/// Every patch of `ps` touches only bytes within `len`.
pub open spec fn all_fit(ps: Seq<Patch>, len: nat) -> bool {
    forall|i: int| 0 <= i < ps.len() ==> fits(#[trigger] ps[i], len)
}

/// Patches that fit keep the length of the bytes.
pub proof fn lemma_patched_all_len(ps: Seq<Patch>, s: Seq<u8>)
    requires
        all_fit(ps, s.len()),
    ensures
        patched_all(ps, s).len() == s.len(),
    decreases ps.len(),
{
    if ps.len() > 0 {
        assert forall|i: int| 0 <= i < ps.drop_last().len() implies fits(
            #[trigger] ps.drop_last()[i],
            s.len(),
        ) by {
            assert(ps.drop_last()[i] == ps[i]);
        }
        lemma_patched_all_len(ps.drop_last(), s);
        assert(fits(ps[ps.len() - 1], s.len()));
    }
}

/// An ordered chain of deferred patches.
pub struct Finalization {
    patches: Vec<Patch>,
}

impl Finalization {
    /// The patches, in the order they were added.
    pub closed spec fn patches(&self) -> Seq<Patch> {
        self.patches@
    }

    pub fn new() -> (r: Finalization)
        ensures
            r.patches() == Seq::<Patch>::empty(),
    {
        Finalization { patches: Vec::new() }
    }

    /// Appends a patch to the end of the chain.
    pub fn add(&mut self, p: Patch)
        ensures
            final(self).patches() == old(self).patches().push(p),
    {
        self.patches.push(p);
    }

    pub fn len(&self) -> (r: usize)
        ensures
            r == self.patches().len(),
    {
        self.patches.len()
    }

    /// Applies every patch to `out`, in order; if any of them points outside `out`, fails
    /// and leaves `out` as it was.
    pub fn finalize<O: OctetsMut>(&self, out: &mut O) -> (r: Result<(), Error>)
        ensures
            r is Ok <==> all_fit(self.patches(), old(out).octets().len()),
            r is Ok ==> final(out).octets() == patched_all(self.patches(), old(out).octets()),
            r is Err ==> r == Err::<(), Error>(Error::InvalidOffset) && final(out).octets()
                == old(out).octets(),
    {
        let len = out.as_octets().len();
        let n = self.patches.len();
        let mut i: usize = 0;
        while i < n
            invariant
                n == self.patches@.len(),
                len == out.octets().len(),
                out.octets() == old(out).octets(),
                i <= n,
                all_fit(self.patches@.take(i as int), len as nat),
            decreases n - i,
        {
            match self.patches[i] {
                Patch::HighNibble { offset, .. } => {
                    if offset >= len {
                        return Err(Error::InvalidOffset);
                    }
                },
            }
            assert(self.patches@.take(i + 1) =~= self.patches@.take(i as int).push(
                self.patches@[i as int],
            ));
            i = i + 1;
        }
        assert(self.patches@.take(n as int) =~= self.patches@);
        let ghost start = out.octets();
        let mut i: usize = 0;
        while i < n
            invariant
                n == self.patches@.len(),
                len == start.len(),
                all_fit(self.patches@, len as nat),
                i <= n,
                out.octets() == patched_all(self.patches@.take(i as int), start),
            decreases n - i,
        {
            proof {
                assert forall|j: int| 0 <= j < self.patches@.take(i as int).len() implies fits(
                    #[trigger] self.patches@.take(i as int)[j],
                    start.len(),
                ) by {
                    assert(self.patches@.take(i as int)[j] == self.patches@[j]);
                }
                lemma_patched_all_len(self.patches@.take(i as int), start);
            }
            let ghost before = out.octets();
            match self.patches[i] {
                Patch::HighNibble { offset, value } => {
                    assert(fits(self.patches@[i as int], len as nat));
                    let old_byte = out.as_octets()[offset];
                    proof {
                        lemma_high_nibble(old_byte, value);
                    }
                    out.set_octet(offset, (value << 4) | (old_byte & 0b0000_1111));
                },
            }
            assert(self.patches@.take(i + 1).drop_last() =~= self.patches@.take(i as int));
            i = i + 1;
        }
        assert(self.patches@.take(n as int) =~= self.patches@);
        Ok(())
    }
}

impl Default for Finalization {
    fn default() -> (r: Finalization)
        ensures
            r.patches() == Seq::<Patch>::empty(),
    {
        Finalization::new()
    }
}

/// Byte-level fact behind the nibble patch.
proof fn lemma_high_nibble(b: u8, v: u8)
    by (bit_vector)
    ensures
        ((v << 4) | (b & 0x0f)) == ((v % 16) * 16 + b % 16) as u8,
{
}

} // verus!
