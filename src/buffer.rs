use vstd::prelude::*;

use vstd::slice::slice_subrange;

use crate::error::Error;

verus! {

/// Read access to a contiguous run of bytes, borrowed or owned.
pub trait Octets {
    /// The bytes currently held.
    spec fn octets(&self) -> Seq<u8>;

    fn as_octets(&self) -> (r: &[u8])
        ensures
            r@ == self.octets(),
    ;
}

/// Write access to a fixed-length run of bytes.
pub trait OctetsMut: Octets {
    fn set_octet(&mut self, i: usize, v: u8)
        requires
            i < old(self).octets().len(),
        ensures
            final(self).octets() == old(self).octets().update(i as int, v),
    ;

    fn as_octets_mut(&mut self) -> (r: &mut [u8])
        ensures
            r@ == old(self).octets(),
            final(r)@ == final(self).octets(),
    ;
}

impl Octets for Vec<u8> {
    open spec fn octets(&self) -> Seq<u8> {
        self@
    }

    fn as_octets(&self) -> (r: &[u8]) {
        self.as_slice()
    }
}

impl OctetsMut for Vec<u8> {
    fn set_octet(&mut self, i: usize, v: u8) {
        self.set(i, v);
    }

    fn as_octets_mut(&mut self) -> (r: &mut [u8]) {
        self.as_mut_slice()
    }
}

impl<'a> Octets for &'a [u8] {
    open spec fn octets(&self) -> Seq<u8> {
        (**self)@
    }

    fn as_octets(&self) -> (r: &[u8]) {
        *self
    }
}

impl<'a> Octets for &'a mut [u8] {
    open spec fn octets(&self) -> Seq<u8> {
        (**self)@
    }

    fn as_octets(&self) -> (r: &[u8]) {
        &**self
    }
}

impl<'a> OctetsMut for &'a mut [u8] {
    fn set_octet(&mut self, i: usize, v: u8) {
        (**self)[i] = v;
    }

    fn as_octets_mut(&mut self) -> (r: &mut [u8]) {
        &mut **self
    }
}

/// `n` zero bytes.
pub open spec fn zeros(n: nat) -> Seq<u8> {
    Seq::new(n, |i: int| 0u8)
}

/// The bytes `s` grown, if need be, with zeros to at least `n` bytes.
pub open spec fn grown_to(s: Seq<u8>, n: nat) -> Seq<u8> {
    if s.len() >= n {
        s
    } else {
        s + zeros((n - s.len()) as nat)
    }
}

/// Storage that a builder writes into: a window of bytes (its `octets()`) that starts at
/// `start()` within the backing storage and can grow up to `capacity()` bytes.
pub trait Buffer: OctetsMut + Sized {
    /// What the buffer hands back once building is done.
    type Inner: OctetsMut;

    /// Where the window starts within the backing storage.
    spec fn start(&self) -> nat;

    /// The largest length the window can reach.
    spec fn capacity(&self) -> nat;

    /// The backing storage, window included.
    spec fn storage(&self) -> Seq<u8>;

    /// The window lies within capacity and within the storage, from `start()` on.
    proof fn lemma_window_in_storage(&self)
        ensures
            self.octets().len() <= self.capacity(),
            self.start() + self.octets().len() <= self.storage().len(),
            self.storage().subrange(self.start() as int, (self.start() + self.octets().len()) as int)
                == self.octets(),
    ;

    fn offset(&self) -> (r: usize)
        ensures
            r == self.start(),
    ;

    /// Sets byte `i` of the window, keeping where the window stands and how far it can grow.
    fn write(&mut self, i: usize, v: u8)
        requires
            i < old(self).octets().len(),
        ensures
            final(self).octets() == old(self).octets().update(i as int, v),
            final(self).start() == old(self).start(),
            final(self).capacity() == old(self).capacity(),
    ;

    /// Grows the window by `n` zero bytes.
    fn more(&mut self, n: usize) -> (r: Result<(), Error>)
        ensures
            r is Ok <==> old(self).octets().len() + n <= old(self).capacity(),
            r is Ok ==> final(self).octets() == old(self).octets() + zeros(n as nat),
            r is Err ==> r == Err::<(), Error>(Error::OutOfCapacity) && final(self).octets()
                == old(self).octets(),
            final(self).start() == old(self).start(),
            final(self).capacity() == old(self).capacity(),
    ;

    /// Grows the window with zeros to at least `n` bytes.
    fn next(&mut self, n: usize) -> (r: Result<(), Error>)
        ensures
            r is Ok <==> n <= old(self).capacity(),
            r is Ok ==> final(self).octets() == grown_to(old(self).octets(), n as nat),
            r is Err ==> r == Err::<(), Error>(Error::SmallBuffer) && final(self).octets()
                == old(self).octets(),
            final(self).start() == old(self).start(),
            final(self).capacity() == old(self).capacity(),
    ;

    /// Gives up the buffer, handing back its storage.
    fn into_inner(self) -> (r: Self::Inner)
        ensures
            r.octets() == self.storage(),
    ;
}

/// An owned buffer that grows on demand; its window is the whole storage.
pub struct Dynamic {
    inner: Vec<u8>,
}

impl Dynamic {
    pub fn new() -> (r: Dynamic)
        ensures
            r.octets() == Seq::<u8>::empty(),
    {
        Dynamic { inner: Vec::new() }
    }
}

impl Dynamic {
    /// The storage of a dynamic buffer is exactly its window.
    pub proof fn lemma_storage_is_window(&self)
        ensures
            self.storage() == self.octets(),
            self.start() == 0,
    {
    }
}

impl Default for Dynamic {
    fn default() -> (r: Dynamic)
        ensures
            r.octets() == Seq::<u8>::empty(),
    {
        Dynamic::new()
    }
}

impl Octets for Dynamic {
    closed spec fn octets(&self) -> Seq<u8> {
        self.inner@
    }

    fn as_octets(&self) -> (r: &[u8]) {
        self.inner.as_slice()
    }
}

impl OctetsMut for Dynamic {
    fn set_octet(&mut self, i: usize, v: u8) {
        self.inner.set(i, v);
    }

    fn as_octets_mut(&mut self) -> (r: &mut [u8]) {
        self.inner.as_mut_slice()
    }
}

impl Buffer for Dynamic {
    type Inner = Vec<u8>;

    open spec fn start(&self) -> nat {
        0
    }

    open spec fn capacity(&self) -> nat {
        usize::MAX as nat
    }

    closed spec fn storage(&self) -> Seq<u8> {
        self.inner@
    }

    proof fn lemma_window_in_storage(&self) {
        assert(self.inner@.len() == self.inner.len());
        assert(self.inner@.subrange(0, self.inner@.len() as int) == self.inner@);
    }

    fn offset(&self) -> (r: usize) {
        0
    }

    fn write(&mut self, i: usize, v: u8) {
        self.inner.set(i, v);
    }

    fn more(&mut self, n: usize) -> (r: Result<(), Error>) {
        let len = self.inner.len();
        if n > usize::MAX - len {
            return Err(Error::OutOfCapacity);
        }
        self.inner.resize(len + n, 0u8);
        assert(self.inner@ =~= old(self).inner@ + zeros(n as nat));
        Ok(())
    }

    fn next(&mut self, n: usize) -> (r: Result<(), Error>) {
        let len = self.inner.len();
        if len < n {
            self.inner.resize(n, 0u8);
            assert(self.inner@ =~= old(self).inner@ + zeros((n - len) as nat));
        }
        Ok(())
    }

    fn into_inner(self) -> (r: Vec<u8>) {
        self.inner
    }
}

} // verus!

verus! {

/// A fixed-size buffer over borrowed bytes: the window starts at an offset within the
/// borrowed slice and can grow only up to the slice's end.
pub struct Slice<'a> {
    data: &'a mut [u8],
    offset: usize,
    rest: usize,
}

impl<'a> Slice<'a> {
    /// The borrowed bytes, window included.
    pub closed spec fn borrowed(&self) -> Seq<u8> {
        self.data@
    }

    /// Where the window starts, held within the borrowed bytes.
    closed spec fn at(&self) -> int {
        if self.offset <= self.data@.len() {
            self.offset as int
        } else {
            self.data@.len() as int
        }
    }

    /// How many borrowed bytes follow the window, held within the borrowed bytes.
    closed spec fn tail(&self) -> int {
        if self.rest <= self.data@.len() - self.at() {
            self.rest as int
        } else {
            self.data@.len() - self.at()
        }
    }

    /// An empty window at `offset` within `data`.
    pub fn new(data: &'a mut [u8], offset: usize) -> (r: Slice<'a>)
        requires
            offset <= old(data)@.len(),
        ensures
            r.octets() == Seq::<u8>::empty(),
            r.start() == offset,
            r.capacity() == old(data)@.len() - offset,
            r.storage() == old(data)@,
    {
        let rest = data.len() - offset;
        Slice { data, offset, rest }
    }

    /// Where the window starts and how many bytes follow it.
    fn bounds(&self) -> (r: (usize, usize))
        ensures
            r.0 == self.at(),
            r.1 == self.tail(),
            r.0 + r.1 <= self.borrowed().len(),
            self.borrowed().len() <= usize::MAX,
    {
        let n = self.data.len();
        let at = if self.offset <= n {
            self.offset
        } else {
            n
        };
        let tail = if self.rest <= n - at {
            self.rest
        } else {
            n - at
        };
        (at, tail)
    }

    /// Stores the window's bounds as `at()` and `tail()` give them.
    fn normalize(&mut self)
        ensures
            final(self).offset == old(self).at(),
            final(self).rest == old(self).tail(),
            final(self).offset + final(self).rest <= final(self).borrowed().len(),
            final(self).borrowed() == old(self).borrowed(),
            final(self).octets() == old(self).octets(),
            final(self).start() == old(self).start(),
            final(self).capacity() == old(self).capacity(),
    {
        let (at, tail) = self.bounds();
        self.offset = at;
        self.rest = tail;
    }

    /// Writes zeros over the borrowed bytes from `from` to `to`.
    fn fill_zeros(&mut self, from: usize, to: usize)
        requires
            from <= to <= old(self).borrowed().len(),
        ensures
            final(self).borrowed() == old(self).borrowed().subrange(0, from as int) + zeros(
                (to - from) as nat,
            ) + old(self).borrowed().subrange(to as int, old(self).borrowed().len() as int),
            final(self).offset == old(self).offset,
            final(self).rest == old(self).rest,
    {
        let ghost before = self.data@;
        let mut i = from;
        while i < to
            invariant
                self.offset == old(self).offset,
                self.rest == old(self).rest,
                before == old(self).data@,
                from <= i <= to <= before.len(),
                self.data@.len() == before.len(),
                forall|j: int| 0 <= j < from ==> self.data@[j] == before[j],
                forall|j: int| from <= j < i ==> self.data@[j] == 0u8,
                forall|j: int| i <= j < before.len() ==> self.data@[j] == before[j],
            decreases to - i,
        {
            self.data[i] = 0u8;
            i = i + 1;
        }
        assert(self.data@ =~= before.subrange(0, from as int) + zeros((to - from) as nat)
            + before.subrange(to as int, before.len() as int));
    }
}

impl<'a> Octets for Slice<'a> {
    closed spec fn octets(&self) -> Seq<u8> {
        self.data@.subrange(self.at(), self.data@.len() - self.tail())
    }

    fn as_octets(&self) -> (r: &[u8]) {
        let (at, tail) = self.bounds();
        let n = self.data.len();
        slice_subrange(&*self.data, at, n - tail)
    }
}

impl<'a> OctetsMut for Slice<'a> {
    fn set_octet(&mut self, i: usize, v: u8) {
        self.write(i, v);
    }

    fn as_octets_mut(&mut self) -> (r: &mut [u8]) {
        self.normalize();
        let n = self.data.len();
        let at = self.offset;
        let tail = self.rest;
        let (_front, rest) = self.data.split_at_mut(at);
        let (window, _back) = rest.split_at_mut(n - at - tail);
        window
    }
}

impl<'a> Buffer for Slice<'a> {
    type Inner = &'a mut [u8];

    closed spec fn start(&self) -> nat {
        self.at() as nat
    }

    closed spec fn capacity(&self) -> nat {
        (self.data@.len() - self.at()) as nat
    }

    closed spec fn storage(&self) -> Seq<u8> {
        self.data@
    }

    proof fn lemma_window_in_storage(&self) {
        assert(self.data@.subrange(self.at(), self.data@.len() - self.tail()) == self.octets());
    }

    fn offset(&self) -> (r: usize) {
        self.bounds().0
    }

    fn write(&mut self, i: usize, v: u8) {
        let (at, _) = self.bounds();
        self.data[at + i] = v;
        assert(self.octets() =~= old(self).octets().update(i as int, v));
    }

    fn more(&mut self, n: usize) -> (r: Result<(), Error>) {
        self.normalize();
        if n > self.rest {
            return Err(Error::OutOfCapacity);
        }
        let end = self.data.len() - self.rest;
        self.fill_zeros(end, end + n);
        self.rest = self.rest - n;
        assert(self.octets() =~= old(self).octets() + zeros(n as nat));
        Ok(())
    }

    fn next(&mut self, n: usize) -> (r: Result<(), Error>) {
        self.normalize();
        let total = self.data.len();
        if n > total - self.offset {
            return Err(Error::SmallBuffer);
        }
        let len = total - self.offset - self.rest;
        if len < n {
            self.fill_zeros(self.offset + len, self.offset + n);
            self.rest = total - self.offset - n;
            assert(self.octets() =~= old(self).octets() + zeros((n - len) as nat));
        }
        Ok(())
    }

    fn into_inner(self) -> (r: &'a mut [u8]) {
        self.data
    }
}

} // verus!
