use vstd::prelude::*;

verus! {

/// A fixed-length run of bytes that can be written at any index below its
/// length. The length never changes.
pub trait ByteRegion {
    /// The bytes the region currently holds.
    spec fn contents(&self) -> Seq<u8>;

    fn region_len(&self) -> (r: usize)
        ensures
            r == self.contents().len(),
    ;

    fn store(&mut self, i: usize, b: u8)
        requires
            i < old(self).contents().len(),
        ensures
            final(self).contents() == old(self).contents().update(i as int, b),
    ;
}

/// A byte region whose contents can also be read back.
pub trait ReadableByteRegion: ByteRegion {
    fn as_bytes(&self) -> (r: &[u8])
        ensures
            r@ == self.contents(),
    ;
}

impl<const N: usize> ByteRegion for [u8; N] {
    open spec fn contents(&self) -> Seq<u8> {
        self@
    }

    fn region_len(&self) -> (r: usize) {
        N
    }

    fn store(&mut self, i: usize, b: u8) {
        self[i] = b;
    }
}

impl<const N: usize> ReadableByteRegion for [u8; N] {
    fn as_bytes(&self) -> (r: &[u8]) {
        self.as_slice()
    }
}

impl<'a> ByteRegion for &'a mut [u8] {
    open spec fn contents(&self) -> Seq<u8> {
        (**self)@
    }

    fn region_len(&self) -> (r: usize) {
        self.len()
    }

    fn store(&mut self, i: usize, b: u8) {
        self[i] = b;
    }
}

impl<'a> ReadableByteRegion for &'a mut [u8] {
    fn as_bytes(&self) -> (r: &[u8]) {
        &**self
    }
}

} // verus!
