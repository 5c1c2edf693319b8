use vstd::prelude::*;

verus! {

/// Byte storage that a view can read.
pub trait ByteStore {
    /// The bytes held.
    spec fn bytes(&self) -> Seq<u8>;

    /// The bytes held, as a slice.
    fn as_bytes(&self) -> (out: &[u8])
        ensures
            out@ == self.bytes(),
    ;
}

/// Byte storage that a view can also write.
pub trait ByteStoreMut: ByteStore {
    /// Replaces the byte at `index` by `value`; every other byte stays.
    fn set_byte(&mut self, index: usize, value: u8)
        requires
            index < old(self).bytes().len(),
        ensures
            final(self).bytes() == old(self).bytes().update(index as int, value),
    ;
}

impl<'a> ByteStore for &'a [u8] {
    open spec fn bytes(&self) -> Seq<u8> {
        (*self)@
    }

    fn as_bytes(&self) -> (out: &[u8]) {
        *self
    }
}

impl<'a> ByteStore for &'a mut [u8] {
    open spec fn bytes(&self) -> Seq<u8> {
        (**self)@
    }

    fn as_bytes(&self) -> (out: &[u8]) {
        &**self
    }
}

impl<'a> ByteStoreMut for &'a mut [u8] {
    fn set_byte(&mut self, index: usize, value: u8) {
        self[index] = value;
    }
}

impl<'a, const N: usize> ByteStore for &'a [u8; N] {
    open spec fn bytes(&self) -> Seq<u8> {
        (*self)@
    }

    fn as_bytes(&self) -> (out: &[u8]) {
        self.as_slice()
    }
}

impl<'a, const N: usize> ByteStore for &'a mut [u8; N] {
    open spec fn bytes(&self) -> Seq<u8> {
        (**self)@
    }

    fn as_bytes(&self) -> (out: &[u8]) {
        self.as_slice()
    }
}

impl<'a, const N: usize> ByteStoreMut for &'a mut [u8; N] {
    fn set_byte(&mut self, index: usize, value: u8) {
        self[index] = value;
    }
}

impl<const N: usize> ByteStore for [u8; N] {
    open spec fn bytes(&self) -> Seq<u8> {
        self@
    }

    fn as_bytes(&self) -> (out: &[u8]) {
        self.as_slice()
    }
}

impl<const N: usize> ByteStoreMut for [u8; N] {
    fn set_byte(&mut self, index: usize, value: u8) {
        self[index] = value;
    }
}

impl ByteStore for Vec<u8> {
    open spec fn bytes(&self) -> Seq<u8> {
        self@
    }

    fn as_bytes(&self) -> (out: &[u8]) {
        self.as_slice()
    }
}

impl ByteStoreMut for Vec<u8> {
    fn set_byte(&mut self, index: usize, value: u8) {
        self[index] = value;
    }
}

} // verus!
