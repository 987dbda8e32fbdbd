//! A fixed-capacity byte buffer for one line of serial input, stored in a
//! `heapless::Vec` of capacity [`LINE_CAPACITY`].

use vstd::prelude::*;

verus! {

/// Number of bytes a line buffer can hold.
pub const LINE_CAPACITY: usize = 32;

#[verifier::external_type_specification]
#[verifier::external_body]
#[verifier::reject_recursive_types(T)]
pub struct ExHeaplessVec<T, const N: usize>(heapless::Vec<T, N>);

/// The bytes held by a `heapless::Vec<u8, 32>`, in order.
pub uninterp spec fn stored_bytes(storage: heapless::Vec<u8, 32>) -> Seq<u8>;

/// `heapless::Vec::new`: an empty vector.
#[verifier::external_body]
fn storage_new() -> (storage: heapless::Vec<u8, 32>)
    ensures
        stored_bytes(storage) == Seq::<u8>::empty(),
{
    heapless::Vec::new()
}

/// `heapless::Vec::push`: appends the byte when fewer than 32 bytes are held
/// and returns `Ok`; otherwise leaves the vector as it was and hands the byte
/// back in `Err`.
#[verifier::external_body]
fn storage_push(storage: &mut heapless::Vec<u8, 32>, byte: u8) -> (result: Result<(), u8>)
    ensures
        result == (if stored_bytes(*old(storage)).len() < 32 { Ok(()) } else { Err(byte) }),
        stored_bytes(*old(storage)).len() < 32 ==> stored_bytes(*final(storage)) == stored_bytes(*old(storage)).push(byte),
        stored_bytes(*old(storage)).len() >= 32 ==> stored_bytes(*final(storage)) == stored_bytes(*old(storage)),
{
    storage.push(byte)
}

/// `heapless::Vec::clear`: removes every byte.
#[verifier::external_body]
fn storage_clear(storage: &mut heapless::Vec<u8, 32>)
    ensures
        stored_bytes(*final(storage)) == Seq::<u8>::empty(),
{
    storage.clear()
}

/// `heapless::Vec::as_slice`, copied out into a `Vec<u8>`: the held bytes in
/// order.
#[verifier::external_body]
fn storage_bytes(storage: &heapless::Vec<u8, 32>) -> (bytes: Vec<u8>)
    ensures
        bytes@ == stored_bytes(*storage),
{
    storage.as_slice().to_vec()
}

/// `heapless::Vec::len` (through its slice): the number of bytes held.
#[verifier::external_body]
fn storage_len(storage: &heapless::Vec<u8, 32>) -> (n: usize)
    ensures
        n == stored_bytes(*storage).len(),
{
    storage.len()
}

/// A line of at most [`LINE_CAPACITY`] bytes.
pub struct LineBuffer {
    storage: heapless::Vec<u8, 32>,
}

impl LineBuffer {
    /// The bytes currently held, oldest first.
    pub closed spec fn contents(&self) -> Seq<u8> {
        stored_bytes(self.storage)
    }

    #[verifier::type_invariant]
    spec fn holds_at_most_capacity(&self) -> bool {
        stored_bytes(self.storage).len() <= LINE_CAPACITY
    }

    /// An empty line.
    pub fn new() -> (line: Self)
        ensures
            line.contents() == Seq::<u8>::empty(),
    {
        LineBuffer { storage: storage_new() }
    }

    /// Appends `byte` when the line holds fewer than [`LINE_CAPACITY`] bytes
    /// and returns `true`; on a full line nothing changes and the result is
    /// `false`.
    pub fn push(&mut self, byte: u8) -> (stored: bool)
        ensures
            stored == (old(self).contents().len() < LINE_CAPACITY),
            stored ==> final(self).contents() == old(self).contents().push(byte),
            !stored ==> final(self).contents() == old(self).contents(),
            final(self).contents().len() <= LINE_CAPACITY,
    {
        proof { use_type_invariant(&*self); }
        let mut storage = storage_new();
        std::mem::swap(&mut storage, &mut self.storage);
        let result = storage_push(&mut storage, byte);
        self.storage = storage;
        match result {
            Ok(()) => true,
            Err(_) => false,
        }
    }

    /// Removes every byte.
    pub fn clear(&mut self)
        ensures
            final(self).contents() == Seq::<u8>::empty(),
    {
        let mut storage = storage_new();
        std::mem::swap(&mut storage, &mut self.storage);
        storage_clear(&mut storage);
        self.storage = storage;
    }

    /// A copy of the bytes held, oldest first.
    pub fn bytes(&self) -> (bytes: Vec<u8>)
        ensures
            bytes@ == self.contents(),
    {
        storage_bytes(&self.storage)
    }

    /// The number of bytes held.
    pub fn len(&self) -> (n: usize)
        ensures
            n == self.contents().len(),
            n <= LINE_CAPACITY,
    {
        proof { use_type_invariant(self); }
        storage_len(&self.storage)
    }

    /// Returns the bytes held, oldest first, and leaves the line empty.
    pub fn take(&mut self) -> (bytes: Vec<u8>)
        ensures
            bytes@ == old(self).contents(),
            final(self).contents() == Seq::<u8>::empty(),
    {
        let bytes = self.bytes();
        self.clear();
        bytes
    }
}

} // verus!
