use vstd::prelude::*;

verus! {

/// Number of bytes held by a buffer made with `Buffer::new`.
pub const DEFAULT_BUFFER_SIZE: usize = 16 * 1024;

/// A fixed-capacity byte buffer. Its content is the prefix of the backing
/// storage that is in use; the rest of the storage is free space.
#[derive(Debug)]
pub struct Buffer {
    bytes: Vec<u8>,
    in_use: usize,
}

impl View for Buffer {
    type V = Seq<u8>;

    /// The bytes currently in use.
    closed spec fn view(&self) -> Seq<u8> {
        self.bytes@.take(self.in_use as int)
    }
}

impl Buffer {
    /// The content fits in the storage.
    pub closed spec fn wf(&self) -> bool {
        self.in_use <= self.bytes@.len()
    }

    /// Every byte of the backing storage, in use or free.
    pub closed spec fn storage(&self) -> Seq<u8> {
        self.bytes@
    }

    /// The number of bytes the buffer can hold.
    pub closed spec fn capacity(&self) -> nat {
        self.bytes@.len()
    }

    /// The content of a well-formed buffer is the in-use prefix of its storage.
    pub proof fn lemma_content_in_storage(&self)
        requires
            self.wf(),
        ensures
            self@ == self.storage().take(self@.len() as int),
            self@.len() <= self.capacity(),
            self.capacity() == self.storage().len(),
    {
    }

    /// Bytes written through the free space that `remaining` hands out
    /// join the content once `set_size` grows it over them: after `count`
    /// written bytes the content is the old content followed by them.
    pub proof fn law_written_free_space_joins_content(before: Buffer, written: Seq<u8>, after: Buffer, count: nat)
        requires
            before.wf(),
            after.storage() == before@ + written,
            count <= written.len(),
        ensures
            after.storage().take(before@.len() + count as int) == before@ + written.take(count as int),
    {
        assert(after.storage().take(before@.len() + count as int) =~= before@ + written.take(count as int));
    }

    /// A buffer of the default capacity.
    pub fn new() -> (buffer: Buffer)
        ensures
            buffer.wf(),
            buffer@ == Seq::<u8>::empty(),
            buffer.capacity() == DEFAULT_BUFFER_SIZE,
            buffer.storage() == Seq::new(DEFAULT_BUFFER_SIZE as nat, |i: int| 0u8),
    {
        Buffer::with_capacity(DEFAULT_BUFFER_SIZE)
    }

    /// An empty buffer whose zeroed storage holds `capacity` bytes.
    pub fn with_capacity(capacity: usize) -> (buffer: Buffer)
        ensures
            buffer.wf(),
            buffer@ == Seq::<u8>::empty(),
            buffer.capacity() == capacity,
            buffer.storage() == Seq::new(capacity as nat, |i: int| 0u8),
    {
        let mut bytes: Vec<u8> = Vec::new();
        let mut i: usize = 0;
        while i < capacity
            invariant
                i <= capacity,
                bytes@ == Seq::new(i as nat, |j: int| 0u8),
            decreases capacity - i,
        {
            bytes.push(0u8);
            i = i + 1;
        }
        let buffer = Buffer { bytes: bytes, in_use: 0 };
        assert(buffer@ =~= Seq::<u8>::empty());
        buffer
    }

    /// Empties the buffer; the storage keeps its bytes.
    pub fn reset(&mut self)
        requires
            old(self).wf(),
        ensures
            final(self).wf(),
            final(self).capacity() == old(self).capacity(),
            final(self)@ == Seq::<u8>::empty(),
            final(self).storage() == old(self).storage(),
    {
        self.in_use = 0;
        assert(self@ =~= Seq::<u8>::empty());
    }

    /// Appends one byte.
    pub fn push(&mut self, byte: u8)
        requires
            old(self).wf(),
            old(self)@.len() < old(self).capacity(),
        ensures
            final(self).wf(),
            final(self).capacity() == old(self).capacity(),
            final(self)@ == old(self)@.push(byte),
            final(self).storage() == old(self).storage().update(old(self)@.len() as int, byte),
    {
        let ghost old_content = self@;
        let _capacity = self.bytes.len();
        self.bytes.set(self.in_use, byte);
        self.in_use = self.in_use + 1;
        assert(self@ =~= old_content.push(byte));
    }

    /// Appends every byte of `bytes`, in order.
    pub fn extend(&mut self, bytes: &[u8])
        requires
            old(self).wf(),
            old(self)@.len() + bytes@.len() <= old(self).capacity(),
        ensures
            final(self).wf(),
            final(self)@ == old(self)@ + bytes@,
            final(self).storage() == old(self)@ + bytes@ + old(self).storage().skip(
                old(self)@.len() + bytes@.len() as int,
            ),
            final(self).capacity() == old(self).capacity(),
    {
        proof { old(self).lemma_content_in_storage(); }
        let mut i: usize = 0;
        while i < bytes.len()
            invariant
                i <= bytes@.len(),
                self.wf(),
                self@ == old(self)@ + bytes@.take(i as int),
                self.storage() == old(self)@ + bytes@.take(i as int) + old(self).storage().skip(
                    old(self)@.len() + i,
                ),
                old(self).capacity() == old(self).storage().len(),
                self.capacity() == old(self).capacity(),
                old(self)@.len() + bytes@.len() <= old(self).capacity(),
            decreases bytes@.len() - i,
        {
                self.push(bytes[i]);
            i = i + 1;
            assert(bytes@.take(i as int) =~= bytes@.take(i - 1).push(bytes@[i - 1]));
            assert(self.storage() =~= old(self)@ + bytes@.take(i as int) + old(self).storage().skip(
                old(self)@.len() + i,
            ));
        }
        assert(bytes@.take(i as int) =~= bytes@);
    }

    /// The bytes in use.
    pub fn bytes(&self) -> (content: &[u8])
        requires
            self.wf(),
        ensures
            content@ == self@,
    {
        let (content, _) = self.bytes.as_slice().split_at(self.in_use);
        content
    }

    /// The free space after the content, to be written in place.
    pub fn remaining(&mut self) -> (free: &mut [u8])
        requires
            old(self).wf(),
        ensures
            final(self).wf(),
            free@ == old(self).storage().skip(old(self)@.len() as int),
            final(self)@ == old(self)@,
            final(self).storage() == old(self)@ + final(free)@,
    {
        let in_use = self.in_use;
        let (_, free) = self.bytes.as_mut_slice().split_at_mut(in_use);
        free
    }

    /// Marks the first `size` bytes of the storage as the content.
    pub fn set_size(&mut self, size: usize)
        requires
            old(self).wf(),
            size <= old(self).capacity(),
        ensures
            final(self).wf(),
            final(self).capacity() == old(self).capacity(),
            final(self)@ == old(self).storage().take(size as int),
            final(self).storage() == old(self).storage(),
    {
        self.in_use = size;
    }

    /// Keeps only the first `size` bytes of the content.
    pub fn truncate(&mut self, size: usize)
        requires
            old(self).wf(),
            size <= old(self)@.len(),
        ensures
            final(self).wf(),
            final(self).capacity() == old(self).capacity(),
            final(self)@ == old(self)@.take(size as int),
            final(self).storage() == old(self).storage(),
    {
        self.in_use = size;
        assert(self@ =~= old(self)@.take(size as int));
    }

    /// The number of bytes in use.
    pub fn len(&self) -> (n: usize)
        requires
            self.wf(),
        ensures
            n == self@.len(),
            n <= self.capacity(),
            self.capacity() <= usize::MAX,
            self.capacity() == self.storage().len(),
            self@ == self.storage().take(n as int),
    {
        let _capacity = self.bytes.len();
        self.in_use
    }

    /// Drops the first `num_consumed` bytes of the content and moves the
    /// rest to the front of the storage.
    pub fn restack(&mut self, num_consumed: usize)
        requires
            old(self).wf(),
            num_consumed <= old(self)@.len(),
        ensures
            final(self).wf(),
            final(self)@ == old(self)@.skip(num_consumed as int),
            final(self).storage() == old(self)@.skip(num_consumed as int) + old(self).storage().skip(
                old(self)@.len() - num_consumed,
            ),
            final(self).capacity() == old(self).capacity(),
    {
        proof { old(self).lemma_content_in_storage(); }
        let num_in_use = self.len();
        if num_consumed == 0 {
            assert(old(self)@.skip(0) =~= old(self)@);
            assert(old(self).storage() =~= old(self)@ + old(self).storage().skip(old(self)@.len() as int));
            return;
        }
        if num_consumed == num_in_use {
            self.reset();
            assert(old(self)@.skip(num_consumed as int) =~= Seq::<u8>::empty());
            assert(self.storage() =~= Seq::<u8>::empty() + old(self).storage().skip(0));
            return;
        }
        let ghost content = self@;
        let mut i: usize = num_consumed;
        while i < num_in_use
            invariant
                num_consumed <= i <= num_in_use,
                num_in_use == content.len(),
                self.in_use == num_in_use,
                self.bytes@.len() == old(self).capacity(),
                num_in_use <= self.bytes@.len(),
                forall|k: int| 0 <= k < i - num_consumed ==> self.bytes@[k] == content[k + num_consumed],
                forall|k: int| i <= k < num_in_use ==> self.bytes@[k] == content[k],
                forall|k: int| num_in_use - num_consumed <= k < self.bytes@.len()
                    ==> self.bytes@[k] == old(self).storage()[k],
                old(self).storage().len() == self.bytes@.len(),
            decreases num_in_use - i,
        {
            let byte = self.bytes[i];
            self.bytes.set(i - num_consumed, byte);
            i = i + 1;
        }
        self.truncate(num_in_use - num_consumed);
        assert(self@ =~= content.skip(num_consumed as int));
        assert(self.storage() =~= old(self)@.skip(num_consumed as int) + old(self).storage().skip(
            old(self)@.len() - num_consumed,
        ));
    }
}

} // verus!
