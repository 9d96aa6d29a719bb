use vstd::prelude::*;
use crate::error::HostError;

verus! {

/// Number of bytes in one page of linear memory.
pub const PAGE_SIZE: u64 = 65536;

/// Largest number of pages a 32-bit guest can address.
pub const PAGE_LIMIT: u32 = 65536;

/// Byte length of `pages` whole pages.
pub open spec fn pages_to_bytes(pages: int) -> int {
    pages * 65536
}

/// Whether the range `[offset, offset + length)` lies inside a region of `size` bytes.
pub open spec fn in_bounds(size: int, offset: int, length: int) -> bool {
    0 <= offset && 0 <= length && offset + length <= size
}

/// The region `mem` after `data` has been stored at `offset`.
pub open spec fn overwrite(mem: Seq<u8>, offset: int, data: Seq<u8>) -> Seq<u8> {
    Seq::new(
        mem.len(),
        |i: int|
            if offset <= i < offset + data.len() {
                data[i - offset]
            } else {
                mem[i]
            },
    )
}

/// The bytes of the shared memory as the host copied them out at one moment,
/// with the maximum the memory may grow to.
///
/// The memory itself is the engine's. The host reads it through such a copy:
/// every bounds check is made against the size the copy has, and a read after
/// a growth or a guest call takes a new copy.
#[derive(Debug)]
pub struct SharedSegment {
    bytes: Vec<u8>,
    max_pages: u32,
}

impl View for SharedSegment {
    type V = Seq<u8>;

    closed spec fn view(&self) -> Seq<u8> {
        self.bytes@
    }
}

impl SharedSegment {
    /// The configured maximum, in pages.
    pub closed spec fn max(&self) -> int {
        self.max_pages as int
    }

    /// The current size in pages.
    pub open spec fn page_count(&self) -> int {
        (self@.len() / 65536) as int
    }

    /// A segment is a whole number of pages, never above its maximum, and its
    /// maximum is addressable both by a 32-bit guest and by this host.
    pub open spec fn well_formed(&self) -> bool {
        &&& self@.len() == pages_to_bytes(self.page_count())
        &&& self.page_count() <= self.max()
        &&& self.max() <= PAGE_LIMIT
        &&& pages_to_bytes(self.max()) <= usize::MAX
    }

    /// Whether `length` bytes are a whole number of pages within `max_pages`,
    /// and `max_pages` a maximum this host can hold.
    pub open spec fn image_accepted(length: int, max_pages: u32) -> bool {
        &&& length % 65536 == 0
        &&& length <= pages_to_bytes(max_pages as int)
        &&& max_pages <= PAGE_LIMIT
        &&& pages_to_bytes(max_pages as int) <= usize::MAX
    }

    /// Takes the bytes given for the bytes of a memory that may grow up to
    /// `max_pages` pages. The bytes must be a whole number of pages within
    /// that maximum.
    pub fn from_bytes(bytes: Vec<u8>, max_pages: u32) -> (made: Result<SharedSegment, HostError>)
        ensures
            Self::image_accepted(bytes@.len() as int, max_pages) ==> made is Ok,
            made matches Ok(segment) ==> {
                &&& Self::image_accepted(bytes@.len() as int, max_pages)
                &&& segment.well_formed()
                &&& segment.max() == max_pages
                &&& segment@ == bytes@
            },
            made matches Err(e) ==> e == (HostError::CapacityExceeded {
                current_pages: 0,
                additional_pages: (bytes@.len() / 65536) as u32,
                max_pages,
            }),
    {
        let length: u64 = bytes.len() as u64;
        if max_pages > PAGE_LIMIT || (max_pages as u64) * PAGE_SIZE > usize::MAX as u64 || length
            % PAGE_SIZE != 0 || length > (max_pages as u64) * PAGE_SIZE {
            return Err(
                HostError::CapacityExceeded {
                    current_pages: 0,
                    additional_pages: (length / PAGE_SIZE) as u32,
                    max_pages,
                },
            );
        }
        Ok(SharedSegment { bytes, max_pages })
    }

    /// The current size in bytes.
    pub fn current_size(&self) -> (size: u64)
        requires
            self.well_formed(),
        ensures
            size == self@.len(),
            size == pages_to_bytes(self.page_count()),
            size <= pages_to_bytes(self.max()),
    {
        self.bytes.len() as u64
    }

    /// The current size in pages.
    pub fn pages(&self) -> (count: u32)
        requires
            self.well_formed(),
        ensures
            count == self.page_count(),
            count <= self.max(),
    {
        (self.bytes.len() as u64 / PAGE_SIZE) as u32
    }

    /// The configured maximum in pages.
    pub fn maximum_pages(&self) -> (count: u32)
        ensures
            count == self.max(),
    {
        self.max_pages
    }

    /// Copies `length` bytes out of the segment, starting at `offset`.
    pub fn read(&self, offset: u64, length: u64) -> (got: Result<Vec<u8>, HostError>)
        requires
            self.well_formed(),
        ensures
            in_bounds(self@.len() as int, offset as int, length as int) ==> got is Ok,
            got matches Ok(bytes) ==> {
                &&& in_bounds(self@.len() as int, offset as int, length as int)
                &&& bytes@ == self@.subrange(offset as int, offset + length)
            },
            got matches Err(e) ==> e == (HostError::OutOfBounds {
                offset,
                length,
                size: self@.len() as u64,
            }),
    {
        match self.slice(offset, length) {
            Ok(window) => Ok(vstd::slice::slice_to_vec(window)),
            Err(e) => Err(e),
        }
    }

    /// Borrows the `length` bytes that start at `offset`.
    pub fn slice(&self, offset: u64, length: u64) -> (got: Result<&[u8], HostError>)
        requires
            self.well_formed(),
        ensures
            in_bounds(self@.len() as int, offset as int, length as int) ==> got is Ok,
            got matches Ok(bytes) ==> {
                &&& in_bounds(self@.len() as int, offset as int, length as int)
                &&& bytes@ == self@.subrange(offset as int, offset + length)
            },
            got matches Err(e) ==> e == (HostError::OutOfBounds {
                offset,
                length,
                size: self@.len() as u64,
            }),
    {
        let size: u64 = self.current_size();
        if length > size || offset > size - length {
            return Err(HostError::OutOfBounds { offset, length, size });
        }
        let start: usize = offset as usize;
        let end: usize = (offset + length) as usize;
        Ok(vstd::slice::slice_subrange(self.bytes.as_slice(), start, end))
    }

}

/// Bytes stored in a region are the bytes a later read of the same range
/// returns, and a store changes nothing outside its range.
pub proof fn lemma_read_after_write(mem: Seq<u8>, offset: int, data: Seq<u8>)
    requires
        in_bounds(mem.len() as int, offset, data.len() as int),
    ensures
        overwrite(mem, offset, data).len() == mem.len(),
        overwrite(mem, offset, data).subrange(offset, offset + data.len()) == data,
        forall|i: int|
            0 <= i < mem.len() && !(offset <= i < offset + data.len()) ==> overwrite(
                mem,
                offset,
                data,
            )[i] == mem[i],
{
    assert(overwrite(mem, offset, data).subrange(offset, offset + data.len()) =~= data);
}

} // verus!
