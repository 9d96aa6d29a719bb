use vstd::prelude::*;
use vstd::utf8::{decode_utf8, valid_utf8};
use core::marker::PhantomData;
use crate::error::HostError;
use crate::plain::PlainData;
use crate::segment::{in_bounds, overwrite, SharedSegment};

verus! {

/// The `index`-th run of `width` bytes in the region that starts at `base`.
pub open spec fn element_bytes(mem: Seq<u8>, base: int, width: int, index: int) -> Seq<u8> {
    mem.subrange(base + index * width, base + index * width + width)
}

/// A guest address tagged with the type of the one value found there.
///
/// The address is an offset into a segment and means nothing without one: it
/// is resolved against the segment's current size at every access.
pub struct WasmPtr<T> {
    pub ptr: u32,
    pub marker: PhantomData<T>,
}

/// A guest address tagged with an element type and a count: a contiguous run
/// of that many values.
pub struct WasmSlice<T> {
    pub ptr: u32,
    pub len: u32,
    pub marker: PhantomData<T>,
}

/// A range of bytes of a segment: from `start` up to, not including, `end`.
#[derive(Clone, Copy, Debug, PartialEq, Eq)]
pub struct ByteRange {
    pub start: u64,
    pub end: u64,
}

/// A store that is prepared and not yet made: the bytes, and the range of the
/// memory they go to.
#[derive(Clone, Debug, PartialEq, Eq)]
pub struct Stored {
    pub range: ByteRange,
    pub bytes: Vec<u8>,
}

/// Checks the `length` bytes at the guest address `ptr` against a segment of
/// `size` bytes.
pub fn locate(ptr: u32, length: u64, size: u64) -> (got: Result<ByteRange, HostError>)
    ensures
        match got {
            Ok(range) => in_bounds(size as int, ptr as int, length as int) && range.start == ptr
                && range.end == ptr + length,
            Err(e) => !in_bounds(size as int, ptr as int, length as int) && e == (
            HostError::OutOfBounds { offset: ptr as u64, length, size }),
        },
{
    if length > size || ptr as u64 > size - length {
        Err(HostError::OutOfBounds { offset: ptr as u64, length, size })
    } else {
        Ok(ByteRange { start: ptr as u64, end: ptr as u64 + length })
    }
}

impl<T: PlainData> WasmPtr<T> {
    /// Tags the guest address `ptr` with the type `T`.
    pub fn new(ptr: u32) -> (made: Self)
        ensures
            made.ptr == ptr,
    {
        WasmPtr { ptr, marker: PhantomData }
    }

    /// Whether the value lies inside a region of `size` bytes.
    pub open spec fn fits(&self, size: int) -> bool {
        in_bounds(size, self.ptr as int, T::width() as int)
    }

    /// The bytes of the value in the region `mem`.
    pub open spec fn bytes_in(&self, mem: Seq<u8>) -> Seq<u8> {
        mem.subrange(self.ptr as int, self.ptr + T::width())
    }

    /// Checks the pointer against a segment of `size` bytes and gives the
    /// range of the value's bytes. The range holds for that size and every
    /// larger one; the bytes are read where the segment is.
    pub fn locate(&self, size: u64) -> (got: Result<ByteRange, HostError>)
        ensures
            match got {
                Ok(range) => self.fits(size as int) && range.start == self.ptr && range.end
                    == self.ptr + T::width(),
                Err(e) => !self.fits(size as int) && e == (HostError::OutOfBounds {
                    offset: self.ptr as u64,
                    length: T::width() as u64,
                    size,
                }),
            },
    {
        locate(self.ptr, T::byte_width() as u64, size)
    }

    /// Resolves the pointer against the segment as it is now and borrows the
    /// bytes of the value.
    pub fn resolve<'a>(&self, segment: &'a SharedSegment) -> (got: Result<&'a [u8], HostError>)
        requires
            segment.well_formed(),
        ensures
            self.fits(segment@.len() as int) ==> got is Ok,
            got matches Ok(bytes) ==> self.fits(segment@.len() as int) && bytes@ == self.bytes_in(
                segment@,
            ),
            got matches Err(e) ==> e == (HostError::OutOfBounds {
                offset: self.ptr as u64,
                length: T::width() as u64,
                size: segment@.len() as u64,
            }),
    {
        segment.slice(self.ptr as u64, T::byte_width() as u64)
    }

    /// Reads the value at the pointer.
    pub fn read(&self, segment: &SharedSegment) -> (got: Result<T, HostError>)
        requires
            segment.well_formed(),
        ensures
            self.fits(segment@.len() as int) ==> got is Ok,
            got matches Ok(value) ==> self.fits(segment@.len() as int) && value == T::decode(
                self.bytes_in(segment@),
            ),
            got matches Err(e) ==> e == (HostError::OutOfBounds {
                offset: self.ptr as u64,
                length: T::width() as u64,
                size: segment@.len() as u64,
            }),
    {
        match self.resolve(segment) {
            Ok(bytes) => Ok(T::from_bytes(bytes)),
            Err(e) => Err(e),
        }
    }

    /// Prepares the store of `value` at the pointer in a memory of `size`
    /// bytes: the range to store to and the bytes to store there. The store
    /// itself is made where the memory is. A value that does not fit is not
    /// prepared.
    pub fn store(&self, value: &T, size: u64) -> (planned: Result<Stored, HostError>)
        ensures
            match planned {
                Ok(stored) => {
                    &&& self.fits(size as int)
                    &&& stored.range.start == self.ptr
                    &&& stored.range.end == self.ptr + T::width()
                    &&& stored.bytes@ == value.encode()
                },
                Err(e) => !self.fits(size as int) && e == (HostError::OutOfBounds {
                    offset: self.ptr as u64,
                    length: T::width() as u64,
                    size,
                }),
            },
    {
        match self.locate(size) {
            Ok(range) => Ok(Stored { range, bytes: value.to_bytes() }),
            Err(e) => Err(e),
        }
    }
}

impl<T: PlainData> WasmSlice<T> {
    /// Tags the guest address `ptr` with the type `T` and the count `len`.
    pub fn new(ptr: u32, len: u32) -> (made: Self)
        ensures
            made.ptr == ptr,
            made.len == len,
    {
        WasmSlice { ptr, len, marker: PhantomData }
    }

    /// Number of bytes the run occupies.
    pub open spec fn byte_len(&self) -> int {
        self.len * T::width()
    }

    /// Whether the whole run lies inside a region of `size` bytes.
    pub open spec fn fits(&self, size: int) -> bool {
        in_bounds(size, self.ptr as int, self.byte_len())
    }

    /// The bytes of the run in the region `mem`.
    pub open spec fn bytes_in(&self, mem: Seq<u8>) -> Seq<u8> {
        mem.subrange(self.ptr as int, self.ptr + self.byte_len())
    }

    /// The values of the run in the region `mem`, first to last.
    pub open spec fn values_in(&self, mem: Seq<u8>) -> Seq<T> {
        Seq::new(
            self.len as nat,
            |i: int| T::decode(element_bytes(mem, self.ptr as int, T::width() as int, i)),
        )
    }

    /// Checks the slice against a segment of `size` bytes and gives the range
    /// of its bytes. The range holds for that size and every larger one; the
    /// bytes are read where the segment is.
    pub fn locate(&self, size: u64) -> (got: Result<ByteRange, HostError>)
        ensures
            match got {
                Ok(range) => self.fits(size as int) && range.start == self.ptr && range.end
                    == self.ptr + self.byte_len(),
                Err(e) => !self.fits(size as int) && e == (HostError::OutOfBounds {
                    offset: self.ptr as u64,
                    length: self.byte_len() as u64,
                    size,
                }),
            },
    {
        let width: u64 = T::byte_width() as u64;
        let count: u64 = self.len as u64;
        assert(count * width <= 0xFFFF_FFFF * 0xFFFF_FFFF) by (nonlinear_arith)
            requires
                count <= 0xFFFF_FFFF,
                width <= 0xFFFF_FFFF,
        ;
        locate(self.ptr, count * width, size)
    }

    /// Resolves the slice against the segment as it is now and borrows the
    /// bytes of all its elements.
    pub fn resolve<'a>(&self, segment: &'a SharedSegment) -> (got: Result<&'a [u8], HostError>)
        requires
            segment.well_formed(),
        ensures
            self.fits(segment@.len() as int) ==> got is Ok,
            got matches Ok(bytes) ==> self.fits(segment@.len() as int) && bytes@ == self.bytes_in(
                segment@,
            ),
            got matches Err(e) ==> e == (HostError::OutOfBounds {
                offset: self.ptr as u64,
                length: self.byte_len() as u64,
                size: segment@.len() as u64,
            }),
    {
        let width: u64 = T::byte_width() as u64;
        let count: u64 = self.len as u64;
        assert(count * width <= 0xFFFF_FFFF * 0xFFFF_FFFF) by (nonlinear_arith)
            requires
                count <= 0xFFFF_FFFF,
                width <= 0xFFFF_FFFF,
        ;
        segment.slice(self.ptr as u64, count * width)
    }

    /// Reads every element of the run, first to last.
    pub fn read(&self, segment: &SharedSegment) -> (got: Result<Vec<T>, HostError>)
        requires
            segment.well_formed(),
        ensures
            self.fits(segment@.len() as int) ==> got is Ok,
            got matches Ok(values) ==> self.fits(segment@.len() as int) && values@
                == self.values_in(segment@),
            got matches Err(e) ==> e == (HostError::OutOfBounds {
                offset: self.ptr as u64,
                length: self.byte_len() as u64,
                size: segment@.len() as u64,
            }),
    {
        let bytes: &[u8] = match self.resolve(segment) {
            Ok(bytes) => bytes,
            Err(e) => { return Err(e); },
        };
        let width: usize = T::byte_width() as usize;
        let count: usize = self.len as usize;
        let mut values: Vec<T> = Vec::new();
        let mut index: usize = 0;
        let total: usize = bytes.len();
        while index < count
            invariant
                index <= count,
                total == bytes@.len(),
                count == self.len,
                width == T::width(),
                bytes@.len() == count * width,
                bytes@ == self.bytes_in(segment@),
                self.fits(segment@.len() as int),
                values@.len() == index,
                forall|i: int|
                    0 <= i < index ==> values@[i] == T::decode(
                        element_bytes(segment@, self.ptr as int, T::width() as int, i),
                    ),
            decreases count - index,
        {
            assert(index * width + width <= count * width) by (nonlinear_arith)
                requires
                    index < count,
            ;
            let start: usize = index * width;
            let piece: &[u8] = vstd::slice::slice_subrange(bytes, start, start + width);
            assert(piece@ =~= element_bytes(
                segment@,
                self.ptr as int,
                T::width() as int,
                index as int,
            ));
            values.push(T::from_bytes(piece));
            index += 1;
        }
        assert(values@ =~= self.values_in(segment@));
        Ok(values)
    }
}

/// `String::from_utf8` of the standard library: the bytes become a string
/// exactly when they are well-formed UTF-8, and the string then holds the
/// characters that the bytes encode.
#[verifier::external_body]
fn text_of(bytes: Vec<u8>) -> (text: Option<String>)
    ensures
        text is Some <==> valid_utf8(bytes@),
        text matches Some(s) ==> s@ == decode_utf8(bytes@),
{
    String::from_utf8(bytes).ok()
}

/// Reads bytes as text. The text is `None` where the bytes are not
/// well-formed UTF-8.
pub fn decode_text(bytes: Vec<u8>) -> (text: Option<String>)
    ensures
        text is Some <==> valid_utf8(bytes@),
        text matches Some(s) ==> s@ == decode_utf8(bytes@),
{
    text_of(bytes)
}

impl WasmSlice<u8> {
    /// Reads the run as text. The text is `None` where the bytes are not
    /// well-formed UTF-8.
    pub fn text(&self, segment: &SharedSegment) -> (got: Result<Option<String>, HostError>)
        requires
            segment.well_formed(),
        ensures
            self.fits(segment@.len() as int) ==> got is Ok,
            got matches Ok(text) ==> {
                &&& self.fits(segment@.len() as int)
                &&& text is Some <==> valid_utf8(self.bytes_in(segment@))
                &&& text matches Some(s) ==> s@ == decode_utf8(self.bytes_in(segment@))
            },
            got matches Err(e) ==> e == (HostError::OutOfBounds {
                offset: self.ptr as u64,
                length: self.len as u64,
                size: segment@.len() as u64,
            }),
    {
        match self.resolve(segment) {
            Ok(bytes) => Ok(decode_text(vstd::slice::slice_to_vec(bytes))),
            Err(e) => Err(e),
        }
    }
}

/// A value stored at a typed pointer is the value read back through the same
/// pointer, whatever the region held before.
pub proof fn lemma_pointer_round_trip<T: PlainData>(mem: Seq<u8>, pointer: WasmPtr<T>, value: T)
    requires
        pointer.fits(mem.len() as int),
    ensures
        pointer.fits(overwrite(mem, pointer.ptr as int, value.encode()).len() as int),
        T::decode(pointer.bytes_in(overwrite(mem, pointer.ptr as int, value.encode())))
            == value,
{
    T::lemma_round_trip(value);
    crate::segment::lemma_read_after_write(mem, pointer.ptr as int, value.encode());
}

/// Offsets survive growth: a pointer that fits a segment fits it at every
/// larger size, and finds the same bytes there as long as the bytes that were
/// there are kept.
pub proof fn lemma_resolution_survives_growth<T: PlainData>(
    pointer: WasmPtr<T>,
    mem: Seq<u8>,
    added: Seq<u8>,
)
    requires
        pointer.fits(mem.len() as int),
    ensures
        pointer.fits((mem + added).len() as int),
        pointer.bytes_in(mem + added) == pointer.bytes_in(mem),
{
    assert(pointer.bytes_in(mem + added) =~= pointer.bytes_in(mem));
}

/// What one party stores through a typed pointer, another party reads
/// through its own pointer to the same address: the segment holds one copy of
/// the bytes, whoever looks.
pub proof fn lemma_shared_writes_visible<T: PlainData>(
    mem: Seq<u8>,
    writer: WasmPtr<T>,
    reader: WasmPtr<T>,
    value: T,
)
    requires
        writer.fits(mem.len() as int),
        reader.ptr == writer.ptr,
    ensures
        reader.fits(overwrite(mem, writer.ptr as int, value.encode()).len() as int),
        T::decode(reader.bytes_in(overwrite(mem, writer.ptr as int, value.encode()))) == value,
{
    lemma_pointer_round_trip(mem, writer, value);
    assert(reader.bytes_in(overwrite(mem, writer.ptr as int, value.encode()))
        == writer.bytes_in(overwrite(mem, writer.ptr as int, value.encode())));
}

/// A store through one pointer leaves what lies at a disjoint range as it
/// was.
pub proof fn lemma_disjoint_write_keeps<T: PlainData, U: PlainData>(
    mem: Seq<u8>,
    writer: WasmPtr<T>,
    other: WasmPtr<U>,
    value: T,
)
    requires
        writer.fits(mem.len() as int),
        other.fits(mem.len() as int),
        writer.ptr + T::width() <= other.ptr || other.ptr + U::width() <= writer.ptr,
    ensures
        other.bytes_in(overwrite(mem, writer.ptr as int, value.encode())) == other.bytes_in(mem),
{
    T::lemma_round_trip(value);
    assert(other.bytes_in(overwrite(mem, writer.ptr as int, value.encode())) =~= other.bytes_in(
        mem,
    ));
}

} // verus!
