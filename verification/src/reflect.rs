use vstd::prelude::*;
use vstd::slice::slice_subrange;
use vstd::utf8::{decode_utf8, valid_utf8};
use crate::descriptor::{ComponentFieldInfo, ComponentInfo, FieldLayout, Layout};
use crate::error::HostError;
use crate::plain::{le_u32, read_u32};
use crate::segment::{in_bounds, SharedSegment};
use crate::view::WasmSlice;

verus! {

/// Bytes of the head of a descriptor record: total size, then field count.
pub const HEADER_BYTES: u64 = 8;

/// Bytes of one field record: offset, size, then address and byte length of
/// the name and of the declared type's name.
pub const FIELD_BYTES: u64 = 24;

/// The 32-bit word stored at `at`.
pub open spec fn word_at(mem: Seq<u8>, at: int) -> u32 {
    le_u32(mem.subrange(at, at + 4))
}

/// Number of field records that the descriptor at `base` announces.
pub open spec fn field_count(mem: Seq<u8>, base: int) -> int {
    word_at(mem, base + 4) as int
}

/// Where the `index`-th field record of the descriptor at `base` starts.
pub open spec fn record_at(base: int, index: int) -> int {
    base + 8 + index * 24
}

/// Whether the head and all field records of the descriptor at `base` lie
/// inside the region.
pub open spec fn table_fits(mem: Seq<u8>, base: int) -> bool {
    &&& in_bounds(mem.len() as int, base, 8)
    &&& in_bounds(mem.len() as int, base + 8, field_count(mem, base) * 24)
}

/// What can be wrong with a piece of text in guest memory.
pub ghost enum Fault {
    /// Nothing: the text can be read.
    Sound,
    /// Its bytes do not lie inside the region.
    Outside { offset: u64, length: u64 },
    /// Its bytes are not well-formed UTF-8.
    Malformed,
}

/// What is wrong with the text of `length` bytes at `address`.
pub open spec fn text_fault(mem: Seq<u8>, address: u32, length: u32) -> Fault {
    if !in_bounds(mem.len() as int, address as int, length as int) {
        Fault::Outside { offset: address as u64, length: length as u64 }
    } else if !valid_utf8(mem.subrange(address as int, address + length)) {
        Fault::Malformed
    } else {
        Fault::Sound
    }
}

/// The text of `length` bytes at `address`.
pub open spec fn text_at(mem: Seq<u8>, address: u32, length: u32) -> Seq<char> {
    decode_utf8(mem.subrange(address as int, address + length))
}

/// What is wrong with the field record at `at`: with its name, or else with
/// the name of its declared type.
pub open spec fn field_fault(mem: Seq<u8>, at: int) -> Fault {
    let name = text_fault(mem, word_at(mem, at + 8), word_at(mem, at + 12));
    if name is Sound {
        text_fault(mem, word_at(mem, at + 16), word_at(mem, at + 20))
    } else {
        name
    }
}

/// What the field record at `at` says.
pub open spec fn field_at(mem: Seq<u8>, at: int) -> FieldLayout {
    FieldLayout {
        offset: word_at(mem, at) as int,
        size: word_at(mem, at + 4) as int,
        name: text_at(mem, word_at(mem, at + 8), word_at(mem, at + 12)),
        ty: text_at(mem, word_at(mem, at + 16), word_at(mem, at + 20)),
    }
}

/// What the descriptor at `base` says.
pub open spec fn described(mem: Seq<u8>, base: int) -> Layout {
    Layout {
        size: word_at(mem, base) as int,
        fields: Seq::new(
            field_count(mem, base) as nat,
            |i: int| field_at(mem, record_at(base, i)),
        ),
    }
}

/// Whether every field record of the descriptor at `base` before the
/// `index`-th can be read.
pub open spec fn sound_before(mem: Seq<u8>, base: int, index: int) -> bool {
    forall|j: int| 0 <= j < index ==> (#[trigger] field_fault(mem, record_at(base, j))) is Sound
}

/// Whether the error `e` is the report of `fault` in a region of `size` bytes.
pub open spec fn reports(e: HostError, fault: Fault, size: int) -> bool {
    match fault {
        Fault::Sound => false,
        Fault::Outside { offset, length } => e == (HostError::OutOfBounds {
            offset,
            length,
            size: size as u64,
        }),
        Fault::Malformed => e matches HostError::ValidationError { detail } && detail@
            == "text in guest memory is not UTF-8"@,
    }
}

/// Reads the 32-bit word at `at` in `bytes`.
fn word(bytes: &[u8], at: usize) -> (value: u32)
    requires
        at + 4 <= bytes@.len(),
    ensures
        value == word_at(bytes@, at as int),
{
    let limit: usize = bytes.len();
    assert(at + 4 <= limit);
    read_u32(slice_subrange(bytes, at, at + 4))
}

/// Reads the text of `length` bytes at `address`.
pub fn read_text(segment: &SharedSegment, address: u32, length: u32) -> (got: Result<
    String,
    HostError,
>)
    requires
        segment.well_formed(),
    ensures
        got matches Ok(text) ==> text_fault(segment@, address, length) is Sound && text@
            == text_at(segment@, address, length),
        got matches Err(e) ==> reports(
            e,
            text_fault(segment@, address, length),
            segment@.len() as int,
        ),
{
    let run: WasmSlice<u8> = WasmSlice::new(address, length);
    match run.text(segment) {
        Ok(Some(text)) => Ok(text),
        Ok(None) => Err(
            HostError::ValidationError { detail: "text in guest memory is not UTF-8".to_owned() },
        ),
        Err(e) => Err(e),
    }
}

/// Reads the field record that occupies `record`, a window of the segment
/// that starts at `at`.
fn read_field(segment: &SharedSegment, record: &[u8], at: Ghost<int>) -> (got: Result<
    ComponentFieldInfo,
    HostError,
>)
    requires
        segment.well_formed(),
        0 <= at@,
        at@ + 24 <= segment@.len(),
        record@ == segment@.subrange(at@, at@ + 24),
    ensures
        got matches Ok(field) ==> field_fault(segment@, at@) is Sound && field@ == field_at(
            segment@,
            at@,
        ),
        got matches Err(e) ==> reports(e, field_fault(segment@, at@), segment@.len() as int),
{
    proof {
        let mem = segment@;
        assert forall|k: int| 0 <= k && k + 4 <= 24 implies #[trigger] record@.subrange(k, k + 4)
            == mem.subrange(at@ + k, at@ + k + 4) by {
            assert(record@.subrange(k, k + 4) =~= mem.subrange(at@ + k, at@ + k + 4));
        }
        assert(record@.subrange(0, 4) == mem.subrange(at@ + 0, at@ + 0 + 4));
        assert(record@.subrange(4, 8) == mem.subrange(at@ + 4, at@ + 4 + 4));
        assert(record@.subrange(8, 12) == mem.subrange(at@ + 8, at@ + 8 + 4));
        assert(record@.subrange(12, 16) == mem.subrange(at@ + 12, at@ + 12 + 4));
        assert(record@.subrange(16, 20) == mem.subrange(at@ + 16, at@ + 16 + 4));
        assert(record@.subrange(20, 24) == mem.subrange(at@ + 20, at@ + 20 + 4));
    }
    let offset: u32 = word(record, 0);
    let size: u32 = word(record, 4);
    let name: String = match read_text(segment, word(record, 8), word(record, 12)) {
        Ok(text) => text,
        Err(e) => { return Err(e); },
    };
    let ty: String = match read_text(segment, word(record, 16), word(record, 20)) {
        Ok(text) => text,
        Err(e) => { return Err(e); },
    };
    Ok(ComponentFieldInfo { offset, size, name, ty })
}

/// Reads the descriptor that the guest keeps at `address`: the total size,
/// the number of fields, then one record for each field.
///
/// The records are read in order, and the first one that cannot be read
/// decides the error. What the guest keeps is taken for a descriptor only if
/// it is consistent: a record whose fields overlap or leave the type is
/// refused as a whole.
pub fn read_descriptor(segment: &SharedSegment, address: u32) -> (got: Result<
    ComponentInfo,
    HostError,
>)
    requires
        segment.well_formed(),
    ensures
        got matches Ok(info) ==> {
            &&& table_fits(segment@, address as int)
            &&& sound_before(segment@, address as int, field_count(segment@, address as int))
            &&& info@ == described(segment@, address as int)
            &&& info@.well_formed()
        },
        got matches Err(e) ==> {
            if !in_bounds(segment@.len() as int, address as int, 8) {
                e == (HostError::OutOfBounds {
                    offset: address as u64,
                    length: 8,
                    size: segment@.len() as u64,
                })
            } else if !table_fits(segment@, address as int) {
                e == (HostError::OutOfBounds {
                    offset: (address + 8) as u64,
                    length: (field_count(segment@, address as int) * 24) as u64,
                    size: segment@.len() as u64,
                })
            } else if sound_before(
                segment@,
                address as int,
                field_count(segment@, address as int),
            ) {
                &&& !described(segment@, address as int).well_formed()
                &&& e matches HostError::ValidationError { detail }
                &&& detail@ == "descriptor is not consistent"@
            } else {
                exists|k: int|
                    0 <= k < field_count(segment@, address as int) && sound_before(
                        segment@,
                        address as int,
                        k,
                    ) && reports(
                        e,
                        #[trigger] field_fault(segment@, record_at(address as int, k)),
                        segment@.len() as int,
                    )
            }
        },
{
    let ghost mem = segment@;
    let ghost base = address as int;
    let header: &[u8] = match segment.slice(address as u64, HEADER_BYTES) {
        Ok(bytes) => bytes,
        Err(e) => { return Err(e); },
    };
    proof {
        assert(header@.subrange(0, 4) =~= mem.subrange(base, base + 4));
        assert(header@.subrange(4, 8) =~= mem.subrange(base + 4, base + 4 + 4));
    }
    let size: u32 = word(header, 0);
    let count: u32 = word(header, 4);
    let table_at: u64 = address as u64 + HEADER_BYTES;
    let table: &[u8] = match segment.slice(table_at, count as u64 * FIELD_BYTES) {
        Ok(bytes) => bytes,
        Err(e) => { return Err(e); },
    };
    let mut fields: Vec<ComponentFieldInfo> = Vec::new();
    let mut index: usize = 0;
    let total: usize = table.len();
    while index < count as usize
        invariant
            segment.well_formed(),
            mem == segment@,
            base == address as int,
            index <= count,
            count == field_count(mem, base),
            table_fits(mem, base),
            total == table@.len(),
            total == count * 24,
            table@ == mem.subrange(base + 8, base + 8 + count * 24),
            fields@.len() == index,
            sound_before(mem, base, index as int),
            forall|i: int| 0 <= i < index ==> (#[trigger] fields@[i])@ == field_at(mem, record_at(base, i)),
        decreases count - index,
    {
        let start: usize = index * 24;
        let record: &[u8] = slice_subrange(table, start, start + 24);
        let ghost at = record_at(base, index as int);
        assert(record@ =~= mem.subrange(at, at + 24));
        match read_field(segment, record, Ghost(at)) {
            Ok(field) => {
                fields.push(field);
            },
            Err(e) => {
                assert(reports(e, field_fault(mem, record_at(base, index as int)), mem.len() as int));
                assert(!(field_fault(mem, record_at(base, index as int)) is Sound));
                return Err(e);
            },
        }
        index += 1;
    }
    let info = ComponentInfo { size, fields };
    assert(info@.fields =~= described(mem, base).fields);
    if info.is_consistent() {
        Ok(info)
    } else {
        Err(HostError::ValidationError { detail: "descriptor is not consistent".to_owned() })
    }
}

/// Number of bytes a 32-bit guest can address.
pub const ADDRESS_SPACE: u64 = 0x1_0000_0000;

/// Where the field `name` of a value at `base` lies, as the descriptor of the
/// value's type says: a run of as many bytes as the field has, at the
/// field's offset from `base`. A field that would start past the last guest
/// address is out of bounds of every segment.
pub fn field_slice(info: &ComponentInfo, base: u32, name: &str) -> (got: Result<
    WasmSlice<u8>,
    HostError,
>)
    ensures
        match got {
            Ok(run) => exists|i: int|
                #[trigger] info@.is_first_named(i, name@) && run.ptr == base
                    + info@.fields[i].offset && run.len == info@.fields[i].size,
            Err(e) => if info@.has_field(name@) {
                exists|i: int|
                    #[trigger] info@.is_first_named(i, name@) && base + info@.fields[i].offset
                        > u32::MAX && e == (HostError::OutOfBounds {
                        offset: (base + info@.fields[i].offset) as u64,
                        length: info@.fields[i].size as u64,
                        size: ADDRESS_SPACE,
                    })
            } else {
                e matches HostError::UnknownField { name: missing } && missing@ == name@
            },
        },
{
    let field: &ComponentFieldInfo = match info.field(name) {
        Ok(field) => field,
        Err(e) => { return Err(e); },
    };
    let ghost index = choose|i: int| #[trigger]
        info@.is_first_named(i, name@) && *field == info.fields@[i];
    assert(info@.fields[index] == field@);
    let start: u64 = base as u64 + field.offset as u64;
    if start > u32::MAX as u64 {
        return Err(
            HostError::OutOfBounds { offset: start, length: field.size as u64, size: ADDRESS_SPACE },
        );
    }
    Ok(WasmSlice::new(start as u32, field.size))
}

/// Whether two descriptors say the same: the same size and, field by field,
/// the same offset, size, name and declared type. A host may mirror a guest
/// type with a type of its own only after the two descriptors have been found
/// the same.
pub fn same_layout(left: &ComponentInfo, right: &ComponentInfo) -> (same: bool)
    ensures
        same == (left@ == right@),
{
    if left.size != right.size || left.fields.len() != right.fields.len() {
        assert(left@.fields.len() == left.fields@.len());
        assert(right@.fields.len() == right.fields@.len());
        return false;
    }
    let count: usize = left.fields.len();
    let mut i: usize = 0;
    while i < count
        invariant
            i <= count,
            count == left.fields@.len(),
            count == right.fields@.len(),
            left.size == right.size,
            forall|k: int| 0 <= k < i ==> left@.fields[k] == right@.fields[k],
        decreases count - i,
    {
        let a: &ComponentFieldInfo = &left.fields[i];
        let b: &ComponentFieldInfo = &right.fields[i];
        assert(a@ == left@.fields[i as int]);
        assert(b@ == right@.fields[i as int]);
        if a.offset != b.offset || a.size != b.size || a.name != b.name || a.ty != b.ty {
            return false;
        }
        i += 1;
    }
    assert(left@.fields =~= right@.fields);
    true
}

} // verus!
