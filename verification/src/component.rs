use vstd::prelude::*;
use vstd::slice::slice_subrange;
use crate::descriptor::{ComponentFieldInfo, ComponentInfo, FieldLayout, Layout};
use crate::plain::{le_u32, lemma_signed_pattern, lemma_u32_layout, pattern_of, signed_of, u32_le, PlainData};

verus! {

/// A plain-data type that comes with the descriptor of its guest layout.
///
/// The descriptor is fixed when the guest is built. Looking it up runs no
/// guest code.
pub trait Reflect: PlainData {
    /// What the descriptor of the type says.
    spec fn layout() -> Layout;

    /// The descriptor of the type.
    fn describe() -> (info: ComponentInfo)
        ensures
            info@ == Self::layout(),
            info@.well_formed(),
            info@.size == Self::width(),
    ;
}

/// The component that the sample guests build and change: a flag, a signed
/// count and a 32-bit IEEE-754 number, laid out as C lays out a struct.
///
/// `c` holds the bit pattern of the number.
#[derive(Clone, Copy, Debug, PartialEq, Eq)]
pub struct TestComponent {
    pub a: bool,
    pub b: i32,
    pub c: u32,
}

/// Bit pattern of the 32-bit IEEE-754 number nearest to 3.14.
pub const PI_BITS: u32 = 0x4048_F5C3;

impl TestComponent {
    /// The value a freshly constructed component holds: a cleared flag, a
    /// count of zero and the number zero.
    pub fn new() -> (made: TestComponent)
        ensures
            made == (TestComponent { a: false, b: 0, c: 0 }),
    {
        TestComponent { a: false, b: 0, c: 0 }
    }

    /// The value a component holds after the second sample guest has been
    /// given access to it: a set flag, the count 42 and the number 3.14.
    pub fn accessed() -> (made: TestComponent)
        ensures
            made == (TestComponent { a: true, b: 42, c: PI_BITS }),
    {
        TestComponent { a: true, b: 42, c: PI_BITS }
    }
}

impl PlainData for TestComponent {
    open spec fn width() -> nat {
        12
    }

    open spec fn decode(bytes: Seq<u8>) -> TestComponent {
        TestComponent {
            a: bytes[0] != 0,
            b: signed_of(le_u32(bytes.subrange(4, 8))),
            c: le_u32(bytes.subrange(8, 12)),
        }
    }

    open spec fn encode(&self) -> Seq<u8> {
        seq![if self.a { 1u8 } else { 0u8 }, 0u8, 0u8, 0u8] + u32_le(pattern_of(self.b)) + u32_le(
            self.c,
        )
    }

    proof fn lemma_round_trip(value: TestComponent) {
        lemma_u32_layout(pattern_of(value.b));
        lemma_u32_layout(value.c);
        lemma_signed_pattern(value.b, 0);
        let bytes = value.encode();
        assert(bytes.subrange(4, 8) =~= u32_le(pattern_of(value.b)));
        assert(bytes.subrange(8, 12) =~= u32_le(value.c));
    }

    fn byte_width() -> (width: u32) {
        12
    }

    fn from_bytes(bytes: &[u8]) -> (value: TestComponent) {
        let a: bool = bytes[0] != 0;
        let b: i32 = i32::from_bytes(slice_subrange(bytes, 4, 8));
        let c: u32 = u32::from_bytes(slice_subrange(bytes, 8, 12));
        TestComponent { a, b, c }
    }

    fn to_bytes(&self) -> (bytes: Vec<u8>) {
        let mut bytes: Vec<u8> = Vec::with_capacity(12);
        bytes.push(if self.a { 1u8 } else { 0u8 });
        bytes.push(0u8);
        bytes.push(0u8);
        bytes.push(0u8);
        let mut count: Vec<u8> = self.b.to_bytes();
        let mut number: Vec<u8> = self.c.to_bytes();
        bytes.append(&mut count);
        bytes.append(&mut number);
        assert(bytes@ =~= self.encode());
        bytes
    }
}

impl Reflect for TestComponent {
    open spec fn layout() -> Layout {
        Layout {
            size: 12,
            fields: seq![
                FieldLayout { offset: 0, size: 1, name: "a"@, ty: "bool"@ },
                FieldLayout { offset: 4, size: 4, name: "b"@, ty: "i32"@ },
                FieldLayout { offset: 8, size: 4, name: "c"@, ty: "f32"@ },
            ],
        }
    }

    fn describe() -> (info: ComponentInfo) {
        let mut fields: Vec<ComponentFieldInfo> = Vec::with_capacity(3);
        fields.push(
            ComponentFieldInfo { offset: 0, size: 1, name: "a".to_owned(), ty: "bool".to_owned() },
        );
        fields.push(
            ComponentFieldInfo { offset: 4, size: 4, name: "b".to_owned(), ty: "i32".to_owned() },
        );
        fields.push(
            ComponentFieldInfo { offset: 8, size: 4, name: "c".to_owned(), ty: "f32".to_owned() },
        );
        let info = ComponentInfo { size: 12, fields };
        assert(info@.fields =~= Self::layout().fields);
        info
    }
}

/// The bytes of each field of a `TestComponent`, at the place its descriptor
/// gives, are the bytes of the field's own value.
pub proof fn lemma_fields_at_described_offsets(value: TestComponent)
    ensures
        value.encode().subrange(0, 1) == value.a.encode(),
        value.encode().subrange(4, 8) == value.b.encode(),
        value.encode().subrange(8, 12) == value.c.encode(),
{
    lemma_u32_layout(pattern_of(value.b));
    lemma_u32_layout(value.c);
    assert(value.encode().subrange(0, 1) =~= value.a.encode());
    assert(value.encode().subrange(4, 8) =~= value.b.encode());
    assert(value.encode().subrange(8, 12) =~= value.c.encode());
}

} // verus!
