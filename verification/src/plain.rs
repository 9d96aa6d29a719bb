use vstd::prelude::*;

verus! {

/// The unsigned 32-bit value that four bytes hold, lowest byte first.
pub open spec fn le_u32(bytes: Seq<u8>) -> u32 {
    (bytes[0] + bytes[1] * 0x100 + bytes[2] * 0x1_0000 + bytes[3] * 0x100_0000) as u32
}

/// The four bytes of an unsigned 32-bit value, lowest byte first.
pub open spec fn u32_le(value: u32) -> Seq<u8> {
    seq![
        (value % 0x100) as u8,
        (value / 0x100 % 0x100) as u8,
        (value / 0x1_0000 % 0x100) as u8,
        (value / 0x100_0000) as u8,
    ]
}

/// The signed reading of a 32-bit pattern in two's complement.
pub open spec fn signed_of(raw: u32) -> i32 {
    if raw < 0x8000_0000 {
        raw as i32
    } else {
        (raw - 0x1_0000_0000) as i32
    }
}

/// The 32-bit pattern of a signed value in two's complement.
pub open spec fn pattern_of(value: i32) -> u32 {
    if value >= 0 {
        value as u32
    } else {
        (value + 0x1_0000_0000) as u32
    }
}

/// The signed reading of a 64-bit pattern in two's complement.
pub open spec fn signed_of_wide(raw: u64) -> i64 {
    if raw < 0x8000_0000_0000_0000 {
        raw as i64
    } else {
        (raw - 0x1_0000_0000_0000_0000) as i64
    }
}

/// The 64-bit pattern of a signed value in two's complement.
pub open spec fn pattern_of_wide(value: i64) -> u64 {
    if value >= 0 {
        value as u64
    } else {
        (value + 0x1_0000_0000_0000_0000) as u64
    }
}

/// The signed reading of a 32-bit pattern.
pub fn to_signed(raw: u32) -> (value: i32)
    ensures
        value == signed_of(raw),
{
    if raw < 0x8000_0000 {
        raw as i32
    } else {
        let low: i32 = (raw - 0x8000_0000) as i32;
        low + i32::MIN
    }
}

/// The 32-bit pattern of a signed value.
pub fn to_pattern(value: i32) -> (raw: u32)
    ensures
        raw == pattern_of(value),
{
    if value >= 0 {
        value as u32
    } else {
        let low: i32 = value - i32::MIN;
        low as u32 + 0x8000_0000
    }
}

/// The signed reading of a 64-bit pattern.
pub fn to_signed_wide(raw: u64) -> (value: i64)
    ensures
        value == signed_of_wide(raw),
{
    if raw < 0x8000_0000_0000_0000 {
        raw as i64
    } else {
        let low: i64 = (raw - 0x8000_0000_0000_0000) as i64;
        low + i64::MIN
    }
}

/// The 64-bit pattern of a signed value.
pub fn to_pattern_wide(value: i64) -> (raw: u64)
    ensures
        raw == pattern_of_wide(value),
{
    if value >= 0 {
        value as u64
    } else {
        let low: i64 = value - i64::MIN;
        low as u64 + 0x8000_0000_0000_0000
    }
}

/// Reads an unsigned 32-bit value from four bytes, lowest byte first.
pub fn read_u32(bytes: &[u8]) -> (value: u32)
    requires
        bytes@.len() == 4,
    ensures
        value == le_u32(bytes@),
{
    let b0: u32 = bytes[0] as u32;
    let b1: u32 = bytes[1] as u32;
    let b2: u32 = bytes[2] as u32;
    let b3: u32 = bytes[3] as u32;
    b0 + b1 * 0x100 + b2 * 0x1_0000 + b3 * 0x100_0000
}

/// Lays an unsigned 32-bit value out as four bytes, lowest byte first.
pub fn write_u32(value: u32) -> (bytes: Vec<u8>)
    ensures
        bytes@ == u32_le(value),
{
    let mut bytes: Vec<u8> = Vec::with_capacity(4);
    bytes.push((value % 0x100) as u8);
    bytes.push((value / 0x100 % 0x100) as u8);
    bytes.push((value / 0x1_0000 % 0x100) as u8);
    bytes.push((value / 0x100_0000) as u8);
    assert(bytes@ =~= u32_le(value));
    bytes
}

/// Four bytes laid out from a value hold that value.
pub proof fn lemma_u32_layout(value: u32)
    ensures
        u32_le(value).len() == 4,
        le_u32(u32_le(value)) == value,
{
    let v = value;
    assert(v % 0x100 < 0x100 && v / 0x100 % 0x100 < 0x100 && v / 0x1_0000 % 0x100 < 0x100 && v
        / 0x100_0000 < 0x100) by (bit_vector);
    assert(v % 0x100 + (v / 0x100 % 0x100) * 0x100 + (v / 0x1_0000 % 0x100) * 0x1_0000 + (v
        / 0x100_0000) * 0x100_0000 == v) by (bit_vector);
}

/// A value read from four bytes lays out as those bytes.
pub proof fn lemma_u32_bytes(bytes: Seq<u8>)
    requires
        bytes.len() == 4,
    ensures
        u32_le(le_u32(bytes)) == bytes,
{
    let b0 = bytes[0] as u32;
    let b1 = bytes[1] as u32;
    let b2 = bytes[2] as u32;
    let b3 = bytes[3] as u32;
    let x = le_u32(bytes);
    assert(b0 < 0x100 && b1 < 0x100 && b2 < 0x100 && b3 < 0x100 ==> {
        let sum = b0 + b1 * 0x100 + b2 * 0x1_0000 + b3 * 0x100_0000;
        &&& sum % 0x100 == b0
        &&& sum / 0x100 % 0x100 == b1
        &&& sum / 0x1_0000 % 0x100 == b2
        &&& sum / 0x100_0000 == b3
    }) by (bit_vector);
    assert(x == b0 + b1 * 0x100 + b2 * 0x1_0000 + b3 * 0x100_0000);
    assert(u32_le(x) =~= bytes);
}

/// The signed and the unsigned reading of a 32-bit pattern determine each other.
pub proof fn lemma_signed_pattern(value: i32, raw: u32)
    ensures
        signed_of(pattern_of(value)) == value,
        pattern_of(signed_of(raw)) == raw,
{
}

/// The signed and the unsigned reading of a 64-bit pattern determine each other.
pub proof fn lemma_signed_pattern_wide(value: i64, raw: u64)
    ensures
        signed_of_wide(pattern_of_wide(value)) == value,
        pattern_of_wide(signed_of_wide(raw)) == raw,
{
}

/// A type whose values have one fixed byte layout in guest memory.
///
/// The layout is the guest's, not the host's: a value crosses the boundary
/// only as the bytes that `encode` gives and `decode` reads.
pub trait PlainData: Sized {
    /// Number of bytes a value occupies.
    spec fn width() -> nat;

    /// The value that `width()` bytes hold.
    spec fn decode(bytes: Seq<u8>) -> Self;

    /// The bytes that hold `self`.
    spec fn encode(&self) -> Seq<u8>;

    /// A value laid out as bytes and read back is the value itself.
    proof fn lemma_round_trip(value: Self)
        ensures
            value.encode().len() == Self::width(),
            Self::decode(value.encode()) == value,
    ;

    /// Number of bytes a value occupies.
    fn byte_width() -> (width: u32)
        ensures
            width == Self::width(),
    ;

    /// Reads a value from exactly `width()` bytes.
    fn from_bytes(bytes: &[u8]) -> (value: Self)
        requires
            bytes@.len() == Self::width(),
        ensures
            value == Self::decode(bytes@),
    ;

    /// Lays the value out as `width()` bytes.
    fn to_bytes(&self) -> (bytes: Vec<u8>)
        ensures
            bytes@ == self.encode(),
    ;
}

impl PlainData for u8 {
    open spec fn width() -> nat {
        1
    }

    open spec fn decode(bytes: Seq<u8>) -> u8 {
        bytes[0]
    }

    open spec fn encode(&self) -> Seq<u8> {
        seq![*self]
    }

    proof fn lemma_round_trip(value: u8) {
    }

    fn byte_width() -> (width: u32) {
        1
    }

    fn from_bytes(bytes: &[u8]) -> (value: u8) {
        bytes[0]
    }

    fn to_bytes(&self) -> (bytes: Vec<u8>) {
        let mut bytes: Vec<u8> = Vec::with_capacity(1);
        bytes.push(*self);
        assert(bytes@ =~= self.encode());
        bytes
    }
}

impl PlainData for bool {
    open spec fn width() -> nat {
        1
    }

    open spec fn decode(bytes: Seq<u8>) -> bool {
        bytes[0] != 0
    }

    open spec fn encode(&self) -> Seq<u8> {
        seq![if *self { 1u8 } else { 0u8 }]
    }

    proof fn lemma_round_trip(value: bool) {
    }

    fn byte_width() -> (width: u32) {
        1
    }

    fn from_bytes(bytes: &[u8]) -> (value: bool) {
        bytes[0] != 0
    }

    fn to_bytes(&self) -> (bytes: Vec<u8>) {
        let mut bytes: Vec<u8> = Vec::with_capacity(1);
        bytes.push(if *self { 1u8 } else { 0u8 });
        assert(bytes@ =~= self.encode());
        bytes
    }
}

impl PlainData for u32 {
    open spec fn width() -> nat {
        4
    }

    open spec fn decode(bytes: Seq<u8>) -> u32 {
        le_u32(bytes)
    }

    open spec fn encode(&self) -> Seq<u8> {
        u32_le(*self)
    }

    proof fn lemma_round_trip(value: u32) {
        lemma_u32_layout(value);
    }

    fn byte_width() -> (width: u32) {
        4
    }

    fn from_bytes(bytes: &[u8]) -> (value: u32) {
        read_u32(bytes)
    }

    fn to_bytes(&self) -> (bytes: Vec<u8>) {
        write_u32(*self)
    }
}

impl PlainData for i32 {
    open spec fn width() -> nat {
        4
    }

    open spec fn decode(bytes: Seq<u8>) -> i32 {
        signed_of(le_u32(bytes))
    }

    open spec fn encode(&self) -> Seq<u8> {
        u32_le(pattern_of(*self))
    }

    proof fn lemma_round_trip(value: i32) {
        lemma_u32_layout(pattern_of(value));
        lemma_signed_pattern(value, 0);
    }

    fn byte_width() -> (width: u32) {
        4
    }

    fn from_bytes(bytes: &[u8]) -> (value: i32) {
        to_signed(read_u32(bytes))
    }

    fn to_bytes(&self) -> (bytes: Vec<u8>) {
        write_u32(to_pattern(*self))
    }
}

} // verus!
