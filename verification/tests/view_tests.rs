use brane_host::component::{TestComponent, PI_BITS};
use brane_host::error::HostError;
use brane_host::plain::{read_u32, to_pattern, to_signed, write_u32, PlainData};
use brane_host::segment::SharedSegment;
use brane_host::view::{decode_text, locate, ByteRange, Stored, WasmPtr, WasmSlice};

fn image(writes: &[(usize, &[u8])]) -> Vec<u8> {
    let mut bytes = vec![0u8; 65_536];
    for (at, data) in writes {
        bytes[*at..*at + data.len()].copy_from_slice(data);
    }
    bytes
}

fn segment(writes: &[(usize, &[u8])]) -> SharedSegment {
    SharedSegment::from_bytes(image(writes), 2).unwrap()
}

fn apply(bytes: &mut Vec<u8>, stored: &Stored) {
    bytes[stored.range.start as usize..stored.range.end as usize].copy_from_slice(&stored.bytes);
}

#[test]
fn words_are_laid_out_lowest_byte_first() {
    assert_eq!(write_u32(0x1234_5678), vec![0x78, 0x56, 0x34, 0x12]);
    assert_eq!(read_u32(&[0x78, 0x56, 0x34, 0x12]), 0x1234_5678);
    assert_eq!(write_u32(0), vec![0, 0, 0, 0]);
    assert_eq!(write_u32(u32::MAX), vec![0xff, 0xff, 0xff, 0xff]);
    assert_eq!(read_u32(&[0xff, 0xff, 0xff, 0xff]), u32::MAX);
}

#[test]
fn signed_values_travel_in_twos_complement() {
    assert_eq!(to_signed(0), 0);
    assert_eq!(to_signed(0x7fff_ffff), i32::MAX);
    assert_eq!(to_signed(0x8000_0000), i32::MIN);
    assert_eq!(to_signed(u32::MAX), -1);
    assert_eq!(to_pattern(-1), u32::MAX);
    assert_eq!(to_pattern(i32::MIN), 0x8000_0000);
    assert_eq!(to_pattern(42), 42);
    assert_eq!((-2i32).to_bytes(), vec![0xfe, 0xff, 0xff, 0xff]);
    assert_eq!(i32::from_bytes(&[0xfe, 0xff, 0xff, 0xff]), -2);
}

#[test]
fn flags_occupy_one_byte() {
    assert_eq!(bool::byte_width(), 1);
    assert_eq!(true.to_bytes(), vec![1]);
    assert_eq!(false.to_bytes(), vec![0]);
    assert!(bool::from_bytes(&[1]));
    assert!(bool::from_bytes(&[200]));
    assert!(!bool::from_bytes(&[0]));
    assert_eq!(u8::from_bytes(&[200]), 200);
    assert_eq!(7u8.to_bytes(), vec![7]);
}

#[test]
fn pointer_resolves_exactly_within_the_current_size() {
    let segment = segment(&[(65_532, &[1, 2, 3, 4])]);
    let last = WasmPtr::<u32>::new(65_532);
    assert_eq!(last.resolve(&segment).unwrap(), &[1u8, 2, 3, 4][..]);
    assert_eq!(last.read(&segment), Ok(0x0403_0201));
    let past = WasmPtr::<u32>::new(65_533);
    assert_eq!(
        past.resolve(&segment).unwrap_err(),
        HostError::OutOfBounds { offset: 65_533, length: 4, size: 65_536 }
    );
    assert_eq!(
        past.read(&segment),
        Err(HostError::OutOfBounds { offset: 65_533, length: 4, size: 65_536 })
    );
    let mut larger = image(&[(65_532, &[1, 2, 3, 4])]);
    larger.resize(131_072, 0);
    let grown = SharedSegment::from_bytes(larger, 2).unwrap();
    assert_eq!(past.read(&grown), Ok(0x0004_0302));
    assert_eq!(last.read(&grown), Ok(0x0403_0201));
}

#[test]
fn store_out_of_bounds_is_not_prepared() {
    let past = WasmPtr::<u32>::new(65_534);
    assert_eq!(
        past.store(&0xffff_ffff, 65_536),
        Err(HostError::OutOfBounds { offset: 65_534, length: 4, size: 65_536 })
    );
    assert_eq!(
        past.store(&0xffff_ffff, 65_538),
        Ok(Stored { range: ByteRange { start: 65_534, end: 65_538 }, bytes: vec![0xff; 4] })
    );
    let far = WasmPtr::<u8>::new(u32::MAX);
    assert_eq!(
        far.read(&segment(&[])),
        Err(HostError::OutOfBounds { offset: 4_294_967_295, length: 1, size: 65_536 })
    );
    assert_eq!(
        far.store(&1, 65_536),
        Err(HostError::OutOfBounds { offset: 4_294_967_295, length: 1, size: 65_536 })
    );
}

#[test]
fn typed_values_round_trip_through_a_pointer() {
    let mut bytes = image(&[]);
    let word = WasmPtr::<u32>::new(16);
    apply(&mut bytes, &word.store(&0xdead_beef, 65_536).unwrap());
    let count = WasmPtr::<i32>::new(32);
    apply(&mut bytes, &count.store(&-123_456, 65_536).unwrap());
    let flag = WasmPtr::<bool>::new(40);
    apply(&mut bytes, &flag.store(&true, 65_536).unwrap());
    let byte = WasmPtr::<u8>::new(41);
    apply(&mut bytes, &byte.store(&255, 65_536).unwrap());
    let segment = SharedSegment::from_bytes(bytes, 1).unwrap();
    assert_eq!(word.read(&segment), Ok(0xdead_beef));
    assert_eq!(count.read(&segment), Ok(-123_456));
    assert_eq!(flag.read(&segment), Ok(true));
    assert_eq!(byte.read(&segment), Ok(255));
}

#[test]
fn component_round_trips_through_a_pointer() {
    let mut bytes = image(&[]);
    let pointer = WasmPtr::<TestComponent>::new(1024);
    assert_eq!(pointer.ptr, 1024);
    assert_eq!(pointer.read(&segment(&[])), Ok(TestComponent::new()));
    let value = TestComponent { a: true, b: -7, c: 0x3f80_0000 };
    let stored = pointer.store(&value, 65_536).unwrap();
    assert_eq!(stored.range, ByteRange { start: 1024, end: 1036 });
    assert_eq!(stored.bytes, vec![1, 0, 0, 0, 0xf9, 0xff, 0xff, 0xff, 0x00, 0x00, 0x80, 0x3f]);
    apply(&mut bytes, &stored);
    let segment = SharedSegment::from_bytes(bytes, 1).unwrap();
    assert_eq!(pointer.read(&segment), Ok(value));
    assert_eq!(
        segment.read(1024, 12),
        Ok(vec![1, 0, 0, 0, 0xf9, 0xff, 0xff, 0xff, 0x00, 0x00, 0x80, 0x3f])
    );
}

#[test]
fn component_values_of_the_sample_guests() {
    assert_eq!(TestComponent::new(), TestComponent { a: false, b: 0, c: 0 });
    assert_eq!(TestComponent::new().c, 0.0f32.to_bits());
    assert_eq!(PI_BITS, 3.14f32.to_bits());
    assert_eq!(TestComponent::accessed(), TestComponent { a: true, b: 42, c: 3.14f32.to_bits() });
    assert_eq!(TestComponent::byte_width(), 12);
    assert_eq!(
        TestComponent::accessed().to_bytes(),
        vec![1, 0, 0, 0, 42, 0, 0, 0, 0xc3, 0xf5, 0x48, 0x40]
    );
    assert_eq!(TestComponent::new().to_bytes(), vec![0u8; 12]);
}

#[test]
fn writes_through_one_pointer_are_seen_through_another() {
    let mut bytes = image(&[]);
    let writer = WasmPtr::<TestComponent>::new(2048);
    let reader = WasmPtr::<TestComponent>::new(2048);
    apply(&mut bytes, &writer.store(&TestComponent::accessed(), 65_536).unwrap());
    let segment = SharedSegment::from_bytes(bytes, 1).unwrap();
    assert_eq!(reader.read(&segment), Ok(TestComponent::accessed()));
    let count = WasmPtr::<i32>::new(2048 + 4);
    assert_eq!(count.read(&segment), Ok(42));
}

#[test]
fn slice_reads_every_element_in_order() {
    let segment = segment(&[(8, &[1, 0, 0, 0, 2, 0, 0, 0, 0, 1, 0, 0])]);
    let run = WasmSlice::<u32>::new(8, 3);
    assert_eq!(run.ptr, 8);
    assert_eq!(run.len, 3);
    assert_eq!(run.read(&segment), Ok(vec![1, 2, 256]));
    assert_eq!(run.resolve(&segment).unwrap().len(), 12);
    let empty = WasmSlice::<u32>::new(65_536, 0);
    assert_eq!(empty.read(&segment), Ok(vec![]));
}

#[test]
fn slice_must_fit_whole() {
    let segment = segment(&[]);
    let fits = WasmSlice::<u32>::new(65_528, 2);
    assert_eq!(fits.read(&segment), Ok(vec![0, 0]));
    let spills = WasmSlice::<u32>::new(65_528, 3);
    assert_eq!(
        spills.read(&segment),
        Err(HostError::OutOfBounds { offset: 65_528, length: 12, size: 65_536 })
    );
    let huge = WasmSlice::<u32>::new(0, u32::MAX);
    assert_eq!(
        huge.resolve(&segment).unwrap_err(),
        HostError::OutOfBounds { offset: 0, length: 17_179_869_180, size: 65_536 }
    );
}

#[test]
fn text_is_read_as_utf8() {
    let segment = segment(&[(100, "h\u{e9}llo w\u{f6}rld".as_bytes())]);
    let run = WasmSlice::<u8>::new(100, 13);
    assert_eq!(run.text(&segment), Ok(Some("h\u{e9}llo w\u{f6}rld".to_string())));
    let empty = WasmSlice::<u8>::new(100, 0);
    assert_eq!(empty.text(&segment), Ok(Some(String::new())));
}

#[test]
fn malformed_text_is_no_text() {
    let segment = segment(&[(100, &[b'a', 0xff, b'b']), (200, "\u{e9}".as_bytes())]);
    let run = WasmSlice::<u8>::new(100, 3);
    assert_eq!(run.text(&segment), Ok(None));
    let cut = WasmSlice::<u8>::new(200, 1);
    assert_eq!(cut.text(&segment), Ok(None));
    let whole = WasmSlice::<u8>::new(200, 2);
    assert_eq!(whole.text(&segment), Ok(Some("\u{e9}".to_string())));
}

#[test]
fn text_out_of_bounds_is_reported() {
    let segment = segment(&[]);
    let run = WasmSlice::<u8>::new(65_530, 7);
    assert_eq!(
        run.text(&segment),
        Err(HostError::OutOfBounds { offset: 65_530, length: 7, size: 65_536 })
    );
}

#[test]
fn located_range_holds_at_every_larger_size() {
    let pointer = WasmPtr::<TestComponent>::new(65_524);
    assert_eq!(pointer.locate(65_536), Ok(ByteRange { start: 65_524, end: 65_536 }));
    assert_eq!(pointer.locate(131_072), Ok(ByteRange { start: 65_524, end: 65_536 }));
    assert_eq!(
        pointer.locate(65_535),
        Err(HostError::OutOfBounds { offset: 65_524, length: 12, size: 65_535 })
    );
    let run = WasmSlice::<u32>::new(16, 4);
    assert_eq!(run.locate(32), Ok(ByteRange { start: 16, end: 32 }));
    assert_eq!(run.locate(31), Err(HostError::OutOfBounds { offset: 16, length: 16, size: 31 }));
    assert_eq!(locate(0, 0, 0), Ok(ByteRange { start: 0, end: 0 }));
    assert_eq!(
        locate(u32::MAX, u64::MAX, u64::MAX),
        Err(HostError::OutOfBounds { offset: 4_294_967_295, length: u64::MAX, size: u64::MAX })
    );
}

#[test]
fn bytes_are_decoded_as_utf8_or_not_at_all() {
    assert_eq!(decode_text("Wasm Print".as_bytes().to_vec()), Some("Wasm Print".to_string()));
    assert_eq!(decode_text(vec![]), Some(String::new()));
    assert_eq!(decode_text(vec![0xe2, 0x82, 0xac]), Some("\u{20ac}".to_string()));
    assert_eq!(decode_text(vec![0xe2, 0x82]), None);
    assert_eq!(decode_text(vec![0xc0, 0x80]), None);
}
