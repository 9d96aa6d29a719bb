use brane_host::component::{Reflect, TestComponent};
use brane_host::descriptor::{ComponentFieldInfo, ComponentInfo};
use brane_host::error::HostError;
use brane_host::plain::{write_u32, PlainData};
use brane_host::reflect::{field_slice, read_descriptor, read_text, same_layout};
use brane_host::segment::SharedSegment;
use brane_host::view::WasmPtr;

fn blank() -> Vec<u8> {
    vec![0u8; 65_536]
}

fn seal(bytes: Vec<u8>) -> SharedSegment {
    SharedSegment::from_bytes(bytes, 1).unwrap()
}

fn put(segment: &mut Vec<u8>, at: u64, data: &[u8]) {
    segment[at as usize..at as usize + data.len()].copy_from_slice(data);
}

fn field(offset: u32, size: u32, name: &str, ty: &str) -> ComponentFieldInfo {
    ComponentFieldInfo { offset, size, name: name.to_string(), ty: ty.to_string() }
}

fn put_word(segment: &mut Vec<u8>, at: u64, value: u32) {
    put(segment, at, &write_u32(value));
}

fn put_descriptor(segment: &mut Vec<u8>, at: u64, info: &ComponentInfo, mut text_at: u64) {
    put_word(segment, at, info.size);
    put_word(segment, at + 4, info.fields.len() as u32);
    let mut record = at + 8;
    for f in info.fields.iter() {
        put_word(segment, record, f.offset);
        put_word(segment, record + 4, f.size);
        put(segment, text_at, f.name.as_bytes());
        put_word(segment, record + 8, text_at as u32);
        put_word(segment, record + 12, f.name.len() as u32);
        text_at += f.name.len() as u64;
        put(segment, text_at, f.ty.as_bytes());
        put_word(segment, record + 16, text_at as u32);
        put_word(segment, record + 20, f.ty.len() as u32);
        text_at += f.ty.len() as u64;
        record += 24;
    }
}

#[test]
fn descriptor_of_the_component_is_as_the_guest_lays_it_out() {
    let info = TestComponent::describe();
    assert_eq!(
        info,
        ComponentInfo {
            size: 12,
            fields: vec![
                field(0, 1, "a", "bool"),
                field(4, 4, "b", "i32"),
                field(8, 4, "c", "f32"),
            ],
        }
    );
    assert_eq!(info.size, TestComponent::byte_width());
    assert!(info.is_consistent());
}

#[test]
fn largest_field_end_is_within_the_size_and_fields_are_disjoint() {
    let info = TestComponent::describe();
    let extent = info.fields.iter().map(|f| f.offset + f.size).max().unwrap();
    assert_eq!(extent, 12);
    assert!(extent <= info.size);
    for (i, a) in info.fields.iter().enumerate() {
        for (j, b) in info.fields.iter().enumerate() {
            if i != j {
                assert!(!a.overlaps(b));
            }
        }
    }
}

#[test]
fn overlapping_fields_are_inconsistent() {
    let info = ComponentInfo { size: 8, fields: vec![field(0, 4, "x", "u32"), field(3, 4, "y", "u32")] };
    assert!(!info.is_consistent());
    assert!(field(0, 4, "x", "u32").overlaps(&field(3, 4, "y", "u32")));
    assert!(field(3, 4, "y", "u32").overlaps(&field(0, 4, "x", "u32")));
    assert!(!field(0, 4, "x", "u32").overlaps(&field(4, 4, "y", "u32")));
    assert!(field(2, 1, "x", "u8").overlaps(&field(0, 8, "y", "u64")));
    assert!(field(0, 4, "x", "u32").overlaps(&field(0, 4, "x", "u32")));
}

#[test]
fn field_past_the_size_is_inconsistent() {
    let info = ComponentInfo { size: 7, fields: vec![field(0, 4, "x", "u32"), field(4, 4, "y", "u32")] };
    assert!(!info.is_consistent());
    let exact = ComponentInfo { size: 8, fields: vec![field(0, 4, "x", "u32"), field(4, 4, "y", "u32")] };
    assert!(exact.is_consistent());
    let huge = ComponentInfo { size: u32::MAX, fields: vec![field(u32::MAX, u32::MAX, "x", "?")] };
    assert!(!huge.is_consistent());
}

#[test]
fn empty_fields_share_no_byte() {
    let info = ComponentInfo {
        size: 4,
        fields: vec![field(0, 4, "x", "u32"), field(2, 0, "marker", "()"), field(4, 0, "end", "()")],
    };
    assert!(info.is_consistent());
    assert!(!field(2, 0, "marker", "()").overlaps(&field(0, 4, "x", "u32")));
    let none = ComponentInfo { size: 0, fields: vec![] };
    assert!(none.is_consistent());
}

#[test]
fn fields_out_of_order_are_still_consistent() {
    let info = ComponentInfo { size: 8, fields: vec![field(4, 4, "y", "u32"), field(0, 4, "x", "u32")] };
    assert!(info.is_consistent());
}

#[test]
fn field_is_found_by_name() {
    let info = TestComponent::describe();
    let b = info.field("b").unwrap();
    assert_eq!((b.offset, b.size, b.ty.as_str()), (4, 4, "i32"));
    let c = info.field("c").unwrap();
    assert_eq!((c.offset, c.size, c.ty.as_str()), (8, 4, "f32"));
    let a = info.field("a").unwrap();
    assert_eq!((a.offset, a.size, a.ty.as_str()), (0, 1, "bool"));
}

#[test]
fn unknown_field_is_reported_by_name() {
    let info = TestComponent::describe();
    assert_eq!(info.field("z").unwrap_err(), HostError::UnknownField { name: "z".to_string() });
    assert_eq!(info.field("").unwrap_err(), HostError::UnknownField { name: String::new() });
    assert_eq!(info.field("A").unwrap_err(), HostError::UnknownField { name: "A".to_string() });
}

#[test]
fn first_field_of_a_name_is_the_one_found() {
    let info = ComponentInfo { size: 8, fields: vec![field(0, 4, "x", "u32"), field(4, 4, "x", "i32")] };
    assert_eq!(info.field("x").unwrap().ty, "u32");
}

#[test]
fn field_slice_lies_at_base_plus_offset() {
    let info = TestComponent::describe();
    let run = field_slice(&info, 1024, "b").unwrap();
    assert_eq!((run.ptr, run.len), (1028, 4));
    let run = field_slice(&info, 1024, "a").unwrap();
    assert_eq!((run.ptr, run.len), (1024, 1));
    assert_eq!(
        field_slice(&info, 1024, "d").err(),
        Some(HostError::UnknownField { name: "d".to_string() })
    );
    let last = field_slice(&info, u32::MAX - 8, "c").unwrap();
    assert_eq!((last.ptr, last.len), (u32::MAX, 4));
    assert_eq!(
        field_slice(&info, u32::MAX - 7, "c").err(),
        Some(HostError::OutOfBounds { offset: 4_294_967_296, length: 4, size: 4_294_967_296 })
    );
}

#[test]
fn field_is_read_through_the_descriptor() {
    let mut segment = blank();
    put(&mut segment, 2000, &TestComponent::accessed().to_bytes());
    let info = TestComponent::describe();
    let b = field_slice(&info, 2000, "b").unwrap();
    assert_eq!(b.read(&seal(segment.clone())), Ok(vec![42, 0, 0, 0]));
    assert_eq!(WasmPtr::<i32>::new(b.ptr).read(&seal(segment.clone())), Ok(42));
    let c = field_slice(&info, 2000, "c").unwrap();
    assert_eq!(WasmPtr::<u32>::new(c.ptr).read(&seal(segment.clone())), Ok(3.14f32.to_bits()));
    let a = field_slice(&info, 2000, "a").unwrap();
    assert_eq!(WasmPtr::<bool>::new(a.ptr).read(&seal(segment.clone())), Ok(true));
    let outside = field_slice(&info, 65_530, "c").unwrap();
    assert_eq!(
        outside.read(&seal(segment.clone())),
        Err(HostError::OutOfBounds { offset: 65_538, length: 4, size: 65_536 })
    );
}

#[test]
fn descriptor_is_read_from_guest_memory() {
    let mut segment = blank();
    let info = TestComponent::describe();
    put_descriptor(&mut segment, 256, &info, 4096);
    assert_eq!(read_descriptor(&seal(segment.clone()), 256), Ok(info.clone()));
    assert!(same_layout(&read_descriptor(&seal(segment.clone()), 256).unwrap(), &info));
    assert_eq!(
        seal(segment.clone()).read(256, 16),
        Ok(vec![12, 0, 0, 0, 3, 0, 0, 0, 0, 0, 0, 0, 1, 0, 0, 0])
    );
}

#[test]
fn descriptor_without_fields_is_read() {
    let mut segment = blank();
    put_word(&mut segment, 65_528, 40);
    put_word(&mut segment, 65_532, 0);
    assert_eq!(read_descriptor(&seal(segment.clone()), 65_528), Ok(ComponentInfo { size: 40, fields: vec![] }));
}

#[test]
fn descriptor_head_out_of_bounds_is_reported() {
    let segment = blank();
    assert_eq!(
        read_descriptor(&seal(segment.clone()), 65_529),
        Err(HostError::OutOfBounds { offset: 65_529, length: 8, size: 65_536 })
    );
    assert_eq!(
        read_descriptor(&seal(segment.clone()), u32::MAX),
        Err(HostError::OutOfBounds { offset: 4_294_967_295, length: 8, size: 65_536 })
    );
}

#[test]
fn descriptor_records_out_of_bounds_are_reported() {
    let mut segment = blank();
    put_word(&mut segment, 65_500, 12);
    put_word(&mut segment, 65_504, 2);
    assert_eq!(
        read_descriptor(&seal(segment.clone()), 65_500),
        Err(HostError::OutOfBounds { offset: 65_508, length: 48, size: 65_536 })
    );
    put_word(&mut segment, 65_504, u32::MAX);
    assert_eq!(
        read_descriptor(&seal(segment.clone()), 65_500),
        Err(HostError::OutOfBounds { offset: 65_508, length: 103_079_215_080, size: 65_536 })
    );
}

#[test]
fn descriptor_with_a_name_out_of_bounds_is_reported() {
    let mut segment = blank();
    let info = TestComponent::describe();
    put_descriptor(&mut segment, 256, &info, 4096);
    put_word(&mut segment, 256 + 8 + 24 + 8, 65_535);
    put_word(&mut segment, 256 + 8 + 24 + 12, 2);
    assert_eq!(
        read_descriptor(&seal(segment.clone()), 256),
        Err(HostError::OutOfBounds { offset: 65_535, length: 2, size: 65_536 })
    );
}

#[test]
fn descriptor_with_malformed_text_is_refused() {
    let mut segment = blank();
    let info = TestComponent::describe();
    put_descriptor(&mut segment, 256, &info, 4096);
    put(&mut segment, 5000, &[0xc3]);
    put_word(&mut segment, 256 + 8 + 48 + 16, 5000);
    put_word(&mut segment, 256 + 8 + 48 + 20, 1);
    assert_eq!(
        read_descriptor(&seal(segment.clone()), 256),
        Err(HostError::ValidationError { detail: "text in guest memory is not UTF-8".to_string() })
    );
}

#[test]
fn inconsistent_descriptor_in_guest_memory_is_refused() {
    let mut segment = blank();
    let overlapping =
        ComponentInfo { size: 8, fields: vec![field(0, 4, "x", "u32"), field(3, 4, "y", "u32")] };
    put_descriptor(&mut segment, 256, &overlapping, 4096);
    assert_eq!(
        read_descriptor(&seal(segment.clone()), 256),
        Err(HostError::ValidationError { detail: "descriptor is not consistent".to_string() })
    );
    let spilling = ComponentInfo { size: 3, fields: vec![field(0, 4, "x", "u32")] };
    put_descriptor(&mut segment, 1024, &spilling, 8192);
    assert_eq!(
        read_descriptor(&seal(segment.clone()), 1024),
        Err(HostError::ValidationError { detail: "descriptor is not consistent".to_string() })
    );
    let sound = ComponentInfo { size: 4, fields: vec![field(0, 4, "x", "u32")] };
    put_descriptor(&mut segment, 1024, &sound, 8192);
    assert_eq!(read_descriptor(&seal(segment.clone()), 1024), Ok(sound));
}


#[test]
fn first_unreadable_record_decides_the_error() {
    let mut segment = blank();
    let info = TestComponent::describe();
    put_descriptor(&mut segment, 256, &info, 4096);
    put(&mut segment, 5000, &[0xff]);
    put_word(&mut segment, 256 + 8 + 24 + 16, 5000);
    put_word(&mut segment, 256 + 8 + 24 + 20, 1);
    put_word(&mut segment, 256 + 8 + 48 + 8, 65_536);
    put_word(&mut segment, 256 + 8 + 48 + 12, 1);
    assert_eq!(
        read_descriptor(&seal(segment.clone()), 256),
        Err(HostError::ValidationError { detail: "text in guest memory is not UTF-8".to_string() })
    );
    put_word(&mut segment, 256 + 8 + 8, 65_536);
    put_word(&mut segment, 256 + 8 + 12, 1);
    assert_eq!(
        read_descriptor(&seal(segment.clone()), 256),
        Err(HostError::OutOfBounds { offset: 65_536, length: 1, size: 65_536 })
    );
}

#[test]
fn text_is_read_from_guest_memory() {
    let mut segment = blank();
    put(&mut segment, 300, "Test function passed 42".as_bytes());
    assert_eq!(read_text(&seal(segment.clone()), 300, 23), Ok("Test function passed 42".to_string()));
    assert_eq!(read_text(&seal(segment.clone()), 300, 4), Ok("Test".to_string()));
    assert_eq!(
        read_text(&seal(segment.clone()), 65_536, 1),
        Err(HostError::OutOfBounds { offset: 65_536, length: 1, size: 65_536 })
    );
    put(&mut segment, 400, &[0x80]);
    assert_eq!(
        read_text(&seal(segment.clone()), 400, 1),
        Err(HostError::ValidationError { detail: "text in guest memory is not UTF-8".to_string() })
    );
}

#[test]
fn layouts_are_the_same_only_field_by_field() {
    let info = TestComponent::describe();
    assert!(same_layout(&info, &TestComponent::describe()));
    let mut other = TestComponent::describe();
    other.fields[1].offset = 2;
    assert!(!same_layout(&info, &other));
    let mut renamed = TestComponent::describe();
    renamed.fields[2].ty = "u32".to_string();
    assert!(!same_layout(&info, &renamed));
    let mut shorter = TestComponent::describe();
    shorter.fields.pop();
    assert!(!same_layout(&info, &shorter));
    let mut resized = TestComponent::describe();
    resized.size = 16;
    assert!(!same_layout(&info, &resized));
}
