use brane_host::error::HostError;
use brane_host::segment::{SharedSegment, PAGE_LIMIT, PAGE_SIZE};

fn image(pages: usize, max_pages: u32, writes: &[(usize, &[u8])]) -> SharedSegment {
    let mut bytes = vec![0u8; pages * 65_536];
    for (at, data) in writes {
        bytes[*at..*at + data.len()].copy_from_slice(data);
    }
    SharedSegment::from_bytes(bytes, max_pages).unwrap()
}

#[test]
fn page_constants() {
    assert_eq!(PAGE_SIZE, 65536);
    assert_eq!(PAGE_LIMIT, 65536);
}

#[test]
fn snapshot_is_sized_in_pages() {
    let segment = image(50, 32768, &[]);
    assert_eq!(segment.current_size(), 3_276_800);
    assert_eq!(segment.pages(), 50);
    assert_eq!(segment.maximum_pages(), 32768);
    assert_eq!(segment.read(0, 4), Ok(vec![0, 0, 0, 0]));
    assert_eq!(segment.read(3_276_796, 4), Ok(vec![0, 0, 0, 0]));
}

#[test]
fn snapshot_keeps_the_bytes_given() {
    let mut bytes = vec![0u8; 65_536];
    bytes[5] = 9;
    let segment = SharedSegment::from_bytes(bytes, 2).unwrap();
    assert_eq!(segment.pages(), 1);
    assert_eq!(segment.maximum_pages(), 2);
    assert_eq!(segment.read(4, 3), Ok(vec![0, 9, 0]));
}

#[test]
fn snapshot_refuses_partial_pages_and_excess() {
    assert_eq!(
        SharedSegment::from_bytes(vec![0u8; 100], 2).unwrap_err(),
        HostError::CapacityExceeded { current_pages: 0, additional_pages: 0, max_pages: 2 }
    );
    assert_eq!(
        SharedSegment::from_bytes(vec![0u8; 131_072], 1).unwrap_err(),
        HostError::CapacityExceeded { current_pages: 0, additional_pages: 2, max_pages: 1 }
    );
    assert_eq!(
        SharedSegment::from_bytes(vec![0u8; 65_536], 65_537).unwrap_err(),
        HostError::CapacityExceeded { current_pages: 0, additional_pages: 1, max_pages: 65_537 }
    );
    assert!(SharedSegment::from_bytes(vec![0u8; 65_536], 1).is_ok());
}

#[test]
fn empty_snapshot_is_allowed() {
    let segment = SharedSegment::from_bytes(vec![], 0).unwrap();
    assert_eq!(segment.current_size(), 0);
    assert_eq!(segment.pages(), 0);
    assert_eq!(segment.read(0, 0), Ok(vec![]));
    assert_eq!(
        segment.read(0, 1),
        Err(HostError::OutOfBounds { offset: 0, length: 1, size: 0 })
    );
}

#[test]
fn read_returns_the_bytes_of_the_range() {
    let segment = image(1, 1, &[(10, &[1, 2, 3])]);
    assert_eq!(segment.read(10, 3), Ok(vec![1, 2, 3]));
    assert_eq!(segment.read(9, 5), Ok(vec![0, 1, 2, 3, 0]));
    assert_eq!(segment.slice(11, 2).unwrap(), &[2u8, 3u8][..]);
}

#[test]
fn access_at_the_very_end_is_in_bounds() {
    let segment = image(1, 1, &[(65_533, &[4, 5, 6])]);
    assert_eq!(segment.read(65_533, 3), Ok(vec![4, 5, 6]));
    assert_eq!(segment.read(65_536, 0), Ok(vec![]));
    assert_eq!(segment.slice(65_536, 0).unwrap().len(), 0);
}

#[test]
fn access_past_the_end_is_out_of_bounds() {
    let segment = image(1, 1, &[]);
    assert_eq!(segment.read(65_534, 2), Ok(vec![0, 0]));
    assert_eq!(
        segment.read(65_534, 3),
        Err(HostError::OutOfBounds { offset: 65_534, length: 3, size: 65_536 })
    );
    assert_eq!(
        segment.slice(65_534, 3).unwrap_err(),
        HostError::OutOfBounds { offset: 65_534, length: 3, size: 65_536 }
    );
    assert_eq!(
        segment.read(u64::MAX, 2),
        Err(HostError::OutOfBounds { offset: u64::MAX, length: 2, size: 65_536 })
    );
    assert_eq!(
        segment.read(0, u64::MAX),
        Err(HostError::OutOfBounds { offset: 0, length: u64::MAX, size: 65_536 })
    );
}

#[test]
fn out_of_bounds_becomes_in_bounds_in_a_larger_snapshot() {
    let small = image(1, 2, &[(65_533, &[1, 2, 3])]);
    assert!(small.read(65_536, 4).is_err());
    let grown = image(2, 2, &[(65_533, &[1, 2, 3])]);
    assert_eq!(grown.read(65_536, 4), Ok(vec![0, 0, 0, 0]));
    assert_eq!(grown.read(65_533, 6), Ok(vec![1, 2, 3, 0, 0, 0]));
}
