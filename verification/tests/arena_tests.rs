use textbridge::arena::{AllocError, Arena, FreeError, Region};
use textbridge::codec;
use textbridge::codec::CodecError;

#[test]
fn allocate_bumps_and_returns_offsets() {
    let mut a = Arena::new(100);
    assert_eq!(a.capacity(), 100);
    assert_eq!(a.used(), 0);
    let off0 = a.allocate(10).unwrap();
    let off1 = a.allocate(5).unwrap();
    assert_eq!(off0, 0);
    assert_eq!(off1, 10);
    assert_eq!(a.used(), 15);
}

#[test]
fn allocate_refuses_when_full() {
    let mut a = Arena::new(8);
    assert_eq!(a.allocate(9), Err(AllocError::OutOfSpace));
    assert_eq!(a.allocate(8), Ok(0));
    assert_eq!(a.allocate(1), Err(AllocError::OutOfSpace));
}

#[test]
fn accounting_returns_to_start_after_matching_frees() {
    let mut a = Arena::new(100);
    let start = a.reclaimable();
    assert_eq!(start, 100);
    let off0 = a.allocate(10).unwrap();
    let off1 = a.allocate(7).unwrap();
    assert_eq!(a.reclaimable(), 83);
    assert_eq!(a.deallocate(off0, 10), Ok(()));
    assert_eq!(a.reclaimable(), 93);
    assert_eq!(a.deallocate(off1, 7), Ok(()));
    assert_eq!(a.reclaimable(), start);
}

#[test]
fn free_with_wrong_size_is_a_size_mismatch() {
    let mut a = Arena::new(32);
    let off = a.allocate(4).unwrap();
    assert_eq!(a.deallocate(off, 3), Err(FreeError::SizeMismatch));
    assert_eq!(a.deallocate(off, 4), Ok(()));
}

#[test]
fn free_of_unknown_offset_is_invalid() {
    let mut a = Arena::new(32);
    let off = a.allocate(4).unwrap();
    assert_eq!(a.deallocate(off + 1, 3), Err(FreeError::InvalidFree));
    assert_eq!(a.deallocate(off, 4), Ok(()));
    // The pair was already reclaimed: a second free of it is refused.
    assert_eq!(a.deallocate(off, 4), Err(FreeError::InvalidFree));
}

#[test]
fn round_trip_encode_then_decode() {
    let mut a = Arena::new(64);
    let d = codec::encode_new(&mut a, b"hello, arena").unwrap();
    assert_eq!(d.len, 12);
    let back = codec::decode(&a, d.off, d.len).unwrap();
    assert_eq!(back, b"hello, arena".to_vec());
}

#[test]
fn decode_outside_live_regions_is_refused() {
    let mut a = Arena::new(64);
    let d = codec::encode_new(&mut a, b"abcd").unwrap();
    assert_eq!(codec::decode(&a, d.off, d.len + 1), Err(CodecError::BadDescriptor));
    assert_eq!(codec::decode(&a, d.off + 40, 2), Err(CodecError::BadDescriptor));
    assert!(codec::decode(&a, d.off, d.len).is_ok());
}

#[test]
fn encode_new_regions_do_not_overlap() {
    let mut a = Arena::new(64);
    let d0 = codec::encode_new(&mut a, b"first").unwrap();
    let d1 = codec::encode_new(&mut a, b"second").unwrap();
    assert!(d0.off + d0.len <= d1.off || d1.off + d1.len <= d0.off);
    // Both stay readable, each with its own bytes.
    assert_eq!(codec::decode(&a, d0.off, d0.len).unwrap(), b"first".to_vec());
    assert_eq!(codec::decode(&a, d1.off, d1.len).unwrap(), b"second".to_vec());
}

#[test]
fn encode_new_refuses_when_full() {
    let mut a = Arena::new(4);
    assert_eq!(codec::encode_new(&mut a, b"12345"), Err(CodecError::OutOfSpace));
    assert!(codec::encode_new(&mut a, b"1234").is_ok());
}

#[test]
fn encode_in_place_overwrites_within_the_region() {
    let mut a = Arena::new(64);
    let d = codec::encode_new(&mut a, b"four five").unwrap();
    let written = codec::encode_in_place(&mut a, b"rust five", d.off).unwrap();
    assert_eq!(written, 9);
    assert_eq!(codec::decode(&a, d.off, d.len).unwrap(), b"rust five".to_vec());
}

#[test]
fn encode_in_place_refuses_overrun_and_bad_offset() {
    let mut a = Arena::new(64);
    let d = codec::encode_new(&mut a, b"tiny").unwrap();
    assert_eq!(
        codec::encode_in_place(&mut a, b"too large", d.off),
        Err(CodecError::BufferTooSmall)
    );
    assert_eq!(
        codec::encode_in_place(&mut a, b"x", d.off + 30),
        Err(CodecError::BadDescriptor)
    );
    // The refused writes changed nothing.
    assert_eq!(codec::decode(&a, d.off, d.len).unwrap(), b"tiny".to_vec());
}

#[test]
fn region_is_a_plain_pair() {
    let r = Region { off: 3, len: 5 };
    assert_eq!(r.off, 3);
    assert_eq!(r.len, 5);
}
