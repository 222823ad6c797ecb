use textbridge::arena::Arena;
use textbridge::codec;
use textbridge::pack::{pack_descriptor, unpack_len, unpack_ptr};
use textbridge::rewrite::default_rewrite;
use textbridge::script::ScriptEngine;
use textbridge::surface::{
    noop_wasm, noop_wasm_buffered, regex_wasm, vrl_wasm_buffered, vrl_wasm_handle, SurfaceError,
};

#[test]
fn packed_value_splits_exactly() {
    let packed = pack_descriptor(0x1000, 16);
    assert_eq!(packed, (0x1000u64 << 32) | 16);
    assert_eq!(unpack_ptr(packed), 0x1000);
    assert_eq!(unpack_len(packed), 16);
}

#[test]
fn packed_extremes_survive_the_trip() {
    let packed = pack_descriptor(u32::MAX, 0);
    assert_eq!(unpack_ptr(packed), u32::MAX);
    assert_eq!(unpack_len(packed), 0);
    let packed = pack_descriptor(0, u32::MAX);
    assert_eq!(unpack_ptr(packed), 0);
    assert_eq!(unpack_len(packed), u32::MAX);
}

#[test]
fn regex_wasm_rewrites_in_place() {
    let mut a = Arena::new(256);
    let rw = default_rewrite();
    let d = codec::encode_new(&mut a, b"four five").unwrap();
    let new_len = regex_wasm(&mut a, &rw, d.off as u32, d.len as u32).unwrap();
    assert_eq!(new_len, 9);
    assert_eq!(
        codec::decode(&a, d.off, new_len as usize).unwrap(),
        b"rust five".to_vec()
    );
}

#[test]
fn regex_wasm_refuses_bad_descriptor() {
    let mut a = Arena::new(256);
    let rw = default_rewrite();
    assert!(matches!(
        regex_wasm(&mut a, &rw, 5, 5),
        Err(SurfaceError::BadDescriptor)
    ));
}

#[test]
fn noop_wasm_buffered_keeps_bytes_and_length() {
    let mut a = Arena::new(64);
    let d = codec::encode_new(&mut a, b"stay put").unwrap();
    let new_len = noop_wasm_buffered(&mut a, d.off as u32, d.len as u32).unwrap();
    assert_eq!(new_len as usize, d.len);
    assert_eq!(codec::decode(&a, d.off, d.len).unwrap(), b"stay put".to_vec());
}

#[test]
fn noop_wasm_allocates_and_packs_the_descriptor() {
    let mut a = Arena::new(64);
    let d = codec::encode_new(&mut a, b"copy me").unwrap();
    let before = a.used();
    let packed = noop_wasm(&mut a, d.off as u32, d.len as u32).unwrap();
    let new_off = unpack_ptr(packed);
    let new_len = unpack_len(packed);
    assert_eq!(new_off as usize, before);
    assert_eq!(new_len as usize, d.len);
    assert_eq!(
        codec::decode(&a, new_off as usize, new_len as usize).unwrap(),
        b"copy me".to_vec()
    );
    // The fresh region is owned by the caller, who frees it by its pair.
    assert_eq!(a.deallocate(new_off as usize, new_len as usize), Ok(()));
}

#[test]
fn noop_wasm_refuses_when_arena_is_full() {
    let mut a = Arena::new(10);
    let d = codec::encode_new(&mut a, b"123456").unwrap();
    assert!(matches!(
        noop_wasm(&mut a, d.off as u32, d.len as u32),
        Err(SurfaceError::OutOfSpace)
    ));
}

#[test]
fn vrl_wasm_buffered_runs_the_singleton() {
    let mut a = Arena::new(256);
    let mut e = ScriptEngine::new();
    e.compile_vrl_static().unwrap();
    let d = codec::encode_new(&mut a, b"four five").unwrap();
    let new_len = vrl_wasm_buffered(&mut a, &mut e, d.off as u32, d.len as u32).unwrap();
    assert_eq!(new_len, 9);
    assert_eq!(
        codec::decode(&a, d.off, new_len as usize).unwrap(),
        b"rust five".to_vec()
    );
}

#[test]
fn vrl_wasm_buffered_needs_the_singleton() {
    let mut a = Arena::new(64);
    let mut e = ScriptEngine::new();
    let d = codec::encode_new(&mut a, b"four five").unwrap();
    assert!(matches!(
        vrl_wasm_buffered(&mut a, &mut e, d.off as u32, d.len as u32),
        Err(SurfaceError::NoProgram)
    ));
}

#[test]
fn vrl_wasm_handle_returns_a_fresh_packed_region() {
    let mut a = Arena::new(256);
    let mut e = ScriptEngine::new();
    let h = e
        .compile_vrl(r#". = replace(string!(.), r'\b\w{4}\b', "rust", 1)"#)
        .unwrap();
    let d = codec::encode_new(&mut a, b"four five").unwrap();
    let packed = vrl_wasm_handle(&mut a, &mut e, h, d.off as u32, d.len as u32).unwrap();
    let out = codec::decode(
        &a,
        unpack_ptr(packed) as usize,
        unpack_len(packed) as usize,
    )
    .unwrap();
    assert_eq!(out, b"rust five".to_vec());
    // The input region is untouched.
    assert_eq!(codec::decode(&a, d.off, d.len).unwrap(), b"four five".to_vec());
}

#[test]
fn vrl_wasm_handle_refuses_released_handles() {
    let mut a = Arena::new(256);
    let mut e = ScriptEngine::new();
    let h = e
        .compile_vrl(r#". = replace(string!(.), r'\b\w{4}\b', "rust", 1)"#)
        .unwrap();
    e.release(h).unwrap();
    let d = codec::encode_new(&mut a, b"four five").unwrap();
    assert!(matches!(
        vrl_wasm_handle(&mut a, &mut e, h, d.off as u32, d.len as u32),
        Err(SurfaceError::StaleHandle)
    ));
}

#[test]
fn regex_wasm_refuses_growth_past_the_region() {
    let mut a = Arena::new(64);
    let rw = textbridge::rewrite::PatternRewrite::new(
        String::from("\\b\\w{4}\\b"),
        String::from("ferrum"),
        1,
    );
    let d = codec::encode_new(&mut a, b"four five").unwrap();
    assert!(matches!(
        regex_wasm(&mut a, &rw, d.off as u32, d.len as u32),
        Err(SurfaceError::BufferTooSmall)
    ));
    // The refused call changed nothing.
    assert_eq!(codec::decode(&a, d.off, d.len).unwrap(), b"four five".to_vec());
}

#[test]
fn regex_wasm_reports_a_bad_pattern() {
    let mut a = Arena::new(64);
    let rw = textbridge::rewrite::PatternRewrite::new(String::from("("), String::from("x"), 1);
    let d = codec::encode_new(&mut a, b"four five").unwrap();
    assert!(matches!(
        regex_wasm(&mut a, &rw, d.off as u32, d.len as u32),
        Err(SurfaceError::BadPattern)
    ));
}

#[test]
fn regex_wasm_reports_non_utf8_regions() {
    let mut a = Arena::new(64);
    let rw = default_rewrite();
    let d = codec::encode_new(&mut a, &[0xff, 0xfe, 0x41]).unwrap();
    assert!(matches!(
        regex_wasm(&mut a, &rw, d.off as u32, d.len as u32),
        Err(SurfaceError::NotUtf8)
    ));
}
