use textbridge::rewrite::{noop, transform, PatternRewrite, TransformError};
use textbridge::script::{ProgramHandle, ScriptEngine, ScriptError};

#[test]
fn first_four_letter_word_becomes_rust() {
    let out = transform(b"four five").unwrap();
    assert_eq!(out, b"rust five".to_vec());
}

#[test]
fn limit_zero_replaces_every_match() {
    let rw = PatternRewrite::new(String::from("\\b\\w{4}\\b"), String::from("rust"), 0);
    let out = rw.transform(b"four five nine").unwrap();
    assert_eq!(out, b"rust rust rust".to_vec());
}

#[test]
fn limit_one_leaves_later_matches_alone() {
    let rw = PatternRewrite::new(String::from("\\b\\w{4}\\b"), String::from("rust"), 1);
    let out = rw.transform(b"four five nine").unwrap();
    assert_eq!(out, b"rust five nine".to_vec());
}

#[test]
fn unmatched_text_passes_through() {
    let out = transform(b"no 4letter w0rds? at all!").unwrap();
    assert_eq!(out, b"no 4letter w0rds? at all!".to_vec());
}

#[test]
fn bad_pattern_is_reported() {
    let rw = PatternRewrite::new(String::from("("), String::from("rust"), 1);
    assert_eq!(rw.transform(b"four five"), Err(TransformError::BadPattern));
}

#[test]
fn non_utf8_input_is_reported() {
    assert_eq!(transform(&[0xff, 0xfe, 0x41]), Err(TransformError::NotUtf8));
}

#[test]
fn noop_hands_back_its_input() {
    assert_eq!(noop(b"unchanged bytes \x01"), b"unchanged bytes \x01".to_vec());
    assert_eq!(noop(b""), Vec::<u8>::new());
}

#[test]
fn singleton_script_rewrites_first_four_letter_word() {
    let mut e = ScriptEngine::new();
    e.compile_vrl_static().unwrap();
    let out = e.run_vrl_static(b"four five").unwrap();
    assert_eq!(out, b"rust five".to_vec());
}

#[test]
fn singleton_must_be_compiled_first() {
    let mut e = ScriptEngine::new();
    assert!(matches!(e.run_vrl_static(b"four five"), Err(ScriptError::NoProgram)));
}

#[test]
fn compile_error_is_surfaced_not_fatal() {
    let mut e = ScriptEngine::new();
    let r = e.compile_vrl("this is not a program ???");
    assert!(r.is_err());
    let message = r.err().unwrap().message;
    assert!(!message.is_empty());
}

#[test]
fn handles_are_independent() {
    let mut e = ScriptEngine::new();
    let src = r#". = replace(string!(.), r'\b\w{4}\b', "rust", 1)"#;
    let h1 = e.compile_vrl(src).unwrap();
    let h2 = e.compile_vrl(src).unwrap();
    assert_ne!(h1.id, h2.id);
    // Releasing the first handle leaves the second usable.
    e.release(h1).unwrap();
    let out = e.run_vrl(h2, b"four five").unwrap();
    assert_eq!(out, b"rust five".to_vec());
    // The released handle is refused, once for running and once for a
    // second release.
    assert!(matches!(e.run_vrl(h1, b"four five"), Err(ScriptError::StaleHandle)));
    assert!(matches!(e.release(h1), Err(ScriptError::StaleHandle)));
}

#[test]
fn unknown_handle_is_stale() {
    let mut e = ScriptEngine::new();
    assert!(matches!(
        e.run_vrl(ProgramHandle { id: 7 }, b"four"),
        Err(ScriptError::StaleHandle)
    ));
}

#[test]
fn script_rejects_non_utf8_input() {
    let mut e = ScriptEngine::new();
    e.compile_vrl_static().unwrap();
    assert!(matches!(e.run_vrl_static(&[0xc0, 0x00]), Err(ScriptError::NotUtf8)));
}

#[test]
fn evaluation_failure_is_surfaced() {
    let mut e = ScriptEngine::new();
    let h = e.compile_vrl("abort").unwrap();
    assert!(matches!(e.run_vrl(h, b"four"), Err(ScriptError::Eval(_))));
}

#[test]
fn singleton_state_is_visible() {
    let mut e = ScriptEngine::new();
    assert!(!e.has_static());
    e.compile_vrl_static().unwrap();
    assert!(e.has_static());
}
