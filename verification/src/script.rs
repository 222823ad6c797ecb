//! The transform engine adapter for the scripted rewrite.
//!
//! A `ScriptEngine` is an explicit context object: it owns the scripting
//! runtime, a compiled singleton program, and a registry of caller-compiled
//! programs addressed by handles. Handles make the lifecycle safe: a
//! released or never-issued handle is refused with an explicit error, and
//! releasing one handle never touches another.

use vstd::prelude::*;

use crate::rewrite::is_utf8;

verus! {

/// Whether the scripting-language compiler accepts a source text, given the
/// standard function library; acceptance depends on the source alone.
pub uninterp spec fn script_ok(src: Seq<char>) -> bool;

/// An opaque compiled scripting program.
#[verifier::external_type_specification]
#[verifier::external_body]
pub struct ExProgram(vrl::compiler::Program);

/// An opaque scripting runtime (the per-context execution state).
#[verifier::external_type_specification]
#[verifier::external_body]
pub struct ExRuntime(vrl::compiler::runtime::Runtime);

/// A failure reported by one evaluation of a program.
#[derive(Debug)]
pub enum EvalFailure {
    /// The input bytes are not well-formed UTF-8.
    NotUtf8,
    /// The program terminated without producing a value.
    Eval(String),
}

/// Relies on vrl::compiler::runtime::Runtime::default: a fresh runtime with
/// empty state.
#[verifier::external_body]
fn new_runtime() -> vrl::compiler::runtime::Runtime {
    vrl::compiler::runtime::Runtime::default()
}

/// Relies on vrl::compiler::compile with the full standard library
/// (vrl::stdlib::all): whether a source compiles depends on the source
/// alone. A failure is reported with the compiler's own diagnostic text,
/// rendered by vrl::diagnostic::Formatter.
#[verifier::external_body]
fn compile_script(src: &str) -> (r: Result<vrl::compiler::Program, String>)
    ensures
        (r is Ok) <==> script_ok(src@),
{
    match vrl::compiler::compile(src, &vrl::stdlib::all()) {
        Ok(res) => Ok(res.program),
        Err(diags) => Err(vrl::diagnostic::Formatter::new(src, diags).to_string()),
    }
}

/// Relies on vrl::compiler::runtime::Runtime::resolve, with the input
/// collapsed to string-in/string-out: the input becomes the target's root
/// value, and a textual result comes back as its bytes. Evaluation may
/// consult the clock or the environment, so nothing is promised of the
/// outcome beyond the handling of non-UTF-8 input, which
/// core::str::from_utf8 rejects before the engine runs.
#[verifier::external_body]
fn run_program(
    rt: &mut vrl::compiler::runtime::Runtime,
    prog: &vrl::compiler::Program,
    input: &[u8],
) -> (r: Result<Vec<u8>, EvalFailure>)
    ensures
        (r matches Err(f) && f is NotUtf8) <==> !is_utf8(input@),
{
    let s = match core::str::from_utf8(input) {
        Ok(s) => s,
        Err(_) => return Err(EvalFailure::NotUtf8),
    };
    let mut target = vrl::compiler::TargetValue {
        value: vrl::value::Value::from(s),
        metadata: vrl::value::Value::Object(vrl::value::ObjectMap::new()),
        secrets: vrl::value::Secrets::new(),
    };
    match rt.resolve(&mut target, prog, &vrl::compiler::TimeZone::default()) {
        Ok(vrl::value::Value::Bytes(b)) => Ok(b.to_vec()),
        Ok(other) => Ok(other.to_string().into_bytes()),
        Err(t) => Err(EvalFailure::Eval(t.to_string())),
    }
}

/// A compile failure surfaced to the caller, with the compiler's
/// diagnostic text.
#[derive(Debug)]
pub struct CompileError {
    pub message: String,
}

/// The reason a scripted evaluation was refused or failed.
#[derive(Debug)]
pub enum ScriptError {
    /// The handle names no live program: never issued, or already released.
    StaleHandle,
    /// The module-wide singleton program has not been compiled.
    NoProgram,
    /// The input bytes are not well-formed UTF-8.
    NotUtf8,
    /// The program terminated without producing a value.
    Eval(String),
}

/// A token for a compiled program held by a `ScriptEngine`. Whoever holds
/// it owns the program slot and must release it, or it lives until the
/// engine is dropped.
#[derive(Clone, Copy, PartialEq, Eq, Structural, Debug)]
pub struct ProgramHandle {
    pub id: usize,
}

/// What a `ScriptEngine` looks like to its callers: which handle slots are
/// live, and whether the singleton program is compiled.
#[verifier::ext_equal]
pub ghost struct ScriptEngineModel {
    pub live: Seq<bool>,
    pub has_singleton: bool,
}

/// The scripted-rewrite context: runtime state, the singleton program, and
/// the registry of explicitly compiled programs.
pub struct ScriptEngine {
    runtime: vrl::compiler::runtime::Runtime,
    slots: Vec<Option<vrl::compiler::Program>>,
    singleton: Option<vrl::compiler::Program>,
}

impl View for ScriptEngine {
    type V = ScriptEngineModel;

    closed spec fn view(&self) -> ScriptEngineModel {
        ScriptEngineModel {
            live: self.slots@.map_values(|s: Option<vrl::compiler::Program>| s is Some),
            has_singleton: self.singleton is Some,
        }
    }
}

/// The source of the module-wide singleton program: it replaces the first
/// word of exactly four letters with "rust".
pub open spec fn static_script() -> Seq<char> {
    r#". = replace(string!(.), r'\b\w{4}\b', "rust", 1)"#@
}

impl ScriptEngine {
    /// A fresh engine: no live handles, no singleton program.
    pub fn new() -> (r: ScriptEngine)
        ensures
            r@.live.len() == 0,
            !r@.has_singleton,
    {
        let e = ScriptEngine { runtime: new_runtime(), slots: Vec::new(), singleton: None };
        proof {
            assert(e@.live =~= Seq::<bool>::empty());
        }
        e
    }

    /// Compiles a caller-supplied source into a fresh, independent program
    /// slot and returns its handle. A source the compiler refuses is
    /// surfaced as an error value, and the engine is left unchanged.
    pub fn compile_vrl(&mut self, source: &str) -> (r: Result<ProgramHandle, CompileError>)
        ensures
            (r is Ok) <==> script_ok(source@),
            r matches Ok(h) ==> h.id == old(self)@.live.len() && final(self)@.live == old(self)@.live.push(true) && final(self)@.has_singleton == old(self)@.has_singleton,
            r is Err ==> final(self)@ == old(self)@,
    {
        match compile_script(source) {
            Ok(prog) => {
                let id = self.slots.len();
                self.slots.push(Some(prog));
                proof {
                    assert(final(self)@.live =~= old(self)@.live.push(true));
                }
                Ok(ProgramHandle { id })
            },
            Err(message) => Err(CompileError { message }),
        }
    }

    /// Releases the program a handle names. The slot becomes dead; every
    /// other slot, and the singleton, stay as they were. A handle that
    /// names no live program is refused.
    pub fn release(&mut self, h: ProgramHandle) -> (r: Result<(), ScriptError>)
        ensures
            (r is Ok) <==> (h.id < old(self)@.live.len() && old(self)@.live[h.id as int]),
            r is Ok ==> final(self)@.live == old(self)@.live.update(h.id as int, false) && final(self)@.has_singleton == old(self)@.has_singleton,
            r is Err ==> final(self)@ == old(self)@ && r == Err::<(), ScriptError>(
                ScriptError::StaleHandle,
            ),
    {
        if h.id < self.slots.len() {
            let live = match &self.slots[h.id] {
                Some(_) => true,
                None => false,
            };
            if live {
                self.slots.set(h.id, None);
                proof {
                    assert(final(self)@.live =~= old(self)@.live.update(h.id as int, false));
                }
                return Ok(());
            }
        }
        Err(ScriptError::StaleHandle)
    }

    /// Evaluates the program a handle names on the given input. The engine's
    /// registry is untouched; a stale handle is refused, non-UTF-8 input is
    /// refused, and an evaluation failure is surfaced as an error value.
    pub fn run_vrl(&mut self, h: ProgramHandle, input: &[u8]) -> (r: Result<Vec<u8>, ScriptError>)
        ensures
            final(self)@ == old(self)@,
            (r matches Err(e) && e is StaleHandle) <==> !(h.id < old(self)@.live.len() && old(self)@.live[h.id as int]),
            (h.id < old(self)@.live.len() && old(self)@.live[h.id as int]) ==> ((r matches Err(e)
                && e is NotUtf8) <==> !is_utf8(input@)),
            r matches Err(e) ==> !(e is NoProgram),
    {
        if h.id >= self.slots.len() {
            return Err(ScriptError::StaleHandle);
        }
        let out = match &self.slots[h.id] {
            Some(prog) => run_program(&mut self.runtime, prog, input),
            None => {
                return Err(ScriptError::StaleHandle);
            },
        };
        match out {
            Ok(bytes) => Ok(bytes),
            Err(EvalFailure::NotUtf8) => Err(ScriptError::NotUtf8),
            Err(EvalFailure::Eval(m)) => Err(ScriptError::Eval(m)),
        }
    }

    /// Compiles the module-wide singleton program. A compile failure is
    /// surfaced as an error value; the handle registry is never touched.
    pub fn compile_vrl_static(&mut self) -> (r: Result<(), CompileError>)
        ensures
            (r is Ok) <==> script_ok(static_script()),
            r is Ok ==> final(self)@.has_singleton && final(self)@.live == old(self)@.live,
            r is Err ==> final(self)@ == old(self)@,
    {
        let source = r#". = replace(string!(.), r'\b\w{4}\b', "rust", 1)"#;
        match compile_script(source) {
            Ok(prog) => {
                self.singleton = Some(prog);
                Ok(())
            },
            Err(message) => Err(CompileError { message }),
        }
    }

    /// Whether the module-wide singleton program has been compiled.
    pub fn has_static(&self) -> (r: bool)
        ensures
            r == self@.has_singleton,
    {
        match &self.singleton {
            Some(_) => true,
            None => false,
        }
    }

    /// Evaluates the singleton program on the given input. Refused when the
    /// singleton has not been compiled; otherwise as `run_vrl`.
    pub fn run_vrl_static(&mut self, input: &[u8]) -> (r: Result<Vec<u8>, ScriptError>)
        ensures
            final(self)@ == old(self)@,
            (r matches Err(e) && e is NoProgram) <==> !old(self)@.has_singleton,
            old(self)@.has_singleton ==> ((r matches Err(e) && e is NotUtf8) <==> !is_utf8(
                input@,
            )),
            r matches Err(e) ==> !(e is StaleHandle),
    {
        let out = match &self.singleton {
            Some(prog) => run_program(&mut self.runtime, prog, input),
            None => {
                return Err(ScriptError::NoProgram);
            },
        };
        match out {
            Ok(bytes) => Ok(bytes),
            Err(EvalFailure::NotUtf8) => Err(ScriptError::NotUtf8),
            Err(EvalFailure::Eval(m)) => Err(ScriptError::Eval(m)),
        }
    }
}

/// The computing core of the native handle-based entry point: evaluates the
/// program a handle names on the input text.
pub fn transform_vrl(engine: &mut ScriptEngine, h: ProgramHandle, input: &[u8]) -> (r: Result<
    Vec<u8>,
    ScriptError,
>)
    ensures
        final(engine)@ == old(engine)@,
        (r matches Err(e) && e is StaleHandle) <==> !(h.id < old(engine)@.live.len() && old(engine)@.live[h.id as int]),
        (h.id < old(engine)@.live.len() && old(engine)@.live[h.id as int]) ==> ((r matches Err(e)
            && e is NotUtf8) <==> !is_utf8(input@)),
        r matches Err(e) ==> !(e is NoProgram),
{
    engine.run_vrl(h, input)
}

/// Program handle lifecycle: compiling twice issues two distinct handles,
/// both live, and releasing the first leaves the second live.
pub proof fn lemma_handle_lifecycle(live: Seq<bool>)
    ensures
        ({
            let a = live.len() as int;
            let l1 = live.push(true);
            let b = l1.len() as int;
            let l2 = l1.push(true);
            let l3 = l2.update(a, false);
            &&& a != b
            &&& l2[a] && l2[b]
            &&& !l3[a] && l3[b]
        }),
{
}

} // verus!
