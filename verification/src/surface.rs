//! The linear-memory boundary surface: entry points that receive an
//! (offset, length) descriptor into the arena, decode it, run a transform,
//! and hand the result back per one of three sub-protocols: overwriting in
//! place, allocating a fresh region returned as one packed 64-bit value, or
//! the same addressed through an explicit program handle.

use vstd::prelude::*;

use crate::arena::Arena;
use crate::codec;
use crate::pack;
use crate::rewrite::PatternRewrite;
use crate::rewrite::TransformError;
use crate::rewrite::is_utf8;
use crate::rewrite::pattern_ok;
use crate::script::ProgramHandle;
use crate::script::ScriptEngine;
use crate::script::ScriptError;

verus! {

/// The reason a boundary call was refused.
#[derive(Debug)]
pub enum SurfaceError {
    /// The descriptor does not lie inside any live region.
    BadDescriptor,
    /// The result does not fit between the offset and the end of its live
    /// region.
    BufferTooSmall,
    /// The arena has too little space left for a fresh region.
    OutOfSpace,
    /// The regex engine does not accept the configured pattern.
    BadPattern,
    /// The input bytes are not well-formed UTF-8.
    NotUtf8,
    /// The singleton program has not been compiled.
    NoProgram,
    /// The handle names no live program.
    StaleHandle,
    /// The program terminated without producing a value.
    Eval(String),
}

/// In-place pattern rewrite: decodes the input at (off, len), applies the
/// fixed rewrite, writes the result back at the same offset, and returns
/// the new length. The write is bounds-checked against the live region.
pub fn regex_wasm(arena: &mut Arena, rw: &PatternRewrite, off: u32, len: u32) -> (r: Result<
    u32,
    SurfaceError,
>)
    requires
        old(arena)@.wf(),
    ensures
        final(arena)@.wf(),
        final(arena)@.regions == old(arena)@.regions,
        final(arena)@.freed == old(arena)@.freed,
        final(arena)@.capacity == old(arena)@.capacity,
        r is Err ==> final(arena)@ == old(arena)@,
        !old(arena)@.covers(off as int, len as int) ==> r == Err::<u32, SurfaceError>(
            SurfaceError::BadDescriptor,
        ),
        old(arena)@.covers(off as int, len as int) && !pattern_ok(rw.spec_pattern()) ==> r == Err::<
            u32,
            SurfaceError,
        >(SurfaceError::BadPattern),
        ({
            let text = old(arena)@.bytes.subrange(off as int, off + len);
            &&& (old(arena)@.covers(off as int, len as int) && pattern_ok(rw.spec_pattern())
                && !is_utf8(text)) ==> r == Err::<u32, SurfaceError>(SurfaceError::NotUtf8)
            &&& (old(arena)@.covers(off as int, len as int) && pattern_ok(rw.spec_pattern())
                && is_utf8(text)) ==> ({
                let out = rw.spec_transform(text);
                &&& old(arena)@.covers(off as int, out.len() as int) ==> (r matches Ok(w) && w
                    == out.len() && final(arena)@ == old(arena)@.write_at(off as int, out))
                &&& !old(arena)@.covers(off as int, out.len() as int) ==> r == Err::<
                    u32,
                    SurfaceError,
                >(SurfaceError::BufferTooSmall)
            })
        }),
{
    let text = match codec::decode(arena, off as usize, len as usize) {
        Ok(t) => t,
        Err(_) => {
            return Err(SurfaceError::BadDescriptor);
        },
    };
    let out = match rw.transform(text.as_slice()) {
        Ok(o) => o,
        Err(TransformError::BadPattern) => {
            return Err(SurfaceError::BadPattern);
        },
        Err(TransformError::NotUtf8) => {
            return Err(SurfaceError::NotUtf8);
        },
    };
    match codec::encode_in_place(arena, out.as_slice(), off as usize) {
        Ok(written) => {
            proof {
                let m = old(arena)@;
                let i = choose|i: int|
                    0 <= i < m.regions.len() && (#[trigger] m.regions[i]).off <= off && off
                        + out@.len() <= m.regions[i].end();
                assert(m.regions[i].end() <= m.bytes.len());
            }
            Ok(written as u32)
        },
        Err(_) => {
            proof {
                let m = old(arena)@;
                let i = choose|i: int|
                    0 <= i < m.regions.len() && (#[trigger] m.regions[i]).off <= off && off + len
                        <= m.regions[i].end();
                assert(m.regions[i].off <= off <= m.regions[i].end());
                assert(m.locates(off as int));
            }
            Err(SurfaceError::BufferTooSmall)
        },
    }
}

/// In-place scripted rewrite through the singleton program: decodes the
/// input, evaluates the singleton, writes the result back at the same
/// offset, and returns the new length.
pub fn vrl_wasm_buffered(arena: &mut Arena, engine: &mut ScriptEngine, off: u32, len: u32) -> (r:
    Result<u32, SurfaceError>)
    requires
        old(arena)@.wf(),
    ensures
        final(arena)@.wf(),
        final(engine)@ == old(engine)@,
        final(arena)@.regions == old(arena)@.regions,
        final(arena)@.freed == old(arena)@.freed,
        final(arena)@.capacity == old(arena)@.capacity,
        r is Err ==> final(arena)@ == old(arena)@,
        (r matches Err(e) && e is BadDescriptor) <==> !old(arena)@.covers(off as int, len as int),
        (r matches Err(e) && e is NoProgram) <==> (old(arena)@.covers(off as int, len as int)
            && !old(engine)@.has_singleton),
        ({
            let text = old(arena)@.bytes.subrange(off as int, off + len);
            &&& ((r matches Err(e) && e is NotUtf8) <==> (old(arena)@.covers(off as int, len as int)
                && old(engine)@.has_singleton && !is_utf8(text)))
            &&& (r matches Err(e) && e is BufferTooSmall) ==> (old(arena)@.covers(
                off as int,
                len as int,
            ) && old(engine)@.has_singleton && is_utf8(text))
            &&& (r matches Err(e) && e is Eval) ==> (old(arena)@.covers(off as int, len as int)
                && old(engine)@.has_singleton && is_utf8(text))
        }),
        r matches Err(e) ==> !(e is StaleHandle) && !(e is OutOfSpace) && !(e is BadPattern),
        r matches Ok(w) ==> (exists|out: Seq<u8>|
            out.len() == w && old(arena)@.covers(off as int, out.len() as int) && final(arena)@
                == old(arena)@.write_at(off as int, out)),
{
    let text = match codec::decode(arena, off as usize, len as usize) {
        Ok(t) => t,
        Err(_) => {
            return Err(SurfaceError::BadDescriptor);
        },
    };
    let out = match engine.run_vrl_static(text.as_slice()) {
        Ok(o) => o,
        Err(ScriptError::NoProgram) => {
            return Err(SurfaceError::NoProgram);
        },
        Err(ScriptError::NotUtf8) => {
            return Err(SurfaceError::NotUtf8);
        },
        Err(ScriptError::Eval(m)) => {
            return Err(SurfaceError::Eval(m));
        },
        Err(ScriptError::StaleHandle) => {
            return Err(SurfaceError::StaleHandle);
        },
    };
    match codec::encode_in_place(arena, out.as_slice(), off as usize) {
        Ok(written) => {
            proof {
                let m = old(arena)@;
                let i = choose|i: int|
                    0 <= i < m.regions.len() && (#[trigger] m.regions[i]).off <= off && off
                        + out@.len() <= m.regions[i].end();
                assert(m.regions[i].end() <= m.bytes.len());
            }
            Ok(written as u32)
        },
        Err(_) => Err(SurfaceError::BufferTooSmall),
    }
}

/// In-place identity: decodes the input and writes it back unchanged at the
/// same offset, returning its length. Never writes more bytes than were
/// read, so a valid input descriptor is always enough room; the arena is
/// left exactly as it was.
pub fn noop_wasm_buffered(arena: &mut Arena, off: u32, len: u32) -> (r: Result<u32, SurfaceError>)
    requires
        old(arena)@.wf(),
    ensures
        final(arena)@.wf(),
        final(arena)@ == old(arena)@,
        (r is Ok) <==> old(arena)@.covers(off as int, len as int),
        r matches Ok(w) ==> w == len,
        r is Err ==> r == Err::<u32, SurfaceError>(SurfaceError::BadDescriptor),
{
    let text = match codec::decode(arena, off as usize, len as usize) {
        Ok(t) => t,
        Err(_) => {
            return Err(SurfaceError::BadDescriptor);
        },
    };
    let out = crate::rewrite::identity(text.as_slice());
    match codec::encode_in_place(arena, out.as_slice(), off as usize) {
        Ok(written) => {
            proof {
                let m = old(arena)@;
                assert(crate::arena::overwrite(
                    m.bytes,
                    off as int,
                    m.bytes.subrange(off as int, off + len),
                ) =~= m.bytes);
                assert(final(arena)@ =~= m);
            }
            Ok(written as u32)
        },
        Err(_) => Err(SurfaceError::BadDescriptor),
    }
}

/// Identity with dynamic allocation: decodes the input, copies it into a
/// fresh region, and returns that region's descriptor packed into one
/// 64-bit value (offset high, length low). Ownership of the fresh region
/// transfers to the caller, who must eventually hand its exact (offset,
/// length) pair to `Arena::deallocate`.
pub fn noop_wasm(arena: &mut Arena, off: u32, len: u32) -> (r: Result<u64, SurfaceError>)
    requires
        old(arena)@.wf(),
    ensures
        final(arena)@.wf(),
        r is Err ==> final(arena)@ == old(arena)@,
        (r is Ok) <==> (old(arena)@.covers(off as int, len as int) && old(arena)@.can_alloc(
            len as int,
        )),
        r matches Ok(packed) ==> ({
            let text = old(arena)@.bytes.subrange(off as int, off + len);
            &&& pack::spec_unpack_ptr(packed) == old(arena)@.bytes.len()
            &&& pack::spec_unpack_len(packed) == len
            &&& final(arena)@ == old(arena)@.encode_new_model(text)
        }),
        !old(arena)@.covers(off as int, len as int) ==> r == Err::<u64, SurfaceError>(
            SurfaceError::BadDescriptor,
        ),
        old(arena)@.covers(off as int, len as int) && !old(arena)@.can_alloc(len as int) ==> r
            == Err::<u64, SurfaceError>(SurfaceError::OutOfSpace),
{
    let text = match codec::decode(arena, off as usize, len as usize) {
        Ok(t) => t,
        Err(_) => {
            return Err(SurfaceError::BadDescriptor);
        },
    };
    match codec::encode_new(arena, text.as_slice()) {
        Ok(d) => {
            proof {
                assert(old(arena)@.bytes.len() <= old(arena)@.capacity <= 0xffff_ffff);
            }
            Ok(pack::pack_descriptor(d.off as u32, d.len as u32))
        },
        Err(_) => Err(SurfaceError::OutOfSpace),
    }
}

/// Scripted rewrite through an explicit program handle, with dynamic
/// allocation: decodes the input, evaluates the program the handle names,
/// copies the result into a fresh region, and returns its packed
/// descriptor. Ownership of the fresh region transfers to the caller.
pub fn vrl_wasm_handle(
    arena: &mut Arena,
    engine: &mut ScriptEngine,
    h: ProgramHandle,
    off: u32,
    len: u32,
) -> (r: Result<u64, SurfaceError>)
    requires
        old(arena)@.wf(),
    ensures
        final(arena)@.wf(),
        final(engine)@ == old(engine)@,
        r is Err ==> final(arena)@ == old(arena)@,
        (r matches Err(e) && e is BadDescriptor) <==> !old(arena)@.covers(off as int, len as int),
        (r matches Err(e) && e is StaleHandle) <==> (old(arena)@.covers(off as int, len as int)
            && !(h.id < old(engine)@.live.len() && old(engine)@.live[h.id as int])),
        ({
            let text = old(arena)@.bytes.subrange(off as int, off + len);
            let live = h.id < old(engine)@.live.len() && old(engine)@.live[h.id as int];
            &&& ((r matches Err(e) && e is NotUtf8) <==> (old(arena)@.covers(off as int, len as int)
                && live && !is_utf8(text)))
            &&& (r matches Err(e) && e is OutOfSpace) ==> (old(arena)@.covers(off as int, len as int)
                && live && is_utf8(text))
            &&& (r matches Err(e) && e is Eval) ==> (old(arena)@.covers(off as int, len as int)
                && live && is_utf8(text))
        }),
        r matches Err(e) ==> !(e is NoProgram) && !(e is BufferTooSmall) && !(e is BadPattern),
        r matches Ok(packed) ==> (exists|out: Seq<u8>|
            pack::spec_unpack_ptr(packed) == old(arena)@.bytes.len() && pack::spec_unpack_len(
                packed,
            ) == out.len() && final(arena)@ == old(arena)@.encode_new_model(out)),
{
    let text = match codec::decode(arena, off as usize, len as usize) {
        Ok(t) => t,
        Err(_) => {
            return Err(SurfaceError::BadDescriptor);
        },
    };
    let out = match engine.run_vrl(h, text.as_slice()) {
        Ok(o) => o,
        Err(ScriptError::StaleHandle) => {
            return Err(SurfaceError::StaleHandle);
        },
        Err(ScriptError::NotUtf8) => {
            return Err(SurfaceError::NotUtf8);
        },
        Err(ScriptError::Eval(m)) => {
            return Err(SurfaceError::Eval(m));
        },
        Err(ScriptError::NoProgram) => {
            return Err(SurfaceError::NoProgram);
        },
    };
    match codec::encode_new(arena, out.as_slice()) {
        Ok(d) => {
            proof {
                assert(old(arena)@.bytes.len() <= old(arena)@.capacity <= 0xffff_ffff);
            }
            Ok(pack::pack_descriptor(d.off as u32, d.len as u32))
        },
        Err(_) => Err(SurfaceError::OutOfSpace),
    }
}

} // verus!
