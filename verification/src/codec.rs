//! The string codec: moves a textual value between an owned buffer and a
//! byte range of the arena, in both directions.
//!
//! `decode` copies a described range out; `encode_new` allocates a fresh
//! region for a value and hands its descriptor (and with it the region's
//! ownership) to the caller; `encode_in_place` overwrites an existing live
//! region, refusing to write past its end.

use vstd::prelude::*;

use crate::arena::Arena;
use crate::arena::ArenaModel;
use crate::arena::Region;

verus! {

/// The reason a codec operation was refused.
#[derive(Clone, Copy, PartialEq, Eq, Structural, Debug)]
pub enum CodecError {
    /// The descriptor does not lie inside any live region.
    BadDescriptor,
    /// The value does not fit between the offset and the end of the live
    /// region that contains it.
    BufferTooSmall,
    /// The arena has too little space left for a fresh region.
    OutOfSpace,
}

/// Copies the `len` bytes that the descriptor (off, len) names out of the
/// arena into a fresh owned value. The source region stays live and
/// untouched; descriptors outside every live region are refused.
pub fn decode(arena: &Arena, off: usize, len: usize) -> (r: Result<Vec<u8>, CodecError>)
    requires
        arena@.wf(),
    ensures
        (r is Ok) <==> arena@.covers(off as int, len as int),
        r matches Ok(text) ==> text@ == arena@.bytes.subrange(off as int, off + len),
        r is Err ==> r == Err::<Vec<u8>, CodecError>(CodecError::BadDescriptor),
{
    match arena.find_cover(off, len) {
        Some(reg) => {
            proof {
                let i = choose|i: int|
                    0 <= i < arena@.regions.len() && #[trigger] arena@.regions[i] == reg;
                assert(arena@.regions[i].end() <= arena@.bytes.len());
            }
            Ok(arena.read_range(off, len))
        },
        None => Err(CodecError::BadDescriptor),
    }
}

/// Allocates a fresh region sized to `text`, copies `text` into it, and
/// returns its descriptor. Ownership of the region transfers to the caller
/// of the boundary function that receives the descriptor; the codec retains
/// nothing.
pub fn encode_new(arena: &mut Arena, text: &[u8]) -> (r: Result<Region, CodecError>)
    requires
        old(arena)@.wf(),
    ensures
        final(arena)@.wf(),
        (r is Ok) <==> old(arena)@.can_alloc(text@.len() as int),
        r matches Ok(d) ==> d.off == old(arena)@.bytes.len() && d.len == text@.len() && final(arena)@ == old(arena)@.encode_new_model(text@),
        r is Err ==> final(arena)@ == old(arena)@ && r == Err::<Region, CodecError>(
            CodecError::OutOfSpace,
        ),
{
    let ghost m0 = arena@;
    let len = text.len();
    match arena.allocate(len) {
        Ok(off) => {
            arena.write_range(off, text);
            proof {
                assert(arena@.bytes =~= m0.bytes + text@);
                assert(arena@.regions =~= m0.encode_new_model(text@).regions);
            }
            Ok(Region { off, len })
        },
        Err(_) => Err(CodecError::OutOfSpace),
    }
}

/// Copies `text` over the bytes of a live region, starting at `off`, and
/// returns the number of bytes written. The write is bounds-checked: a
/// value that would run past the end of the region containing `off` is
/// refused with `BufferTooSmall`, and an offset inside no live region with
/// `BadDescriptor`.
pub fn encode_in_place(arena: &mut Arena, text: &[u8], off: usize) -> (r: Result<
    usize,
    CodecError,
>)
    requires
        old(arena)@.wf(),
    ensures
        final(arena)@.wf(),
        (r is Ok) <==> old(arena)@.covers(off as int, text@.len() as int),
        r matches Ok(written) ==> written == text@.len() && final(arena)@ == old(arena)@.write_at(
            off as int,
            text@,
        ),
        r is Err ==> final(arena)@ == old(arena)@,
        r == Err::<usize, CodecError>(CodecError::BufferTooSmall) <==> (!old(arena)@.covers(
            off as int,
            text@.len() as int,
        ) && old(arena)@.locates(off as int)),
        r == Err::<usize, CodecError>(CodecError::BadDescriptor) <==> !old(arena)@.locates(
            off as int,
        ),
{
    match arena.find_cover(off, text.len()) {
        Some(reg) => {
            proof {
                let i = choose|i: int|
                    0 <= i < arena@.regions.len() && #[trigger] arena@.regions[i] == reg;
                assert(arena@.regions[i].end() <= arena@.bytes.len());
            }
            let written = arena.write_range(off, text);
            Ok(written)
        },
        None => {
            if arena.locate(off) {
                Err(CodecError::BufferTooSmall)
            } else {
                Err(CodecError::BadDescriptor)
            }
        },
    }
}

/// In-place bound: for the identity transform, an in-place encode of what
/// was just decoded writes exactly the bytes that were read, fits whenever
/// the source descriptor was valid, and leaves the arena as it was: the
/// identity transform can never overrun its input region.
pub proof fn lemma_in_place_identity_bound(m: ArenaModel, off: int, len: int)
    requires
        m.wf(),
        0 <= len,
        m.covers(off, len),
    ensures
        m.bytes.subrange(off, off + len).len() == len,
        m.covers(off, m.bytes.subrange(off, off + len).len() as int),
        m.write_at(off, m.bytes.subrange(off, off + len)) == m,
{
    let i = choose|i: int|
        0 <= i < m.regions.len() && (#[trigger] m.regions[i]).off <= off && off + len
            <= m.regions[i].end();
    assert(m.regions[i].end() <= m.bytes.len());
    assert(crate::arena::overwrite(m.bytes, off, m.bytes.subrange(off, off + len)) =~= m.bytes);
    assert(m.write_at(off, m.bytes.subrange(off, off + len)) =~= m);
}

/// Round trip: decoding the descriptor that `encode_new` returns yields the
/// encoded text unchanged, for every text that fits in the arena.
pub proof fn lemma_round_trip(m: ArenaModel, t: Seq<u8>)
    requires
        m.wf(),
        m.can_alloc(t.len() as int),
    ensures
        m.encode_new_model(t).covers(m.bytes.len() as int, t.len() as int),
        m.encode_new_model(t).bytes.subrange(m.bytes.len() as int, (m.bytes.len() + t.len()) as int) == t,
{
    let m2 = m.encode_new_model(t);
    let i = m.regions.len() as int;
    assert(m2.regions[i].off <= m.bytes.len() && m.bytes.len() + t.len() <= m2.regions[i].end());
    assert(m2.bytes.subrange(m.bytes.len() as int, (m.bytes.len() + t.len()) as int) =~= t);
}

} // verus!
