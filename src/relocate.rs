//! The relocation resolver: patches program code with the identifiers of live maps.
use vstd::prelude::*;
use crate::maps::{lemma_lookup_bounds, lookup, LoadedMapView, MaterializedMaps};
use crate::parser::{programs_view, ProgramImageView, relocations_view, Module, ProgramImage, RelocationView};
use crate::section::copy_range;

verus! {

/// The opcode of a 64-bit immediate load, the instruction a map reference sits in.
pub const LD_IMM64: u8 = 0x18;

/// The source-register value that marks an immediate as a map's resource identifier.
pub const PSEUDO_MAP_FD: u8 = 1;

/// A 64-bit immediate load spans two 8-byte instruction slots.
pub const WIDE_LOAD_SIZE: u64 = 16;

/// Why a program's relocations cannot be resolved. Fatal to that program only.
#[derive(Clone, Copy, Debug, PartialEq, Eq, Structural)]
pub enum RelocationError {
    /// No map of the module carries the referenced name.
    UnknownMap,
    /// The patched instruction does not lie wholly inside the code.
    OutOfRange,
    /// The instruction at the offset is not a 64-bit immediate load.
    NotWideLoad,
}

/// The code with the wide load at `k` made to load the map identifier `fd`: the source
/// register of the first slot becomes the map marker, the first slot's immediate holds `fd`
/// in little-endian order, and the second slot's immediate, the upper half, is zero.
pub open spec fn patch_at(code: Seq<u8>, k: int, fd: u32) -> Seq<u8> {
    code.update(k + 1, (code[k + 1] % 16 + PSEUDO_MAP_FD * 16) as u8).update(
        k + 4,
        (fd % 0x100) as u8,
    ).update(k + 5, (fd / 0x100 % 0x100) as u8).update(k + 6, (fd / 0x1_0000 % 0x100) as u8).update(
        k + 7,
        (fd / 0x100_0000) as u8,
    ).update(k + 12, 0u8).update(k + 13, 0u8).update(k + 14, 0u8).update(k + 15, 0u8)
}

/// The effect of one relocation on code that is still being patched.
pub open spec fn apply_spec(code: Seq<u8>, r: RelocationView, maps: Seq<LoadedMapView>) -> Result<
    Seq<u8>,
    RelocationError,
> {
    match lookup(maps, r.map_name) {
        None => Err(RelocationError::UnknownMap),
        Some(i) => if r.offset + WIDE_LOAD_SIZE > code.len() {
            Err(RelocationError::OutOfRange)
        } else if code[r.offset as int] != LD_IMM64 {
            Err(RelocationError::NotWideLoad)
        } else {
            Ok(patch_at(code, r.offset as int, maps[i].fd))
        },
    }
}

/// The code after every relocation is applied in order; the first failing one decides.
pub open spec fn resolve_spec(
    code: Seq<u8>,
    rs: Seq<RelocationView>,
    maps: Seq<LoadedMapView>,
) -> Result<Seq<u8>, RelocationError>
    decreases rs.len(),
{
    if rs.len() == 0 {
        Ok(code)
    } else {
        match resolve_spec(code, rs.drop_last(), maps) {
            Ok(c) => apply_spec(c, rs.last(), maps),
            Err(e) => Err(e),
        }
    }
}

proof fn lemma_resolve_error_persists(
    code: Seq<u8>,
    rs: Seq<RelocationView>,
    maps: Seq<LoadedMapView>,
    i: int,
)
    requires
        0 <= i <= rs.len(),
        resolve_spec(code, rs.take(i), maps) is Err,
    ensures
        resolve_spec(code, rs, maps) == resolve_spec(code, rs.take(i), maps),
    decreases rs.len() - i,
{
    if i < rs.len() {
        assert(rs.take(i + 1).drop_last() =~= rs.take(i));
        lemma_resolve_error_persists(code, rs, maps, i + 1);
    } else {
        assert(rs.take(i) =~= rs);
    }
}

/// Writes the identifier `fd` into the wide load at `k`.
fn patch(code: &mut Vec<u8>, k: usize, fd: u32)
    requires
        k + 16 <= old(code)@.len(),
    ensures
        final(code)@ == patch_at(old(code)@, k as int, fd),
{
    let n = code.len();
    assert(k + 16 <= n);
    let b = code[k + 1];
    code.set(k + 1, b % 16 + PSEUDO_MAP_FD * 16);
    code.set(k + 4, (fd % 0x100) as u8);
    code.set(k + 5, (fd / 0x100 % 0x100) as u8);
    code.set(k + 6, (fd / 0x1_0000 % 0x100) as u8);
    code.set(k + 7, (fd / 0x100_0000) as u8);
    code.set(k + 12, 0u8);
    code.set(k + 13, 0u8);
    code.set(k + 14, 0u8);
    code.set(k + 15, 0u8);
}

/// The program's code with each relocation patched to the identifier of the map it names.
/// The maps must have been materialized first, which the argument's type ensures.
pub fn resolve_program(prog: &ProgramImage, maps: &MaterializedMaps) -> (r: Result<
    Vec<u8>,
    RelocationError,
>)
    ensures
        match resolve_spec(prog.code@, relocations_view(prog.relocations@), maps@) {
            Ok(c) => r is Ok && r->Ok_0@ == c,
            Err(e) => r == Err::<Vec<u8>, RelocationError>(e),
        },
{
    let ghost rs = relocations_view(prog.relocations@);
    let ghost ms = maps@;
    let mut code = copy_range(prog.code.as_slice(), 0, prog.code.len());
    assert(prog.code@.subrange(0, prog.code@.len() as int) =~= prog.code@);
    assert(rs.take(0) =~= Seq::<RelocationView>::empty());
    let mut i: usize = 0;
    while i < prog.relocations.len()
        invariant
            i <= prog.relocations@.len(),
            rs == relocations_view(prog.relocations@),
            ms == maps@,
            resolve_spec(prog.code@, rs.take(i as int), ms) == Ok::<Seq<u8>, RelocationError>(
                code@,
            ),
        decreases prog.relocations@.len() - i,
    {
        let rel = &prog.relocations[i];
        assert(rs.take(i + 1).drop_last() =~= rs.take(i as int));
        assert(rs.take(i + 1).last() == rel@);
        match maps.get(rel.map_name.as_slice()) {
            None => {
                proof { lemma_resolve_error_persists(prog.code@, rs, ms, i + 1); }
                return Err(RelocationError::UnknownMap);
            },
            Some(m) => {
                if rel.offset > code.len() as u64 || code.len() as u64 - rel.offset < WIDE_LOAD_SIZE {
                    proof { lemma_resolve_error_persists(prog.code@, rs, ms, i + 1); }
                    return Err(RelocationError::OutOfRange);
                }
                let k = rel.offset as usize;
                if code[k] != LD_IMM64 {
                    proof { lemma_resolve_error_persists(prog.code@, rs, ms, i + 1); }
                    return Err(RelocationError::NotWideLoad);
                }
                patch(&mut code, k, m.fd);
            },
        }
        i = i + 1;
    }
    assert(rs.take(prog.relocations@.len() as int) =~= rs);
    Ok(code)
}

/// Whether `r` is what resolving the program `p` against `maps` gives.
pub open spec fn resolved_as(
    r: Result<Vec<u8>, RelocationError>,
    p: ProgramImageView,
    maps: Seq<LoadedMapView>,
) -> bool {
    match resolve_spec(p.code, p.relocations, maps) {
        Ok(c) => r is Ok && r->Ok_0@ == c,
        Err(e) => r == Err::<Vec<u8>, RelocationError>(e),
    }
}

/// Resolves every program of a module on its own: a program whose relocations fail gets its
/// error, and the others are patched all the same.
pub fn resolve_module(module: &Module, maps: &MaterializedMaps) -> (r: Vec<
    Result<Vec<u8>, RelocationError>,
>)
    ensures
        r@.len() == module.programs@.len(),
        forall|i: int|
            0 <= i < r@.len() ==> resolved_as(
                #[trigger] r@[i],
                programs_view(module.programs@)[i],
                maps@,
            ),
{
    let mut out: Vec<Result<Vec<u8>, RelocationError>> = Vec::new();
    let mut i: usize = 0;
    while i < module.programs.len()
        invariant
            i <= module.programs@.len(),
            out@.len() == i,
            forall|j: int|
                0 <= j < i ==> resolved_as(
                    #[trigger] out@[j],
                    programs_view(module.programs@)[j],
                    maps@,
                ),
        decreases module.programs@.len() - i,
    {
        let r = resolve_program(&module.programs[i], maps);
        assert(module.programs@[i as int]@ == programs_view(module.programs@)[i as int]);
        out.push(r);
        i = i + 1;
    }
    out
}

/// A relocation at offset `k` that names a live map resolves to that map's identifier, written
/// into the wide load at `k`; one that names no live map fails the program with `UnknownMap`.
pub proof fn lemma_relocation_resolves(
    code: Seq<u8>,
    k: u64,
    name: Seq<u8>,
    maps: Seq<LoadedMapView>,
)
    requires
        k + WIDE_LOAD_SIZE <= code.len(),
        code[k as int] == LD_IMM64,
    ensures
        lookup(maps, name) is None ==> resolve_spec(
            code,
            seq![RelocationView { offset: k, map_name: name }],
            maps,
        ) == Err::<Seq<u8>, RelocationError>(RelocationError::UnknownMap),
        lookup(maps, name) is Some ==> resolve_spec(
            code,
            seq![RelocationView { offset: k, map_name: name }],
            maps,
        ) == Ok::<Seq<u8>, RelocationError>(
            patch_at(code, k as int, maps[lookup(maps, name)->0].fd),
        ),
{
    let rs = seq![RelocationView { offset: k, map_name: name }];
    assert(rs.drop_last() =~= Seq::<RelocationView>::empty());
    assert(resolve_spec(code, rs.drop_last(), maps) == Ok::<Seq<u8>, RelocationError>(code));
    assert(rs.last() == RelocationView { offset: k, map_name: name });
    lemma_lookup_bounds(maps, name, 0);
}

} // verus!
