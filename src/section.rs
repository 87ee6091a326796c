//! Section naming: the grammar that ties a section's name to what it holds.
use vstd::prelude::*;

verus! {

/// The kind of a program, decided once from its section's prefix.
#[derive(Clone, Copy, Debug, PartialEq, Eq, Structural)]
pub enum ProgramKind {
    Kprobe,
    Kretprobe,
    Uprobe,
    Uretprobe,
    Xdp,
    SocketFilter,
}

/// The section-name prefix of each program kind, in ASCII: `kprobe`, `kretprobe`, `uprobe`,
/// `uretprobe`, `xdp-ingress`, `socket-filter`.
pub open spec fn kind_prefix(k: ProgramKind) -> Seq<u8> {
    match k {
        ProgramKind::Kprobe => seq![107u8, 112u8, 114u8, 111u8, 98u8, 101u8],
        ProgramKind::Kretprobe => seq![107u8, 114u8, 101u8, 116u8, 112u8, 114u8, 111u8, 98u8, 101u8],
        ProgramKind::Uprobe => seq![117u8, 112u8, 114u8, 111u8, 98u8, 101u8],
        ProgramKind::Uretprobe => seq![117u8, 114u8, 101u8, 116u8, 112u8, 114u8, 111u8, 98u8, 101u8],
        ProgramKind::Xdp => seq![120u8, 100u8, 112u8, 45u8, 105u8, 110u8, 103u8, 114u8, 101u8, 115u8, 115u8],
        ProgramKind::SocketFilter => seq![
            115u8, 111u8, 99u8, 107u8, 101u8, 116u8, 45u8, 102u8, 105u8, 108u8, 116u8, 101u8, 114u8,
        ],
    }
}

/// The prefix of map sections, `maps` in ASCII.
pub open spec fn maps_prefix() -> Seq<u8> {
    seq![109u8, 97u8, 112u8, 115u8]
}

/// The name of the license section, `license` in ASCII.
pub open spec fn license_name() -> Seq<u8> {
    seq![108u8, 105u8, 99u8, 101u8, 110u8, 115u8, 101u8]
}

/// The name of the version section, `version` in ASCII.
pub open spec fn version_name() -> Seq<u8> {
    seq![118u8, 101u8, 114u8, 115u8, 105u8, 111u8, 110u8]
}

pub open spec fn slash() -> u8 {
    47u8
}

/// The program kind whose prefix is `p`, if any.
pub open spec fn kind_of_prefix(p: Seq<u8>) -> Option<ProgramKind> {
    if p == kind_prefix(ProgramKind::Kprobe) {
        Some(ProgramKind::Kprobe)
    } else if p == kind_prefix(ProgramKind::Kretprobe) {
        Some(ProgramKind::Kretprobe)
    } else if p == kind_prefix(ProgramKind::Uprobe) {
        Some(ProgramKind::Uprobe)
    } else if p == kind_prefix(ProgramKind::Uretprobe) {
        Some(ProgramKind::Uretprobe)
    } else if p == kind_prefix(ProgramKind::Xdp) {
        Some(ProgramKind::Xdp)
    } else if p == kind_prefix(ProgramKind::SocketFilter) {
        Some(ProgramKind::SocketFilter)
    } else {
        None
    }
}

/// `prefix/name`.
pub open spec fn joined(prefix: Seq<u8>, name: Seq<u8>) -> Seq<u8> {
    prefix + seq![slash()] + name
}

/// Whether two byte slices hold the same bytes.
pub fn bytes_eq(a: &[u8], b: &[u8]) -> (r: bool)
    ensures
        r == (a@ == b@),
{
    if a.len() != b.len() {
        return false;
    }
    let mut i: usize = 0;
    while i < a.len()
        invariant
            a@.len() == b@.len(),
            i <= a@.len(),
            forall|j: int| 0 <= j < i ==> a@[j] == b@[j],
        decreases a@.len() - i,
    {
        if a[i] != b[i] {
            return false;
        }
        i = i + 1;
    }
    assert(a@ =~= b@);
    true
}

/// The bytes of a program kind's section prefix.
pub fn kind_prefix_bytes(k: ProgramKind) -> (r: Vec<u8>)
    ensures
        r@ == kind_prefix(k),
{
    let r = match k {
        ProgramKind::Kprobe => vec![107u8, 112u8, 114u8, 111u8, 98u8, 101u8],
        ProgramKind::Kretprobe => vec![107u8, 114u8, 101u8, 116u8, 112u8, 114u8, 111u8, 98u8, 101u8],
        ProgramKind::Uprobe => vec![117u8, 112u8, 114u8, 111u8, 98u8, 101u8],
        ProgramKind::Uretprobe => vec![117u8, 114u8, 101u8, 116u8, 112u8, 114u8, 111u8, 98u8, 101u8],
        ProgramKind::Xdp => vec![120u8, 100u8, 112u8, 45u8, 105u8, 110u8, 103u8, 114u8, 101u8, 115u8, 115u8],
        ProgramKind::SocketFilter => vec![
            115u8, 111u8, 99u8, 107u8, 101u8, 116u8, 45u8, 102u8, 105u8, 108u8, 116u8, 101u8, 114u8,
        ],
    };
    assert(r@ =~= kind_prefix(k));
    r
}

/// The program kind named by a section prefix; `None` for a prefix outside the closed set.
pub fn parse_kind(p: &[u8]) -> (r: Option<ProgramKind>)
    ensures
        r == kind_of_prefix(p@),
{
    let kp = kind_prefix_bytes(ProgramKind::Kprobe);
    if bytes_eq(p, kp.as_slice()) {
        return Some(ProgramKind::Kprobe);
    }
    let krp = kind_prefix_bytes(ProgramKind::Kretprobe);
    if bytes_eq(p, krp.as_slice()) {
        return Some(ProgramKind::Kretprobe);
    }
    let up = kind_prefix_bytes(ProgramKind::Uprobe);
    if bytes_eq(p, up.as_slice()) {
        return Some(ProgramKind::Uprobe);
    }
    let urp = kind_prefix_bytes(ProgramKind::Uretprobe);
    if bytes_eq(p, urp.as_slice()) {
        return Some(ProgramKind::Uretprobe);
    }
    let xp = kind_prefix_bytes(ProgramKind::Xdp);
    if bytes_eq(p, xp.as_slice()) {
        return Some(ProgramKind::Xdp);
    }
    let sp = kind_prefix_bytes(ProgramKind::SocketFilter);
    if bytes_eq(p, sp.as_slice()) {
        return Some(ProgramKind::SocketFilter);
    }
    None
}

/// Appends `src` to `dst`.
pub fn append_bytes(dst: &mut Vec<u8>, src: &[u8])
    ensures
        final(dst)@ == old(dst)@ + src@,
{
    let mut i: usize = 0;
    while i < src.len()
        invariant
            i <= src@.len(),
            dst@ == old(dst)@ + src@.take(i as int),
        decreases src@.len() - i,
    {
        dst.push(src[i]);
        assert(src@.take(i as int + 1) =~= src@.take(i as int).push(src@[i as int]));
        i = i + 1;
    }
    assert(src@.take(src@.len() as int) =~= src@);
}

/// The section name `prefix/name`.
pub fn join_section_name(prefix: &[u8], name: &[u8]) -> (r: Vec<u8>)
    ensures
        r@ == joined(prefix@, name@),
{
    let mut r: Vec<u8> = Vec::new();
    append_bytes(&mut r, prefix);
    r.push(47u8);
    append_bytes(&mut r, name);
    assert(r@ =~= joined(prefix@, name@));
    r
}

/// The section name under which a program of kind `kind` called `name` is stored.
pub fn program_section_name(kind: ProgramKind, name: &[u8]) -> (r: Vec<u8>)
    ensures
        r@ == joined(kind_prefix(kind), name@),
{
    let p = kind_prefix_bytes(kind);
    join_section_name(p.as_slice(), name)
}

/// The section name under which the map called `name` is stored.
pub fn map_section_name(name: &[u8]) -> (r: Vec<u8>)
    ensures
        r@ == joined(maps_prefix(), name@),
{
    let p = vec![109u8, 97u8, 112u8, 115u8];
    assert(p@ =~= maps_prefix());
    join_section_name(p.as_slice(), name)
}

/// The bytes followed by one NUL, the layout of a C string.
pub fn inline_bytes(bytes: Vec<u8>) -> (r: Vec<u8>)
    ensures
        r@ == bytes@.push(0u8),
{
    let mut bytes = bytes;
    bytes.push(0u8);
    bytes
}

/// The name a probe's section carries: the one given in its attribute if any, else the
/// function's own.
pub fn probe_name(attr_name: Option<Vec<u8>>, fn_name: Vec<u8>) -> (r: Vec<u8>)
    ensures
        r@ == match attr_name {
            Some(a) => a@,
            None => fn_name@,
        },
{
    match attr_name {
        Some(a) => a,
        None => fn_name,
    }
}

/// The first index at or after `from` at which `s` holds `b`.
pub open spec fn first_at(s: Seq<u8>, b: u8, from: int) -> Option<int>
    decreases s.len() - from,
{
    if from < 0 || from >= s.len() {
        None
    } else if s[from] == b {
        Some(from)
    } else {
        first_at(s, b, from + 1)
    }
}

/// The first index of `b` in `s`.
pub fn find_byte(s: &[u8], b: u8) -> (r: Option<usize>)
    ensures
        r is None <==> first_at(s@, b, 0) is None,
        r is Some ==> first_at(s@, b, 0) == Some(r->0 as int),
        r is Some ==> r->0 < s@.len() && s@[r->0 as int] == b,
{
    let mut i: usize = 0;
    while i < s.len()
        invariant
            i <= s@.len(),
            first_at(s@, b, 0) == first_at(s@, b, i as int),
        decreases s@.len() - i,
    {
        if s[i] == b {
            return Some(i);
        }
        i = i + 1;
    }
    None
}

/// A fresh vector holding `s[lo..hi]`.
pub fn copy_range(s: &[u8], lo: usize, hi: usize) -> (r: Vec<u8>)
    requires
        lo <= hi <= s@.len(),
    ensures
        r@ == s@.subrange(lo as int, hi as int),
{
    let mut r: Vec<u8> = Vec::new();
    let mut i: usize = lo;
    while i < hi
        invariant
            lo <= i <= hi <= s@.len(),
            r@ == s@.subrange(lo as int, i as int),
        decreases hi - i,
    {
        r.push(s[i]);
        assert(s@.subrange(lo as int, i + 1) =~= s@.subrange(lo as int, i as int).push(s@[i as int]));
        i = i + 1;
    }
    r
}

/// What a section holds, as told by its name and whether it is executable.
#[derive(Clone, Copy, Debug, PartialEq, Eq, Structural)]
pub enum SectionTag {
    License,
    Version,
    MapDef,
    ProgramDef(ProgramKind),
    /// A section this grammar does not speak of; skipped.
    Ignored,
    /// An executable `prefix/name` section whose prefix names no program kind.
    UnknownKind,
}

/// The grammar of section names. `license` and `version` are the metadata sections,
/// `maps/<name>` a map, and an executable `<kind>/<name>` a program. Other names are
/// ignored, but an executable `prefix/name` section whose prefix is no kind is refused.
pub open spec fn section_tag(name: Seq<u8>, executable: bool) -> SectionTag {
    if name == license_name() {
        SectionTag::License
    } else if name == version_name() {
        SectionTag::Version
    } else {
        match first_at(name, slash(), 0) {
            Some(i) => if name.take(i) == maps_prefix() {
                SectionTag::MapDef
            } else if executable {
                match kind_of_prefix(name.take(i)) {
                    Some(k) => SectionTag::ProgramDef(k),
                    None => SectionTag::UnknownKind,
                }
            } else {
                SectionTag::Ignored
            },
            None => SectionTag::Ignored,
        }
    }
}

/// The part of a section name after its first `/`: the name of the map or program.
pub open spec fn item_name(name: Seq<u8>) -> Seq<u8> {
    match first_at(name, slash(), 0) {
        Some(i) => name.skip(i + 1),
        None => name,
    }
}

/// Classifies a section by its name, and gives where the item's own name starts.
pub fn classify(name: &[u8], executable: bool) -> (r: (SectionTag, usize))
    ensures
        r.0 == section_tag(name@, executable),
        r.1 <= name@.len(),
        name@.skip(r.1 as int) == item_name(name@),
{
    let lic = vec![108u8, 105u8, 99u8, 101u8, 110u8, 115u8, 101u8];
    assert(lic@ =~= license_name());
    let ver = vec![118u8, 101u8, 114u8, 115u8, 105u8, 111u8, 110u8];
    assert(ver@ =~= version_name());
    let mp = vec![109u8, 97u8, 112u8, 115u8];
    assert(mp@ =~= maps_prefix());
    let slash_at = find_byte(name, 47u8);
    let start: usize = match slash_at {
        Some(i) => {
            assert(i < name.len());
            i + 1
        },
        None => 0,
    };
    assert(name@.skip(0) =~= name@);
    if bytes_eq(name, lic.as_slice()) {
        return (SectionTag::License, start);
    }
    if bytes_eq(name, ver.as_slice()) {
        return (SectionTag::Version, start);
    }
    match slash_at {
        None => (SectionTag::Ignored, start),
        Some(i) => {
            let prefix = copy_range(name, 0, i);
            assert(name@.subrange(0, i as int) =~= name@.take(i as int));
            if bytes_eq(prefix.as_slice(), mp.as_slice()) {
                (SectionTag::MapDef, start)
            } else if executable {
                match parse_kind(prefix.as_slice()) {
                    Some(k) => (SectionTag::ProgramDef(k), start),
                    None => (SectionTag::UnknownKind, start),
                }
            } else {
                (SectionTag::Ignored, start)
            }
        },
    }
}

/// No program-kind prefix holds a `/`.
pub proof fn lemma_kind_prefix_has_no_slash(k: ProgramKind)
    ensures
        forall|j: int| 0 <= j < kind_prefix(k).len() ==> kind_prefix(k)[j] != slash(),
{
    let p = kind_prefix(k);
    assert forall|j: int| 0 <= j < p.len() implies p[j] != slash() by {
        match k {
            ProgramKind::Kprobe => {},
            ProgramKind::Kretprobe => {},
            ProgramKind::Uprobe => {},
            ProgramKind::Uretprobe => {},
            ProgramKind::Xdp => {},
            ProgramKind::SocketFilter => {},
        }
    }
}

proof fn lemma_first_slash(p: Seq<u8>, n: Seq<u8>, i: int)
    requires
        0 <= i <= p.len(),
        forall|j: int| 0 <= j < p.len() ==> p[j] != slash(),
    ensures
        first_at(joined(p, n), slash(), i) == Some(p.len() as int),
    decreases p.len() - i,
{
    let s = joined(p, n);
    assert(s[p.len() as int] == slash());
    if i < p.len() {
        assert(s[i] == p[i]);
        lemma_first_slash(p, n, i + 1);
    }
}

/// A program's section name reads back as that program: its kind and its name.
pub proof fn lemma_program_section_round_trip(k: ProgramKind, n: Seq<u8>)
    ensures
        section_tag(joined(kind_prefix(k), n), true) == SectionTag::ProgramDef(k),
        item_name(joined(kind_prefix(k), n)) == n,
{
    let p = kind_prefix(k);
    let s = joined(p, n);
    lemma_kind_prefix_has_no_slash(k);
    lemma_first_slash(p, n, 0);
    assert(s.take(p.len() as int) =~= p);
    assert(s.skip(p.len() as int + 1) =~= n);
    assert(s[p.len() as int] == slash());
    if s == license_name() {
        assert(license_name()[p.len() as int] != slash());
    }
    if s == version_name() {
        assert(version_name()[p.len() as int] != slash());
    }
    assert(p != maps_prefix()) by {
        if p == maps_prefix() {
            assert(p[0] == maps_prefix()[0]);
        }
    }
    assert(kind_of_prefix(p) == Some(k)) by {
        if kind_prefix(ProgramKind::Kprobe) == kind_prefix(ProgramKind::Uprobe) {
            assert(kind_prefix(ProgramKind::Kprobe)[0] == kind_prefix(ProgramKind::Uprobe)[0]);
        }
        if kind_prefix(ProgramKind::Kretprobe) == kind_prefix(ProgramKind::Uretprobe) {
            assert(kind_prefix(ProgramKind::Kretprobe)[0] == kind_prefix(
                ProgramKind::Uretprobe,
            )[0]);
        }
    }
}

/// Section names tell programs apart: two programs have the same section name exactly when
/// they have the same kind and the same name.
pub proof fn lemma_program_section_names_injective(
    k1: ProgramKind,
    n1: Seq<u8>,
    k2: ProgramKind,
    n2: Seq<u8>,
)
    ensures
        (joined(kind_prefix(k1), n1) == joined(kind_prefix(k2), n2)) == (k1 == k2 && n1 == n2),
{
    lemma_program_section_round_trip(k1, n1);
    lemma_program_section_round_trip(k2, n2);
}

} // verus!
