//! The object parser: from the sections of a program image to a module description.
use vstd::prelude::*;
use crate::section::{
    classify, find_byte, copy_range, first_at, item_name, section_tag,
    ProgramKind, SectionTag,
};

verus! {

/// A placeholder at `offset` in a program's code that refers to the map `map_name`.
#[derive(Debug)]
pub struct Relocation {
    pub offset: u64,
    pub map_name: Vec<u8>,
}

pub struct RelocationView {
    pub offset: u64,
    pub map_name: Seq<u8>,
}

impl View for Relocation {
    type V = RelocationView;

    open spec fn view(&self) -> RelocationView {
        RelocationView { offset: self.offset, map_name: self.map_name@ }
    }
}

/// One section of an object image: its name, its bytes, whether it holds code, and the
/// relocation records that apply to it.
#[derive(Debug)]
pub struct RawSection {
    pub name: Vec<u8>,
    pub data: Vec<u8>,
    pub executable: bool,
    pub relocations: Vec<Relocation>,
}

pub struct RawSectionView {
    pub name: Seq<u8>,
    pub data: Seq<u8>,
    pub executable: bool,
    pub relocations: Seq<RelocationView>,
}

impl View for RawSection {
    type V = RawSectionView;

    open spec fn view(&self) -> RawSectionView {
        RawSectionView {
            name: self.name@,
            data: self.data@,
            executable: self.executable,
            relocations: relocations_view(self.relocations@),
        }
    }
}

pub open spec fn sections_view(ss: Seq<RawSection>) -> Seq<RawSectionView> {
    ss.map_values(|s: RawSection| s@)
}

/// The layout of a map, as read from its section.
#[derive(Debug)]
pub struct MapDescriptor {
    pub name: Vec<u8>,
    pub kind: u32,
    pub key_size: u32,
    pub value_size: u32,
    pub max_entries: u32,
    pub flags: u32,
}

pub struct MapDescriptorView {
    pub name: Seq<u8>,
    pub kind: u32,
    pub key_size: u32,
    pub value_size: u32,
    pub max_entries: u32,
    pub flags: u32,
}

impl View for MapDescriptor {
    type V = MapDescriptorView;

    open spec fn view(&self) -> MapDescriptorView {
        MapDescriptorView {
            name: self.name@,
            kind: self.kind,
            key_size: self.key_size,
            value_size: self.value_size,
            max_entries: self.max_entries,
            flags: self.flags,
        }
    }
}

/// A program as found in the image: its kind, its name, its code and its relocations.
#[derive(Debug)]
pub struct ProgramImage {
    pub kind: ProgramKind,
    pub name: Vec<u8>,
    pub code: Vec<u8>,
    pub relocations: Vec<Relocation>,
}

pub struct ProgramImageView {
    pub kind: ProgramKind,
    pub name: Seq<u8>,
    pub code: Seq<u8>,
    pub relocations: Seq<RelocationView>,
}

pub open spec fn relocations_view(rs: Seq<Relocation>) -> Seq<RelocationView> {
    rs.map_values(|r: Relocation| r@)
}

impl View for ProgramImage {
    type V = ProgramImageView;

    open spec fn view(&self) -> ProgramImageView {
        ProgramImageView {
            kind: self.kind,
            name: self.name@,
            code: self.code@,
            relocations: relocations_view(self.relocations@),
        }
    }
}

/// The parse result: license, minimum kernel version, maps and programs in the order of
/// discovery.
#[derive(Debug)]
pub struct Module {
    pub license: Vec<u8>,
    pub version: u32,
    pub maps: Vec<MapDescriptor>,
    pub programs: Vec<ProgramImage>,
}

pub struct ModuleView {
    pub license: Seq<u8>,
    pub version: u32,
    pub maps: Seq<MapDescriptorView>,
    pub programs: Seq<ProgramImageView>,
}

pub open spec fn maps_view(ms: Seq<MapDescriptor>) -> Seq<MapDescriptorView> {
    ms.map_values(|m: MapDescriptor| m@)
}

pub open spec fn programs_view(ps: Seq<ProgramImage>) -> Seq<ProgramImageView> {
    ps.map_values(|p: ProgramImage| p@)
}

impl View for Module {
    type V = ModuleView;

    open spec fn view(&self) -> ModuleView {
        ModuleView {
            license: self.license@,
            version: self.version,
            maps: maps_view(self.maps@),
            programs: programs_view(self.programs@),
        }
    }
}

/// Why an image cannot be parsed. Any of these is fatal to the whole module.
#[derive(Clone, Copy, Debug, PartialEq, Eq, Structural)]
pub enum ParseError {
    MissingLicense,
    MissingVersion,
    /// The license section holds no NUL terminator.
    BadLicense,
    /// The version section is not four bytes long.
    BadVersion,
    /// A map section is shorter than a map definition.
    BadMap,
    /// An executable section names a program kind outside the closed set.
    UnknownProgramKind,
    /// A second `license` or `version` section.
    DuplicateMetadata,
    /// Two map sections with one name.
    DuplicateMap,
    /// Two program sections with one kind and name.
    DuplicateProgram,
}

/// The kernel version code that means "compatible with any version".
pub const ANY_KERNEL_VERSION: u32 = 0xFFFF_FFFE;

/// The size of a map definition in its section: five little-endian 32-bit words.
pub const MAP_DEF_SIZE: usize = 20;

/// The little-endian 32-bit word at `off`.
pub open spec fn le_u32(d: Seq<u8>, off: int) -> u32 {
    (d[off] as int + d[off + 1] as int * 0x100 + d[off + 2] as int * 0x1_0000 + d[off + 3] as int
        * 0x100_0000) as u32
}

/// What has been read after a prefix of the sections.
pub struct ScanState {
    pub license: Option<Seq<u8>>,
    pub version: Option<u32>,
    pub maps: Seq<MapDescriptorView>,
    pub programs: Seq<ProgramImageView>,
}

pub open spec fn empty_scan() -> ScanState {
    ScanState { license: None, version: None, maps: Seq::empty(), programs: Seq::empty() }
}

pub open spec fn has_map(maps: Seq<MapDescriptorView>, name: Seq<u8>) -> bool {
    exists|i: int| 0 <= i < maps.len() && maps[i].name == name
}

pub open spec fn has_program(progs: Seq<ProgramImageView>, kind: ProgramKind, name: Seq<u8>) -> bool {
    exists|i: int| 0 <= i < progs.len() && progs[i].kind == kind && progs[i].name == name
}

/// The map that a map section describes.
pub open spec fn map_of_section(name: Seq<u8>, d: Seq<u8>) -> MapDescriptorView {
    MapDescriptorView {
        name,
        kind: le_u32(d, 0),
        key_size: le_u32(d, 4),
        value_size: le_u32(d, 8),
        max_entries: le_u32(d, 12),
        flags: le_u32(d, 16),
    }
}

/// The effect of one section on what has been read so far.
pub open spec fn scan_step(acc: ScanState, s: RawSection) -> Result<ScanState, ParseError> {
    match section_tag(s.name@, s.executable) {
        SectionTag::License => if acc.license is Some {
            Err(ParseError::DuplicateMetadata)
        } else {
            match first_at(s.data@, 0u8, 0) {
                Some(n) => Ok(ScanState { license: Some(s.data@.take(n)), ..acc }),
                None => Err(ParseError::BadLicense),
            }
        },
        SectionTag::Version => if acc.version is Some {
            Err(ParseError::DuplicateMetadata)
        } else if s.data@.len() != 4 {
            Err(ParseError::BadVersion)
        } else {
            Ok(ScanState { version: Some(le_u32(s.data@, 0)), ..acc })
        },
        SectionTag::MapDef => if s.data@.len() < MAP_DEF_SIZE {
            Err(ParseError::BadMap)
        } else if has_map(acc.maps, item_name(s.name@)) {
            Err(ParseError::DuplicateMap)
        } else {
            Ok(ScanState { maps: acc.maps.push(map_of_section(item_name(s.name@), s.data@)), ..acc })
        },
        SectionTag::ProgramDef(k) => if has_program(acc.programs, k, item_name(s.name@)) {
            Err(ParseError::DuplicateProgram)
        } else {
            Ok(
                ScanState {
                    programs: acc.programs.push(
                        ProgramImageView {
                            kind: k,
                            name: item_name(s.name@),
                            code: s.data@,
                            relocations: relocations_view(s.relocations@),
                        },
                    ),
                    ..acc
                },
            )
        },
        SectionTag::Ignored => Ok(acc),
        SectionTag::UnknownKind => Err(ParseError::UnknownProgramKind),
    }
}

/// Reads the sections in order; the first section that is in error decides the error.
pub open spec fn scan(ss: Seq<RawSection>) -> Result<ScanState, ParseError>
    decreases ss.len(),
{
    if ss.len() == 0 {
        Ok(empty_scan())
    } else {
        match scan(ss.drop_last()) {
            Ok(acc) => scan_step(acc, ss.last()),
            Err(e) => Err(e),
        }
    }
}

/// The module that a sequence of sections describes, or why it describes none.
pub open spec fn parse_spec(ss: Seq<RawSection>) -> Result<ModuleView, ParseError> {
    match scan(ss) {
        Err(e) => Err(e),
        Ok(acc) => match (acc.license, acc.version) {
            (Some(l), Some(v)) => Ok(
                ModuleView { license: l, version: v, maps: acc.maps, programs: acc.programs },
            ),
            (None, _) => Err(ParseError::MissingLicense),
            (Some(_), None) => Err(ParseError::MissingVersion),
        },
    }
}

proof fn lemma_scan_error_persists(ss: Seq<RawSection>, i: int)
    requires
        0 <= i <= ss.len(),
        scan(ss.take(i)) is Err,
    ensures
        scan(ss) == scan(ss.take(i)),
    decreases ss.len() - i,
{
    if i < ss.len() {
        assert(ss.take(i + 1).drop_last() =~= ss.take(i));
        lemma_scan_error_persists(ss, i + 1);
    } else {
        assert(ss.take(i) =~= ss);
    }
}

/// The number of map sections among `ss`.
pub open spec fn map_section_count(ss: Seq<RawSection>) -> nat
    decreases ss.len(),
{
    if ss.len() == 0 {
        0
    } else {
        map_section_count(ss.drop_last()) + if section_tag(ss.last().name@, ss.last().executable)
            is MapDef {
            1nat
        } else {
            0nat
        }
    }
}

/// The number of program sections among `ss`.
pub open spec fn program_section_count(ss: Seq<RawSection>) -> nat
    decreases ss.len(),
{
    if ss.len() == 0 {
        0
    } else {
        program_section_count(ss.drop_last()) + if section_tag(
            ss.last().name@,
            ss.last().executable,
        ) is ProgramDef {
            1nat
        } else {
            0nat
        }
    }
}

/// No two maps share a name, and no two programs share a kind and a name.
pub open spec fn keys_unique(maps: Seq<MapDescriptorView>, progs: Seq<ProgramImageView>) -> bool {
    &&& forall|i: int, j: int|
        0 <= i < j < maps.len() ==> maps[i].name != maps[j].name
    &&& forall|i: int, j: int|
        0 <= i < j < progs.len() ==> !(progs[i].kind == progs[j].kind && progs[i].name
            == progs[j].name)
}

proof fn lemma_scan_counts(ss: Seq<RawSection>)
    requires
        scan(ss) is Ok,
    ensures
        scan(ss)->Ok_0.maps.len() == map_section_count(ss),
        scan(ss)->Ok_0.programs.len() == program_section_count(ss),
        keys_unique(scan(ss)->Ok_0.maps, scan(ss)->Ok_0.programs),
    decreases ss.len(),
{
    if ss.len() > 0 {
        lemma_scan_counts(ss.drop_last());
        let acc = scan(ss.drop_last())->Ok_0;
        let s = ss.last();
        let next = scan(ss)->Ok_0;
        match section_tag(s.name@, s.executable) {
            SectionTag::MapDef => {
                assert forall|i: int, j: int| 0 <= i < j < next.maps.len() implies next.maps[i].name
                    != next.maps[j].name by {
                    if j == next.maps.len() - 1 {
                        assert(next.maps[i] == acc.maps[i]);
                    }
                }
            },
            SectionTag::ProgramDef(k) => {
                assert forall|i: int, j: int| 0 <= i < j < next.programs.len() implies !(
                next.programs[i].kind == next.programs[j].kind && next.programs[i].name
                    == next.programs[j].name) by {
                    if j == next.programs.len() - 1 {
                        assert(next.programs[i] == acc.programs[i]);
                    }
                }
            },
            _ => {},
        }
    }
}

/// A well-formed image with N map sections and M program sections parses to exactly N maps
/// and M programs, no two maps sharing a name and no two programs a kind and a name.
pub proof fn lemma_parse_counts(ss: Seq<RawSection>)
    requires
        parse_spec(ss) is Ok,
    ensures
        parse_spec(ss)->Ok_0.maps.len() == map_section_count(ss),
        parse_spec(ss)->Ok_0.programs.len() == program_section_count(ss),
        keys_unique(parse_spec(ss)->Ok_0.maps, parse_spec(ss)->Ok_0.programs),
{
    lemma_scan_counts(ss);
}

proof fn lemma_scan_views(a: Seq<RawSection>, b: Seq<RawSection>)
    requires
        sections_view(a) == sections_view(b),
    ensures
        scan(a) == scan(b),
    decreases a.len(),
{
    assert(a.len() == sections_view(a).len());
    assert(b.len() == sections_view(b).len());
    if a.len() > 0 {
        assert(sections_view(a.drop_last()) =~= sections_view(a).drop_last());
        assert(sections_view(b.drop_last()) =~= sections_view(b).drop_last());
        lemma_scan_views(a.drop_last(), b.drop_last());
        assert(a.last()@ == sections_view(a).last());
        assert(b.last()@ == sections_view(b).last());
    }
}

/// Parsing depends on the sections' contents alone: sections with equal contents give equal
/// modules, or the same error.
pub proof fn lemma_parse_deterministic(a: Seq<RawSection>, b: Seq<RawSection>)
    requires
        sections_view(a) == sections_view(b),
    ensures
        parse_spec(a) == parse_spec(b),
{
    lemma_scan_views(a, b);
}

/// The little-endian word at `off`.
fn read_le_u32(d: &[u8], off: usize) -> (r: u32)
    requires
        off + 4 <= d@.len(),
    ensures
        r == le_u32(d@, off as int),
{
    let b0 = d[off] as u32;
    let b1 = d[off + 1] as u32;
    let b2 = d[off + 2] as u32;
    let b3 = d[off + 3] as u32;
    b0 + b1 * 0x100 + b2 * 0x1_0000 + b3 * 0x100_0000
}

fn copy_relocations(rs: &Vec<Relocation>) -> (r: Vec<Relocation>)
    ensures
        relocations_view(r@) == relocations_view(rs@),
{
    let mut out: Vec<Relocation> = Vec::new();
    let mut i: usize = 0;
    while i < rs.len()
        invariant
            i <= rs@.len(),
            relocations_view(out@) =~= relocations_view(rs@.take(i as int)),
        decreases rs@.len() - i,
    {
        let name = copy_range(rs[i].map_name.as_slice(), 0, rs[i].map_name.len());
        assert(rs@[i as int].map_name@.subrange(0, rs@[i as int].map_name@.len() as int)
            =~= rs@[i as int].map_name@);
        let ghost before = relocations_view(out@);
        out.push(Relocation { offset: rs[i].offset, map_name: name });
        assert(rs@.take(i + 1) =~= rs@.take(i as int).push(rs@[i as int]));
        assert(relocations_view(out@) =~= before.push(rs@[i as int]@));
        assert(relocations_view(rs@.take(i + 1)) =~= relocations_view(rs@.take(i as int)).push(
            rs@[i as int]@,
        ));
        i = i + 1;
    }
    assert(rs@.take(rs@.len() as int) =~= rs@);
    out
}

fn find_map(maps: &Vec<MapDescriptor>, name: &[u8]) -> (r: bool)
    ensures
        r == has_map(maps_view(maps@), name@),
{
    let mut i: usize = 0;
    while i < maps.len()
        invariant
            i <= maps@.len(),
            forall|j: int| 0 <= j < i ==> maps@[j].name@ != name@,
        decreases maps@.len() - i,
    {
        if crate::section::bytes_eq(maps[i].name.as_slice(), name) {
            assert(maps_view(maps@)[i as int].name == name@);
            return true;
        }
        i = i + 1;
    }
    false
}

fn find_program(progs: &Vec<ProgramImage>, kind: ProgramKind, name: &[u8]) -> (r: bool)
    ensures
        r == has_program(programs_view(progs@), kind, name@),
{
    let mut i: usize = 0;
    while i < progs.len()
        invariant
            i <= progs@.len(),
            forall|j: int| 0 <= j < i ==> !(progs@[j].kind == kind && progs@[j].name@ == name@),
        decreases progs@.len() - i,
    {
        if progs[i].kind == kind && crate::section::bytes_eq(progs[i].name.as_slice(), name) {
            assert(programs_view(progs@)[i as int].name == name@);
            return true;
        }
        i = i + 1;
    }
    false
}

/// Parses the sections of an image into a module. Pure: equal sections give equal modules.
pub fn parse(sections: &Vec<RawSection>) -> (r: Result<Module, ParseError>)
    ensures
        match parse_spec(sections@) {
            Ok(m) => r is Ok && r->Ok_0@ == m,
            Err(e) => r == Err::<Module, ParseError>(e),
        },
{
    let mut license: Option<Vec<u8>> = None;
    let mut version: Option<u32> = None;
    let mut maps: Vec<MapDescriptor> = Vec::new();
    let mut programs: Vec<ProgramImage> = Vec::new();
    let mut i: usize = 0;
    assert(sections@.take(0) =~= Seq::<RawSection>::empty());
    assert(maps_view(maps@) =~= Seq::<MapDescriptorView>::empty());
    assert(programs_view(programs@) =~= Seq::<ProgramImageView>::empty());
    while i < sections.len()
        invariant
            i <= sections@.len(),
            scan(sections@.take(i as int)) == Ok::<ScanState, ParseError>(
                ScanState {
                    license: match license {
                        Some(l) => Some(l@),
                        None => None,
                    },
                    version,
                    maps: maps_view(maps@),
                    programs: programs_view(programs@),
                },
            ),
        decreases sections@.len() - i,
    {
        let s = &sections[i];
        assert(sections@.take(i + 1).drop_last() =~= sections@.take(i as int));
        assert(sections@.take(i + 1).last() == sections@[i as int]);
        let (tag, start) = classify(s.name.as_slice(), s.executable);
        let ghost nm = item_name(s.name@);
        assert(s.name@.subrange(start as int, s.name@.len() as int) =~= nm);
        match tag {
            SectionTag::License => {
                if license.is_some() {
                    proof { lemma_scan_error_persists(sections@, i + 1); }
                    return Err(ParseError::DuplicateMetadata);
                }
                match find_byte(s.data.as_slice(), 0u8) {
                    Some(n) => {
                        let l = copy_range(s.data.as_slice(), 0, n);
                        assert(s.data@.subrange(0, n as int) =~= s.data@.take(n as int));
                        license = Some(l);
                    },
                    None => {
                        proof { lemma_scan_error_persists(sections@, i + 1); }
                        return Err(ParseError::BadLicense);
                    },
                }
            },
            SectionTag::Version => {
                if version.is_some() {
                    proof { lemma_scan_error_persists(sections@, i + 1); }
                    return Err(ParseError::DuplicateMetadata);
                }
                if s.data.len() != 4 {
                    proof { lemma_scan_error_persists(sections@, i + 1); }
                    return Err(ParseError::BadVersion);
                }
                version = Some(read_le_u32(s.data.as_slice(), 0));
            },
            SectionTag::MapDef => {
                if s.data.len() < MAP_DEF_SIZE {
                    proof { lemma_scan_error_persists(sections@, i + 1); }
                    return Err(ParseError::BadMap);
                }
                let name = copy_range(s.name.as_slice(), start, s.name.len());
                if find_map(&maps, name.as_slice()) {
                    proof { lemma_scan_error_persists(sections@, i + 1); }
                    return Err(ParseError::DuplicateMap);
                }
                let d = s.data.as_slice();
                let m = MapDescriptor {
                    name,
                    kind: read_le_u32(d, 0),
                    key_size: read_le_u32(d, 4),
                    value_size: read_le_u32(d, 8),
                    max_entries: read_le_u32(d, 12),
                    flags: read_le_u32(d, 16),
                };
                let ghost before = maps_view(maps@);
                maps.push(m);
                assert(maps_view(maps@) =~= before.push(map_of_section(nm, s.data@)));
            },
            SectionTag::ProgramDef(k) => {
                let name = copy_range(s.name.as_slice(), start, s.name.len());
                if find_program(&programs, k, name.as_slice()) {
                    proof { lemma_scan_error_persists(sections@, i + 1); }
                    return Err(ParseError::DuplicateProgram);
                }
                let code = copy_range(s.data.as_slice(), 0, s.data.len());
                assert(s.data@.subrange(0, s.data@.len() as int) =~= s.data@);
                let relocations = copy_relocations(&s.relocations);
                let ghost before = programs_view(programs@);
                let p = ProgramImage { kind: k, name, code, relocations };
                assert(p@.relocations == relocations_view(s.relocations@));
                programs.push(p);
                assert(programs_view(programs@) =~= before.push(p@));
            },
            SectionTag::Ignored => {},
            SectionTag::UnknownKind => {
                proof { lemma_scan_error_persists(sections@, i + 1); }
                return Err(ParseError::UnknownProgramKind);
            },
        }
        i = i + 1;
    }
    assert(sections@.take(sections@.len() as int) =~= sections@);
    match license {
        None => Err(ParseError::MissingLicense),
        Some(l) => match version {
            None => Err(ParseError::MissingVersion),
            Some(v) => Ok(Module { license: l, version: v, maps, programs }),
        },
    }
}

} // verus!
