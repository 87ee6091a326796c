use redbpf_core::loader::{
    attach_outcome, attach_request, load_outcome, load_request, AttachError, Attachment, Hook,
    LoadError, XdpMode,
};
use redbpf_core::maps::{
    create_or_open, create_request, insert_outcome, materialize, KeyWalk, MapAction, MapError,
    SharedMap, TypedMap,
};
use redbpf_core::parser::{parse, ParseError, RawSection, Relocation, ANY_KERNEL_VERSION};
use redbpf_core::relocate::{resolve_module, resolve_program, RelocationError};
use redbpf_core::section::{
    classify, inline_bytes, map_section_name, parse_kind, probe_name, program_section_name,
    ProgramKind, SectionTag,
};

fn le(words: &[u32]) -> Vec<u8> {
    let mut v = Vec::new();
    for w in words {
        v.extend_from_slice(&w.to_le_bytes());
    }
    v
}

fn section(name: &str, data: Vec<u8>, executable: bool) -> RawSection {
    RawSection { name: name.as_bytes().to_vec(), data, executable, relocations: Vec::new() }
}

fn wide_load() -> Vec<u8> {
    let mut code = vec![0x18u8, 0x01, 0, 0, 0, 0, 0, 0];
    code.extend_from_slice(&[0u8; 8]);
    code.extend_from_slice(&[0x95u8, 0, 0, 0, 0, 0, 0, 0]);
    code
}

fn clone_image() -> Vec<RawSection> {
    let mut prog = section("kprobe/clone_enter", wide_load(), true);
    prog.relocations.push(Relocation { offset: 0, map_name: b"counts".to_vec() });
    vec![
        section("license", b"GPL\0".to_vec(), false),
        section("version", le(&[ANY_KERNEL_VERSION]), false),
        section("maps/counts", le(&[1, 8, 16, 1024, 0]), false),
        prog,
        section(".text", vec![1, 2, 3], true),
        section(".BTF", vec![9], false),
    ]
}

#[test]
fn clone_image_parses_loads_and_attaches() {
    let m = parse(&clone_image()).unwrap();
    assert_eq!(m.license, b"GPL".to_vec());
    assert_eq!(m.version, 0xFFFF_FFFE);
    assert_eq!(m.maps.len(), 1);
    assert_eq!(m.maps[0].name, b"counts".to_vec());
    assert_eq!(
        (m.maps[0].kind, m.maps[0].key_size, m.maps[0].value_size, m.maps[0].max_entries),
        (1, 8, 16, 1024)
    );
    assert_eq!(m.programs.len(), 1);
    assert_eq!(m.programs[0].kind, ProgramKind::Kprobe);
    assert_eq!(m.programs[0].name, b"clone_enter".to_vec());

    let maps = materialize(&m, &vec![Ok(7)]).unwrap();
    let counts = maps.get(b"counts").unwrap();
    assert_eq!(counts.fd, 7);
    assert_eq!(maps.maps().len(), 1);
    let code = resolve_program(&m.programs[0], &maps).unwrap();
    let req = load_request(&m.programs[0], code, &m);
    assert_eq!(req.license, b"GPL".to_vec());
    assert_eq!(req.version, ANY_KERNEL_VERSION);
    let prog = load_outcome(&m.programs[0], Ok(11)).unwrap();
    let areq = attach_request(&prog, Hook::KernelSymbol(b"__x64_sys_clone".to_vec())).unwrap();
    assert!(!areq.on_return);
    let att = attach_outcome(&areq, Ok(3)).unwrap();
    assert!(att.is_attached());

    // What the program wrote is read back by walking the map's keys.
    let kernel_keys: Vec<Vec<u8>> = vec![vec![1u8; 8], vec![2u8; 8]];
    let seen = walk(&kernel_keys);
    assert_eq!(seen, kernel_keys);
}

#[test]
fn counts_match_sections() {
    let mut image = clone_image();
    image.push(section("maps/other", le(&[2, 4, 4, 16, 1]), false));
    image.push(section("kretprobe/clone_enter", wide_load(), true));
    image.push(section("xdp-ingress/pass", wide_load(), true));
    let m = parse(&image).unwrap();
    assert_eq!(m.maps.len(), 2);
    assert_eq!(m.programs.len(), 3);
    assert_eq!(m.programs[1].kind, ProgramKind::Kretprobe);
    assert_eq!(m.programs[2].kind, ProgramKind::Xdp);
    assert_eq!(m.maps[1].flags, 1);
}

#[test]
fn parsing_twice_gives_equal_modules() {
    let a = parse(&clone_image()).unwrap();
    let b = parse(&clone_image()).unwrap();
    assert_eq!(format!("{:?}", a), format!("{:?}", b));
}

#[test]
fn parse_errors() {
    let mut no_license = clone_image();
    no_license.remove(0);
    assert_eq!(parse(&no_license).unwrap_err(), ParseError::MissingLicense);

    let mut no_version = clone_image();
    no_version.remove(1);
    assert_eq!(parse(&no_version).unwrap_err(), ParseError::MissingVersion);

    let mut bad_license = clone_image();
    bad_license[0] = section("license", b"GPL".to_vec(), false);
    assert_eq!(parse(&bad_license).unwrap_err(), ParseError::BadLicense);

    let mut bad_version = clone_image();
    bad_version[1] = section("version", vec![1, 2, 3], false);
    assert_eq!(parse(&bad_version).unwrap_err(), ParseError::BadVersion);

    let mut bad_map = clone_image();
    bad_map[2] = section("maps/counts", le(&[1, 8, 16, 1024]), false);
    assert_eq!(parse(&bad_map).unwrap_err(), ParseError::BadMap);

    let mut unknown = clone_image();
    unknown.push(section("tracepoint/x", wide_load(), true));
    assert_eq!(parse(&unknown).unwrap_err(), ParseError::UnknownProgramKind);

    let mut dup_meta = clone_image();
    dup_meta.push(section("license", b"MIT\0".to_vec(), false));
    assert_eq!(parse(&dup_meta).unwrap_err(), ParseError::DuplicateMetadata);

    let mut dup_map = clone_image();
    dup_map.push(section("maps/counts", le(&[1, 8, 16, 1024, 0]), false));
    assert_eq!(parse(&dup_map).unwrap_err(), ParseError::DuplicateMap);

    let mut dup_prog = clone_image();
    dup_prog.push(section("kprobe/clone_enter", wide_load(), true));
    assert_eq!(parse(&dup_prog).unwrap_err(), ParseError::DuplicateProgram);
}

#[test]
fn unknown_sections_are_ignored_but_not_unknown_kinds() {
    let mut image = clone_image();
    image.push(section("tracepoint/x", vec![], false));
    image.push(section("note", vec![], true));
    assert!(parse(&image).is_ok());
    assert_eq!(classify(b"tracepoint/x", true).0, SectionTag::UnknownKind);
    assert_eq!(classify(b"tracepoint/x", false).0, SectionTag::Ignored);
    assert_eq!(classify(b"socket-filter/f", true), (SectionTag::ProgramDef(ProgramKind::SocketFilter), 14));
    assert_eq!(classify(b"maps/a/b", false), (SectionTag::MapDef, 5));
}

#[test]
fn create_request_is_the_descriptor() {
    let m = parse(&clone_image()).unwrap();
    let r = create_request(&m.maps[0]);
    assert_eq!((r.kind, r.key_size, r.value_size, r.max_entries, r.flags), (1, 8, 16, 1024, 0));
}

#[test]
fn materialize_failure_releases_acquired() {
    let mut image = clone_image();
    image.push(section("maps/a", le(&[1, 4, 4, 4, 0]), false));
    image.push(section("maps/b", le(&[1, 4, 4, 4, 0]), false));
    let m = parse(&image).unwrap();
    let f = materialize(&m, &vec![Ok(5), Err(-12), Ok(6)]).unwrap_err();
    assert_eq!(f.error, MapError::CreateFailed { index: 1, code: -12 });
    assert_eq!(f.release, vec![5, 6]);
    let g = materialize(&m, &vec![Ok(5)]).unwrap_err();
    assert_eq!(g.error, MapError::OutcomeCountMismatch);
    assert_eq!(g.release, vec![5]);
}

#[test]
fn relocation_patches_map_identifier() {
    let m = parse(&clone_image()).unwrap();
    let maps = materialize(&m, &vec![Ok(0x0102_0304)]).unwrap();
    let code = resolve_program(&m.programs[0], &maps).unwrap();
    assert_eq!(&code[0..8], &[0x18, 0x11, 0, 0, 0x04, 0x03, 0x02, 0x01]);
    assert_eq!(&code[8..16], &[0u8; 8]);
    assert_eq!(&code[16..24], &[0x95, 0, 0, 0, 0, 0, 0, 0]);
}

#[test]
fn dangling_relocation_fails_only_its_program() {
    let mut image = clone_image();
    let mut bad = section("kprobe/broken", wide_load(), true);
    bad.relocations.push(Relocation { offset: 0, map_name: b"missing".to_vec() });
    image.push(bad);
    let mut far = section("kprobe/far", wide_load(), true);
    far.relocations.push(Relocation { offset: 16, map_name: b"counts".to_vec() });
    image.push(far);
    let mut odd = section("kprobe/odd", wide_load(), true);
    odd.relocations.push(Relocation { offset: 8, map_name: b"counts".to_vec() });
    image.push(odd);
    let m = parse(&image).unwrap();
    let maps = materialize(&m, &vec![Ok(9)]).unwrap();
    let rs = resolve_module(&m, &maps);
    assert_eq!(rs.len(), 4);
    assert_eq!(rs[0].as_ref().unwrap()[4], 9);
    assert_eq!(rs[1].as_ref().unwrap_err(), &RelocationError::UnknownMap);
    assert_eq!(rs[2].as_ref().unwrap_err(), &RelocationError::OutOfRange);
    assert_eq!(rs[3].as_ref().unwrap_err(), &RelocationError::NotWideLoad);
}

#[test]
fn load_error_is_verbatim() {
    let m = parse(&clone_image()).unwrap();
    let e = load_outcome(
        &m.programs[0],
        Err(LoadError { code: -13, diagnostic: b"R1 invalid mem access".to_vec() }),
    )
    .unwrap_err();
    assert_eq!(e.code, -13);
    assert_eq!(e.diagnostic, b"R1 invalid mem access".to_vec());
}

#[test]
fn attach_dispatch_and_errors() {
    let m = parse(&clone_image()).unwrap();
    let prog = load_outcome(&m.programs[0], Ok(4)).unwrap();
    let e = attach_request(&prog, Hook::Interface { ifindex: 2, mode: XdpMode::Replace });
    assert_eq!(e.unwrap_err(), AttachError::WrongHook);
    let req = attach_request(&prog, Hook::KernelSymbol(b"nope".to_vec())).unwrap();
    assert_eq!(attach_outcome(&req, Err(AttachError::TargetNotFound)).unwrap_err(), AttachError::TargetNotFound);
    assert_eq!(attach_outcome(&req, Err(AttachError::HookOccupied)).unwrap_err(), AttachError::HookOccupied);
}

#[test]
fn detach_twice_is_harmless() {
    let mut a = Attachment { program_fd: 4, link: 8, live: true };
    assert_eq!(a.detach(), Some(8));
    assert_eq!(a.detach(), None);
    assert!(!a.is_attached());
}

fn walk(kernel_keys: &Vec<Vec<u8>>) -> Vec<Vec<u8>> {
    let mut w = KeyWalk::new();
    while !w.finished {
        let answer = match w.query() {
            None => kernel_keys.first().cloned(),
            Some(k) => match kernel_keys.iter().position(|x| x == k) {
                Some(i) => kernel_keys.get(i + 1).cloned(),
                None => kernel_keys.first().cloned(),
            },
        };
        w.advance(answer);
    }
    w.seen
}

/// A stand-in for the kernel's hash map: inserts keys up to its capacity, surfacing a full map
/// through the library's outcome.
fn kernel_insert(keys: &mut Vec<Vec<u8>>, max_entries: usize, key: Vec<u8>) -> Result<(), MapError> {
    let full = !keys.contains(&key) && keys.len() >= max_entries;
    insert_outcome(full)?;
    if !keys.contains(&key) {
        keys.push(key);
    }
    Ok(())
}

#[test]
fn iterating_inserted_keys_gives_them_back() {
    let mut keys: Vec<Vec<u8>> = Vec::new();
    for k in [2u32, 3, 1] {
        assert!(kernel_insert(&mut keys, 3, le(&[k])).is_ok());
    }
    let mut seen = walk(&keys);
    seen.sort();
    assert_eq!(seen, vec![le(&[1]), le(&[2]), le(&[3])]);
    assert_eq!(kernel_insert(&mut keys, 3, le(&[4])), Err(MapError::CapacityExceeded));
    assert_eq!(walk(&keys).len(), 3);
}

#[test]
fn pinned_map_is_reused_only_when_it_matches() {
    let m = parse(&clone_image()).unwrap();
    let d = &m.maps[0];
    let same = SharedMap { fd: 40, kind: 1, key_size: 8, value_size: 16 };
    assert_eq!(create_or_open(d, Some(same)), MapAction::Reuse(40));
    let other = SharedMap { fd: 40, kind: 1, key_size: 8, value_size: 8 };
    assert_eq!(create_or_open(d, Some(other)), MapAction::Create(create_request(d)));
    assert_eq!(create_or_open(d, None), MapAction::Create(create_request(d)));
}

#[test]
fn xdp_replaces_by_default() {
    assert_eq!(XdpMode::default(), XdpMode::Replace);
}

#[test]
fn typed_map_sizes_are_checked() {
    let m = parse(&clone_image()).unwrap();
    let maps = materialize(&m, &vec![Ok(7)]).unwrap();
    let counts = maps.get(b"counts").unwrap();
    assert_eq!(TypedMap::new(counts, 8, 8), Err(MapError::SizeMismatch));
    let t = TypedMap::new(counts, 8, 16).unwrap();
    assert!(t.fits(&[0u8; 8], &[0u8; 16]));
    assert!(!t.fits(&[0u8; 4], &[0u8; 16]));
    assert!(maps.get(b"absent").is_none());
}

#[test]
fn section_names() {
    assert_eq!(program_section_name(ProgramKind::Kprobe, b"clone_enter"), b"kprobe/clone_enter".to_vec());
    assert_eq!(program_section_name(ProgramKind::SocketFilter, b"f"), b"socket-filter/f".to_vec());
    assert_eq!(map_section_name(b"dns_queries"), b"maps/dns_queries".to_vec());
    assert_eq!(inline_bytes(b"GPL".to_vec()), b"GPL\0".to_vec());
    assert_eq!(probe_name(Some(b"given".to_vec()), b"own".to_vec()), b"given".to_vec());
    assert_eq!(probe_name(None, b"own".to_vec()), b"own".to_vec());
    assert_eq!(parse_kind(b"uretprobe"), Some(ProgramKind::Uretprobe));
    assert_eq!(parse_kind(b"xdp"), None);
    assert_eq!(parse_kind(b"xdp-ingress"), Some(ProgramKind::Xdp));
    assert_eq!(program_section_name(ProgramKind::Xdp, b"p"), b"xdp-ingress/p".to_vec());
}
