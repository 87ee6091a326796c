//! Map materialization: from map descriptors to live map handles, typed views over them,
//! and the walk over a map's keys.
use vstd::prelude::*;
use crate::parser::{maps_view, MapDescriptor, MapDescriptorView, Module};
use crate::section::{bytes_eq, copy_range};

verus! {

/// What is asked of the kernel's map allocator for one descriptor.
#[derive(Clone, Copy, Debug, PartialEq, Eq, Structural)]
pub struct MapCreateRequest {
    pub kind: u32,
    pub key_size: u32,
    pub value_size: u32,
    pub max_entries: u32,
    pub flags: u32,
}

/// The allocation request that a descriptor makes.
pub open spec fn request_of(d: MapDescriptorView) -> MapCreateRequest {
    MapCreateRequest {
        kind: d.kind,
        key_size: d.key_size,
        value_size: d.value_size,
        max_entries: d.max_entries,
        flags: d.flags,
    }
}

/// The allocation request for a map: the descriptor's layout, unchanged.
pub fn create_request(desc: &MapDescriptor) -> (r: MapCreateRequest)
    ensures
        r == request_of(desc@),
        r.kind == desc.kind,
        r.key_size == desc.key_size,
        r.value_size == desc.value_size,
        r.max_entries == desc.max_entries,
        r.flags == desc.flags,
{
    MapCreateRequest {
        kind: desc.kind,
        key_size: desc.key_size,
        value_size: desc.value_size,
        max_entries: desc.max_entries,
        flags: desc.flags,
    }
}

/// A live kernel map: its name, its resource identifier and its recorded layout.
#[derive(Debug)]
pub struct LoadedMap {
    pub name: Vec<u8>,
    pub fd: u32,
    pub kind: u32,
    pub key_size: u32,
    pub value_size: u32,
}

pub struct LoadedMapView {
    pub name: Seq<u8>,
    pub fd: u32,
    pub kind: u32,
    pub key_size: u32,
    pub value_size: u32,
}

impl View for LoadedMap {
    type V = LoadedMapView;

    open spec fn view(&self) -> LoadedMapView {
        LoadedMapView {
            name: self.name@,
            fd: self.fd,
            kind: self.kind,
            key_size: self.key_size,
            value_size: self.value_size,
        }
    }
}

pub open spec fn loaded_view(ms: Seq<LoadedMap>) -> Seq<LoadedMapView> {
    ms.map_values(|m: LoadedMap| m@)
}

/// The live map that a descriptor and the identifier the kernel gave it make.
pub open spec fn loaded_of(d: MapDescriptorView, fd: u32) -> LoadedMapView {
    LoadedMapView {
        name: d.name,
        fd,
        kind: d.kind,
        key_size: d.key_size,
        value_size: d.value_size,
    }
}

/// Why a map operation failed.
#[derive(Clone, Copy, Debug, PartialEq, Eq, Structural)]
pub enum MapError {
    /// The kernel refused to create the map at this index of the module, with this code.
    CreateFailed { index: u64, code: i32 },
    /// Fewer or more creation outcomes than the module has maps.
    OutcomeCountMismatch,
    /// A typed view declared sizes other than the map's.
    SizeMismatch,
    /// The map is full.
    CapacityExceeded,
}

/// Every map of a module, materialized. Relocation takes this stage, so it cannot run
/// before the maps exist.
#[derive(Debug)]
pub struct MaterializedMaps {
    maps: Vec<LoadedMap>,
}

impl View for MaterializedMaps {
    type V = Seq<LoadedMapView>;

    closed spec fn view(&self) -> Seq<LoadedMapView> {
        loaded_view(self.maps@)
    }
}

/// The maps that a module materializes into, given the identifier of each.
pub open spec fn materialized_spec(ds: Seq<MapDescriptorView>, fds: Seq<u32>) -> Seq<LoadedMapView> {
    Seq::new(ds.len(), |i: int| loaded_of(ds[i], fds[i]))
}

/// The identifiers of the successful creations among `os[0..n]`, in order.
pub open spec fn acquired(os: Seq<Result<u32, i32>>, n: int) -> Seq<u32>
    decreases n,
{
    if n <= 0 {
        Seq::empty()
    } else {
        match os[n - 1] {
            Ok(fd) => acquired(os, n - 1).push(fd),
            Err(_) => acquired(os, n - 1),
        }
    }
}

/// A failed materialization, with the identifiers that were acquired and must be released.
#[derive(Debug)]
pub struct MaterializeFailure {
    pub error: MapError,
    pub release: Vec<u32>,
}

/// Builds the materialized stage of a module from the kernel's answer to each map's creation
/// request, in module order. On any failure nothing is kept: every identifier that was
/// acquired is handed back for release, and the first failure is the error.
pub fn materialize(module: &Module, outcomes: &Vec<Result<u32, i32>>) -> (r: Result<
    MaterializedMaps,
    MaterializeFailure,
>)
    ensures
        outcomes@.len() != module.maps@.len() ==> r is Err && r->Err_0.error
            == MapError::OutcomeCountMismatch,
        outcomes@.len() == module.maps@.len() && (forall|i: int|
            0 <= i < outcomes@.len() ==> outcomes@[i] is Ok) ==> r is Ok && r->Ok_0@
            == materialized_spec(
            maps_view(module.maps@),
            Seq::new(outcomes@.len(), |i: int| outcomes@[i]->Ok_0),
        ),
        outcomes@.len() == module.maps@.len() && (exists|i: int|
            0 <= i < outcomes@.len() && outcomes@[i] is Err) ==> r is Err && (exists|i: int|
            0 <= i < outcomes@.len() && outcomes@[i] is Err && (forall|j: int|
                0 <= j < i ==> outcomes@[j] is Ok) && r->Err_0.error == (MapError::CreateFailed {
                index: i as u64,
                code: outcomes@[i]->Err_0,
            })),
        r is Err ==> r->Err_0.release@ == acquired(outcomes@, outcomes@.len() as int),
{
    let mut release: Vec<u32> = Vec::new();
    let mut i: usize = 0;
    while i < outcomes.len()
        invariant
            i <= outcomes@.len(),
            release@ == acquired(outcomes@, i as int),
        decreases outcomes@.len() - i,
    {
        match outcomes[i] {
            Ok(fd) => release.push(fd),
            Err(_) => {},
        }
        i = i + 1;
    }
    if outcomes.len() != module.maps.len() {
        return Err(MaterializeFailure { error: MapError::OutcomeCountMismatch, release });
    }
    let mut maps: Vec<LoadedMap> = Vec::new();
    let mut j: usize = 0;
    while j < outcomes.len()
        invariant
            j <= outcomes@.len(),
            outcomes@.len() == module.maps@.len(),
            release@ == acquired(outcomes@, outcomes@.len() as int),
            forall|k: int| 0 <= k < j ==> outcomes@[k] is Ok,
            loaded_view(maps@) == materialized_spec(
                maps_view(module.maps@).take(j as int),
                Seq::new(j as nat, |k: int| outcomes@[k]->Ok_0),
            ),
        decreases outcomes@.len() - j,
    {
        match outcomes[j] {
            Ok(fd) => {
                let d = &module.maps[j];
                let name = copy_range(d.name.as_slice(), 0, d.name.len());
                assert(d.name@.subrange(0, d.name@.len() as int) =~= d.name@);
                let ghost before = loaded_view(maps@);
                let m = LoadedMap {
                    name,
                    fd,
                    kind: d.kind,
                    key_size: d.key_size,
                    value_size: d.value_size,
                };
                maps.push(m);
                assert(loaded_view(maps@) =~= materialized_spec(
                    maps_view(module.maps@).take(j + 1),
                    Seq::new((j + 1) as nat, |k: int| outcomes@[k]->Ok_0),
                )) by {
                    assert(loaded_view(maps@) =~= before.push(m@));
                    assert(maps_view(module.maps@)[j as int] == d@);
                }
            },
            Err(code) => {
                let ghost at = j as int;
                assert(outcomes@[at] is Err && forall|k: int| 0 <= k < at ==> outcomes@[k] is Ok);
                return Err(
                    MaterializeFailure {
                        error: MapError::CreateFailed { index: j as u64, code },
                        release,
                    },
                );
            },
        }
        j = j + 1;
    }
    assert(maps_view(module.maps@).take(outcomes@.len() as int) =~= maps_view(module.maps@));
    assert(Seq::new(outcomes@.len() as nat, |k: int| outcomes@[k]->Ok_0) =~= Seq::new(
        outcomes@.len(),
        |i: int| outcomes@[i]->Ok_0,
    ));
    let r = MaterializedMaps { maps };
    assert(r@ == loaded_view(maps@));
    Ok(r)
}

/// The index of the first map called `name` at or after `i`.
pub open spec fn lookup_from(ms: Seq<LoadedMapView>, name: Seq<u8>, i: int) -> Option<int>
    decreases ms.len() - i,
{
    if i < 0 || i >= ms.len() {
        None
    } else if ms[i].name == name {
        Some(i)
    } else {
        lookup_from(ms, name, i + 1)
    }
}

/// A lookup that finds something finds a map of that name, at or after where it started.
pub proof fn lemma_lookup_bounds(ms: Seq<LoadedMapView>, name: Seq<u8>, i: int)
    requires
        0 <= i,
    ensures
        lookup_from(ms, name, i) matches Some(j) ==> i <= j < ms.len() && ms[j].name == name,
    decreases ms.len() - i,
{
    if i < ms.len() && ms[i].name != name {
        lemma_lookup_bounds(ms, name, i + 1);
    }
}

pub open spec fn lookup(ms: Seq<LoadedMapView>, name: Seq<u8>) -> Option<int> {
    lookup_from(ms, name, 0)
}

impl MaterializedMaps {
    /// Every live map of the module, in module order.
    pub fn maps(&self) -> (r: &Vec<LoadedMap>)
        ensures
            loaded_view(r@) == self@,
    {
        &self.maps
    }

    /// The live map called `name`, if the module has one.
    pub fn get(&self, name: &[u8]) -> (r: Option<&LoadedMap>)
        ensures
            r is None <==> lookup(self@, name@) is None,
            r is Some ==> r->0@ == self@[lookup(self@, name@)->0],
            r is Some ==> r->0@.name == name@,
    {
        let mut i: usize = 0;
        while i < self.maps.len()
            invariant
                i <= self.maps@.len(),
                lookup(loaded_view(self.maps@), name@) == lookup_from(
                    loaded_view(self.maps@),
                    name@,
                    i as int,
                ),
            decreases self.maps@.len() - i,
        {
            if bytes_eq(self.maps[i].name.as_slice(), name) {
                return Some(&self.maps[i]);
            }
            i = i + 1;
        }
        None
    }
}

/// A map that the kernel already holds under a shared name, such as one pinned to a path.
#[derive(Clone, Copy, Debug, PartialEq, Eq, Structural)]
pub struct SharedMap {
    pub fd: u32,
    pub kind: u32,
    pub key_size: u32,
    pub value_size: u32,
}

/// How a descriptor's map comes to exist.
#[derive(Clone, Copy, Debug, PartialEq, Eq, Structural)]
pub enum MapAction {
    /// Open and use the shared map with this identifier.
    Reuse(u32),
    /// Ask the allocator for a new map.
    Create(MapCreateRequest),
}

/// Whether a shared map of the descriptor's name can stand for it: same kind, key size and
/// value size.
pub open spec fn shared_matches(desc: MapDescriptorView, shared: SharedMap) -> bool {
    shared.kind == desc.kind && shared.key_size == desc.key_size && shared.value_size
        == desc.value_size
}

/// Reuses the shared map found under the descriptor's name where it matches the descriptor's
/// layout; allocates a new one otherwise.
pub fn create_or_open(desc: &MapDescriptor, shared: Option<SharedMap>) -> (r: MapAction)
    ensures
        (shared is Some && shared_matches(desc@, shared->0)) ==> r == MapAction::Reuse(
            shared->0.fd,
        ),
        !(shared is Some && shared_matches(desc@, shared->0)) ==> r == MapAction::Create(
            request_of(desc@),
        ),
{
    match shared {
        Some(m) => {
            if m.kind == desc.kind && m.key_size == desc.key_size && m.value_size == desc.value_size {
                return MapAction::Reuse(m.fd);
            }
        },
        None => {},
    }
    MapAction::Create(create_request(desc))
}

/// A map seen through caller-declared key and value sizes.
#[derive(Clone, Copy, Debug, PartialEq, Eq, Structural)]
pub struct TypedMap {
    pub fd: u32,
    pub key_size: u32,
    pub value_size: u32,
}

impl TypedMap {
    /// A typed view of `map`; refused at once where the declared sizes are not the map's.
    pub fn new(map: &LoadedMap, key_size: u32, value_size: u32) -> (r: Result<TypedMap, MapError>)
        ensures
            (key_size == map.key_size && value_size == map.value_size) ==> r == Ok::<
                TypedMap,
                MapError,
            >(TypedMap { fd: map.fd, key_size, value_size }),
            !(key_size == map.key_size && value_size == map.value_size) ==> r == Err::<
                TypedMap,
                MapError,
            >(MapError::SizeMismatch),
    {
        if key_size == map.key_size && value_size == map.value_size {
            Ok(TypedMap { fd: map.fd, key_size, value_size })
        } else {
            Err(MapError::SizeMismatch)
        }
    }

    /// Whether a key and a value have the sizes this map was declared with.
    pub fn fits(&self, key: &[u8], value: &[u8]) -> (r: bool)
        ensures
            r == (key@.len() == self.key_size && value@.len() == self.value_size),
    {
        key.len() as u64 == self.key_size as u64 && value.len() as u64 == self.value_size as u64
    }
}

/// The outcome of an insertion as the kernel reported it: a full map is an error, which is
/// surfaced and never retried.
pub fn insert_outcome(full: bool) -> (r: Result<(), MapError>)
    ensures
        full ==> r == Err::<(), MapError>(MapError::CapacityExceeded),
        !full ==> r is Ok,
{
    if full {
        Err(MapError::CapacityExceeded)
    } else {
        Ok(())
    }
}

/// The position of the first `k` in `order` at or after `i`.
pub open spec fn position_from(order: Seq<Seq<u8>>, k: Seq<u8>, i: int) -> Option<int>
    decreases order.len() - i,
{
    if i < 0 || i >= order.len() {
        None
    } else if order[i] == k {
        Some(i)
    } else {
        position_from(order, k, i + 1)
    }
}

/// The kernel's "next key after" query on a map whose keys it holds in `order`: the first key
/// when asked from the start or after a key it no longer holds, the following key otherwise,
/// and nothing after the last.
pub open spec fn next_key(order: Seq<Seq<u8>>, after: Option<Seq<u8>>) -> Option<Seq<u8>> {
    let start = match after {
        None => 0,
        Some(k) => match position_from(order, k, 0) {
            Some(i) => i + 1,
            None => 0,
        },
    };
    if start < order.len() {
        Some(order[start])
    } else {
        None
    }
}

/// A lazy, weakly consistent walk over a map's keys by repeated "next key after" queries.
/// It is no snapshot: keys that others add or remove meanwhile may be missed, and a key that
/// vanishes under the walk restarts it, so keys may be seen again.
#[derive(Debug)]
pub struct KeyWalk {
    pub last: Option<Vec<u8>>,
    pub seen: Vec<Vec<u8>>,
    pub finished: bool,
}

pub struct KeyWalkView {
    pub last: Option<Seq<u8>>,
    pub seen: Seq<Seq<u8>>,
    pub finished: bool,
}

impl View for KeyWalk {
    type V = KeyWalkView;

    open spec fn view(&self) -> KeyWalkView {
        KeyWalkView {
            last: match self.last {
                Some(k) => Some(k@),
                None => None,
            },
            seen: self.seen@.map_values(|k: Vec<u8>| k@),
            finished: self.finished,
        }
    }
}

pub open spec fn walk_start() -> KeyWalkView {
    KeyWalkView { last: None, seen: Seq::empty(), finished: false }
}

/// One answer of the kernel taken in.
pub open spec fn walk_step(w: KeyWalkView, answer: Option<Seq<u8>>) -> KeyWalkView {
    if w.finished {
        w
    } else {
        match answer {
            Some(k) => KeyWalkView { last: Some(k), seen: w.seen.push(k), finished: false },
            None => KeyWalkView { finished: true, ..w },
        }
    }
}

/// `n` steps of a walk over a map whose keys stay in `order` throughout.
pub open spec fn walk_run(order: Seq<Seq<u8>>, n: nat) -> KeyWalkView
    decreases n,
{
    if n == 0 {
        walk_start()
    } else {
        let w = walk_run(order, (n - 1) as nat);
        walk_step(w, next_key(order, w.last))
    }
}

impl KeyWalk {
    pub fn new() -> (r: KeyWalk)
        ensures
            r@ == walk_start(),
    {
        let r = KeyWalk { last: None, seen: Vec::new(), finished: false };
        assert(r@.seen =~= Seq::<Seq<u8>>::empty());
        r
    }

    /// The key to ask the kernel for the successor of; `None` asks for the first key.
    pub fn query(&self) -> (r: Option<&Vec<u8>>)
        ensures
            match r {
                Some(k) => self@.last == Some(k@),
                None => self@.last is None,
            },
    {
        match &self.last {
            Some(k) => Some(k),
            None => None,
        }
    }

    /// Takes in the kernel's answer to the last query.
    pub fn advance(&mut self, answer: Option<Vec<u8>>)
        ensures
            final(self)@ == walk_step(
                old(self)@,
                match answer {
                    Some(k) => Some(k@),
                    None => None,
                },
            ),
    {
        if self.finished {
            return;
        }
        match answer {
            Some(k) => {
                let ghost before = self@.seen;
                let copy = copy_range(k.as_slice(), 0, k.len());
                assert(k@.subrange(0, k@.len() as int) =~= k@);
                self.seen.push(copy);
                assert(self@.seen =~= before.push(k@));
                self.last = Some(k);
            },
            None => {
                self.finished = true;
            },
        }
    }
}

pub open spec fn no_duplicates(order: Seq<Seq<u8>>) -> bool {
    forall|i: int, j: int| 0 <= i < j < order.len() ==> order[i] != order[j]
}

proof fn lemma_position_unique(order: Seq<Seq<u8>>, n: int, i: int)
    requires
        no_duplicates(order),
        0 <= i <= n < order.len(),
    ensures
        position_from(order, order[n], i) == Some(n),
    decreases n - i,
{
    if i < n {
        lemma_position_unique(order, n, i + 1);
    }
}

proof fn lemma_walk_prefix(order: Seq<Seq<u8>>, n: nat)
    requires
        no_duplicates(order),
        n <= order.len(),
    ensures
        walk_run(order, n).seen == order.take(n as int),
        !walk_run(order, n).finished,
        n == 0 ==> walk_run(order, n).last is None,
        n > 0 ==> walk_run(order, n).last == Some(order[n - 1]),
    decreases n,
{
    if n == 0 {
        assert(order.take(0) =~= Seq::<Seq<u8>>::empty());
    } else {
        lemma_walk_prefix(order, (n - 1) as nat);
        if n > 1 {
            lemma_position_unique(order, n - 2, 0);
        }
        assert(order.take(n as int) =~= order.take(n - 1).push(order[n - 1]));
    }
}

/// On a map whose keys nobody changes meanwhile, a walk from the start sees every key exactly
/// once, in the kernel's order, and then ends: the keys seen are exactly the map's keys.
pub proof fn lemma_walk_complete(order: Seq<Seq<u8>>)
    requires
        no_duplicates(order),
    ensures
        walk_run(order, order.len() + 1).seen == order,
        walk_run(order, order.len() + 1).finished,
        walk_run(order, order.len() + 1).seen.to_set() == order.to_set(),
{
    lemma_walk_prefix(order, order.len());
    if order.len() > 0 {
        lemma_position_unique(order, order.len() - 1, 0);
    }
    assert(order.take(order.len() as int) =~= order);
}

} // verus!
