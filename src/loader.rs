//! Program loading and attachment: the requests made of the kernel, what its answers become,
//! and the lifetime of an attachment.
use vstd::prelude::*;
use crate::parser::{Module, ProgramImage};
use crate::section::{copy_range, ProgramKind};

verus! {

/// What is submitted to the kernel's verifier and loader for one program.
#[derive(Debug)]
pub struct LoadRequest {
    pub kind: ProgramKind,
    pub code: Vec<u8>,
    pub license: Vec<u8>,
    pub version: u32,
}

/// The load request for a program whose code has been patched, under its module's license
/// and kernel version.
pub fn load_request(prog: &ProgramImage, patched: Vec<u8>, module: &Module) -> (r: LoadRequest)
    ensures
        r.kind == prog.kind,
        r.code@ == patched@,
        r.license@ == module.license@,
        r.version == module.version,
{
    let license = copy_range(module.license.as_slice(), 0, module.license.len());
    assert(module.license@.subrange(0, module.license@.len() as int) =~= module.license@);
    LoadRequest { kind: prog.kind, code: patched, license, version: module.version }
}

/// Why the kernel would not load a program: its error code and the verifier's text, verbatim.
#[derive(Debug)]
pub struct LoadError {
    pub code: i32,
    pub diagnostic: Vec<u8>,
}

/// A program the kernel has accepted, owned by whoever holds this handle.
#[derive(Debug)]
pub struct LoadedProgram {
    pub kind: ProgramKind,
    pub name: Vec<u8>,
    pub fd: u32,
}

/// What the kernel's answer to a load request makes: a handle on success, the kernel's error
/// as it came otherwise. Nothing is retried or remedied.
pub fn load_outcome(prog: &ProgramImage, answer: Result<u32, LoadError>) -> (r: Result<
    LoadedProgram,
    LoadError,
>)
    ensures
        answer is Ok <==> r is Ok,
        answer is Ok ==> r->Ok_0.kind == prog.kind && r->Ok_0.name@ == prog.name@ && r->Ok_0.fd
            == answer->Ok_0,
        answer is Err ==> r->Err_0.code == answer->Err_0.code && r->Err_0.diagnostic@
            == answer->Err_0.diagnostic@,
{
    match answer {
        Ok(fd) => {
            let name = copy_range(prog.name.as_slice(), 0, prog.name.len());
            assert(prog.name@.subrange(0, prog.name@.len() as int) =~= prog.name@);
            Ok(LoadedProgram { kind: prog.kind, name, fd })
        },
        Err(e) => Err(e),
    }
}

/// Whether an XDP program takes over an interface or shares it.
#[derive(Clone, Copy, Debug, PartialEq, Eq, Structural)]
pub enum XdpMode {
    /// Replace any program already bound to the interface.
    Replace,
    /// Bind beside what is there; asked for explicitly.
    Coexist,
}

impl Default for XdpMode {
    /// An XDP program takes over its interface unless told otherwise.
    fn default() -> (r: XdpMode)
        ensures
            r == XdpMode::Replace,
    {
        XdpMode::Replace
    }
}

/// Where a program is to be attached.
#[derive(Debug)]
pub enum Hook {
    /// A kernel function, by symbol name.
    KernelSymbol(Vec<u8>),
    /// A user-space function: the binary's path and the symbol's offset in it.
    UserSymbol { path: Vec<u8>, offset: u64 },
    /// A network interface, by index.
    Interface { ifindex: u32, mode: XdpMode },
    /// An existing socket.
    Socket(u32),
}

/// Why an attachment attempt failed. The program stays loaded.
#[derive(Clone, Copy, Debug, PartialEq, Eq, Structural)]
pub enum AttachError {
    /// The hook is of another sort than the program's kind takes.
    WrongHook,
    /// The kernel found no such hook target.
    TargetNotFound,
    /// The hook already holds a program and this one may not replace it.
    HookOccupied,
}

/// The sort of hook that each program kind attaches to.
pub open spec fn hook_fits(kind: ProgramKind, hook: Hook) -> bool {
    match kind {
        ProgramKind::Kprobe | ProgramKind::Kretprobe => hook is KernelSymbol,
        ProgramKind::Uprobe | ProgramKind::Uretprobe => hook is UserSymbol,
        ProgramKind::Xdp => hook is Interface,
        ProgramKind::SocketFilter => hook is Socket,
    }
}

/// Whether a probe fires on return rather than on entry.
pub open spec fn on_return(kind: ProgramKind) -> bool {
    kind == ProgramKind::Kretprobe || kind == ProgramKind::Uretprobe
}

/// What is asked of the kernel to bind a loaded program to its hook.
#[derive(Debug)]
pub struct AttachRequest {
    pub program_fd: u32,
    pub kind: ProgramKind,
    pub on_return: bool,
    pub hook: Hook,
}

/// The attach request for a loaded program, dispatched on its kind; a hook of the wrong sort
/// is refused.
pub fn attach_request(prog: &LoadedProgram, hook: Hook) -> (r: Result<AttachRequest, AttachError>)
    ensures
        hook_fits(prog.kind, hook) ==> r is Ok && r->Ok_0.program_fd == prog.fd && r->Ok_0.kind
            == prog.kind && r->Ok_0.on_return == on_return(prog.kind) && r->Ok_0.hook == hook,
        !hook_fits(prog.kind, hook) ==> r == Err::<AttachRequest, AttachError>(
            AttachError::WrongHook,
        ),
{
    let fits = match prog.kind {
        ProgramKind::Kprobe | ProgramKind::Kretprobe => matches!(hook, Hook::KernelSymbol(_)),
        ProgramKind::Uprobe | ProgramKind::Uretprobe => matches!(hook, Hook::UserSymbol { .. }),
        ProgramKind::Xdp => matches!(hook, Hook::Interface { .. }),
        ProgramKind::SocketFilter => matches!(hook, Hook::Socket(_)),
    };
    if !fits {
        return Err(AttachError::WrongHook);
    }
    let on_ret = match prog.kind {
        ProgramKind::Kretprobe | ProgramKind::Uretprobe => true,
        _ => false,
    };
    Ok(AttachRequest { program_fd: prog.fd, kind: prog.kind, on_return: on_ret, hook })
}

/// The live binding of a program to its hook. `link` is the kernel's handle on the binding.
#[derive(Clone, Copy, Debug, PartialEq, Eq, Structural)]
pub struct Attachment {
    pub program_fd: u32,
    pub link: u32,
    pub live: bool,
}

/// What the kernel's answer to an attach request makes.
pub fn attach_outcome(req: &AttachRequest, answer: Result<u32, AttachError>) -> (r: Result<
    Attachment,
    AttachError,
>)
    ensures
        answer is Ok ==> r == Ok::<Attachment, AttachError>(
            Attachment { program_fd: req.program_fd, link: answer->Ok_0, live: true },
        ),
        answer is Err ==> r == Err::<Attachment, AttachError>(answer->Err_0),
{
    match answer {
        Ok(link) => Ok(Attachment { program_fd: req.program_fd, link, live: true }),
        Err(e) => Err(e),
    }
}

/// Detaching: the binding is no longer live, and the kernel handle to release is given back
/// the first time only.
pub open spec fn detach_spec(a: Attachment) -> (Attachment, Option<u32>) {
    (Attachment { live: false, ..a }, if a.live {
        Some(a.link)
    } else {
        None
    })
}

impl Attachment {
    /// Ends the binding. Idempotent: on an attachment already detached it does nothing and
    /// hands back nothing to release; it never fails.
    pub fn detach(&mut self) -> (r: Option<u32>)
        ensures
            (*final(self), r) == detach_spec(*old(self)),
    {
        if self.live {
            self.live = false;
            Some(self.link)
        } else {
            None
        }
    }

    pub fn is_attached(&self) -> (r: bool)
        ensures
            r == self.live,
    {
        self.live
    }
}

/// Detaching twice is detaching once: the second call hands back nothing to release, and
/// afterwards no binding is live.
pub proof fn lemma_detach_twice(a: Attachment)
    ensures
        detach_spec(detach_spec(a).0).1 is None,
        !detach_spec(detach_spec(a).0).0.live,
        detach_spec(detach_spec(a).0).0 == detach_spec(a).0,
{
}

/// The kernel handles a module holds (maps, programs, attachments), released together and
/// exactly once, on every path: a normal close, or an error part way through a load.
#[derive(Debug)]
pub struct ResourceArena {
    held: Vec<u32>,
}

impl ResourceArena {
    /// The handles held, oldest first.
    pub closed spec fn held(&self) -> Seq<u32> {
        self.held@
    }

    pub fn new() -> (r: ResourceArena)
        ensures
            r.held() == Seq::<u32>::empty(),
    {
        ResourceArena { held: Vec::new() }
    }

    /// Takes ownership of a handle the kernel has just given.
    pub fn hold(&mut self, fd: u32)
        ensures
            final(self).held() == old(self).held().push(fd),
    {
        self.held.push(fd);
    }

    /// Hands back every handle held, for release, and holds none after: a second call
    /// hands back nothing, so nothing is released twice.
    pub fn release_all(&mut self) -> (r: Vec<u32>)
        ensures
            r@ == old(self).held(),
            final(self).held() == Seq::<u32>::empty(),
    {
        let mut out: Vec<u32> = Vec::new();
        std::mem::swap(&mut out, &mut self.held);
        out
    }

    pub fn len(&self) -> (r: usize)
        ensures
            r == self.held().len(),
    {
        self.held.len()
    }
}

/// What the caller reports to a module load after each kernel call, or its own decision to
/// close the module.
#[derive(Clone, Copy, Debug, PartialEq, Eq, Structural)]
pub enum LoadEvent {
    /// The kernel handed out a handle: a map, a loaded program or an attachment.
    Acquired(u32),
    /// A map could not be created: fatal to the whole module.
    MapFailed,
    /// A program failed to relocate, load or attach: fatal to that program only.
    ProgramFailed,
    /// The module is closed.
    Close,
}

/// The handles acquired by an event.
pub open spec fn acquired_by(e: LoadEvent) -> Seq<u32> {
    match e {
        LoadEvent::Acquired(fd) => seq![fd],
        _ => Seq::empty(),
    }
}

/// A module being loaded: the handles it holds, and whether it has ended (closed, or stopped
/// by a fatal error).
#[derive(Debug)]
pub struct ModuleLoad {
    arena: ResourceArena,
    ended: bool,
}

impl ModuleLoad {
    pub closed spec fn held(&self) -> Seq<u32> {
        self.arena.held()
    }

    pub closed spec fn ended(&self) -> bool {
        self.ended
    }

    pub closed spec fn wf(&self) -> bool {
        self.ended ==> self.arena.held().len() == 0
    }

    pub fn new() -> (r: ModuleLoad)
        ensures
            r.wf(),
            r.held() == Seq::<u32>::empty(),
            !r.ended(),
    {
        ModuleLoad { arena: ResourceArena::new(), ended: false }
    }

    /// Takes in one event and gives back the handles to release now. Every handle acquired is
    /// either held or released, never both and never twice: what was held plus what the event
    /// acquired is what is held now plus what is released. A fatal map failure and a close
    /// release everything; a failed program releases nothing; a handle that arrives after the
    /// module ended is released at once.
    pub fn step(&mut self, event: LoadEvent) -> (r: Vec<u32>)
        requires
            old(self).wf(),
        ensures
            final(self).wf(),
            old(self).held() + acquired_by(event) == final(self).held() + r@,
            final(self).ended() == (old(self).ended() || event == LoadEvent::MapFailed || event
                == LoadEvent::Close),
            event == LoadEvent::ProgramFailed ==> r@.len() == 0 && final(self).held() == old(
                self,
            ).held(),
            (event == LoadEvent::MapFailed || event == LoadEvent::Close) ==> final(self).held()
                == Seq::<u32>::empty(),
    {
        match event {
            LoadEvent::Acquired(fd) => {
                if self.ended {
                    let r = vec![fd];
                    assert(self.held() + acquired_by(event) =~= self.held() + r@);
                    r
                } else {
                    self.arena.hold(fd);
                    let r: Vec<u32> = Vec::new();
                    assert(old(self).held() + acquired_by(event) =~= self.held() + r@);
                    r
                }
            },
            LoadEvent::ProgramFailed => {
                let r: Vec<u32> = Vec::new();
                assert(self.held() + acquired_by(event) =~= self.held() + r@);
                r
            },
            LoadEvent::MapFailed | LoadEvent::Close => {
                let r = self.arena.release_all();
                self.ended = true;
                assert(old(self).held() + acquired_by(event) =~= self.held() + r@);
                r
            },
        }
    }
}

} // verus!
