//! The services that the thread-introspection engine asks of its host: the
//! target's pid, its memory, its registers and the addresses of its symbols.

use crate::lifecycle::{Lifecycle, LifecycleAction, Occurrence};
use crate::memory::{MemoryTransfer, Phase, Transfer, TransferOutcome};
use crate::symbols::SymbolTable;
use crate::thread_db::TdErr;
use vstd::prelude::*;

verus! {

/// Result code of a service.
#[derive(Clone, Copy, Debug, PartialEq, Eq, Structural)]
pub enum PsErr {
    /// Generic "call succeeded".
    Success,
    /// Generic error.
    Failure,
    /// Bad process handle.
    BadPID,
    /// Bad LWP identifier.
    BadLID,
    /// Bad address.
    BadAddr,
    /// Could not find given symbol.
    NoSym,
    /// FPU register set not available for given LWP.
    NoFRegs,
}

impl PsErr {
    /// The number the engine knows this code by.
    pub open spec fn code_of(self) -> int {
        match self {
            PsErr::Success => 0,
            PsErr::Failure => 1,
            PsErr::BadPID => 2,
            PsErr::BadLID => 3,
            PsErr::BadAddr => 4,
            PsErr::NoSym => 5,
            PsErr::NoFRegs => 6,
        }
    }

    /// The number the engine knows this code by.
    pub fn code(&self) -> (c: i32)
        ensures
            c == self.code_of(),
    {
        match self {
            PsErr::Success => 0,
            PsErr::Failure => 1,
            PsErr::BadPID => 2,
            PsErr::BadLID => 3,
            PsErr::BadAddr => 4,
            PsErr::NoSym => 5,
            PsErr::NoFRegs => 6,
        }
    }

    /// The code that reports how a transfer ended: success where every
    /// byte was moved, the generic error otherwise.
    pub fn of_outcome(outcome: TransferOutcome) -> (e: PsErr)
        ensures
            e == (if outcome is Completed {
                PsErr::Success
            } else {
                PsErr::Failure
            }),
    {
        match outcome {
            TransferOutcome::Completed => PsErr::Success,
            _ => PsErr::Failure,
        }
    }
}

/// What happened outside, as an attachment is told of it.
pub enum LifecycleEvent {
    /// The caller asks to attach.
    AttachRequested,
    /// Tracing control was taken.
    Seized,
    /// Tracing control could not be taken.
    SeizeFailed,
    /// The symbol index was built: here it is.
    Resolved(SymbolTable),
    /// The symbol index could not be built.
    ResolveFailed,
    /// The engine answered the creation of its agent with this code.
    AgentCreated(TdErr),
    /// The caller asks to detach.
    DetachRequested,
    /// The engine answered the deletion of its agent with this code.
    AgentDeleted(TdErr),
    /// Tracing control was given back, or could not be: it is not held.
    Released,
}

/// An event, as contracts see it: with the index that came with it, where
/// one did.
pub enum Event {
    AttachRequested,
    Seized,
    SeizeFailed,
    Resolved(Map<Seq<char>, usize>),
    ResolveFailed,
    AgentCreated(TdErr),
    DetachRequested,
    AgentDeleted(TdErr),
    Released,
}

impl Event {
    /// What the event is to the attachment's course.
    pub open spec fn occurrence(self) -> Occurrence {
        match self {
            Event::AttachRequested => Occurrence::AttachRequested,
            Event::Seized => Occurrence::Seized,
            Event::SeizeFailed => Occurrence::SeizeFailed,
            Event::Resolved(_) => Occurrence::Resolved,
            Event::ResolveFailed => Occurrence::ResolveFailed,
            Event::AgentCreated(code) => Occurrence::AgentCreated(code),
            Event::DetachRequested => Occurrence::DetachRequested,
            Event::AgentDeleted(code) => Occurrence::AgentDeleted(code),
            Event::Released => Occurrence::Released,
        }
    }
}

impl View for LifecycleEvent {
    type V = Event;

    open spec fn view(&self) -> Event {
        match *self {
            LifecycleEvent::AttachRequested => Event::AttachRequested,
            LifecycleEvent::Seized => Event::Seized,
            LifecycleEvent::SeizeFailed => Event::SeizeFailed,
            LifecycleEvent::Resolved(symbols) => Event::Resolved(symbols@),
            LifecycleEvent::ResolveFailed => Event::ResolveFailed,
            LifecycleEvent::AgentCreated(code) => Event::AgentCreated(code),
            LifecycleEvent::DetachRequested => Event::DetachRequested,
            LifecycleEvent::AgentDeleted(code) => Event::AgentDeleted(code),
            LifecycleEvent::Released => Event::Released,
        }
    }
}

/// The host's record of one target process: its pid, the index of its
/// symbols, and where the attachment to it stands. The engine is handed a
/// reference to it and hands it back with every service that it asks for.
pub struct ProcHandle {
    pid: i32,
    symbols: SymbolTable,
    state: Lifecycle,
}

/// A handle, as contracts see it.
pub struct ProcView {
    pub pid: i32,
    pub symbols: Map<Seq<char>, usize>,
    pub state: Lifecycle,
}

impl View for ProcHandle {
    type V = ProcView;

    closed spec fn view(&self) -> ProcView {
        ProcView { pid: self.pid, symbols: self.symbols@, state: self.state }
    }
}

impl ProcView {
    /// The handle after `event`. The state moves as `Lifecycle::after`
    /// says. The index is the one that came with the event at the one place
    /// where an index is taken in; it is emptied where the attachment falls
    /// back to unattached; and it is left alone everywhere else, so that it
    /// stays as it was built for as long as the attachment lasts.
    pub open spec fn after(self, event: Event) -> ProcView {
        let state = self.state.after(event.occurrence()).0;
        ProcView {
            pid: self.pid,
            symbols: if self.state is Resolving && event is Resolved {
                event->Resolved_0
            } else if state is Unattached {
                Map::empty()
            } else {
                self.symbols
            },
            state,
        }
    }
}

/// The index is built once. Whatever happens to a handle that is not just
/// taking its index in, and does not fall back to unattached, leaves the
/// index as it is; so does everything that happens while the attachment
/// lasts.
pub proof fn law_index_is_kept(handle: ProcView, event: Event)
    requires
        !(handle.state is Resolving),
        !(handle.after(event).state is Unattached),
    ensures
        handle.after(event).symbols == handle.symbols,
        handle.after(event).pid == handle.pid,
{
}

impl ProcHandle {
    /// The handle's invariant: its index is a well-formed table.
    pub closed spec fn wf(&self) -> bool {
        self.symbols.wf()
    }

    /// The handle of the process `pid`, with no symbols yet, not attached.
    pub fn new(pid: i32) -> (handle: ProcHandle)
        ensures
            handle.wf(),
            handle@ == (ProcView { pid, symbols: Map::empty(), state: Lifecycle::Unattached }),
    {
        ProcHandle { pid, symbols: SymbolTable::new(), state: Lifecycle::Unattached }
    }

    /// The target's pid.
    pub fn pid(&self) -> (pid: i32)
        ensures
            pid == self@.pid,
    {
        self.pid
    }

    /// Where the attachment stands.
    pub fn state(&self) -> (state: Lifecycle)
        ensures
            state == self@.state,
    {
        self.state
    }

    /// The index of the target's symbols.
    pub fn symbols(&self) -> (symbols: &SymbolTable)
        requires
            self.wf(),
        ensures
            symbols.wf(),
            symbols@ == self@.symbols,
    {
        &self.symbols
    }

    /// Takes in what happened outside and says what is due next: one move
    /// of the attachment's life, as `Lifecycle::after` and `ProcView::after`
    /// state it.
    pub fn step(&mut self, event: LifecycleEvent) -> (action: LifecycleAction)
        requires
            old(self).wf(),
            event matches LifecycleEvent::Resolved(symbols) ==> symbols.wf(),
        ensures
            final(self).wf(),
            final(self)@ == old(self)@.after(event@),
            action == old(self)@.state.after(event@.occurrence()).1,
    {
        let (occurrence, taken) = match event {
            LifecycleEvent::AttachRequested => (Occurrence::AttachRequested, None),
            LifecycleEvent::Seized => (Occurrence::Seized, None),
            LifecycleEvent::SeizeFailed => (Occurrence::SeizeFailed, None),
            LifecycleEvent::Resolved(symbols) => (Occurrence::Resolved, Some(symbols)),
            LifecycleEvent::ResolveFailed => (Occurrence::ResolveFailed, None),
            LifecycleEvent::AgentCreated(code) => (Occurrence::AgentCreated(code), None),
            LifecycleEvent::DetachRequested => (Occurrence::DetachRequested, None),
            LifecycleEvent::AgentDeleted(code) => (Occurrence::AgentDeleted(code), None),
            LifecycleEvent::Released => (Occurrence::Released, None),
        };
        let (state, action) = self.state.advance(occurrence);
        match (self.state, taken) {
            (Lifecycle::Resolving, Some(symbols)) => {
                self.symbols = symbols;
            },
            _ => {
                match state {
                    Lifecycle::Unattached => {
                        self.symbols = SymbolTable::new();
                    },
                    _ => {},
                }
            },
        }
        self.state = state;
        action
    }
}

/// The pid of the process that `handle` stands for.
pub fn ps_getpid(handle: &ProcHandle) -> (pid: i32)
    ensures
        pid == handle@.pid,
{
    handle.pid
}

/// Looks up the address of the symbol `sym_name` in the handle's index. The
/// name of the object that the engine expects the symbol in is taken but
/// not matched against. A name that the index does not hold gives `NoSym`.
pub fn ps_pglobal_lookup(handle: &ProcHandle, object_name: &str, sym_name: &str) -> (r: Result<
    usize,
    PsErr,
>)
    ensures
        r == (if handle@.symbols.contains_key(sym_name@) {
            Ok(handle@.symbols[sym_name@])
        } else {
            Err(PsErr::NoSym)
        }),
{
    match handle.symbols.get(sym_name) {
        Some(addr) => Ok(addr),
        None => Err(PsErr::NoSym),
    }
}

/// The number of bytes in a machine word of the host, which is that of the
/// target.
pub open spec fn word_bytes() -> int {
    vstd::layout::size_of::<usize>() as int
}

/// Starts a read of `size` bytes at the target address `ps_addr`. It is
/// refused unless tracing control of the target is held, and where the range
/// runs past the last address. A refusal is reported as every failure of a
/// memory service is: by the generic error.
pub fn ps_pdread(handle: &ProcHandle, ps_addr: usize, size: usize) -> (r: Result<
    MemoryTransfer,
    PsErr,
>)
    ensures
        match r {
            Ok(transfer) => handle@.state.accessible() && transfer@.wf() && transfer@ == (Transfer {
                write: false,
                addr: ps_addr as int,
                word: word_bytes(),
                size: size as int,
                data: Seq::<u8>::empty(),
                offset: 0,
                phase: Phase::Idle,
            }),
            Err(e) => e == PsErr::Failure,
        },
        r is Ok <==> handle@.state.accessible() && ps_addr + size <= usize::MAX,
{
    broadcast use vstd::layout::layout_of_primitives;

    if !handle.state.is_accessible() {
        return Err(PsErr::Failure);
    }
    match MemoryTransfer::read(ps_addr, size, core::mem::size_of::<usize>()) {
        Some(transfer) => Ok(transfer),
        None => Err(PsErr::Failure),
    }
}

/// Starts a write of `data` at the target address `ps_addr`. It is refused
/// unless tracing control of the target is held, and where the range runs
/// past the last address. A refusal is reported as every failure of a memory
/// service is: by the generic error.
pub fn ps_pdwrite(handle: &ProcHandle, ps_addr: usize, data: Vec<u8>) -> (r: Result<
    MemoryTransfer,
    PsErr,
>)
    ensures
        match r {
            Ok(transfer) => handle@.state.accessible() && transfer@.wf() && transfer@ == (Transfer {
                write: true,
                addr: ps_addr as int,
                word: word_bytes(),
                size: data@.len() as int,
                data: data@,
                offset: 0,
                phase: Phase::Idle,
            }),
            Err(e) => e == PsErr::Failure,
        },
        r is Ok <==> handle@.state.accessible() && ps_addr + data@.len() <= usize::MAX,
{
    broadcast use vstd::layout::layout_of_primitives;

    if !handle.state.is_accessible() {
        return Err(PsErr::Failure);
    }
    match MemoryTransfer::write(ps_addr, data, core::mem::size_of::<usize>()) {
        Some(transfer) => Ok(transfer),
        None => Err(PsErr::Failure),
    }
}

/// Which registers of a thread.
#[derive(Clone, Copy, Debug, PartialEq, Eq, Structural)]
pub enum RegisterSet {
    General,
    FloatingPoint,
}

/// One transfer of a whole register set of a lightweight process, which the
/// caller carries out in one tracing call on that lightweight process. The
/// registers are a block of bytes of which nothing is read here.
#[derive(Clone, Copy, Debug, PartialEq, Eq, Structural)]
pub struct RegisterTransfer {
    /// The lightweight process.
    pub lwpid: i32,
    pub set: RegisterSet,
    /// Whether the registers are set, not fetched.
    pub store: bool,
}

/// A register transfer for the target of `handle`: refused with the generic
/// error, and so without a tracing call that could touch a register,
/// unless tracing control of the target is held.
fn register_transfer(handle: &ProcHandle, lwpid: i32, set: RegisterSet, store: bool) -> (r: Result<
    RegisterTransfer,
    PsErr,
>)
    ensures
        r == (if handle@.state.accessible() {
            Ok(RegisterTransfer { lwpid, set, store })
        } else {
            Err(PsErr::Failure)
        }),
{
    if handle.state.is_accessible() {
        Ok(RegisterTransfer { lwpid, set, store })
    } else {
        Err(PsErr::Failure)
    }
}

/// Fetching the general registers of the lightweight process `lwpid`. Unless
/// tracing control of the target is held, it is refused with the generic
/// error, and no register is touched.
pub fn ps_lgetregs(handle: &ProcHandle, lwpid: i32) -> (r: Result<RegisterTransfer, PsErr>)
    ensures
        r == (if handle@.state.accessible() {
            Ok(
                RegisterTransfer { lwpid, set: RegisterSet::General, store: false },
            )
        } else {
            Err(PsErr::Failure)
        }),
{
    register_transfer(handle, lwpid, RegisterSet::General, false)
}

/// Setting the general registers of the lightweight process `lwpid`. Unless
/// tracing control of the target is held, it is refused with the generic
/// error, and no register is touched.
pub fn ps_lsetregs(handle: &ProcHandle, lwpid: i32) -> (r: Result<RegisterTransfer, PsErr>)
    ensures
        r == (if handle@.state.accessible() {
            Ok(
                RegisterTransfer { lwpid, set: RegisterSet::General, store: true },
            )
        } else {
            Err(PsErr::Failure)
        }),
{
    register_transfer(handle, lwpid, RegisterSet::General, true)
}

/// Fetching the floating-point registers of the lightweight process
/// `lwpid`. Unless tracing control of the target is held, it is refused with
/// the generic error, and no register is touched.
pub fn ps_lgetfpregs(handle: &ProcHandle, lwpid: i32) -> (r: Result<RegisterTransfer, PsErr>)
    ensures
        r == (if handle@.state.accessible() {
            Ok(
                RegisterTransfer { lwpid, set: RegisterSet::FloatingPoint, store: false },
            )
        } else {
            Err(PsErr::Failure)
        }),
{
    register_transfer(handle, lwpid, RegisterSet::FloatingPoint, false)
}

/// Setting the floating-point registers of the lightweight process `lwpid`.
/// Unless tracing control of the target is held, it is refused with the
/// generic error, and no register is touched.
pub fn ps_lsetfpregs(handle: &ProcHandle, lwpid: i32) -> (r: Result<RegisterTransfer, PsErr>)
    ensures
        r == (if handle@.state.accessible() {
            Ok(
                RegisterTransfer { lwpid, set: RegisterSet::FloatingPoint, store: true },
            )
        } else {
            Err(PsErr::Failure)
        }),
{
    register_transfer(handle, lwpid, RegisterSet::FloatingPoint, true)
}

/// The code for what a tracing call returned that moves registers, writes
/// a word or changes the target's run state: -1 reports an error, and
/// anything else success.
pub fn write_data(result: i64) -> (r: Result<(), PsErr>)
    ensures
        r == (if result == -1 {
            Err(PsErr::Failure)
        } else {
            Ok(())
        }),
{
    if result == -1 {
        Err(PsErr::Failure)
    } else {
        Ok(())
    }
}

/// The word that a tracing call has read, given what the call returned and
/// the error number that it left. The call returns the word itself, so that
/// -1 may be the word; it reports an error only where it also left an error
/// number other than 0. The word is the number returned, read as a word; a
/// number that is not negative is the word itself.
pub fn read_data(result: i64, errno: i32) -> (r: Result<usize, PsErr>)
    ensures
        r == (if result == -1 && errno != 0 {
            Err(PsErr::Failure)
        } else {
            Ok(result as usize)
        }),
        r matches Ok(word) ==> (0 <= result <= usize::MAX ==> word == result),
{
    if result == -1 && errno != 0 {
        Err(PsErr::Failure)
    } else {
        Ok(result as usize)
    }
}

} // verus!
