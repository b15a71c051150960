//! Values exchanged with the thread-introspection engine.

use vstd::prelude::*;

verus! {

/// Result code of an engine entry point.
#[derive(Clone, Copy, Debug, PartialEq, Eq, Structural)]
pub enum TdErr {
    /// No error.
    Success,
    /// No further specified error.
    Failure,
    /// No matching thread found.
    NoThr,
    /// No matching synchronization handle found.
    NoSv,
    /// No matching light-weighted process found.
    NoLWP,
    /// Invalid process handle.
    BadPH,
    /// Invalid thread handle.
    BadTH,
    /// Invalid synchronization handle.
    BadSH,
    /// Invalid thread agent.
    BadTA,
    /// Invalid key.
    BadKEY,
    /// No event available.
    NoMsg,
    /// No floating-point register content available.
    NoFPRegs,
    /// Application not linked with thread library.
    NoLibthread,
    /// Requested event is not supported.
    NoEvent,
    /// Capability not available.
    NoCapab,
    /// Internal debug library error.
    DbErr,
    /// Operation is not applicable.
    NoAplic,
    /// No thread-specific data available.
    NoTSD,
    /// Out of memory.
    Malloc,
    /// Not entire register set was read or written.
    PartialReg,
    /// X register set not available for given thread.
    NoXregs,
    /// Thread has not yet allocated TLS for given module.
    TLSDefer,
    /// TLS memory not yet allocated.
    NoTalloc,
    /// Versions of the thread library and of the engine do not match.
    Version,
    /// There is no TLS segment in the given module.
    NoTLS,
}

impl TdErr {
    /// The number the engine uses for this code.
    pub open spec fn code_of(self) -> int {
        match self {
            TdErr::Success => 0,
            TdErr::Failure => 1,
            TdErr::NoThr => 2,
            TdErr::NoSv => 3,
            TdErr::NoLWP => 4,
            TdErr::BadPH => 5,
            TdErr::BadTH => 6,
            TdErr::BadSH => 7,
            TdErr::BadTA => 8,
            TdErr::BadKEY => 9,
            TdErr::NoMsg => 10,
            TdErr::NoFPRegs => 11,
            TdErr::NoLibthread => 12,
            TdErr::NoEvent => 13,
            TdErr::NoCapab => 14,
            TdErr::DbErr => 15,
            TdErr::NoAplic => 16,
            TdErr::NoTSD => 17,
            TdErr::Malloc => 18,
            TdErr::PartialReg => 19,
            TdErr::NoXregs => 20,
            TdErr::TLSDefer => 21,
            TdErr::NoTalloc => 22,
            TdErr::Version => 23,
            TdErr::NoTLS => 24,
        }
    }

    /// The number the engine uses for this value.
    pub fn code(&self) -> (c: i32)
        ensures
            c == self.code_of(),
    {
        match self {
            TdErr::Success => 0,
            TdErr::Failure => 1,
            TdErr::NoThr => 2,
            TdErr::NoSv => 3,
            TdErr::NoLWP => 4,
            TdErr::BadPH => 5,
            TdErr::BadTH => 6,
            TdErr::BadSH => 7,
            TdErr::BadTA => 8,
            TdErr::BadKEY => 9,
            TdErr::NoMsg => 10,
            TdErr::NoFPRegs => 11,
            TdErr::NoLibthread => 12,
            TdErr::NoEvent => 13,
            TdErr::NoCapab => 14,
            TdErr::DbErr => 15,
            TdErr::NoAplic => 16,
            TdErr::NoTSD => 17,
            TdErr::Malloc => 18,
            TdErr::PartialReg => 19,
            TdErr::NoXregs => 20,
            TdErr::TLSDefer => 21,
            TdErr::NoTalloc => 22,
            TdErr::Version => 23,
            TdErr::NoTLS => 24,
        }
    }

    /// The code that the engine writes as `code`, if it is one of the codes.
    pub fn from_code(code: i32) -> (r: Option<TdErr>)
        ensures
            r is Some <==> 0 <= code <= 24,
            r matches Some(e) ==> e.code_of() == code,
    {
        match code {
            0 => Some(TdErr::Success),
            1 => Some(TdErr::Failure),
            2 => Some(TdErr::NoThr),
            3 => Some(TdErr::NoSv),
            4 => Some(TdErr::NoLWP),
            5 => Some(TdErr::BadPH),
            6 => Some(TdErr::BadTH),
            7 => Some(TdErr::BadSH),
            8 => Some(TdErr::BadTA),
            9 => Some(TdErr::BadKEY),
            10 => Some(TdErr::NoMsg),
            11 => Some(TdErr::NoFPRegs),
            12 => Some(TdErr::NoLibthread),
            13 => Some(TdErr::NoEvent),
            14 => Some(TdErr::NoCapab),
            15 => Some(TdErr::DbErr),
            16 => Some(TdErr::NoAplic),
            17 => Some(TdErr::NoTSD),
            18 => Some(TdErr::Malloc),
            19 => Some(TdErr::PartialReg),
            20 => Some(TdErr::NoXregs),
            21 => Some(TdErr::TLSDefer),
            22 => Some(TdErr::NoTalloc),
            23 => Some(TdErr::Version),
            24 => Some(TdErr::NoTLS),
            _ => None,
        }
    }

    /// The code that an engine entry point returned as `code`. A number
    /// that is none of the codes tells nothing more than that the call
    /// failed.
    pub fn from_raw(code: i32) -> (r: TdErr)
        ensures
            0 <= code <= 24 ==> r.code_of() == code,
            !(0 <= code <= 24) ==> r == TdErr::Failure,
    {
        match TdErr::from_code(code) {
            Some(e) => e,
            None => TdErr::Failure,
        }
    }

    /// The code reports success.
    pub open spec fn succeeded(self) -> bool {
        self == TdErr::Success
    }

    /// Turns the code of an engine call into a result: success is `Ok`, and
    /// any other code is handed on unchanged.
    pub fn into_result(self) -> (r: Result<(), TdErr>)
        ensures
            r is Ok <==> self.succeeded(),
            r matches Err(code) ==> code == self,
    {
        match self {
            TdErr::Success => Ok(()),
            other => Err(other),
        }
    }

    /// Two codes with the same number are the same code.
    pub proof fn code_is_injective(a: TdErr, b: TdErr)
        requires
            a.code_of() == b.code_of(),
        ensures
            a == b,
    {
    }
}

/// Handle of one thread inside one agent. The two words belong to the
/// engine; nothing here reads a meaning into them.
#[derive(Clone, Copy, Debug, PartialEq, Eq, Structural)]
pub struct TdThrHandle {
    th_ta_p: usize,
    th_unique: usize,
}

impl TdThrHandle {
    /// The two words of the handle: the agent's, then the thread's.
    pub closed spec fn words(self) -> (usize, usize) {
        (self.th_ta_p, self.th_unique)
    }

    /// The handle made of these two words.
    pub fn new(th_ta_p: usize, th_unique: usize) -> (h: TdThrHandle)
        ensures
            h.words() == (th_ta_p, th_unique),
    {
        TdThrHandle { th_ta_p, th_unique }
    }

    /// The word that names the agent.
    pub fn agent_word(&self) -> (w: usize)
        ensures
            w == self.words().0,
    {
        self.th_ta_p
    }

    /// The word that names the thread within the agent.
    pub fn unique_word(&self) -> (w: usize)
        ensures
            w == self.words().1,
    {
        self.th_unique
    }
}

/// Possible thread states. `AnyState` is a pseudo-state that selects
/// threads regardless of state when iterating.
#[derive(Clone, Copy, Debug, PartialEq, Eq, Structural)]
pub enum TdThrState {
    AnyState,
    Unknown,
    Stopped,
    Run,
    Active,
    Zombie,
    Sleep,
    StoppedAsleep,
}

impl TdThrState {
    /// The number the engine uses for this value.
    pub open spec fn code_of(self) -> int {
        match self {
            TdThrState::AnyState => 0,
            TdThrState::Unknown => 1,
            TdThrState::Stopped => 2,
            TdThrState::Run => 3,
            TdThrState::Active => 4,
            TdThrState::Zombie => 5,
            TdThrState::Sleep => 6,
            TdThrState::StoppedAsleep => 7,
        }
    }

    /// The number the engine uses for this value.
    pub fn code(&self) -> (c: i32)
        ensures
            c == self.code_of(),
    {
        match self {
            TdThrState::AnyState => 0,
            TdThrState::Unknown => 1,
            TdThrState::Stopped => 2,
            TdThrState::Run => 3,
            TdThrState::Active => 4,
            TdThrState::Zombie => 5,
            TdThrState::Sleep => 6,
            TdThrState::StoppedAsleep => 7,
        }
    }

    /// The state that the engine writes as `code`, if it is one of the states.
    pub fn from_code(code: i32) -> (r: Option<TdThrState>)
        ensures
            r is Some <==> 0 <= code <= 7,
            r matches Some(s) ==> s.code_of() == code,
    {
        match code {
            0 => Some(TdThrState::AnyState),
            1 => Some(TdThrState::Unknown),
            2 => Some(TdThrState::Stopped),
            3 => Some(TdThrState::Run),
            4 => Some(TdThrState::Active),
            5 => Some(TdThrState::Zombie),
            6 => Some(TdThrState::Sleep),
            7 => Some(TdThrState::StoppedAsleep),
            _ => None,
        }
    }
}

/// Thread type: user or system. `AnyType` is a pseudo-type that selects
/// threads regardless of type when iterating.
#[derive(Clone, Copy, Debug, PartialEq, Eq, Structural)]
pub enum TdThrType {
    AnyType,
    User,
    System,
}

impl TdThrType {
    /// The number the engine uses for this value.
    pub open spec fn code_of(self) -> int {
        match self {
            TdThrType::AnyType => 0,
            TdThrType::User => 1,
            TdThrType::System => 2,
        }
    }

    /// The number the engine uses for this value.
    pub fn code(&self) -> (c: i32)
        ensures
            c == self.code_of(),
    {
        match self {
            TdThrType::AnyType => 0,
            TdThrType::User => 1,
            TdThrType::System => 2,
        }
    }

    /// The type that the engine writes as `code`, if it is one of the types.
    pub fn from_code(code: i32) -> (r: Option<TdThrType>)
        ensures
            r is Some <==> 0 <= code <= 2,
            r matches Some(t) ==> t.code_of() == code,
    {
        match code {
            0 => Some(TdThrType::AnyType),
            1 => Some(TdThrType::User),
            2 => Some(TdThrType::System),
            _ => None,
        }
    }
}

/// Bitmask of enabled events.
#[derive(Clone, Copy, Debug)]
pub struct TdThrEvents {
    event_bits: [u32; 2],
}

impl TdThrEvents {
    /// The two words of the mask.
    pub closed spec fn bits_of(self) -> [u32; 2] {
        self.event_bits
    }

    /// The mask made of these two words.
    pub fn new(event_bits: [u32; 2]) -> (e: TdThrEvents)
        ensures
            e.bits_of() == event_bits,
    {
        TdThrEvents { event_bits }
    }

    /// The two words of the mask.
    pub fn bits(&self) -> (b: [u32; 2])
        ensures
            b == self.bits_of(),
    {
        self.event_bits
    }
}

/// Gathered statistics about the process.
#[derive(Clone, Copy, Debug, PartialEq, Eq, Structural)]
pub struct TdTaStats {
    /// Total number of threads in use.
    pub nthreads: i32,
    /// Concurrency level requested by user.
    pub r_concurrency: i32,
    /// Average runnable threads, numerator.
    pub nrunnable_num: i32,
    /// Average runnable threads, denominator.
    pub nrunnable_den: i32,
    /// Achieved concurrency level, numerator.
    pub a_concurrency_num: i32,
    /// Achieved concurrency level, denominator.
    pub a_concurrency_den: i32,
    /// Average number of processes in use, numerator.
    pub nlwps_num: i32,
    /// Average number of processes in use, denominator.
    pub nlwps_den: i32,
    /// Average number of idling processes, numerator.
    pub nidle_num: i32,
    /// Average number of idling processes, denominator.
    pub nidle_den: i32,
}

impl TdTaStats {
    /// The statistics in which every counter is zero.
    pub open spec fn zeroed() -> TdTaStats {
        TdTaStats {
            nthreads: 0,
            r_concurrency: 0,
            nrunnable_num: 0,
            nrunnable_den: 0,
            a_concurrency_num: 0,
            a_concurrency_den: 0,
            nlwps_num: 0,
            nlwps_den: 0,
            nidle_num: 0,
            nidle_den: 0,
        }
    }
}

impl Default for TdTaStats {
    fn default() -> (s: TdTaStats)
        ensures
            s == TdTaStats::zeroed(),
    {
        TdTaStats {
            nthreads: 0,
            r_concurrency: 0,
            nrunnable_num: 0,
            nrunnable_den: 0,
            a_concurrency_num: 0,
            a_concurrency_den: 0,
            nlwps_num: 0,
            nlwps_den: 0,
            nidle_num: 0,
            nidle_den: 0,
        }
    }
}

/// Information about one thread, as the engine reported it.
#[derive(Clone, Copy, Debug)]
pub struct TdThrInfo {
    /// Thread ID given by the threading runtime.
    pub ti_tid: u64,
    /// Address of the thread-local data.
    pub ti_tls: usize,
    /// Address of the start function of the thread.
    pub ti_startfunc: usize,
    /// Base of thread's stack.
    pub ti_stkbase: usize,
    /// Size of thread's stack.
    pub ti_stksize: i64,
    /// Thread state.
    pub ti_state: TdThrState,
    /// Nonzero if suspended by debugger.
    pub ti_db_suspended: u8,
    /// Type of the thread (system vs user thread).
    pub ti_type: TdThrType,
    /// Thread priority.
    pub ti_pri: i32,
    /// Kernel PID for this thread.
    pub ti_lid: i32,
    /// Signal mask.
    pub ti_sigmask: [u64; 16],
    /// Nonzero if event reporting enabled.
    pub ti_traceme: u8,
    /// Set of pending signals.
    pub ti_pending: [u64; 16],
    /// Set of enabled events.
    pub ti_events: TdThrEvents,
}

/// The state and the type of a thread from the numbers that the engine
/// reported for them. Numbers that stand for no state or no type show an
/// engine that is out of step: `DbErr`.
pub fn thread_kind(state_code: i32, type_code: i32) -> (r: Result<(TdThrState, TdThrType), TdErr>)
    ensures
        r is Ok <==> 0 <= state_code <= 7 && 0 <= type_code <= 2,
        r matches Ok(kind) ==> kind.0.code_of() == state_code && kind.1.code_of() == type_code,
        r matches Err(code) ==> code == TdErr::DbErr,
{
    match (TdThrState::from_code(state_code), TdThrType::from_code(type_code)) {
        (Some(state), Some(kind)) => Ok((state, kind)),
        _ => Err(TdErr::DbErr),
    }
}

/// What thread iteration asks of the engine: threads in any state, from
/// the lowest priority up.
#[derive(Clone, Copy, Debug)]
pub struct TdThrFilter {
    pub state: TdThrState,
    pub min_priority: i32,
    pub user_flags: u32,
}

impl TdThrFilter {
    /// The filter that lets every thread through.
    pub fn every_thread() -> (f: TdThrFilter)
        ensures
            f.state == TdThrState::AnyState,
            f.min_priority == 0,
            f.user_flags == 0,
    {
        TdThrFilter { state: TdThrState::AnyState, min_priority: 0, user_flags: 0 }
    }
}

/// Takes one thread handle from the engine during iteration and appends it
/// to the list collected so far. The returned number tells the engine to go
/// on: it is always 0.
pub fn thr_iter_callback(handle: TdThrHandle, threads: &mut Vec<TdThrHandle>) -> (r: i32)
    ensures
        r == 0,
        final(threads)@ == old(threads)@.push(handle),
{
    threads.push(handle);
    0
}

} // verus!
