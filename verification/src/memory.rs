//! Moving bytes in and out of a traced process, one machine word at a time.
//!
//! The tracing primitive moves exactly one word per call and works only
//! while the target is stopped. A transfer is therefore a small machine: it
//! says which tracing request comes next, is told how the request went, and
//! ends with the target running again. The caller carries the requests out.

use vstd::prelude::*;

verus! {

/// How a transfer ended.
#[derive(Clone, Copy, Debug, PartialEq, Eq, Structural)]
pub enum TransferOutcome {
    /// Every byte was moved.
    Completed,
    /// A word could not be read or written.
    AccessFailed,
    /// The target could not be stopped.
    StopFailed,
}

/// Where a transfer stands.
#[derive(Clone, Copy, Debug, PartialEq, Eq, Structural)]
pub enum Phase {
    /// Nothing has been asked yet.
    Idle,
    /// The target has been asked to stop.
    Interrupting,
    /// Waiting for the target to report that it has stopped.
    Waiting,
    /// The word at the current offset is being read or written.
    Moving,
    /// The last, partial word has been read and is being written back.
    Patching,
    /// The target is being resumed.
    Resuming(TransferOutcome),
    /// Over.
    Finished(TransferOutcome),
}

/// A tracing request that a transfer asks its caller to carry out.
#[derive(Debug)]
pub enum TraceRequest {
    /// Interrupt the target.
    Interrupt,
    /// Wait until the target reports that it has stopped.
    AwaitStop,
    /// Read the word at `addr`.
    Peek { addr: usize },
    /// Write `word` at `addr`.
    Poke { addr: usize, word: Vec<u8> },
    /// Let the target run again.
    Resume,
    /// Nothing more: the transfer is over.
    Finish { outcome: TransferOutcome },
}

/// How the request before went.
#[derive(Debug)]
pub enum TraceReply {
    /// There was no request before: the transfer starts.
    Start,
    /// It was carried out.
    Done,
    /// It was a `Peek`, and these are the bytes of the word, in the order
    /// in which they lie in memory.
    Word { bytes: Vec<u8> },
    /// It failed.
    Failed,
}

/// A request, as contracts see it.
pub enum Request {
    Interrupt,
    AwaitStop,
    Peek { addr: int },
    Poke { addr: int, word: Seq<u8> },
    Resume,
    Finish { outcome: TransferOutcome },
}

/// A reply, as contracts see it.
pub enum Reply {
    Start,
    Done,
    Word { bytes: Seq<u8> },
    Failed,
}

impl View for TraceRequest {
    type V = Request;

    open spec fn view(&self) -> Request {
        match *self {
            TraceRequest::Interrupt => Request::Interrupt,
            TraceRequest::AwaitStop => Request::AwaitStop,
            TraceRequest::Peek { addr } => Request::Peek { addr: addr as int },
            TraceRequest::Poke { addr, word } => Request::Poke { addr: addr as int, word: word@ },
            TraceRequest::Resume => Request::Resume,
            TraceRequest::Finish { outcome } => Request::Finish { outcome },
        }
    }
}

impl View for TraceReply {
    type V = Reply;

    open spec fn view(&self) -> Reply {
        match *self {
            TraceReply::Start => Reply::Start,
            TraceReply::Done => Reply::Done,
            TraceReply::Word { bytes } => Reply::Word { bytes: bytes@ },
            TraceReply::Failed => Reply::Failed,
        }
    }
}

/// A transfer, as contracts see it.
pub struct Transfer {
    /// Whether bytes go into the target.
    pub write: bool,
    /// The target address of the first byte.
    pub addr: int,
    /// The number of bytes in a word.
    pub word: int,
    /// The number of bytes to move.
    pub size: int,
    /// For a write the bytes to write; for a read the bytes read so far.
    pub data: Seq<u8>,
    /// How many bytes have been moved.
    pub offset: int,
    pub phase: Phase,
}

impl Transfer {
    /// What every transfer satisfies.
    pub open spec fn wf(self) -> bool {
        &&& self.word > 0
        &&& 0 <= self.addr
        &&& 0 <= self.offset <= self.size
        &&& self.addr + self.size <= usize::MAX
        &&& self.data.len() == (if self.write {
            self.size
        } else {
            self.offset
        })
        &&& (self.phase is Idle || self.phase is Interrupting || self.phase is Waiting)
            ==> self.offset == 0
        &&& (self.phase is Moving || self.phase is Patching) ==> (self.offset < self.size
            || self.size == 0)
        &&& self.phase is Patching ==> self.write && self.size - self.offset < self.word
        &&& (self.phase matches Phase::Resuming(outcome) && outcome is Completed) ==> self.offset
            == self.size
        &&& (self.phase matches Phase::Finished(outcome) && outcome is Completed) ==> self.offset
            == self.size
    }

    /// The bytes that are still to move.
    pub open spec fn remaining(self) -> int {
        self.size - self.offset
    }

    /// The request for the word at the current offset. A read peeks. A
    /// write pokes a whole word of its data while a whole word is left, and
    /// peeks at the last, partial word first, to keep the bytes behind the
    /// data as they are.
    pub open spec fn word_request(self) -> Request {
        if self.write && self.remaining() >= self.word {
            Request::Poke {
                addr: self.addr + self.offset,
                word: self.data.subrange(self.offset, self.offset + self.word),
            }
        } else {
            Request::Peek { addr: self.addr + self.offset }
        }
    }

    /// The last word of a write: the data that is left, then the bytes that
    /// the target held behind it.
    pub open spec fn patched(self, held: Seq<u8>) -> Seq<u8> {
        self.data.subrange(self.offset, self.size) + held.subrange(
            self.remaining(),
            self.word,
        )
    }

    /// The transfer with the target to be resumed, after which it ends in
    /// `outcome`.
    pub open spec fn resuming(self, outcome: TransferOutcome) -> (Transfer, Request) {
        (Transfer { phase: Phase::Resuming(outcome), ..self }, Request::Resume)
    }

    /// After a word has been moved: the end, if it was the last one, else
    /// the request for the next.
    pub open spec fn advanced(self) -> (Transfer, Request) {
        if self.remaining() <= self.word {
            Transfer { offset: self.size, ..self }.resuming(TransferOutcome::Completed)
        } else {
            let next = Transfer { offset: self.offset + self.word, ..self };
            (next, next.word_request())
        }
    }

    /// One step of the protocol: the transfer after `reply` has come in,
    /// and the request that it makes next.
    ///
    /// The target is interrupted and waited for. Then the words are moved,
    /// lowest address first. Whatever happens once the interrupt has gone
    /// through, the target is resumed before the transfer ends.
    pub open spec fn next(self, reply: Reply) -> (Transfer, Request) {
        match self.phase {
            Phase::Idle => (Transfer { phase: Phase::Interrupting, ..self }, Request::Interrupt),
            Phase::Interrupting => if reply is Done {
                (Transfer { phase: Phase::Waiting, ..self }, Request::AwaitStop)
            } else {
                (
                    Transfer { phase: Phase::Finished(TransferOutcome::StopFailed), ..self },
                    Request::Finish { outcome: TransferOutcome::StopFailed },
                )
            },
            Phase::Waiting => if reply is Done {
                (Transfer { phase: Phase::Moving, ..self }, self.word_request())
            } else {
                self.resuming(TransferOutcome::StopFailed)
            },
            Phase::Moving => if self.write {
                if self.remaining() >= self.word {
                    if reply is Done {
                        self.advanced()
                    } else {
                        self.resuming(TransferOutcome::AccessFailed)
                    }
                } else {
                    match reply {
                        Reply::Word { bytes } if bytes.len() == self.word => (
                            Transfer { phase: Phase::Patching, ..self },
                            Request::Poke {
                                addr: self.addr + self.offset,
                                word: self.patched(bytes),
                            },
                        ),
                        _ => self.resuming(TransferOutcome::AccessFailed),
                    }
                }
            } else {
                match reply {
                    Reply::Word { bytes } if bytes.len() == self.word => {
                        let taken = if self.remaining() > self.word {
                            self.word
                        } else {
                            self.remaining()
                        };
                        Transfer { data: self.data + bytes.take(taken), ..self }.advanced()
                    },
                    _ => self.resuming(TransferOutcome::AccessFailed),
                }
            },
            Phase::Patching => if reply is Done {
                Transfer { offset: self.size, ..self }.resuming(TransferOutcome::Completed)
            } else {
                self.resuming(TransferOutcome::AccessFailed)
            },
            Phase::Resuming(outcome) => (
                Transfer { phase: Phase::Finished(outcome), ..self },
                Request::Finish { outcome },
            ),
            Phase::Finished(outcome) => (self, Request::Finish { outcome }),
        }
    }
}

/// The bytes of `src` from `from` up to `to`.
fn copy_range(src: &Vec<u8>, from: usize, to: usize) -> (out: Vec<u8>)
    requires
        from <= to <= src@.len(),
    ensures
        out@ == src@.subrange(from as int, to as int),
{
    let mut out: Vec<u8> = Vec::new();
    let mut i: usize = from;
    while i < to
        invariant
            from <= i <= to <= src@.len(),
            out@ == src@.subrange(from as int, i as int),
        decreases to - i,
    {
        out.push(src[i]);
        proof {
            assert(out@ =~= src@.subrange(from as int, i + 1));
        }
        i += 1;
    }
    out
}

/// Appends the bytes of `src` from `from` up to `to` to `dst`.
fn append_range(dst: &mut Vec<u8>, src: &Vec<u8>, from: usize, to: usize)
    requires
        from <= to <= src@.len(),
    ensures
        final(dst)@ == old(dst)@ + src@.subrange(from as int, to as int),
{
    let ghost before = dst@;
    let mut i: usize = from;
    proof {
        assert(dst@ =~= before + src@.subrange(from as int, from as int));
    }
    while i < to
        invariant
            from <= i <= to <= src@.len(),
            dst@ == before + src@.subrange(from as int, i as int),
        decreases to - i,
    {
        dst.push(src[i]);
        proof {
            assert(dst@ =~= before + src@.subrange(from as int, i + 1));
        }
        i += 1;
    }
}

/// A read or a write of a range of a traced process's memory, under way.
#[derive(Debug)]
pub struct MemoryTransfer {
    write: bool,
    addr: usize,
    word_size: usize,
    size: usize,
    data: Vec<u8>,
    offset: usize,
    phase: Phase,
}

impl View for MemoryTransfer {
    type V = Transfer;

    closed spec fn view(&self) -> Transfer {
        Transfer {
            write: self.write,
            addr: self.addr as int,
            word: self.word_size as int,
            size: self.size as int,
            data: self.data@,
            offset: self.offset as int,
            phase: self.phase,
        }
    }
}

impl MemoryTransfer {
    /// A read of `size` bytes at `addr`, in words of `word_size` bytes,
    /// not yet started. There is none where a word has no bytes or the
    /// range runs past the last address.
    pub fn read(addr: usize, size: usize, word_size: usize) -> (r: Option<MemoryTransfer>)
        ensures
            r is Some <==> word_size > 0 && addr + size <= usize::MAX,
            r matches Some(t) ==> t@ == (Transfer {
                write: false,
                addr: addr as int,
                word: word_size as int,
                size: size as int,
                data: Seq::<u8>::empty(),
                offset: 0,
                phase: Phase::Idle,
            }) && t@.wf(),
    {
        if word_size == 0 || size > usize::MAX - addr {
            return None;
        }
        Some(
            MemoryTransfer {
                write: false,
                addr,
                word_size,
                size,
                data: Vec::new(),
                offset: 0,
                phase: Phase::Idle,
            },
        )
    }

    /// A write of `data` at `addr`, in words of `word_size` bytes, not yet
    /// started. There is none where a word has no bytes or the range runs
    /// past the last address.
    pub fn write(addr: usize, data: Vec<u8>, word_size: usize) -> (r: Option<MemoryTransfer>)
        ensures
            r is Some <==> word_size > 0 && addr + data@.len() <= usize::MAX,
            r matches Some(t) ==> t@ == (Transfer {
                write: true,
                addr: addr as int,
                word: word_size as int,
                size: data@.len() as int,
                data: data@,
                offset: 0,
                phase: Phase::Idle,
            }) && t@.wf(),
    {
        if word_size == 0 || data.len() > usize::MAX - addr {
            return None;
        }
        let size = data.len();
        Some(
            MemoryTransfer { write: true, addr, word_size, size, data, offset: 0, phase: Phase::Idle },
        )
    }

    /// The request for the word at the current offset.
    fn request_word(&self) -> (request: TraceRequest)
        requires
            self@.wf(),
        ensures
            request@ == self@.word_request(),
    {
        if self.write && self.size - self.offset >= self.word_size {
            TraceRequest::Poke {
                addr: self.addr + self.offset,
                word: copy_range(&self.data, self.offset, self.offset + self.word_size),
            }
        } else {
            TraceRequest::Peek { addr: self.addr + self.offset }
        }
    }

    /// Goes on to resuming the target.
    fn resume(&mut self, outcome: TransferOutcome) -> (request: TraceRequest)
        requires
            old(self)@.wf(),
            outcome is Completed ==> old(self)@.offset == old(self)@.size,
        ensures
            final(self)@.wf(),
            (final(self)@, request@) == old(self)@.resuming(outcome),
    {
        self.phase = Phase::Resuming(outcome);
        TraceRequest::Resume
    }

    /// Goes on after a word has been moved.
    fn advance(&mut self) -> (request: TraceRequest)
        requires
            old(self)@.phase is Moving,
            old(self)@.word > 0,
            0 <= old(self)@.offset <= old(self)@.size,
            old(self)@.addr + old(self)@.size <= usize::MAX,
            old(self)@.write ==> old(self)@.data.len() == old(self)@.size,
            old(self)@.advanced().0.wf(),
        ensures
            final(self)@.wf(),
            (final(self)@, request@) == old(self)@.advanced(),
    {
        if self.size - self.offset <= self.word_size {
            self.offset = self.size;
            self.phase = Phase::Resuming(TransferOutcome::Completed);
            TraceRequest::Resume
        } else {
            self.offset = self.offset + self.word_size;
            self.request_word()
        }
    }

    /// Takes in how the request before went and says which request comes
    /// next: one step of the protocol, as `Transfer::next` states it.
    pub fn step(&mut self, reply: TraceReply) -> (request: TraceRequest)
        requires
            old(self)@.wf(),
        ensures
            final(self)@.wf(),
            (final(self)@, request@) == old(self)@.next(reply@),
    {
        match self.phase {
            Phase::Idle => {
                self.phase = Phase::Interrupting;
                TraceRequest::Interrupt
            },
            Phase::Interrupting => match reply {
                TraceReply::Done => {
                    self.phase = Phase::Waiting;
                    TraceRequest::AwaitStop
                },
                _ => {
                    self.phase = Phase::Finished(TransferOutcome::StopFailed);
                    TraceRequest::Finish { outcome: TransferOutcome::StopFailed }
                },
            },
            Phase::Waiting => match reply {
                TraceReply::Done => {
                    let request = self.request_word();
                    self.phase = Phase::Moving;
                    request
                },
                _ => self.resume(TransferOutcome::StopFailed),
            },
            Phase::Moving => {
                let remaining = self.size - self.offset;
                if self.write {
                    if remaining >= self.word_size {
                        match reply {
                            TraceReply::Done => self.advance(),
                            _ => self.resume(TransferOutcome::AccessFailed),
                        }
                    } else {
                        match reply {
                            TraceReply::Word { bytes } => {
                                if bytes.len() == self.word_size {
                                    let mut word = copy_range(&self.data, self.offset, self.size);
                                    append_range(&mut word, &bytes, remaining, self.word_size);
                                    self.phase = Phase::Patching;
                                    TraceRequest::Poke { addr: self.addr + self.offset, word }
                                } else {
                                    self.resume(TransferOutcome::AccessFailed)
                                }
                            },
                            _ => self.resume(TransferOutcome::AccessFailed),
                        }
                    }
                } else {
                    match reply {
                        TraceReply::Word { bytes } => {
                            if bytes.len() == self.word_size {
                                let taken = if remaining > self.word_size {
                                    self.word_size
                                } else {
                                    remaining
                                };
                                append_range(&mut self.data, &bytes, 0, taken);
                                proof {
                                    assert(bytes@.subrange(0, taken as int) == bytes@.take(
                                        taken as int,
                                    ));
                                }
                                self.advance()
                            } else {
                                self.resume(TransferOutcome::AccessFailed)
                            }
                        },
                        _ => self.resume(TransferOutcome::AccessFailed),
                    }
                }
            },
            Phase::Patching => match reply {
                TraceReply::Done => {
                    self.offset = self.size;
                    self.phase = Phase::Resuming(TransferOutcome::Completed);
                    TraceRequest::Resume
                },
                _ => self.resume(TransferOutcome::AccessFailed),
            },
            Phase::Resuming(outcome) => {
                self.phase = Phase::Finished(outcome);
                TraceRequest::Finish { outcome }
            },
            Phase::Finished(outcome) => TraceRequest::Finish { outcome },
        }
    }

    /// How the transfer ended, once it has.
    pub fn outcome(&self) -> (r: Option<TransferOutcome>)
        ensures
            r == (match self@.phase {
                Phase::Finished(outcome) => Some(outcome),
                _ => None,
            }),
    {
        match self.phase {
            Phase::Finished(outcome) => Some(outcome),
            _ => None,
        }
    }

    /// The bytes that a read has brought, once it has ended with every
    /// byte read. A read that failed hands out nothing.
    pub fn into_bytes(self) -> (r: Option<Vec<u8>>)
        ensures
            r is Some <==> !self@.write && self@.phase == Phase::Finished(
                TransferOutcome::Completed,
            ),
            r matches Some(bytes) ==> bytes@ == self@.data,
    {
        match self.phase {
            Phase::Finished(TransferOutcome::Completed) => {
                if self.write {
                    None
                } else {
                    Some(self.data)
                }
            },
            _ => None,
        }
    }
}

/// A traced process, as far as a transfer can tell: the byte at each
/// address, and how many stops are held on it. It runs while none is held.
pub struct Target {
    pub memory: spec_fn(int) -> u8,
    pub stops: nat,
}

impl Target {
    /// The byte at the address `a`.
    pub open spec fn byte(self, a: int) -> u8 {
        (self.memory)(a)
    }

    /// The `n` bytes from the address `addr` on.
    pub open spec fn bytes(self, addr: int, n: int) -> Seq<u8> {
        Seq::new(n as nat, |i: int| self.byte(addr + i))
    }

    /// The target with `bytes` written at `addr`.
    pub open spec fn with_bytes(self, addr: int, bytes: Seq<u8>) -> Target {
        Target {
            memory: |a: int|
                if addr <= a < addr + bytes.len() {
                    bytes[a - addr]
                } else {
                    self.byte(a)
                },
            ..self
        }
    }

    /// What carrying out `request` does to the target, and the reply. With
    /// `fault` the request fails and leaves the target as it is. A word is
    /// read or written only while the target is stopped. A resume always
    /// lets go of one stop, whatever it reports.
    pub open spec fn serve(self, request: Request, word: int, fault: bool) -> (Target, Reply) {
        match request {
            Request::Interrupt => if fault {
                (self, Reply::Failed)
            } else {
                (Target { stops: self.stops + 1, ..self }, Reply::Done)
            },
            Request::AwaitStop => if fault {
                (self, Reply::Failed)
            } else {
                (self, Reply::Done)
            },
            Request::Peek { addr } => if fault || self.stops == 0 {
                (self, Reply::Failed)
            } else {
                (self, Reply::Word { bytes: self.bytes(addr, word) })
            },
            Request::Poke { addr, word: bytes } => if fault || self.stops == 0 {
                (self, Reply::Failed)
            } else {
                (self.with_bytes(addr, bytes), Reply::Done)
            },
            Request::Resume => (
                Target {
                    stops: if self.stops > 0 {
                        (self.stops - 1) as nat
                    } else {
                        0
                    },
                    ..self
                },
                if fault {
                    Reply::Failed
                } else {
                    Reply::Done
                },
            ),
            Request::Finish { outcome } => (self, Reply::Done),
        }
    }
}

impl Transfer {
    /// A bound on the number of requests that a transfer still makes.
    pub open spec fn budget(self) -> nat {
        match self.phase {
            Phase::Idle => (2 * self.size + 7) as nat,
            Phase::Interrupting => (2 * self.size + 6) as nat,
            Phase::Waiting => (2 * self.size + 5) as nat,
            Phase::Moving => (2 * self.remaining() + 4) as nat,
            Phase::Patching => 2,
            Phase::Resuming(_) => 1,
            Phase::Finished(_) => 0,
        }
    }

    /// The transfer and the target after up to `fuel` requests have been
    /// carried out on the target, `request` first. The request number `k`
    /// fails where `faults` holds `k`; `tick` is the number of `request`.
    pub open spec fn run(
        self,
        request: Request,
        target: Target,
        faults: Set<nat>,
        tick: nat,
        fuel: nat,
    ) -> (Transfer, Target)
        decreases fuel,
    {
        if fuel == 0 || request is Finish {
            (self, target)
        } else {
            let (target_after, reply) = target.serve(request, self.word, faults.contains(tick));
            let (after, request_after) = self.next(reply);
            after.run(request_after, target_after, faults, tick + 1, (fuel - 1) as nat)
        }
    }

    /// The transfer and the target after the whole transfer has been
    /// carried out on the target, from its start to its end.
    pub open spec fn perform(self, target: Target, faults: Set<nat>) -> (
        Transfer,
        Target,
    ) {
        let (started, request) = self.next(Reply::Start);
        started.run(request, target, faults, 0, started.budget())
    }
}

/// The number of stops that a transfer holds on its target.
spec fn held(phase: Phase) -> nat {
    match phase {
        Phase::Waiting | Phase::Moving | Phase::Patching | Phase::Resuming(_) => 1,
        _ => 0,
    }
}

/// What holds between a transfer `s`, the request that it has made and that
/// has not been carried out yet, and the target `t`, which was `origin` when
/// the transfer started: the stops held, the bytes left alone, and the
/// bytes moved so far, which are right whatever has failed. `clean` says
/// that no request fails, and then the transfer does not either.
spec fn in_step(s: Transfer, request: Request, t: Target, origin: Target, clean: bool) -> bool {
    &&& s.wf()
    &&& t.stops == origin.stops + held(s.phase)
    &&& match s.phase {
        Phase::Idle => false,
        Phase::Interrupting => request is Interrupt,
        Phase::Waiting => request is AwaitStop,
        Phase::Moving => request == s.word_request(),
        Phase::Patching => {
            &&& request matches Request::Poke { addr, word }
            &&& addr == s.addr + s.offset
            &&& word.len() == s.word
            &&& forall|i: int|
                s.remaining() <= i < s.word ==> #[trigger] word[i] == t.byte(s.addr + s.offset + i)
            &&& forall|i: int| 0 <= i < s.remaining() ==> #[trigger] word[i] == s.data[s.offset + i]
        },
        Phase::Resuming(_) => request is Resume,
        Phase::Finished(outcome) => request == (Request::Finish { outcome }),
    }
    &&& forall|a: int| !(s.addr <= a < s.addr + s.size) ==> #[trigger] t.byte(a) == origin.byte(a)
    &&& !s.write ==> forall|a: int| #[trigger] t.byte(a) == origin.byte(a)
    &&& s.write ==> forall|a: int|
        s.addr <= a < s.addr + s.offset ==> #[trigger] t.byte(a) == s.data[a - s.addr]
    &&& !s.write ==> forall|i: int|
        0 <= i < s.offset ==> #[trigger] s.data[i] == origin.byte(s.addr + i)
    &&& clean ==> {
        &&& s.phase matches Phase::Resuming(outcome) ==> outcome is Completed
        &&& s.phase matches Phase::Finished(outcome) ==> outcome is Completed
    }
}

/// Carrying out one request and taking in its reply keeps `in_step`, and
/// leaves fewer requests to make.
proof fn lemma_step(s: Transfer, request: Request, t: Target, origin: Target, clean: bool, fault: bool)
    requires
        in_step(s, request, t, origin, clean),
        !(request is Finish),
        clean ==> !fault,
    ensures
        ({
            let (t1, reply) = t.serve(request, s.word, fault);
            let (s1, request1) = s.next(reply);
            in_step(s1, request1, t1, origin, clean) && s1.budget() < s.budget()
        }),
{
    let (t1, reply) = t.serve(request, s.word, fault);
    let (s1, request1) = s.next(reply);
    let at = s.addr + s.offset;
    match s.phase {
        Phase::Moving => {
            if s.write {
                if s.remaining() >= s.word {
                    if reply is Done {
                        let word = s.data.subrange(s.offset, s.offset + s.word);
                        assert(t1 == t.with_bytes(at, word));
                        assert forall|a: int| !(at <= a < at + s.word) implies #[trigger] t1.byte(a)
                            == t.byte(a) by {}
                        assert forall|a: int| at <= a < at + s.word implies #[trigger] t1.byte(a)
                            == s.data[a - s.addr] by {
                            assert(t1.byte(a) == word[a - at]);
                        }
                    }
                } else {
                    if reply is Word {
                        let bytes = reply->Word_bytes;
                        assert(bytes == t.bytes(at, s.word));
                        let word = s.patched(bytes);
                        assert forall|i: int| s.remaining() <= i < s.word implies #[trigger] word[i]
                            == t1.byte(at + i) by {
                            assert(word[i] == bytes[i]);
                        }
                        assert forall|i: int| 0 <= i < s.remaining() implies #[trigger] word[i]
                            == s.data[s.offset + i] by {}
                    }
                }
            } else {
                if reply is Word {
                    let bytes = reply->Word_bytes;
                    assert(bytes == t.bytes(at, s.word));
                    assert forall|i: int| 0 <= i < s1.offset implies #[trigger] s1.data[i]
                        == origin.byte(s1.addr + i) by {
                        if i >= s.offset {
                            assert(s1.data[i] == bytes[i - s.offset]);
                            assert(bytes[i - s.offset] == t.byte(at + (i - s.offset)));
                        } else {
                            assert(s1.data[i] == s.data[i]);
                        }
                    }
                }
            }
        },
        Phase::Patching => {
            if reply is Done {
                let word = request->Poke_word;
                assert(t1 == t.with_bytes(at, word));
                assert forall|a: int| !(at <= a < at + s.word) implies #[trigger] t1.byte(a)
                    == t.byte(a) by {}
                assert forall|a: int| at <= a < at + s.word implies #[trigger] t1.byte(a) == (if a
                    < s.addr + s.size {
                    s.data[a - s.addr]
                } else {
                    t.byte(a)
                }) by {
                    assert(t1.byte(a) == word[a - at]);
                }
            }
        },
        _ => {
            assert forall|a: int| #[trigger] t1.byte(a) == t.byte(a) by {}
        },
    }
}

/// Carrying out a transfer's requests to the end keeps `in_step`, and ends
/// the transfer.
proof fn lemma_run(
    s: Transfer,
    request: Request,
    t: Target,
    origin: Target,
    faults: Set<nat>,
    tick: nat,
    fuel: nat,
)
    requires
        in_step(s, request, t, origin, faults == Set::<nat>::empty()),
        fuel >= s.budget(),
    ensures
        ({
            let (last, t_last) = s.run(request, t, faults, tick, fuel);
            &&& last.phase is Finished
            &&& in_step(
                last,
                Request::Finish { outcome: last.phase->Finished_0 },
                t_last,
                origin,
                faults == Set::<nat>::empty(),
            )
            &&& last.write == s.write
            &&& last.addr == s.addr
            &&& last.size == s.size
            &&& last.write ==> last.data == s.data
        }),
    decreases fuel,
{
    let clean = faults == Set::<nat>::empty();
    if request is Finish {
    } else {
        lemma_step(s, request, t, origin, clean, faults.contains(tick));
        let (t1, reply) = t.serve(request, s.word, faults.contains(tick));
        let (s1, request1) = s.next(reply);
        lemma_run(s1, request1, t1, origin, faults, tick + 1, (fuel - 1) as nat);
    }
}

/// Carrying out a transfer from its start: where it ends.
proof fn lemma_perform(s: Transfer, target: Target, faults: Set<nat>)
    requires
        s.wf(),
        s.phase is Idle,
    ensures
        ({
            let (last, t_last) = s.perform(target, faults);
            &&& last.phase is Finished
            &&& in_step(
                last,
                Request::Finish { outcome: last.phase->Finished_0 },
                t_last,
                target,
                faults == Set::<nat>::empty(),
            )
            &&& last.write == s.write
            &&& last.addr == s.addr
            &&& last.size == s.size
            &&& last.write ==> last.data == s.data
        }),
{
    let (started, request) = s.next(Reply::Start);
    lemma_run(started, request, target, target, faults, 0, started.budget());
}

/// Whatever the replies, a transfer that has not ended is closer to its end
/// after each of them: it makes no more requests than `budget` says.
pub proof fn law_transfer_ends(s: Transfer, reply: Reply)
    requires
        s.wf(),
        !(s.phase is Finished),
    ensures
        s.next(reply).0.wf(),
        s.next(reply).0.budget() < s.budget(),
{
}

/// Stop/resume balance. Whatever fails on the way, a transfer ends, and
/// when it has ended as many stops are held on the target as before it
/// started: a target that ran runs again.
pub proof fn law_stop_resume_balance(s: Transfer, target: Target, faults: Set<nat>)
    requires
        s.wf(),
        s.phase is Idle,
    ensures
        s.perform(target, faults).0.phase is Finished,
        s.perform(target, faults).1.stops == target.stops,
{
    lemma_perform(s, target, faults);
}

/// Write locality. Whatever fails on the way, a write leaves every byte
/// outside the range that it was given as it was; so do the bytes of the
/// last word that lie behind the data. A read leaves every byte as it was.
pub proof fn law_write_locality(s: Transfer, target: Target, faults: Set<nat>, a: int)
    requires
        s.wf(),
        s.phase is Idle,
        !s.write || !(s.addr <= a < s.addr + s.size),
    ensures
        s.perform(target, faults).1.byte(a) == target.byte(a),
{
    lemma_perform(s, target, faults);
}

/// A write that completes has put its data into the range that it was
/// given, whatever failed on the way (only the resume can have). Where no
/// request fails, a write completes.
pub proof fn law_write_lands(s: Transfer, target: Target, faults: Set<nat>)
    requires
        s.wf(),
        s.phase is Idle,
        s.write,
    ensures
        faults == Set::<nat>::empty() ==> s.perform(target, faults).0.phase == Phase::Finished(
            TransferOutcome::Completed,
        ),
        s.perform(target, faults).0.phase == Phase::Finished(TransferOutcome::Completed)
            ==> s.perform(target, faults).1.bytes(s.addr, s.size) == s.data,
{
    lemma_perform(s, target, faults);
    let (last, t_last) = s.perform(target, faults);
    if last.phase == Phase::Finished(TransferOutcome::Completed) {
        assert forall|i: int| 0 <= i < s.size implies #[trigger] t_last.bytes(s.addr, s.size)[i]
            == s.data[i] by {
            assert(t_last.byte(s.addr + i) == last.data[s.addr + i - last.addr]);
        }
        assert(t_last.bytes(s.addr, s.size) =~= s.data);
    }
}

/// A read that completes has read the bytes that the target holds in the
/// range that the read was given, whatever failed on the way (only the
/// resume can have). Where no request fails, a read completes.
pub proof fn law_read_fetches(s: Transfer, target: Target, faults: Set<nat>)
    requires
        s.wf(),
        s.phase is Idle,
        !s.write,
    ensures
        faults == Set::<nat>::empty() ==> s.perform(target, faults).0.phase == Phase::Finished(
            TransferOutcome::Completed,
        ),
        s.perform(target, faults).0.phase == Phase::Finished(TransferOutcome::Completed)
            ==> s.perform(target, faults).0.data == target.bytes(s.addr, s.size),
{
    lemma_perform(s, target, faults);
    let (last, t_last) = s.perform(target, faults);
    if last.phase == Phase::Finished(TransferOutcome::Completed) {
        assert(last.data =~= target.bytes(s.addr, s.size));
    }
}

/// Read/write round trip. Where a write of some bytes at an address
/// completes, and a read of as many bytes from that address completes after
/// it, the read gives the bytes written, whatever their number and the word
/// sizes. Where no request fails, both complete.
pub proof fn law_round_trip(
    writing: Transfer,
    reading: Transfer,
    target: Target,
    write_faults: Set<nat>,
    read_faults: Set<nat>,
)
    requires
        writing.wf(),
        writing.phase is Idle,
        writing.write,
        reading.wf(),
        reading.phase is Idle,
        !reading.write,
        reading.addr == writing.addr,
        reading.size == writing.size,
    ensures
        ({
            let (written, between) = writing.perform(target, write_faults);
            let (read, last) = reading.perform(between, read_faults);
            &&& write_faults == Set::<nat>::empty() ==> written.phase == Phase::Finished(
                TransferOutcome::Completed,
            )
            &&& read_faults == Set::<nat>::empty() ==> read.phase == Phase::Finished(
                TransferOutcome::Completed,
            )
            &&& (written.phase == Phase::Finished(TransferOutcome::Completed) && read.phase
                == Phase::Finished(TransferOutcome::Completed)) ==> read.data == writing.data
        }),
{
    law_write_lands(writing, target, write_faults);
    law_read_fetches(reading, writing.perform(target, write_faults).1, read_faults);
}

impl Transfer {
    /// The transfer after the first `k` of `replies` have come in, whatever
    /// they are.
    pub open spec fn after(self, replies: Seq<Reply>, k: nat) -> Transfer
        decreases k,
    {
        if k == 0 {
            self
        } else {
            self.after(replies, (k - 1) as nat).next(replies[k - 1]).0
        }
    }

    /// The request that the transfer makes on the reply number `k`, the
    /// first reply being number 0.
    pub open spec fn asks(self, replies: Seq<Reply>, k: nat) -> Request {
        self.after(replies, k).next(replies[k as int]).1
    }
}

/// The request moves a word: it reads one or writes one.
pub open spec fn moves_word(request: Request) -> bool {
    request is Peek || request is Poke
}

/// How far a transfer has come: the phases in the order in which a transfer
/// goes through them.
spec fn rank(phase: Phase) -> int {
    match phase {
        Phase::Idle => 0,
        Phase::Interrupting => 1,
        Phase::Waiting => 2,
        Phase::Moving | Phase::Patching => 3,
        Phase::Resuming(_) => 4,
        Phase::Finished(_) => 5,
    }
}

/// A transfer never goes back, and what it asks for tells where it is then.
proof fn lemma_asked(s: Transfer, replies: Seq<Reply>, k: nat)
    requires
        s.wf(),
        k < replies.len(),
    ensures
        s.after(replies, k).wf(),
        s.after(replies, k + 1).wf(),
        rank(s.after(replies, k).phase) <= rank(s.after(replies, k + 1).phase),
        rank(s.after(replies, k + 1).phase) >= 1,
        s.asks(replies, k) is Interrupt <==> s.after(replies, k + 1).phase is Interrupting,
        s.asks(replies, k) is AwaitStop <==> s.after(replies, k + 1).phase is Waiting,
        moves_word(s.asks(replies, k)) <==> rank(s.after(replies, k + 1).phase) == 3,
        s.asks(replies, k) is Resume <==> s.after(replies, k + 1).phase is Resuming,
        s.asks(replies, k) is Finish <==> s.after(replies, k + 1).phase is Finished,
        s.after(replies, k + 1).phase is Interrupting ==> s.after(replies, k).phase is Idle,
        s.after(replies, k).phase is Interrupting ==> rank(s.after(replies, k + 1).phase) == 2
            || rank(s.after(replies, k + 1).phase) == 5,
        s.after(replies, k).phase is Resuming ==> s.after(replies, k + 1).phase is Finished,
        2 <= rank(s.after(replies, k).phase) <= 3 ==> 3 <= rank(s.after(replies, k + 1).phase)
            <= 4,
    decreases k,
{
    if k > 0 {
        lemma_asked(s, replies, (k - 1) as nat);
    }
    assert(s.after(replies, k + 1) == s.after(replies, k).next(replies[k as int]).0);
}

/// A transfer never goes back.
proof fn lemma_never_back(s: Transfer, replies: Seq<Reply>, j: nat, k: nat)
    requires
        s.wf(),
        j <= k <= replies.len(),
    ensures
        rank(s.after(replies, j).phase) <= rank(s.after(replies, k).phase),
    decreases k,
{
    if j < k {
        lemma_never_back(s, replies, j, (k - 1) as nat);
        lemma_asked(s, replies, (k - 1) as nat);
    }
}

/// A transfer that has the target stopped, or is about to, and has ended
/// later, has been resuming the target in between.
proof fn lemma_resumed_before_end(s: Transfer, replies: Seq<Reply>, a: nat, k: nat) -> (j: nat)
    requires
        s.wf(),
        a < k <= replies.len(),
        2 <= rank(s.after(replies, a).phase) <= 4,
        s.after(replies, k).phase is Finished,
    ensures
        a <= j < k,
        s.after(replies, j).phase is Resuming,
    decreases k - a,
{
    if s.after(replies, a).phase is Resuming {
        a
    } else {
        lemma_asked(s, replies, a);
        lemma_resumed_before_end(s, replies, a + 1, k)
    }
}

/// One stop for each transfer. Whatever the replies, a transfer asks for
/// the interrupt once, as the first thing it asks for. It moves words only
/// after the interrupt and the wait for the stop have gone through, and
/// before it asks for the resume. Once it has asked for the resume, it asks
/// for nothing but the end: so it asks for the resume at most once, after
/// the last word. And by the time it ends it has asked for the resume
/// exactly if the interrupt had gone through.
pub proof fn law_one_stop(s: Transfer, replies: Seq<Reply>)
    requires
        s.wf(),
        s.phase is Idle,
    ensures
        forall|k: nat| k < replies.len() ==> ((#[trigger] s.asks(replies, k)) is Interrupt <==> k == 0),
        forall|k: nat|
            k < replies.len() && moves_word(#[trigger] s.asks(replies, k)) ==> k >= 2 && s.asks(
                replies,
                1,
            ) is AwaitStop,
        forall|j: nat, k: nat|
            j < k < replies.len() && ((#[trigger] s.asks(replies, j)) is Resume || s.asks(
                replies,
                j,
            ) is Finish) ==> (#[trigger] s.asks(replies, k)) is Finish,
        forall|k: nat|
            k < replies.len() && (#[trigger] s.asks(replies, k)) is Finish ==> ((exists|j: nat|
                j < k && (#[trigger] s.asks(replies, j)) is Resume) <==> s.asks(replies, 1) is AwaitStop),
{
    assert forall|k: nat| k < replies.len() implies ((#[trigger] s.asks(replies, k)) is Interrupt
        <==> k == 0) by {
        lemma_asked(s, replies, k);
        if k > 0 {
            lemma_asked(s, replies, 0);
            lemma_never_back(s, replies, 1, k);
        }
    }
    assert forall|k: nat| k < replies.len() && moves_word(#[trigger] s.asks(replies, k)) implies k
        >= 2 && s.asks(replies, 1) is AwaitStop by {
        lemma_asked(s, replies, k);
        lemma_asked(s, replies, 0);
        if k >= 1 {
            lemma_asked(s, replies, 1);
            lemma_never_back(s, replies, 2, k + 1);
        }
    }
    assert forall|j: nat, k: nat|
        j < k < replies.len() && ((#[trigger] s.asks(replies, j)) is Resume || s.asks(
            replies,
            j,
        ) is Finish) implies (#[trigger] s.asks(replies, k)) is Finish by {
        lemma_asked(s, replies, j);
        lemma_asked(s, replies, j + 1);
        lemma_asked(s, replies, k);
        lemma_never_back(s, replies, j + 2, k + 1);
    }
    assert forall|k: nat| k < replies.len() && (#[trigger] s.asks(replies, k)) is Finish implies ((
    exists|j: nat| j < k && (#[trigger] s.asks(replies, j)) is Resume) <==> s.asks(replies, 1) is AwaitStop) by {
        lemma_asked(s, replies, k);
        lemma_asked(s, replies, 0);
        assert(k >= 1);
        lemma_asked(s, replies, 1);
        if s.asks(replies, 1) is AwaitStop {
            let at = lemma_resumed_before_end(s, replies, 2, k + 1);
            lemma_asked(s, replies, (at - 1) as nat);
            assert(s.asks(replies, (at - 1) as nat) is Resume);
        }
        if exists|j: nat| j < k && (#[trigger] s.asks(replies, j)) is Resume {
            let j = choose|j: nat| j < k && (#[trigger] s.asks(replies, j)) is Resume;
            lemma_asked(s, replies, j);
            assert(j >= 1);
            lemma_never_back(s, replies, 2, j + 1);
        }
    }
}

} // verus!
