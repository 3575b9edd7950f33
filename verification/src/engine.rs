//! Programming orchestration.
//!
//! A [`ProgramEngine`] sequences one programming cycle over an in-memory
//! buffer at flash offset zero: a read-back pre-check pass that skips all
//! work when the flash already holds the buffer, a block-aligned erase pass,
//! a 256-byte-chunked program pass, and a verify pass that re-reads
//! everything and fails on any mismatch.
//!
//! The engine holds no transport: it is a state machine that names the next
//! flash operation ([`Action`]) and consumes the outcome of each one. The
//! caller performs every read with [`crate::flash::read`], every erase as
//! write-enable, sector-erase and busy-wait, and every program as
//! write-enable, page-program and busy-wait, feeding read-back bytes in
//! through [`ProgramEngine::handle_read`] and completions through
//! [`ProgramEngine::handle_done`].

use vstd::prelude::*;

use crate::error::ArrangeError;
use crate::flash::BlockErase;
use vstd::arithmetic::div_mod::{lemma_fundamental_div_mod, lemma_mod_multiples_basic};

verus! {

/// Length of the chunk at `addr` when walking an `n`-byte buffer in
/// 256-byte steps: a full 256 bytes, or the remainder for the final chunk.
pub open spec fn spec_chunk_len(n: int, addr: int) -> int {
    if n - addr < 256 {
        n - addr
    } else {
        256
    }
}

/// The number of 256-byte chunks an `n`-byte buffer is walked in.
pub open spec fn spec_chunk_count(n: int) -> int {
    (n + 255) / 256
}

/// The number of `bs`-byte blocks that cover an `n`-byte buffer at offset
/// zero.
pub open spec fn spec_block_count(n: int, bs: int) -> int
    recommends
        bs >= 1,
{
    (n + bs - 1) / bs
}

/// The contents of chunk `idx` of `buf`.
pub open spec fn spec_chunk_at(buf: Seq<u8>, idx: int) -> Seq<u8> {
    buf.subrange(256 * idx, 256 * idx + spec_chunk_len(buf.len() as int, 256 * idx))
}

/// Where a programming cycle stands.
#[derive(Clone, Copy, Debug, PartialEq, Eq, Structural)]
pub enum Phase {
    /// Pre-check pass: comparing flash contents chunk by chunk from `addr`.
    Check { addr: usize },
    /// Erase pass: block number `idx` is next.
    Erase { idx: usize },
    /// Program pass: chunk number `idx` is next.
    Program { idx: usize },
    /// Verify pass: re-reading chunk by chunk from `addr`.
    Verify { addr: usize },
    /// Finished; `programmed` tells whether any erase/program work ran.
    Done { programmed: bool },
    /// Finished: the post-program readback did not match the buffer.
    Failed,
}

/// The next flash operation a programming cycle asks for.
#[derive(Clone, Copy, Debug)]
pub enum Action {
    /// Read `len` bytes of flash contents at `addr` and feed them to
    /// [`ProgramEngine::handle_read`].
    Read { addr: usize, len: usize },
    /// Write-enable, erase the block at `addr`, busy-wait, then call
    /// [`ProgramEngine::handle_done`].
    EraseBlock { addr: usize },
    /// Write-enable, program [`ProgramEngine::page_data`] at `addr`,
    /// busy-wait, then call [`ProgramEngine::handle_done`].
    ProgramPage { addr: usize, len: usize },
    /// The cycle is over: `Ok(false)` means the flash already matched and
    /// nothing was written, `Ok(true)` means programming completed and
    /// verified, `Err` means the readback did not match.
    Finish { outcome: Result<bool, ArrangeError> },
}

/// One programming cycle over a buffer at flash offset zero.
pub struct ProgramEngine {
    /// The bytes to program. Read-only for the whole cycle.
    pub buffer: Vec<u8>,
    /// The erase-block geometry of the erase pass.
    pub block: BlockErase,
    /// Where the cycle stands.
    pub phase: Phase,
}

impl ProgramEngine {
    /// The buffer length.
    pub open spec fn n(self) -> int {
        self.buffer@.len() as int
    }

    /// The erase-block size in bytes.
    pub open spec fn bs(self) -> int {
        self.block.spec_block_size() as int
    }

    /// Well-formedness: the buffer addresses a 24-bit flash, check and
    /// verify passes stand on a chunk boundary inside the buffer, and the
    /// erase and program passes stand on a block or chunk that exists.
    pub open spec fn wf(self) -> bool {
        &&& self.buffer@.len() <= 0x1000000
        &&& match self.phase {
            Phase::Check { addr } => addr <= self.n() && addr % 256 == 0,
            Phase::Erase { idx } => self.n() >= 1 && idx < spec_block_count(self.n(), self.bs()),
            Phase::Program { idx } => self.n() >= 1 && idx < spec_chunk_count(self.n()),
            Phase::Verify { addr } => addr < self.n() && addr % 256 == 0,
            Phase::Done { .. } => true,
            Phase::Failed => true,
        }
    }

    /// The same cycle standing at `phase`.
    pub open spec fn with_phase(self, phase: Phase) -> ProgramEngine {
        ProgramEngine { buffer: self.buffer, block: self.block, phase }
    }

    /// The operation the cycle asks for in its current phase.
    pub open spec fn spec_action(self) -> Action {
        match self.phase {
            Phase::Check { addr } => {
                if addr < self.n() {
                    Action::Read { addr, len: spec_chunk_len(self.n(), addr as int) as usize }
                } else {
                    Action::Finish { outcome: Ok(false) }
                }
            },
            Phase::Erase { idx } => Action::EraseBlock { addr: (idx * self.bs()) as usize },
            Phase::Program { idx } => {
                Action::ProgramPage {
                    addr: (idx * 256) as usize,
                    len: spec_chunk_len(self.n(), idx as int * 256) as usize,
                }
            },
            Phase::Verify { addr } => {
                if addr < self.n() {
                    Action::Read { addr, len: spec_chunk_len(self.n(), addr as int) as usize }
                } else {
                    Action::Finish { outcome: Ok(true) }
                }
            },
            Phase::Done { programmed } => Action::Finish { outcome: Ok(programmed) },
            Phase::Failed => Action::Finish { outcome: Err(ArrangeError::WriteError) },
        }
    }

    /// The phase after the bytes `data` came back for the read the cycle
    /// asked for. In the pre-check pass a matching chunk advances or, at
    /// the end, finishes with nothing to do, and a mismatch starts the
    /// erase pass; in the verify pass a matching chunk advances or
    /// finishes, and a mismatch fails the cycle.
    pub open spec fn spec_after_read(self, data: Seq<u8>) -> Phase {
        match self.phase {
            Phase::Check { addr } => {
                let len = spec_chunk_len(self.n(), addr as int);
                if data == self.buffer@.subrange(addr as int, addr + len) {
                    if addr + len < self.n() {
                        Phase::Check { addr: (addr + len) as usize }
                    } else {
                        Phase::Done { programmed: false }
                    }
                } else {
                    Phase::Erase { idx: 0 }
                }
            },
            Phase::Verify { addr } => {
                let len = spec_chunk_len(self.n(), addr as int);
                if data == self.buffer@.subrange(addr as int, addr + len) {
                    if addr + len < self.n() {
                        Phase::Verify { addr: (addr + len) as usize }
                    } else {
                        Phase::Done { programmed: true }
                    }
                } else {
                    Phase::Failed
                }
            },
            _ => self.phase,
        }
    }

    /// The phase after the erase or program operation the cycle asked for
    /// completed: the next block or chunk, or the next pass.
    pub open spec fn spec_after_done(self) -> Phase {
        match self.phase {
            Phase::Erase { idx } => {
                if idx + 1 < spec_block_count(self.n(), self.bs()) {
                    Phase::Erase { idx: (idx + 1) as usize }
                } else {
                    Phase::Program { idx: 0 }
                }
            },
            Phase::Program { idx } => {
                if idx + 1 < spec_chunk_count(self.n()) {
                    Phase::Program { idx: (idx + 1) as usize }
                } else {
                    Phase::Verify { addr: 0 }
                }
            },
            _ => self.phase,
        }
    }

    /// Starts a programming cycle for `buffer` with the given erase-block
    /// geometry. The buffer must fit the flash's 24-bit address space.
    pub fn new(buffer: Vec<u8>, block: BlockErase) -> (e: ProgramEngine)
        requires
            buffer@.len() <= 0x1000000,
        ensures
            e.wf(),
            e.buffer@ == buffer@,
            e.block == block,
            e.phase == (Phase::Check { addr: 0usize }),
    {
        ProgramEngine { buffer, block, phase: Phase::Check { addr: 0 } }
    }

    /// The operation to perform next.
    pub fn next_action(&self) -> (a: Action)
        requires
            self.wf(),
        ensures
            a == self.spec_action(),
    {
        match self.phase {
            Phase::Check { addr } => {
                if addr < self.buffer.len() {
                    Action::Read { addr, len: chunk_len(self.buffer.len(), addr) }
                } else {
                    Action::Finish { outcome: Ok(false) }
                }
            },
            Phase::Erase { idx } => {
                proof {
                    lemma_block_index_bound(self.n(), self.bs(), idx as int);
                }
                Action::EraseBlock { addr: idx * self.block.block_size() }
            },
            Phase::Program { idx } => {
                proof {
                    lemma_chunk_index_bound(self.n(), idx as int);
                }
                let addr: usize = idx * 256;
                Action::ProgramPage { addr, len: chunk_len(self.buffer.len(), addr) }
            },
            Phase::Verify { addr } => {
                if addr < self.buffer.len() {
                    Action::Read { addr, len: chunk_len(self.buffer.len(), addr) }
                } else {
                    Action::Finish { outcome: Ok(true) }
                }
            },
            Phase::Done { programmed } => Action::Finish { outcome: Ok(programmed) },
            Phase::Failed => Action::Finish { outcome: Err(ArrangeError::WriteError) },
        }
    }

    /// Feeds in the bytes that came back for the read the cycle asked for.
    pub fn handle_read(&mut self, data: &Vec<u8>)
        requires
            old(self).wf(),
            old(self).spec_action() matches Action::Read { addr, len } && data@.len() == len,
        ensures
            final(self).wf(),
            final(self).buffer@ == old(self).buffer@,
            final(self).block == old(self).block,
            final(self).phase == old(self).spec_after_read(data@),
    {
        match self.phase {
            Phase::Check { addr } => {
                let len = chunk_len(self.buffer.len(), addr);
                if chunk_matches(&self.buffer, addr, data) {
                    if addr + len < self.buffer.len() {
                        self.phase = Phase::Check { addr: addr + len };
                    } else {
                        self.phase = Phase::Done { programmed: false };
                    }
                } else {
                    self.phase = Phase::Erase { idx: 0 };
                    proof {
                        lemma_count_positive(self.n(), self.bs());
                    }
                }
            },
            Phase::Verify { addr } => {
                let len = chunk_len(self.buffer.len(), addr);
                if chunk_matches(&self.buffer, addr, data) {
                    if addr + len < self.buffer.len() {
                        self.phase = Phase::Verify { addr: addr + len };
                    } else {
                        self.phase = Phase::Done { programmed: true };
                    }
                } else {
                    self.phase = Phase::Failed;
                }
            },
            _ => {
                proof {
                    assert(false);
                }
            },
        }
    }

    /// Records that the erase or program operation the cycle asked for
    /// completed (after its busy-wait).
    pub fn handle_done(&mut self)
        requires
            old(self).wf(),
            old(self).spec_action() is EraseBlock || old(self).spec_action() is ProgramPage,
        ensures
            final(self).wf(),
            final(self).buffer@ == old(self).buffer@,
            final(self).block == old(self).block,
            final(self).phase == old(self).spec_after_done(),
    {
        match self.phase {
            Phase::Erase { idx } => {
                let count = block_count(self.buffer.len(), self.block);
                if idx + 1 < count {
                    self.phase = Phase::Erase { idx: idx + 1 };
                } else {
                    self.phase = Phase::Program { idx: 0 };
                }
            },
            Phase::Program { idx } => {
                let count = chunk_count(self.buffer.len());
                if idx + 1 < count {
                    self.phase = Phase::Program { idx: idx + 1 };
                } else {
                    self.phase = Phase::Verify { addr: 0 };
                }
            },
            _ => {
                proof {
                    assert(false);
                }
            },
        }
    }

    /// The bytes of the chunk a `ProgramPage` action programs.
    pub fn page_data(&self) -> (d: Vec<u8>)
        requires
            self.wf(),
            self.phase is Program,
        ensures
            d@ == spec_chunk_at(self.buffer@, self.phase->Program_idx as int),
    {
        let idx: usize = match self.phase {
            Phase::Program { idx } => idx,
            _ => 0,
        };
        proof {
            lemma_chunk_index_bound(self.n(), idx as int);
        }
        let start: usize = idx * 256;
        let total = self.buffer.len();
        let len = chunk_len(total, start);
        let mut d: Vec<u8> = Vec::new();
        let mut i: usize = 0;
        while i < len
            invariant
                i <= len,
                total == self.buffer@.len(),
                start + len <= self.buffer@.len(),
                d@ == self.buffer@.subrange(start as int, start as int + i as int),
            decreases len - i,
        {
            d.push(self.buffer[start + i]);
            i = i + 1;
            assert(d@ =~= self.buffer@.subrange(start as int, start as int + i as int));
        }
        assert(d@ =~= spec_chunk_at(self.buffer@, idx as int));
        d
    }
}

/// The length of the chunk at `addr`.
fn chunk_len(n: usize, addr: usize) -> (l: usize)
    requires
        addr < n,
    ensures
        l == spec_chunk_len(n as int, addr as int),
{
    let rem = n - addr;
    if rem < 256 {
        rem
    } else {
        256
    }
}

/// The number of 256-byte chunks of an `n`-byte buffer.
fn chunk_count(n: usize) -> (c: usize)
    requires
        n <= 0x1000000,
    ensures
        c == spec_chunk_count(n as int),
{
    (n + 255) / 256
}

/// The number of erase blocks that cover an `n`-byte buffer at offset zero.
fn block_count(n: usize, block: BlockErase) -> (c: usize)
    requires
        n <= 0x1000000,
    ensures
        c == spec_block_count(n as int, block.spec_block_size() as int),
{
    let bs = block.block_size();
    (n + (bs - 1)) / bs
}

/// An `n`-byte buffer needs at least one block once it is non-empty.
proof fn lemma_count_positive(n: int, bs: int)
    requires
        n >= 1,
        bs == 4096 || bs == 32768 || bs == 65536,
    ensures
        spec_block_count(n, bs) >= 1,
        spec_chunk_count(n) >= 1,
{
}

/// A block that exists starts strictly inside the buffer.
proof fn lemma_block_index_bound(n: int, bs: int, idx: int)
    requires
        0 <= idx < spec_block_count(n, bs),
        n >= 1,
        bs == 4096 || bs == 32768 || bs == 65536,
    ensures
        idx * bs < n,
{
    assert((idx + 1) * bs <= spec_block_count(n, bs) * bs) by (nonlinear_arith)
        requires
            idx + 1 <= spec_block_count(n, bs),
            bs >= 1,
    ;
    assert(spec_block_count(n, bs) * bs <= n + bs - 1) by (nonlinear_arith)
        requires
            spec_block_count(n, bs) == (n + bs - 1) / bs,
            bs >= 1,
    ;
    assert(idx * bs + bs == (idx + 1) * bs) by (nonlinear_arith);
}

/// A chunk that exists starts strictly inside the buffer.
proof fn lemma_chunk_index_bound(n: int, idx: int)
    requires
        0 <= idx < spec_chunk_count(n),
        n >= 1,
    ensures
        idx * 256 < n,
{
    assert(idx * 256 < n) by (nonlinear_arith)
        requires
            idx + 1 <= (n + 255) / 256,
    ;
}

/// The mathematical trace of one programming cycle run to completion: its
/// outcome, the block addresses it erased, and the `(address, length)`
/// chunks it programmed, each in issue order.
pub ghost struct RunLog {
    pub outcome: Result<bool, ArrangeError>,
    pub erases: Seq<int>,
    pub progs: Seq<(int, int)>,
}

/// Pass order: every transition either stays inside a pass or moves to a
/// strictly later one.
pub open spec fn phase_rank(phase: Phase) -> int {
    match phase {
        Phase::Check { .. } => 4,
        Phase::Erase { .. } => 3,
        Phase::Program { .. } => 2,
        Phase::Verify { .. } => 1,
        Phase::Done { .. } => 0,
        Phase::Failed => 0,
    }
}

/// How much of the current pass is left.
pub open spec fn phase_fuel(e: ProgramEngine) -> int {
    match e.phase {
        Phase::Check { addr } => if addr as int <= e.n() {
            e.n() - addr
        } else {
            0
        },
        Phase::Erase { idx } => {
            let c = spec_block_count(e.n(), e.bs());
            if (idx as int) < c {
                c - idx
            } else {
                0
            }
        },
        Phase::Program { idx } => {
            let c = spec_chunk_count(e.n());
            if (idx as int) < c {
                c - idx
            } else {
                0
            }
        },
        Phase::Verify { addr } => if addr as int <= e.n() {
            e.n() - addr
        } else {
            0
        },
        Phase::Done { .. } => 0,
        Phase::Failed => 0,
    }
}

/// The trace of running the cycle to completion when the flash holds `pre`
/// before the erase pass and `post` after the program pass: every read in
/// the pre-check pass is answered from `pre`, every read in the verify
/// pass from `post`, and every erase or program operation completes.
pub open spec fn spec_run(e: ProgramEngine, pre: Seq<u8>, post: Seq<u8>) -> RunLog
    recommends
        e.wf(),
    decreases phase_rank(e.phase), phase_fuel(e),
        when e.wf()
{
    match e.phase {
        Phase::Check { addr } => {
            if addr < e.n() {
                let len = spec_chunk_len(e.n(), addr as int);
                let resp = pre.subrange(addr as int, addr + len);
                spec_run(e.with_phase(e.spec_after_read(resp)), pre, post)
            } else {
                RunLog { outcome: Ok(false), erases: seq![], progs: seq![] }
            }
        },
        Phase::Erase { idx } => {
            let tail = spec_run(e.with_phase(e.spec_after_done()), pre, post);
            RunLog {
                outcome: tail.outcome,
                erases: seq![idx as int * e.bs()] + tail.erases,
                progs: tail.progs,
            }
        },
        Phase::Program { idx } => {
            let tail = spec_run(e.with_phase(e.spec_after_done()), pre, post);
            RunLog {
                outcome: tail.outcome,
                erases: tail.erases,
                progs: seq![(idx as int * 256, spec_chunk_len(e.n(), idx as int * 256))]
                    + tail.progs,
            }
        },
        Phase::Verify { addr } => {
            if addr < e.n() {
                let len = spec_chunk_len(e.n(), addr as int);
                let resp = post.subrange(addr as int, addr + len);
                spec_run(e.with_phase(e.spec_after_read(resp)), pre, post)
            } else {
                RunLog { outcome: Ok(true), erases: seq![], progs: seq![] }
            }
        },
        Phase::Done { programmed } => RunLog {
            outcome: Ok(programmed),
            erases: seq![],
            progs: seq![],
        },
        Phase::Failed => RunLog {
            outcome: Err(ArrangeError::WriteError),
            erases: seq![],
            progs: seq![],
        },
    }
}

/// The block addresses the erase pass visits for an `n`-byte buffer at
/// offset zero: `ceil(n / bs)` addresses, the `i`-th being `i * bs`, so
/// every address is a multiple of the block size and together the blocks
/// cover exactly `[0, ceil(n / bs) * bs)`.
pub open spec fn spec_erase_schedule(n: int, bs: int) -> Seq<int>
    recommends
        bs >= 1,
{
    Seq::new(spec_block_count(n, bs) as nat, |i: int| i * bs)
}

/// The `(address, length)` chunks the program pass issues for an `n`-byte
/// buffer: `ceil(n / 256)` chunks, the `i`-th at address `256 * i`,
/// 256 bytes long except for a shorter final chunk, contiguous,
/// non-overlapping, and together covering exactly `[0, n)`.
pub open spec fn spec_prog_schedule(n: int) -> Seq<(int, int)> {
    Seq::new(spec_chunk_count(n) as nat, |i: int| (i * 256, spec_chunk_len(n, i * 256)))
}

/// Verify strictness over one run: starting the verify pass at `addr`, the
/// cycle erases and programs nothing more, succeeds exactly when the
/// readback from `addr` on equals the buffer, and reports a write error on
/// any mismatch.
pub proof fn lemma_verify_pass(e: ProgramEngine, pre: Seq<u8>, post: Seq<u8>)
    requires
        e.wf(),
        e.phase is Verify,
        post.len() >= e.n(),
    ensures
        spec_run(e, pre, post).erases == Seq::<int>::empty(),
        spec_run(e, pre, post).progs == Seq::<(int, int)>::empty(),
        spec_run(e, pre, post).outcome == (if post.subrange(e.phase->Verify_addr as int, e.n())
            == e.buffer@.subrange(e.phase->Verify_addr as int, e.n()) {
            Ok::<bool, ArrangeError>(true)
        } else {
            Err::<bool, ArrangeError>(ArrangeError::WriteError)
        }),
    decreases e.n() - e.phase->Verify_addr,
{
    let addr = e.phase->Verify_addr as int;
    let n = e.n();
    let buf = e.buffer@;
    let len = spec_chunk_len(n, addr);
    let resp = post.subrange(addr, addr + len);
    let chunk = buf.subrange(addr, addr + len);
    assert(e.phase == (Phase::Verify { addr: addr as usize }));
    if resp == chunk {
        if addr + len < n {
            let e2 = e.with_phase(Phase::Verify { addr: (addr + len) as usize });
            assert(e.spec_after_read(resp) == e2.phase);
            assert(spec_run(e, pre, post) == spec_run(e2, pre, post));
            assert(e2.wf());
            lemma_verify_pass(e2, pre, post);
            if post.subrange(addr + len, n) == buf.subrange(addr + len, n) {
                assert(post.subrange(addr, n) =~= buf.subrange(addr, n)) by {
                    assert forall|j: int| 0 <= j < n - addr implies post.subrange(addr, n)[j]
                        == buf.subrange(addr, n)[j] by {
                        if j < len {
                            assert(resp[j] == chunk[j]);
                        } else {
                            assert(post.subrange(addr + len, n)[j - len] == buf.subrange(
                                addr + len,
                                n,
                            )[j - len]);
                        }
                    }
                }
            } else {
                if post.subrange(addr, n) == buf.subrange(addr, n) {
                    assert(post.subrange(addr + len, n) =~= buf.subrange(addr + len, n)) by {
                        assert forall|j: int| 0 <= j < n - addr - len implies #[trigger] post
                            .subrange(addr + len, n)[j] == buf.subrange(addr + len, n)[j] by {
                            assert(post.subrange(addr, n)[j + len] == buf.subrange(
                                addr,
                                n,
                            )[j + len]);
                        }
                    }
                    assert(false);
                }
            }
        } else {
            assert(len == n - addr);
            let e2 = e.with_phase(Phase::Done { programmed: true });
            assert(e.spec_after_read(resp) == e2.phase);
            assert(spec_run(e, pre, post) == spec_run(e2, pre, post));
            assert(spec_run(e2, pre, post).outcome == Ok::<bool, ArrangeError>(true));
            assert(spec_run(e2, pre, post).erases =~= Seq::<int>::empty());
            assert(spec_run(e2, pre, post).progs =~= Seq::<(int, int)>::empty());
        }
    } else {
        if post.subrange(addr, n) == buf.subrange(addr, n) {
            assert(resp =~= chunk) by {
                assert forall|j: int| 0 <= j < len implies resp[j] == chunk[j] by {
                    assert(post.subrange(addr, n)[j] == buf.subrange(addr, n)[j]);
                }
            }
            assert(false);
        }
        let e2 = e.with_phase(Phase::Failed);
        assert(e.spec_after_read(resp) == e2.phase);
        assert(spec_run(e, pre, post) == spec_run(e2, pre, post));
        assert(spec_run(e2, pre, post).outcome == Err::<bool, ArrangeError>(
            ArrangeError::WriteError,
        ));
        assert(spec_run(e2, pre, post).erases =~= Seq::<int>::empty());
        assert(spec_run(e2, pre, post).progs =~= Seq::<(int, int)>::empty());
    }
}

/// Program chunking over one run: starting the program pass at chunk
/// `idx`, the cycle issues exactly the scheduled chunks from `idx` on,
/// erases nothing more, and its outcome is decided by the verify pass.
pub proof fn lemma_program_pass(e: ProgramEngine, pre: Seq<u8>, post: Seq<u8>)
    requires
        e.wf(),
        e.phase is Program,
        post.len() >= e.n(),
    ensures
        spec_run(e, pre, post).erases == Seq::<int>::empty(),
        spec_run(e, pre, post).progs == spec_prog_schedule(e.n()).skip(
            e.phase->Program_idx as int,
        ),
        spec_run(e, pre, post).outcome == (if post.subrange(0, e.n()) == e.buffer@ {
            Ok::<bool, ArrangeError>(true)
        } else {
            Err::<bool, ArrangeError>(ArrangeError::WriteError)
        }),
    decreases spec_chunk_count(e.n()) - e.phase->Program_idx,
{
    let idx = e.phase->Program_idx as int;
    let n = e.n();
    let c = spec_chunk_count(n);
    let head = (idx * 256, spec_chunk_len(n, idx * 256));
    if idx + 1 < c {
        let e2 = e.with_phase(Phase::Program { idx: (idx + 1) as usize });
        assert(e2.wf());
        lemma_program_pass(e2, pre, post);
        assert(seq![head] + spec_prog_schedule(n).skip(idx + 1) =~= spec_prog_schedule(n).skip(
            idx,
        ));
    } else {
        let e2 = e.with_phase(Phase::Verify { addr: 0usize });
        assert(e2.wf());
        lemma_verify_pass(e2, pre, post);
        assert(e.buffer@.subrange(0, n) =~= e.buffer@);
        assert(seq![head] + Seq::<(int, int)>::empty() =~= spec_prog_schedule(n).skip(idx));
    }
}

/// Erase coverage over one run: starting the erase pass at block `idx`,
/// the cycle erases exactly the scheduled blocks from `idx` on, then
/// programs the full chunk schedule, and its outcome is decided by the
/// verify pass.
pub proof fn lemma_erase_pass(e: ProgramEngine, pre: Seq<u8>, post: Seq<u8>)
    requires
        e.wf(),
        e.phase is Erase,
        post.len() >= e.n(),
    ensures
        spec_run(e, pre, post).erases == spec_erase_schedule(e.n(), e.bs()).skip(
            e.phase->Erase_idx as int,
        ),
        spec_run(e, pre, post).progs == spec_prog_schedule(e.n()),
        spec_run(e, pre, post).outcome == (if post.subrange(0, e.n()) == e.buffer@ {
            Ok::<bool, ArrangeError>(true)
        } else {
            Err::<bool, ArrangeError>(ArrangeError::WriteError)
        }),
    decreases spec_block_count(e.n(), e.bs()) - e.phase->Erase_idx,
{
    let idx = e.phase->Erase_idx as int;
    let n = e.n();
    let bs = e.bs();
    let c = spec_block_count(n, bs);
    if idx + 1 < c {
        let e2 = e.with_phase(Phase::Erase { idx: (idx + 1) as usize });
        assert(e2.wf());
        lemma_erase_pass(e2, pre, post);
        assert(seq![idx * bs] + spec_erase_schedule(n, bs).skip(idx + 1) =~= spec_erase_schedule(
            n,
            bs,
        ).skip(idx));
    } else {
        let e2 = e.with_phase(Phase::Program { idx: 0usize });
        assert(e2.wf());
        lemma_program_pass(e2, pre, post);
        assert(spec_prog_schedule(n).skip(0) =~= spec_prog_schedule(n));
        assert(seq![idx * bs] + Seq::<int>::empty() =~= spec_erase_schedule(n, bs).skip(idx));
    }
}

/// Idempotence of the skip path: when the flash already holds the buffer
/// from the current check address on, the cycle performs only reads — no
/// erase and no program operations — and finishes successfully reporting
/// that nothing was written.
pub proof fn lemma_check_match(e: ProgramEngine, pre: Seq<u8>, post: Seq<u8>)
    requires
        e.wf(),
        e.phase is Check,
        pre.len() >= e.n(),
        pre.subrange(e.phase->Check_addr as int, e.n()) == e.buffer@.subrange(
            e.phase->Check_addr as int,
            e.n(),
        ),
    ensures
        spec_run(e, pre, post).outcome == Ok::<bool, ArrangeError>(false),
        spec_run(e, pre, post).erases == Seq::<int>::empty(),
        spec_run(e, pre, post).progs == Seq::<(int, int)>::empty(),
    decreases e.n() - e.phase->Check_addr,
{
    let addr = e.phase->Check_addr as int;
    let n = e.n();
    let buf = e.buffer@;
    assert(e.phase == (Phase::Check { addr: addr as usize }));
    if addr < n {
        let len = spec_chunk_len(n, addr);
        let resp = pre.subrange(addr, addr + len);
        let chunk = buf.subrange(addr, addr + len);
        assert(resp =~= chunk) by {
            assert forall|j: int| 0 <= j < len implies resp[j] == chunk[j] by {
                assert(pre.subrange(addr, n)[j] == buf.subrange(addr, n)[j]);
            }
        }
        if addr + len < n {
            let e2 = e.with_phase(Phase::Check { addr: (addr + len) as usize });
            assert(e.spec_after_read(resp) == e2.phase);
            assert(spec_run(e, pre, post) == spec_run(e2, pre, post));
            assert(e2.wf());
            assert(pre.subrange(addr + len, n) =~= buf.subrange(addr + len, n)) by {
                assert forall|j: int| 0 <= j < n - addr - len implies #[trigger] pre.subrange(
                    addr + len,
                    n,
                )[j] == buf.subrange(addr + len, n)[j] by {
                    assert(pre.subrange(addr, n)[j + len] == buf.subrange(addr, n)[j + len]);
                }
            }
            lemma_check_match(e2, pre, post);
        } else {
            let e2 = e.with_phase(Phase::Done { programmed: false });
            assert(e.spec_after_read(resp) == e2.phase);
            assert(spec_run(e, pre, post) == spec_run(e2, pre, post));
            assert(spec_run(e2, pre, post).outcome == Ok::<bool, ArrangeError>(false));
            assert(spec_run(e2, pre, post).erases =~= Seq::<int>::empty());
            assert(spec_run(e2, pre, post).progs =~= Seq::<(int, int)>::empty());
        }
    } else {
        assert(spec_run(e, pre, post).outcome == Ok::<bool, ArrangeError>(false));
        assert(spec_run(e, pre, post).erases =~= Seq::<int>::empty());
        assert(spec_run(e, pre, post).progs =~= Seq::<(int, int)>::empty());
    }
}

/// When the flash differs from the buffer somewhere at or after the
/// current check address, the pre-check pass stops at the first differing
/// chunk and the cycle then runs the full erase, program and verify
/// passes.
pub proof fn lemma_check_mismatch(e: ProgramEngine, pre: Seq<u8>, post: Seq<u8>)
    requires
        e.wf(),
        e.phase is Check,
        pre.len() >= e.n(),
        post.len() >= e.n(),
        pre.subrange(e.phase->Check_addr as int, e.n()) != e.buffer@.subrange(
            e.phase->Check_addr as int,
            e.n(),
        ),
    ensures
        spec_run(e, pre, post).erases == spec_erase_schedule(e.n(), e.bs()),
        spec_run(e, pre, post).progs == spec_prog_schedule(e.n()),
        spec_run(e, pre, post).outcome == (if post.subrange(0, e.n()) == e.buffer@ {
            Ok::<bool, ArrangeError>(true)
        } else {
            Err::<bool, ArrangeError>(ArrangeError::WriteError)
        }),
    decreases e.n() - e.phase->Check_addr,
{
    let addr = e.phase->Check_addr as int;
    let n = e.n();
    let bs = e.bs();
    let buf = e.buffer@;
    assert(e.phase == (Phase::Check { addr: addr as usize }));
    if addr >= n {
        assert(pre.subrange(addr, n) =~= buf.subrange(addr, n));
        assert(false);
    }
    let len = spec_chunk_len(n, addr);
    let resp = pre.subrange(addr, addr + len);
    let chunk = buf.subrange(addr, addr + len);
    if resp == chunk {
        if addr + len < n {
            if pre.subrange(addr + len, n) == buf.subrange(addr + len, n) {
                assert(pre.subrange(addr, n) =~= buf.subrange(addr, n)) by {
                    assert forall|j: int| 0 <= j < n - addr implies pre.subrange(addr, n)[j]
                        == buf.subrange(addr, n)[j] by {
                        if j < len {
                            assert(resp[j] == chunk[j]);
                        } else {
                            assert(pre.subrange(addr + len, n)[j - len] == buf.subrange(
                                addr + len,
                                n,
                            )[j - len]);
                        }
                    }
                }
                assert(false);
            }
            let e2 = e.with_phase(Phase::Check { addr: (addr + len) as usize });
            assert(e.spec_after_read(resp) == e2.phase);
            assert(spec_run(e, pre, post) == spec_run(e2, pre, post));
            assert(e2.wf());
            lemma_check_mismatch(e2, pre, post);
        } else {
            assert(len == n - addr);
            assert(pre.subrange(addr, n) =~= resp);
            assert(buf.subrange(addr, n) =~= chunk);
            assert(false);
        }
    } else {
        let e2 = e.with_phase(Phase::Erase { idx: 0usize });
        assert(bs == 4096 || bs == 32768 || bs == 65536);
        lemma_count_positive(n, bs);
        assert(e.spec_after_read(resp) == e2.phase);
        assert(spec_run(e, pre, post) == spec_run(e2, pre, post));
        assert(e2.wf());
        lemma_erase_pass(e2, pre, post);
        assert(spec_erase_schedule(n, bs).skip(0) =~= spec_erase_schedule(n, bs));
    }
}

/// The complete programming-cycle law, from the initial state. When the
/// flash already holds the buffer, the cycle is a pure read-back: no erase
/// and no program operations, and it reports that nothing was written.
/// Otherwise it erases exactly the block schedule, programs exactly the
/// chunk schedule, and succeeds exactly when the post-program readback
/// equals the buffer, reporting a write error on any mismatch.
pub proof fn lemma_program_cycle(e: ProgramEngine, pre: Seq<u8>, post: Seq<u8>)
    requires
        e.wf(),
        e.phase == (Phase::Check { addr: 0usize }),
        pre.len() >= e.n(),
        post.len() >= e.n(),
    ensures
        pre.subrange(0, e.n()) == e.buffer@ ==> {
            &&& spec_run(e, pre, post).outcome == Ok::<bool, ArrangeError>(false)
            &&& spec_run(e, pre, post).erases == Seq::<int>::empty()
            &&& spec_run(e, pre, post).progs == Seq::<(int, int)>::empty()
        },
        pre.subrange(0, e.n()) != e.buffer@ ==> {
            &&& spec_run(e, pre, post).erases == spec_erase_schedule(e.n(), e.bs())
            &&& spec_run(e, pre, post).progs == spec_prog_schedule(e.n())
            &&& spec_run(e, pre, post).outcome == (if post.subrange(0, e.n()) == e.buffer@ {
                Ok::<bool, ArrangeError>(true)
            } else {
                Err::<bool, ArrangeError>(ArrangeError::WriteError)
            })
        },
{
    assert(e.buffer@.subrange(0, e.n()) =~= e.buffer@);
    if pre.subrange(0, e.n()) == e.buffer@ {
        lemma_check_match(e, pre, post);
    } else {
        lemma_check_mismatch(e, pre, post);
    }
}

/// The shape of the erase schedule: `ceil(n / bs)` addresses, the `i`-th
/// being `i * bs` — a multiple of the block size — and the scheduled
/// blocks cover `[0, ceil(n / bs) * bs)`, the least block-aligned range
/// that contains `[0, n)`.
pub proof fn lemma_erase_schedule_covers(n: int, bs: int)
    requires
        n >= 1,
        bs == 4096 || bs == 32768 || bs == 65536,
    ensures
        spec_erase_schedule(n, bs).len() == spec_block_count(n, bs),
        forall|i: int|
            0 <= i < spec_block_count(n, bs) ==> #[trigger] spec_erase_schedule(n, bs)[i] == i * bs,
        forall|i: int|
            0 <= i < spec_block_count(n, bs) ==> #[trigger] spec_erase_schedule(n, bs)[i] % bs == 0,
        n <= spec_block_count(n, bs) * bs < n + bs,
{
    assert forall|i: int| 0 <= i < spec_block_count(n, bs) implies #[trigger] spec_erase_schedule(
        n,
        bs,
    )[i] % bs == 0 by {
        assert((i * bs) % bs == 0) by (nonlinear_arith)
            requires
                bs >= 1,
        ;
    }
    let c = spec_block_count(n, bs);
    assert(n <= c * bs < n + bs) by (nonlinear_arith)
        requires
            c == (n + bs - 1) / bs,
            n >= 1,
            bs >= 1,
    ;
}

/// The shape of the program schedule: `ceil(n / 256)` chunks, the first at
/// address zero, each starting where the one before it ends, each 256
/// bytes long except for the final chunk which ends exactly at `n` — so
/// the chunks are contiguous, non-overlapping, and cover exactly `[0, n)`.
pub proof fn lemma_prog_schedule_covers(n: int)
    requires
        n >= 1,
    ensures
        spec_prog_schedule(n).len() == spec_chunk_count(n),
        spec_prog_schedule(n)[0].0 == 0,
        forall|i: int|
            0 <= i < spec_chunk_count(n) ==> (#[trigger] spec_prog_schedule(n)[i]).0 == 256 * i,
        forall|i: int|
            0 <= i < spec_chunk_count(n) ==> 1 <= (#[trigger] spec_prog_schedule(n)[i]).1 <= 256,
        forall|i: int|
            0 <= i < spec_chunk_count(n) - 1 ==> (#[trigger] spec_prog_schedule(n)[i]).0
                + spec_prog_schedule(n)[i].1 == spec_prog_schedule(n)[i + 1].0,
        spec_prog_schedule(n)[spec_chunk_count(n) - 1].0 + spec_prog_schedule(n)[spec_chunk_count(
            n,
        ) - 1].1 == n,
{
    let c = spec_chunk_count(n);
    assert forall|i: int| 0 <= i < c implies 1 <= (#[trigger] spec_prog_schedule(n)[i]).1
        <= 256 by {
        assert(256 * i < n) by (nonlinear_arith)
            requires
                i + 1 <= (n + 255) / 256,
        ;
    }
    assert forall|i: int| 0 <= i < c - 1 implies (#[trigger] spec_prog_schedule(n)[i]).0
        + spec_prog_schedule(n)[i].1 == spec_prog_schedule(n)[i + 1].0 by {
        assert(n - 256 * i >= 256) by (nonlinear_arith)
            requires
                i + 2 <= (n + 255) / 256,
        ;
    }
    assert(256 * (c - 1) < n <= 256 * c) by (nonlinear_arith)
        requires
            c == (n + 255) / 256,
            n >= 1,
    ;
}

/// The greatest block-aligned address at or below `offset`.
pub open spec fn spec_erase_begin(offset: int, bs: int) -> int
    recommends
        bs >= 1,
{
    offset - offset % bs
}

/// The least block-aligned address at or above `offset + len`.
pub open spec fn spec_erase_end(offset: int, len: int, bs: int) -> int
    recommends
        bs >= 1,
{
    ((offset + len + bs - 1) / bs) * bs
}

/// The block addresses that must be erased before programming `len` bytes
/// at `offset`: every block-aligned address in
/// `[spec_erase_begin, spec_erase_end)`, in ascending order. The blocks
/// cover the whole programmed range `[offset, offset + len)`.
pub fn erase_addresses(offset: usize, len: usize, block: BlockErase) -> (addrs: Vec<usize>)
    requires
        offset + len <= 0x1000000,
        len >= 1,
    ensures
        ({
            let bs = block.spec_block_size() as int;
            let begin = spec_erase_begin(offset as int, bs);
            let end = spec_erase_end(offset as int, len as int, bs);
            &&& addrs@.len() == (end - begin) / bs
            &&& forall|i: int| 0 <= i < addrs@.len() ==> #[trigger] addrs@[i] == begin + i * bs
            &&& begin <= offset
            &&& end >= offset + len
            &&& addrs@.len() >= 1
        }),
{
    let bs = block.block_size();
    let begin: usize = offset - offset % bs;
    let end: usize = ((offset + len + (bs - 1)) / bs) * bs;
    proof {
        let bsi = bs as int;
        let o = offset as int;
        let l = len as int;
        assert(o % bsi <= o) by (nonlinear_arith)
            requires
                o >= 0,
                bsi >= 1,
        ;
        assert(o + l <= ((o + l + bsi - 1) / bsi) * bsi < o + l + bsi) by (nonlinear_arith)
            requires
                o + l >= 1,
                bsi >= 1,
        ;
        assert(spec_erase_begin(o, bsi) % bsi == 0) by (nonlinear_arith)
            requires
                o >= 0,
                bsi >= 1,
        ;
        assert(spec_erase_end(o, l, bsi) % bsi == 0) by (nonlinear_arith)
            requires
                o + l >= 1,
                bsi >= 1,
        ;
    }
    let mut addrs: Vec<usize> = Vec::new();
    let mut addr: usize = begin;
    while addr < end
        invariant
            begin <= addr <= end,
            end <= 0x1000000 + bs,
            bs == block.spec_block_size(),
            begin as int == spec_erase_begin(offset as int, bs as int),
            end as int == spec_erase_end(offset as int, len as int, bs as int),
            begin as int % (bs as int) == 0,
            end as int % (bs as int) == 0,
            begin <= offset,
            offset + len <= end,
            (addr - begin) % (bs as int) == 0,
            addrs@.len() == (addr - begin) / (bs as int),
            forall|i: int|
                0 <= i < addrs@.len() ==> #[trigger] addrs@[i] == begin + i * (bs as int),
        decreases end - addr,
    {
        proof {
            let bsi = bs as int;
            let d = addr as int - begin;
            assert(d / bsi * bsi == d) by (nonlinear_arith)
                requires
                    d >= 0,
                    bsi >= 1,
                    d % bsi == 0,
            ;
            assert((d + bsi) % bsi == 0 && (d + bsi) / bsi == d / bsi + 1) by (nonlinear_arith)
                requires
                    d >= 0,
                    bsi >= 1,
                    d % bsi == 0,
            ;
        }
        addrs.push(addr);
        addr = addr + bs;
    }
    proof {
        let bsi = bs as int;
        let b = begin as int;
        let en = end as int;
        let span = en - b;
        lemma_fundamental_div_mod(b, bsi);
        lemma_fundamental_div_mod(en, bsi);
        assert(span == (en / bsi - b / bsi) * bsi) by (nonlinear_arith)
            requires
                en == bsi * (en / bsi),
                b == bsi * (b / bsi),
                span == en - b,
        ;
        lemma_mod_multiples_basic(en / bsi - b / bsi, bsi);
        lemma_fundamental_div_mod(span, bsi);
        assert(span / bsi >= 1) by (nonlinear_arith)
            requires
                span == bsi * (span / bsi),
                span >= 1,
                bsi >= 1,
        ;
    }
    addrs
}

/// Whether `data` equals the `data.len()` bytes of `buffer` at `addr`.
fn chunk_matches(buffer: &Vec<u8>, addr: usize, data: &Vec<u8>) -> (eq: bool)
    requires
        addr + data@.len() <= buffer@.len(),
    ensures
        eq == (data@ == buffer@.subrange(addr as int, addr as int + data@.len() as int)),
{
    let ghost whole = buffer@.subrange(addr as int, addr as int + data@.len() as int);
    let total = buffer.len();
    let mut i: usize = 0;
    while i < data.len()
        invariant
            i <= data@.len(),
            total == buffer@.len(),
            addr + data@.len() <= buffer@.len(),
            whole == buffer@.subrange(addr as int, addr as int + data@.len() as int),
            forall|j: int| 0 <= j < i ==> data@[j] == whole[j],
        decreases data@.len() - i,
    {
        if data[i] != buffer[addr + i] {
            proof {
                assert(whole[i as int] == buffer@[addr + i]);
                assert(data@ != whole);
            }
            return false;
        }
        i = i + 1;
    }
    proof {
        assert(data@ =~= whole);
    }
    true
}

} // verus!
