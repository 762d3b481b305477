//! One overwrite job, operation by operation.
//!
//! A [`WipeJob`] walks through the passes of a session. [`WipeJob::step`] takes
//! the result of the last operation on the device and says which operation
//! comes next; the worker that owns the open device performs it.

use vstd::arithmetic::div_mod::{lemma_fundamental_div_mod, lemma_fundamental_div_mod_converse};
use vstd::prelude::*;

use crate::algorithm::{pass_label, pass_models, Pass, PassKind, PassModel};
use crate::device::{Disk, DiskModel};
use crate::engine::{
    skeleton_spec, JobClock, JobReport, JobStatus, Phase, Progress, ProgressModel, ReportModel, SpecModel,
    WipeSpec, CHUNK_SIZE,
};
use crate::prng::{
    lemma_state_after_adds, seed_state, state_after, stream, stream_byte, words_for, Prng,
};
use crate::text::{dec, push_dec, push_text};

verus! {

/// Byte `i` of a pass. A random pass is the stream of its seed, a pattern
/// repeats from byte 0 of the device.
pub open spec fn pass_byte(kind: PassModel, seed: u64, i: nat) -> u8 {
    match kind {
        PassModel::Fill(p) => p[(i % p.len()) as int],
        PassModel::Random => stream_byte(seed_state(seed), i),
    }
}

/// Bytes `from` to `from + n` of a pass.
pub open spec fn pass_bytes(kind: PassModel, seed: u64, from: nat, n: nat) -> Seq<u8> {
    Seq::new(n, |i: int| pass_byte(kind, seed, (from + i) as nat))
}

/// Whether a pass fixes what it writes: every pass but one with an empty
/// pattern does.
pub open spec fn writes_something(kind: PassModel) -> bool {
    kind matches PassModel::Fill(p) ==> p.len() > 0
}

/// A buffer after its first `n` bytes were made those of a pass from `from`
/// on. A pass with an empty pattern leaves the buffer as it is.
#[verifier::opaque]
pub open spec fn chunk_filled(
    buf: Seq<u8>,
    kind: PassModel,
    seed: u64,
    from: nat,
    n: nat,
) -> Seq<u8> {
    if writes_something(kind) {
        pass_bytes(kind, seed, from, n) + buf.skip(n as int)
    } else {
        buf
    }
}

/// Length of the chunk at `pos` of a device of `size` bytes.
pub open spec fn chunk_len(size: nat, pos: nat) -> nat {
    if size - pos < CHUNK_SIZE {
        (size - pos) as nat
    } else {
        CHUNK_SIZE as nat
    }
}

/// The first index at which two sequences of equal length differ; their
/// length where they are equal.
pub open spec fn first_difference(a: Seq<u8>, b: Seq<u8>) -> nat
    decreases a.len(),
{
    if a.len() == 0 || a[0] != b[0] {
        0
    } else {
        1 + first_difference(a.skip(1), b.skip(1))
    }
}

/// Fill `buf` with `pattern` as if the pattern repeats from absolute byte 0 of
/// the device and `buf` starts at absolute offset `abs_off`. Keeps multi-byte
/// patterns (e.g. Gutmann's 0x92 49 24) phase-continuous across chunks even
/// though the chunk size is not a multiple of the pattern length.
pub fn fill_pattern_at(buf: &mut [u8], pattern: &[u8], abs_off: u64)
    requires
        pattern@.len() > 0,
    ensures
        final(buf)@.len() == old(buf)@.len(),
        forall|i: int|
            0 <= i < final(buf)@.len() ==> #[trigger] final(buf)@[i] == pattern@[(abs_off + i)
                % pattern@.len() as int],
{
    let n: usize = buf.len();
    let plen: usize = pattern.len();
    let mut phase: usize = (abs_off % plen as u64) as usize;
    let mut i: usize = 0;
    while i < n
        invariant
            i <= n,
            n == buf@.len(),
            plen == pattern@.len(),
            plen > 0,
            phase < plen,
            phase == (abs_off + i) % plen as int,
            forall|j: int|
                0 <= j < i ==> #[trigger] buf@[j] == pattern@[(abs_off + j) % pattern@.len() as int],
        decreases n - i,
    {
        buf[i] = pattern[phase];
        proof {
            let x = abs_off + i;
            let d = plen as int;
            lemma_fundamental_div_mod(x, d);
            let q = x / d;
            if phase + 1 == plen {
                assert(d * q + d == (q + 1) * d + 0) by (nonlinear_arith);
                lemma_fundamental_div_mod_converse(x + 1, d, q + 1, 0);
            } else {
                assert(d * q == q * d) by (nonlinear_arith);
                lemma_fundamental_div_mod_converse(x + 1, d, q, phase + 1);
            }
        }
        phase += 1;
        if phase == plen {
            phase = 0;
        }
        i += 1;
    }
}

/// The first index at which two equally long slices differ, if they do.
fn find_difference(a: &[u8], b: &[u8]) -> (r: Option<usize>)
    requires
        a@.len() == b@.len(),
    ensures
        r is None <==> a@ == b@,
        r matches Some(k) ==> k == first_difference(a@, b@) && k < a@.len(),
{
    let mut i: usize = 0;
    proof {
        assert(a@.skip(0) =~= a@);
        assert(b@.skip(0) =~= b@);
    }
    while i < a.len()
        invariant
            i <= a@.len(),
            a@.len() == b@.len(),
            a@.take(i as int) == b@.take(i as int),
            first_difference(a@, b@) == i + first_difference(a@.skip(i as int), b@.skip(i as int)),
        decreases a@.len() - i,
    {
        proof {
            assert(a@.skip(i as int)[0] == a@[i as int]);
            assert(b@.skip(i as int)[0] == b@[i as int]);
            assert(a@.skip(i as int).skip(1) =~= a@.skip(i + 1));
            assert(b@.skip(i as int).skip(1) =~= b@.skip(i + 1));
        }
        if a[i] != b[i] {
            assert(a@ != b@);
            return Some(i);
        }
        proof {
            assert(a@.take(i + 1) =~= a@.take(i as int).push(a@[i as int]));
            assert(b@.take(i + 1) =~= b@.take(i as int).push(b@[i as int]));
        }
        i += 1;
    }
    proof {
        assert(a@.take(i as int) =~= a@);
        assert(b@.take(i as int) =~= b@);
    }
    None
}

proof fn lemma_pieces(seed: u64, from: nat, n: nat)
    requires
        from % 8 == 0,
    ensures
        stream(state_after(seed_state(seed), words_for(from)), n) == pass_bytes(
            PassModel::Random,
            seed,
            from,
            n,
        ),
        state_after(state_after(seed_state(seed), words_for(from)), words_for(n)) == state_after(
            seed_state(seed),
            words_for(from + n),
        ),
{
    let st = seed_state(seed);
    let w = words_for(from);
    assert(w == from / 8);
    assert forall|i: int| 0 <= i < n implies #[trigger] stream(state_after(st, w), n)[i]
        == pass_bytes(PassModel::Random, seed, from, n)[i] by {
        lemma_state_after_adds(st, w, (i / 8) as nat);
        assert((from + i) / 8 == w + i / 8);
        assert((from + i) % 8 == i % 8);
    }
    assert(stream(state_after(st, w), n) =~= pass_bytes(PassModel::Random, seed, from, n));
    lemma_state_after_adds(st, w, words_for(n));
    assert(words_for(from + n) == w + words_for(n));
}

/// Makes the first `n` bytes of `buf` those of the pass from `pos` on.
fn fill_chunk(
    buf: &mut Vec<u8>,
    n: usize,
    pass: &Pass,
    prng: &mut Option<Prng>,
    pos: u64,
    Ghost(seed): Ghost<u64>,
)
    requires
        n <= old(buf)@.len(),
        pass@ is Random ==> {
            &&& *old(prng) matches Some(p)
            &&& p@ == state_after(seed_state(seed), words_for(pos as nat))
            &&& pos % 8 == 0
        },
    ensures
        final(buf)@ == chunk_filled(old(buf)@, pass@, seed, pos as nat, n as nat),
        final(buf)@.len() == old(buf)@.len(),
        pass@ is Random ==> {
            &&& *final(prng) matches Some(p)
            &&& p@ == state_after(seed_state(seed), words_for((pos + n) as nat))
        },
{
    let ghost before = buf@;
    reveal(chunk_filled);
    match pass.kind {
        PassKind::Random => {
            let (head, _tail) = buf.as_mut_slice().split_at_mut(n);
            match prng {
                Some(p) => {
                    proof {
                        lemma_pieces(seed, pos as nat, n as nat);
                    }
                    p.fill(head);
                },
                None => {},
            }
            assert(buf@ =~= chunk_filled(before, pass@, seed, pos as nat, n as nat));
        },
        PassKind::Fill(pattern) => {
            if pattern.len() > 0 {
                let (head, _tail) = buf.as_mut_slice().split_at_mut(n);
                fill_pattern_at(head, pattern, pos);
                assert(buf@ =~= chunk_filled(before, pass@, seed, pos as nat, n as nat));
            }
        },
    }
}

/// Why a job stopped before its end.
#[derive(Debug)]
pub enum JobError {
    /// The operator asked for it.
    Cancelled,
    /// An operation on the device failed, by its message.
    Io(String),
    /// What was read back is not what was written.
    Verify { pass: u32, offset: u64 },
}

/// A [`JobError`], with its message as a sequence.
pub enum JobErrorModel {
    Cancelled,
    Io(Seq<char>),
    Verify { pass: u32, offset: u64 },
}

impl View for JobError {
    type V = JobErrorModel;

    open spec fn view(&self) -> JobErrorModel {
        match *self {
            JobError::Cancelled => JobErrorModel::Cancelled,
            JobError::Io(m) => JobErrorModel::Io(m@),
            JobError::Verify { pass, offset } => JobErrorModel::Verify { pass, offset },
        }
    }
}

/// How a job stands.
#[derive(Debug)]
pub enum JobOutcome {
    /// Operations are still to come.
    Running,
    /// Every pass, and every verification, completed.
    Succeeded,
    /// The job stopped early.
    Stopped(JobError),
    /// The operating system had no entropy for a random pass.
    NoEntropy,
}

/// A [`JobOutcome`], with its texts as sequences.
pub enum OutcomeModel {
    Running,
    Succeeded,
    Stopped(JobErrorModel),
    NoEntropy,
}

impl View for JobOutcome {
    type V = OutcomeModel;

    open spec fn view(&self) -> OutcomeModel {
        match *self {
            JobOutcome::Running => OutcomeModel::Running,
            JobOutcome::Succeeded => OutcomeModel::Succeeded,
            JobOutcome::Stopped(e) => OutcomeModel::Stopped(e@),
            JobOutcome::NoEntropy => OutcomeModel::NoEntropy,
        }
    }
}

/// What a job has done so far.
#[derive(Clone, Copy, Debug)]
pub struct Stats {
    /// Bytes of all completed write passes.
    pub bytes_written: u64,
    /// Bytes of all completed verifications.
    pub bytes_verified: u64,
    /// Nanoseconds spent in completed write passes, the final sync included.
    pub write_ns: u64,
    /// Passes written so far.
    pub passes_completed: u32,
}

/// What a job waits for.
#[derive(Clone, Copy, Debug, PartialEq, Eq, Structural)]
pub enum Stage {
    /// The device is being opened.
    Opening,
    /// The device is being rewound for a write pass.
    SeekWrite,
    /// A chunk is being written.
    Writing,
    /// The worker paces itself after a written chunk.
    PaceWrite,
    /// A written pass is being flushed.
    Syncing,
    /// The device is being rewound for a read-back.
    SeekRead,
    /// A chunk is being read.
    Reading,
    /// The worker paces itself after a verified chunk.
    PaceRead,
    /// Nothing more will happen.
    Ended,
}

/// The operation that the worker performs next.
#[derive(Clone, Copy, Debug, PartialEq, Eq, Structural)]
pub enum JobAction {
    /// Open the device.
    Open,
    /// Go to the first byte of the device.
    SeekStart,
    /// Write the job's chunk, which is `len` bytes long.
    WriteChunk { len: usize },
    /// Flush all written bytes to the medium.
    Sync,
    /// Read the next `len` bytes.
    ReadChunk { len: usize },
    /// Wait until `done` bytes of this sweep have taken `done / bps` seconds.
    Pace { done: u64, bps: u64 },
    /// Stop: the job has ended.
    Stop,
}

/// What came of an operation.
#[derive(Debug)]
pub enum JobEvent {
    /// It succeeded.
    Done,
    /// It failed, by its message.
    Error(String),
    /// A read succeeded and gave these bytes.
    Data(Vec<u8>),
}

/// A [`JobEvent`], with its contents as sequences.
pub enum EventModel {
    Done,
    Error(Seq<char>),
    Data(Seq<u8>),
}

impl View for JobEvent {
    type V = EventModel;

    open spec fn view(&self) -> EventModel {
        match *self {
            JobEvent::Done => EventModel::Done,
            JobEvent::Error(m) => EventModel::Error(m@),
            JobEvent::Data(d) => EventModel::Data(d@),
        }
    }
}

/// The state of a job.
pub struct JobModel {
    pub passes: Seq<PassModel>,
    pub flags: Seq<bool>,
    pub size: u64,
    pub throttle_bps: Option<u64>,
    pub stage: Stage,
    /// The pass in flight, counted from 0.
    pub pass: nat,
    /// Bytes of the current sweep that are done.
    pub pos: nat,
    /// Seed of the pass in flight, where it is random.
    pub seed: Option<u64>,
    /// The buffer that chunks are written from and read into.
    pub buf: Seq<u8>,
    /// The buffer that holds what a read must give.
    pub expected: Seq<u8>,
    pub progress: ProgressModel,
    pub stats: Stats,
    /// When the pass in flight began.
    pub pass_started_ns: u64,
    pub outcome: OutcomeModel,
}

impl JobModel {
    /// Length of the chunk in flight.
    pub open spec fn chunk(self) -> nat {
        chunk_len(self.size as nat, self.pos)
    }

    /// The seed, where there is one.
    pub open spec fn seed_or_zero(self) -> u64 {
        match self.seed {
            Some(s) => s,
            None => 0,
        }
    }

    /// The number of the pass in flight, counted from 1.
    pub open spec fn pass_no(self) -> u32 {
        (self.pass + 1) as u32
    }

    /// Whether an event can be the result of the operation in flight: a read
    /// gives as many bytes as were asked for.
    pub open spec fn fits(self, ev: EventModel) -> bool {
        match ev {
            EventModel::Done => self.stage != Stage::Reading,
            EventModel::Error(_) => true,
            EventModel::Data(d) => self.stage == Stage::Reading && d.len() == self.chunk(),
        }
    }
}

/// The job has stopped early.
pub open spec fn stopped(j: JobModel, e: JobErrorModel) -> (JobModel, JobAction) {
    (
        JobModel { stage: Stage::Ended, outcome: OutcomeModel::Stopped(e), ..j },
        JobAction::Stop,
    )
}

/// The job turns to pass `pass`, or has succeeded if there is none.
pub open spec fn begin_pass(j: JobModel, pass: nat, now_ns: u64) -> (JobModel, JobAction) {
    if pass < j.passes.len() {
        (
            JobModel {
                pass,
                stage: Stage::SeekWrite,
                pass_started_ns: now_ns,
                progress: ProgressModel {
                    pass_index: (pass + 1) as u32,
                    pass_label: pass_label(j.passes[pass as int]),
                    phase: Phase::Writing,
                    ..j.progress
                },
                ..j
            },
            JobAction::SeekStart,
        )
    } else {
        (
            JobModel { pass, stage: Stage::Ended, outcome: OutcomeModel::Succeeded, ..j },
            JobAction::Stop,
        )
    }
}

/// The job goes on with the write sweep at its position.
pub open spec fn next_write(j: JobModel, cancel: bool) -> (JobModel, JobAction) {
    if j.pos >= j.size {
        (JobModel { stage: Stage::Syncing, ..j }, JobAction::Sync)
    } else if cancel {
        stopped(j, JobErrorModel::Cancelled)
    } else {
        (
            JobModel {
                stage: Stage::Writing,
                buf: chunk_filled(
                    j.buf,
                    j.passes[j.pass as int],
                    j.seed_or_zero(),
                    j.pos,
                    j.chunk(),
                ),
                ..j
            },
            JobAction::WriteChunk { len: j.chunk() as usize },
        )
    }
}

/// The job goes on with the read-back at its position.
pub open spec fn next_read(j: JobModel, cancel: bool, now_ns: u64) -> (JobModel, JobAction) {
    if j.pos >= j.size {
        begin_pass(
            JobModel {
                stats: Stats {
                    bytes_verified: (j.stats.bytes_verified + j.size) as u64,
                    ..j.stats
                },
                ..j
            },
            j.pass + 1,
            now_ns,
        )
    } else if cancel {
        stopped(j, JobErrorModel::Cancelled)
    } else {
        (
            JobModel {
                stage: Stage::Reading,
                expected: chunk_filled(
                    j.expected,
                    j.passes[j.pass as int],
                    j.seed_or_zero(),
                    j.pos,
                    j.chunk(),
                ),
                ..j
            },
            JobAction::ReadChunk { len: j.chunk() as usize },
        )
    }
}

/// The job after the chunk in flight is done.
pub open spec fn chunk_done(j: JobModel) -> JobModel {
    JobModel {
        pos: j.pos + j.chunk(),
        progress: ProgressModel {
            work_done: j.progress.work_done.wrapping_add(j.chunk() as u64),
            ..j.progress
        },
        ..j
    }
}

/// The job after the pass in flight was written and flushed.
pub open spec fn pass_done(j: JobModel, now_ns: u64) -> JobModel {
    JobModel {
        stats: Stats {
            write_ns: j.stats.write_ns.saturating_add(now_ns.saturating_sub(j.pass_started_ns)),
            bytes_written: (j.stats.bytes_written + j.size) as u64,
            passes_completed: j.pass_no(),
            ..j.stats
        },
        ..j
    }
}

/// The job after the device was rewound for the pass in flight.
pub open spec fn write_rewound(j: JobModel, cancel: bool, seed: Option<u64>) -> (
    JobModel,
    JobAction,
) {
    if j.passes[j.pass as int] is Random {
        match seed {
            Some(s) => next_write(JobModel { pos: 0, seed: Some(s), ..j }, cancel),
            None => (
                JobModel { stage: Stage::Ended, outcome: OutcomeModel::NoEntropy, ..j },
                JobAction::Stop,
            ),
        }
    } else {
        next_write(JobModel { pos: 0, seed: None, ..j }, cancel)
    }
}

/// The job after the chunk in flight was written.
pub open spec fn chunk_written(j: JobModel, cancel: bool) -> (JobModel, JobAction) {
    match j.throttle_bps {
        Some(bps) => (
            JobModel { stage: Stage::PaceWrite, ..chunk_done(j) },
            JobAction::Pace { done: chunk_done(j).pos as u64, bps },
        ),
        None => next_write(chunk_done(j), cancel),
    }
}

/// The job after the pass in flight was flushed.
pub open spec fn pass_flushed(j: JobModel, now_ns: u64) -> (JobModel, JobAction) {
    if j.flags[j.pass as int] {
        (
            JobModel {
                stage: Stage::SeekRead,
                progress: ProgressModel { phase: Phase::Verifying, ..j.progress },
                ..pass_done(j, now_ns)
            },
            JobAction::SeekStart,
        )
    } else {
        begin_pass(pass_done(j, now_ns), j.pass + 1, now_ns)
    }
}

/// The job after the chunk in flight was read back as `data`.
pub open spec fn chunk_read(j: JobModel, data: Seq<u8>, cancel: bool, now_ns: u64) -> (
    JobModel,
    JobAction,
) {
    let want = j.expected.take(j.chunk() as int);
    let read = JobModel { buf: data + j.buf.skip(j.chunk() as int), ..j };
    if data != want {
        stopped(
            read,
            JobErrorModel::Verify {
                pass: j.pass_no(),
                offset: (j.pos + first_difference(data, want)) as u64,
            },
        )
    } else {
        chunk_verified(read, cancel, now_ns)
    }
}

/// The job after the chunk in flight was read back and found right.
pub open spec fn chunk_verified(j: JobModel, cancel: bool, now_ns: u64) -> (JobModel, JobAction) {
    match j.throttle_bps {
        Some(bps) => (
            JobModel { stage: Stage::PaceRead, ..chunk_done(j) },
            JobAction::Pace { done: chunk_done(j).pos as u64, bps },
        ),
        None => next_read(chunk_done(j), cancel, now_ns),
    }
}

/// The job after an event, and the operation that comes next. `cancel` tells
/// whether the operator has asked to stop, `now_ns` is the time, and `seed` is
/// the seed that a random pass would begin with.
pub open spec fn job_after(
    j: JobModel,
    ev: EventModel,
    cancel: bool,
    now_ns: u64,
    seed: Option<u64>,
) -> (JobModel, JobAction) {
    if j.stage == Stage::Ended {
        (j, JobAction::Stop)
    } else if ev is Error {
        stopped(j, JobErrorModel::Io(ev->Error_0))
    } else {
        match j.stage {
            Stage::Opening => begin_pass(j, 0, now_ns),
            Stage::SeekWrite => write_rewound(j, cancel, seed),
            Stage::Writing => chunk_written(j, cancel),
            Stage::PaceWrite => next_write(j, cancel),
            Stage::Syncing => pass_flushed(j, now_ns),
            Stage::SeekRead => next_read(JobModel { pos: 0, ..j }, cancel, now_ns),
            Stage::Reading => chunk_read(j, ev->Data_0, cancel, now_ns),
            Stage::PaceRead => next_read(j, cancel, now_ns),
            Stage::Ended => (j, JobAction::Stop),
        }
    }
}

/// A job that has not begun.
pub open spec fn new_job(
    passes: Seq<PassModel>,
    flags: Seq<bool>,
    size: u64,
    throttle_bps: Option<u64>,
    progress: ProgressModel,
) -> JobModel {
    JobModel {
        passes,
        flags,
        size,
        throttle_bps,
        stage: Stage::Opening,
        pass: 0,
        pos: 0,
        seed: None,
        buf: Seq::new(CHUNK_SIZE as nat, |i: int| 0u8),
        expected: Seq::new(CHUNK_SIZE as nat, |i: int| 0u8),
        progress,
        stats: Stats { bytes_written: 0, bytes_verified: 0, write_ns: 0, passes_completed: 0 },
        pass_started_ns: 0,
        outcome: OutcomeModel::Running,
    }
}

/// Whether the job is in the middle of a pass.
pub open spec fn in_pass(stage: Stage) -> bool {
    stage != Stage::Opening && stage != Stage::Ended
}

/// Whether the pass in flight has not been flushed yet.
pub open spec fn before_flush(stage: Stage) -> bool {
    stage == Stage::SeekWrite || stage == Stage::Writing || stage == Stage::PaceWrite || stage
        == Stage::Syncing
}

/// What holds of every job that has not ended.
pub open spec fn job_consistent(j: JobModel) -> bool {
    &&& j.flags.len() == j.passes.len()
    &&& j.buf.len() == CHUNK_SIZE
    &&& j.expected.len() == CHUNK_SIZE
    &&& j.size * j.passes.len() <= u64::MAX
    &&& j.pos <= j.size
    &&& in_pass(j.stage) ==> {
        &&& j.pass < j.passes.len()
        &&& j.stats.bytes_written == j.size * (if before_flush(j.stage) {
            j.pass
        } else {
            j.pass + 1
        })
        &&& j.stats.bytes_verified <= j.size * j.pass
        &&& j.passes[j.pass as int] is Random && j.stage != Stage::SeekWrite ==> j.seed is Some
    }
    &&& j.stage == Stage::Opening ==> j.stats.bytes_written == 0 && j.stats.bytes_verified == 0
    &&& j.stage == Stage::Writing || j.stage == Stage::Reading ==> j.pos < j.size && j.pos % 8 == 0
    &&& j.stage == Stage::PaceWrite || j.stage == Stage::PaceRead ==> j.pos % 8 == 0 || j.pos
        == j.size
}

/// A chunk that starts on a word ends on one, or at the end of the device.
proof fn lemma_chunk_end(size: nat, pos: nat)
    requires
        pos < size,
        pos % 8 == 0,
    ensures
        pos + chunk_len(size, pos) <= size,
        (pos + chunk_len(size, pos)) % 8 == 0 || pos + chunk_len(size, pos) == size,
{
}

/// An overwrite job of one disk.
pub struct WipeJob {
    passes: Vec<Pass>,
    flags: Vec<bool>,
    size: u64,
    throttle_bps: Option<u64>,
    stage: Stage,
    pass: usize,
    pos: u64,
    seed: Option<u64>,
    prng: Option<Prng>,
    buf: Vec<u8>,
    expected: Vec<u8>,
    progress: Progress,
    stats: Stats,
    pass_started_ns: u64,
    outcome: JobOutcome,
}

impl View for WipeJob {
    type V = JobModel;

    closed spec fn view(&self) -> JobModel {
        JobModel {
            passes: pass_models(self.passes@),
            flags: self.flags@,
            size: self.size,
            throttle_bps: self.throttle_bps,
            stage: self.stage,
            pass: self.pass as nat,
            pos: self.pos as nat,
            seed: self.seed,
            buf: self.buf@,
            expected: self.expected@,
            progress: self.progress@,
            stats: self.stats,
            pass_started_ns: self.pass_started_ns,
            outcome: self.outcome@,
        }
    }
}

impl WipeJob {
    /// The job is consistent, and the generator of a random pass stands where
    /// the sweep stands.
    pub closed spec fn wf(&self) -> bool {
        &&& job_consistent(self@)
        &&& match self.stage {
            Stage::Writing | Stage::Reading => self.prng_at((self.pos + self@.chunk()) as nat),
            Stage::PaceWrite | Stage::PaceRead => self.prng_at(self.pos as nat),
            _ => true,
        }
    }

    spec fn prng_at(&self, at: nat) -> bool {
        self@.passes[self.pass as int] is Random ==> {
            &&& self.prng matches Some(p)
            &&& p@ == state_after(seed_state(self@.seed_or_zero()), words_for(at))
        }
    }

    /// A job that has not begun; its first operation is [`JobAction::Open`].
    pub(crate) fn new(
        passes: Vec<Pass>,
        flags: Vec<bool>,
        size: u64,
        throttle_bps: Option<u64>,
        progress: Progress,
    ) -> (j: WipeJob)
        requires
            flags@.len() == passes@.len(),
            size * passes@.len() <= u64::MAX,
        ensures
            j.wf(),
            j@ == new_job(pass_models(passes@), flags@, size, throttle_bps, progress@),
    {
        let j = WipeJob {
            passes,
            flags,
            size,
            throttle_bps,
            stage: Stage::Opening,
            pass: 0,
            pos: 0,
            seed: None,
            prng: None,
            buf: vec![0u8; CHUNK_SIZE],
            expected: vec![0u8; CHUNK_SIZE],
            progress,
            stats: Stats { bytes_written: 0, bytes_verified: 0, write_ns: 0, passes_completed: 0 },
            pass_started_ns: 0,
            outcome: JobOutcome::Running,
        };
        proof {
            let zeros = Seq::new(CHUNK_SIZE as nat, |i: int| 0u8);
            assert(j.buf@ =~= zeros);
            assert(j.expected@ =~= zeros);
        }
        j
    }

    /// The chunk that a [`JobAction::WriteChunk`] asks to be written.
    pub fn chunk(&self) -> (c: &[u8])
        requires
            self.wf(),
        ensures
            c@ == self@.buf.take(self@.chunk() as int),
    {
        let left: u64 = self.size - self.pos;
        let n: usize = if left < CHUNK_SIZE as u64 { left as usize } else { CHUNK_SIZE };
        let c = vstd::slice::slice_subrange(self.buf.as_slice(), 0, n);
        assert(c@ =~= self@.buf.take(n as int));
        c
    }

    /// The progress to show.
    pub fn progress(&self) -> (p: &Progress)
        ensures
            p@ == self@.progress,
    {
        &self.progress
    }

    /// What the job has done so far.
    pub fn stats(&self) -> (s: Stats)
        ensures
            s == self@.stats,
    {
        self.stats
    }

    /// How the job stands.
    pub fn outcome(&self) -> (o: &JobOutcome)
        ensures
            o@ == self@.outcome,
    {
        &self.outcome
    }

    fn chunk_size(&self) -> (n: usize)
        requires
            self.pos <= self.size,
        ensures
            n == self@.chunk(),
            n <= CHUNK_SIZE,
    {
        let left: u64 = self.size - self.pos;
        if left < CHUNK_SIZE as u64 {
            left as usize
        } else {
            CHUNK_SIZE
        }
    }

    fn next_pass(&self) -> (n: usize)
        requires
            self@.pass < self@.passes.len(),
        ensures
            n == self@.pass + 1,
    {
        assert(self.pass < self.passes.len());
        self.pass + 1
    }

    fn stop(&mut self, e: JobError) -> (a: JobAction)
        ensures
            (final(self)@, a) == stopped(old(self)@, e@),
    {
        self.stage = Stage::Ended;
        self.outcome = JobOutcome::Stopped(e);
        JobAction::Stop
    }

    fn begin(&mut self, pass: usize, now_ns: u64) -> (a: JobAction)
        requires
            old(self)@.flags.len() == old(self)@.passes.len(),
        ensures
            (final(self)@, a) == begin_pass(old(self)@, pass as nat, now_ns),
    {
        self.pass = pass;
        if pass < self.passes.len() {
            assert(self@.passes[pass as int] == self.passes@[pass as int]@);
            let label = self.passes[pass].label();
            self.progress.set_pass(
                #[verifier::truncate]
                ((pass + 1) as u32),
                label,
            );
            self.progress.set_phase(Phase::Writing);
            self.pass_started_ns = now_ns;
            self.stage = Stage::SeekWrite;
            JobAction::SeekStart
        } else {
            self.stage = Stage::Ended;
            self.outcome = JobOutcome::Succeeded;
            JobAction::Stop
        }
    }

    fn go_on_writing(&mut self, cancel: bool) -> (a: JobAction)
        requires
            job_consistent(old(self)@),
            before_flush(old(self)@.stage),
            old(self)@.pos % 8 == 0 || old(self)@.pos == old(self)@.size,
            old(self)@.passes[old(self)@.pass as int] is Random ==> old(self)@.seed is Some,
            old(self).prng_at(old(self)@.pos),
        ensures
            (final(self)@, a) == next_write(old(self)@, cancel),
            final(self).wf(),
    {
        if self.pos >= self.size {
            self.stage = Stage::Syncing;
            return JobAction::Sync;
        }
        if cancel {
            return self.stop(JobError::Cancelled);
        }
        let n: usize = self.chunk_size();
        let pass = self.passes[self.pass];
        let pos: u64 = self.pos;
        let ghost seed = self@.seed_or_zero();
        assert(self@.passes[self.pass as int] == pass@);
        fill_chunk(&mut self.buf, n, &pass, &mut self.prng, pos, Ghost(seed));
        self.stage = Stage::Writing;
        JobAction::WriteChunk { len: n }
    }

    fn go_on_reading(&mut self, cancel: bool, now_ns: u64) -> (a: JobAction)
        requires
            job_consistent(old(self)@),
            in_pass(old(self)@.stage),
            !before_flush(old(self)@.stage),
            old(self)@.pos % 8 == 0 || old(self)@.pos == old(self)@.size,
            old(self)@.passes[old(self)@.pass as int] is Random ==> old(self)@.seed is Some,
            old(self).prng_at(old(self)@.pos),
        ensures
            (final(self)@, a) == next_read(old(self)@, cancel, now_ns),
            final(self).wf(),
    {
        if self.pos >= self.size {
            proof {
                let len = self@.passes.len();
                let k = self@.pass;
                let size = self.size;
                assert(size * k + size == size * (k + 1)) by (nonlinear_arith);
                assert(size * (k + 1) <= size * len) by (nonlinear_arith)
                    requires
                        k + 1 <= len,
                ;
            }
            self.stats.bytes_verified = self.stats.bytes_verified + self.size;
            let next: usize = self.next_pass();
            return self.begin(next, now_ns);
        }
        if cancel {
            return self.stop(JobError::Cancelled);
        }
        let n: usize = self.chunk_size();
        let pass = self.passes[self.pass];
        let pos: u64 = self.pos;
        let ghost seed = self@.seed_or_zero();
        assert(self@.passes[self.pass as int] == pass@);
        fill_chunk(&mut self.expected, n, &pass, &mut self.prng, pos, Ghost(seed));
        self.stage = Stage::Reading;
        JobAction::ReadChunk { len: n }
    }

    fn count_chunk(&mut self)
        requires
            job_consistent(old(self)@),
            old(self)@.pos < old(self)@.size,
        ensures
            final(self)@ == chunk_done(old(self)@),
            final(self).prng == old(self).prng,
    {
        let n: usize = self.chunk_size();
        self.pos = self.pos + n as u64;
        self.progress.add_work(n as u64);
    }

    fn flushed(&mut self, now_ns: u64)
        requires
            job_consistent(old(self)@),
            old(self)@.stage == Stage::Syncing,
        ensures
            final(self)@ == pass_done(old(self)@, now_ns),
            final(self)@.stats.bytes_written == old(self)@.size * (old(self)@.pass + 1),
    {
        proof {
            let len = self@.passes.len();
            let k = self@.pass;
            let size = self.size;
            assert(size * k + size == size * (k + 1)) by (nonlinear_arith);
            assert(size * (k + 1) <= size * len) by (nonlinear_arith)
                requires
                    k + 1 <= len,
            ;
        }
        let spent: u64 = now_ns.saturating_sub(self.pass_started_ns);
        self.stats.write_ns = self.stats.write_ns.saturating_add(spent);
        self.stats.bytes_written = self.stats.bytes_written + self.size;
        let number: usize = self.next_pass();
        self.stats.passes_completed = #[verifier::truncate]
        (number as u32);
    }

    fn check_data(&mut self, data: &Vec<u8>) -> (bad: Option<usize>)
        requires
            job_consistent(old(self)@),
            old(self)@.stage == Stage::Reading,
            data@.len() == old(self)@.chunk(),
        ensures
            final(self)@ == (JobModel {
                buf: data@ + old(self)@.buf.skip(old(self)@.chunk() as int),
                ..old(self)@
            }),
            final(self).prng == old(self).prng,
            ({
                let want = old(self)@.expected.take(old(self)@.chunk() as int);
                &&& bad is None <==> data@ == want
                &&& bad matches Some(k) ==> k == first_difference(data@, want) && k < data@.len()
            }),
    {
        let n: usize = data.len();
        let ghost before = self.buf@;
        let mut i: usize = 0;
        while i < n
            invariant
                i <= n,
                n == data@.len(),
                n <= before.len(),
                self.buf@ == data@.take(i as int) + before.skip(i as int),
                self@ == (JobModel { buf: self.buf@, ..old(self)@ }),
                self.prng == old(self).prng,
            decreases n - i,
        {
            self.buf.set(i, data[i]);
            i += 1;
            assert(self.buf@ =~= data@.take(i as int) + before.skip(i as int));
        }
        assert(data@.take(n as int) =~= data@);
        let want = vstd::slice::slice_subrange(self.expected.as_slice(), 0, n);
        assert(want@ =~= self@.expected.take(n as int));
        find_difference(data.as_slice(), want)
    }

    fn after_seek_write(&mut self, cancel: bool, seed: Option<u64>) -> (a: JobAction)
        requires
            job_consistent(old(self)@),
            old(self)@.stage == Stage::SeekWrite,
        ensures
            final(self).wf(),
            (final(self)@, a) == write_rewound(old(self)@, cancel, seed),
    {
        assert(self@.passes[self.pass as int] == self.passes@[self.pass as int]@);
        match self.passes[self.pass].kind {
            PassKind::Random => {
                match seed {
                    Some(s) => {
                        self.seed = Some(s);
                        self.prng = Some(Prng::from_seed(s));
                    },
                    None => {
                        self.stage = Stage::Ended;
                        self.outcome = JobOutcome::NoEntropy;
                        return JobAction::Stop;
                    },
                }
            },
            PassKind::Fill(_) => {
                self.seed = None;
            },
        }
        self.pos = 0;
        self.go_on_writing(cancel)
    }

    #[verifier::spinoff_prover]
    fn after_write(&mut self, cancel: bool) -> (a: JobAction)
        requires
            old(self).wf(),
            old(self)@.stage == Stage::Writing,
        ensures
            final(self).wf(),
            (final(self)@, a) == chunk_written(old(self)@, cancel),
    {
        let ghost before = self@;
        self.count_chunk();
        self.stage = Stage::PaceWrite;
        proof {
            lemma_chunk_end(before.size as nat, before.pos);
            assert(self@ == JobModel { stage: Stage::PaceWrite, ..chunk_done(before) });
            assert(job_consistent(self@));
        }
        match self.throttle_bps {
            Some(bps) => JobAction::Pace { done: self.pos, bps },
            None => self.go_on_writing(cancel),
        }
    }

    fn after_sync(&mut self, now_ns: u64) -> (a: JobAction)
        requires
            old(self).wf(),
            old(self)@.stage == Stage::Syncing,
        ensures
            final(self).wf(),
            (final(self)@, a) == pass_flushed(old(self)@, now_ns),
    {
        self.flushed(now_ns);
        let next: usize = self.next_pass();
        proof {
            let k = self@.pass;
            let size = self.size;
            assert(size * k <= size * (k + 1)) by (nonlinear_arith);
        }
        if self.flags[self.pass] {
            self.progress.set_phase(Phase::Verifying);
            self.stage = Stage::SeekRead;
            JobAction::SeekStart
        } else {
            self.begin(next, now_ns)
        }
    }

    fn after_seek_read(&mut self, cancel: bool, now_ns: u64) -> (a: JobAction)
        requires
            old(self).wf(),
            old(self)@.stage == Stage::SeekRead,
        ensures
            final(self).wf(),
            (final(self)@, a) == next_read(JobModel { pos: 0, ..old(self)@ }, cancel, now_ns),
    {
        self.pos = 0;
        match self.seed {
            Some(s) => {
                self.prng = Some(Prng::from_seed(s));
            },
            None => {},
        }
        self.go_on_reading(cancel, now_ns)
    }

    #[verifier::spinoff_prover]
    fn after_good_read(&mut self, cancel: bool, now_ns: u64) -> (a: JobAction)
        requires
            old(self).wf(),
            old(self)@.stage == Stage::Reading,
        ensures
            final(self).wf(),
            (final(self)@, a) == chunk_verified(old(self)@, cancel, now_ns),
    {
        let ghost before = self@;
        self.count_chunk();
        self.stage = Stage::PaceRead;
        proof {
            lemma_chunk_end(before.size as nat, before.pos);
            assert(self@ == JobModel { stage: Stage::PaceRead, ..chunk_done(before) });
            assert(job_consistent(self@));
        }
        match self.throttle_bps {
            Some(bps) => JobAction::Pace { done: self.pos, bps },
            None => self.go_on_reading(cancel, now_ns),
        }
    }

    fn after_read(&mut self, data: &Vec<u8>, cancel: bool, now_ns: u64) -> (a: JobAction)
        requires
            old(self).wf(),
            old(self)@.stage == Stage::Reading,
            data@.len() == old(self)@.chunk(),
        ensures
            final(self).wf(),
            (final(self)@, a) == chunk_read(old(self)@, data@, cancel, now_ns),
    {
        match self.check_data(data) {
            Some(k) => {
                let number: usize = self.next_pass();
                let e = JobError::Verify {
                    pass: #[verifier::truncate]
                    (number as u32),
                    offset: self.pos + k as u64,
                };
                self.stop(e)
            },
            None => self.after_good_read(cancel, now_ns),
        }
    }

    /// Hands the result of the last operation to the job and gets the next
    /// one. `seed` is what a random pass that begins now is seeded with.
    pub fn resume(&mut self, ev: JobEvent, cancel: bool, now_ns: u64, seed: Option<u64>) -> (a:
        JobAction)
        requires
            old(self).wf(),
            old(self)@.fits(ev@),
        ensures
            final(self).wf(),
            (final(self)@, a) == job_after(old(self)@, ev@, cancel, now_ns, seed),
    {
        if self.stage == Stage::Ended {
            return JobAction::Stop;
        }
        let data = match ev {
            JobEvent::Error(msg) => {
                return self.stop(JobError::Io(msg));
            },
            JobEvent::Done => Vec::new(),
            JobEvent::Data(d) => d,
        };
        match self.stage {
            Stage::Opening => {
                assert(self.size * 0 == 0) by (nonlinear_arith);
                self.begin(0, now_ns)
            },
            Stage::SeekWrite => self.after_seek_write(cancel, seed),
            Stage::Writing => self.after_write(cancel),
            Stage::PaceWrite => self.go_on_writing(cancel),
            Stage::Syncing => self.after_sync(now_ns),
            Stage::SeekRead => self.after_seek_read(cancel, now_ns),
            Stage::Reading => self.after_read(&data, cancel, now_ns),
            Stage::PaceRead => self.go_on_reading(cancel, now_ns),
            Stage::Ended => JobAction::Stop,
        }
    }

    /// Hands the result of the last operation to the job and gets the next
    /// one. A random pass that begins now is seeded from OS entropy.
    pub fn step(&mut self, ev: JobEvent, cancel: bool, now_ns: u64) -> (a: JobAction)
        requires
            old(self).wf(),
            old(self)@.fits(ev@),
        ensures
            final(self).wf(),
            exists|seed: Option<u64>|
                (final(self)@, a) == #[trigger] job_after(old(self)@, ev@, cancel, now_ns, seed),
    {
        let mut seed: Option<u64> = None;
        if self.stage == Stage::SeekWrite {
            match self.passes[self.pass].kind {
                PassKind::Random => {
                    match Prng::fresh() {
                        Some((_, s)) => {
                            seed = Some(s);
                        },
                        None => {},
                    }
                },
                PassKind::Fill(_) => {},
            }
        }
        self.resume(ev, cancel, now_ns, seed)
    }
}

/// Whether unbuffered I/O can be tried on a device: it needs transfer sizes that
/// are multiples of a sector, so only attempt it when the length cooperates
/// (real block devices always do).
pub fn direct_io_possible(size: u64) -> (b: bool)
    ensures
        b == (size % 512 == 0),
{
    size % 512 == 0
}

/// Whether a failed write is to be tried again with buffered I/O. Filesystems
/// that don't support unbuffered I/O accept the open but refuse the first write
/// as invalid input. Only fall back at offset 0, where no bytes can have landed:
/// a retry rewrites the chunk from scratch with no ambiguity.
pub fn retries_buffered(direct: bool, pos: u64, invalid_input: bool) -> (b: bool)
    ensures
        b == (direct && pos == 0 && invalid_input),
{
    direct && pos == 0 && invalid_input
}

/// How an ended job is recorded.
pub open spec fn outcome_status(o: OutcomeModel) -> JobStatus {
    match o {
        OutcomeModel::Succeeded => JobStatus::Success,
        OutcomeModel::Stopped(JobErrorModel::Cancelled) => JobStatus::Cancelled,
        OutcomeModel::Stopped(JobErrorModel::Verify { .. }) => JobStatus::VerifyFailed,
        _ => JobStatus::Failed,
    }
}

/// The error message of an ended job; a cancelled one has none.
pub open spec fn outcome_error(o: OutcomeModel) -> Option<Seq<char>> {
    match o {
        OutcomeModel::Stopped(JobErrorModel::Io(m)) => Some("I/O error: "@ + m),
        OutcomeModel::Stopped(JobErrorModel::Verify { pass, offset }) => Some(
            "verification mismatch in pass "@ + dec(pass as nat) + " at byte offset "@ + dec(
                offset as nat,
            ),
        ),
        _ => None,
    }
}

/// The progress of an ended job.
pub open spec fn ended_progress(
    p: ProgressModel,
    status: JobStatus,
    error: Option<Seq<char>>,
) -> ProgressModel {
    ProgressModel {
        phase: status.phase_spec(),
        error: if error is Some {
            error
        } else {
            p.error
        },
        ..p
    }
}

/// The report of an ended overwrite job.
pub open spec fn wipe_report(j: JobModel, disk: DiskModel, spec: SpecModel, clock: JobClock) -> ReportModel {
    ReportModel {
        rounds: spec.rounds,
        verify: spec.verify,
        pass_count: j.passes.len() as u32,
        passes_completed: j.stats.passes_completed,
        status: outcome_status(j.outcome),
        error: outcome_error(j.outcome),
        started_unix: clock.started_unix,
        finished_unix: clock.finished_unix,
        duration_ns: clock.duration_ns,
        bytes_written: j.stats.bytes_written,
        bytes_verified: j.stats.bytes_verified,
        write_ns: j.stats.write_ns,
        ..skeleton_spec(disk, spec.scheme.id, spec.scheme.name, false)
    }
}

impl WipeJob {
    /// Closes an ended job of `disk` under `spec`: its last progress, and its
    /// report.
    pub fn finish(&mut self, disk: &Disk, spec: &WipeSpec, clock: JobClock) -> (r: JobReport)
        requires
            old(self)@.outcome is Succeeded || old(self)@.outcome is Stopped,
        ensures
            r@ == wipe_report(old(self)@, disk@, spec@, clock),
            final(self)@ == (JobModel {
                progress: ended_progress(
                    old(self)@.progress,
                    outcome_status(old(self)@.outcome),
                    outcome_error(old(self)@.outcome),
                ),
                ..old(self)@
            }),
    {
        let status = match &self.outcome {
            JobOutcome::Succeeded => JobStatus::Success,
            JobOutcome::Stopped(JobError::Cancelled) => JobStatus::Cancelled,
            JobOutcome::Stopped(JobError::Verify { .. }) => JobStatus::VerifyFailed,
            _ => JobStatus::Failed,
        };
        let error: Option<String> = match &self.outcome {
            JobOutcome::Stopped(JobError::Io(m)) => {
                let mut s = "I/O error: ".to_owned();
                push_text(&mut s, m.as_str());
                Some(s)
            },
            JobOutcome::Stopped(JobError::Verify { pass, offset }) => {
                let mut s = "verification mismatch in pass ".to_owned();
                push_dec(&mut s, *pass as u64);
                push_text(&mut s, " at byte offset ");
                push_dec(&mut s, *offset);
                Some(s)
            },
            _ => None,
        };
        match &error {
            Some(m) => {
                self.progress.set_error(m.clone());
            },
            None => {},
        }
        self.progress.set_phase(status.phase());
        let count: u32 = #[verifier::truncate]
        (self.passes.len() as u32);
        let mut r = JobReport::skeleton(
            disk,
            spec.scheme.id.to_owned(),
            spec.scheme.name.to_owned(),
            false,
        );
        r.rounds = spec.rounds;
        r.verify = spec.verify;
        r.pass_count = count;
        r.passes_completed = self.stats.passes_completed;
        r.status = status;
        r.error = error;
        r.started_unix = clock.started_unix;
        r.finished_unix = clock.finished_unix;
        r.duration_ns = clock.duration_ns;
        r.bytes_written = self.stats.bytes_written;
        r.bytes_verified = self.stats.bytes_verified;
        r.write_ns = self.stats.write_ns;
        r
    }
}

} // verus!
