//! What an overwrite job achieves on a device that does what it is told, and
//! what it reports of one that does not.

use vstd::prelude::*;

use crate::algorithm::PassModel;
use crate::device::DiskModel;
use crate::engine::{
    count_set, law_verified_count, verified_count, wipe_job_spec, JobClock, JobStatus, ProgressModel, SpecModel,
};
use crate::job::{
    before_flush, begin_pass, chunk_done, chunk_filled, chunk_len, first_difference, job_after, new_job, next_read,
    pass_byte, pass_bytes, pass_done, wipe_report, writes_something, EventModel, JobAction, JobErrorModel, JobModel,
    OutcomeModel, Stage,
};

verus! {

/// A device: its contents, and where its next read or write takes place.
pub struct Device {
    pub data: Seq<u8>,
    pub at: nat,
}

/// The device after an operation; `chunk` is what a write writes.
pub open spec fn device_after(d: Device, a: JobAction, chunk: Seq<u8>) -> Device {
    match a {
        JobAction::Open | JobAction::SeekStart => Device { at: 0, ..d },
        JobAction::WriteChunk { len } => Device {
            data: d.data.take(d.at as int) + chunk + d.data.skip((d.at + len) as int),
            at: d.at + len as nat,
        },
        JobAction::ReadChunk { len } => Device { at: d.at + len as nat, ..d },
        JobAction::Sync | JobAction::Pace { .. } | JobAction::Stop => d,
    }
}

/// What an operation on a device that works gives back.
pub open spec fn device_answer(d: Device, a: JobAction) -> EventModel {
    match a {
        JobAction::ReadChunk { len } => EventModel::Data(
            d.data.subrange(d.at as int, (d.at + len) as int),
        ),
        _ => EventModel::Done,
    }
}

/// A job at work on a device: `action` is the operation in flight.
pub struct Run {
    pub job: JobModel,
    pub action: JobAction,
    pub device: Device,
}

/// What the surroundings contribute to a step: the time, and a seed.
pub struct Chance {
    pub now_ns: u64,
    pub seed: u64,
}

/// The device performs the operation in flight and the job takes the result.
pub open spec fn run_step(r: Run, c: Chance) -> Run {
    let chunk = r.job.buf.take(r.job.chunk() as int);
    let next = job_after(
        r.job,
        device_answer(r.device, r.action),
        false,
        c.now_ns,
        Some(c.seed),
    );
    Run { job: next.0, action: next.1, device: device_after(r.device, r.action, chunk) }
}

/// The run after steps `from` to `to`.
pub open spec fn run_steps(r: Run, chances: spec_fn(nat) -> Chance, from: nat, to: nat) -> Run
    decreases to - from,
{
    if to <= from {
        r
    } else {
        run_step(run_steps(r, chances, from, (to - 1) as nat), chances((to - 1) as nat))
    }
}

proof fn lemma_steps_add(r: Run, chances: spec_fn(nat) -> Chance, a: nat, b: nat, c: nat)
    requires
        a <= b <= c,
    ensures
        run_steps(run_steps(r, chances, a, b), chances, b, c) == run_steps(r, chances, a, c),
    decreases c - b,
{
    if b < c {
        lemma_steps_add(r, chances, a, b, (c - 1) as nat);
    }
}

proof fn lemma_one_step(r: Run, chances: spec_fn(nat) -> Chance, i: nat)
    ensures
        run_steps(r, chances, i, i + 1) == run_step(r, chances(i)),
{
    assert(run_steps(r, chances, i, i) == r);
    assert((i + 1 - 1) as nat == i);
}

/// What a job keeps while it works on one pass.
spec fn same_pass(a: JobModel, b: JobModel) -> bool {
    &&& a.passes == b.passes
    &&& a.flags == b.flags
    &&& a.size == b.size
    &&& a.throttle_bps == b.throttle_bps
    &&& a.pass == b.pass
    &&& a.seed == b.seed
    &&& a.stats == b.stats
    &&& a.buf.len() == b.buf.len()
    &&& a.expected.len() == b.expected.len()
    &&& a.outcome == b.outcome
}

/// The job has done `n` more bytes of work.
spec fn worked(a: JobModel, b: JobModel, n: int) -> bool {
    b.progress.work_done == a.progress.work_done + n
}

/// The device keeps its length, and everything behind its first `size` bytes.
pub open spec fn same_rest(before: Device, after: Device, size: u64) -> bool {
    &&& after.data.len() == before.data.len()
    &&& after.data.skip(size as int) == before.data.skip(size as int)
}

spec fn buffers_ok(j: JobModel) -> bool {
    j.buf.len() == crate::engine::CHUNK_SIZE && j.expected.len() == crate::engine::CHUNK_SIZE
}

spec fn kind_of(j: JobModel) -> PassModel {
    j.passes[j.pass as int]
}

proof fn lemma_chunk(buf: Seq<u8>, kind: PassModel, seed: u64, from: nat, n: nat)
    requires
        writes_something(kind),
        n <= buf.len(),
    ensures
        chunk_filled(buf, kind, seed, from, n).take(n as int) == pass_bytes(kind, seed, from, n),
        chunk_filled(buf, kind, seed, from, n).len() == buf.len(),
{
    reveal(chunk_filled);
    assert(chunk_filled(buf, kind, seed, from, n).take(n as int) =~= pass_bytes(
        kind,
        seed,
        from,
        n,
    ));
}

proof fn lemma_bytes_add(kind: PassModel, seed: u64, m: nat, n: nat)
    ensures
        pass_bytes(kind, seed, 0, m) + pass_bytes(kind, seed, m, n) == pass_bytes(
            kind,
            seed,
            0,
            m + n,
        ),
{
    assert(pass_bytes(kind, seed, 0, m) + pass_bytes(kind, seed, m, n) =~= pass_bytes(
        kind,
        seed,
        0,
        m + n,
    ));
}

/// The run stands before the next chunk of a write sweep, with everything
/// before it on the device, or before the flush if nothing is left.
spec fn writing_at(r: Run) -> bool {
    let j = r.job;
    let seed = j.seed_or_zero();
    &&& j.pass < j.passes.len()
    &&& writes_something(kind_of(j))
    &&& buffers_ok(j)
    &&& j.pos <= j.size
    &&& r.device.at == j.pos
    &&& r.device.data.len() >= j.size
    &&& r.device.data.take(j.pos as int) == pass_bytes(kind_of(j), seed, 0, j.pos)
    &&& if j.pos < j.size {
        &&& j.stage == Stage::Writing
        &&& r.action == (JobAction::WriteChunk { len: j.chunk() as usize })
        &&& j.buf.take(j.chunk() as int) == pass_bytes(kind_of(j), seed, j.pos, j.chunk())
    } else {
        &&& j.stage == Stage::Syncing
        &&& r.action == JobAction::Sync
    }
}

proof fn lemma_write_chunk(r: Run, chances: spec_fn(nat) -> Chance, i: nat) -> (k: nat)
    requires
        writing_at(r),
        r.job.pos < r.job.size,
        r.job.progress.work_done + r.job.chunk() <= u64::MAX,
    ensures
        k > i,
        writing_at(run_steps(r, chances, i, k)),
        same_pass(r.job, run_steps(r, chances, i, k).job),
        run_steps(r, chances, i, k).job.pos == r.job.pos + r.job.chunk(),
        worked(r.job, run_steps(r, chances, i, k).job, r.job.chunk() as int),
        same_rest(r.device, run_steps(r, chances, i, k).device, r.job.size),
{
    let j = r.job;
    let kind = kind_of(j);
    let seed = j.seed_or_zero();
    let n = j.chunk();
    let chunk = j.buf.take(n as int);
    let d2 = device_after(r.device, r.action, chunk);
    lemma_one_step(r, chances, i);
    let r1 = run_steps(r, chances, i, i + 1);
    assert(r1.device == d2);
    assert(d2.data.len() == r.device.data.len());
    assert(d2.data.skip(j.size as int) =~= r.device.data.skip(j.size as int));
    lemma_bytes_add(kind, seed, j.pos, n);
    assert(d2.data.take((j.pos + n) as int) =~= r.device.data.take(j.pos as int) + chunk);
    let done = chunk_done(j);
    if done.pos < done.size {
        lemma_chunk(done.buf, kind, seed, done.pos, done.chunk());
    }
    match j.throttle_bps {
        Some(bps) => {
            assert(r1.job.stage == Stage::PaceWrite);
            assert(r1.action is Pace);
            lemma_one_step(r1, chances, i + 1);
            lemma_steps_add(r, chances, i, i + 1, i + 2);
            assert(run_steps(r, chances, i, i + 2).device == d2);
            i + 2
        },
        None => i + 1,
    }
}

proof fn lemma_write_sweep(r: Run, chances: spec_fn(nat) -> Chance, i: nat) -> (k: nat)
    requires
        writing_at(r),
        r.job.progress.work_done + r.job.size - r.job.pos <= u64::MAX,
    ensures
        k >= i,
        writing_at(run_steps(r, chances, i, k)),
        same_pass(r.job, run_steps(r, chances, i, k).job),
        run_steps(r, chances, i, k).job.pos == r.job.size,
        worked(r.job, run_steps(r, chances, i, k).job, r.job.size - r.job.pos),
        same_rest(r.device, run_steps(r, chances, i, k).device, r.job.size),
    decreases r.job.size - r.job.pos,
{
    if r.job.pos < r.job.size {
        let k = lemma_write_chunk(r, chances, i);
        let next = run_steps(r, chances, i, k);
        let end = lemma_write_sweep(next, chances, k);
        lemma_steps_add(r, chances, i, k, end);
        end
    } else {
        i
    }
}

/// The run stands before the next chunk of a read-back of a device that holds
/// exactly the pass in flight, up to the size of the disk.
spec fn reading_at(r: Run) -> bool {
    let j = r.job;
    let seed = j.seed_or_zero();
    &&& j.pass < j.passes.len()
    &&& writes_something(kind_of(j))
    &&& buffers_ok(j)
    &&& j.pos < j.size
    &&& r.device.at == j.pos
    &&& r.device.data.len() >= j.size
    &&& r.device.data.take(j.size as int) == pass_bytes(kind_of(j), seed, 0, j.size as nat)
    &&& j.stage == Stage::Reading
    &&& r.action == (JobAction::ReadChunk { len: j.chunk() as usize })
    &&& j.expected.take(j.chunk() as int) == pass_bytes(kind_of(j), seed, j.pos, j.chunk())
}

/// The run has left the pass of `j`: the next pass begins, or the job has
/// succeeded.
spec fn left_pass(j: JobModel, r: Run, data: Seq<u8>) -> bool {
    let n = r.job;
    &&& n.passes == j.passes
    &&& n.flags == j.flags
    &&& n.size == j.size
    &&& n.throttle_bps == j.throttle_bps
    &&& n.pass == j.pass + 1
    &&& buffers_ok(n)
    &&& r.device.data == data
    &&& if n.pass < n.passes.len() {
        &&& n.stage == Stage::SeekWrite
        &&& n.outcome is Running
        &&& r.action == JobAction::SeekStart
    } else {
        &&& n.stage == Stage::Ended
        &&& n.outcome is Succeeded
        &&& r.action == JobAction::Stop
    }
}

proof fn lemma_read_sweep(r: Run, chances: spec_fn(nat) -> Chance, i: nat) -> (k: nat)
    requires
        reading_at(r),
        r.job.outcome is Running,
        r.job.stats.bytes_verified + r.job.size <= u64::MAX,
        r.job.progress.work_done + r.job.size - r.job.pos <= u64::MAX,
    ensures
        k > i,
        left_pass(r.job, run_steps(r, chances, i, k), r.device.data),
        worked(r.job, run_steps(r, chances, i, k).job, r.job.size - r.job.pos),
        run_steps(r, chances, i, k).job.stats == (crate::job::Stats {
            bytes_verified: (r.job.stats.bytes_verified + r.job.size) as u64,
            ..r.job.stats
        }),
    decreases r.job.size - r.job.pos,
{
    let j = r.job;
    let kind = kind_of(j);
    let seed = j.seed_or_zero();
    let n = j.chunk();
    lemma_one_step(r, chances, i);
    let r1 = run_steps(r, chances, i, i + 1);
    let data = r.device.data.subrange(j.pos as int, (j.pos + n) as int);
    assert(data =~= pass_bytes(kind, seed, j.pos, n)) by {
        assert forall|x: int| 0 <= x < n implies data[x] == pass_byte(
            kind,
            seed,
            (j.pos + x) as nat,
        ) by {
            assert(data[x] == r.device.data.take(j.size as int)[j.pos + x]);
        }
    }
    assert(data == j.expected.take(n as int));
    let read = JobModel { buf: data + j.buf.skip(n as int), ..j };
    assert(read.buf.len() == j.buf.len());
    let done = chunk_done(read);
    assert(r1.device == (Device { at: (j.pos + n) as nat, ..r.device }));
    if done.pos < done.size {
        lemma_chunk(done.expected, kind, seed, done.pos, done.chunk());
    }
    match j.throttle_bps {
        Some(bps) => {
            assert(r1.job == JobModel { stage: Stage::PaceRead, ..done });
            assert(r1.action is Pace);
            lemma_one_step(r1, chances, i + 1);
            let r2 = run_steps(r1, chances, i + 1, i + 2);
            lemma_steps_add(r, chances, i, i + 1, i + 2);
            assert(r2.device == r1.device);
            if done.pos < done.size {
                assert(reading_at(r2));
                let end = lemma_read_sweep(r2, chances, i + 2);
                lemma_steps_add(r, chances, i, i + 2, end);
                end
            } else {
                i + 2
            }
        },
        None => {
            if done.pos < done.size {
                assert(reading_at(r1));
                let end = lemma_read_sweep(r1, chances, i + 1);
                lemma_steps_add(r, chances, i, i + 1, end);
                end
            } else {
                i + 1
            }
        },
    }
}

/// From the rewind of a pass to the point before its flush.
proof fn lemma_pass_written(r: Run, chances: spec_fn(nat) -> Chance, i: nat) -> (k: nat)
    requires
        r.job.stage == Stage::SeekWrite,
        r.action == JobAction::SeekStart,
        r.job.pass < r.job.passes.len(),
        writes_something(kind_of(r.job)),
        buffers_ok(r.job),
        r.device.data.len() >= r.job.size,
        r.job.progress.work_done + r.job.size <= u64::MAX,
    ensures
        k > i,
        ({
            let e = run_steps(r, chances, i, k);
            &&& writing_at(e)
            &&& same_rest(r.device, e.device, r.job.size)
            &&& worked(r.job, e.job, r.job.size as int)
            &&& e.job.pos == e.job.size
            &&& same_pass(JobModel { seed: e.job.seed, ..r.job }, e.job)
            &&& kind_of(r.job) is Random ==> e.job.seed == Some(chances(i).seed)
        }),
{
    let j = r.job;
    let kind = kind_of(j);
    lemma_one_step(r, chances, i);
    let r1 = run_steps(r, chances, i, i + 1);
    let rewound = JobModel {
        pos: 0,
        seed: if kind is Random {
            Some(chances(i).seed)
        } else {
            None
        },
        ..j
    };
    if j.size > 0 {
        lemma_chunk(j.buf, kind, rewound.seed_or_zero(), 0, rewound.chunk());
    }
    assert(r1.device.data.take(0) =~= pass_bytes(kind, r1.job.seed_or_zero(), 0, 0));
    assert(writing_at(r1));
    let k = lemma_write_sweep(r1, chances, i + 1);
    lemma_steps_add(r, chances, i, i + 1, k);
    k
}

/// From the flush of a pass to the next one.
proof fn lemma_pass_flushed(r: Run, chances: spec_fn(nat) -> Chance, i: nat) -> (k: nat)
    requires
        writing_at(r),
        r.job.pos == r.job.size,
        r.job.outcome is Running,
        r.job.flags.len() == r.job.passes.len(),
        r.job.stats.bytes_written + r.job.size <= u64::MAX,
        r.job.stats.bytes_verified + r.job.size <= u64::MAX,
        r.job.flags[r.job.pass as int] ==> r.job.progress.work_done + r.job.size <= u64::MAX,
    ensures
        k > i,
        ({
            let e = run_steps(r, chances, i, k);
            &&& left_pass(r.job, e, r.device.data)
            &&& worked(
                r.job,
                e.job,
                if r.job.flags[r.job.pass as int] {
                    r.job.size as int
                } else {
                    0
                },
            )
            &&& e.job.stats.bytes_written == r.job.stats.bytes_written + r.job.size
            &&& e.job.stats.bytes_verified == r.job.stats.bytes_verified
                + if r.job.flags[r.job.pass as int] {
                r.job.size as int
            } else {
                0
            }
            &&& e.job.stats.passes_completed == r.job.pass_no()
        }),
{
    let j = r.job;
    let kind = kind_of(j);
    let seed = j.seed_or_zero();
    lemma_one_step(r, chances, i);
    let r1 = run_steps(r, chances, i, i + 1);
    if j.flags[j.pass as int] {
        assert(r1.job.stage == Stage::SeekRead);
        lemma_one_step(r1, chances, i + 1);
        lemma_steps_add(r, chances, i, i + 1, i + 2);
        let r2 = run_steps(r, chances, i, i + 2);
        if j.size > 0 {
            lemma_chunk(r1.job.expected, kind, seed, 0, chunk_len(j.size as nat, 0));
            assert(reading_at(r2));
            let end = lemma_read_sweep(r2, chances, i + 2);
            lemma_steps_add(r, chances, i, i + 2, end);
            end
        } else {
            i + 2
        }
    } else {
        i + 1
    }
}

/// The work that the pass in flight takes: its write sweep, and its read-back
/// where it is verified.
spec fn work_of_pass(j: JobModel) -> int {
    if j.flags[j.pass as int] {
        j.size + j.size
    } else {
        j.size as int
    }
}

proof fn lemma_pass(r: Run, chances: spec_fn(nat) -> Chance, i: nat) -> (res: (nat, u64))
    requires
        r.job.stage == Stage::SeekWrite,
        r.action == JobAction::SeekStart,
        r.job.outcome is Running,
        r.job.pass < r.job.passes.len(),
        r.job.flags.len() == r.job.passes.len(),
        writes_something(kind_of(r.job)),
        buffers_ok(r.job),
        r.device.data.len() >= r.job.size,
        r.job.stats.bytes_written + r.job.size <= u64::MAX,
        r.job.stats.bytes_verified + r.job.size <= u64::MAX,
        r.job.progress.work_done + work_of_pass(r.job) <= u64::MAX,
    ensures
        res.0 > i,
        ({
            let e = run_steps(r, chances, i, res.0);
            &&& worked(r.job, e.job, work_of_pass(r.job))
            &&& left_pass(r.job, e, e.device.data)
            &&& holds_pass(e.device, kind_of(r.job), res.1, r.job.size)
            &&& kind_of(r.job) is Random ==> res.1 == chances(i).seed
            &&& same_rest(r.device, e.device, r.job.size)
            &&& e.job.stats.bytes_written == r.job.stats.bytes_written + r.job.size
            &&& e.job.stats.bytes_verified == r.job.stats.bytes_verified
                + if r.job.flags[r.job.pass as int] {
                r.job.size as int
            } else {
                0
            }
            &&& e.job.stats.passes_completed == r.job.pass_no()
        }),
{
    let k = lemma_pass_written(r, chances, i);
    let mid = run_steps(r, chances, i, k);
    let end = lemma_pass_flushed(mid, chances, k);
    lemma_steps_add(r, chances, i, k, end);
    (end, mid.job.seed_or_zero())
}

/// The first `size` bytes of the device are a pass, from its first byte on.
pub open spec fn holds_pass(d: Device, kind: PassModel, seed: u64, size: u64) -> bool {
    d.data.take(size as int) == pass_bytes(kind, seed, 0, size as nat)
}

/// Whether a run has ended in success with its bookkeeping right: `before` is
/// the work that had been done when it began.
pub open spec fn wiped(
    r: Run,
    passes: Seq<PassModel>,
    flags: Seq<bool>,
    size: u64,
    before: u64,
) -> bool {
    &&& r.action == JobAction::Stop
    &&& r.job.outcome is Succeeded
    &&& r.job.progress.work_done == before + size * (passes.len() + count_set(flags))
    &&& r.job.stats.bytes_written == size * passes.len()
    &&& r.job.stats.bytes_verified == size * count_set(flags)
    &&& r.job.stats.passes_completed == passes.len() as u32
}

/// Pass `p` of a run was on the device, from its first byte to its last, after
/// step `at`; a random one was the stream of a seed that was drawn for it alone.
pub open spec fn pass_was_written(
    r: Run,
    chances: spec_fn(nat) -> Chance,
    from: nat,
    at: nat,
    p: int,
    drawn: nat,
) -> bool {
    &&& run_steps(r, chances, from, at).device.data.len() == r.device.data.len()
    &&& holds_pass(
        run_steps(r, chances, from, at).device,
        r.job.passes[p],
        if r.job.passes[p] is Random {
            chances(drawn).seed
        } else {
            0
        },
        r.job.size,
    )
}

/// Of steps that follow each other, the one before step `k`; before the first comes
/// `from`.
pub open spec fn step_before(at: Seq<nat>, from: nat, k: int) -> nat {
    if k <= 0 {
        from
    } else {
        at[k - 1]
    }
}

/// Whether steps follow each other.
pub open spec fn is_increasing(at: Seq<nat>, from: nat) -> bool {
    forall|k: int| 0 <= k < at.len() ==> #[trigger] step_before(at, from, k) < at[k]
}

/// Steps `at` of a run at which one pass after another was complete, the first of
/// them pass `first`; the seed of each was drawn after the pass before it.
pub open spec fn passes_in_turn(
    r: Run,
    chances: spec_fn(nat) -> Chance,
    from: nat,
    first: nat,
    at: Seq<nat>,
) -> bool {
    &&& at.len() == r.job.passes.len() - first
    &&& is_increasing(at, from)
    &&& forall|k: int|
        0 <= k < at.len() ==> pass_was_written(
            r,
            chances,
            from,
            at[k],
            first + k,
            #[trigger] step_before(at, from, k),
        )
}

proof fn lemma_seed_of_fill(d: Device, kind: PassModel, seed: u64, size: u64)
    requires
        holds_pass(d, kind, seed, size),
        !(kind is Random),
    ensures
        holds_pass(d, kind, 0, size),
{
    assert(pass_bytes(kind, seed, 0, size as nat) =~= pass_bytes(kind, 0, 0, size as nat));
}

proof fn lemma_remaining_passes(
    r: Run,
    chances: spec_fn(nat) -> Chance,
    i: nat,
    before: u64,
) -> (res: (Seq<nat>, u64))
    requires
        r.job.stage == Stage::SeekWrite,
        r.action == JobAction::SeekStart,
        r.job.outcome is Running,
        r.job.pass < r.job.passes.len(),
        r.job.flags.len() == r.job.passes.len(),
        forall|p: int| 0 <= p < r.job.passes.len() ==> writes_something(#[trigger] r.job.passes[p]),
        buffers_ok(r.job),
        r.device.data.len() >= r.job.size,
        before + r.job.size * (r.job.passes.len() + count_set(r.job.flags)) <= u64::MAX,
        r.job.stats.bytes_written == r.job.size * r.job.pass,
        r.job.stats.bytes_verified == r.job.size * count_set(r.job.flags.take(r.job.pass as int)),
        r.job.progress.work_done == before + r.job.size * (r.job.pass + count_set(
            r.job.flags.take(r.job.pass as int),
        )),
    ensures
        passes_in_turn(r, chances, i, r.job.pass, res.0),
        ({
            let end = run_steps(r, chances, i, res.0.last());
            &&& wiped(end, r.job.passes, r.job.flags, r.job.size, before)
            &&& holds_pass(end.device, r.job.passes.last(), res.1, r.job.size)
            &&& same_rest(r.device, end.device, r.job.size)
        }),
    decreases r.job.passes.len() - r.job.pass,
{
    let j = r.job;
    let p = j.pass;
    lemma_work_of_pass(j, before);
    let (k, seed) = lemma_pass(r, chances, i);
    let next = run_steps(r, chances, i, k);
    if !(j.passes[p as int] is Random) {
        lemma_seed_of_fill(next.device, j.passes[p as int], seed, j.size);
    }
    assert(pass_was_written(r, chances, i, k, p as int, i));
    if p + 1 < j.passes.len() {
        let (later, last_seed) = lemma_remaining_passes(next, chances, k, before);
        lemma_turns_join(r, chances, i, k, later);
        (seq![k] + later, last_seed)
    } else {
        assert(j.flags.take((p + 1) as int) =~= j.flags);
        assert(passes_in_turn(r, chances, i, p, seq![k]));
        (seq![k], seed)
    }
}

/// The counts of a job before and after the pass in flight.
proof fn lemma_work_of_pass(j: JobModel, before: u64)
    requires
        j.pass < j.passes.len(),
        j.flags.len() == j.passes.len(),
        before + j.size * (j.passes.len() + count_set(j.flags)) <= u64::MAX,
        j.stats.bytes_written == j.size * j.pass,
        j.stats.bytes_verified == j.size * count_set(j.flags.take(j.pass as int)),
        j.progress.work_done == before + j.size * (j.pass + count_set(j.flags.take(j.pass as int))),
    ensures
        j.stats.bytes_written + j.size == j.size * (j.pass + 1),
        j.stats.bytes_verified + (if j.flags[j.pass as int] {
            j.size as int
        } else {
            0
        }) == j.size * count_set(j.flags.take(j.pass as int + 1)),
        j.progress.work_done + work_of_pass(j) == before + j.size * (j.pass + 1 + count_set(
            j.flags.take(j.pass as int + 1),
        )),
        j.stats.bytes_written + j.size <= u64::MAX,
        j.stats.bytes_verified + j.size <= u64::MAX,
        j.progress.work_done + work_of_pass(j) <= u64::MAX,
{
    let size = j.size;
    let p = j.pass;
    let len = j.passes.len();
    let c = count_set(j.flags.take(p as int));
    let all = count_set(j.flags);
    let c2 = count_set(j.flags.take((p + 1) as int));
    lemma_count_bound(j.flags.take(p as int));
    lemma_count_prefix(j.flags, (p + 1) as nat);
    assert(j.flags.take((p + 1) as int).drop_last() =~= j.flags.take(p as int));
    assert(c2 == c + if j.flags[p as int] { 1nat } else { 0nat });
    assert(size * p + size == size * (p + 1)) by (nonlinear_arith);
    assert(size * (p + 1) <= size * (len + all)) by (nonlinear_arith)
        requires
            p + 1 <= len,
    ;
    assert(size * c + size == size * (c + 1)) by (nonlinear_arith);
    assert(size * c <= size * p) by (nonlinear_arith)
        requires
            c <= p,
    ;
    assert(size * (p + 1 + c2) <= size * (len + all)) by (nonlinear_arith)
        requires
            p + 1 <= len,
            c2 <= all,
    ;
    assert(size * (p + 1 + c2) == size * (p + c) + work_of_pass(j)) by {
        assert(size * (p + c + 1) == size * (p + c) + size) by (nonlinear_arith);
        assert(size * (p + c + 2) == size * (p + c) + size + size) by (nonlinear_arith);
    }
}

/// The pass in flight and those after it come in turn.
proof fn lemma_turns_join(
    r: Run,
    chances: spec_fn(nat) -> Chance,
    i: nat,
    k: nat,
    later: Seq<nat>,
)
    requires
        i < k,
        pass_was_written(r, chances, i, k, r.job.pass as int, i),
        r.job.pass + 1 < r.job.passes.len(),
        ({
            let next = run_steps(r, chances, i, k);
            &&& next.job.passes == r.job.passes
            &&& next.job.size == r.job.size
            &&& next.job.pass == r.job.pass + 1
            &&& next.device.data.len() == r.device.data.len()
            &&& passes_in_turn(next, chances, k, next.job.pass, later)
        }),
    ensures
        passes_in_turn(r, chances, i, r.job.pass, seq![k] + later),
        (seq![k] + later).last() == later.last(),
        run_steps(r, chances, i, later.last()) == run_steps(
            run_steps(r, chances, i, k),
            chances,
            k,
            later.last(),
        ),
{
    let next = run_steps(r, chances, i, k);
    let p = r.job.pass;
    let at = seq![k] + later;
    assert forall|x: int| 0 <= x < at.len() implies #[trigger] step_before(at, i, x) < at[x]
        && pass_was_written(r, chances, i, at[x], p + x, step_before(at, i, x)) by {
        if x > 0 {
            assert(at[x] == later[x - 1]);
            assert(step_before(later, k, x - 1) == step_before(at, i, x));
            lemma_increasing(later, k, x - 1);
            lemma_steps_add(r, chances, i, k, at[x]);
            assert(pass_was_written(
                next,
                chances,
                k,
                later[x - 1],
                next.job.pass + (x - 1),
                step_before(later, k, x - 1),
            ));
        }
    }
    lemma_increasing(later, k, later.len() - 1);
    lemma_steps_add(r, chances, i, k, later.last());
}

/// Increasing steps all come after the one that they begin after.
proof fn lemma_increasing(at: Seq<nat>, from: nat, k: int)
    requires
        is_increasing(at, from),
        0 <= k < at.len(),
    ensures
        from < at[k],
    decreases k,
{
    assert(step_before(at, from, k) < at[k]);
    if k > 0 {
        lemma_increasing(at, from, k - 1);
    }
}

proof fn lemma_count_bound(f: Seq<bool>)
    ensures
        count_set(f) <= f.len(),
    decreases f.len(),
{
    if f.len() > 0 {
        lemma_count_bound(f.drop_last());
    }
}

proof fn lemma_count_prefix(f: Seq<bool>, n: nat)
    requires
        n <= f.len(),
    ensures
        count_set(f.take(n as int)) <= count_set(f),
    decreases f.len(),
{
    if n < f.len() {
        lemma_count_prefix(f.drop_last(), n);
        assert(f.drop_last().take(n as int) =~= f.take(n as int));
    } else {
        assert(f.take(n as int) =~= f);
    }
}

/// On a device that works, and with nobody cancelling, a job ends in success:
/// every pass is written, every pass marked for it is read back and found
/// right, and the progress shows the work of all of it. The first `size` bytes of
/// the device are then exactly the last pass; a device that is longer keeps its
/// length and what it holds behind them.
pub proof fn law_working_device_is_wiped(
    passes: Seq<PassModel>,
    flags: Seq<bool>,
    size: u64,
    throttle_bps: Option<u64>,
    progress: ProgressModel,
    device: Device,
    chances: spec_fn(nat) -> Chance,
) -> (res: (nat, u64))
    requires
        flags.len() == passes.len(),
        forall|p: int| 0 <= p < passes.len() ==> writes_something(#[trigger] passes[p]),
        progress.work_done + size * (passes.len() + count_set(flags)) <= u64::MAX,
        device.data.len() >= size,
    ensures
        ({
            let start = Run {
                job: new_job(passes, flags, size, throttle_bps, progress),
                action: JobAction::Open,
                device,
            };
            let end = run_steps(start, chances, 0, res.0);
            &&& wiped(end, passes, flags, size, progress.work_done)
            &&& end.device.data.len() == device.data.len()
            &&& passes.len() > 0 ==> end.device.data.take(size as int) == pass_bytes(
                passes.last(),
                res.1,
                0,
                size as nat,
            )
            &&& end.device.data.skip(size as int) == device.data.skip(size as int)
        }),
{
    let job = new_job(passes, flags, size, throttle_bps, progress);
    let start = Run { job, action: JobAction::Open, device };
    lemma_one_step(start, chances, 0);
    let r1 = run_steps(start, chances, 0, 1);
    assert(size * 0 == 0) by (nonlinear_arith);
    if passes.len() == 0 {
        assert(flags =~= Seq::<bool>::empty());
        assert(count_set(flags) == 0);
        (1, 0)
    } else {
        assert(flags.take(0) =~= Seq::<bool>::empty());
        assert(count_set(flags.take(0)) == 0);
        let (at, seed) = lemma_remaining_passes(r1, chances, 1, progress.work_done);
        lemma_increasing(at, 1, at.len() - 1);
        lemma_steps_add(start, chances, 0, 1, at.last());
        (at.last(), seed)
    }
}

/// A job with passes, from its start to its end on a device that works, one pass
/// after another.
pub(crate) proof fn lemma_whole_run(
    passes: Seq<PassModel>,
    flags: Seq<bool>,
    size: u64,
    throttle_bps: Option<u64>,
    progress: ProgressModel,
    device: Device,
    chances: spec_fn(nat) -> Chance,
) -> (at: Seq<nat>)
    requires
        passes.len() > 0,
        flags.len() == passes.len(),
        forall|p: int| 0 <= p < passes.len() ==> writes_something(#[trigger] passes[p]),
        progress.work_done + size * (passes.len() + count_set(flags)) <= u64::MAX,
        device.data.len() >= size,
    ensures
        at.len() == passes.len(),
        is_increasing(at, 1),
        ({
            let start = Run {
                job: new_job(passes, flags, size, throttle_bps, progress),
                action: JobAction::Open,
                device,
            };
            let end = run_steps(start, chances, 0, at.last());
            &&& wiped(end, passes, flags, size, progress.work_done)
            &&& same_rest(device, end.device, size)
            &&& forall|k: int|
                0 <= k < at.len() ==> pass_was_written(
                    start,
                    chances,
                    0,
                    at[k],
                    k,
                    #[trigger] step_before(at, 1, k),
                )
        }),
{
    let job = new_job(passes, flags, size, throttle_bps, progress);
    let start = Run { job, action: JobAction::Open, device };
    lemma_one_step(start, chances, 0);
    let r1 = run_steps(start, chances, 0, 1);
    assert(size * 0 == 0) by (nonlinear_arith);
    assert(flags.take(0) =~= Seq::<bool>::empty());
    assert(count_set(flags.take(0)) == 0);
    let (at, seed) = lemma_remaining_passes(r1, chances, 1, progress.work_done);
    assert forall|k: int| 0 <= k < at.len() implies pass_was_written(
        start,
        chances,
        0,
        at[k],
        k,
        #[trigger] step_before(at, 1, k),
    ) by {
        lemma_increasing(at, 1, k);
        lemma_steps_add(start, chances, 0, 1, at[k]);
        assert(pass_was_written(r1, chances, 1, at[k], 0 + k, step_before(at, 1, k)));
    }
    lemma_increasing(at, 1, at.len() - 1);
    lemma_steps_add(start, chances, 0, 1, at.last());
    at
}

/// The first difference is where two sequences differ first.
pub proof fn lemma_first_difference(a: Seq<u8>, b: Seq<u8>, k: nat)
    requires
        a.len() == b.len(),
        k < a.len(),
        a[k as int] != b[k as int],
        forall|i: int| 0 <= i < k ==> a[i] == b[i],
    ensures
        first_difference(a, b) == k,
    decreases k,
{
    if k > 0 {
        assert(a.skip(1)[k - 1] == a[k as int]);
        assert(b.skip(1)[k - 1] == b[k as int]);
        lemma_first_difference(a.skip(1), b.skip(1), (k - 1) as nat);
    }
}

/// A read-back of a device that holds the pass in flight up to byte `bad` and
/// something else there ends in a verification failure at exactly that byte,
/// whatever the device holds behind it.
pub proof fn law_tampering_is_found(r: Run, chances: spec_fn(nat) -> Chance, i: nat, bad: nat) -> (k:
    nat)
    requires
        r.job.stage == Stage::Reading,
        r.action == (JobAction::ReadChunk { len: r.job.chunk() as usize }),
        r.job.pass < r.job.passes.len(),
        writes_something(r.job.passes[r.job.pass as int]),
        r.job.buf.len() == crate::engine::CHUNK_SIZE,
        r.job.expected.len() == crate::engine::CHUNK_SIZE,
        r.job.expected.take(r.job.chunk() as int) == pass_bytes(
            r.job.passes[r.job.pass as int],
            r.job.seed_or_zero(),
            r.job.pos,
            r.job.chunk(),
        ),
        r.device.at == r.job.pos,
        r.device.data.len() >= r.job.size,
        r.job.pos <= bad < r.job.size,
        r.device.data[bad as int] != pass_byte(
            r.job.passes[r.job.pass as int],
            r.job.seed_or_zero(),
            bad,
        ),
        forall|b: int|
            r.job.pos <= b < bad ==> #[trigger] r.device.data[b] == pass_byte(
                r.job.passes[r.job.pass as int],
                r.job.seed_or_zero(),
                b as nat,
            ),
    ensures
        k > i,
        run_steps(r, chances, i, k).action == JobAction::Stop,
        run_steps(r, chances, i, k).job.outcome == OutcomeModel::Stopped(
            JobErrorModel::Verify { pass: r.job.pass_no(), offset: bad as u64 },
        ),
        run_steps(r, chances, i, k).device.data == r.device.data,
    decreases r.job.size - r.job.pos,
{
    let j = r.job;
    let kind = kind_of(j);
    let seed = j.seed_or_zero();
    let n = j.chunk();
    let data = r.device.data.subrange(j.pos as int, (j.pos + n) as int);
    let want = pass_bytes(kind, seed, j.pos, n);
    lemma_one_step(r, chances, i);
    let r1 = run_steps(r, chances, i, i + 1);
    if bad < j.pos + n {
        let at = (bad - j.pos) as nat;
        assert(data[at as int] == r.device.data[bad as int]);
        assert(want[at as int] == pass_byte(kind, seed, bad));
        assert forall|x: int| 0 <= x < at implies data[x] == want[x] by {
            assert(data[x] == r.device.data[j.pos + x]);
        }
        lemma_first_difference(data, want, at);
        i + 1
    } else {
        assert forall|x: int| 0 <= x < n implies data[x] == want[x] by {
            assert(data[x] == r.device.data[j.pos + x]);
        }
        assert(data =~= want);
        let read = JobModel { buf: data + j.buf.skip(n as int), ..j };
        assert(read.buf.len() == j.buf.len());
        let done = chunk_done(read);
        assert(done.pos < done.size);
        lemma_chunk(done.expected, kind, seed, done.pos, done.chunk());
        match j.throttle_bps {
            Some(bps) => {
                assert(r1.job == JobModel { stage: Stage::PaceRead, ..done });
                lemma_one_step(r1, chances, i + 1);
                let r2 = run_steps(r1, chances, i + 1, i + 2);
                lemma_steps_add(r, chances, i, i + 1, i + 2);
                let end = law_tampering_is_found(r2, chances, i + 2, bad);
                lemma_steps_add(r, chances, i, i + 2, end);
                end
            },
            None => {
                let end = law_tampering_is_found(r1, chances, i + 1, bad);
                lemma_steps_add(r, chances, i, i + 1, end);
                end
            },
        }
    }
}

proof fn lemma_difference_found(a: Seq<u8>, b: Seq<u8>)
    requires
        a.len() == b.len(),
        a != b,
    ensures
        first_difference(a, b) < a.len(),
        a[first_difference(a, b) as int] != b[first_difference(a, b) as int],
        forall|i: int| 0 <= i < first_difference(a, b) ==> a[i] == b[i],
    decreases a.len(),
{
    if a.len() == 0 {
        assert(a =~= b);
    } else if a[0] == b[0] {
        if a.skip(1) == b.skip(1) {
            assert forall|i: int| 0 <= i < a.len() implies a[i] == b[i] by {
                if i > 0 {
                    assert(a.skip(1)[i - 1] == b.skip(1)[i - 1]);
                }
            }
            assert(a =~= b);
        }
        lemma_difference_found(a.skip(1), b.skip(1));
        let n = first_difference(a, b);
        assert(n == 1 + first_difference(a.skip(1), b.skip(1)));
        assert forall|i: int| 0 <= i < n implies a[i] == b[i] by {
            if i > 0 {
                assert(a.skip(1)[i - 1] == b.skip(1)[i - 1]);
            }
        }
    }
}

/// Verification is exact. Whatever a device holds when the read-back of a pass
/// begins, the job leaves the pass behind if its first bytes, up to the size of
/// the disk, are the pass, and otherwise fails at the first byte that is not the
/// pass's. Reading changes nothing on the device.
pub proof fn law_read_back_is_exact(r: Run, chances: spec_fn(nat) -> Chance, i: nat) -> (k: nat)
    requires
        r.job.stage == Stage::SeekRead,
        r.action == JobAction::SeekStart,
        r.job.outcome is Running,
        r.job.pass < r.job.passes.len(),
        writes_something(r.job.passes[r.job.pass as int]),
        r.job.buf.len() == crate::engine::CHUNK_SIZE,
        r.job.expected.len() == crate::engine::CHUNK_SIZE,
        r.job.stats.bytes_verified + r.job.size <= u64::MAX,
        r.job.progress.work_done + r.job.size <= u64::MAX,
        r.device.data.len() >= r.job.size,
    ensures
        k > i,
        ({
            let want = pass_bytes(
                r.job.passes[r.job.pass as int],
                r.job.seed_or_zero(),
                0,
                r.job.size as nat,
            );
            let got = r.device.data.take(r.job.size as int);
            let end = run_steps(r, chances, i, k);
            &&& end.device.data == r.device.data
            &&& if got == want {
                &&& end.job.pass == r.job.pass + 1
                &&& !(end.job.outcome is Stopped)
                &&& end.job.stats.bytes_verified == r.job.stats.bytes_verified + r.job.size
            } else {
                &&& end.action == JobAction::Stop
                &&& end.job.outcome == OutcomeModel::Stopped(
                    JobErrorModel::Verify {
                        pass: r.job.pass_no(),
                        offset: first_difference(got, want) as u64,
                    },
                )
            }
        }),
{
    let j = r.job;
    let kind = kind_of(j);
    let seed = j.seed_or_zero();
    let want = pass_bytes(kind, seed, 0, j.size as nat);
    let got = r.device.data.take(j.size as int);
    lemma_one_step(r, chances, i);
    let r1 = run_steps(r, chances, i, i + 1);
    if j.size == 0 {
        assert(got =~= want);
        i + 1
    } else {
        lemma_chunk(j.expected, kind, seed, 0, chunk_len(j.size as nat, 0));
        if got == want {
            assert(reading_at(r1));
            let k = lemma_read_sweep(r1, chances, i + 1);
            lemma_steps_add(r, chances, i, i + 1, k);
            k
        } else {
            lemma_difference_found(got, want);
            let bad = first_difference(got, want);
            assert forall|b: int| 0 <= b < bad implies #[trigger] r1.device.data[b] == pass_byte(
                kind,
                seed,
                b as nat,
            ) by {
                assert(want[b] == pass_byte(kind, seed, b as nat));
                assert(got[b] == r1.device.data[b]);
            }
            assert(want[bad as int] == pass_byte(kind, seed, bad));
            assert(got[bad as int] == r1.device.data[bad as int]);
            let k = law_tampering_is_found(r1, chances, i + 1, bad);
            lemma_steps_add(r, chances, i, i + 1, k);
            k
        }
    }
}

/// A cancelled job stops at the next chunk boundary: whatever operation has
/// just been done, no further chunk is written or read.
pub proof fn law_cancel_stops_at_a_chunk(j: JobModel, ev: EventModel, now_ns: u64, seed: Option<u64>)
    requires
        j.fits(ev),
        j.stage != Stage::Ended,
    ensures
        !(job_after(j, ev, true, now_ns, seed).1 is WriteChunk),
        !(job_after(j, ev, true, now_ns, seed).1 is ReadChunk),
{
}

/// An ended job asks for nothing more.
pub proof fn law_ended_job_stays_ended(
    j: JobModel,
    ev: EventModel,
    cancel: bool,
    now_ns: u64,
    seed: Option<u64>,
)
    requires
        j.stage == Stage::Ended,
    ensures
        job_after(j, ev, cancel, now_ns, seed) == (j, JobAction::Stop),
{
}

/// What the surroundings bring to one step of a job.
pub struct JobInput {
    pub ev: EventModel,
    pub cancel: bool,
    pub now_ns: u64,
    pub seed: Option<u64>,
}

/// The job after a sequence of inputs, whatever they are.
pub open spec fn job_run(j: JobModel, inputs: Seq<JobInput>) -> JobModel
    decreases inputs.len(),
{
    if inputs.len() == 0 {
        j
    } else {
        let x = inputs.last();
        job_after(job_run(j, inputs.drop_last()), x.ev, x.cancel, x.now_ns, x.seed).0
    }
}

/// Bytes that have been read back when the passes before `pass` are done.
spec fn verified_before(j: JobModel, pass: nat) -> int {
    j.size * count_set(j.flags.take(pass as int))
}

/// The counts of a job are those of the passes that it has done: `done` passes
/// written, and every marked pass before `pass` read back.
spec fn counts_are(j: JobModel, done: nat, pass: nat) -> bool {
    &&& j.stats.passes_completed == done as u32
    &&& j.stats.bytes_written == j.size * done
    &&& j.stats.bytes_verified == verified_before(j, pass)
}

/// The counts of a job are right wherever it stands, unless it stopped early.
spec fn accounted(j: JobModel) -> bool {
    &&& j.flags.len() == j.passes.len()
    &&& j.size * (j.passes.len() + count_set(j.flags)) <= u64::MAX
    &&& match j.stage {
        Stage::Opening => counts_are(j, 0, 0) && j.outcome is Running,
        Stage::Ended => !(j.outcome is Running) && (j.outcome is Succeeded ==> counts_are(
            j,
            j.passes.len(),
            j.passes.len(),
        )),
        _ => {
            &&& j.outcome is Running
            &&& j.pass < j.passes.len()
            &&& before_flush(j.stage) ==> counts_are(j, j.pass, j.pass)
            &&& !before_flush(j.stage) ==> counts_are(j, j.pass + 1, j.pass)
                && j.flags[j.pass as int]
        },
    }
}

proof fn lemma_pass_begun_accounted(j: JobModel, pass: nat, now_ns: u64)
    requires
        j.flags.len() == j.passes.len(),
        j.size * (j.passes.len() + count_set(j.flags)) <= u64::MAX,
        j.outcome is Running,
        pass <= j.passes.len(),
        counts_are(j, pass, pass),
    ensures
        accounted(begin_pass(j, pass, now_ns).0),
{
}

proof fn lemma_step_accounted(j: JobModel, x: JobInput)
    requires
        accounted(j),
    ensures
        ({
            let after = job_after(j, x.ev, x.cancel, x.now_ns, x.seed).0;
            &&& accounted(after)
            &&& after.passes == j.passes
            &&& after.flags == j.flags
            &&& after.size == j.size
        }),
{
    let size = j.size;
    let p = j.pass;
    let len = j.passes.len();
    if j.stage == Stage::Opening {
        assert(j.flags.take(0) =~= Seq::<bool>::empty());
        lemma_pass_begun_accounted(j, 0, x.now_ns);
    } else if j.stage != Stage::Ended {
        let c = count_set(j.flags.take(p as int));
        let c2 = count_set(j.flags.take((p + 1) as int));
        let all = count_set(j.flags);
        assert(j.flags.take((p + 1) as int).drop_last() =~= j.flags.take(p as int));
        assert(c2 == c + if j.flags[p as int] { 1nat } else { 0nat });
        lemma_count_prefix(j.flags, (p + 1) as nat);
        assert(size * p + size == size * (p + 1)) by (nonlinear_arith);
        assert(size * c + size == size * (c + 1)) by (nonlinear_arith);
        assert(size * (p + 1) <= size * (len + all)) by (nonlinear_arith)
            requires
                p + 1 <= len,
        ;
        assert(size * c2 <= size * (len + all)) by (nonlinear_arith)
            requires
                c2 <= all,
        ;
        match j.stage {
            Stage::Syncing => {
                let done = pass_done(j, x.now_ns);
                assert(counts_are(done, p + 1, p));
                if !j.flags[p as int] {
                    lemma_pass_begun_accounted(done, p + 1, x.now_ns);
                }
            },
            Stage::SeekRead => {
                lemma_next_read_accounted(JobModel { pos: 0, ..j }, x.cancel, x.now_ns);
            },
            Stage::PaceRead => {
                lemma_next_read_accounted(j, x.cancel, x.now_ns);
            },
            Stage::Reading => {
                if x.ev is Data || x.ev is Done {
                    let n = j.chunk();
                    let read = JobModel { buf: x.ev->Data_0 + j.buf.skip(n as int), ..j };
                    lemma_next_read_accounted(chunk_done(read), x.cancel, x.now_ns);
                }
            },
            _ => {},
        }
    }
}

proof fn lemma_next_read_accounted(j: JobModel, cancel: bool, now_ns: u64)
    requires
        accounted(j),
        j.stage != Stage::Opening,
        j.stage != Stage::Ended,
        !before_flush(j.stage),
    ensures
        accounted(next_read(j, cancel, now_ns).0),
{
    let size = j.size;
    let p = j.pass;
    let len = j.passes.len();
    let c = count_set(j.flags.take(p as int));
    let c2 = count_set(j.flags.take((p + 1) as int));
    let all = count_set(j.flags);
    assert(j.flags.take((p + 1) as int).drop_last() =~= j.flags.take(p as int));
    assert(c2 == c + 1);
    lemma_count_prefix(j.flags, (p + 1) as nat);
    assert(size * c + size == size * (c + 1)) by (nonlinear_arith);
    assert(size * c2 <= size * (len + all)) by (nonlinear_arith)
        requires
            c2 <= all,
    ;
    if j.pos >= j.size {
        let read = JobModel {
            stats: crate::job::Stats {
                bytes_verified: (j.stats.bytes_verified + j.size) as u64,
                ..j.stats
            },
            ..j
        };
        lemma_pass_begun_accounted(read, p + 1, now_ns);
    }
}

proof fn lemma_run_accounted(j: JobModel, inputs: Seq<JobInput>)
    requires
        accounted(j),
    ensures
        accounted(job_run(j, inputs)),
        job_run(j, inputs).passes == j.passes,
        job_run(j, inputs).flags == j.flags,
        job_run(j, inputs).size == j.size,
    decreases inputs.len(),
{
    if inputs.len() > 0 {
        lemma_run_accounted(j, inputs.drop_last());
        lemma_step_accounted(job_run(j, inputs.drop_last()), inputs.last());
    }
}

/// A report of success is complete: whatever happened while the job ran, it says
/// that every planned pass was done, and the bytes written and read back are
/// those of the whole session.
pub proof fn law_success_report_is_complete(
    disk: DiskModel,
    spec: SpecModel,
    inputs: Seq<JobInput>,
    clock: JobClock,
)
    requires
        spec.work(disk.size_bytes as nat) <= u64::MAX,
        wipe_report(job_run(wipe_job_spec(disk, spec), inputs), disk, spec, clock).status
            == JobStatus::Success,
    ensures
        ({
            let n = spec.plan().len();
            let r = wipe_report(job_run(wipe_job_spec(disk, spec), inputs), disk, spec, clock);
            &&& r.passes_completed == r.pass_count
            &&& r.bytes_written == disk.size_bytes * n
            &&& r.bytes_verified == disk.size_bytes * verified_count(spec.verify, n)
            &&& r.bytes_written + r.bytes_verified == spec.work(disk.size_bytes as nat)
        }),
{
    let j = wipe_job_spec(disk, spec);
    let n = spec.plan().len();
    let v = verified_count(spec.verify, n);
    let size = disk.size_bytes;
    law_verified_count(spec.verify, n);
    assert(j.flags.take(0) =~= Seq::<bool>::empty());
    assert(count_set(j.flags.take(0)) == 0);
    assert(size * 0 == 0) by (nonlinear_arith);
    assert(accounted(j));
    lemma_run_accounted(j, inputs);
    let end = job_run(j, inputs);
    assert(end.outcome is Succeeded);
    assert(end.stage == Stage::Ended);
    assert(end.flags.take(n as int) =~= end.flags);
    assert(size * (n + v) == size * n + size * v) by (nonlinear_arith);
}

} // verus!
