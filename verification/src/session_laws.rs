//! What an overwrite session does to a disk, and what its report says of it.

use vstd::prelude::*;

use crate::algorithm::{PassModel, VerifyMode};
use crate::device::DiskModel;
use crate::engine::{
    law_plan_length, law_verified_count, repeated, skeleton_spec, verified, wipe_job_spec, JobClock, JobStatus,
    Phase, ProgressModel, ReportModel, SpecModel,
};
use crate::job::{
    ended_progress, job_after, pass_byte, pass_bytes, wipe_report, writes_something, EventModel, JobAction, JobErrorModel,
    JobModel, OutcomeModel, Stage,
};
use crate::prng::{seed_state, stream_byte};
use crate::report::all_ok;
use crate::wipe_laws::{
    device_answer, job_run, law_success_report_is_complete, lemma_whole_run, pass_was_written, run_steps, step_before, Chance,
    Device, JobInput, Run,
};

verus! {

/// How often a session runs through its scheme: at least once.
pub open spec fn effective_rounds(rounds: u32) -> nat {
    if rounds == 0 {
        1
    } else {
        rounds as nat
    }
}

/// Every one of the first `size` bytes of a device is what a pass writes there: a
/// pattern repeats from the first byte on, a random pass is the stream of its
/// seed.
pub open spec fn overwritten(d: Device, pass: PassModel, seed: u64, size: u64) -> bool {
    forall|i: int|
        0 <= i < size ==> #[trigger] d.data[i] == (match pass {
            PassModel::Fill(pattern) => pattern[i % pattern.len() as int],
            PassModel::Random => stream_byte(seed_state(seed), i as nat),
        })
}

/// A session at its start: the job that it begins on a disk, and the device.
pub open spec fn session_start(disk: DiskModel, spec: SpecModel, device: Device) -> Run {
    Run { job: wipe_job_spec(disk, spec), action: JobAction::Open, device }
}

proof fn lemma_repeated_at<A>(s: Seq<A>, n: nat, k: int)
    requires
        s.len() > 0,
        0 <= k < s.len() * n,
    ensures
        repeated(s, n).len() == s.len() * n,
        repeated(s, n)[k] == s[k % s.len() as int],
    decreases n,
{
    let m = s.len() as int;
    assert(m * n == m * (n - 1) + m) by (nonlinear_arith);
    if n == 0 {
        assert(m * n == 0) by (nonlinear_arith)
            requires
                n == 0,
        ;
    } else {
        let less = (n - 1) as nat;
        lemma_repeated_len(s, less);
        if k < m * less {
            lemma_repeated_at(s, less, k);
        } else {
            let x = k - m * less;
            assert(k % m == x) by (nonlinear_arith)
                requires
                    k == m * less + x,
                    0 <= x < m,
            ;
        }
    }
}

proof fn lemma_repeated_len<A>(s: Seq<A>, n: nat)
    ensures
        repeated(s, n).len() == s.len() * n,
    decreases n,
{
    if n > 0 {
        lemma_repeated_len(s, (n - 1) as nat);
        assert(s.len() * n == s.len() * (n - 1) + s.len()) by (nonlinear_arith);
    } else {
        assert(s.len() * n == 0) by (nonlinear_arith)
            requires
                n == 0,
        ;
    }
}

/// The passes of a session are those of the scheme, over and over, as often as
/// there are rounds; behind them comes one more pass exactly if the disk shall be
/// blank at the end.
pub proof fn law_rounds_repeat_the_scheme(spec: SpecModel, k: int)
    requires
        spec.scheme.passes.len() > 0,
        0 <= k < spec.scheme.passes.len() * effective_rounds(spec.rounds),
    ensures
        spec.plan()[k] == spec.scheme.passes[k % spec.scheme.passes.len() as int],
        spec.plan().len() == spec.scheme.passes.len() * effective_rounds(spec.rounds) + (
        if spec.final_blank {
            1int
        } else {
            0int
        }),
{
    law_plan_length(spec.scheme.passes, spec.rounds as nat, spec.final_blank);
    lemma_repeated_at(spec.scheme.passes, effective_rounds(spec.rounds), k);
}

proof fn lemma_plan_writes(spec: SpecModel, p: int)
    requires
        spec.scheme.passes.len() > 0,
        forall|k: int|
            0 <= k < spec.scheme.passes.len() ==> writes_something(
                #[trigger] spec.scheme.passes[k],
            ),
        0 <= p < spec.plan().len(),
    ensures
        writes_something(spec.plan()[p]),
{
    law_plan_length(spec.scheme.passes, spec.rounds as nat, spec.final_blank);
    if p < spec.scheme.passes.len() * effective_rounds(spec.rounds) {
        law_rounds_repeat_the_scheme(spec, p);
        assert(writes_something(spec.scheme.passes[p % spec.scheme.passes.len() as int]));
    }
}

proof fn lemma_overwritten(
    r: Run,
    chances: spec_fn(nat) -> Chance,
    at: nat,
    p: int,
    drawn: nat,
)
    requires
        pass_was_written(r, chances, 0, at, p, drawn),
        writes_something(r.job.passes[p]),
        run_steps(r, chances, 0, at).device.data.len() >= r.job.size,
    ensures
        overwritten(
            run_steps(r, chances, 0, at).device,
            r.job.passes[p],
            chances(drawn).seed,
            r.job.size,
        ),
{
    let d = run_steps(r, chances, 0, at).device;
    let pass = r.job.passes[p];
    let seed = if pass is Random {
        chances(drawn).seed
    } else {
        0
    };
    assert forall|i: int| 0 <= i < r.job.size implies #[trigger] d.data[i] == (match pass {
        PassModel::Fill(pattern) => pattern[i % pattern.len() as int],
        PassModel::Random => stream_byte(seed_state(chances(drawn).seed), i as nat),
    }) by {
        assert(d.data.take(r.job.size as int)[i] == pass_bytes(pass, seed, 0, r.job.size as nat)[i]);
        assert(pass_bytes(pass, seed, 0, r.job.size as nat)[i] == pass_byte(pass, seed, i as nat));
    }
}

/// What the progress of a job says of its extent stays as it was at the start.
proof fn lemma_extent_kept(r: Run, chances: spec_fn(nat) -> Chance, n: nat)
    ensures
        run_steps(r, chances, 0, n).job.progress.work_total == r.job.progress.work_total,
        run_steps(r, chances, 0, n).job.progress.pass_count == r.job.progress.pass_count,
    decreases n,
{
    if n > 0 {
        let last = (n - 1) as nat;
        lemma_extent_kept(r, chances, last);
        let before = run_steps(r, chances, 0, last);
        let c = chances(last);
        lemma_step_keeps_the_plan(
            before.job,
            JobInput {
                ev: device_answer(before.device, before.action),
                cancel: false,
                now_ns: c.now_ns,
                seed: Some(c.seed),
            },
        );
    }
}

/// On a device that works, and with nobody cancelling, a session overwrites the
/// whole disk with each pass of its scheme in turn, as often as there are rounds:
/// after step `at[k]` every byte of the disk is that of pass `k`, a random pass
/// being the stream of the seed that was drawn when it began. It ends in success,
/// with all of its work shown as done, and changes nothing behind the disk's last
/// byte.
pub proof fn law_every_pass_covers_the_disk(
    disk: DiskModel,
    spec: SpecModel,
    device: Device,
    chances: spec_fn(nat) -> Chance,
) -> (at: Seq<nat>)
    requires
        spec.scheme.passes.len() > 0,
        forall|k: int|
            0 <= k < spec.scheme.passes.len() ==> writes_something(
                #[trigger] spec.scheme.passes[k],
            ),
        spec.work(disk.size_bytes as nat) <= u64::MAX,
        device.data.len() >= disk.size_bytes,
    ensures
        ({
            let start = session_start(disk, spec, device);
            let m = spec.scheme.passes.len();
            let body = m * effective_rounds(spec.rounds);
            let end = run_steps(start, chances, 0, at.last());
            &&& at.len() == body + (if spec.final_blank { 1int } else { 0int })
            &&& forall|k: int| 0 <= k < at.len() ==> #[trigger] step_before(at, 1, k) < at[k]
            &&& forall|k: int|
                0 <= k < body ==> overwritten(
                    run_steps(start, chances, 0, at[k]).device,
                    spec.scheme.passes[k % m as int],
                    chances(#[trigger] step_before(at, 1, k)).seed,
                    disk.size_bytes,
                )
            &&& end.action == JobAction::Stop
            &&& end.job.outcome is Succeeded
            &&& disk.size_bytes > 0 ==> end.job.progress.work_done == end.job.progress.work_total
            &&& end.device.data.len() == device.data.len()
            &&& end.device.data.skip(disk.size_bytes as int) == device.data.skip(
                disk.size_bytes as int,
            )
            &&& spec.final_blank ==> forall|i: int|
                0 <= i < disk.size_bytes ==> #[trigger] end.device.data[i] == 0x00
        }),
{
    let start = session_start(disk, spec, device);
    let passes = spec.plan();
    let flags = verified(spec.verify, passes.len());
    let size = disk.size_bytes;
    let m = spec.scheme.passes.len();
    let body = m * effective_rounds(spec.rounds);
    law_verified_count(spec.verify, passes.len());
    law_plan_length(spec.scheme.passes, spec.rounds as nat, spec.final_blank);
    assert(body >= 1) by (nonlinear_arith)
        requires
            m >= 1,
            effective_rounds(spec.rounds) >= 1,
            body == m * effective_rounds(spec.rounds),
    ;
    assert forall|p: int| 0 <= p < passes.len() implies writes_something(#[trigger] passes[p]) by {
        lemma_plan_writes(spec, p);
    }
    let at = lemma_whole_run(
        passes,
        flags,
        size,
        disk.throttle_bps,
        start.job.progress,
        device,
        chances,
    );
    assert forall|k: int| 0 <= k < at.len() implies overwritten(
        run_steps(start, chances, 0, at[k]).device,
        passes[k],
        chances(#[trigger] step_before(at, 1, k)).seed,
        size,
    ) by {
        lemma_overwritten(start, chances, at[k], k, step_before(at, 1, k));
    }
    assert forall|k: int| 0 <= k < body implies overwritten(
        run_steps(start, chances, 0, at[k]).device,
        spec.scheme.passes[k % m as int],
        chances(#[trigger] step_before(at, 1, k)).seed,
        size,
    ) by {
        law_rounds_repeat_the_scheme(spec, k);
    }
    let end = run_steps(start, chances, 0, at.last());
    lemma_extent_kept(start, chances, at.last());
    if size > 0 {
        let units = passes.len() + flags.len();
        assert(size * (passes.len() + crate::engine::count_set(flags)) > 0) by (nonlinear_arith)
            requires
                size > 0,
                passes.len() > 0,
        ;
    }
    if spec.final_blank {
        assert forall|i: int| 0 <= i < size implies #[trigger] end.device.data[i] == 0x00 by {
            assert(at[body as int] == at.last());
            let drawn = step_before(at, 1, body as int);
            assert(passes[body as int] == PassModel::Fill(seq![0x00u8]));
            assert(i % 1 == 0);
        }
    }
    at
}

/// A job that no longer runs has stopped.
proof fn lemma_settled(r: Run, chances: spec_fn(nat) -> Chance, n: nat)
    requires
        r.job.outcome is Running,
    ensures
        !(run_steps(r, chances, 0, n).job.outcome is Running) ==> run_steps(r, chances, 0, n).job.stage
            == Stage::Ended && run_steps(r, chances, 0, n).action == JobAction::Stop,
    decreases n,
{
    if n > 0 {
        lemma_settled(r, chances, (n - 1) as nat);
    }
}

/// A job that has stopped leaves the device alone.
proof fn lemma_stopped_for_good(r: Run, chances: spec_fn(nat) -> Chance, m: nat, n: nat)
    requires
        m <= n,
        run_steps(r, chances, 0, m).job.stage == Stage::Ended,
        run_steps(r, chances, 0, m).action == JobAction::Stop,
    ensures
        run_steps(r, chances, 0, n) == run_steps(r, chances, 0, m),
    decreases n - m,
{
    if m < n {
        lemma_stopped_for_good(r, chances, m, (n - 1) as nat);
    }
}

/// A session with the final blank leaves a disk that reads blank: whenever its job
/// has succeeded on a device that works, every byte of the disk is zero, whatever
/// the scheme and however many rounds.
pub proof fn law_blanked_disk_reads_zero(
    disk: DiskModel,
    spec: SpecModel,
    device: Device,
    chances: spec_fn(nat) -> Chance,
    n: nat,
    i: int,
)
    requires
        spec.final_blank,
        spec.scheme.passes.len() > 0,
        forall|k: int|
            0 <= k < spec.scheme.passes.len() ==> writes_something(
                #[trigger] spec.scheme.passes[k],
            ),
        spec.work(disk.size_bytes as nat) <= u64::MAX,
        device.data.len() >= disk.size_bytes,
        run_steps(session_start(disk, spec, device), chances, 0, n).job.outcome is Succeeded,
        0 <= i < disk.size_bytes,
    ensures
        run_steps(session_start(disk, spec, device), chances, 0, n).device.data[i] == 0x00,
{
    let start = session_start(disk, spec, device);
    let at = law_every_pass_covers_the_disk(disk, spec, device, chances);
    lemma_settled(start, chances, n);
    lemma_settled(start, chances, at.last());
    if n <= at.last() {
        lemma_stopped_for_good(start, chances, n, at.last());
    } else {
        lemma_stopped_for_good(start, chances, at.last(), n);
    }
    assert(run_steps(start, chances, 0, at.last()).device.data[i] == 0x00);
}

/// The report of an overwrite states the verification policy that the operator
/// chose, whatever the scheme's own: it says off exactly if no pass was marked for
/// a read-back, all passes only if every pass was, and last pass only if the last
/// pass, and no other, was.
pub proof fn law_report_states_the_policy(
    disk: DiskModel,
    spec: SpecModel,
    inputs: Seq<JobInput>,
    clock: JobClock,
)
    requires
        spec.scheme.passes.len() > 0,
    ensures
        ({
            let j = job_run(wipe_job_spec(disk, spec), inputs);
            let r = wipe_report(j, disk, spec, clock);
            let n = j.passes.len();
            &&& r.verify == spec.verify
            &&& j.flags.len() == n > 0
            &&& r.verify == VerifyMode::Off <==> forall|i: int| 0 <= i < n ==> !#[trigger] j.flags[i]
            &&& r.verify == VerifyMode::AllPasses ==> forall|i: int|
                0 <= i < n ==> #[trigger] j.flags[i]
            &&& n > 1 && (forall|i: int| 0 <= i < n ==> #[trigger] j.flags[i]) ==> r.verify
                == VerifyMode::AllPasses
            &&& r.verify == VerifyMode::LastPass ==> forall|i: int|
                0 <= i < n ==> (#[trigger] j.flags[i] <==> i == n - 1)
        }),
{
    let start = wipe_job_spec(disk, spec);
    let j = job_run(start, inputs);
    lemma_run_keeps_the_plan(start, inputs);
    law_plan_length(spec.scheme.passes, spec.rounds as nat, spec.final_blank);
    let n = j.passes.len();
    let m = spec.scheme.passes.len();
    let rounds = effective_rounds(spec.rounds);
    assert(m * rounds >= 1) by (nonlinear_arith)
        requires
            m >= 1,
            rounds >= 1,
    ;
    assert(j.flags[n - 1] == verified(spec.verify, n)[n - 1]);
    assert(j.flags[0] == verified(spec.verify, n)[0]);
}

/// No event changes what a job is to do.
#[verifier::spinoff_prover]
proof fn lemma_step_keeps_the_plan(j: JobModel, x: JobInput)
    ensures
        job_after(j, x.ev, x.cancel, x.now_ns, x.seed).0.passes == j.passes,
        job_after(j, x.ev, x.cancel, x.now_ns, x.seed).0.flags == j.flags,
        job_after(j, x.ev, x.cancel, x.now_ns, x.seed).0.size == j.size,
        job_after(j, x.ev, x.cancel, x.now_ns, x.seed).0.progress.work_total == j.progress.work_total,
        job_after(j, x.ev, x.cancel, x.now_ns, x.seed).0.progress.pass_count == j.progress.pass_count,
{
}

proof fn lemma_run_keeps_the_plan(j: JobModel, inputs: Seq<JobInput>)
    ensures
        job_run(j, inputs).passes == j.passes,
        job_run(j, inputs).flags == j.flags,
        job_run(j, inputs).size == j.size,
    decreases inputs.len(),
{
    if inputs.len() > 0 {
        lemma_run_keeps_the_plan(j, inputs.drop_last());
        lemma_step_keeps_the_plan(job_run(j, inputs.drop_last()), inputs.last());
    }
}

/// A report of success tells how much was read back: nothing with the
/// verification off, the disk once if the last pass was verified, and as much as
/// was written if every pass was.
pub proof fn law_success_report_tells_what_was_verified(
    disk: DiskModel,
    spec: SpecModel,
    inputs: Seq<JobInput>,
    clock: JobClock,
)
    requires
        spec.scheme.passes.len() > 0,
        spec.work(disk.size_bytes as nat) <= u64::MAX,
        wipe_report(job_run(wipe_job_spec(disk, spec), inputs), disk, spec, clock).status
            == JobStatus::Success,
    ensures
        ({
            let r = wipe_report(job_run(wipe_job_spec(disk, spec), inputs), disk, spec, clock);
            let m = spec.scheme.passes.len() * effective_rounds(spec.rounds);
            let n = m + if spec.final_blank { 1int } else { 0int };
            &&& r.bytes_written == disk.size_bytes * n
            &&& n <= u32::MAX ==> r.passes_completed == n && r.pass_count == n
            &&& r.verify == VerifyMode::Off ==> r.bytes_verified == 0
            &&& r.verify == VerifyMode::LastPass ==> r.bytes_verified == disk.size_bytes
            &&& r.verify == VerifyMode::AllPasses ==> r.bytes_verified == r.bytes_written
        }),
{
    law_success_report_is_complete(disk, spec, inputs, clock);
    law_plan_length(spec.scheme.passes, spec.rounds as nat, spec.final_blank);
    lemma_run_keeps_the_plan(wipe_job_spec(disk, spec), inputs);
    let size = disk.size_bytes;
    let m = spec.scheme.passes.len();
    let rounds = effective_rounds(spec.rounds);
    assert(m * rounds >= 1) by (nonlinear_arith)
        requires
            m >= 1,
            rounds >= 1,
    ;
    assert(size * 0 == 0 && size * 1 == size) by (nonlinear_arith);
}

/// A report identifies its disk, its method and its time, counts as an overwrite, and
/// tells what the job has counted.
pub proof fn law_report_identifies_the_job(
    j: JobModel,
    disk: DiskModel,
    spec: SpecModel,
    clock: JobClock,
)
    ensures
        ({
            let r = wipe_report(j, disk, spec, clock);
            &&& r.disk_name == disk.name
            &&& r.disk_model == disk.model
            &&& r.disk_serial == disk.serial
            &&& r.disk_size_bytes == disk.size_bytes
            &&& r.method_id == spec.scheme.id
            &&& r.method_name == spec.scheme.name
            &&& r.rounds == spec.rounds
            &&& !r.firmware
            &&& r.started_unix == clock.started_unix
            &&& r.finished_unix == clock.finished_unix
            &&& r.duration_ns == clock.duration_ns
            &&& r.pass_count == j.passes.len() as u32
            &&& r.passes_completed == j.stats.passes_completed
            &&& r.bytes_written == j.stats.bytes_written
            &&& r.bytes_verified == j.stats.bytes_verified
            &&& r.write_ns == j.stats.write_ns
        }),
{
}

/// A report tells how its job ended: success only if it got to its end, a failed
/// verification exactly if a read-back did not match, with the pass and the byte
/// in its message, and otherwise a cancellation or the error that stopped it.
pub proof fn law_report_tells_the_outcome(
    j: JobModel,
    disk: DiskModel,
    spec: SpecModel,
    clock: JobClock,
)
    ensures
        ({
            let r = wipe_report(j, disk, spec, clock);
            &&& r.status == JobStatus::Success <==> j.outcome is Succeeded
            &&& r.status == JobStatus::Cancelled <==> j.outcome == OutcomeModel::Stopped(
                JobErrorModel::Cancelled,
            )
            &&& r.status == JobStatus::VerifyFailed <==> (j.outcome matches OutcomeModel::Stopped(e)
                && e is Verify)
            &&& r.status == JobStatus::Success || r.status == JobStatus::Cancelled ==> r.error is None
            &&& (j.outcome matches OutcomeModel::Stopped(JobErrorModel::Io(m)) ==> {
                &&& r.status == JobStatus::Failed
                &&& r.error matches Some(e) && m.is_suffix_of(e)
            })
            &&& (j.outcome matches OutcomeModel::Stopped(JobErrorModel::Verify { pass, offset })
                ==> r.error == Some(
                "verification mismatch in pass "@ + crate::text::dec(pass as nat)
                    + " at byte offset "@ + crate::text::dec(offset as nat),
            ))
        }),
{
    let r = wipe_report(j, disk, spec, clock);
    if let OutcomeModel::Stopped(JobErrorModel::Io(m)) = j.outcome {
        let e = r.error->0;
        assert(e.subrange(e.len() - m.len(), e.len() as int) =~= m);
    }
}

/// What a job shows of itself is where it stands: the number of the pass in
/// flight, what that pass writes, and whether it is being written or read back.
pub open spec fn shows_where_it_stands(j: JobModel) -> bool {
    match j.stage {
        Stage::Opening => j.progress.phase == Phase::Queued && j.progress.pass_index == 0,
        Stage::Ended => true,
        _ => {
            &&& j.pass < j.passes.len()
            &&& j.progress.pass_index == (j.pass + 1) as u32
            &&& j.passes[j.pass as int] is Random ==> j.progress.pass_label == "random"@
            &&& j.passes[j.pass as int] == PassModel::Fill(seq![0x00u8]) ==> j.progress.pass_label
                == "zeros (0x00)"@
            &&& j.passes[j.pass as int] == PassModel::Fill(seq![0xFFu8]) ==> j.progress.pass_label
                == "ones (0xFF)"@
            &&& j.progress.phase == (match j.stage {
                Stage::SeekRead | Stage::Reading | Stage::PaceRead => Phase::Verifying,
                _ => Phase::Writing,
            })
        },
    }
}

/// A pass that is being read back is marked for it.
pub open spec fn reads_marked(j: JobModel) -> bool {
    j.stage == Stage::SeekRead || j.stage == Stage::Reading || j.stage == Stage::PaceRead
        ==> j.flags[j.pass as int]
}

/// Whatever happens to a job, it shows where it stands, and it reads back only
/// passes that are marked for it.
pub proof fn law_progress_tells_the_truth(disk: DiskModel, spec: SpecModel, inputs: Seq<JobInput>)
    ensures
        ({
            let j = job_run(wipe_job_spec(disk, spec), inputs);
            &&& shows_where_it_stands(j)
            &&& j.progress.pass_count == spec.plan().len() as u32
            &&& reads_marked(j)
        }),
    decreases inputs.len(),
{
    if inputs.len() > 0 {
        law_progress_tells_the_truth(disk, spec, inputs.drop_last());
        let j = job_run(wipe_job_spec(disk, spec), inputs.drop_last());
        let x = inputs.last();
        lemma_run_keeps_the_plan(wipe_job_spec(disk, spec), inputs.drop_last());
        lemma_step_keeps_the_plan(j, x);
        lemma_shows_on(j, x);
    }
}

#[verifier::spinoff_prover]
proof fn lemma_shows_on(j: JobModel, x: JobInput)
    requires
        shows_where_it_stands(j),
    ensures
        shows_where_it_stands(job_after(j, x.ev, x.cancel, x.now_ns, x.seed).0),
        reads_marked(j) ==> reads_marked(job_after(j, x.ev, x.cancel, x.now_ns, x.seed).0),
{
    let zero = seq![0x00u8];
    let ones = seq![0xFFu8];
    assert(zero[0] != ones[0]);
}

/// An operation that fails stops the job with that error, wherever it stands.
pub proof fn law_error_stops_the_job(
    j: JobModel,
    message: Seq<char>,
    cancel: bool,
    now_ns: u64,
    seed: Option<u64>,
)
    requires
        j.stage != Stage::Ended,
    ensures
        ({
            let (n, a) = job_after(j, EventModel::Error(message), cancel, now_ns, seed);
            &&& a == JobAction::Stop
            &&& n.stage == Stage::Ended
            &&& n.outcome == OutcomeModel::Stopped(JobErrorModel::Io(message))
            &&& n.stats == j.stats
        }),
{
}

/// A job that is asked to stop does so before its next chunk, as cancelled and not as
/// a success; one that has no chunk left in its sweep goes on to the end of it.
pub proof fn law_cancelled_job_says_so(j: JobModel, ev: EventModel, now_ns: u64, seed: Option<u64>)
    requires
        j.stage == Stage::PaceWrite || j.stage == Stage::PaceRead,
        j.pos < j.size,
        ev is Done,
    ensures
        job_after(j, ev, true, now_ns, seed).0.outcome == OutcomeModel::Stopped(
            JobErrorModel::Cancelled,
        ),
        job_after(j, ev, true, now_ns, seed).1 == JobAction::Stop,
{
}

/// Without a seed no random pass is written.
pub proof fn law_no_random_pass_without_a_seed(j: JobModel, cancel: bool, now_ns: u64)
    requires
        j.stage == Stage::SeekWrite,
        j.pass < j.passes.len(),
        j.passes[j.pass as int] is Random,
    ensures
        job_after(j, EventModel::Done, cancel, now_ns, None).1 == JobAction::Stop,
        job_after(j, EventModel::Done, cancel, now_ns, None).0.outcome is NoEntropy,
{
}

/// A pass counts once it has been flushed to the medium, and its time is that from
/// its beginning to the end of the flush; nothing else counts a pass or time.
pub proof fn law_passes_count_once_flushed(
    j: JobModel,
    ev: EventModel,
    cancel: bool,
    now_ns: u64,
    seed: Option<u64>,
)
    requires
        j.stage != Stage::Ended,
        !(ev is Error),
    ensures
        ({
            let (n, a) = job_after(j, ev, cancel, now_ns, seed);
            &&& n.stage == Stage::Syncing && j.stage != Stage::Syncing ==> a == JobAction::Sync
            &&& j.stage != Stage::Syncing ==> n.stats.passes_completed == j.stats.passes_completed
                && n.stats.bytes_written == j.stats.bytes_written && n.stats.write_ns
                == j.stats.write_ns
            &&& j.stage == Stage::Syncing ==> {
                &&& n.stats.passes_completed == (j.pass + 1) as u32
                &&& j.pass_started_ns <= now_ns && j.stats.write_ns + (now_ns - j.pass_started_ns)
                    <= u64::MAX ==> n.stats.write_ns == j.stats.write_ns + (now_ns
                    - j.pass_started_ns)
            }
            &&& n.stage == Stage::SeekWrite && j.stage != Stage::SeekWrite ==> n.pass_started_ns
                == now_ns && a == JobAction::SeekStart
        }),
{
}

/// A session counts as a success only if every one of its jobs does: one report with
/// another outcome spoils it.
pub proof fn law_one_failure_spoils_the_session(jobs: Seq<ReportModel>, i: int)
    requires
        0 <= i < jobs.len(),
    ensures
        jobs[i].status != JobStatus::Success ==> !all_ok(jobs),
        (forall|k: int| 0 <= k < jobs.len() ==> (#[trigger] jobs[k]).status == JobStatus::Success)
            ==> all_ok(jobs),
{
}

/// A job of which nothing is known, such as one whose worker panicked, is recorded as
/// failed and with nothing done, under the name of its disk.
pub proof fn law_unknown_job_counts_as_failed(
    disk: DiskModel,
    id: Seq<char>,
    name: Seq<char>,
    firmware: bool,
)
    ensures
        ({
            let r = skeleton_spec(disk, id, name, firmware);
            &&& r.status == JobStatus::Failed
            &&& r.passes_completed == 0 && r.bytes_written == 0 && r.bytes_verified == 0
            &&& r.disk_name == disk.name && r.disk_serial == disk.serial && r.disk_model == disk.model
            &&& r.method_id == id && r.method_name == name && r.firmware == firmware
        }),
{
}

/// A job that has ended shows it: done, cancelled or failed, as its report says, with
/// the error that stopped it.
pub proof fn law_ended_job_shows_its_outcome(p: ProgressModel, status: JobStatus, error: Option<Seq<char>>)
    ensures
        ({
            let e = ended_progress(p, status, error);
            &&& e.phase == Phase::Done <==> status == JobStatus::Success
            &&& e.phase == Phase::Cancelled <==> status == JobStatus::Cancelled
            &&& e.phase == Phase::Failed <==> status == JobStatus::Failed || status
                == JobStatus::VerifyFailed
            &&& error is Some ==> e.error == error
            &&& error is None ==> e.error == p.error
            &&& e.work_done == p.work_done && e.work_total == p.work_total
        }),
{
}

} // verus!
