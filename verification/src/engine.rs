//! The wipe engine.
//!
//! Design notes:
//! * **One worker thread per disk.** Disks are independent spindles/controllers;
//!   wiping them concurrently is the multi-threading that actually pays off.
//!   Within one disk, I/O is strictly sequential: interleaving writes on a
//!   single device only causes seek thrash. PRNG generation (xoshiro256++,
//!   multiple GB/s) is never the bottleneck.
//! * **The engine decides, the worker performs.** A [`WipeJob`] says which
//!   operation on the device comes next; the worker performs it and hands the
//!   result back to [`WipeJob::step`].
//! * **Verifiable random passes.** Each random pass records its 64-bit seed;
//!   verification regenerates the identical stream instead of trusting cache.
//! * **No unattended start.** [`spawn_wipe`] demands an [`ArmToken`], which
//!   only the [`crate::safety::SafetyGate`] ceremony can mint.

use vstd::prelude::*;

use crate::algorithm::{pass_models, Pass, PassModel, Scheme, SchemeModel, VerifyMode};
use crate::binary64::{
    bin64_nanos, bin64_of, bin64_quotient, lemma_above_one, lemma_of, lemma_pow2_values, lemma_quotient_fits,
    lemma_zero_is_kept, lemma_zero_quotient, Float, NS_PER_SEC, ROUNDS_TO_2_64,
};
use crate::device::{Disk, DiskModel, LockReason};
use crate::erase::{execute, new_erase, EraseJob, EraseModel};
use crate::error::CoreError;
use crate::firmware::FirmwareMethod;
use crate::job::{new_job, JobModel, WipeJob};
use crate::safety::ArmToken;

verus! {

/// I/O chunk size. 4 MiB keeps queue depth healthy on spinning rust and NVMe
/// alike without hogging RAM on small live systems.
pub const CHUNK_SIZE: usize = 4_194_304;

/// Everything the operator chose for this session.
pub struct WipeSpec {
    /// The overwrite scheme to apply.
    pub scheme: Scheme,
    /// Repeat the whole scheme N times (the classic "rounds" feature).
    pub rounds: u32,
    /// Read-back verification policy.
    pub verify: VerifyMode,
    /// Append one final zero pass so the disk reads blank afterwards
    /// (useful after random-heavy schemes).
    pub final_blank: bool,
}

/// A [`WipeSpec`], with its scheme by its view.
pub struct SpecModel {
    pub scheme: SchemeModel,
    pub rounds: u32,
    pub verify: VerifyMode,
    pub final_blank: bool,
}

impl View for WipeSpec {
    type V = SpecModel;

    open spec fn view(&self) -> SpecModel {
        SpecModel {
            scheme: self.scheme@,
            rounds: self.rounds,
            verify: self.verify,
            final_blank: self.final_blank,
        }
    }
}

impl Clone for WipeSpec {
    fn clone(&self) -> (r: Self)
        ensures
            r@ == self@,
    {
        WipeSpec {
            scheme: self.scheme.clone(),
            rounds: self.rounds,
            verify: self.verify,
            final_blank: self.final_blank,
        }
    }
}

/// `n` copies of `s`, one after another.
pub open spec fn repeated<A>(s: Seq<A>, n: nat) -> Seq<A>
    decreases n,
{
    if n == 0 {
        Seq::empty()
    } else {
        repeated(s, (n - 1) as nat) + s
    }
}

/// The passes of a session: the scheme `rounds` times (at least once), and a
/// pass of zeros at the end if the disk shall read blank.
pub open spec fn plan(passes: Seq<PassModel>, rounds: nat, final_blank: bool) -> Seq<PassModel> {
    let body = repeated(passes, if rounds == 0 { 1 } else { rounds });
    if final_blank {
        body.push(PassModel::Fill(seq![0x00u8]))
    } else {
        body
    }
}

/// Which of `n` passes are read back under a verification policy.
pub open spec fn verified(mode: VerifyMode, n: nat) -> Seq<bool> {
    Seq::new(
        n,
        |i: int|
            match mode {
                VerifyMode::Off => false,
                VerifyMode::AllPasses => true,
                VerifyMode::LastPass => i == n - 1,
            },
    )
}

/// How many of `n` passes are read back under a verification policy.
pub open spec fn verified_count(mode: VerifyMode, n: nat) -> nat {
    match mode {
        VerifyMode::Off => 0,
        VerifyMode::AllPasses => n,
        VerifyMode::LastPass => if n > 0 { 1 } else { 0 },
    }
}

impl SpecModel {
    /// The passes of this session.
    pub open spec fn plan(self) -> Seq<PassModel> {
        plan(self.scheme.passes, self.rounds as nat, self.final_blank)
    }

    /// Bytes of I/O for a disk of `size` bytes: each pass is written once, and
    /// each verified pass is read once more.
    pub open spec fn work(self, size: nat) -> nat {
        let n = self.plan().len();
        size * (n + verified_count(self.verify, n))
    }
}

impl WipeSpec {
    /// The concrete pass sequence for one disk.
    pub fn pass_list(&self) -> (r: Vec<Pass>)
        ensures
            pass_models(r@) == self@.plan(),
    {
        let mut passes: Vec<Pass> = Vec::new();
        let rounds: u32 = if self.rounds == 0 { 1 } else { self.rounds };
        let ghost one = pass_models(self.scheme.passes@);
        let mut k: u32 = 0;
        assert(pass_models(passes@) =~= repeated(one, 0));
        while k < rounds
            invariant
                k <= rounds,
                one == pass_models(self.scheme.passes@),
                pass_models(passes@) == repeated(one, k as nat),
            decreases rounds - k,
        {
            let ghost before = passes@;
            let mut i: usize = 0;
            while i < self.scheme.passes.len()
                invariant
                    i <= self.scheme.passes@.len(),
                    passes@ == before + self.scheme.passes@.take(i as int),
                decreases self.scheme.passes@.len() - i,
            {
                passes.push(self.scheme.passes[i]);
                i += 1;
                assert(passes@ =~= before + self.scheme.passes@.take(i as int));
            }
            proof {
                assert(self.scheme.passes@.take(i as int) =~= self.scheme.passes@);
                assert(pass_models(passes@) =~= pass_models(before) + one);
            }
            k += 1;
        }
        if self.final_blank {
            let ghost before = passes@;
            passes.push(Pass::zeros());
            assert(pass_models(passes@) =~= pass_models(before).push(
                PassModel::Fill(seq![0x00u8]),
            ));
        }
        passes
    }

    /// Which passes get a read-back verification.
    pub fn verify_flags(&self, pass_count: usize) -> (r: Vec<bool>)
        ensures
            r@ == verified(self.verify, pass_count as nat),
    {
        let mut flags: Vec<bool> = Vec::new();
        let mut i: usize = 0;
        while i < pass_count
            invariant
                i <= pass_count,
                flags@ == verified(self.verify, pass_count as nat).take(i as int),
            decreases pass_count - i,
        {
            let flag = match self.verify {
                VerifyMode::Off => false,
                VerifyMode::AllPasses => true,
                VerifyMode::LastPass => i == pass_count - 1,
            };
            flags.push(flag);
            i += 1;
            assert(flags@ =~= verified(self.verify, pass_count as nat).take(i as int));
        }
        assert(flags@ =~= verified(self.verify, pass_count as nat));
        flags
    }

    /// Total bytes of I/O (writes + verifying reads) for a disk of `size` bytes.
    /// Drives both the progress denominator and the UI estimate.
    pub fn work_bytes(&self, size: u64) -> (r: u64)
        requires
            self@.work(size as nat) <= u64::MAX,
        ensures
            r == self@.work(size as nat),
    {
        let n: usize = self.pass_list().len();
        let reads: u64 = match self.verify {
            VerifyMode::Off => 0,
            VerifyMode::AllPasses => n as u64,
            VerifyMode::LastPass => if n > 0 { 1 } else { 0 },
        };
        assert(self@.plan().len() == n);
        if size == 0 {
            assert(size * (n + reads) == 0) by (nonlinear_arith)
                requires
                    size == 0,
            ;
            return 0;
        }
        assert(n + reads <= size * (n + reads)) by (nonlinear_arith)
            requires
                size >= 1,
                n + reads >= 0,
        ;
        size * (n as u64 + reads)
    }
}

impl WipeSpec {
    /// Whether the work for a disk of `size` bytes can be counted in bytes.
    pub fn work_fits(&self, size: u64) -> (b: bool)
        ensures
            b == (self@.work(size as nat) <= u64::MAX),
    {
        let n: usize = self.pass_list().len();
        let reads: u64 = match self.verify {
            VerifyMode::Off => 0,
            VerifyMode::AllPasses => n as u64,
            VerifyMode::LastPass => if n > 0 { 1 } else { 0 },
        };
        assert(self@.plan().len() == n);
        let units: u128 = n as u128 + reads as u128;
        proof {
            let u = units as int;
            let x = size as int;
            let max = u64::MAX as int;
            assert(x * u == self@.work(size as nat));
            if u == 0 {
                assert(x * u == 0) by (nonlinear_arith)
                    requires
                        u == 0,
                ;
            } else {
                let q = max / u;
                assert(x * u <= max <==> x <= q) by (nonlinear_arith)
                    requires
                        u > 0,
                        q == max / u,
                ;
            }
        }
        units == 0 || size as u128 <= u64::MAX as u128 / units
    }
}

/// The number of passes of a session: the scheme's passes times the rounds (at
/// least one), and one more for the final blank.
pub proof fn law_plan_length(passes: Seq<PassModel>, rounds: nat, final_blank: bool)
    ensures
        plan(passes, rounds, final_blank).len() == passes.len() * (if rounds == 0 { 1nat } else { rounds })
            + (if final_blank { 1nat } else { 0nat }),
{
    lemma_repeated_len(passes, if rounds == 0 { 1 } else { rounds });
}

proof fn lemma_repeated_len<A>(s: Seq<A>, n: nat)
    ensures
        repeated(s, n).len() == s.len() * n,
    decreases n,
{
    if n > 0 {
        lemma_repeated_len(s, (n - 1) as nat);
        assert(s.len() * n == s.len() * (n - 1) + s.len()) by (nonlinear_arith);
    } else {
        assert(s.len() * n == 0) by (nonlinear_arith)
            requires
                n == 0,
        ;
    }
}

/// How many flags of a list are set.
pub open spec fn count_set(flags: Seq<bool>) -> nat
    decreases flags.len(),
{
    if flags.len() == 0 {
        0
    } else {
        count_set(flags.drop_last()) + (if flags.last() { 1nat } else { 0nat })
    }
}

/// As many flags are set as the work estimate counts verifying reads.
pub proof fn law_verified_count(mode: VerifyMode, n: nat)
    ensures
        count_set(verified(mode, n)) == verified_count(mode, n),
{
    if mode is LastPass {
        if n > 0 {
            let f = verified(mode, n);
            lemma_count_none(f.drop_last());
        }
    } else if mode is Off {
        lemma_count_none(verified(mode, n));
    } else {
        lemma_count_all(verified(mode, n));
    }
}

proof fn lemma_count_none(f: Seq<bool>)
    requires
        forall|i: int| 0 <= i < f.len() ==> !f[i],
    ensures
        count_set(f) == 0,
    decreases f.len(),
{
    if f.len() > 0 {
        lemma_count_none(f.drop_last());
    }
}

proof fn lemma_count_all(f: Seq<bool>)
    requires
        forall|i: int| 0 <= i < f.len() ==> f[i],
    ensures
        count_set(f) == f.len(),
    decreases f.len(),
{
    if f.len() > 0 {
        lemma_count_all(f.drop_last());
    }
}

/// The live phase of a running job, surfaced to the UI.
#[derive(Clone, Copy, Debug, PartialEq, Eq, Structural)]
pub enum Phase {
    /// Not yet started.
    Queued,
    /// Writing a pass (or issuing a firmware command).
    Writing,
    /// Reading a pass back for verification.
    Verifying,
    /// Finished successfully.
    Done,
    /// Finished with an error.
    Failed,
    /// Stopped at the operator's request.
    Cancelled,
}

impl Phase {
    /// The display label.
    pub open spec fn label_spec(self) -> Seq<char> {
        match self {
            Phase::Queued => "queued"@,
            Phase::Writing => "writing"@,
            Phase::Verifying => "verifying"@,
            Phase::Done => "done"@,
            Phase::Failed => "FAILED"@,
            Phase::Cancelled => "cancelled"@,
        }
    }

    /// Short display label for the phase.
    pub fn label(&self) -> (s: &'static str)
        ensures
            s@ == self.label_spec(),
    {
        match self {
            Phase::Queued => "queued",
            Phase::Writing => "writing",
            Phase::Verifying => "verifying",
            Phase::Done => "done",
            Phase::Failed => "FAILED",
            Phase::Cancelled => "cancelled",
        }
    }

    /// True once the job has finished, one way or another.
    pub fn is_terminal(&self) -> (b: bool)
        ensures
            b == (self is Done || self is Failed || self is Cancelled),
    {
        matches!(self, Phase::Done | Phase::Failed | Phase::Cancelled)
    }
}

/// An optional text by its characters.
pub open spec fn text_model(t: Option<String>) -> Option<Seq<char>> {
    match t {
        Some(s) => Some(s@),
        None => None,
    }
}

/// A copy of an optional text.
pub(crate) fn clone_text(t: &Option<String>) -> (r: Option<String>)
    ensures
        text_model(r) == text_model(*t),
{
    match t {
        Some(s) => Some(s.clone()),
        None => None,
    }
}

/// What a job tells of its progress.
pub struct ProgressModel {
    pub work_done: u64,
    pub work_total: u64,
    pub pass_index: u32,
    pub pass_count: u32,
    pub phase: Phase,
    pub indeterminate: bool,
    pub pass_label: Seq<char>,
    pub error: Option<Seq<char>>,
}

/// Progress of one job, shared between a worker and the UI.
pub struct Progress {
    work_done: u64,
    work_total: u64,
    pass_index: u32,
    pass_count: u32,
    phase: Phase,
    /// True when the underlying operation reports no byte progress (firmware
    /// erase on real hardware): the UI should show a pulse, not a percentage.
    indeterminate: bool,
    pass_label: String,
    error: Option<String>,
}

impl View for Progress {
    type V = ProgressModel;

    closed spec fn view(&self) -> ProgressModel {
        ProgressModel {
            work_done: self.work_done,
            work_total: self.work_total,
            pass_index: self.pass_index,
            pass_count: self.pass_count,
            phase: self.phase,
            indeterminate: self.indeterminate,
            pass_label: self.pass_label@,
            error: text_model(self.error),
        }
    }
}

/// The progress of a job that has not started.
pub open spec fn fresh_progress(work_total: u64, pass_count: u32) -> ProgressModel {
    ProgressModel {
        work_done: 0,
        work_total: if work_total == 0 { 1 } else { work_total },
        pass_index: 0,
        pass_count,
        phase: Phase::Queued,
        indeterminate: false,
        pass_label: Seq::empty(),
        error: None,
    }
}

impl Progress {
    /// Progress of a job that has not started.
    pub fn new(work_total: u64, pass_count: u32) -> (p: Self)
        ensures
            p@ == fresh_progress(work_total, pass_count),
    {
        Progress {
            work_done: 0,
            work_total: if work_total == 0 { 1 } else { work_total },
            pass_index: 0,
            pass_count,
            phase: Phase::Queued,
            indeterminate: false,
            pass_label: String::new(),
            error: None,
        }
    }

    pub(crate) fn set_work_done(&mut self, bytes: u64)
        ensures
            final(self)@ == (ProgressModel { work_done: bytes, ..old(self)@ }),
    {
        self.work_done = bytes;
    }

    pub(crate) fn set_indeterminate(&mut self, value: bool)
        ensures
            final(self)@ == (ProgressModel { indeterminate: value, ..old(self)@ }),
    {
        self.indeterminate = value;
    }

    pub(crate) fn add_work(&mut self, bytes: u64)
        ensures
            final(self)@ == (ProgressModel {
                work_done: old(self)@.work_done.wrapping_add(bytes),
                ..old(self)@
            }),
    {
        self.work_done = self.work_done.wrapping_add(bytes);
    }

    pub(crate) fn set_pass(&mut self, index: u32, label: String)
        ensures
            final(self)@ == (ProgressModel { pass_index: index, pass_label: label@, ..old(self)@ }),
    {
        self.pass_index = index;
        self.pass_label = label;
    }

    pub(crate) fn set_phase(&mut self, phase: Phase)
        ensures
            final(self)@ == (ProgressModel { phase, ..old(self)@ }),
    {
        self.phase = phase;
    }

    pub(crate) fn set_error(&mut self, msg: String)
        ensures
            final(self)@ == (ProgressModel { error: Some(msg@), ..old(self)@ }),
    {
        self.error = Some(msg);
    }

    /// Take a consistent point-in-time copy of the progress for rendering.
    pub fn snapshot(&self) -> (s: ProgressSnapshot)
        ensures
            s@ == self@,
    {
        ProgressSnapshot {
            work_done: self.work_done,
            work_total: self.work_total,
            pass_index: self.pass_index,
            pass_count: self.pass_count,
            phase: self.phase,
            indeterminate: self.indeterminate,
            pass_label: self.pass_label.clone(),
            error: clone_text(&self.error),
        }
    }
}

/// An immutable copy of a job's [`Progress`] at one instant.
#[derive(Debug)]
pub struct ProgressSnapshot {
    /// Bytes of work completed so far (writes + verifying reads).
    pub work_done: u64,
    /// Total bytes of work the job will perform.
    pub work_total: u64,
    /// 1-based index of the pass currently in flight.
    pub pass_index: u32,
    /// Total number of passes for the job.
    pub pass_count: u32,
    /// Current phase.
    pub phase: Phase,
    /// True when there is no meaningful byte progress (firmware erase on real
    /// hardware); the UI shows a pulse instead of a percentage.
    pub indeterminate: bool,
    /// Label of the current pass (e.g. `"zeros (0x00)"`).
    pub pass_label: String,
    /// Error message if the job failed.
    pub error: Option<String>,
}

impl View for ProgressSnapshot {
    type V = ProgressModel;

    open spec fn view(&self) -> ProgressModel {
        ProgressModel {
            work_done: self.work_done,
            work_total: self.work_total,
            pass_index: self.pass_index,
            pass_count: self.pass_count,
            phase: self.phase,
            indeterminate: self.indeterminate,
            pass_label: self.pass_label@,
            error: text_model(self.error),
        }
    }
}

impl Clone for ProgressSnapshot {
    fn clone(&self) -> (s: Self)
        ensures
            s@ == self@,
    {
        ProgressSnapshot {
            work_done: self.work_done,
            work_total: self.work_total,
            pass_index: self.pass_index,
            pass_count: self.pass_count,
            phase: self.phase,
            indeterminate: self.indeterminate,
            pass_label: self.pass_label.clone(),
            error: clone_text(&self.error),
        }
    }
}

/// The terminal outcome of a job, recorded in the erasure report.
#[derive(Clone, Copy, Debug, PartialEq, Eq, Structural)]
pub enum JobStatus {
    /// All passes (and verification) completed successfully.
    Success,
    /// A verification read-back did not match what was written.
    VerifyFailed,
    /// An I/O or device error occurred.
    Failed,
    /// The operator cancelled the job.
    Cancelled,
}

impl JobStatus {
    /// The display label.
    pub open spec fn label_spec(self) -> Seq<char> {
        match self {
            JobStatus::Success => "SUCCESS"@,
            JobStatus::VerifyFailed => "VERIFY FAILED"@,
            JobStatus::Failed => "FAILED"@,
            JobStatus::Cancelled => "CANCELLED"@,
        }
    }

    /// Short upper-case display label, e.g. `"SUCCESS"`.
    pub fn label(&self) -> (s: &'static str)
        ensures
            s@ == self.label_spec(),
    {
        match self {
            JobStatus::Success => "SUCCESS",
            JobStatus::VerifyFailed => "VERIFY FAILED",
            JobStatus::Failed => "FAILED",
            JobStatus::Cancelled => "CANCELLED",
        }
    }

    /// The phase that a job ends in.
    pub open spec fn phase_spec(self) -> Phase {
        match self {
            JobStatus::Success => Phase::Done,
            JobStatus::Cancelled => Phase::Cancelled,
            _ => Phase::Failed,
        }
    }

    pub(crate) fn phase(&self) -> (p: Phase)
        ensures
            p == self.phase_spec(),
    {
        match self {
            JobStatus::Success => Phase::Done,
            JobStatus::Cancelled => Phase::Cancelled,
            _ => Phase::Failed,
        }
    }
}

/// When a job ran: Unix times in seconds, and its wall-clock duration.
#[derive(Clone, Copy, Debug)]
pub struct JobClock {
    pub started_unix: u64,
    pub finished_unix: u64,
    pub duration_ns: u64,
}

/// The permanent record of one disk's sanitization, embedded in erasure
/// reports. Covers both overwrite jobs and firmware-erase jobs; the
/// overwrite-specific fields (`rounds`, `pass_count`, byte counters) are zero
/// for firmware jobs, distinguished by `firmware`.
#[derive(Debug)]
pub struct JobReport {
    /// Kernel/demo name of the disk.
    pub disk_name: String,
    /// Device model string.
    pub disk_model: String,
    /// Device serial number.
    pub disk_serial: String,
    /// Capacity in bytes.
    pub disk_size_bytes: u64,
    /// Stable id of the method used (scheme id or firmware-method id).
    pub method_id: String,
    /// Human-readable method name.
    pub method_name: String,
    /// True when this was a firmware/drive-internal erase rather than overwrite.
    pub firmware: bool,
    /// Number of scheme rounds (overwrite only; 0 for firmware).
    pub rounds: u32,
    /// Verification policy used (overwrite only).
    pub verify: VerifyMode,
    /// Total passes planned (overwrite only).
    pub pass_count: u32,
    /// Passes actually completed.
    pub passes_completed: u32,
    /// Final outcome.
    pub status: JobStatus,
    /// Error message if the job did not succeed.
    pub error: Option<String>,
    /// Unix start time (seconds).
    pub started_unix: u64,
    /// Unix finish time (seconds).
    pub finished_unix: u64,
    /// Wall-clock duration in nanoseconds.
    pub duration_ns: u64,
    /// Total bytes written (overwrite only).
    pub bytes_written: u64,
    /// Total bytes read back for verification (overwrite only).
    pub bytes_verified: u64,
    /// Nanoseconds spent writing (overwrite only).
    pub write_ns: u64,
}

/// A [`JobReport`], with its texts as sequences.
pub struct ReportModel {
    pub disk_name: Seq<char>,
    pub disk_model: Seq<char>,
    pub disk_serial: Seq<char>,
    pub disk_size_bytes: u64,
    pub method_id: Seq<char>,
    pub method_name: Seq<char>,
    pub firmware: bool,
    pub rounds: u32,
    pub verify: VerifyMode,
    pub pass_count: u32,
    pub passes_completed: u32,
    pub status: JobStatus,
    pub error: Option<Seq<char>>,
    pub started_unix: u64,
    pub finished_unix: u64,
    pub duration_ns: u64,
    pub bytes_written: u64,
    pub bytes_verified: u64,
    pub write_ns: u64,
}

impl View for JobReport {
    type V = ReportModel;

    open spec fn view(&self) -> ReportModel {
        ReportModel {
            disk_name: self.disk_name@,
            disk_model: self.disk_model@,
            disk_serial: self.disk_serial@,
            disk_size_bytes: self.disk_size_bytes,
            method_id: self.method_id@,
            method_name: self.method_name@,
            firmware: self.firmware,
            rounds: self.rounds,
            verify: self.verify,
            pass_count: self.pass_count,
            passes_completed: self.passes_completed,
            status: self.status,
            error: text_model(self.error),
            started_unix: self.started_unix,
            finished_unix: self.finished_unix,
            duration_ns: self.duration_ns,
            bytes_written: self.bytes_written,
            bytes_verified: self.bytes_verified,
            write_ns: self.write_ns,
        }
    }
}

impl Clone for JobReport {
    fn clone(&self) -> (r: Self)
        ensures
            r@ == self@,
    {
        JobReport {
            disk_name: self.disk_name.clone(),
            disk_model: self.disk_model.clone(),
            disk_serial: self.disk_serial.clone(),
            disk_size_bytes: self.disk_size_bytes,
            method_id: self.method_id.clone(),
            method_name: self.method_name.clone(),
            firmware: self.firmware,
            rounds: self.rounds,
            verify: self.verify,
            pass_count: self.pass_count,
            passes_completed: self.passes_completed,
            status: self.status,
            error: clone_text(&self.error),
            started_unix: self.started_unix,
            finished_unix: self.finished_unix,
            duration_ns: self.duration_ns,
            bytes_written: self.bytes_written,
            bytes_verified: self.bytes_verified,
            write_ns: self.write_ns,
        }
    }
}

/// The report of a job of which nothing but its disk and method is known.
pub open spec fn skeleton_spec(
    disk: DiskModel,
    method_id: Seq<char>,
    method_name: Seq<char>,
    firmware: bool,
) -> ReportModel {
    ReportModel {
        disk_name: disk.name,
        disk_model: disk.model,
        disk_serial: disk.serial,
        disk_size_bytes: disk.size_bytes,
        method_id,
        method_name,
        firmware,
        rounds: 0,
        verify: VerifyMode::Off,
        pass_count: 0,
        passes_completed: 0,
        status: JobStatus::Failed,
        error: None,
        started_unix: 0,
        finished_unix: 0,
        duration_ns: 0,
        bytes_written: 0,
        bytes_verified: 0,
        write_ns: 0,
    }
}

impl JobReport {
    /// Minimal report skeleton for `disk`, used for panics and as the base for
    /// both job kinds.
    pub(crate) fn skeleton(
        disk: &Disk,
        method_id: String,
        method_name: String,
        firmware: bool,
    ) -> (r: Self)
        ensures
            r@ == skeleton_spec(disk@, method_id@, method_name@, firmware),
    {
        JobReport {
            disk_name: disk.name.clone(),
            disk_model: disk.model.clone(),
            disk_serial: disk.serial.clone(),
            disk_size_bytes: disk.size_bytes,
            method_id,
            method_name,
            firmware,
            rounds: 0,
            verify: VerifyMode::Off,
            pass_count: 0,
            passes_completed: 0,
            status: JobStatus::Failed,
            error: None,
            started_unix: 0,
            finished_unix: 0,
            duration_ns: 0,
            bytes_written: 0,
            bytes_verified: 0,
            write_ns: 0,
        }
    }

    /// The report of a job whose worker panicked.
    pub fn panicked(disk: &Disk) -> (r: Self)
        ensures
            r@ == (ReportModel {
                error: Some("worker thread panicked"@),
                ..skeleton_spec(disk@, Seq::empty(), Seq::empty(), false)
            }),
    {
        let mut r = JobReport::skeleton(disk, String::new(), String::new(), false);
        r.error = Some("worker thread panicked".to_owned());
        r
    }
}

/// Whether a result is the refusal of a locked disk.
pub open spec fn is_lock_refusal(e: CoreError, disk: DiskModel, reason: LockReason) -> bool {
    e matches CoreError::DiskLocked(name, label) && name@ == disk.name && label@
        == reason.label_spec()
}

/// The job that a session starts on a disk.
pub open spec fn wipe_job_spec(disk: DiskModel, spec: SpecModel) -> JobModel {
    let passes = spec.plan();
    new_job(
        passes,
        verified(spec.verify, passes.len()),
        disk.size_bytes,
        disk.throttle_bps,
        fresh_progress(spec.work(disk.size_bytes as nat) as u64, passes.len() as u32),
    )
}

/// Start wiping one disk: the job that a worker is to run. The `ArmToken`
/// parameter is the safety interlock: it cannot be forged outside
/// [`crate::safety`]. A locked disk is refused.
pub fn spawn_wipe(disk: &Disk, spec: &WipeSpec, _token: &ArmToken) -> (r: Result<
    WipeJob,
    CoreError,
>)
    requires
        disk.lock is None ==> spec@.work(disk.size_bytes as nat) <= u64::MAX,
    ensures
        r is Ok <==> disk.lock is None,
        r matches Ok(j) ==> j.wf() && j@ == wipe_job_spec(disk@, spec@),
        r matches Err(e) ==> is_lock_refusal(e, disk@, disk.lock->0),
{
    match disk.lock {
        Some(lock) => {
            return Err(CoreError::DiskLocked(disk.name.clone(), lock.label().to_owned()));
        },
        None => {},
    }
    let passes = spec.pass_list();
    let flags = spec.verify_flags(passes.len());
    let total: u64 = spec.work_bytes(disk.size_bytes);
    let count: u32 = #[verifier::truncate]
    (passes.len() as u32);
    let progress = Progress::new(total, count);
    proof {
        let size = disk.size_bytes;
        let n = spec@.plan().len();
        let v = verified_count(spec.verify, n);
        assert(size * n <= size * (n + v)) by (nonlinear_arith);
        assert(passes@.len() == n);
    }
    Ok(WipeJob::new(passes, flags, disk.size_bytes, disk.throttle_bps, progress))
}

/// The erase that a session starts on a disk: real hardware gives no byte
/// progress; simulated disks animate a bar.
pub open spec fn erase_job_spec(disk: DiskModel, method: FirmwareMethod) -> EraseModel {
    new_erase(
        disk,
        method,
        ProgressModel {
            indeterminate: !disk.simulated,
            ..fresh_progress(disk.size_bytes, 1)
        },
    )
}

/// Start a firmware/drive-internal erase of one disk (ATA Secure Erase, NVMe
/// Format / Sanitize): the erase that a worker is to run. Like [`spawn_wipe`],
/// requires the safety [`ArmToken`] and refuses a locked disk. On real hardware
/// the command reports no progress, so the job is marked indeterminate; demo
/// disks animate a determinate bar.
pub fn spawn_firmware(disk: &Disk, method: FirmwareMethod, _token: &ArmToken) -> (r: Result<
    EraseJob,
    CoreError,
>)
    ensures
        r is Ok <==> disk.lock is None,
        r matches Ok(j) ==> j.wf() && j@ == erase_job_spec(disk@, method),
        r matches Err(e) ==> is_lock_refusal(e, disk@, disk.lock->0),
{
    match disk.lock {
        Some(lock) => {
            return Err(CoreError::DiskLocked(disk.name.clone(), lock.label().to_owned()));
        },
        None => {},
    }
    let mut progress = Progress::new(disk.size_bytes, 1);
    // Real hardware gives no byte progress; simulated disks animate a bar.
    progress.set_indeterminate(!disk.simulated);
    Ok(execute(disk, method, progress))
}

/// Nanoseconds that `done` bytes take at `bps` bytes per second, by the binary64
/// quotient.
pub open spec fn due_ns(done: nat, bps: nat) -> nat {
    bin64_nanos(bin64_quotient(bin64_of(done), bin64_of(bps)))
}

/// Pacing: how many nanoseconds to sleep, up to `longest_ns`, when `done` bytes
/// at `bps` bytes per second have taken `elapsed_ns` so far; `None` when it is
/// time to go on. At one byte per second, as many bytes as would take `2^64`
/// seconds are not accepted.
pub fn throttle(elapsed_ns: u64, done: u64, bps: u64, longest_ns: u64) -> (nap: Option<u64>)
    requires
        bps == 1 ==> done < ROUNDS_TO_2_64,
    ensures
        nap is None <==> bps == 0 || elapsed_ns >= due_ns(done as nat, bps as nat),
        nap matches Some(ns) ==> ns == (if due_ns(done as nat, bps as nat) - elapsed_ns
            < longest_ns {
            due_ns(done as nat, bps as nat) - elapsed_ns
        } else {
            longest_ns as int
        }),
{
    if bps == 0 {
        return None;
    }
    let rate = Float::of(bps as u128);
    if done == 0 {
        proof {
            lemma_zero_quotient(rate.model());
            lemma_zero_is_kept(bin64_quotient(bin64_of(0), rate.model()), NS_PER_SEC as nat);
        }
        return None;
    }
    proof {
        lemma_pow2_values();
        lemma_of(bps as nat, 11);
        if bps > 1 {
            lemma_above_one(bps as nat);
        }
        lemma_quotient_fits(done as nat, rate.model());
    }
    let due: u128 = Float::of(done as u128).quotient(&rate).nanos();
    if elapsed_ns as u128 >= due {
        return None;
    }
    let left: u128 = due - elapsed_ns as u128;
    if left < longest_ns as u128 {
        Some(left as u64)
    } else {
        Some(longest_ns)
    }
}

/// A running (or finished) sanitization job for one disk, as the UI sees it.
pub struct JobHandle {
    /// The disk being sanitized.
    pub disk: Disk,
    /// The latest progress that the worker has shown.
    pub progress: ProgressSnapshot,
    cancel: bool,
    exited: bool,
    report: Option<JobReport>,
}

/// A [`JobHandle`] by its views.
pub struct HandleModel {
    pub disk: DiskModel,
    pub progress: ProgressModel,
    pub cancel: bool,
    pub exited: bool,
    pub report: Option<ReportModel>,
}

/// An optional report by its view.
pub open spec fn report_model(r: Option<JobReport>) -> Option<ReportModel> {
    match r {
        Some(x) => Some(x@),
        None => None,
    }
}

impl View for JobHandle {
    type V = HandleModel;

    closed spec fn view(&self) -> HandleModel {
        HandleModel {
            disk: self.disk@,
            progress: self.progress@,
            cancel: self.cancel,
            exited: self.exited,
            report: report_model(self.report),
        }
    }
}

impl JobHandle {
    /// The handle of a job that has just been handed to a worker.
    pub(crate) fn new(disk: Disk, progress: ProgressSnapshot) -> (h: Self)
        ensures
            h@ == (HandleModel {
                disk: disk@,
                progress: progress@,
                cancel: false,
                exited: false,
                report: None,
            }),
    {
        JobHandle { disk, progress, cancel: false, exited: false, report: None }
    }

    /// Takes over what the worker shows: its progress, whether it has exited,
    /// and the report that it left. A report, once there, stays.
    pub fn observe(&mut self, progress: ProgressSnapshot, exited: bool, report: Option<JobReport>)
        ensures
            final(self)@ == (HandleModel {
                progress: progress@,
                exited,
                report: if old(self)@.report is Some {
                    old(self)@.report
                } else {
                    report_model(report)
                },
                ..old(self)@
            }),
    {
        self.progress = progress;
        self.exited = exited;
        if self.report.is_none() {
            self.report = report;
        }
    }

    /// The progress that the worker has shown last.
    pub fn snapshot(&self) -> (p: &ProgressSnapshot)
        ensures
            p@ == self@.progress,
    {
        &self.progress
    }

    /// The phase that the worker has shown last.
    pub fn phase(&self) -> (p: Phase)
        ensures
            p == self@.progress.phase,
    {
        self.progress.phase
    }

    /// Bytes of work that the worker has shown last.
    pub fn work_done(&self) -> (n: u64)
        ensures
            n == self@.progress.work_done,
    {
        self.progress.work_done
    }

    /// The name of the disk being sanitized.
    pub fn name(&self) -> (s: &str)
        ensures
            s@ == self@.disk.name,
    {
        self.disk.name.as_str()
    }

    /// Ask the worker to stop at the next chunk boundary.
    pub fn request_cancel(&mut self)
        ensures
            final(self)@ == (HandleModel { cancel: true, ..old(self)@ }),
    {
        self.cancel = true;
    }

    /// True if cancellation has been requested.
    pub fn cancel_requested(&self) -> (b: bool)
        ensures
            b == self@.cancel,
    {
        self.cancel
    }

    /// True once the worker has exited (successfully or not).
    pub fn is_finished(&self) -> (b: bool)
        ensures
            b == (self@.report is Some || self@.exited),
    {
        self.report.is_some() || self.exited
    }

    /// The report, once the worker has exited.
    pub fn report(&self) -> (r: Option<&JobReport>)
        ensures
            r is Some <==> self@.report is Some,
            r matches Some(x) ==> Some(x@) == self@.report,
    {
        self.report.as_ref()
    }
}

} // verus!
