//! Erasure reports: the auditable artifact of a wipe session.

use vstd::prelude::*;

use crate::engine::{JobReport, JobStatus, ReportModel};
use crate::sysinfo::{SystemInfo, SystemModel};
use crate::text::{dec, push_dec, push_text};
use crate::VERSION;

verus! {

/// The auditable record of a whole wipe session: tool, host, and every job.
#[derive(Debug)]
pub struct SessionReport {
    /// Tool name (`"scour"`).
    pub tool: String,
    /// Tool version string.
    pub tool_version: String,
    /// Unix timestamp the report was created.
    pub created_unix: u64,
    /// True when the session ran against simulated disks.
    pub simulation: bool,
    /// Host hardware summary.
    pub host: SystemInfo,
    /// Per-disk job records.
    pub jobs: Vec<JobReport>,
}

/// A [`SessionReport`], with its contents as sequences.
pub struct SessionModel {
    pub tool: Seq<char>,
    pub tool_version: Seq<char>,
    pub created_unix: u64,
    pub simulation: bool,
    pub host: SystemModel,
    pub jobs: Seq<ReportModel>,
}

/// The records of a list by their views.
pub open spec fn job_models(jobs: Seq<JobReport>) -> Seq<ReportModel> {
    jobs.map_values(|j: JobReport| j@)
}

impl View for SessionReport {
    type V = SessionModel;

    open spec fn view(&self) -> SessionModel {
        SessionModel {
            tool: self.tool@,
            tool_version: self.tool_version@,
            created_unix: self.created_unix,
            simulation: self.simulation,
            host: self.host@,
            jobs: job_models(self.jobs@),
        }
    }
}

/// The report of a session, created at the Unix time `created_unix`.
pub open spec fn session_of(
    host: SystemModel,
    simulation: bool,
    jobs: Seq<ReportModel>,
    created_unix: u64,
) -> SessionModel {
    SessionModel {
        tool: "scour"@,
        tool_version: VERSION@,
        created_unix,
        simulation,
        host,
        jobs,
    }
}

/// Whether every job of a session succeeded.
pub open spec fn all_ok(jobs: Seq<ReportModel>) -> bool {
    forall|i: int| 0 <= i < jobs.len() ==> (#[trigger] jobs[i]).status == JobStatus::Success
}

/// The directory that the appliance, which runs as the init process, writes its
/// report to; elsewhere it goes to the working directory. On the appliance `/tmp`
/// is in memory, and the operator can copy the report from it.
pub fn report_dir(pid1: bool) -> (d: Option<&'static str>)
    ensures
        d is Some <==> pid1,
        d matches Some(p) ==> p@ == "/tmp"@,
{
    if pid1 {
        Some("/tmp")
    } else {
        None
    }
}

impl SessionReport {
    /// Assemble a session report from the host info and finished jobs.
    pub fn new(host: SystemInfo, simulation: bool, jobs: Vec<JobReport>, created_unix: u64) -> (r:
        Self)
        ensures
            r@ == session_of(host@, simulation, job_models(jobs@), created_unix),
    {
        SessionReport {
            tool: "scour".to_owned(),
            tool_version: VERSION.to_owned(),
            created_unix,
            simulation,
            host,
            jobs,
        }
    }

    /// The name of the file that the report is written to,
    /// `scour-report-<unix-ts>.json`.
    pub fn file_name(&self) -> (s: String)
        ensures
            s@ == "scour-report-"@ + dec(self.created_unix as nat) + ".json"@,
    {
        let mut s = "scour-report-".to_owned();
        push_dec(&mut s, self.created_unix);
        push_text(&mut s, ".json");
        s
    }

    /// True when every job in the session completed successfully.
    pub fn all_succeeded(&self) -> (b: bool)
        ensures
            b == all_ok(self@.jobs),
    {
        let mut i: usize = 0;
        while i < self.jobs.len()
            invariant
                i <= self.jobs@.len(),
                forall|k: int|
                    0 <= k < i ==> (#[trigger] self@.jobs[k]).status == JobStatus::Success,
            decreases self.jobs@.len() - i,
        {
            assert(self@.jobs[i as int] == self.jobs@[i as int]@);
            if self.jobs[i].status != JobStatus::Success {
                return false;
            }
            i += 1;
        }
        true
    }
}

} // verus!
