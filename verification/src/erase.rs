//! One firmware erase, operation by operation.
//!
//! An [`EraseJob`] says which command goes to the drive next; the program
//! issues it and hands the reply to [`EraseJob::step`]. The erase of a
//! simulated disk writes zeros to its backing file instead.

use vstd::prelude::*;

use crate::ata::{
    ata_command, ata_context, ata_result, ata_secure_erase, password_block,
};
use crate::bytes::zero_bytes;
use crate::device::{Bus, Disk, DiskModel};
use crate::engine::{
    skeleton_spec, JobClock, JobReport, JobStatus, Phase, Progress, ProgressModel, ReportModel,
};
use crate::firmware::{firmware_message, FirmwareError, FirmwareErrorModel, FirmwareMethod};
use crate::job::ended_progress;
use crate::nvme::{
    format_spec, nvme_format, nvme_result, nvme_sanitize, sanitize_log, sanitize_log_spec, sanitize_spec,
    sanitize_status, sanitize_status_spec, SanitizeStatus,
};
use crate::tcg::{
    discover_comid, discovered_comid, extract_first_bytes_token, first_bytes_token, get_msid_call,
    get_msid_payload, revert_call, revert_payload, sec_recv, sec_send, security_context,
    security_request_spec, security_result, start_session_call, start_session_payload, TcgSession,
    DISCOVERY_LEN, RESPONSE_LEN, TCG_DISCOVERY_COMID,
};
use crate::transport::{settled, Reply, ReplyModel, Request, RequestModel};

verus! {

/// Bytes that a simulated erase writes at a time.
pub const ZERO_CHUNK: usize = 1_048_576;

/// Milliseconds between two looks at the sanitize status.
pub const SANITIZE_POLL_MS: u64 = 500;

/// What an erase waits for.
#[derive(Clone, Copy, Debug, PartialEq, Eq, Structural)]
pub enum EraseStage {
    /// Its start.
    Idle,
    /// The backing file of a simulated disk being opened.
    Opening,
    /// A run of zeros being written to it.
    Zeroing,
    /// The pause after a run of zeros.
    Pacing,
    /// The flush of the file.
    Flushing,
    /// SECURITY SET PASSWORD.
    SettingPassword,
    /// SECURITY ERASE UNIT.
    Erasing,
    /// Format NVM.
    Formatting,
    /// The start of Sanitize.
    Sanitizing,
    /// The sanitize status.
    ReadingStatus,
    /// The pause before the next look at the status.
    WaitingForStatus,
    /// Level 0 Discovery.
    Discovering,
    /// StartSession, sent.
    SendingStart,
    /// The response to StartSession.
    ReceivingStart,
    /// Get of the MSID, sent.
    SendingGet,
    /// The response to Get.
    ReceivingGet,
    /// Revert, sent.
    SendingRevert,
    /// The response to Revert.
    ReceivingRevert,
    /// Nothing more.
    Ended,
}

/// The operation that comes next.
#[derive(Debug)]
pub enum EraseAction {
    /// Open the backing file for writing and go to its first byte.
    OpenForWrite,
    /// Write this many zero bytes.
    WriteZeros { len: usize },
    /// Wait until `done` bytes have taken `done / bps` seconds.
    Pace { done: u64, bps: u64 },
    /// Flush the file.
    Sync,
    /// Issue a request to the drive.
    Issue(Request),
    /// Wait this many milliseconds.
    Wait { ms: u64 },
    /// Stop: the erase has ended.
    Stop,
}

/// An [`EraseAction`] by its view.
pub enum EraseActionModel {
    OpenForWrite,
    WriteZeros { len: usize },
    Pace { done: u64, bps: u64 },
    Sync,
    Issue(RequestModel),
    Wait { ms: u64 },
    Stop,
}

impl View for EraseAction {
    type V = EraseActionModel;

    open spec fn view(&self) -> EraseActionModel {
        match *self {
            EraseAction::OpenForWrite => EraseActionModel::OpenForWrite,
            EraseAction::WriteZeros { len } => EraseActionModel::WriteZeros { len },
            EraseAction::Pace { done, bps } => EraseActionModel::Pace { done, bps },
            EraseAction::Sync => EraseActionModel::Sync,
            EraseAction::Issue(r) => EraseActionModel::Issue(r@),
            EraseAction::Wait { ms } => EraseActionModel::Wait { ms },
            EraseAction::Stop => EraseActionModel::Stop,
        }
    }
}

/// What came of an operation.
#[derive(Debug)]
pub enum EraseEvent {
    /// It is done.
    Done,
    /// The operator asked to stop while the erase paced itself.
    Interrupted,
    /// It failed, by the message.
    Failed(String),
    /// The drive replied.
    Replied(Reply),
}

/// An [`EraseEvent`] by its view.
pub enum EraseEventModel {
    Done,
    Interrupted,
    Failed(Seq<char>),
    Replied(ReplyModel),
}

impl View for EraseEvent {
    type V = EraseEventModel;

    open spec fn view(&self) -> EraseEventModel {
        match *self {
            EraseEvent::Done => EraseEventModel::Done,
            EraseEvent::Interrupted => EraseEventModel::Interrupted,
            EraseEvent::Failed(m) => EraseEventModel::Failed(m@),
            EraseEvent::Replied(r) => EraseEventModel::Replied(r@),
        }
    }
}

/// How an erase stands.
#[derive(Debug)]
pub enum EraseOutcome {
    Running,
    Succeeded,
    Stopped(FirmwareError),
}

/// An [`EraseOutcome`] by its view.
pub enum EraseOutcomeModel {
    Running,
    Succeeded,
    Stopped(FirmwareErrorModel),
}

impl View for EraseOutcome {
    type V = EraseOutcomeModel;

    open spec fn view(&self) -> EraseOutcomeModel {
        match *self {
            EraseOutcome::Running => EraseOutcomeModel::Running,
            EraseOutcome::Succeeded => EraseOutcomeModel::Succeeded,
            EraseOutcome::Stopped(e) => EraseOutcomeModel::Stopped(e@),
        }
    }
}

/// The state of an erase.
pub struct EraseModel {
    pub method: FirmwareMethod,
    pub simulated: bool,
    pub bus: Bus,
    pub size: u64,
    /// Bytes per second of a simulated erase.
    pub bps: u64,
    pub stage: EraseStage,
    /// Bytes that a simulated erase has written.
    pub written: nat,
    /// The ComID that discovery found.
    pub comid: u16,
    pub progress: ProgressModel,
    pub outcome: EraseOutcomeModel,
}

/// Whether a stage waits for a reply of the drive.
pub open spec fn awaits_reply(stage: EraseStage) -> bool {
    match stage {
        EraseStage::SettingPassword
        | EraseStage::Erasing
        | EraseStage::Formatting
        | EraseStage::Sanitizing
        | EraseStage::ReadingStatus
        | EraseStage::Discovering
        | EraseStage::SendingStart
        | EraseStage::ReceivingStart
        | EraseStage::SendingGet
        | EraseStage::ReceivingGet
        | EraseStage::SendingRevert
        | EraseStage::ReceivingRevert => true,
        _ => false,
    }
}

/// How many bytes a reply in this stage brings, where the erase reads them.
pub open spec fn reply_len(stage: EraseStage) -> Option<nat> {
    match stage {
        EraseStage::ReadingStatus | EraseStage::Discovering => Some(512),
        _ => None,
    }
}

impl EraseModel {
    /// Length of the run of zeros in flight.
    pub open spec fn zeros(self) -> nat {
        if self.size - self.written < ZERO_CHUNK {
            (self.size - self.written) as nat
        } else {
            ZERO_CHUNK as nat
        }
    }

    /// Whether an event can be the result of the operation in flight.
    pub open spec fn fits(self, ev: EraseEventModel) -> bool {
        match ev {
            EraseEventModel::Done => !awaits_reply(self.stage) && self.stage != EraseStage::Idle,
            EraseEventModel::Interrupted => self.stage == EraseStage::Pacing,
            EraseEventModel::Failed(_) => self.stage == EraseStage::Opening || self.stage
                == EraseStage::Zeroing || self.stage == EraseStage::Flushing,
            EraseEventModel::Replied(r) => awaits_reply(self.stage) && (reply_len(self.stage) matches Some(
                n,
            ) ==> (r matches ReplyModel::Completed { status, sense, data } ==> data.len() == n)),
        }
    }

    /// The session with the drive.
    pub open spec fn session(self) -> TcgSession {
        TcgSession::open_spec(self.comid)
    }
}

/// The rate of a simulated erase: six times the rate of an overwrite, so that
/// it visibly completes quicker.
pub open spec fn simulated_bps(throttle_bps: Option<u64>) -> u64 {
    let base = match throttle_bps {
        Some(b) => b,
        None => 0x400_0000,
    };
    if base == 0 {
        1
    } else if base * 6 > u64::MAX {
        u64::MAX
    } else {
        (base * 6) as u64
    }
}

/// The erase has stopped with an error.
pub open spec fn erase_failed(j: EraseModel, e: FirmwareErrorModel) -> (
    EraseModel,
    EraseActionModel,
) {
    (
        EraseModel { stage: EraseStage::Ended, outcome: EraseOutcomeModel::Stopped(e), ..j },
        EraseActionModel::Stop,
    )
}

/// The erase has succeeded.
pub open spec fn erase_succeeded(j: EraseModel) -> (EraseModel, EraseActionModel) {
    (
        EraseModel { stage: EraseStage::Ended, outcome: EraseOutcomeModel::Succeeded, ..j },
        EraseActionModel::Stop,
    )
}

/// The erase goes on to a stage by a request.
pub open spec fn erase_issues(j: EraseModel, stage: EraseStage, r: RequestModel) -> (
    EraseModel,
    EraseActionModel,
) {
    (EraseModel { stage, ..j }, EraseActionModel::Issue(r))
}

/// The first operation of an erase.
pub open spec fn erase_begun(j: EraseModel) -> (EraseModel, EraseActionModel) {
    let started = EraseModel {
        progress: ProgressModel {
            pass_index: 1,
            pass_label: j.method.name_spec(),
            phase: Phase::Writing,
            work_done: if j.simulated { j.progress.work_done } else { 0 },
            ..j.progress
        },
        ..j
    };
    if j.simulated {
        (EraseModel { stage: EraseStage::Opening, ..started }, EraseActionModel::OpenForWrite)
    } else {
        match j.method {
            FirmwareMethod::AtaSecureErase { enhanced } => erase_issues(
                started,
                EraseStage::SettingPassword,
                RequestModel::Sg(ata_command(0, 1, 0, 0xF1, password_block())),
            ),
            FirmwareMethod::NvmeFormat { crypto } => erase_issues(
                started,
                EraseStage::Formatting,
                RequestModel::Nvme(format_spec(crypto)),
            ),
            FirmwareMethod::NvmeSanitize { crypto } => erase_issues(
                started,
                EraseStage::Sanitizing,
                RequestModel::Nvme(sanitize_spec(crypto)),
            ),
            FirmwareMethod::TcgRevert => erase_issues(
                started,
                EraseStage::Discovering,
                security_request_spec(
                    j.bus,
                    false,
                    TCG_DISCOVERY_COMID,
                    zero_bytes(DISCOVERY_LEN as nat),
                ),
            ),
        }
    }
}

/// A simulated erase goes on at its position.
pub open spec fn next_zeros(j: EraseModel, cancel: bool) -> (EraseModel, EraseActionModel) {
    if j.written >= j.size {
        (EraseModel { stage: EraseStage::Flushing, ..j }, EraseActionModel::Sync)
    } else if cancel {
        erase_failed(j, FirmwareErrorModel::Cancelled)
    } else {
        (
            EraseModel { stage: EraseStage::Zeroing, ..j },
            EraseActionModel::WriteZeros { len: j.zeros() as usize },
        )
    }
}

/// The erase looks at the sanitize status.
pub open spec fn poll_status(j: EraseModel, cancel: bool) -> (EraseModel, EraseActionModel) {
    if cancel {
        erase_failed(j, FirmwareErrorModel::Cancelled)
    } else {
        erase_issues(j, EraseStage::ReadingStatus, RequestModel::Nvme(sanitize_log_spec()))
    }
}

/// A simulated erase after a run of zeros was written.
pub open spec fn zeros_written(j: EraseModel) -> (EraseModel, EraseActionModel) {
    let done = j.written + j.zeros();
    (
        EraseModel {
            stage: EraseStage::Pacing,
            written: done,
            progress: ProgressModel { work_done: done as u64, ..j.progress },
            ..j
        },
        EraseActionModel::Pace { done: done as u64, bps: j.bps },
    )
}

/// What the commands of a stage are called in error messages.
pub open spec fn stage_context(j: EraseModel) -> Seq<char> {
    match j.stage {
        EraseStage::SettingPassword | EraseStage::Erasing => ata_context(),
        EraseStage::Formatting | EraseStage::Sanitizing | EraseStage::ReadingStatus =>
            "NVME_IOCTL_ADMIN_CMD"@,
        _ => security_context(j.bus),
    }
}

/// The erase sends a method call to the drive.
pub open spec fn erase_sends(j: EraseModel, stage: EraseStage, payload: Seq<u8>) -> (
    EraseModel,
    EraseActionModel,
) {
    erase_issues(
        j,
        stage,
        security_request_spec(j.bus, true, j.comid, j.session().framed(payload)),
    )
}

/// The erase receives the response to a method call.
pub open spec fn erase_receives(j: EraseModel, stage: EraseStage) -> (EraseModel, EraseActionModel) {
    erase_issues(
        j,
        stage,
        security_request_spec(j.bus, false, j.comid, zero_bytes(RESPONSE_LEN as nat)),
    )
}

/// The erase after the drive carried out a command and returned `data`.
pub open spec fn command_done(j: EraseModel, data: Seq<u8>, cancel: bool) -> (
    EraseModel,
    EraseActionModel,
) {
    match j.stage {
        EraseStage::SettingPassword => erase_issues(
            j,
            EraseStage::Erasing,
            RequestModel::Sg(
                ata_command(
                    if j.method->enhanced {
                        0x02
                    } else {
                        0x00
                    },
                    1,
                    0,
                    0xF4,
                    password_block(),
                ),
            ),
        ),
        EraseStage::Sanitizing => poll_status(j, cancel),
        EraseStage::ReadingStatus => match sanitize_status_spec(data) {
            SanitizeStatus::Finished => erase_succeeded(j),
            SanitizeStatus::InProgress => (
                EraseModel { stage: EraseStage::WaitingForStatus, ..j },
                EraseActionModel::Wait { ms: SANITIZE_POLL_MS },
            ),
            SanitizeStatus::Failed(c) => erase_failed(j, FirmwareErrorModel::DeviceStatus(c)),
        },
        EraseStage::Discovering => match discovered_comid(data) {
            None => erase_failed(j, FirmwareErrorModel::Unsupported),
            Some(comid) => {
                let found = EraseModel { comid, ..j };
                erase_sends(
                    found,
                    EraseStage::SendingStart,
                    start_session_payload(found.session().host_session),
                )
            },
        },
        EraseStage::SendingStart => erase_receives(j, EraseStage::ReceivingStart),
        EraseStage::ReceivingStart => erase_sends(j, EraseStage::SendingGet, get_msid_payload()),
        EraseStage::SendingGet => erase_receives(j, EraseStage::ReceivingGet),
        EraseStage::ReceivingGet => erase_sends(
            j,
            EraseStage::SendingRevert,
            revert_payload(
                match first_bytes_token(data, 0) {
                    Some(msid) => msid,
                    None => Seq::empty(),
                },
            ),
        ),
        EraseStage::SendingRevert => erase_receives(j, EraseStage::ReceivingRevert),
        // SECURITY ERASE UNIT, Format NVM and Revert are the last commands.
        _ => erase_succeeded(j),
    }
}

/// The erase after an event, and the operation that comes next. `cancel` tells
/// whether the operator has asked to stop.
pub open spec fn erase_after(j: EraseModel, ev: EraseEventModel, cancel: bool) -> (
    EraseModel,
    EraseActionModel,
) {
    match ev {
        EraseEventModel::Failed(m) => erase_failed(j, FirmwareErrorModel::Io(m)),
        EraseEventModel::Interrupted => erase_failed(j, FirmwareErrorModel::Cancelled),
        EraseEventModel::Replied(r) => match settled(
            stage_context(j),
            r,
            j.stage == EraseStage::SettingPassword || j.stage == EraseStage::Erasing,
        ) {
            Err(e) => erase_failed(j, e),
            Ok(data) => command_done(j, data, cancel),
        },
        EraseEventModel::Done => match j.stage {
            EraseStage::Opening | EraseStage::Pacing => next_zeros(j, cancel),
            EraseStage::Zeroing => zeros_written(j),
            EraseStage::Flushing => erase_succeeded(j),
            EraseStage::WaitingForStatus => poll_status(j, cancel),
            _ => (j, EraseActionModel::Stop),
        },
    }
}

/// An erase that has begun, after a run of events. With each comes whether the
/// operator has asked to stop.
pub open spec fn erase_run(j: EraseModel, events: Seq<(EraseEventModel, bool)>) -> EraseModel
    decreases events.len(),
{
    if events.len() == 0 {
        erase_begun(j).0
    } else {
        let (ev, cancel) = events.last();
        erase_after(erase_run(j, events.drop_last()), ev, cancel).0
    }
}

/// A firmware erase of one disk.
pub struct EraseJob {
    method: FirmwareMethod,
    simulated: bool,
    bus: Bus,
    size: u64,
    bps: u64,
    stage: EraseStage,
    written: u64,
    comid: u16,
    progress: Progress,
    outcome: EraseOutcome,
}

impl View for EraseJob {
    type V = EraseModel;

    closed spec fn view(&self) -> EraseModel {
        EraseModel {
            method: self.method,
            simulated: self.simulated,
            bus: self.bus,
            size: self.size,
            bps: self.bps,
            stage: self.stage,
            written: self.written as nat,
            comid: self.comid,
            progress: self.progress@,
            outcome: self.outcome@,
        }
    }
}

/// What holds of every erase.
pub open spec fn erase_consistent(j: EraseModel) -> bool {
    &&& j.written <= j.size
    &&& j.stage == EraseStage::Zeroing ==> j.written < j.size
    &&& j.stage == EraseStage::SettingPassword ==> j.method is AtaSecureErase
}

/// The erase of `disk` by `method`, not yet begun.
pub open spec fn new_erase(disk: DiskModel, method: FirmwareMethod, progress: ProgressModel) -> EraseModel {
    EraseModel {
        method,
        simulated: disk.simulated,
        bus: disk.bus,
        size: disk.size_bytes,
        bps: simulated_bps(disk.throttle_bps),
        stage: EraseStage::Idle,
        written: 0,
        comid: 0,
        progress,
        outcome: EraseOutcomeModel::Running,
    }
}

/// Issue a firmware sanitization command: the erase of `disk` by `method`. It
/// begins with [`EraseJob::begin`].
pub(crate) fn execute(disk: &Disk, method: FirmwareMethod, progress: Progress) -> (j: EraseJob)
    ensures
        erase_consistent(j@),
        j@ == new_erase(disk@, method, progress@),
{
    // Firmware erase is fast relative to overwriting; simulate ~6x the demo
    // throttle so it visibly completes quicker than a multi-pass overwrite.
    let base: u64 = match disk.throttle_bps {
        Some(b) => b,
        None => 0x400_0000,
    };
    let bps: u64 = if base == 0 {
        1
    } else if base > u64::MAX / 6 {
        u64::MAX
    } else {
        base * 6
    };
    EraseJob {
        method,
        simulated: disk.simulated,
        bus: disk.bus,
        size: disk.size_bytes,
        bps,
        stage: EraseStage::Idle,
        written: 0,
        comid: 0,
        progress,
        outcome: EraseOutcome::Running,
    }
}

impl EraseJob {
    /// The erase is consistent.
    pub open spec fn wf(&self) -> bool {
        erase_consistent(self@)
    }

    /// The progress to show.
    pub fn progress(&self) -> (p: &Progress)
        ensures
            p@ == self@.progress,
    {
        &self.progress
    }

    /// How the erase stands.
    pub fn outcome(&self) -> (o: &EraseOutcome)
        ensures
            o@ == self@.outcome,
    {
        &self.outcome
    }

    fn fail(&mut self, e: FirmwareError) -> (a: EraseAction)
        ensures
            (final(self)@, a@) == erase_failed(old(self)@, e@),
    {
        self.stage = EraseStage::Ended;
        self.outcome = EraseOutcome::Stopped(e);
        EraseAction::Stop
    }

    fn succeed(&mut self) -> (a: EraseAction)
        ensures
            (final(self)@, a@) == erase_succeeded(old(self)@),
    {
        self.stage = EraseStage::Ended;
        self.outcome = EraseOutcome::Succeeded;
        EraseAction::Stop
    }

    fn issue(&mut self, stage: EraseStage, r: Request) -> (a: EraseAction)
        ensures
            (final(self)@, a@) == erase_issues(old(self)@, stage, r@),
    {
        self.stage = stage;
        EraseAction::Issue(r)
    }

    fn poll(&mut self, cancel: bool) -> (a: EraseAction)
        ensures
            (final(self)@, a@) == poll_status(old(self)@, cancel),
    {
        if cancel {
            self.fail(FirmwareError::Cancelled)
        } else {
            self.issue(EraseStage::ReadingStatus, Request::Nvme(sanitize_log()))
        }
    }

    fn go_on_zeroing(&mut self, cancel: bool) -> (a: EraseAction)
        requires
            old(self).wf(),
        ensures
            (final(self)@, a@) == next_zeros(old(self)@, cancel),
            final(self).wf(),
    {
        if self.written >= self.size {
            self.stage = EraseStage::Flushing;
            return EraseAction::Sync;
        }
        if cancel {
            return self.fail(FirmwareError::Cancelled);
        }
        let left: u64 = self.size - self.written;
        let len: usize = if left < ZERO_CHUNK as u64 { left as usize } else { ZERO_CHUNK };
        self.stage = EraseStage::Zeroing;
        EraseAction::WriteZeros { len }
    }

    fn count_zeros(&mut self) -> (a: EraseAction)
        requires
            old(self).wf(),
            old(self)@.stage == EraseStage::Zeroing,
        ensures
            (final(self)@, a@) == zeros_written(old(self)@),
            final(self).wf(),
    {
        let left: u64 = self.size - self.written;
        let n: u64 = if left < ZERO_CHUNK as u64 { left } else { ZERO_CHUNK as u64 };
        let done: u64 = self.written + n;
        self.written = done;
        self.progress.set_work_done(done);
        self.stage = EraseStage::Pacing;
        EraseAction::Pace { done, bps: self.bps }
    }

    fn send(&mut self, stage: EraseStage, payload: Vec<u8>) -> (a: EraseAction)
        requires
            payload@.len() <= 0xffff,
        ensures
            (final(self)@, a@) == erase_sends(old(self)@, stage, payload@),
    {
        let tx = TcgSession::open(self.comid).frame(payload.as_slice());
        let r = sec_send(self.bus, self.comid, tx);
        self.issue(stage, r)
    }

    fn receive(&mut self, stage: EraseStage) -> (a: EraseAction)
        ensures
            (final(self)@, a@) == erase_receives(old(self)@, stage),
    {
        let r = sec_recv(self.bus, self.comid, RESPONSE_LEN);
        self.issue(stage, r)
    }

    /// Starts the erase and gives its first operation.
    pub fn begin(&mut self) -> (a: EraseAction)
        requires
            old(self).wf(),
        ensures
            final(self).wf(),
            (final(self)@, a@) == erase_begun(old(self)@),
    {
        self.progress.set_pass(1, self.method.name().to_owned());
        self.progress.set_phase(Phase::Writing);
        if self.simulated {
            self.stage = EraseStage::Opening;
            return EraseAction::OpenForWrite;
        }
        self.progress.set_work_done(0);
        match self.method {
            FirmwareMethod::AtaSecureErase { enhanced } => {
                let (set, _) = ata_secure_erase(enhanced);
                self.issue(EraseStage::SettingPassword, Request::Sg(set))
            },
            FirmwareMethod::NvmeFormat { crypto } => {
                self.issue(EraseStage::Formatting, Request::Nvme(nvme_format(crypto)))
            },
            FirmwareMethod::NvmeSanitize { crypto } => {
                self.issue(EraseStage::Sanitizing, Request::Nvme(nvme_sanitize(crypto)))
            },
            FirmwareMethod::TcgRevert => {
                let r = sec_recv(self.bus, TCG_DISCOVERY_COMID, DISCOVERY_LEN);
                self.issue(EraseStage::Discovering, r)
            },
        }
    }

    fn judge(&self, reply: Reply) -> (r: Result<Vec<u8>, FirmwareError>)
        ensures
            crate::transport::bytes_result(r) == settled(
                stage_context(self@),
                reply@,
                self@.stage == EraseStage::SettingPassword || self@.stage == EraseStage::Erasing,
            ),
    {
        match self.stage {
            EraseStage::SettingPassword | EraseStage::Erasing => ata_result(reply),
            EraseStage::Formatting | EraseStage::Sanitizing | EraseStage::ReadingStatus => {
                nvme_result(reply)
            },
            _ => security_result(self.bus, reply),
        }
    }

    fn after_command(&mut self, data: Vec<u8>, cancel: bool) -> (a: EraseAction)
        requires
            old(self).wf(),
            awaits_reply(old(self)@.stage),
            reply_len(old(self)@.stage) matches Some(n) ==> data@.len() == n,
        ensures
            final(self).wf(),
            (final(self)@, a@) == command_done(old(self)@, data@, cancel),
    {
        match self.stage {
            EraseStage::SettingPassword => {
                let enhanced = match self.method {
                    FirmwareMethod::AtaSecureErase { enhanced } => enhanced,
                    _ => false,
                };
                let (_, erase) = ata_secure_erase(enhanced);
                self.issue(EraseStage::Erasing, Request::Sg(erase))
            },
            EraseStage::Sanitizing => self.poll(cancel),
            EraseStage::ReadingStatus => match sanitize_status(data.as_slice()) {
                SanitizeStatus::Finished => self.succeed(),
                SanitizeStatus::InProgress => {
                    // In progress: wait and re-poll.
                    self.stage = EraseStage::WaitingForStatus;
                    EraseAction::Wait { ms: SANITIZE_POLL_MS }
                },
                SanitizeStatus::Failed(c) => self.fail(FirmwareError::DeviceStatus(c)),
            },
            EraseStage::Discovering => match discover_comid(data.as_slice()) {
                None => self.fail(FirmwareError::Unsupported),
                Some(comid) => {
                    self.comid = comid;
                    let host: u32 = TcgSession::open(comid).host_session;
                    self.send(EraseStage::SendingStart, start_session_call(host))
                },
            },
            EraseStage::SendingStart => self.receive(EraseStage::ReceivingStart),
            EraseStage::ReceivingStart => self.send(EraseStage::SendingGet, get_msid_call()),
            EraseStage::SendingGet => self.receive(EraseStage::ReceivingGet),
            EraseStage::ReceivingGet => {
                let msid = match extract_first_bytes_token(data.as_slice()) {
                    Some(m) => m,
                    None => Vec::new(),
                };
                self.send(EraseStage::SendingRevert, revert_call(msid.as_slice()))
            },
            EraseStage::SendingRevert => self.receive(EraseStage::ReceivingRevert),
            _ => self.succeed(),
        }
    }

    /// Hands the result of the last operation to the erase and gets the next
    /// one.
    pub fn step(&mut self, ev: EraseEvent, cancel: bool) -> (a: EraseAction)
        requires
            old(self).wf(),
            old(self)@.fits(ev@),
        ensures
            final(self).wf(),
            (final(self)@, a@) == erase_after(old(self)@, ev@, cancel),
    {
        match ev {
            EraseEvent::Failed(m) => self.fail(FirmwareError::Io(m)),
            EraseEvent::Interrupted => self.fail(FirmwareError::Cancelled),
            EraseEvent::Replied(r) => match self.judge(r) {
                Err(e) => self.fail(e),
                Ok(data) => self.after_command(data, cancel),
            },
            EraseEvent::Done => match self.stage {
                EraseStage::Opening | EraseStage::Pacing => self.go_on_zeroing(cancel),
                EraseStage::Zeroing => self.count_zeros(),
                EraseStage::Flushing => self.succeed(),
                EraseStage::WaitingForStatus => self.poll(cancel),
                _ => EraseAction::Stop,
            },
        }
    }
}

/// How an ended erase is recorded.
pub open spec fn erase_status(o: EraseOutcomeModel) -> JobStatus {
    match o {
        EraseOutcomeModel::Succeeded => JobStatus::Success,
        EraseOutcomeModel::Stopped(FirmwareErrorModel::Cancelled) => JobStatus::Cancelled,
        _ => JobStatus::Failed,
    }
}

/// The error message of an ended erase; a cancelled one has none.
pub open spec fn erase_error(o: EraseOutcomeModel) -> Option<Seq<char>> {
    match o {
        EraseOutcomeModel::Stopped(e) => if e is Cancelled {
            None
        } else {
            Some(firmware_message(e))
        },
        _ => None,
    }
}

/// The report of an ended erase. What only an overwrite counts, its rounds,
/// planned passes and bytes, is zero.
pub open spec fn erase_report(j: EraseModel, disk: DiskModel, clock: JobClock) -> ReportModel {
    ReportModel {
        passes_completed: if j.outcome is Succeeded { 1 } else { 0 },
        status: erase_status(j.outcome),
        error: erase_error(j.outcome),
        started_unix: clock.started_unix,
        finished_unix: clock.finished_unix,
        duration_ns: clock.duration_ns,
        ..skeleton_spec(disk, j.method.id_spec(), j.method.name_spec(), true)
    }
}

impl EraseJob {
    /// Closes an ended erase of `disk`: its last progress, and its report.
    pub fn finish(&mut self, disk: &Disk, clock: JobClock) -> (r: JobReport)
        requires
            !(old(self)@.outcome is Running),
        ensures
            r@ == erase_report(old(self)@, disk@, clock),
            ({
                let o = old(self)@.outcome;
                let ended = ended_progress(old(self)@.progress, erase_status(o), erase_error(o));
                final(self)@ == (EraseModel {
                    progress: if o is Succeeded {
                        ProgressModel { work_done: old(self)@.size, ..ended }
                    } else {
                        ended
                    },
                    ..old(self)@
                })
            }),
    {
        let status = match &self.outcome {
            EraseOutcome::Succeeded => JobStatus::Success,
            EraseOutcome::Stopped(FirmwareError::Cancelled) => JobStatus::Cancelled,
            _ => JobStatus::Failed,
        };
        let error: Option<String> = match &self.outcome {
            EraseOutcome::Stopped(FirmwareError::Cancelled) => None,
            EraseOutcome::Stopped(e) => Some(e.message()),
            _ => None,
        };
        let ok = status == JobStatus::Success;
        if ok {
            self.progress.set_work_done(self.size);
        }
        match &error {
            Some(m) => {
                self.progress.set_error(m.clone());
            },
            None => {},
        }
        self.progress.set_phase(status.phase());
        let mut r = JobReport::skeleton(
            disk,
            self.method.id().to_owned(),
            self.method.name().to_owned(),
            true,
        );
        r.passes_completed = if ok { 1 } else { 0 };
        r.status = status;
        r.error = error;
        r.started_unix = clock.started_unix;
        r.finished_unix = clock.finished_unix;
        r.duration_ns = clock.duration_ns;
        r
    }
}

/// A simulated erase at work: `action` is the operation in flight, `data` the
/// contents of the backing file, and `at` where its next write takes place.
pub struct SimulatedRun {
    pub erase: EraseModel,
    pub action: EraseActionModel,
    pub data: Seq<u8>,
    pub at: nat,
}

/// The file takes the operation in flight and the erase goes on, with nobody
/// cancelling.
pub open spec fn simulated_step(r: SimulatedRun) -> SimulatedRun {
    let next = erase_after(r.erase, EraseEventModel::Done, false);
    let (data, at) = match r.action {
        EraseActionModel::OpenForWrite => (r.data, 0nat),
        EraseActionModel::WriteZeros { len } => (
            r.data.take(r.at as int) + zero_bytes(len as nat) + r.data.skip((r.at + len) as int),
            r.at + len as nat,
        ),
        _ => (r.data, r.at),
    };
    SimulatedRun { erase: next.0, action: next.1, data, at }
}

/// The run after `n` steps.
pub open spec fn simulated_steps(r: SimulatedRun, n: nat) -> SimulatedRun
    decreases n,
{
    if n == 0 {
        r
    } else {
        simulated_steps(simulated_step(r), (n - 1) as nat)
    }
}

spec fn zeroing_at(r: SimulatedRun, original: Seq<u8>) -> bool {
    let j = r.erase;
    &&& j.written <= j.size <= original.len()
    &&& r.at == j.written
    &&& r.data == zero_bytes(j.written) + original.skip(j.written as int)
    &&& if j.written < j.size {
        &&& j.stage == EraseStage::Zeroing
        &&& r.action == (EraseActionModel::WriteZeros { len: j.zeros() as usize })
    } else {
        &&& j.stage == EraseStage::Flushing
        &&& r.action is Sync
    }
}

proof fn lemma_zeroing(r: SimulatedRun, original: Seq<u8>) -> (n: nat)
    requires
        zeroing_at(r, original),
    ensures
        simulated_steps(r, n).action is Stop,
        simulated_steps(r, n).erase.outcome is Succeeded,
        simulated_steps(r, n).data == zero_bytes(r.erase.size as nat) + original.skip(
            r.erase.size as int,
        ),
    decreases r.erase.size - r.erase.written,
{
    let j = r.erase;
    reveal_with_fuel(simulated_steps, 2);
    if j.written < j.size {
        let r1 = simulated_step(r);
        let r2 = simulated_step(r1);
        let done = (j.written + j.zeros()) as nat;
        assert(r1.data =~= zero_bytes(done) + original.skip(done as int));
        assert(zeroing_at(r2, original));
        let n = lemma_zeroing(r2, original);
        assert(simulated_steps(r, n + 2) == simulated_steps(r1, n + 1));
        assert(simulated_steps(r1, n + 1) == simulated_steps(r2, n));
        n + 2
    } else {
        assert(simulated_steps(r, 1) == simulated_steps(simulated_step(r), 0));
        1
    }
}

/// The simulated erase of a disk ends in success and leaves exactly the
/// advertised bytes of its backing file zero, and nothing else changed.
pub proof fn law_simulated_erase_zeroes_the_disk(
    disk: DiskModel,
    method: FirmwareMethod,
    progress: ProgressModel,
    data: Seq<u8>,
    at: nat,
) -> (n: nat)
    requires
        disk.simulated,
        disk.size_bytes <= data.len(),
    ensures
        ({
            let begun = erase_begun(new_erase(disk, method, progress));
            let end = simulated_steps(
                SimulatedRun { erase: begun.0, action: begun.1, data, at },
                n,
            );
            &&& end.action is Stop
            &&& end.erase.outcome is Succeeded
            &&& end.data == zero_bytes(disk.size_bytes as nat) + data.skip(disk.size_bytes as int)
        }),
{
    let begun = erase_begun(new_erase(disk, method, progress));
    let r = SimulatedRun { erase: begun.0, action: begun.1, data, at };
    let r1 = simulated_step(r);
    assert(r1.data =~= zero_bytes(0) + data.skip(0));
    assert(zeroing_at(r1, data));
    let n = lemma_zeroing(r1, data);
    assert(simulated_steps(r, n + 1) == simulated_steps(r1, n));
    n + 1
}

/// A cancelled simulated erase writes no further zeros, and a cancelled
/// sanitize is not polled again: both stop as cancelled.
pub proof fn law_cancelled_erase_stops(j: EraseModel)
    requires
        (j.stage == EraseStage::Opening || j.stage == EraseStage::Pacing) && j.written < j.size
            || j.stage == EraseStage::WaitingForStatus,
    ensures
        erase_after(j, EraseEventModel::Done, true) == erase_failed(
            j,
            FirmwareErrorModel::Cancelled,
        ),
{
}

/// The erase of a simulated disk begins with its backing file, whatever the
/// method, and not with a command to a drive.
pub proof fn law_simulated_disk_gets_no_command(j: EraseModel)
    requires
        j.simulated,
    ensures
        erase_begun(j).1 is OpenForWrite,
{
}

} // verus!
