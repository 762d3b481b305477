//! Requests to a drive, and what comes back.
//!
//! A request says everything about a pass-through command; the program hands
//! it to the kernel and returns a [`Reply`].

use vstd::prelude::*;

use crate::firmware::{FirmwareError, FirmwareErrorModel};
use crate::text::push_text;

verus! {

/// Which way data moves in an `SG_IO` request.
#[derive(Clone, Copy, Debug, PartialEq, Eq, Structural)]
pub enum SgDirection {
    NoData,
    FromDevice,
    ToDevice,
}

impl SgDirection {
    /// The value of the header field `dxfer_direction`.
    pub fn code(&self) -> (c: i32)
        ensures
            c == (match *self {
                SgDirection::NoData => -1i32,
                SgDirection::FromDevice => -3i32,
                SgDirection::ToDevice => 2i32,
            }),
    {
        match self {
            SgDirection::NoData => -1,
            SgDirection::FromDevice => -3,
            SgDirection::ToDevice => 2,
        }
    }
}

/// A SCSI command over `SG_IO`.
#[derive(Debug)]
pub struct SgRequest {
    /// The command descriptor block.
    pub cdb: Vec<u8>,
    /// Which way `data` moves.
    pub direction: SgDirection,
    /// The bytes to send, or the buffer to receive into.
    pub data: Vec<u8>,
    /// Time limit in milliseconds.
    pub timeout_ms: u32,
    /// What the command is called in error messages.
    pub context: &'static str,
}

/// An [`SgRequest`], with its contents as sequences.
pub struct SgModel {
    pub cdb: Seq<u8>,
    pub direction: SgDirection,
    pub data: Seq<u8>,
    pub timeout_ms: u32,
    pub context: Seq<char>,
}

impl View for SgRequest {
    type V = SgModel;

    open spec fn view(&self) -> SgModel {
        SgModel {
            cdb: self.cdb@,
            direction: self.direction,
            data: self.data@,
            timeout_ms: self.timeout_ms,
            context: self.context@,
        }
    }
}

/// The words of an NVMe admin command.
#[derive(Clone, Copy, Debug, PartialEq, Eq, Structural)]
pub struct NvmeAdminCmd {
    pub opcode: u8,
    pub nsid: u32,
    pub data_len: u32,
    pub cdw10: u32,
    pub cdw11: u32,
    pub timeout_ms: u32,
}

/// An NVMe admin command and its buffer.
#[derive(Debug)]
pub struct NvmeRequest {
    pub cmd: NvmeAdminCmd,
    /// The bytes to send, or the buffer to receive into.
    pub data: Vec<u8>,
}

/// An [`NvmeRequest`], with its buffer as a sequence.
pub struct NvmeModel {
    pub cmd: NvmeAdminCmd,
    pub data: Seq<u8>,
}

impl View for NvmeRequest {
    type V = NvmeModel;

    open spec fn view(&self) -> NvmeModel {
        NvmeModel { cmd: self.cmd, data: self.data@ }
    }
}

/// A request to a drive.
#[derive(Debug)]
pub enum Request {
    Sg(SgRequest),
    Nvme(NvmeRequest),
}

/// A [`Request`] by its view.
pub enum RequestModel {
    Sg(SgModel),
    Nvme(NvmeModel),
}

impl View for Request {
    type V = RequestModel;

    open spec fn view(&self) -> RequestModel {
        match *self {
            Request::Sg(r) => RequestModel::Sg(r@),
            Request::Nvme(r) => RequestModel::Nvme(r@),
        }
    }
}

/// What came back from a request.
#[derive(Debug)]
pub enum Reply {
    /// The device could not be opened, by the message.
    NotOpened(String),
    /// The kernel refused the request, by the message.
    Refused(String),
    /// The drive answered: its status, its sense buffer, and the data buffer.
    Completed { status: u32, sense: Vec<u8>, data: Vec<u8> },
}

/// A [`Reply`], with its contents as sequences.
pub enum ReplyModel {
    NotOpened(Seq<char>),
    Refused(Seq<char>),
    Completed { status: u32, sense: Seq<u8>, data: Seq<u8> },
}

impl View for Reply {
    type V = ReplyModel;

    open spec fn view(&self) -> ReplyModel {
        match *self {
            Reply::NotOpened(m) => ReplyModel::NotOpened(m@),
            Reply::Refused(m) => ReplyModel::Refused(m@),
            Reply::Completed { status, sense, data } => ReplyModel::Completed {
                status,
                sense: sense@,
                data: data@,
            },
        }
    }
}

/// The view of a result that carries bytes.
pub open spec fn bytes_result(r: Result<Vec<u8>, FirmwareError>) -> Result<
    Seq<u8>,
    FirmwareErrorModel,
> {
    match r {
        Ok(d) => Ok(d@),
        Err(e) => Err(e@),
    }
}

/// The view of a result that carries a plain value.
pub open spec fn plain_result<T>(r: Result<T, FirmwareError>) -> Result<T, FirmwareErrorModel> {
    match r {
        Ok(x) => Ok(x),
        Err(e) => Err(e@),
    }
}

/// How a command went: a status of zero is good, and so is status 2 if
/// `check_condition_is_good`.
pub open spec fn settled(
    context: Seq<char>,
    reply: ReplyModel,
    check_condition_is_good: bool,
) -> Result<Seq<u8>, FirmwareErrorModel> {
    match reply {
        ReplyModel::NotOpened(m) => Err(FirmwareErrorModel::Io(m)),
        ReplyModel::Refused(m) => Err(FirmwareErrorModel::Io(context + ": "@ + m)),
        ReplyModel::Completed { status, sense, data } => if status == 0 || (status == 2
            && check_condition_is_good) {
            Ok(data)
        } else {
            Err(FirmwareErrorModel::DeviceStatus(status))
        },
    }
}

/// How a command went: the data it returned, or the error. A status of zero is
/// good, and so is status 2 (CHECK CONDITION) if `check_condition_is_good`.
pub fn settle(context: &str, reply: Reply, check_condition_is_good: bool) -> (r: Result<
    Vec<u8>,
    FirmwareError,
>)
    ensures
        bytes_result(r) == settled(context@, reply@, check_condition_is_good),
{
    match reply {
        Reply::NotOpened(m) => Err(FirmwareError::Io(m)),
        Reply::Refused(m) => {
            let mut s = context.to_owned();
            push_text(&mut s, ": ");
            push_text(&mut s, m.as_str());
            Err(FirmwareError::Io(s))
        },
        Reply::Completed { status, sense, data } => {
            if status == 0 || (status == 2 && check_condition_is_good) {
                Ok(data)
            } else {
                Err(FirmwareError::DeviceStatus(status))
            }
        },
    }
}

} // verus!
