//! NVMe admin commands, and their replies.
//!
//! ABI references: NVMe admin commands over `NVME_IOCTL_ADMIN_CMD`, NVMe Base
//! Specification (Identify, Format NVM, Sanitize).

use vstd::prelude::*;

use crate::bytes::{bit_set, has_bit, zero_bytes, zeroed};
use crate::firmware::{no_support, FirmwareError, FirmwareSupport};
use crate::transport::{
    bytes_result, settle, settled, NvmeAdminCmd, NvmeModel, NvmeRequest, Reply,
};

verus! {

/// An admin command with every word zero.
pub open spec fn blank_admin_spec() -> NvmeAdminCmd {
    NvmeAdminCmd { opcode: 0, nsid: 0, data_len: 0, cdw10: 0, cdw11: 0, timeout_ms: 0 }
}

fn blank_admin() -> (c: NvmeAdminCmd)
    ensures
        c == blank_admin_spec(),
{
    NvmeAdminCmd { opcode: 0, nsid: 0, data_len: 0, cdw10: 0, cdw11: 0, timeout_ms: 0 }
}

/// How an admin command went: a positive return is the NVMe status field.
pub fn nvme_result(reply: Reply) -> (r: Result<Vec<u8>, FirmwareError>)
    ensures
        bytes_result(r) == settled("NVME_IOCTL_ADMIN_CMD"@, reply@, false),
{
    settle("NVME_IOCTL_ADMIN_CMD", reply, false)
}

/// Identify Controller (opcode 0x06, CNS=1), 4096 bytes.
pub open spec fn identify_controller_spec() -> NvmeModel {
    NvmeModel {
        cmd: NvmeAdminCmd { opcode: 0x06, data_len: 4096, cdw10: 1, ..blank_admin_spec() },
        data: zero_bytes(4096),
    }
}

/// Identify Controller (opcode 0x06, CNS=1) to read OACS/FNA/SANICAP.
pub fn identify_controller() -> (r: NvmeRequest)
    ensures
        r@ == identify_controller_spec(),
{
    let mut cmd = blank_admin();
    cmd.opcode = 0x06;
    cmd.data_len = 4096;
    cmd.cdw10 = 1;  // CNS = Identify Controller
    NvmeRequest { cmd, data: zeroed(4096) }
}

/// The support that Identify Controller data tell of: FNA (byte 524) bit 2 is
/// crypto erase in Format, SANICAP (from byte 328) bit 0 crypto and bit 1 block
/// erase. Format NVM itself is mandatory.
pub open spec fn nvme_support(id: Seq<u8>) -> FirmwareSupport {
    FirmwareSupport {
        nvme_format_user: true,
        nvme_format_crypto: has_bit(id[524] as int, 4),
        nvme_sanitize_block: has_bit(id[328] as int, 2),
        nvme_sanitize_crypto: has_bit(id[328] as int, 1),
        ..no_support()
    }
}

/// Read sanitization support from Identify Controller data.
pub fn detect_nvme(id: &[u8]) -> (s: FirmwareSupport)
    requires
        id@.len() == 4096,
    ensures
        s == nvme_support(id@),
{
    let mut s = FirmwareSupport::default();
    s.nvme_format_user = true;  // Format NVM is mandatory
    // FNA (byte 524) bit 2: crypto erase supported as part of Format.
    s.nvme_format_crypto = bit_set(id[524] as u64, 4);
    // SANICAP (bytes 328..332): bit0 crypto erase, bit1 block erase.
    s.nvme_sanitize_crypto = bit_set(id[328] as u64, 1);
    s.nvme_sanitize_block = bit_set(id[328] as u64, 2);
    s
}

/// Format NVM on all namespaces: user erase (SES=1) or crypto erase (SES=2).
pub open spec fn format_spec(crypto: bool) -> NvmeModel {
    NvmeModel {
        cmd: NvmeAdminCmd {
            opcode: 0x80,
            nsid: 0xffff_ffff,
            cdw10: if crypto { 0x400 } else { 0x200 },
            timeout_ms: 600_000,
            ..blank_admin_spec()
        },
        data: Seq::empty(),
    }
}

/// NVMe Format NVM (opcode 0x80). SES field in CDW10 bits 11:9.
pub fn nvme_format(crypto: bool) -> (r: NvmeRequest)
    ensures
        r@ == format_spec(crypto),
{
    let ses: u32 = if crypto { 2 } else { 1 };
    let mut cmd = blank_admin();
    cmd.opcode = 0x80;
    cmd.nsid = 0xffff_ffff;  // all namespaces
    cmd.cdw10 = ses * 512;
    cmd.timeout_ms = 600_000;
    NvmeRequest { cmd, data: Vec::new() }
}

/// Sanitize: block erase (SANACT=2) or crypto erase (SANACT=4).
pub open spec fn sanitize_spec(crypto: bool) -> NvmeModel {
    NvmeModel {
        cmd: NvmeAdminCmd {
            opcode: 0x84,
            cdw10: if crypto { 4 } else { 2 },
            ..blank_admin_spec()
        },
        data: Seq::empty(),
    }
}

/// NVMe Sanitize (opcode 0x84). SANACT in CDW10 bits 2:0: 2 block erase,
/// 4 crypto erase. The operation is asynchronous; once it is kicked off, the
/// Sanitize Status log page ([`sanitize_log`]) is polled until it reports
/// completion.
pub fn nvme_sanitize(crypto: bool) -> (r: NvmeRequest)
    ensures
        r@ == sanitize_spec(crypto),
{
    let mut cmd = blank_admin();
    cmd.opcode = 0x84;
    cmd.cdw10 = if crypto { 4 } else { 2 };
    NvmeRequest { cmd, data: Vec::new() }
}

/// Get Log Page of the Sanitize Status log: 512 bytes, that is 127 dwords and
/// one.
pub open spec fn sanitize_log_spec() -> NvmeModel {
    NvmeModel {
        cmd: NvmeAdminCmd {
            opcode: 0x02,
            nsid: 0xffff_ffff,
            data_len: 512,
            cdw10: 0x7f_0081,
            ..blank_admin_spec()
        },
        data: zero_bytes(512),
    }
}

/// Get Log Page (opcode 0x02), log id 0x81 (Sanitize Status).
pub fn sanitize_log() -> (r: NvmeRequest)
    ensures
        r@ == sanitize_log_spec(),
{
    let dwords: u32 = 512 / 4 - 1;
    let mut cmd = blank_admin();
    cmd.opcode = 0x02;
    cmd.nsid = 0xffff_ffff;
    cmd.data_len = 512;
    cmd.cdw10 = 0x81 + dwords * 0x1_0000;
    NvmeRequest { cmd, data: zeroed(512) }
}

/// What the Sanitize Status log says.
#[derive(Clone, Copy, Debug, PartialEq, Eq, Structural)]
pub enum SanitizeStatus {
    /// Completed successfully, or never sanitized.
    Finished,
    /// Still in progress.
    InProgress,
    /// Ended in this status.
    Failed(u32),
}

/// What SSTAT (bytes 2..4) bits 2:0 of the log say.
pub open spec fn sanitize_status_spec(log: Seq<u8>) -> SanitizeStatus {
    let sstat = log[2] % 8;
    if sstat == 0 || sstat == 1 {
        SanitizeStatus::Finished
    } else if sstat == 2 {
        SanitizeStatus::InProgress
    } else {
        SanitizeStatus::Failed(sstat as u32)
    }
}

/// Reads the Sanitize Status log.
pub fn sanitize_status(log: &[u8]) -> (s: SanitizeStatus)
    requires
        log@.len() == 512,
    ensures
        s == sanitize_status_spec(log@),
{
    let sstat: u8 = log[2] % 8;
    if sstat == 0 || sstat == 1 {
        SanitizeStatus::Finished  // never sanitized / completed OK
    } else if sstat == 2 {
        SanitizeStatus::InProgress
    } else {
        SanitizeStatus::Failed(sstat as u32)
    }
}

/// Security Send (opcode 0x81) or Receive (0x82): the protocol in CDW10 bits
/// 31:24, the ComID in bits 23:8.
pub open spec fn nvme_security_spec(
    send: bool,
    protocol: u8,
    comid: u16,
    data: Seq<u8>,
) -> NvmeModel {
    NvmeModel {
        cmd: NvmeAdminCmd {
            opcode: if send { 0x81 } else { 0x82 },
            data_len: data.len() as u32,
            cdw10: (0x100_0000 * protocol + 0x100 * comid) as u32,
            cdw11: data.len() as u32,
            ..blank_admin_spec()
        },
        data,
    }
}

/// NVMe Security Send/Receive (admin opcode 0x81/0x82).
pub fn nvme_security(send: bool, protocol: u8, comid: u16, data: Vec<u8>) -> (r: NvmeRequest)
    requires
        data@.len() <= u32::MAX,
    ensures
        r@ == nvme_security_spec(send, protocol, comid, data@),
{
    let mut cmd = blank_admin();
    cmd.opcode = if send { 0x81 } else { 0x82 };
    cmd.data_len = data.len() as u32;
    // SECP (protocol) in cdw10 bits 31:24, SPSP (ComID) in bits 23:8.
    cmd.cdw10 = 0x100_0000 * (protocol as u32) + 0x100 * (comid as u32);
    cmd.cdw11 = data.len() as u32;
    NvmeRequest { cmd, data }
}

} // verus!
