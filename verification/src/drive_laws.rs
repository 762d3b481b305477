//! What commands to a drive say, and what its answers mean, byte by byte.

use vstd::prelude::*;

use crate::ata::{
    ata_command, ata_hidden_areas, ata_lba48_command, ata_support, lba48_outcome, logical_sector_size,
    reveal_after, reveal_fits, RevealActionModel, RevealAta, RevealEventModel,
};
use crate::bytes::{be16, be16_at, be32, be32_at, byte_of, word_at, zero_bytes};
use crate::device::{Bus, DiskModel, MediaKind};
use crate::firmware::{hidden_areas_spec, support_spec, FirmwareMethod, FirmwareSupport};
use crate::nvme::{
    identify_controller_spec, nvme_security_spec, nvme_support, sanitize_log_spec, sanitize_status_spec,
    SanitizeStatus,
};
use crate::tcg::{
    compacket, discovered_comid, minimal_be, packet, padding, scsi_security_spec, subpacket, TcgSession,
};
use crate::transport::{ReplyModel, SgDirection};

verus! {

/// The security support of a SATA drive, from its identify data: bit 1 of word 82 is
/// the feature set, bit 3 of word 128 says frozen, bit 5 of it the enhanced erase,
/// which counts only with the feature set. They say nothing of NVMe or TCG.
pub proof fn law_ata_support_bits(id: Seq<u8>)
    requires
        id.len() == 512,
    ensures
        ({
            let s = ata_support(id);
            &&& s.ata_secure_erase <==> (id[164] / 2) % 2 == 1
            &&& s.ata_frozen <==> (id[256] / 8) % 2 == 1
            &&& s.ata_enhanced_erase <==> (id[164] / 2) % 2 == 1 && (id[256] / 32) % 2 == 1
            &&& !s.nvme_format_user && !s.nvme_format_crypto
            &&& !s.nvme_sanitize_block && !s.nvme_sanitize_crypto
            &&& !s.opal
        }),
{
    lemma_low_byte(id[164] as int, id[165] as int);
    lemma_low_byte(id[256] as int, id[257] as int);
}

/// The low bits of a word are those of its low byte.
proof fn lemma_low_byte(low: int, high: int)
    requires
        0 <= low < 256,
        0 <= high < 256,
    ensures
        ((low + 256 * high) / 2) % 2 == (low / 2) % 2,
        ((low + 256 * high) / 8) % 2 == (low / 8) % 2,
        ((low + 256 * high) / 32) % 2 == (low / 32) % 2,
{
    assert((low + 256 * high) / 2 == low / 2 + 128 * high);
    assert((low + 256 * high) / 8 == low / 8 + 32 * high);
    assert((low + 256 * high) / 32 == low / 32 + 8 * high);
    assert((low / 2 + 128 * high) % 2 == (low / 2) % 2);
    assert((low / 8 + 32 * high) % 2 == (low / 8) % 2);
    assert((low / 32 + 8 * high) % 2 == (low / 32) % 2);
}

/// The support of an NVMe drive, from its identify data: Format is always there, bit
/// 2 of byte 524 is its cryptographic erase, bits 0 and 1 of byte 328 are the
/// cryptographic and the block sanitize. They say nothing of ATA or TCG.
pub proof fn law_nvme_support_bits(id: Seq<u8>)
    requires
        id.len() == 4096,
    ensures
        ({
            let s = nvme_support(id);
            &&& s.nvme_format_user
            &&& s.nvme_format_crypto <==> (id[524] / 4) % 2 == 1
            &&& s.nvme_sanitize_crypto <==> id[328] % 2 == 1
            &&& s.nvme_sanitize_block <==> (id[328] / 2) % 2 == 1
            &&& !s.ata_secure_erase && !s.ata_enhanced_erase && !s.ata_frozen
            &&& !s.opal
        }),
{
}

/// A real drive that is neither SATA nor NVMe supports no firmware erase, and one of
/// which a probe failed supports nothing that the probe would have told.
pub proof fn law_unprobed_drives_support_nothing(
    disk: DiskModel,
    identified: Option<FirmwareSupport>,
    opal: Option<bool>,
    m: FirmwareMethod,
)
    requires
        !disk.simulated,
    ensures
        ({
            let s = support_spec(disk, identified, opal);
            &&& disk.bus != Bus::Sata && disk.bus != Bus::Nvme ==> !s.supports_spec(m)
            &&& s.supports_spec(FirmwareMethod::TcgRevert) ==> opal == Some(true)
            &&& (disk.bus == Bus::Sata || disk.bus == Bus::Nvme) && opal == Some(true)
                ==> s.supports_spec(FirmwareMethod::TcgRevert)
            &&& identified is None && !(m is TcgRevert) ==> !s.supports_spec(m)
            &&& (disk.bus == Bus::Sata || disk.bus == Bus::Nvme) && identified is Some && !(m is TcgRevert)
                ==> (s.supports_spec(m) <==> identified->0.supports_spec(m))
        }),
{
}

/// A simulated disk supports the commands of the bus that it presents, and no
/// others.
pub proof fn law_simulated_disks_support_their_bus(disk: DiskModel, enhanced: bool, crypto: bool)
    requires
        disk.simulated,
    ensures
        ({
            let s = support_spec(disk, None, None);
            &&& s.supports_spec(FirmwareMethod::AtaSecureErase { enhanced }) <==> disk.bus == Bus::Sata
            &&& s.supports_spec(FirmwareMethod::NvmeFormat { crypto }) <==> disk.bus == Bus::Nvme
            &&& s.supports_spec(FirmwareMethod::NvmeSanitize { crypto }) <==> disk.bus == Bus::Nvme
            &&& s.supports_spec(FirmwareMethod::TcgRevert) <==> disk.bus == Bus::Nvme || (disk.bus
                == Bus::Sata && disk.kind == MediaKind::Ssd)
        }),
{
}

/// An ATA command goes out through ATA PASS-THROUGH(16) with its command, feature and
/// count in their places, and receives data exactly if it has a buffer.
pub proof fn law_ata_command_bytes(
    features: u8,
    sector_count: u8,
    lba: u32,
    command: u8,
    data: Seq<u8>,
)
    requires
        lba < 0x100_0000,
    ensures
        ({
            let r = ata_command(features, sector_count, lba, command, data);
            &&& r.cdb.len() == 16
            &&& r.cdb[0] == 0x85
            &&& r.cdb[4] == features
            &&& r.cdb[6] == sector_count
            &&& r.cdb[8] + 0x100 * r.cdb[10] + 0x1_0000 * r.cdb[12] == lba
            &&& r.cdb[14] == command
            &&& r.data == data
            &&& r.direction == if data.len() > 0 { SgDirection::FromDevice } else { SgDirection::NoData }
            &&& r.cdb[1] == if data.len() > 0 { 8u8 } else { 6u8 }
        }),
{
    let x = lba as int;
    assert(x == x % 256 + 256 * ((x / 256) % 256) + 65536 * ((x / 65536) % 256));
}

/// A 48-bit command carries its whole address, in the order in which the drive's
/// registers take it, and asks for the registers back.
pub proof fn law_lba48_command_carries_the_address(features: u8, command: u8, lba: u64)
    requires
        lba < 0x1_0000_0000_0000,
    ensures
        ({
            let r = ata_lba48_command(features, command, lba);
            &&& r.cdb.len() == 16
            &&& r.cdb[0] == 0x85
            &&& r.cdb[1] == 7
            &&& r.cdb[2] == 0x21
            &&& r.cdb[4] == features
            &&& r.cdb[14] == command
            &&& r.cdb[8] + 0x100 * r.cdb[10] + 0x1_0000 * r.cdb[12] + 0x100_0000 * r.cdb[7]
                + 0x1_0000_0000 * r.cdb[9] + 0x100_0000_0000 * r.cdb[5] == lba
            &&& r.direction == SgDirection::NoData && r.data.len() == 0
        }),
{
    let x = lba as int;
    let b0 = x % 256;
    let x1 = x / 256;
    let b1 = x1 % 256;
    let x2 = x1 / 256;
    let b2 = x2 % 256;
    let x3 = x2 / 256;
    let b3 = x3 % 256;
    let x4 = x3 / 256;
    let b4 = x4 % 256;
    let x5 = x4 / 256;
    assert(x1 == x / 0x100);
    assert(x2 == x / 0x1_0000);
    assert(x3 == x / 0x100_0000);
    assert(x4 == x / 0x1_0000_0000);
    assert(x5 == x / 0x100_0000_0000);
    assert(x5 < 256);
    assert(x == b0 + 256 * x1);
    assert(x1 == b1 + 256 * x2);
    assert(x2 == b2 + 256 * x3);
    assert(x3 == b3 + 256 * x4);
    assert(x4 == b4 + 256 * x5);
}

/// A drive that answers a 48-bit command with the address `last` in its registers has
/// one sector more than that, however the command's status reads; without registers
/// there is no answer.
pub proof fn law_native_size_is_one_above_the_last_sector(
    status: u32,
    sense: Seq<u8>,
    data: Seq<u8>,
    last: int,
)
    requires
        sense.len() >= 20,
        last == sense[15] + 0x100 * sense[17] + 0x1_0000 * sense[19] + 0x100_0000 * sense[14]
            + 0x1_0000_0000 * sense[16] + 0x100_0000_0000 * sense[18],
    ensures
        ({
            let r = lba48_outcome(ReplyModel::Completed { status, sense, data });
            &&& sense[0] == 0x72 && sense[8] == 0x09 ==> (r matches Ok(n) && n == last + 1)
            &&& sense[0] != 0x72 || sense[8] != 0x09 ==> r is Err
        }),
{
}

/// The hidden areas of a drive only ever add sectors: what the drive tells of its
/// native and real size counts where it is more, and a drive that tells nothing hides
/// nothing. The sectors that can be addressed are those that fit the advertised size.
pub proof fn law_hidden_areas_only_add(
    advertised: u64,
    id: Seq<u8>,
    native: Option<u64>,
    dco: Option<Seq<u8>>,
)
    requires
        id.len() == 512,
        logical_sector_size(id) <= u32::MAX,
        dco matches Some(d) ==> d.len() == 512,
    ensures
        ({
            let h = ata_hidden_areas(advertised, id, native, dco);
            let told = match dco {
                Some(d) => d[6] + 0x100 * d[7] + 0x1_0000 * (d[8] + 0x100 * d[9]) + 0x1_0000_0000 * (
                d[10] + 0x100 * d[11]),
                None => 0,
            };
            &&& h.sector_size >= 2
            &&& h.current_sectors * h.sector_size <= advertised < (h.current_sectors + 1)
                * h.sector_size
            &&& h.current_sectors <= h.native_sectors <= h.real_sectors
            &&& (native matches Some(n) ==> (n >= h.current_sectors ==> h.native_sectors == n))
            &&& native is None ==> h.native_sectors == h.current_sectors
            &&& dco is None ==> h.real_sectors == h.native_sectors
            &&& told >= h.native_sectors ==> h.real_sectors == told
        }),
{
    let size = logical_sector_size(id);
    let a = advertised as int;
    let q = a / size;
    assert(q * size <= a && a < (q + 1) * size && 0 <= q <= a) by (nonlinear_arith)
        requires
            q == a / size,
            size >= 2,
            a >= 0,
    ;
}

/// The sector size is 512 bytes unless bit 12 of word 106 says that words 117 and 118
/// hold it, in units of two bytes.
pub proof fn law_sector_size_is_told(id: Seq<u8>)
    requires
        id.len() == 512,
    ensures
        ({
            let words = id[234] + 0x100 * id[235] + 0x1_0000 * (id[236] + 0x100 * id[237]);
            let valid = (id[213] / 16) % 2 == 1;
            &&& valid && words > 0 ==> logical_sector_size(id) == 2 * words
            &&& !valid || words == 0 ==> logical_sector_size(id) == 512
        }),
{
    let w = word_at(id, 106);
    assert(w == id[212] + 256 * id[213]);
    assert((w / 0x1000) % 2 == (id[213] / 16) % 2);
}

/// The removal of hidden areas sets the largest address to the last native sector,
/// and ends in success only by a measurement after that; a failure ends it, except
/// that of a configuration restore, which comes first where a configuration overlay
/// hides sectors.
pub proof fn law_reveal_sets_the_native_size(stage: RevealAta, ev: RevealEventModel)
    requires
        reveal_fits(stage, ev),
    ensures
        ({
            let (next, a) = reveal_after(stage, ev);
            &&& stage == RevealAta::ReadingNative ==> (ev matches RevealEventModel::Sectors(n) ==> (n
                >= 1 ==> next == RevealAta::SettingMax && a == RevealActionModel::IssueLba48(
                ata_lba48_command(0, 0x37, (n - 1) as u64),
            )))
            &&& a is Revealed ==> stage == RevealAta::Remeasuring && (ev matches RevealEventModel::Measured(
                h,
            ) && a == RevealActionModel::Revealed(h))
            &&& next == RevealAta::Remeasuring ==> stage == RevealAta::SettingMax && ev is Sectors
            &&& next == RevealAta::SettingMax ==> stage == RevealAta::ReadingNative
            &&& ev is Failed && stage != RevealAta::Restoring ==> a is Fail && next == RevealAta::Ended
            &&& stage == RevealAta::Measuring ==> (ev matches RevealEventModel::Measured(h) ==> (next
                == RevealAta::Restoring <==> h.real_sectors > h.native_sectors))
            &&& next == RevealAta::Restoring ==> (a matches RevealActionModel::Issue(r) && r.cdb[14] == 0xB1
                && r.cdb[4] == 0xC0)
            &&& next == RevealAta::ReadingNative ==> a == RevealActionModel::IssueLba48(
                ata_lba48_command(0, 0x27, 0),
            )
        }),
{
}

/// What a simulated disk hides is what its backing file is longer than advertised, in
/// whole sectors; a shorter or unknown file hides nothing.
pub proof fn law_simulated_disks_hide_what_is_behind(disk: DiskModel, file_len: Option<u64>)
    requires
        disk.simulated,
    ensures
        ({
            let h = hidden_areas_spec(disk, file_len, None);
            &&& h.sector_size == 512
            &&& h.current_sectors == disk.size_bytes / 512
            &&& (file_len matches Some(n) ==> (n > disk.size_bytes ==> h.real_sectors == n / 512))
            &&& !(file_len matches Some(n) && n > disk.size_bytes) ==> h.hidden_spec() == 0
        }),
{
}

/// The sanitize log says by the low three bits of its third byte how a sanitize
/// stands: 0 and 1 are done, 2 is under way, anything else a failure.
pub proof fn law_sanitize_log_is_read(log: Seq<u8>)
    requires
        log.len() == 512,
    ensures
        sanitize_status_spec(log) == SanitizeStatus::Finished <==> log[2] % 8 <= 1,
        sanitize_status_spec(log) == SanitizeStatus::InProgress <==> log[2] % 8 == 2,
        log[2] % 8 >= 3 ==> sanitize_status_spec(log) == SanitizeStatus::Failed((log[2] % 8) as u32),
{
}

/// The queries of an NVMe drive change nothing: Identify Controller (0x06, structure
/// 1) and Get Log Page (0x02) of the sanitize log (0x81), with buffers as long as they
/// ask for.
pub proof fn law_nvme_queries_ask_for_their_buffers()
    ensures
        identify_controller_spec().cmd.opcode == 0x06,
        identify_controller_spec().cmd.cdw10 == 1,
        identify_controller_spec().cmd.data_len == identify_controller_spec().data.len() == 4096,
        sanitize_log_spec().cmd.opcode == 0x02,
        sanitize_log_spec().cmd.cdw10 % 0x1_0000 == 0x81,
        4 * (sanitize_log_spec().cmd.cdw10 / 0x1_0000 + 1) == 512,
        sanitize_log_spec().cmd.data_len == sanitize_log_spec().data.len() == 512,
{
}

/// A security command carries its direction, the protocol, the ComID and the length
/// of its data, on either transport.
pub proof fn law_security_command_bytes(send: bool, protocol: u8, comid: u16, data: Seq<u8>)
    requires
        data.len() <= u32::MAX,
    ensures
        ({
            let r = scsi_security_spec(send, protocol, comid, data);
            &&& r.cdb.len() == 12
            &&& r.cdb[0] == if send { 0xB5u8 } else { 0xA2u8 }
            &&& r.cdb[1] == protocol
            &&& 0x100 * r.cdb[2] + r.cdb[3] == comid
            &&& 0x100_0000 * r.cdb[6] + 0x1_0000 * r.cdb[7] + 0x100 * r.cdb[8] + r.cdb[9] == data.len()
            &&& r.data == data
            &&& r.direction == if send { SgDirection::ToDevice } else { SgDirection::FromDevice }
        }),
        ({
            let r = nvme_security_spec(send, protocol, comid, data);
            &&& r.cmd.opcode == if send { 0x81u8 } else { 0x82u8 }
            &&& r.cmd.cdw10 / 0x100_0000 == protocol
            &&& (r.cmd.cdw10 / 0x100) % 0x1_0000 == comid
            &&& r.cmd.data_len == data.len() && r.cmd.cdw11 == data.len()
            &&& r.data == data
        }),
{
    let n = data.len() as int;
    let c = comid as int;
    assert(c == 256 * ((c / 256) % 256) + c % 256);
    let n1 = n / 256;
    let n2 = n1 / 256;
    let n3 = n2 / 256;
    assert(n1 == n / 0x100 && n2 == n / 0x1_0000 && n3 == n / 0x100_0000);
    assert(n == n % 256 + 256 * n1 && n1 == n1 % 256 + 256 * n2 && n2 == n2 % 256 + 256 * n3);
    let w = 0x100_0000 * protocol + 0x100 * comid;
    assert(0 <= w <= u32::MAX);
    assert(w / 0x100_0000 == protocol && (w / 0x100) % 0x1_0000 == comid);
}

/// The framing of a method call tells the ComID, the session and the lengths of what
/// it wraps, and fills a whole number of 512-byte blocks.
pub proof fn law_frame_tells_its_lengths(s: TcgSession, payload: Seq<u8>)
    requires
        payload.len() <= 0xffff,
    ensures
        ({
            let f = s.framed(payload);
            let sub = 8 + payload.len() + padding(8 + payload.len(), 4);
            &&& f.len() % 512 == 0
            &&& f.len() >= 52 + payload.len()
            &&& be16_at(f, 4) == s.comid
            &&& be32_at(f, 16) == 24 + sub
            &&& be32_at(f, 20) == s.tper_session
            &&& be32_at(f, 24) == s.host_session
            &&& be32_at(f, 40) == sub
            &&& sub % 4 == 0 && sub < 8 + payload.len() + 4
            &&& be16_at(f, 50) == payload.len()
        }),
{
    let sub = subpacket(payload);
    let pkt = packet(s.tper_session, s.host_session, sub);
    let com = compacket(s.comid, pkt);
    let f = s.framed(payload);
    lemma_padding(8 + payload.len(), 4);
    lemma_subpacket_header(payload);
    lemma_packet_header(s.tper_session, s.host_session, sub);
    lemma_compacket_header(s.comid, pkt);
    lemma_padding(com.len(), 512);
    assert(f =~= com + zero_bytes(padding(com.len(), 512)));
    assert(f.subrange(0, com.len() as int) =~= com);
    lemma_same_numbers(f, com, 0, 4);
    lemma_same_numbers(f, com, 0, 16);
    lemma_same_numbers(com, pkt, 20, 0);
    lemma_same_numbers(f, com, 0, 20);
    lemma_same_numbers(com, pkt, 20, 4);
    lemma_same_numbers(f, com, 0, 24);
    lemma_same_numbers(com, pkt, 20, 20);
    lemma_same_numbers(f, com, 0, 40);
    lemma_same_numbers(pkt, sub, 24, 4);
    lemma_same_numbers(com, pkt, 20, 28);
    lemma_same_numbers(f, com, 0, 48);
    assert(be16_at(f, 50) == be16_at(sub, 6));
}

proof fn lemma_padding(n: nat, block: nat)
    requires
        block == 4 || block == 512,
    ensures
        (n + padding(n, block)) % block == 0,
        padding(n, block) < block,
{
}

/// The numbers at a place of a part are those at the place of the whole.
proof fn lemma_same_numbers(whole: Seq<u8>, part: Seq<u8>, at: int, k: int)
    requires
        0 <= at,
        0 <= k,
        k + 4 <= part.len(),
        at + part.len() <= whole.len(),
        whole.subrange(at, at + part.len()) == part,
    ensures
        be16_at(whole, at + k) == be16_at(part, k),
        be16_at(whole, at + k + 2) == be16_at(part, k + 2),
        be32_at(whole, at + k) == be32_at(part, k),
{
    let cut = whole.subrange(at, at + part.len());
    assert(cut[k] == whole[at + k]);
    assert(cut[k + 1] == whole[at + k + 1]);
    assert(cut[k + 2] == whole[at + k + 2]);
    assert(cut[k + 3] == whole[at + k + 3]);
}

proof fn lemma_subpacket_header(payload: Seq<u8>)
    requires
        payload.len() <= 0xffff,
    ensures
        subpacket(payload).len() == 8 + payload.len() + padding(8 + payload.len(), 4),
        be16_at(subpacket(payload), 6) == payload.len(),
{
    lemma_be16(payload.len() as int);
    let sub = subpacket(payload);
    assert(sub.len() == 8 + payload.len() + padding(8 + payload.len(), 4));
    assert(sub[6] == byte_of(payload.len() as int, 256));
    assert(sub[7] == byte_of(payload.len() as int, 1));
}

proof fn lemma_packet_header(tper: u32, host: u32, sub: Seq<u8>)
    requires
        sub.len() <= 0x2_0000,
    ensures
        ({
            let pkt = packet(tper, host, sub);
            &&& pkt.len() == 24 + sub.len()
            &&& pkt.subrange(24, 24 + sub.len() as int) == sub
            &&& be32_at(pkt, 0) == tper
            &&& be32_at(pkt, 4) == host
            &&& be32_at(pkt, 20) == sub.len()
        }),
{
    let pkt = packet(tper, host, sub);
    lemma_be32(sub.len() as int);
    lemma_be32(tper as int);
    lemma_be32(host as int);
    assert(pkt.subrange(24, 24 + sub.len() as int) =~= sub);
    assert(pkt.subrange(0, 4) =~= be32(tper as int));
    assert(pkt.subrange(4, 8) =~= be32(host as int));
    assert(pkt.subrange(20, 24) =~= be32(sub.len() as int));
    lemma_same_numbers(pkt, be32(tper as int), 0, 0);
    lemma_same_numbers(pkt, be32(host as int), 4, 0);
    lemma_same_numbers(pkt, be32(sub.len() as int), 20, 0);
}

proof fn lemma_compacket_header(comid: u16, pkt: Seq<u8>)
    requires
        pkt.len() <= 0x3_0000,
    ensures
        ({
            let com = compacket(comid, pkt);
            &&& com.len() == 20 + pkt.len()
            &&& com.subrange(20, 20 + pkt.len() as int) == pkt
            &&& be16_at(com, 4) == comid
            &&& be32_at(com, 16) == pkt.len()
        }),
{
    let com = compacket(comid, pkt);
    lemma_be16(comid as int);
    lemma_be32(pkt.len() as int);
    assert(com.subrange(20, 20 + pkt.len() as int) =~= pkt);
    assert(com.subrange(16, 20) =~= be32(pkt.len() as int));
    lemma_same_numbers(com, be32(pkt.len() as int), 16, 0);
    assert(com[4] == be16(comid as int)[0] && com[5] == be16(comid as int)[1]);
}

proof fn lemma_be16(x: int)
    requires
        0 <= x <= 0xffff,
    ensures
        256 * byte_of(x, 256) + byte_of(x, 1) == x,
{
}

proof fn lemma_be32(x: int)
    requires
        0 <= x <= u32::MAX,
    ensures
        0x100_0000 * byte_of(x, 0x100_0000) + 0x1_0000 * byte_of(x, 0x1_0000) + 256 * byte_of(x, 256)
            + byte_of(x, 1) == x,
{
    let x1 = x / 256;
    let x2 = x1 / 256;
    let x3 = x2 / 256;
    assert(x1 == x / 0x100 && x2 == x / 0x1_0000 && x3 == x / 0x100_0000);
    assert(x == x % 256 + 256 * x1 && x1 == x1 % 256 + 256 * x2 && x2 == x2 % 256 + 256 * x3);
}

/// Whether a feature code is one of the Security Subsystem Classes: Enterprise to
/// Opal 2 (0x0200 to 0x0203), Opalite, Pyrite and Ruby (0x0301 to 0x0304).
pub open spec fn is_class(code: int) -> bool {
    ||| code == 0x0200
    ||| code == 0x0201
    ||| code == 0x0202
    ||| code == 0x0203
    ||| code == 0x0301
    ||| code == 0x0302
    ||| code == 0x0303
    ||| code == 0x0304
}

/// A drive is self-encrypting if its discovery data describe a Security Subsystem
/// Class, and its ComID is the one in that description; data that hold no description
/// are of a drive that is not.
pub proof fn law_discovery_finds_the_class(d: Seq<u8>)
    requires
        d.len() == 512,
    ensures
        be32_at(d, 0) + 4 < 52 ==> discovered_comid(d) is None,
        be32_at(d, 0) + 4 >= 52 && d[51] == 0 ==> {
            &&& is_class(be16_at(d, 48)) ==> discovered_comid(d) == Some(be16_at(d, 52) as u16)
            &&& !is_class(be16_at(d, 48)) ==> discovered_comid(d) is None
        },
        // A last description behind one of another feature counts as well.
        be32_at(d, 0) + 4 >= 60 + d[51] && 0 < d[51] <= 200 && d[55 + d[51]] == 0 && !is_class(
            be16_at(d, 48),
        ) ==> (if is_class(be16_at(d, 52 + d[51])) {
            discovered_comid(d) == Some(be16_at(d, 56 + d[51]) as u16)
        } else {
            discovered_comid(d) is None
        }),
{
    reveal_with_fuel(crate::tcg::scan_descriptors, 3);
}

/// The number that bytes stand for, most significant first.
pub open spec fn be_value(s: Seq<u8>) -> nat
    decreases s.len(),
{
    if s.len() == 0 {
        0
    } else {
        256 * be_value(s.drop_last()) + s.last() as nat
    }
}

/// A number in a token reads as itself, and begins with no zero byte.
pub proof fn law_token_number_reads_back(n: nat)
    ensures
        be_value(minimal_be(n)) == n,
        n > 0 ==> minimal_be(n)[0] != 0,
    decreases n,
{
    if n > 0 {
        law_token_number_reads_back(n / 256);
        let s = minimal_be(n);
        assert(s.drop_last() =~= minimal_be(n / 256));
        if n / 256 > 0 {
            assert(minimal_be(n / 256).len() > 0);
            assert(s[0] == minimal_be(n / 256)[0]);
        }
    }
}

/// Reports and screens name each command as it is: the enhanced erase apart from the
/// plain one, and the cryptographic variants apart from the others.
pub proof fn law_methods_are_named_as_they_are(m: FirmwareMethod)
    ensures
        m matches FirmwareMethod::AtaSecureErase { enhanced } ==> {
            &&& m.id_spec() == (if enhanced { "ata-enhanced-erase"@ } else { "ata-secure-erase"@ })
            &&& m.name_spec() == (if enhanced { "ATA Enhanced Secure Erase"@ } else { "ATA Secure Erase"@ })
        },
        m matches FirmwareMethod::NvmeFormat { crypto } ==> {
            &&& m.id_spec() == (if crypto { "nvme-format-crypto"@ } else { "nvme-format-user"@ })
            &&& m.name_spec() == (if crypto { "NVMe Format (crypto)"@ } else { "NVMe Format (user)"@ })
        },
        m matches FirmwareMethod::NvmeSanitize { crypto } ==> {
            &&& m.id_spec() == (if crypto { "nvme-sanitize-crypto"@ } else { "nvme-sanitize-block"@ })
            &&& m.name_spec() == (if crypto { "NVMe Sanitize (crypto)"@ } else { "NVMe Sanitize (block)"@ })
        },
        m is TcgRevert ==> m.id_spec() == "tcg-opal-revert"@ && m.name_spec() == "TCG Opal Crypto-Erase"@,
{
}

} // verus!
