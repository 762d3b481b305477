//! TCG Opal: Level 0 Discovery and Revert.
//!
//! The Trusted Computing Group security protocol is carried over SCSI
//! SECURITY PROTOCOL IN/OUT (op 0xA2/0xB5, here via `SG_IO`) for SATA, and
//! over NVMe Security Receive/Send (admin 0x82/0x81) for NVMe. Level 0
//! Discovery (protocol 0x01, ComID 0x0001) is non-destructive and reports
//! which Security Subsystem Class (SSC) the drive implements. The Revert
//! method cryptographically erases the drive by destroying its media key.
//!
//! The Revert session here authenticates with the drive's default MSID
//! credential, which factory-state ("unowned") SEDs accept. Drives that have
//! been taken into ownership require their PSID (printed on the label)
//! instead; that path is not automated.

use vstd::prelude::*;

use crate::bytes::{
    append_be16, append_be32, append_bytes, append_zeros, be16, be16_at, be32, be32_at, byte_at, copy_range,
    read_be16, read_be32, zero_bytes, zeroed,
};
use crate::device::Bus;
use crate::firmware::FirmwareError;
use crate::nvme::{nvme_result, nvme_security, nvme_security_spec};
use crate::transport::{
    bytes_result, settle, settled, Reply, Request, RequestModel, SgDirection, SgModel, SgRequest,
};

verus! {

/// The security protocol of discovery and of sessions.
pub const SECURITY_PROTOCOL_DISCOVERY: u8 = 0x01;

/// The ComID of discovery.
pub const TCG_DISCOVERY_COMID: u16 = 0x0001;

/// Length of the discovery data.
pub const DISCOVERY_LEN: usize = 512;

/// Length of the buffer for a method's response.
pub const RESPONSE_LEN: usize = 2048;

/// SECURITY PROTOCOL OUT (to the device) or IN.
pub open spec fn scsi_security_spec(
    to_device: bool,
    protocol: u8,
    comid: u16,
    data: Seq<u8>,
) -> SgModel {
    SgModel {
        cdb: seq![if to_device { 0xB5u8 } else { 0xA2u8 }, protocol] + be16(comid as int)
            + zero_bytes(2) + be32(data.len() as int) + zero_bytes(2),
        direction: if to_device { SgDirection::ToDevice } else { SgDirection::FromDevice },
        data,
        timeout_ms: 30_000,
        context: "SG_IO SECURITY PROTOCOL"@,
    }
}

/// SCSI SECURITY PROTOCOL IN/OUT via `SG_IO`. `to_device` selects OUT.
pub fn scsi_security(to_device: bool, protocol: u8, comid: u16, data: Vec<u8>) -> (r: SgRequest)
    requires
        data@.len() <= u32::MAX,
    ensures
        r@ == scsi_security_spec(to_device, protocol, comid, data@),
{
    let mut cdb = vec![if to_device { 0xB5u8 } else { 0xA2u8 }, protocol];
    append_be16(&mut cdb, comid);
    append_zeros(&mut cdb, 2);
    append_be32(&mut cdb, data.len() as u32);
    append_zeros(&mut cdb, 2);
    proof {
        assert(cdb@ =~= scsi_security_spec(to_device, protocol, comid, data@).cdb);
    }
    SgRequest {
        cdb,
        direction: if to_device { SgDirection::ToDevice } else { SgDirection::FromDevice },
        data,
        timeout_ms: 30_000,
        context: "SG_IO SECURITY PROTOCOL",
    }
}

/// A security command on the bus of the drive.
pub open spec fn security_request_spec(
    bus: Bus,
    send: bool,
    comid: u16,
    data: Seq<u8>,
) -> RequestModel {
    if bus == Bus::Nvme {
        RequestModel::Nvme(nvme_security_spec(send, SECURITY_PROTOCOL_DISCOVERY, comid, data))
    } else {
        RequestModel::Sg(scsi_security_spec(send, SECURITY_PROTOCOL_DISCOVERY, comid, data))
    }
}

fn security_request(bus: Bus, send: bool, comid: u16, data: Vec<u8>) -> (r: Request)
    requires
        data@.len() <= u32::MAX,
    ensures
        r@ == security_request_spec(bus, send, comid, data@),
{
    if bus == Bus::Nvme {
        Request::Nvme(nvme_security(send, SECURITY_PROTOCOL_DISCOVERY, comid, data))
    } else {
        Request::Sg(scsi_security(send, SECURITY_PROTOCOL_DISCOVERY, comid, data))
    }
}

/// Security receive of `len` bytes.
pub fn sec_recv(bus: Bus, comid: u16, len: usize) -> (r: Request)
    requires
        len <= u32::MAX,
    ensures
        r@ == security_request_spec(bus, false, comid, zero_bytes(len as nat)),
{
    security_request(bus, false, comid, zeroed(len))
}

/// Security send of `data`.
pub fn sec_send(bus: Bus, comid: u16, data: Vec<u8>) -> (r: Request)
    requires
        data@.len() <= u32::MAX,
    ensures
        r@ == security_request_spec(bus, true, comid, data@),
{
    security_request(bus, true, comid, data)
}

/// What a security command is called in error messages.
pub open spec fn security_context(bus: Bus) -> Seq<char> {
    if bus == Bus::Nvme {
        "NVME_IOCTL_ADMIN_CMD"@
    } else {
        "SG_IO SECURITY PROTOCOL"@
    }
}

/// How a security command went: any status but zero is a failure.
pub fn security_result(bus: Bus, reply: Reply) -> (r: Result<Vec<u8>, FirmwareError>)
    ensures
        bytes_result(r) == settled(security_context(bus), reply@, false),
{
    if bus == Bus::Nvme {
        nvme_result(reply)
    } else {
        settle("SG_IO SECURITY PROTOCOL", reply, false)
    }
}

/// Whether a feature code is a TCG Security Subsystem Class.
pub open spec fn is_ssc_spec(code: int) -> bool {
    0x0200 <= code <= 0x0203 || 0x0301 <= code <= 0x0304
}

/// True when a feature code is a TCG Security Subsystem Class (Opal,
/// Opalite, Pyrite, Ruby), i.e. the drive is a revertable SED.
fn is_ssc(code: u16) -> (b: bool)
    ensures
        b == is_ssc_spec(code as int),
{
    (0x0200 <= code && code <= 0x0203) || (0x0301 <= code && code <= 0x0304)
}

/// The base ComID that the feature descriptors in `d[off..end]` advertise: each
/// has a code, a version byte, the length of its body, and the body; that of an
/// SSC begins with the ComID. The last SSC counts, `found` if there is none. A
/// descriptor without a body ends the list.
pub open spec fn scan_descriptors(d: Seq<u8>, off: int, end: int, found: Option<u16>) -> Option<u16>
    decreases end + 260 - off,
{
    if off + 4 <= end {
        let now = if is_ssc_spec(be16_at(d, off)) && off + 6 <= d.len() {
            Some(be16_at(d, off + 4) as u16)
        } else {
            found
        };
        if d[off + 3] == 0 {
            now
        } else {
            scan_descriptors(d, off + 4 + d[off + 3], end, now)
        }
    } else {
        found
    }
}

/// The base ComID in discovery data. Bytes 0..4 tell the length of what follows
/// them; descriptors start at byte 48.
pub open spec fn discovered_comid(d: Seq<u8>) -> Option<u16> {
    let valid = be32_at(d, 0) + 4;
    scan_descriptors(
        d,
        48,
        if valid < d.len() {
            valid
        } else {
            d.len() as int
        },
        None,
    )
}

/// TCG Level 0 Discovery. Returns the SED's base ComID when it advertises an
/// SSC, or `None` for a non-SED.
pub fn discover_comid(d: &[u8]) -> (comid: Option<u16>)
    requires
        d@.len() == DISCOVERY_LEN,
    ensures
        comid == discovered_comid(d@),
{
    // Header: bytes 0..4 = length of valid data. Descriptors start at 48.
    let total: u64 = read_be32(d, 0) as u64;
    let end: usize = if total + 4 < d.len() as u64 { (total + 4) as usize } else { d.len() };
    let mut off: usize = 48;
    let mut comid: Option<u16> = None;
    while off + 4 <= end
        invariant
            end <= d@.len() == DISCOVERY_LEN,
            48 <= off <= 1024,
            scan_descriptors(d@, off as int, end as int, comid) == discovered_comid(d@),
        ensures
            comid == discovered_comid(d@),
        decreases end + 1024 - off,
    {
        let code: u16 = read_be16(d, off);
        let dlen: usize = d[off + 3] as usize;  // length of the feature body
        if is_ssc(code) {
            // SSC descriptors carry the base ComID at body offset 0..2.
            if off + 6 <= d.len() {
                comid = Some(read_be16(d, off + 4));
            }
        }
        if dlen == 0 {
            break;
        }
        off += 4 + dlen;
    }
    comid
}

/// Detect whether the drive is a TCG Opal SED from its discovery data.
pub fn detect_opal(d: &[u8]) -> (b: bool)
    requires
        d@.len() == DISCOVERY_LEN,
    ensures
        b == (discovered_comid(d@) is Some),
{
    discover_comid(d).is_some()
}

// TCG UIDs (8 bytes, big-endian) used by the revert flow.

/// Session manager.
pub open spec fn uid_smuid() -> Seq<u8> {
    seq![0u8, 0u8, 0u8, 0u8, 0u8, 0u8, 0u8, 0xffu8]
}

/// The security provider of the session.
pub open spec fn uid_thissp() -> Seq<u8> {
    seq![0u8, 0u8, 0u8, 0u8, 0u8, 0u8, 0u8, 0x01u8]
}

/// The Admin SP.
pub open spec fn uid_admin_sp() -> Seq<u8> {
    seq![0u8, 0u8, 0x02u8, 0x05u8, 0u8, 0u8, 0u8, 0x01u8]
}

/// The MSID credential.
pub open spec fn uid_c_pin_msid() -> Seq<u8> {
    seq![0u8, 0u8, 0u8, 0x0bu8, 0u8, 0u8, 0x84u8, 0x02u8]
}

/// The SID authority.
pub open spec fn uid_auth_sid() -> Seq<u8> {
    seq![0u8, 0u8, 0u8, 0x09u8, 0u8, 0u8, 0u8, 0x06u8]
}

/// StartSession.
pub open spec fn method_start_session() -> Seq<u8> {
    seq![0u8, 0u8, 0u8, 0xffu8, 0u8, 0u8, 0xffu8, 0x02u8]
}

/// Get.
pub open spec fn method_get() -> Seq<u8> {
    seq![0u8, 0u8, 0u8, 0x06u8, 0u8, 0u8, 0u8, 0x16u8]
}

/// Revert.
pub open spec fn method_revert() -> Seq<u8> {
    seq![0u8, 0u8, 0u8, 0x06u8, 0u8, 0u8, 0x02u8, 0x02u8]
}

/// An 8-byte UID as a short-atom bytes token.
pub open spec fn uid_token(uid: Seq<u8>) -> Seq<u8> {
    seq![0xa8u8] + uid
}

/// A byte blob as a token: a short atom up to 15 bytes, a medium atom above.
pub open spec fn blob_token(data: Seq<u8>) -> Seq<u8> {
    if data.len() <= 15 {
        seq![(0xa0 + data.len()) as u8] + data
    } else {
        seq![0xd0u8] + be16(data.len() as int) + data
    }
}

/// A number as bytes, most significant first, without leading zeros.
pub open spec fn minimal_be(n: nat) -> Seq<u8>
    decreases n,
{
    if n == 0 {
        Seq::empty()
    } else {
        minimal_be(n / 256).push((n % 256) as u8)
    }
}

/// An unsigned integer as a token.
pub open spec fn uint_token(n: nat) -> Seq<u8> {
    if n < 64 {
        seq![n as u8]
    } else {
        seq![(0x90 + minimal_be(n).len()) as u8] + minimal_be(n)
    }
}

/// Encode an 8-byte UID as a TCG short-atom bytes token, at the end of `v`.
fn token_bytes(v: &mut Vec<u8>, uid: [u8; 8])
    ensures
        final(v)@ == old(v)@ + uid_token(uid@),
{
    let ghost before = v@;
    v.push(0xa8);  // short atom, byte, length 8
    append_bytes(v, uid.as_slice());
    assert(v@ =~= before + uid_token(uid@));
}

/// Encode a variable-length byte blob as a TCG token.
pub fn token_blob(data: &[u8]) -> (v: Vec<u8>)
    ensures
        v@ == blob_token(data@),
{
    let mut v: Vec<u8> = Vec::new();
    if data.len() <= 15 {
        v.push(0xa0 + data.len() as u8);
    } else {
        v.push(0xd0);
        v.push(byte_at(data.len() as u64, 256));
        v.push(byte_at(data.len() as u64, 1));
    }
    append_bytes(&mut v, data);
    assert(v@ =~= blob_token(data@));
    v
}

spec fn power256(k: nat) -> nat
    decreases k,
{
    if k == 0 {
        1
    } else {
        256 * power256((k - 1) as nat)
    }
}

proof fn lemma_minimal_len(n: nat, k: nat)
    requires
        n < power256(k),
    ensures
        minimal_be(n).len() <= k,
    decreases k,
{
    if n > 0 {
        lemma_minimal_len(n / 256, (k - 1) as nat);
    }
}

proof fn lemma_u64_len(n: u64)
    ensures
        minimal_be(n as nat).len() <= 8,
{
    reveal_with_fuel(power256, 9);
    assert(power256(8) == 0x1_0000_0000_0000_0000);
    lemma_minimal_len(n as nat, 8);
}

/// The bytes of `n`, most significant first, without leading zeros.
fn be_bytes(n: u64) -> (v: Vec<u8>)
    ensures
        v@ == minimal_be(n as nat),
    decreases n,
{
    if n == 0 {
        return Vec::new();
    }
    let mut v = be_bytes(n / 256);
    v.push((n % 256) as u8);
    v
}

/// Encode an unsigned integer as a TCG token.
pub fn token_uint(n: u64) -> (v: Vec<u8>)
    ensures
        v@ == uint_token(n as nat),
{
    if n < 64 {
        let v = vec![n as u8];  // tiny atom
        assert(v@ =~= uint_token(n as nat));
        return v;
    }
    let bytes = be_bytes(n);
    proof {
        lemma_u64_len(n);
    }
    let mut v = vec![0x90u8 + bytes.len() as u8];
    append_bytes(&mut v, bytes.as_slice());
    assert(v@ =~= uint_token(n as nat));
    v
}

/// The payload of the first complete, non-empty short-atom bytes token at or
/// behind byte `i` of a response.
pub open spec fn first_bytes_token(resp: Seq<u8>, i: int) -> Option<Seq<u8>>
    decreases resp.len() - i,
{
    if i >= resp.len() {
        None
    } else {
        let n = resp[i] % 16;
        if 0xa0 <= resp[i] <= 0xbf && n > 0 && i + 1 + n <= resp.len() {
            Some(resp.subrange(i + 1, i + 1 + n))
        } else {
            first_bytes_token(resp, i + 1)
        }
    }
}

/// Find the first bytes-token in a TCG response and return its payload.
pub fn extract_first_bytes_token(resp: &[u8]) -> (r: Option<Vec<u8>>)
    ensures
        r is None <==> first_bytes_token(resp@, 0) is None,
        r matches Some(v) ==> first_bytes_token(resp@, 0) == Some(v@) && v@.len() <= 15,
{
    let mut i: usize = 0;
    while i < resp.len()
        invariant
            i <= resp@.len(),
            first_bytes_token(resp@, i as int) == first_bytes_token(resp@, 0),
        decreases resp@.len() - i,
    {
        let b: u8 = resp[i];
        let len: usize = (b % 16) as usize;
        if 0xa0 <= b && b <= 0xbf && len > 0 && resp.len() - i > len {
            return Some(copy_range(resp, i + 1, i + 1 + len));
        }
        i += 1;
    }
    None
}

/// What a blob token of one to fifteen bytes carries is what is found in it.
pub proof fn law_blob_is_read_back(data: Seq<u8>)
    requires
        1 <= data.len() <= 15,
    ensures
        first_bytes_token(blob_token(data), 0) == Some(data),
{
    let t = blob_token(data);
    assert(t[0] == 0xa0 + data.len());
    assert(t[0] % 16 == data.len());
    assert(t.subrange(1, (1 + data.len()) as int) =~= data);
}

/// Zero bytes that fill `n` bytes up to a multiple of `unit`.
pub open spec fn padding(n: nat, unit: nat) -> nat {
    if n % unit == 0 {
        0
    } else {
        (unit - n % unit) as nat
    }
}

/// A method call in a SubPacket: six reserved bytes, the length, the payload,
/// padded to a multiple of four.
pub open spec fn subpacket(payload: Seq<u8>) -> Seq<u8> {
    zero_bytes(6) + be16(payload.len() as int) + payload + zero_bytes(
        padding(8 + payload.len(), 4),
    )
}

/// A SubPacket in a Packet: the session, twelve zero bytes, the length.
pub open spec fn packet(tper: u32, host: u32, sub: Seq<u8>) -> Seq<u8> {
    be32(tper as int) + be32(host as int) + zero_bytes(12) + be32(sub.len() as int) + sub
}

/// A Packet in a ComPacket: the ComID behind four zero bytes, ten more, the
/// length.
pub open spec fn compacket(comid: u16, pkt: Seq<u8>) -> Seq<u8> {
    zero_bytes(4) + be16(comid as int) + zero_bytes(10) + be32(pkt.len() as int) + pkt
}

/// A minimal TCG Opal session sufficient to read the MSID and invoke Revert
/// on the Admin SP. Encodes ComPacket/Packet/SubPacket framing and the
/// handful of method calls the revert flow needs.
#[derive(Clone, Copy, Debug, PartialEq, Eq, Structural)]
pub struct TcgSession {
    pub comid: u16,
    pub host_session: u32,
    pub tper_session: u32,
}

impl TcgSession {
    /// The session that is opened over a ComID; its host number spells "dban".
    pub open spec fn open_spec(comid: u16) -> TcgSession {
        TcgSession { comid, host_session: 0x6462_616e, tper_session: 0 }
    }

    /// A method call in all its framing, padded to a multiple of 512 bytes.
    pub open spec fn framed(self, payload: Seq<u8>) -> Seq<u8> {
        let com = compacket(
            self.comid,
            packet(self.tper_session, self.host_session, subpacket(payload)),
        );
        com + zero_bytes(padding(com.len(), 512))
    }

    /// The session over a ComID.
    pub fn open(comid: u16) -> (s: Self)
        ensures
            s == TcgSession::open_spec(comid),
    {
        TcgSession {
            comid,
            host_session: 0x6462_616e,  // "dban"
            tper_session: 0,
        }
    }

    /// Wrap a method-call payload in TCG ComPacket/Packet/SubPacket framing,
    /// ready for IF-SEND. The payload is below 64 KiB.
    pub fn frame(&self, payload: &[u8]) -> (tx: Vec<u8>)
        requires
            payload@.len() <= 0xffff,
        ensures
            tx@ == self.framed(payload@),
            tx@.len() <= 0x1_1000,
    {
        let mut sub = zeroed(6);
        append_be16(&mut sub, payload.len() as u16);
        append_bytes(&mut sub, payload);
        let pad4: usize = if sub.len() % 4 == 0 { 0 } else { 4 - sub.len() % 4 };
        append_zeros(&mut sub, pad4);
        assert(sub@ =~= subpacket(payload@));
        // Packet header: session (tper||host), seq number, reserved, ack type
        // and acknowledgement, then length.
        let mut pkt: Vec<u8> = Vec::new();
        append_be32(&mut pkt, self.tper_session);
        append_be32(&mut pkt, self.host_session);
        append_zeros(&mut pkt, 12);
        append_be32(&mut pkt, sub.len() as u32);
        append_bytes(&mut pkt, sub.as_slice());
        assert(pkt@ =~= packet(self.tper_session, self.host_session, sub@));
        // ComPacket header: reserved(4), comID(2), comID-ext(2), out seq(4),
        // reserved(2), min transfer(2), length(4).
        let mut com = zeroed(4);
        append_be16(&mut com, self.comid);
        append_zeros(&mut com, 10);
        append_be32(&mut com, pkt.len() as u32);
        append_bytes(&mut com, pkt.as_slice());
        assert(com@ =~= compacket(self.comid, pkt@));
        // The request is padded to a 512-byte multiple.
        let pad: usize = if com.len() % 512 == 0 { 0 } else { 512 - com.len() % 512 };
        append_zeros(&mut com, pad);
        com
    }
}

/// StartSession (anonymous) on the Admin SP.
pub open spec fn start_session_payload(host: u32) -> Seq<u8> {
    seq![0xf8u8] + uid_token(uid_smuid()) + uid_token(method_start_session()) + seq![0xf0u8]
        + uint_token(host as nat) + uid_token(uid_admin_sp()) + seq![
        0x01u8,
        0xf1u8,
        0xf9u8,
        0x00u8,
        0x00u8,
        0x00u8,
    ]
}

/// Get of the MSID PIN.
pub open spec fn get_msid_payload() -> Seq<u8> {
    seq![0xf8u8] + uid_token(uid_c_pin_msid()) + uid_token(method_get()) + seq![
        0xf0u8,
        0xf1u8,
        0xf9u8,
        0x00u8,
        0x00u8,
        0x00u8,
    ]
}

/// Revert on the Admin SP, as SID with the MSID.
pub open spec fn revert_payload(msid: Seq<u8>) -> Seq<u8> {
    seq![0xf8u8] + uid_token(uid_thissp()) + uid_token(method_revert()) + seq![0xf0u8] + uid_token(
        uid_auth_sid(),
    ) + blob_token(msid) + seq![0xf1u8, 0xf9u8, 0x00u8, 0x00u8, 0x00u8]
}

/// StartSession (anonymous) on the Admin SP to read the MSID.
pub fn start_session_call(host: u32) -> (p: Vec<u8>)
    ensures
        p@ == start_session_payload(host),
        p@.len() <= 64,
{
    let mut p = vec![0xf8u8];  // Call token
    token_bytes(&mut p, [0, 0, 0, 0, 0, 0, 0, 0xff]);
    token_bytes(&mut p, [0, 0, 0, 0xff, 0, 0, 0xff, 0x02]);
    p.push(0xf0);  // start list
    let n = token_uint(host as u64);
    proof {
        lemma_u64_len(host as u64);
    }
    append_bytes(&mut p, n.as_slice());
    token_bytes(&mut p, [0, 0, 0x02, 0x05, 0, 0, 0, 0x01]);
    p.push(0x01);  // write = true
    p.push(0xf1);  // end list
    p.push(0xf9);  // end of data
    append_zeros(&mut p, 3);  // status list
    assert(p@ =~= start_session_payload(host));
    p
}

/// Get the MSID PIN from C_PIN_MSID.
pub fn get_msid_call() -> (p: Vec<u8>)
    ensures
        p@ == get_msid_payload(),
        p@.len() <= 64,
{
    let mut p = vec![0xf8u8];
    token_bytes(&mut p, [0, 0, 0, 0x0b, 0, 0, 0x84, 0x02]);
    token_bytes(&mut p, [0, 0, 0, 0x06, 0, 0, 0, 0x16]);
    p.push(0xf0);
    p.push(0xf1);
    p.push(0xf9);
    append_zeros(&mut p, 3);
    assert(p@ =~= get_msid_payload());
    p
}

/// Invoke Revert on the Admin SP, authenticated as SID with MSID, encoded as a
/// Revert call carrying the host challenge.
pub fn revert_call(msid: &[u8]) -> (p: Vec<u8>)
    ensures
        p@ == revert_payload(msid@),
        p@.len() <= 64 + msid@.len(),
{
    let mut p = vec![0xf8u8];
    token_bytes(&mut p, [0, 0, 0, 0, 0, 0, 0, 0x01]);
    token_bytes(&mut p, [0, 0, 0, 0x06, 0, 0, 0x02, 0x02]);
    p.push(0xf0);
    token_bytes(&mut p, [0, 0, 0, 0x09, 0, 0, 0, 0x06]);
    let blob = token_blob(msid);
    append_bytes(&mut p, blob.as_slice());
    p.push(0xf1);
    p.push(0xf9);
    append_zeros(&mut p, 3);
    assert(p@ =~= revert_payload(msid@));
    p
}

} // verus!
