//! ATA commands over SCSI ATA PASS-THROUGH(16), and their replies.
//!
//! ABI references:
//! * ATA PASS-THROUGH(16) SCSI op 0x85 over `SG_IO`: SAT-4 / `sg3_utils`.
//! * ATA security feature set (IDENTIFY words 82/85/89/128): ACS-4.

use vstd::prelude::*;

use crate::bytes::{
    bit_set, byte_at, byte_of, has_bit, read_word, word_at, zero_bytes, zeroed,
};
use crate::firmware::{no_support, FirmwareError, FirmwareErrorModel, FirmwareSupport, HiddenAreas};
use crate::transport::{
    bytes_result, plain_result, settle, settled, Reply, ReplyModel, SgDirection, SgModel, SgRequest,
};

verus! {

/// The context of a plain ATA command in error messages.
pub open spec fn ata_context() -> Seq<char> {
    "SG_IO ATA pass-through"@
}

/// An ATA command through ATA PASS-THROUGH(16): PIO data-in if there is a
/// buffer, and no data otherwise.
pub open spec fn ata_command(
    features: u8,
    sector_count: u8,
    lba: u32,
    command: u8,
    data: Seq<u8>,
) -> SgModel {
    let moves = data.len() > 0;
    SgModel {
        cdb: seq![
            0x85u8,
            if moves { 8u8 } else { 6u8 },
            if moves { 0x2eu8 } else { 0x00u8 },
            0u8,
            features,
            0u8,
            sector_count,
            0u8,
            byte_of(lba as int, 1),
            0u8,
            byte_of(lba as int, 0x100),
            0u8,
            byte_of(lba as int, 0x1_0000),
            0u8,
            command,
            0u8,
        ],
        direction: if moves { SgDirection::FromDevice } else { SgDirection::NoData },
        data,
        timeout_ms: 120_000,
        context: ata_context(),
    }
}

/// Issue an ATA command via ATA PASS-THROUGH(16). `data` (when non-empty)
/// receives a PIO-in transfer (e.g. IDENTIFY's 512 bytes).
pub fn ata_passthrough(
    features: u8,
    sector_count: u8,
    lba: u32,
    command: u8,
    data: Vec<u8>,
) -> (r: SgRequest)
    ensures
        r@ == ata_command(features, sector_count, lba, command, data@),
{
    let moves = data.len() > 0;
    // Protocol 4 is PIO data-in, protocol 3 no data; T_LENGTH=2 (in
    // sector_count), BYTE_BLOCK=1, T_DIR=1 (from device).
    let cdb = vec![
        0x85u8,
        if moves { 8 } else { 6 },
        if moves { 0x2e } else { 0x00 },
        0,
        features,
        0,
        sector_count,
        0,
        byte_at(lba as u64, 1),
        0,
        byte_at(lba as u64, 0x100),
        0,
        byte_at(lba as u64, 0x1_0000),
        0,
        command,
        0,
    ];
    let ghost bytes = data@;
    let r = SgRequest {
        cdb,
        direction: if moves { SgDirection::FromDevice } else { SgDirection::NoData },
        data,
        timeout_ms: 120_000,
        context: "SG_IO ATA pass-through",
    };
    assert(r.cdb@ =~= ata_command(features, sector_count, lba, command, bytes).cdb);
    r
}

/// How an ATA command went. Status 2, CHECK CONDITION carrying the ATA return
/// descriptor, is normal for pass-through; anything else but zero is a failure.
pub fn ata_result(reply: Reply) -> (r: Result<Vec<u8>, FirmwareError>)
    ensures
        bytes_result(r) == settled(ata_context(), reply@, true),
{
    settle("SG_IO ATA pass-through", reply, true)
}

/// A 48-bit ATA command without data that returns its output registers.
pub open spec fn ata_lba48_command(features: u8, command: u8, lba: u64) -> SgModel {
    SgModel {
        cdb: seq![
            0x85u8,
            7u8,
            0x21u8,
            0u8,
            features,
            byte_of(lba as int, 0x100_0000_0000),
            0u8,
            byte_of(lba as int, 0x100_0000),
            byte_of(lba as int, 1),
            byte_of(lba as int, 0x1_0000_0000),
            byte_of(lba as int, 0x100),
            0u8,
            byte_of(lba as int, 0x1_0000),
            0u8,
            command,
            0u8,
        ],
        direction: SgDirection::NoData,
        data: Seq::empty(),
        timeout_ms: 30_000,
        context: "SG_IO ATA pass-through (lba48)"@,
    }
}

/// Issue a 48-bit ATA command with no data transfer, requesting CK_COND so
/// the drive returns its output registers in the sense buffer, from which
/// [`lba48_result`] reads the 48-bit LBA. Used by READ NATIVE MAX ADDRESS EXT
/// (0x27) and SET MAX ADDRESS EXT (0x37).
pub fn ata_lba48_ret(features: u8, command: u8, lba: u64) -> (r: SgRequest)
    ensures
        r@ == ata_lba48_command(features, command, lba),
{
    // Protocol 3 (non-data) with EXTEND=1 (48-bit); CK_COND=1 (return registers).
    let cdb = vec![
        0x85u8,
        7,
        0x21,
        0,
        features,
        byte_at(lba, 0x100_0000_0000),
        0,
        byte_at(lba, 0x100_0000),
        byte_at(lba, 1),
        byte_at(lba, 0x1_0000_0000),
        byte_at(lba, 0x100),
        0,
        byte_at(lba, 0x1_0000),
        0,
        command,
        0,
    ];
    let r = SgRequest {
        cdb,
        direction: SgDirection::NoData,
        data: Vec::new(),
        timeout_ms: 30_000,
        context: "SG_IO ATA pass-through (lba48)",
    };
    assert(r.cdb@ =~= ata_lba48_command(features, command, lba).cdb);
    r
}

/// The sector count that a sense buffer returns, if it holds an ATA Status
/// Return Descriptor: the LBA in it is that of the last addressable sector.
pub open spec fn sense_sectors(sense: Seq<u8>) -> Option<int> {
    if sense[0] == 0x72 && sense[8] == 0x09 {
        Some(
            sense[15] + 0x100 * sense[17] + 0x1_0000 * sense[19] + 0x100_0000 * sense[14]
                + 0x1_0000_0000 * sense[16] + 0x100_0000_0000 * sense[18] + 1,
        )
    } else {
        None
    }
}

/// What a 48-bit command returns, whatever its status.
pub open spec fn lba48_outcome(reply: ReplyModel) -> Result<u64, FirmwareErrorModel> {
    match reply {
        ReplyModel::NotOpened(m) => Err(FirmwareErrorModel::Io(m)),
        ReplyModel::Refused(m) => Err(
            FirmwareErrorModel::Io("SG_IO ATA pass-through (lba48)"@ + ": "@ + m),
        ),
        ReplyModel::Completed { status, sense, data } => match sense_sectors(sense) {
            Some(n) => Ok(n as u64),
            None => Err(FirmwareErrorModel::Io("ATA return descriptor not present"@)),
        },
    }
}

/// Parse the 48-bit LBA from the SAT "ATA Status Return Descriptor" and give
/// the sector count: the returned LBA is the highest addressable sector.
pub fn lba48_result(reply: Reply) -> (r: Result<u64, FirmwareError>)
    requires
        reply@ matches ReplyModel::Completed { status, sense, data } ==> sense.len() >= 20,
    ensures
        plain_result(r) == lba48_outcome(reply@),
        r matches Ok(n) ==> 1 <= n <= 0x1_0000_0000_0000,
{
    match reply {
        Reply::Completed { status: _, sense, data: _ } => {
            // Descriptor-format sense: the ATA Return Descriptor (code 0x09) sits at
            // offset 8. Its layout: [0]=0x09 [1]=len [2]=flags [3]=error [4]=count_hi
            // [5]=count_lo [6]=lba(31:24) [7]=lba(7:0) [8]=lba(39:32) [9]=lba(15:8)
            // [10]=lba(47:40) [11]=lba(23:16) [12]=device [13]=status.
            if sense[0] == 0x72 && sense[8] == 0x09 {
                let max_lba: u64 = sense[15] as u64 + 0x100 * (sense[17] as u64) + 0x1_0000 * (
                sense[19] as u64) + 0x100_0000 * (sense[14] as u64) + 0x1_0000_0000 * (
                sense[16] as u64) + 0x100_0000_0000 * (sense[18] as u64);
                return Ok(max_lba + 1);
            }
            Err(FirmwareError::Io("ATA return descriptor not present".to_owned()))
        },
        other => match settle("SG_IO ATA pass-through (lba48)", other, true) {
            Ok(_) => Ok(1),
            Err(e) => Err(e),
        },
    }
}

/// IDENTIFY DEVICE (command 0xEC), 512 bytes.
pub fn identify_device() -> (r: SgRequest)
    ensures
        r@ == ata_command(0, 1, 0, 0xEC, zero_bytes(512)),
{
    ata_passthrough(0, 1, 0, 0xEC, zeroed(512))
}

/// READ NATIVE MAX ADDRESS EXT (0x27).
pub fn read_native_max() -> (r: SgRequest)
    ensures
        r@ == ata_lba48_command(0, 0x27, 0),
{
    ata_lba48_ret(0, 0x27, 0)
}

/// DEVICE CONFIGURATION IDENTIFY (0xB1 / feature 0xC2), 512 bytes.
pub fn configuration_identify() -> (r: SgRequest)
    ensures
        r@ == ata_command(0xC2, 1, 0, 0xB1, zero_bytes(512)),
{
    ata_passthrough(0xC2, 1, 0, 0xB1, zeroed(512))
}

/// The security support that IDENTIFY data tell of: word 82 bit 1 is the
/// feature set, word 128 bit 3 frozen and bit 5 the enhanced erase.
pub open spec fn ata_support(id: Seq<u8>) -> FirmwareSupport {
    let security = has_bit(word_at(id, 82), 2);
    FirmwareSupport {
        ata_secure_erase: security,
        ata_enhanced_erase: security && has_bit(word_at(id, 128), 32),
        ata_frozen: has_bit(word_at(id, 128), 8),
        ..no_support()
    }
}

/// Read ATA security support from IDENTIFY DEVICE data.
pub fn detect_ata(id: &[u8]) -> (s: FirmwareSupport)
    requires
        id@.len() == 512,
    ensures
        s == ata_support(id@),
{
    // Word 82 bit 1: security feature set supported.
    let security = bit_set(read_word(id, 82) as u64, 2);
    // Word 128: security status. bit0 supported, bit3 frozen, bit5 enhanced.
    let sec: u64 = read_word(id, 128) as u64;
    let mut s = FirmwareSupport::default();
    s.ata_secure_erase = security;
    s.ata_enhanced_erase = security && bit_set(sec, 32);
    s.ata_frozen = bit_set(sec, 8);
    s
}

/// The logical sector size that IDENTIFY words 117-118 give, in 16-bit words.
pub open spec fn logical_sector_words(id: Seq<u8>) -> int {
    word_at(id, 117) + 0x1_0000 * word_at(id, 118)
}

/// The logical sector size in bytes: IDENTIFY words 117-118 when valid, else 512.
pub open spec fn logical_sector_size(id: Seq<u8>) -> int {
    if has_bit(word_at(id, 106), 0x1000) && logical_sector_words(id) > 0 {
        2 * logical_sector_words(id)
    } else {
        512
    }
}

/// Whether the logical sector size fits a `u32`.
pub fn sector_size_fits(id: &[u8]) -> (b: bool)
    requires
        id@.len() == 512,
    ensures
        b == (logical_sector_size(id@) <= u32::MAX),
{
    let words: u64 = read_word(id, 117) as u64 + 0x1_0000 * (read_word(id, 118) as u64);
    !bit_set(read_word(id, 106) as u64, 0x1000) || words == 0 || 2 * words <= u32::MAX as u64
}

/// The real maximum that DEVICE CONFIGURATION IDENTIFY reports in its words 3
/// to 5.
pub open spec fn configuration_sectors(dco: Seq<u8>) -> int {
    word_at(dco, 3) + 0x1_0000 * word_at(dco, 4) + 0x1_0000_0000 * word_at(dco, 5)
}

/// The larger of two numbers.
pub open spec fn larger(a: int, b: int) -> int {
    if a > b {
        a
    } else {
        b
    }
}

/// The hidden areas of a drive: from its IDENTIFY data, the native sector count
/// if it told one, and its configuration data if it gave them.
pub open spec fn ata_hidden_areas(
    advertised_bytes: u64,
    id: Seq<u8>,
    native: Option<u64>,
    dco: Option<Seq<u8>>,
) -> HiddenAreas {
    let size = logical_sector_size(id);
    let current = advertised_bytes as int / size;
    let native_sectors = match native {
        Some(n) => larger(n as int, current),
        None => current,
    };
    HiddenAreas {
        current_sectors: current as u64,
        native_sectors: native_sectors as u64,
        real_sectors: (match dco {
            Some(d) => larger(configuration_sectors(d), native_sectors),
            None => native_sectors,
        }) as u64,
        sector_size: size as u32,
    }
}

/// The view of optional bytes.
pub open spec fn optional_bytes(d: Option<Vec<u8>>) -> Option<Seq<u8>> {
    match d {
        Some(v) => Some(v@),
        None => None,
    }
}

/// Detect HPA/DCO hidden sectors on an ATA disk from the replies to
/// [`identify_device`], [`read_native_max`] and [`configuration_identify`]. A
/// drive that refuses one of the last two hides nothing there.
pub fn detect_hidden_ata(
    advertised_bytes: u64,
    id: &[u8],
    native: Option<u64>,
    dco: Option<Vec<u8>>,
) -> (h: HiddenAreas)
    requires
        id@.len() == 512,
        logical_sector_size(id@) <= u32::MAX,
        dco matches Some(d) ==> d@.len() == 512,
    ensures
        h == ata_hidden_areas(advertised_bytes, id@, native, optional_bytes(dco)),
        h.current_sectors <= h.native_sectors <= h.real_sectors,
{
    // Logical sector size from IDENTIFY words 117-118 when valid, else 512.
    let words: u32 = read_word(id, 117) as u32 + 0x1_0000 * (read_word(id, 118) as u32);
    let sector_size: u32 = if bit_set(read_word(id, 106) as u64, 0x1000) && words > 0 {
        words * 2
    } else {
        512
    };
    let current: u64 = advertised_bytes / sector_size as u64;
    // HPA: READ NATIVE MAX ADDRESS EXT (0x27) gives the native capacity.
    let native_sectors: u64 = match native {
        Some(n) => if n > current { n } else { current },
        None => current,
    };
    // DCO: words 3-5 hold the real max sectors (LBA count).
    let real_sectors: u64 = match &dco {
        Some(d) => {
            let max: u64 = read_word(d.as_slice(), 3) as u64 + 0x1_0000 * (read_word(
                d.as_slice(),
                4,
            ) as u64) + 0x1_0000_0000 * (read_word(d.as_slice(), 5) as u64);
            if max > native_sectors {
                max
            } else {
                native_sectors
            }
        },
        None => native_sectors,
    };
    HiddenAreas { current_sectors: current, native_sectors, real_sectors, sector_size }
}

/// The 512-byte password block: a control word, then the throwaway password
/// `dban` at byte 2.
pub open spec fn password_block() -> Seq<u8> {
    seq![0u8, 0u8, 100u8, 98u8, 97u8, 110u8] + zero_bytes(506)
}

fn make_password_block() -> (v: Vec<u8>)
    ensures
        v@ == password_block(),
{
    let mut v = vec![0u8, 0, 100, 98, 97, 110];
    crate::bytes::append_zeros(&mut v, 506);
    assert(v@ =~= password_block());
    v
}

/// ATA Security Erase: SET PASSWORD (0xF1) then ERASE UNIT (0xF4), to be issued
/// in this order until one fails.
pub fn ata_secure_erase(enhanced: bool) -> (r: (SgRequest, SgRequest))
    ensures
        r.0@ == ata_command(0, 1, 0, 0xF1, password_block()),
        r.1@ == ata_command(
            if enhanced {
                0x02
            } else {
                0x00
            },
            1,
            0,
            0xF4,
            password_block(),
        ),
{
    // A throwaway user password is required by the standard before ERASE UNIT;
    // the erase clears it again.
    let set = ata_passthrough(0, 1, 0, 0xF1, make_password_block());
    // ERASE UNIT: feature 0x02 selects enhanced erase.
    let feature: u8 = if enhanced { 0x02 } else { 0x00 };
    let erase = ata_passthrough(feature, 1, 0, 0xF4, make_password_block());
    (set, erase)
}

/// What the removal of HPA and DCO waits for.
#[derive(Clone, Copy, Debug, PartialEq, Eq, Structural)]
pub enum RevealAta {
    /// The first measurement of the hidden areas.
    Measuring,
    /// DEVICE CONFIGURATION RESTORE.
    Restoring,
    /// READ NATIVE MAX ADDRESS EXT.
    ReadingNative,
    /// SET MAX ADDRESS EXT.
    SettingMax,
    /// The measurement after the change.
    Remeasuring,
    /// Nothing more.
    Ended,
}

/// What came of a step.
#[derive(Debug)]
pub enum RevealEvent {
    /// The hidden areas were measured.
    Measured(HiddenAreas),
    /// A command without a result completed.
    Acked,
    /// A 48-bit command returned a sector count.
    Sectors(u64),
    /// The step failed.
    Failed(FirmwareError),
}

/// A [`RevealEvent`] by its view.
pub enum RevealEventModel {
    Measured(HiddenAreas),
    Acked,
    Sectors(u64),
    Failed(FirmwareErrorModel),
}

impl View for RevealEvent {
    type V = RevealEventModel;

    open spec fn view(&self) -> RevealEventModel {
        match *self {
            RevealEvent::Measured(h) => RevealEventModel::Measured(h),
            RevealEvent::Acked => RevealEventModel::Acked,
            RevealEvent::Sectors(n) => RevealEventModel::Sectors(n),
            RevealEvent::Failed(e) => RevealEventModel::Failed(e@),
        }
    }
}

/// The step that comes next.
#[derive(Debug)]
pub enum RevealAction {
    /// Measure the hidden areas with [`detect_hidden_ata`], for an advertised
    /// size of zero.
    Measure,
    /// Issue this command; its reply goes through [`ata_result`].
    Issue(SgRequest),
    /// Issue this command; its reply goes through [`lba48_result`].
    IssueLba48(SgRequest),
    /// The areas after the change: the new capacity is their full size.
    Revealed(HiddenAreas),
    /// The procedure failed.
    Fail(FirmwareError),
}

/// A [`RevealAction`] by its view.
pub enum RevealActionModel {
    Measure,
    Issue(SgModel),
    IssueLba48(SgModel),
    Revealed(HiddenAreas),
    Fail(FirmwareErrorModel),
}

impl View for RevealAction {
    type V = RevealActionModel;

    open spec fn view(&self) -> RevealActionModel {
        match *self {
            RevealAction::Measure => RevealActionModel::Measure,
            RevealAction::Issue(r) => RevealActionModel::Issue(r@),
            RevealAction::IssueLba48(r) => RevealActionModel::IssueLba48(r@),
            RevealAction::Revealed(h) => RevealActionModel::Revealed(h),
            RevealAction::Fail(e) => RevealActionModel::Fail(e@),
        }
    }
}

/// Whether an event can be the result of the step in flight.
pub open spec fn reveal_fits(stage: RevealAta, ev: RevealEventModel) -> bool {
    match stage {
        RevealAta::Measuring | RevealAta::Remeasuring => ev is Measured || ev is Failed,
        RevealAta::Restoring => ev is Acked || ev is Failed,
        RevealAta::ReadingNative | RevealAta::SettingMax => ev is Sectors || ev is Failed,
        RevealAta::Ended => false,
    }
}

/// The step after an event. A failed restore of the configuration is passed
/// over; any other failure ends the procedure.
pub open spec fn reveal_after(stage: RevealAta, ev: RevealEventModel) -> (
    RevealAta,
    RevealActionModel,
) {
    if ev is Failed && stage != RevealAta::Restoring {
        (RevealAta::Ended, RevealActionModel::Fail(ev->Failed_0))
    } else {
        match stage {
            RevealAta::Measuring => if ev->Measured_0.real_sectors > ev->Measured_0.native_sectors {
                (
                    RevealAta::Restoring,
                    RevealActionModel::Issue(ata_command(0xC0, 0, 0, 0xB1, Seq::empty())),
                )
            } else {
                (
                    RevealAta::ReadingNative,
                    RevealActionModel::IssueLba48(ata_lba48_command(0, 0x27, 0)),
                )
            },
            RevealAta::Restoring => (
                RevealAta::ReadingNative,
                RevealActionModel::IssueLba48(ata_lba48_command(0, 0x27, 0)),
            ),
            RevealAta::ReadingNative => (
                RevealAta::SettingMax,
                RevealActionModel::IssueLba48(
                    ata_lba48_command(0, 0x37, ev->Sectors_0.saturating_sub(1)),
                ),
            ),
            RevealAta::SettingMax => (RevealAta::Remeasuring, RevealActionModel::Measure),
            _ => (RevealAta::Ended, RevealActionModel::Revealed(ev->Measured_0)),
        }
    }
}

/// Remove HPA (SET MAX ADDRESS EXT) and DCO (DEVICE CONFIGURATION RESTORE), step
/// by step. The first step is [`RevealAction::Measure`], in stage
/// [`RevealAta::Measuring`].
pub fn reveal_hidden_ata(stage: RevealAta, ev: RevealEvent) -> (r: (RevealAta, RevealAction))
    requires
        reveal_fits(stage, ev@),
    ensures
        (r.0, r.1@) == reveal_after(stage, ev@),
{
    match (stage, ev) {
        (RevealAta::Restoring, _) => (
            RevealAta::ReadingNative,
            RevealAction::IssueLba48(read_native_max()),
        ),
        (_, RevealEvent::Failed(e)) => (RevealAta::Ended, RevealAction::Fail(e)),
        (RevealAta::Measuring, RevealEvent::Measured(h)) => {
            // DEVICE CONFIGURATION RESTORE (0xB1 / feature 0xC0) drops the DCO first.
            if h.has_dco() {
                let none: Vec<u8> = Vec::new();
                (RevealAta::Restoring, RevealAction::Issue(ata_passthrough(0xC0, 0, 0, 0xB1, none)))
            } else {
                (RevealAta::ReadingNative, RevealAction::IssueLba48(read_native_max()))
            }
        },
        (RevealAta::ReadingNative, RevealEvent::Sectors(native)) => {
            // SET MAX ADDRESS EXT (0x37) to the native max removes the HPA. Volatile
            // bit (feature 0) not set, so the change persists.
            let last: u64 = native.saturating_sub(1);
            (RevealAta::SettingMax, RevealAction::IssueLba48(ata_lba48_ret(0, 0x37, last)))
        },
        (RevealAta::SettingMax, _) => (RevealAta::Remeasuring, RevealAction::Measure),
        (_, RevealEvent::Measured(h)) => (RevealAta::Ended, RevealAction::Revealed(h)),
        (_, _) => (RevealAta::Ended, RevealAction::Measure),
    }
}

} // verus!
