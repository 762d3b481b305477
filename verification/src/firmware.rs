//! Firmware-based sanitization: ATA Security Erase and NVMe Format / Sanitize.
//!
//! Why this exists: overwriting (see [`crate::engine`]) writes through the
//! filesystem/block layer and cannot reach sectors the drive has remapped or,
//! on flash, the over-provisioned cells hidden behind the FTL. The drive's own
//! firmware *can* reach them. NIST SP 800-88 calls this a **Purge**, and for
//! SSDs it is the only software-driven method that truly sanitizes the media:
//!
//! * **ATA Security Erase**: `SECURITY ERASE UNIT`. The drive erases every
//!   user-addressable and reallocated sector internally. The *enhanced*
//!   variant also overwrites with a vendor pattern and, on SEDs, changes the
//!   media-encryption key.
//! * **NVMe Format NVM**: with the *Secure Erase Settings* field set to user
//!   erase (1) or cryptographic erase (2).
//! * **NVMe Sanitize**: `block erase` or `crypto erase` sanitize actions, the
//!   strongest NVMe purge, covering the entire NVM subsystem.
//!
//! Capability detection issues only **non-destructive** identify commands, so
//! it is always safe to run. The erase commands themselves are gated, like
//! every destructive path in DBAN, behind [`crate::safety::ArmToken`].
//!
//! This module and its neighbours [`crate::ata`], [`crate::nvme`] and
//! [`crate::tcg`] build the commands and read the replies; the program issues
//! them over the kernel's pass-through interfaces.

use vstd::prelude::*;

use crate::device::{Bus, Disk, DiskModel, MediaKind};
use crate::text::{hex_digit_lower, push_text};

verus! {

/// A firmware-level sanitization command.
#[derive(Clone, Copy, Debug, PartialEq, Eq, Structural)]
pub enum FirmwareMethod {
    /// ATA `SECURITY ERASE UNIT`.
    AtaSecureErase {
        /// Select the enhanced erase (vendor pattern + key rotation on SEDs).
        enhanced: bool,
    },
    /// NVMe `Format NVM`.
    NvmeFormat {
        /// Cryptographic erase (SES=2) rather than user-data erase (SES=1).
        crypto: bool,
    },
    /// NVMe `Sanitize`.
    NvmeSanitize {
        /// Crypto-erase rather than block-erase.
        crypto: bool,
    },
    /// TCG Opal cryptographic erase: revert a self-encrypting drive to factory
    /// state, destroying the media-encryption key. Bus-agnostic (SATA or NVMe).
    TcgRevert,
}

impl FirmwareMethod {
    /// The machine id.
    pub open spec fn id_spec(self) -> Seq<char> {
        match self {
            FirmwareMethod::AtaSecureErase { enhanced } => if enhanced {
                "ata-enhanced-erase"@
            } else {
                "ata-secure-erase"@
            },
            FirmwareMethod::NvmeFormat { crypto } => if crypto {
                "nvme-format-crypto"@
            } else {
                "nvme-format-user"@
            },
            FirmwareMethod::NvmeSanitize { crypto } => if crypto {
                "nvme-sanitize-crypto"@
            } else {
                "nvme-sanitize-block"@
            },
            FirmwareMethod::TcgRevert => "tcg-opal-revert"@,
        }
    }

    /// The display name.
    pub open spec fn name_spec(self) -> Seq<char> {
        match self {
            FirmwareMethod::AtaSecureErase { enhanced } => if enhanced {
                "ATA Enhanced Secure Erase"@
            } else {
                "ATA Secure Erase"@
            },
            FirmwareMethod::NvmeFormat { crypto } => if crypto {
                "NVMe Format (crypto)"@
            } else {
                "NVMe Format (user)"@
            },
            FirmwareMethod::NvmeSanitize { crypto } => if crypto {
                "NVMe Sanitize (crypto)"@
            } else {
                "NVMe Sanitize (block)"@
            },
            FirmwareMethod::TcgRevert => "TCG Opal Crypto-Erase"@,
        }
    }

    /// The description shown in the UI.
    pub open spec fn description_spec(self) -> Seq<char> {
        match self {
            FirmwareMethod::AtaSecureErase { enhanced } => if enhanced {
                "Enhanced ATA security erase: overwrites with a vendor pattern and, \
                 on self-encrypting drives, rotates the media key."@
            } else {
                "Drive-internal erase of all user and reallocated sectors via the \
                 ATA security feature set. A true purge for SATA media."@
            },
            FirmwareMethod::NvmeFormat { crypto } => if crypto {
                "NVMe Format with cryptographic erase (SES=2): the controller \
                 discards the media encryption key — instant, irreversible purge."@
            } else {
                "NVMe Format with user-data secure erase (SES=1): the controller \
                 erases the namespace, including over-provisioned flash."@
            },
            FirmwareMethod::NvmeSanitize { crypto } => if crypto {
                "NVMe Sanitize crypto-erase: destroys the media key across the whole \
                 NVM subsystem."@
            } else {
                "NVMe Sanitize block-erase: purges the entire NVM subsystem, the \
                 strongest NVMe sanitization."@
            },
            FirmwareMethod::TcgRevert => "Revert a TCG Opal self-encrypting drive to factory state, which \
                 cryptographically erases all data by destroying the media key. \
                 Works on SATA and NVMe SEDs."@,
        }
    }

    /// Stable machine id, used in erasure reports.
    pub fn id(&self) -> (s: &'static str)
        ensures
            s@ == self.id_spec(),
    {
        match self {
            FirmwareMethod::AtaSecureErase { enhanced: false } => "ata-secure-erase",
            FirmwareMethod::AtaSecureErase { enhanced: true } => "ata-enhanced-erase",
            FirmwareMethod::NvmeFormat { crypto: false } => "nvme-format-user",
            FirmwareMethod::NvmeFormat { crypto: true } => "nvme-format-crypto",
            FirmwareMethod::NvmeSanitize { crypto: false } => "nvme-sanitize-block",
            FirmwareMethod::NvmeSanitize { crypto: true } => "nvme-sanitize-crypto",
            FirmwareMethod::TcgRevert => "tcg-opal-revert",
        }
    }

    /// Human-readable method name.
    pub fn name(&self) -> (s: &'static str)
        ensures
            s@ == self.name_spec(),
    {
        match self {
            FirmwareMethod::AtaSecureErase { enhanced: false } => "ATA Secure Erase",
            FirmwareMethod::AtaSecureErase { enhanced: true } => "ATA Enhanced Secure Erase",
            FirmwareMethod::NvmeFormat { crypto: false } => "NVMe Format (user)",
            FirmwareMethod::NvmeFormat { crypto: true } => "NVMe Format (crypto)",
            FirmwareMethod::NvmeSanitize { crypto: false } => "NVMe Sanitize (block)",
            FirmwareMethod::NvmeSanitize { crypto: true } => "NVMe Sanitize (crypto)",
            FirmwareMethod::TcgRevert => "TCG Opal Crypto-Erase",
        }
    }

    /// One-paragraph description shown in the UI.
    pub fn description(&self) -> (s: &'static str)
        ensures
            s@ == self.description_spec(),
    {
        match self {
            FirmwareMethod::AtaSecureErase { enhanced: false } => {
                "Drive-internal erase of all user and reallocated sectors via the \
                 ATA security feature set. A true purge for SATA media."
            },
            FirmwareMethod::AtaSecureErase { enhanced: true } => {
                "Enhanced ATA security erase: overwrites with a vendor pattern and, \
                 on self-encrypting drives, rotates the media key."
            },
            FirmwareMethod::NvmeFormat { crypto: false } => {
                "NVMe Format with user-data secure erase (SES=1): the controller \
                 erases the namespace, including over-provisioned flash."
            },
            FirmwareMethod::NvmeFormat { crypto: true } => {
                "NVMe Format with cryptographic erase (SES=2): the controller \
                 discards the media encryption key — instant, irreversible purge."
            },
            FirmwareMethod::NvmeSanitize { crypto: false } => {
                "NVMe Sanitize block-erase: purges the entire NVM subsystem, the \
                 strongest NVMe sanitization."
            },
            FirmwareMethod::NvmeSanitize { crypto: true } => {
                "NVMe Sanitize crypto-erase: destroys the media key across the whole \
                 NVM subsystem."
            },
            FirmwareMethod::TcgRevert => {
                "Revert a TCG Opal self-encrypting drive to factory state, which \
                 cryptographically erases all data by destroying the media key. \
                 Works on SATA and NVMe SEDs."
            },
        }
    }

    /// Which bus this command belongs to, or `Unknown` for bus-agnostic ones.
    pub fn bus(&self) -> (b: Bus)
        ensures
            b == (match *self {
                FirmwareMethod::AtaSecureErase { .. } => Bus::Sata,
                FirmwareMethod::NvmeFormat { .. } | FirmwareMethod::NvmeSanitize { .. } => Bus::Nvme,
                FirmwareMethod::TcgRevert => Bus::Unknown,
            }),
    {
        match self {
            FirmwareMethod::AtaSecureErase { .. } => Bus::Sata,
            FirmwareMethod::NvmeFormat { .. } | FirmwareMethod::NvmeSanitize { .. } => Bus::Nvme,
            FirmwareMethod::TcgRevert => Bus::Unknown,
        }
    }
}

/// No two methods share an id.
pub proof fn law_method_ids_are_unique(a: FirmwareMethod, b: FirmwareMethod)
    requires
        a.id_spec() == b.id_spec(),
    ensures
        a == b,
{
    reveal_strlit("ata-enhanced-erase");
    reveal_strlit("ata-secure-erase");
    reveal_strlit("nvme-format-crypto");
    reveal_strlit("nvme-format-user");
    reveal_strlit("nvme-sanitize-crypto");
    reveal_strlit("nvme-sanitize-block");
    reveal_strlit("tcg-opal-revert");
    let x = a.id_spec();
    let y = b.id_spec();
    assert(x.len() == y.len() && x[0] == y[0] && x[4] == y[4] && x[5] == y[5] && x[12] == y[12]);
}

/// Every method has a name and a description.
pub proof fn law_methods_are_described(m: FirmwareMethod)
    ensures
        m.name_spec().len() > 0,
        m.description_spec().len() > 0,
{
    reveal_strlit("ATA Enhanced Secure Erase");
    reveal_strlit("ATA Secure Erase");
    reveal_strlit("NVMe Format (crypto)");
    reveal_strlit("NVMe Format (user)");
    reveal_strlit("NVMe Sanitize (crypto)");
    reveal_strlit("NVMe Sanitize (block)");
    reveal_strlit("TCG Opal Crypto-Erase");
    reveal_strlit("Enhanced ATA security erase: overwrites with a vendor pattern and, \
                 on self-encrypting drives, rotates the media key.");
    reveal_strlit("Drive-internal erase of all user and reallocated sectors via the \
                 ATA security feature set. A true purge for SATA media.");
    reveal_strlit("NVMe Format with cryptographic erase (SES=2): the controller \
                 discards the media encryption key — instant, irreversible purge.");
    reveal_strlit("NVMe Format with user-data secure erase (SES=1): the controller \
                 erases the namespace, including over-provisioned flash.");
    reveal_strlit("NVMe Sanitize crypto-erase: destroys the media key across the whole \
                 NVM subsystem.");
    reveal_strlit("NVMe Sanitize block-erase: purges the entire NVM subsystem, the \
                 strongest NVMe sanitization.");
    reveal_strlit("Revert a TCG Opal self-encrypting drive to factory state, which \
                 cryptographically erases all data by destroying the media key. \
                 Works on SATA and NVMe SEDs.");
}

/// What firmware sanitization a specific disk advertises support for.
#[derive(Clone, Copy, Debug, PartialEq, Eq, Structural)]
pub struct FirmwareSupport {
    /// ATA security feature set (normal erase) supported.
    pub ata_secure_erase: bool,
    /// ATA enhanced security erase supported.
    pub ata_enhanced_erase: bool,
    /// Security is *frozen*: the BIOS locked the feature set and an erase will
    /// be refused until the drive is power-cycled (hot-swap / sleep). Surfaced
    /// so the UI can explain why the option is unavailable.
    pub ata_frozen: bool,
    /// NVMe Format with user-data erase supported.
    pub nvme_format_user: bool,
    /// NVMe Format with cryptographic erase supported.
    pub nvme_format_crypto: bool,
    /// NVMe Sanitize block-erase supported.
    pub nvme_sanitize_block: bool,
    /// NVMe Sanitize crypto-erase supported.
    pub nvme_sanitize_crypto: bool,
    /// The drive is a TCG Opal self-encrypting drive (revert/crypto-erase
    /// available). Detected by TCG Level 0 Discovery.
    pub opal: bool,
}

/// Support for nothing.
pub open spec fn no_support() -> FirmwareSupport {
    FirmwareSupport {
        ata_secure_erase: false,
        ata_enhanced_erase: false,
        ata_frozen: false,
        nvme_format_user: false,
        nvme_format_crypto: false,
        nvme_sanitize_block: false,
        nvme_sanitize_crypto: false,
        opal: false,
    }
}

impl Default for FirmwareSupport {
    fn default() -> (s: Self)
        ensures
            s == no_support(),
    {
        FirmwareSupport {
            ata_secure_erase: false,
            ata_enhanced_erase: false,
            ata_frozen: false,
            nvme_format_user: false,
            nvme_format_crypto: false,
            nvme_sanitize_block: false,
            nvme_sanitize_crypto: false,
            opal: false,
        }
    }
}

impl FirmwareSupport {
    /// Whether the disk can be sanitized by `m`: a frozen drive refuses the
    /// ATA erases.
    pub open spec fn supports_spec(self, m: FirmwareMethod) -> bool {
        match m {
            FirmwareMethod::AtaSecureErase { enhanced } => !self.ata_frozen && if enhanced {
                self.ata_enhanced_erase
            } else {
                self.ata_secure_erase
            },
            FirmwareMethod::NvmeFormat { crypto } => if crypto {
                self.nvme_format_crypto
            } else {
                self.nvme_format_user
            },
            FirmwareMethod::NvmeSanitize { crypto } => if crypto {
                self.nvme_sanitize_crypto
            } else {
                self.nvme_sanitize_block
            },
            FirmwareMethod::TcgRevert => self.opal,
        }
    }

    /// The supported methods, in the order in which the UI offers them.
    pub open spec fn methods_spec(self) -> Seq<FirmwareMethod> {
        Seq::new(7, |i: int| method_at(i)).filter(|m: FirmwareMethod| self.supports_spec(m))
    }

    /// The concrete methods the operator may choose for this disk.
    pub fn methods(&self) -> (v: Vec<FirmwareMethod>)
        ensures
            v@ == self.methods_spec(),
    {
        let mut v: Vec<FirmwareMethod> = Vec::new();
        let mut i: usize = 0;
        let ghost all = Seq::new(7, |i: int| method_at(i));
        let ghost keep = |m: FirmwareMethod| self.supports_spec(m);
        assert(all.take(0) =~= Seq::<FirmwareMethod>::empty());
        assert(v@ =~= all.take(0).filter(keep)) by {
            reveal(Seq::filter);
        }
        while i < 7
            invariant
                i <= 7,
                all == Seq::new(7, |i: int| method_at(i)),
                keep == (|m: FirmwareMethod| self.supports_spec(m)),
                v@ == all.take(i as int).filter(keep),
            decreases 7 - i,
        {
            let m = nth_method(i);
            if self.supports(m) {
                v.push(m);
            }
            proof {
                reveal(Seq::filter);
                let next = all.take(i + 1);
                assert(next.drop_last() =~= all.take(i as int));
                assert(next.last() == m);
                assert(keep(m) == self.supports_spec(m));
            }
            i += 1;
        }
        assert(all.take(7) =~= all);
        v
    }

    /// True if `method` is among the supported methods.
    pub fn supports(&self, method: FirmwareMethod) -> (b: bool)
        ensures
            b == self.supports_spec(method),
    {
        match method {
            FirmwareMethod::AtaSecureErase { enhanced } => !self.ata_frozen && if enhanced {
                self.ata_enhanced_erase
            } else {
                self.ata_secure_erase
            },
            FirmwareMethod::NvmeFormat { crypto } => if crypto {
                self.nvme_format_crypto
            } else {
                self.nvme_format_user
            },
            FirmwareMethod::NvmeSanitize { crypto } => if crypto {
                self.nvme_sanitize_crypto
            } else {
                self.nvme_sanitize_block
            },
            FirmwareMethod::TcgRevert => self.opal,
        }
    }

    /// True if the disk supports any firmware sanitization at all.
    pub fn any(&self) -> (b: bool)
        ensures
            b == (exists|m: FirmwareMethod| self.supports_spec(m)),
            b == (self.methods_spec().len() > 0),
    {
        let v = self.methods();
        proof {
            let all = Seq::new(7, |i: int| method_at(i));
            let keep = |m: FirmwareMethod| self.supports_spec(m);
            all.lemma_filter_len(keep);
            if v@.len() > 0 {
                law_supports_is_membership(*self, v@[0]);
                assert(v@.contains(v@[0]));
                assert(self.supports_spec(v@[0]));
            }
            if exists|m: FirmwareMethod| self.supports_spec(m) {
                let m = choose|m: FirmwareMethod| self.supports_spec(m);
                law_supports_is_membership(*self, m);
                assert(self.methods_spec().contains(m));
            }
        }
        !v.is_empty()
    }
}

/// The firmware methods in the order in which the UI offers them.
pub open spec fn method_at(i: int) -> FirmwareMethod {
    if i == 0 {
        FirmwareMethod::AtaSecureErase { enhanced: false }
    } else if i == 1 {
        FirmwareMethod::AtaSecureErase { enhanced: true }
    } else if i == 2 {
        FirmwareMethod::NvmeFormat { crypto: false }
    } else if i == 3 {
        FirmwareMethod::NvmeFormat { crypto: true }
    } else if i == 4 {
        FirmwareMethod::NvmeSanitize { crypto: false }
    } else if i == 5 {
        FirmwareMethod::NvmeSanitize { crypto: true }
    } else {
        FirmwareMethod::TcgRevert
    }
}

/// Method `i` (0 to 6) in the order in which the UI offers them.
pub fn nth_method(i: usize) -> (m: FirmwareMethod)
    ensures
        m == method_at(i as int),
{
    if i == 0 {
        FirmwareMethod::AtaSecureErase { enhanced: false }
    } else if i == 1 {
        FirmwareMethod::AtaSecureErase { enhanced: true }
    } else if i == 2 {
        FirmwareMethod::NvmeFormat { crypto: false }
    } else if i == 3 {
        FirmwareMethod::NvmeFormat { crypto: true }
    } else if i == 4 {
        FirmwareMethod::NvmeSanitize { crypto: false }
    } else if i == 5 {
        FirmwareMethod::NvmeSanitize { crypto: true }
    } else {
        FirmwareMethod::TcgRevert
    }
}

/// A method is supported exactly if it is among the offered ones.
pub proof fn law_supports_is_membership(s: FirmwareSupport, m: FirmwareMethod)
    ensures
        s.supports_spec(m) <==> s.methods_spec().contains(m),
{
    let all = Seq::new(7, |i: int| method_at(i));
    let keep = |x: FirmwareMethod| s.supports_spec(x);
    let i: int = match m {
        FirmwareMethod::AtaSecureErase { enhanced } => if enhanced { 1 } else { 0 },
        FirmwareMethod::NvmeFormat { crypto } => if crypto { 3 } else { 2 },
        FirmwareMethod::NvmeSanitize { crypto } => if crypto { 5 } else { 4 },
        FirmwareMethod::TcgRevert => 6,
    };
    assert(all[i] == m);
    assert(all.contains(m));
    if s.supports_spec(m) {
        all.lemma_filter_contains(keep, i);
    }
    if s.methods_spec().contains(m) {
        let j = choose|j: int| 0 <= j < s.methods_spec().len() && s.methods_spec()[j] == m;
        all.lemma_filter_pred(keep, j);
    }
}

/// Errors from firmware sanitization.
#[derive(Debug)]
pub enum FirmwareError {
    /// The disk does not support the requested firmware command.
    Unsupported,
    /// ATA security is frozen and must be unlocked by a power cycle.
    Frozen,
    /// The operation was cancelled.
    Cancelled,
    /// A device I/O / ioctl error occurred.
    Io(String),
    /// The drive returned a non-success status code.
    DeviceStatus(u32),
}

/// A [`FirmwareError`], with its text as a sequence.
pub enum FirmwareErrorModel {
    Unsupported,
    Frozen,
    Cancelled,
    Io(Seq<char>),
    DeviceStatus(u32),
}

impl View for FirmwareError {
    type V = FirmwareErrorModel;

    open spec fn view(&self) -> FirmwareErrorModel {
        match *self {
            FirmwareError::Unsupported => FirmwareErrorModel::Unsupported,
            FirmwareError::Frozen => FirmwareErrorModel::Frozen,
            FirmwareError::Cancelled => FirmwareErrorModel::Cancelled,
            FirmwareError::Io(m) => FirmwareErrorModel::Io(m@),
            FirmwareError::DeviceStatus(c) => FirmwareErrorModel::DeviceStatus(c),
        }
    }
}

/// `n` in lower-case hexadecimal, without leading zeros.
pub open spec fn hex_number(n: nat) -> Seq<char>
    decreases n,
{
    if n < 16 {
        seq![hex_digit_lower(n)]
    } else {
        hex_number(n / 16).push(hex_digit_lower(n % 16))
    }
}

/// The message of an error.
pub open spec fn firmware_message(e: FirmwareErrorModel) -> Seq<char> {
    match e {
        FirmwareErrorModel::Unsupported => "firmware command not supported by this disk"@,
        FirmwareErrorModel::Frozen => "drive security is frozen; power-cycle the drive and retry"@,
        FirmwareErrorModel::Cancelled => "operation cancelled"@,
        FirmwareErrorModel::Io(m) => "device I/O error: "@ + m,
        FirmwareErrorModel::DeviceStatus(c) => "drive reported command failure (status 0x"@ + (
        if c < 16 {
            seq!['0']
        } else {
            Seq::empty()
        }) + hex_number(c as nat) + ")"@,
    }
}

fn push_hex(s: &mut String, n: u32)
    ensures
        final(s)@ == old(s)@ + hex_number(n as nat),
    decreases n,
{
    let ghost before = s@;
    if n >= 16 {
        push_hex(s, n / 16);
    }
    let d: u8 = (n % 16) as u8;
    s.push(if d < 10 { (48 + d) as char } else { (87 + d) as char });
    assert(s@ =~= before + hex_number(n as nat));
}

impl FirmwareError {
    /// The message shown to the operator.
    pub fn message(&self) -> (s: String)
        ensures
            s@ == firmware_message(self@),
    {
        match self {
            FirmwareError::Unsupported => "firmware command not supported by this disk".to_owned(),
            FirmwareError::Frozen => {
                "drive security is frozen; power-cycle the drive and retry".to_owned()
            },
            FirmwareError::Cancelled => "operation cancelled".to_owned(),
            FirmwareError::Io(m) => {
                let mut s = "device I/O error: ".to_owned();
                push_text(&mut s, m.as_str());
                s
            },
            FirmwareError::DeviceStatus(c) => {
                let mut s = "drive reported command failure (status 0x".to_owned();
                if *c < 16 {
                    s.push('0');
                }
                push_hex(&mut s, *c);
                push_text(&mut s, ")");
                assert(s@ =~= firmware_message(self@));
                s
            },
        }
    }
}

/// Hidden-sector analysis for an ATA disk: the Host Protected Area (HPA) and
/// Device Configuration Overlay (DCO) can shrink the user-addressable range so
/// that an overwrite misses the top of the disk. All counts are in logical
/// sectors.
#[derive(Clone, Copy, Debug, PartialEq, Eq, Structural)]
pub struct HiddenAreas {
    /// Sectors the OS can currently address.
    pub current_sectors: u64,
    /// Sectors addressable after removing the HPA (READ NATIVE MAX).
    pub native_sectors: u64,
    /// Sectors addressable after also removing the DCO (the true capacity).
    pub real_sectors: u64,
    /// Logical sector size in bytes.
    pub sector_size: u32,
}

impl Default for HiddenAreas {
    fn default() -> (h: Self)
        ensures
            h == (HiddenAreas {
                current_sectors: 0,
                native_sectors: 0,
                real_sectors: 0,
                sector_size: 0,
            }),
    {
        HiddenAreas { current_sectors: 0, native_sectors: 0, real_sectors: 0, sector_size: 0 }
    }
}

impl HiddenAreas {
    /// The analysis of a disk of `sectors` sectors that hides nothing.
    pub open spec fn none_spec(sectors: u64, sector_size: u32) -> HiddenAreas {
        HiddenAreas {
            current_sectors: sectors,
            native_sectors: sectors,
            real_sectors: sectors,
            sector_size: if sector_size < 512 { 512 } else { sector_size },
        }
    }

    /// How many sectors are hidden.
    pub open spec fn hidden_spec(self) -> nat {
        if self.real_sectors > self.current_sectors {
            (self.real_sectors - self.current_sectors) as nat
        } else {
            0
        }
    }

    /// No hidden areas: every count equals the current addressable size.
    pub fn none(current_sectors: u64, sector_size: u32) -> (h: Self)
        ensures
            h == HiddenAreas::none_spec(current_sectors, sector_size),
    {
        HiddenAreas {
            current_sectors,
            native_sectors: current_sectors,
            real_sectors: current_sectors,
            sector_size: if sector_size < 512 { 512 } else { sector_size },
        }
    }

    /// A Host Protected Area is hiding sectors.
    pub fn has_hpa(&self) -> (b: bool)
        ensures
            b == (self.native_sectors > self.current_sectors),
    {
        self.native_sectors > self.current_sectors
    }

    /// A Device Configuration Overlay is hiding sectors.
    pub fn has_dco(&self) -> (b: bool)
        ensures
            b == (self.real_sectors > self.native_sectors),
    {
        self.real_sectors > self.native_sectors
    }

    /// Any sectors are hidden from the current addressable range.
    pub fn any(&self) -> (b: bool)
        ensures
            b == (self.real_sectors > self.current_sectors),
    {
        self.real_sectors > self.current_sectors
    }

    /// Hidden sectors (HPA + DCO combined).
    pub fn hidden_sectors(&self) -> (n: u64)
        ensures
            n == self.hidden_spec(),
    {
        self.real_sectors.saturating_sub(self.current_sectors)
    }

    /// Hidden capacity in bytes.
    pub fn hidden_bytes(&self) -> (n: u64)
        requires
            self.hidden_spec() * self.sector_size <= u64::MAX,
        ensures
            n == self.hidden_spec() * self.sector_size,
    {
        self.hidden_sectors() * self.sector_size as u64
    }

    /// True full capacity in bytes once everything is revealed.
    pub fn full_bytes(&self) -> (n: u64)
        requires
            self.real_sectors * self.sector_size <= u64::MAX,
        ensures
            n == self.real_sectors * self.sector_size,
    {
        self.real_sectors * self.sector_size as u64
    }
}

/// An HPA or a DCO hides sectors exactly if sectors are hidden at all, where
/// revealing one never shrinks the disk.
pub proof fn law_hidden_areas_add_up(h: HiddenAreas)
    requires
        h.current_sectors <= h.native_sectors <= h.real_sectors,
    ensures
        h.real_sectors > h.current_sectors <==> (h.native_sectors > h.current_sectors
            || h.real_sectors > h.native_sectors),
        h.hidden_spec() == (h.native_sectors - h.current_sectors) + (h.real_sectors
            - h.native_sectors),
{
}

/// Synthesized capabilities of a simulated disk.
pub open spec fn demo_support_spec(bus: Bus, kind: MediaKind) -> FirmwareSupport {
    match bus {
        Bus::Sata => FirmwareSupport {
            ata_secure_erase: true,
            ata_enhanced_erase: true,
            opal: kind == MediaKind::Ssd,
            ..no_support()
        },
        Bus::Nvme => FirmwareSupport {
            nvme_format_user: true,
            nvme_format_crypto: true,
            nvme_sanitize_block: true,
            nvme_sanitize_crypto: true,
            opal: true,
            ..no_support()
        },
        _ => no_support(),
    }
}

/// Synthesize plausible capabilities for the simulated demo disks so every
/// firmware method appears at least once in the picker.
pub fn demo_support(disk: &Disk) -> (s: FirmwareSupport)
    ensures
        s == demo_support_spec(disk.bus, disk.kind),
{
    let mut s = FirmwareSupport::default();
    match disk.bus {
        Bus::Sata => {
            s.ata_secure_erase = true;
            s.ata_enhanced_erase = true;
            s.opal = disk.kind == MediaKind::Ssd;
        },
        Bus::Nvme => {
            s.nvme_format_user = true;
            s.nvme_format_crypto = true;
            s.nvme_sanitize_block = true;
            s.nvme_sanitize_crypto = true;
            s.opal = true;
        },
        _ => {},
    }
    s
}

/// The support of a disk: a simulated one has its synthesized matrix; of a real
/// one on SATA or NVMe, `identified` is what its identify data tell and `opal`
/// whether TCG discovery found it self-encrypting, each if the probe worked.
pub open spec fn support_spec(
    disk: DiskModel,
    identified: Option<FirmwareSupport>,
    opal: Option<bool>,
) -> FirmwareSupport {
    if disk.simulated {
        demo_support_spec(disk.bus, disk.kind)
    } else if disk.bus == Bus::Sata || disk.bus == Bus::Nvme {
        FirmwareSupport {
            opal: opal == Some(true),
            ..match identified {
                Some(s) => s,
                None => no_support(),
            }
        }
    } else {
        no_support()
    }
}

/// Detect which firmware sanitization a disk supports from the replies to
/// non-destructive identify/inquiry commands. Demo disks report a fixed
/// capability matrix derived from their simulated bus so the UI can be
/// exercised end to end.
pub fn detect_support(
    disk: &Disk,
    identified: Option<FirmwareSupport>,
    opal: Option<bool>,
) -> (s: FirmwareSupport)
    ensures
        s == support_spec(disk@, identified, opal),
{
    if disk.simulated {
        return demo_support(disk);
    }
    if disk.bus != Bus::Sata && disk.bus != Bus::Nvme {
        return FirmwareSupport::default();
    }
    let mut s = match identified {
        Some(s) => s,
        None => FirmwareSupport::default(),
    };
    // TCG Opal is bus-agnostic.
    s.opal = match opal {
        Some(b) => b,
        None => false,
    };
    s
}

/// The hidden areas of a disk. Of a simulated one `file_len` is the length of
/// its backing file, if that can be told; of a real SATA one `measured` is what
/// the drive reported, if it did.
pub open spec fn hidden_areas_spec(
    disk: DiskModel,
    file_len: Option<u64>,
    measured: Option<HiddenAreas>,
) -> HiddenAreas {
    if disk.simulated && file_len is Some && file_len->0 > disk.size_bytes {
        HiddenAreas {
            current_sectors: disk.size_bytes / 512,
            native_sectors: file_len->0 / 512,
            real_sectors: file_len->0 / 512,
            sector_size: 512,
        }
    } else if !disk.simulated && disk.bus == Bus::Sata && measured is Some {
        measured->0
    } else {
        HiddenAreas::none_spec(disk.size_bytes / 512, 512)
    }
}

/// Detect HPA/DCO hidden areas. Non-destructive. For simulated disks the
/// "hidden" extent is the difference between the backing file's real length and
/// the advertised size, so the feature can be exercised end to end.
pub fn detect_hidden_areas(
    disk: &Disk,
    file_len: Option<u64>,
    measured: Option<HiddenAreas>,
) -> (h: HiddenAreas)
    ensures
        h == hidden_areas_spec(disk@, file_len, measured),
{
    if disk.simulated {
        match file_len {
            Some(len) => {
                if len > disk.size_bytes {
                    return HiddenAreas {
                        current_sectors: disk.size_bytes / 512,
                        native_sectors: len / 512,  // modelled entirely as HPA
                        real_sectors: len / 512,
                        sector_size: 512,
                    };
                }
            },
            None => {},
        }
        return HiddenAreas::none(disk.size_bytes / 512, 512);
    }
    if disk.bus == Bus::Sata {
        match measured {
            Some(h) => {
                return h;
            },
            None => {},
        }
    }
    HiddenAreas::none(disk.size_bytes / 512, 512)
}

/// What is to be done to make the whole of a disk addressable.
#[derive(Clone, Copy, Debug, PartialEq, Eq, Structural)]
pub enum RevealChoice {
    /// Nothing: this is its capacity in bytes.
    Capacity(u64),
    /// Run the ATA procedure, [`crate::ata::RevealAta`].
    RunAta,
    /// It cannot be done.
    Unsupported,
}

/// Remove HPA and DCO so the whole disk becomes addressable. For simulated
/// disks this simply reports the backing file's real length (the file is
/// already that big, so the engine can wipe it all), or the advertised size
/// where the length cannot be told or is less. `h` is the result of
/// [`detect_hidden_areas`].
pub fn reveal_hidden_areas(disk: &Disk, file_len: Option<u64>, h: &HiddenAreas) -> (c: RevealChoice)
    ensures
        c == (if disk.simulated {
            match file_len {
                Some(len) if len >= disk.size_bytes => RevealChoice::Capacity(len),
                _ => RevealChoice::Capacity(disk.size_bytes),
            }
        } else if h.real_sectors <= h.current_sectors {
            RevealChoice::Capacity(disk.size_bytes)
        } else if disk.bus == Bus::Sata {
            RevealChoice::RunAta
        } else {
            RevealChoice::Unsupported
        }),
{
    if disk.simulated {
        return match file_len {
            Some(len) if len >= disk.size_bytes => RevealChoice::Capacity(len),
            _ => RevealChoice::Capacity(disk.size_bytes),
        };
    }
    if !h.any() {
        return RevealChoice::Capacity(disk.size_bytes);
    }
    if disk.bus == Bus::Sata {
        return RevealChoice::RunAta;
    }
    RevealChoice::Unsupported
}

} // verus!
