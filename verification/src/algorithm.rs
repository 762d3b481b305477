//! Wipe scheme registry: every major published overwrite standard.
//!
//! A scheme is an ordered list of passes; a pass either fills the disk with a
//! repeating byte pattern or with a pseudo-random stream. Verification policy
//! is configurable per session (none / last pass / every pass).
//!
//! NOTE ON SSDs: overwrite schemes were designed for magnetic media. Flash
//! translation layers (wear leveling, over-provisioning) mean an overwrite
//! cannot reach every physical cell on an SSD. DBAN surfaces this advisory
//! in the UI whenever a non-rotational disk is selected; NIST SP 800-88
//! recommends crypto-erase / SANITIZE commands for flash purge.

use vstd::prelude::*;

use crate::text::{hex2_upper, push_hex2_upper};

verus! {

/// What a single pass writes.
#[derive(Clone, Copy, Debug, PartialEq, Eq)]
pub enum PassKind {
    /// Repeating byte pattern (1..=3 bytes in every published standard).
    Fill(&'static [u8]),
    /// Pseudo-random stream, freshly seeded per pass from OS entropy.
    Random,
}

/// What a pass writes, with the pattern as a sequence of bytes.
pub enum PassModel {
    Fill(Seq<u8>),
    Random,
}

impl View for PassKind {
    type V = PassModel;

    open spec fn view(&self) -> PassModel {
        match *self {
            PassKind::Fill(p) => PassModel::Fill(p@),
            PassKind::Random => PassModel::Random,
        }
    }
}

/// A single overwrite pass.
#[derive(Clone, Copy, Debug, PartialEq, Eq)]
pub struct Pass {
    /// What this pass writes.
    pub kind: PassKind,
}

impl View for Pass {
    type V = PassModel;

    open spec fn view(&self) -> PassModel {
        self.kind@
    }
}

/// The passes of a list, each by its view.
pub open spec fn pass_models(passes: Seq<Pass>) -> Seq<PassModel> {
    passes.map_values(|p: Pass| p@)
}

/// A pattern as upper-case hexadecimal bytes with a blank between two bytes.
pub open spec fn hex_words(p: Seq<u8>) -> Seq<char>
    decreases p.len(),
{
    if p.len() == 0 {
        Seq::empty()
    } else if p.len() == 1 {
        hex2_upper(p[0])
    } else {
        hex_words(p.drop_last()) + seq![' '] + hex2_upper(p.last())
    }
}

/// The label of a pass.
pub open spec fn pass_label(p: PassModel) -> Seq<char> {
    match p {
        PassModel::Random => "random"@,
        PassModel::Fill(b) => if b == seq![0x00u8] {
            "zeros (0x00)"@
        } else if b == seq![0xFFu8] {
            "ones (0xFF)"@
        } else {
            "0x"@ + hex_words(b)
        },
    }
}

impl Pass {
    /// A pass that writes a repeating byte `pattern`.
    pub fn fill(pattern: &'static [u8]) -> (p: Self)
        ensures
            p.kind == PassKind::Fill(pattern),
            p@ == PassModel::Fill(pattern@),
    {
        Pass { kind: PassKind::Fill(pattern) }
    }

    /// A pass that writes a fresh pseudo-random stream.
    pub fn random() -> (p: Self)
        ensures
            p.kind == PassKind::Random,
            p@ == PassModel::Random,
    {
        Pass { kind: PassKind::Random }
    }

    /// A pass of all-zero bytes.
    pub fn zeros() -> (p: Self)
        ensures
            p@ == PassModel::Fill(seq![0x00u8]),
    {
        let p = Pass::fill(&[0x00]);
        assert(p@->Fill_0 =~= seq![0x00u8]);
        p
    }

    /// A pass of all-one bytes (`0xFF`).
    pub fn ones() -> (p: Self)
        ensures
            p@ == PassModel::Fill(seq![0xFFu8]),
    {
        let p = Pass::fill(&[0xFF]);
        assert(p@->Fill_0 =~= seq![0xFFu8]);
        p
    }

    /// Short human label, e.g. "zeros (0x00)", "random", "0x92 49 24".
    pub fn label(&self) -> (s: String)
        ensures
            s@ == pass_label(self@),
    {
        match self.kind {
            PassKind::Random => "random".to_owned(),
            PassKind::Fill(p) => {
                if p.len() == 1 && p[0] == 0x00 {
                    assert(p@ =~= seq![0x00u8]);
                    return "zeros (0x00)".to_owned();
                }
                if p.len() == 1 && p[0] == 0xFF {
                    assert(p@ =~= seq![0xFFu8]);
                    return "ones (0xFF)".to_owned();
                }
                assert(p@ != seq![0x00u8] && p@ != seq![0xFFu8]) by {
                    assert(seq![0x00u8][0] == 0x00 && seq![0xFFu8][0] == 0xFF);
                }
                let mut s = "0x".to_owned();
                let mut i: usize = 0;
                assert(p@.take(0) =~= Seq::<u8>::empty());
                assert(s@ =~= "0x"@ + hex_words(p@.take(0)));
                while i < p.len()
                    invariant
                        i <= p@.len(),
                        s@ == "0x"@ + hex_words(p@.take(i as int)),
                    decreases p@.len() - i,
                {
                    let ghost before = s@;
                    if i > 0 {
                        s.push(' ');
                    }
                    push_hex2_upper(&mut s, p[i]);
                    proof {
                        let next = p@.take(i + 1);
                        assert(next.drop_last() =~= p@.take(i as int));
                        assert(next.last() == p@[i as int]);
                        assert(s@ =~= "0x"@ + hex_words(next));
                    }
                    i += 1;
                }
                assert(p@.take(p@.len() as int) =~= p@);
                s
            },
        }
    }
}

/// Verification policy for a wipe session.
#[derive(Clone, Copy, Debug, PartialEq, Eq, Structural)]
pub enum VerifyMode {
    /// No read-back. Fastest; not recommended.
    Off,
    /// Read back and verify the final pass only (the classic "Verify Last Pass").
    LastPass,
    /// Read back and verify every pass. Doubles total I/O.
    AllPasses,
}

impl VerifyMode {
    /// The mode that follows in the `off → last → all → off` cycle.
    pub open spec fn next(self) -> VerifyMode {
        match self {
            VerifyMode::Off => VerifyMode::LastPass,
            VerifyMode::LastPass => VerifyMode::AllPasses,
            VerifyMode::AllPasses => VerifyMode::Off,
        }
    }

    /// The display label.
    pub open spec fn label_spec(self) -> Seq<char> {
        match self {
            VerifyMode::Off => "off"@,
            VerifyMode::LastPass => "last pass"@,
            VerifyMode::AllPasses => "all passes"@,
        }
    }

    /// Short display label, e.g. `"last pass"`.
    pub fn label(&self) -> (s: &'static str)
        ensures
            s@ == self.label_spec(),
    {
        match self {
            VerifyMode::Off => "off",
            VerifyMode::LastPass => "last pass",
            VerifyMode::AllPasses => "all passes",
        }
    }

    /// Advance to the next mode in the `off → last → all → off` cycle.
    pub fn cycle(&self) -> (m: VerifyMode)
        ensures
            m == self.next(),
    {
        match self {
            VerifyMode::Off => VerifyMode::LastPass,
            VerifyMode::LastPass => VerifyMode::AllPasses,
            VerifyMode::AllPasses => VerifyMode::Off,
        }
    }
}

/// A named, documented wipe standard.
#[derive(Debug)]
pub struct Scheme {
    /// Stable machine id, used in reports.
    pub id: &'static str,
    /// Human-readable scheme name.
    pub name: &'static str,
    /// Where the standard comes from.
    pub origin: &'static str,
    /// One-paragraph description shown in the UI.
    pub description: &'static str,
    /// The ordered list of overwrite passes.
    pub passes: Vec<Pass>,
    /// Verification policy applied by default when this scheme is selected.
    pub default_verify: VerifyMode,
    /// Highlighted as the sane modern default in the UI.
    pub recommended: bool,
}

/// A scheme, with its texts and passes as sequences.
pub struct SchemeModel {
    pub id: Seq<char>,
    pub name: Seq<char>,
    pub origin: Seq<char>,
    pub description: Seq<char>,
    pub passes: Seq<PassModel>,
    pub default_verify: VerifyMode,
    pub recommended: bool,
}

impl View for Scheme {
    type V = SchemeModel;

    open spec fn view(&self) -> SchemeModel {
        SchemeModel {
            id: self.id@,
            name: self.name@,
            origin: self.origin@,
            description: self.description@,
            passes: pass_models(self.passes@),
            default_verify: self.default_verify,
            recommended: self.recommended,
        }
    }
}

impl Scheme {
    /// Number of overwrite passes in the scheme.
    pub fn pass_count(&self) -> (n: usize)
        ensures
            n == self.passes@.len(),
            n == self@.passes.len(),
    {
        self.passes.len()
    }
}

impl Clone for Scheme {
    fn clone(&self) -> (r: Self)
        ensures
            r@ == self@,
    {
        let mut passes: Vec<Pass> = Vec::new();
        let mut i: usize = 0;
        while i < self.passes.len()
            invariant
                i <= self.passes@.len(),
                passes@ == self.passes@.take(i as int),
            decreases self.passes@.len() - i,
        {
            passes.push(self.passes[i]);
            i += 1;
            assert(passes@ =~= self.passes@.take(i as int));
        }
        assert(passes@ =~= self.passes@);
        let r = Scheme {
            id: self.id,
            name: self.name,
            origin: self.origin,
            description: self.description,
            passes,
            default_verify: self.default_verify,
            recommended: self.recommended,
        };
        r
    }
}

/// A pass of zero bytes.
pub open spec fn zeros_model() -> PassModel {
    PassModel::Fill(seq![0x00u8])
}

/// A pass of `0xFF` bytes.
pub open spec fn ones_model() -> PassModel {
    PassModel::Fill(seq![0xFFu8])
}

/// The fixed patterns of the Gutmann scheme, its passes 5..=31 (Gutmann,
/// "Secure Deletion of Data from Magnetic and Solid-State Memory", 1996).
pub open spec fn gutmann_fixed_models() -> Seq<PassModel> {
    seq![
        PassModel::Fill(seq![0x55u8]),
        PassModel::Fill(seq![0xAAu8]),
        PassModel::Fill(seq![0x92u8, 0x49, 0x24]),
        PassModel::Fill(seq![0x49u8, 0x24, 0x92]),
        PassModel::Fill(seq![0x24u8, 0x92, 0x49]),
        PassModel::Fill(seq![0x00u8]),
        PassModel::Fill(seq![0x11u8]),
        PassModel::Fill(seq![0x22u8]),
        PassModel::Fill(seq![0x33u8]),
        PassModel::Fill(seq![0x44u8]),
        PassModel::Fill(seq![0x55u8]),
        PassModel::Fill(seq![0x66u8]),
        PassModel::Fill(seq![0x77u8]),
        PassModel::Fill(seq![0x88u8]),
        PassModel::Fill(seq![0x99u8]),
        PassModel::Fill(seq![0xAAu8]),
        PassModel::Fill(seq![0xBBu8]),
        PassModel::Fill(seq![0xCCu8]),
        PassModel::Fill(seq![0xDDu8]),
        PassModel::Fill(seq![0xEEu8]),
        PassModel::Fill(seq![0xFFu8]),
        PassModel::Fill(seq![0x92u8, 0x49, 0x24]),
        PassModel::Fill(seq![0x49u8, 0x24, 0x92]),
        PassModel::Fill(seq![0x24u8, 0x92, 0x49]),
        PassModel::Fill(seq![0x6Du8, 0xB6, 0xDB]),
        PassModel::Fill(seq![0xB6u8, 0xDB, 0x6D]),
        PassModel::Fill(seq![0xDBu8, 0x6D, 0xB6]),
    ]
}

/// Four random passes.
pub open spec fn four_random() -> Seq<PassModel> {
    seq![PassModel::Random, PassModel::Random, PassModel::Random, PassModel::Random]
}

/// The passes of the Gutmann scheme: four random, the fixed ones, four random.
pub open spec fn gutmann_models() -> Seq<PassModel> {
    four_random() + gutmann_fixed_models() + four_random()
}

/// The full scheme registry, in the order presented by the UI.
pub open spec fn registry() -> Seq<SchemeModel> {
    seq![
        SchemeModel {
            id: "nist-clear"@,
            name: "NIST 800-88 Clear"@,
            origin: "NIST SP 800-88 Rev. 1 (2014)"@,
            description: "Single overwrite with zeros, verified. The modern industry \
                          baseline: one verified pass defeats any software-level recovery \
                          on magnetic and most flash media."@,
            passes: seq![zeros_model()],
            default_verify: VerifyMode::LastPass,
            recommended: true,
        },
        SchemeModel {
            id: "prng"@,
            name: "PRNG Stream"@,
            origin: "classic boot-and-nuke"@,
            description: "One pass of OS-seeded pseudorandom data, verified by \
                          regenerating the stream. Raise 'rounds' for extra passes."@,
            passes: seq![PassModel::Random],
            default_verify: VerifyMode::LastPass,
            recommended: false,
        },
        SchemeModel {
            id: "dod-short"@,
            name: "DoD 5220.22-M (E)"@,
            origin: "US DoD NISPOM, 3-pass short variant"@,
            description: "Zeros, ones, then random, with final verification. The \
                          classic three-pass clearing procedure."@,
            passes: seq![zeros_model(), ones_model(), PassModel::Random],
            default_verify: VerifyMode::LastPass,
            recommended: false,
        },
        SchemeModel {
            id: "dod-ece"@,
            name: "DoD 5220.22-M (ECE)"@,
            origin: "US DoD NISPOM, 7-pass variant"@,
            description: "Seven passes: the E sequence, a random pass, then the E \
                          sequence again. Final pass verified."@,
            passes: seq![
                zeros_model(),
                ones_model(),
                PassModel::Random,
                PassModel::Random,
                zeros_model(),
                ones_model(),
                PassModel::Random,
            ],
            default_verify: VerifyMode::LastPass,
            recommended: false,
        },
        SchemeModel {
            id: "schneier"@,
            name: "Schneier 7-pass"@,
            origin: "B. Schneier, Applied Cryptography (1996)"@,
            description: "Ones, zeros, then five passes of random data."@,
            passes: seq![
                ones_model(),
                zeros_model(),
                PassModel::Random,
                PassModel::Random,
                PassModel::Random,
                PassModel::Random,
                PassModel::Random,
            ],
            default_verify: VerifyMode::LastPass,
            recommended: false,
        },
        SchemeModel {
            id: "gutmann"@,
            name: "Gutmann 35-pass"@,
            origin: "P. Gutmann (1996)"@,
            description: "The famous 35-pass scheme targeting 1990s encoding \
                          schemes (MFM/RLL). Overkill on modern drives; included \
                          for completeness and compliance checklists."@,
            passes: gutmann_models(),
            default_verify: VerifyMode::LastPass,
            recommended: false,
        },
        SchemeModel {
            id: "vsitr"@,
            name: "VSITR"@,
            origin: "German BSI, 7-pass"@,
            description: "Alternating zeros and ones for six passes, finishing \
                          with 0xAA."@,
            passes: seq![
                zeros_model(),
                ones_model(),
                zeros_model(),
                ones_model(),
                zeros_model(),
                ones_model(),
                PassModel::Fill(seq![0xAAu8]),
            ],
            default_verify: VerifyMode::LastPass,
            recommended: false,
        },
        SchemeModel {
            id: "rcmp-tssit"@,
            name: "RCMP TSSIT OPS-II"@,
            origin: "Royal Canadian Mounted Police"@,
            description: "Six alternating fixed passes followed by a verified \
                          random pass."@,
            passes: seq![
                zeros_model(),
                ones_model(),
                zeros_model(),
                ones_model(),
                zeros_model(),
                ones_model(),
                PassModel::Random,
            ],
            default_verify: VerifyMode::LastPass,
            recommended: false,
        },
        SchemeModel {
            id: "hmg-is5"@,
            name: "HMG IS5 Enhanced"@,
            origin: "UK CESG / NCSC"@,
            description: "Zeros, ones, then verified random data."@,
            passes: seq![zeros_model(), ones_model(), PassModel::Random],
            default_verify: VerifyMode::LastPass,
            recommended: false,
        },
        SchemeModel {
            id: "afssi-5020"@,
            name: "AFSSI-5020"@,
            origin: "US Air Force System Security Instruction 5020"@,
            description: "Zeros, ones, then a verified pseudorandom pass."@,
            passes: seq![zeros_model(), ones_model(), PassModel::Random],
            default_verify: VerifyMode::LastPass,
            recommended: false,
        },
        SchemeModel {
            id: "zero"@,
            name: "Quick Zero Fill"@,
            origin: "—"@,
            description: "Single unverified pass of zeros. Fast blanking for \
                          non-sensitive media; prefer NIST Clear when it matters."@,
            passes: seq![zeros_model()],
            default_verify: VerifyMode::Off,
            recommended: false,
        },
    ]
}

/// The fixed passes of the Gutmann scheme.
fn gutmann_fixed() -> (v: Vec<Pass>)
    ensures
        pass_models(v@) == gutmann_fixed_models(),
{
    let v = vec![
        Pass::fill(&[0x55]),
        Pass::fill(&[0xAA]),
        Pass::fill(&[0x92, 0x49, 0x24]),
        Pass::fill(&[0x49, 0x24, 0x92]),
        Pass::fill(&[0x24, 0x92, 0x49]),
        Pass::fill(&[0x00]),
        Pass::fill(&[0x11]),
        Pass::fill(&[0x22]),
        Pass::fill(&[0x33]),
        Pass::fill(&[0x44]),
        Pass::fill(&[0x55]),
        Pass::fill(&[0x66]),
        Pass::fill(&[0x77]),
        Pass::fill(&[0x88]),
        Pass::fill(&[0x99]),
        Pass::fill(&[0xAA]),
        Pass::fill(&[0xBB]),
        Pass::fill(&[0xCC]),
        Pass::fill(&[0xDD]),
        Pass::fill(&[0xEE]),
        Pass::fill(&[0xFF]),
        Pass::fill(&[0x92, 0x49, 0x24]),
        Pass::fill(&[0x49, 0x24, 0x92]),
        Pass::fill(&[0x24, 0x92, 0x49]),
        Pass::fill(&[0x6D, 0xB6, 0xDB]),
        Pass::fill(&[0xB6, 0xDB, 0x6D]),
        Pass::fill(&[0xDB, 0x6D, 0xB6]),
    ];
    assert forall|i: int| 0 <= i < 27 implies (#[trigger] pass_models(v@)[i])->Fill_0
        =~= gutmann_fixed_models()[i]->Fill_0 by {
    }
    assert(pass_models(v@) =~= gutmann_fixed_models());
    v
}

fn gutmann_passes() -> (passes: Vec<Pass>)
    ensures
        pass_models(passes@) == gutmann_models(),
{
    let mut passes = vec![Pass::random(), Pass::random(), Pass::random(), Pass::random()];
    let mut fixed = gutmann_fixed();
    let mut tail = vec![Pass::random(), Pass::random(), Pass::random(), Pass::random()];
    let ghost head = passes@;
    let ghost mid = fixed@;
    let ghost end = tail@;
    passes.append(&mut fixed);
    passes.append(&mut tail);
    proof {
        assert(pass_models(head) =~= four_random());
        assert(pass_models(end) =~= four_random());
        assert(pass_models(passes@) =~= pass_models(head) + pass_models(mid) + pass_models(end));
    }
    passes
}

/// The full scheme registry, in the order presented by the UI.
pub fn all_schemes() -> (r: Vec<Scheme>)
    ensures
        r@.map_values(|s: Scheme| s@) == registry(),
{
    let r = vec![
        Scheme {
            id: "nist-clear",
            name: "NIST 800-88 Clear",
            origin: "NIST SP 800-88 Rev. 1 (2014)",
            description: "Single overwrite with zeros, verified. The modern industry \
                          baseline: one verified pass defeats any software-level recovery \
                          on magnetic and most flash media.",
            passes: vec![Pass::zeros()],
            default_verify: VerifyMode::LastPass,
            recommended: true,
        },
        Scheme {
            id: "prng",
            name: "PRNG Stream",
            origin: "classic boot-and-nuke",
            description: "One pass of OS-seeded pseudorandom data, verified by \
                          regenerating the stream. Raise 'rounds' for extra passes.",
            passes: vec![Pass::random()],
            default_verify: VerifyMode::LastPass,
            recommended: false,
        },
        Scheme {
            id: "dod-short",
            name: "DoD 5220.22-M (E)",
            origin: "US DoD NISPOM, 3-pass short variant",
            description: "Zeros, ones, then random, with final verification. The \
                          classic three-pass clearing procedure.",
            passes: vec![Pass::zeros(), Pass::ones(), Pass::random()],
            default_verify: VerifyMode::LastPass,
            recommended: false,
        },
        Scheme {
            id: "dod-ece",
            name: "DoD 5220.22-M (ECE)",
            origin: "US DoD NISPOM, 7-pass variant",
            description: "Seven passes: the E sequence, a random pass, then the E \
                          sequence again. Final pass verified.",
            passes: vec![
                Pass::zeros(),
                Pass::ones(),
                Pass::random(),
                Pass::random(),
                Pass::zeros(),
                Pass::ones(),
                Pass::random(),
            ],
            default_verify: VerifyMode::LastPass,
            recommended: false,
        },
        Scheme {
            id: "schneier",
            name: "Schneier 7-pass",
            origin: "B. Schneier, Applied Cryptography (1996)",
            description: "Ones, zeros, then five passes of random data.",
            passes: vec![
                Pass::ones(),
                Pass::zeros(),
                Pass::random(),
                Pass::random(),
                Pass::random(),
                Pass::random(),
                Pass::random(),
            ],
            default_verify: VerifyMode::LastPass,
            recommended: false,
        },
        Scheme {
            id: "gutmann",
            name: "Gutmann 35-pass",
            origin: "P. Gutmann (1996)",
            description: "The famous 35-pass scheme targeting 1990s encoding \
                          schemes (MFM/RLL). Overkill on modern drives; included \
                          for completeness and compliance checklists.",
            passes: gutmann_passes(),
            default_verify: VerifyMode::LastPass,
            recommended: false,
        },
        Scheme {
            id: "vsitr",
            name: "VSITR",
            origin: "German BSI, 7-pass",
            description: "Alternating zeros and ones for six passes, finishing \
                          with 0xAA.",
            passes: vec![
                Pass::zeros(),
                Pass::ones(),
                Pass::zeros(),
                Pass::ones(),
                Pass::zeros(),
                Pass::ones(),
                Pass::fill(&[0xAA]),
            ],
            default_verify: VerifyMode::LastPass,
            recommended: false,
        },
        Scheme {
            id: "rcmp-tssit",
            name: "RCMP TSSIT OPS-II",
            origin: "Royal Canadian Mounted Police",
            description: "Six alternating fixed passes followed by a verified \
                          random pass.",
            passes: vec![
                Pass::zeros(),
                Pass::ones(),
                Pass::zeros(),
                Pass::ones(),
                Pass::zeros(),
                Pass::ones(),
                Pass::random(),
            ],
            default_verify: VerifyMode::LastPass,
            recommended: false,
        },
        Scheme {
            id: "hmg-is5",
            name: "HMG IS5 Enhanced",
            origin: "UK CESG / NCSC",
            description: "Zeros, ones, then verified random data.",
            passes: vec![Pass::zeros(), Pass::ones(), Pass::random()],
            default_verify: VerifyMode::LastPass,
            recommended: false,
        },
        Scheme {
            id: "afssi-5020",
            name: "AFSSI-5020",
            origin: "US Air Force System Security Instruction 5020",
            description: "Zeros, ones, then a verified pseudorandom pass.",
            passes: vec![Pass::zeros(), Pass::ones(), Pass::random()],
            default_verify: VerifyMode::LastPass,
            recommended: false,
        },
        Scheme {
            id: "zero",
            name: "Quick Zero Fill",
            origin: "—",
            description: "Single unverified pass of zeros. Fast blanking for \
                          non-sensitive media; prefer NIST Clear when it matters.",
            passes: vec![Pass::zeros()],
            default_verify: VerifyMode::Off,
            recommended: false,
        },
    ];
    proof {
        assert(r@[0]@.passes =~= registry()[0].passes);
        assert(r@[1]@.passes =~= registry()[1].passes);
        assert(r@[2]@.passes =~= registry()[2].passes);
        assert(r@[3]@.passes =~= registry()[3].passes);
        assert(r@[4]@.passes =~= registry()[4].passes);
        assert(r@[5]@.passes =~= registry()[5].passes);
        assert(r@[6]@.passes[6]->Fill_0 =~= registry()[6].passes[6]->Fill_0);
        assert(r@[6]@.passes =~= registry()[6].passes);
        assert(r@[7]@.passes =~= registry()[7].passes);
        assert(r@[8]@.passes =~= registry()[8].passes);
        assert(r@[9]@.passes =~= registry()[9].passes);
        assert(r@[10]@.passes =~= registry()[10].passes);
        assert(r@.map_values(|s: Scheme| s@) =~= registry());
    }
    r
}

/// Scheme ids are unique.
pub proof fn law_scheme_ids_are_unique(i: int, j: int)
    requires
        0 <= i < j < registry().len(),
    ensures
        registry()[i].id != registry()[j].id,
{
    reveal_strlit("nist-clear");
    reveal_strlit("prng");
    reveal_strlit("dod-short");
    reveal_strlit("dod-ece");
    reveal_strlit("schneier");
    reveal_strlit("gutmann");
    reveal_strlit("vsitr");
    reveal_strlit("rcmp-tssit");
    reveal_strlit("hmg-is5");
    reveal_strlit("afssi-5020");
    reveal_strlit("zero");
    let a = registry()[i].id;
    let b = registry()[j].id;
    assert(a.len() != b.len() || a[0] != b[0] || a[1] != b[1] || a[4] != b[4] || a[5] != b[5]);
}

/// Exactly one scheme, the first, is the recommended default.
pub proof fn law_one_scheme_is_recommended(i: int)
    requires
        0 <= i < registry().len(),
    ensures
        registry()[i].recommended <==> i == 0,
{
}

/// Every scheme has at least one pass and a description, and every pattern
/// that it writes is one to three bytes long.
pub proof fn law_schemes_are_complete(i: int)
    requires
        0 <= i < registry().len(),
    ensures
        registry()[i].passes.len() >= 1,
        registry()[i].description.len() > 0,
        forall|k: int|
            0 <= k < registry()[i].passes.len() ==> ((#[trigger] registry()[i].passes[k]) matches PassModel::Fill(
                p,
            ) ==> 1 <= p.len() <= 3),
{
    reveal_strlit("Single overwrite with zeros, verified. The modern industry \
                          baseline: one verified pass defeats any software-level recovery \
                          on magnetic and most flash media.");
    reveal_strlit("One pass of OS-seeded pseudorandom data, verified by \
                          regenerating the stream. Raise 'rounds' for extra passes.");
    reveal_strlit("Zeros, ones, then random, with final verification. The \
                          classic three-pass clearing procedure.");
    reveal_strlit("Seven passes: the E sequence, a random pass, then the E \
                          sequence again. Final pass verified.");
    reveal_strlit("Ones, zeros, then five passes of random data.");
    reveal_strlit("The famous 35-pass scheme targeting 1990s encoding \
                          schemes (MFM/RLL). Overkill on modern drives; included \
                          for completeness and compliance checklists.");
    reveal_strlit("Alternating zeros and ones for six passes, finishing \
                          with 0xAA.");
    reveal_strlit("Six alternating fixed passes followed by a verified \
                          random pass.");
    reveal_strlit("Zeros, ones, then verified random data.");
    reveal_strlit("Zeros, ones, then a verified pseudorandom pass.");
    reveal_strlit("Single unverified pass of zeros. Fast blanking for \
                          non-sensitive media; prefer NIST Clear when it matters.");
}

/// The Gutmann scheme has 35 passes; the first four and the last four are
/// random and the 27 between them are fixed patterns.
pub proof fn law_gutmann_shape(k: int)
    requires
        0 <= k < 35,
    ensures
        gutmann_models().len() == 35,
        gutmann_models()[k] is Random <==> (k < 4 || k >= 31),
{
}

/// Cycling the verification mode three times gives it back, and no sooner.
pub proof fn law_verify_mode_cycle(m: VerifyMode)
    ensures
        m.next().next().next() == m,
        m.next() != m,
        m.next().next() != m,
{
}

/// Whether every byte that a pass writes is `b`.
pub open spec fn writes_only(p: PassModel, b: u8) -> bool {
    p matches PassModel::Fill(s) && s.len() > 0 && forall|k: int| 0 <= k < s.len() ==> #[trigger] s[k] == b
}

/// Zeros, then ones, then random data.
pub open spec fn is_three_step(p: Seq<PassModel>) -> bool {
    p.len() == 3 && writes_only(p[0], 0x00) && writes_only(p[1], 0xFF) && p[2] is Random
}

/// Zeros and ones by turns, three times.
pub open spec fn alternates_six_times(p: Seq<PassModel>) -> bool {
    forall|k: int| 0 <= k < 6 ==> writes_only(#[trigger] p[k], if k % 2 == 0 { 0x00 } else { 0xFF })
}

/// Each standard writes what it prescribes: NIST Clear and the quick fill zeros,
/// PRNG Stream random data, DoD E, HMG IS5 and AFSSI-5020 zeros, ones and random
/// data, DoD ECE that sequence around a random pass, Schneier ones, zeros and five
/// times random data, VSITR and RCMP zeros and ones by turns and then 0xAA or random
/// data.
pub proof fn law_standards_write_what_they_prescribe()
    ensures
        registry().len() == 11,
        registry()[0].id == "nist-clear"@ && registry()[0].passes.len() == 1 && writes_only(
            registry()[0].passes[0],
            0x00,
        ),
        registry()[1].id == "prng"@ && registry()[1].passes.len() == 1
            && registry()[1].passes[0] is Random,
        registry()[2].id == "dod-short"@ && is_three_step(registry()[2].passes),
        registry()[3].id == "dod-ece"@ && registry()[3].passes.len() == 7 && is_three_step(
            registry()[3].passes.take(3),
        ) && registry()[3].passes[3] is Random && is_three_step(registry()[3].passes.skip(4)),
        registry()[4].id == "schneier"@ && registry()[4].passes.len() == 7 && writes_only(
            registry()[4].passes[0],
            0xFF,
        ) && writes_only(registry()[4].passes[1], 0x00) && forall|k: int|
            2 <= k < 7 ==> (#[trigger] registry()[4].passes[k]) is Random,
        registry()[5].id == "gutmann"@ && registry()[5].passes.len() == 35,
        registry()[6].id == "vsitr"@ && registry()[6].passes.len() == 7 && alternates_six_times(
            registry()[6].passes,
        ) && writes_only(registry()[6].passes[6], 0xAA),
        registry()[7].id == "rcmp-tssit"@ && registry()[7].passes.len() == 7 && alternates_six_times(
            registry()[7].passes,
        ) && registry()[7].passes[6] is Random,
        registry()[8].id == "hmg-is5"@ && is_three_step(registry()[8].passes),
        registry()[9].id == "afssi-5020"@ && is_three_step(registry()[9].passes),
        registry()[10].id == "zero"@ && registry()[10].passes.len() == 1 && writes_only(
            registry()[10].passes[0],
            0x00,
        ),
{
}

/// Every scheme reads its last pass back by default, except the quick zero fill, which
/// reads nothing back.
pub proof fn law_only_the_quick_fill_is_unverified(i: int)
    requires
        0 <= i < registry().len(),
    ensures
        registry()[i].default_verify == if i == registry().len() - 1 {
            VerifyMode::Off
        } else {
            VerifyMode::LastPass
        },
{
}

/// A pattern moved on by one byte.
pub open spec fn rotated(s: Seq<u8>) -> Seq<u8> {
    s.skip(1).push(s[0])
}

/// The fixed passes of the Gutmann scheme (1996), between four random ones on either
/// side: 0x55 and its complement, the three-byte MFM pattern 92 49 24 in its three
/// phases, every byte of two equal digits in ascending order, and the MFM pattern
/// again and its complement, each in three phases.
pub proof fn law_gutmann_patterns(k: int)
    requires
        0 <= k < 16,
    ensures
        ({
            let g = registry()[5].passes;
            &&& forall|i: int| 0 <= i < 4 || 31 <= i < 35 ==> (#[trigger] g[i]) is Random
            &&& writes_only(g[4], 0x55)
            &&& writes_only(g[5], 0xAA)
            &&& g[6] == PassModel::Fill(seq![0x92u8, 0x49, 0x24])
            &&& g[7] == PassModel::Fill(rotated(g[6]->Fill_0))
            &&& g[8] == PassModel::Fill(rotated(g[7]->Fill_0))
            &&& writes_only(g[9 + k], (0x11 * k) as u8)
            &&& g[25] == g[6] && g[26] == g[7] && g[27] == g[8]
            &&& g[28] == PassModel::Fill(g[25]->Fill_0.map_values(|b: u8| (0xFF - b) as u8))
            &&& g[29] == PassModel::Fill(rotated(g[28]->Fill_0))
            &&& g[30] == PassModel::Fill(rotated(g[29]->Fill_0))
        }),
{
    let g = registry()[5].passes;
    assert(g[7]->Fill_0 =~= rotated(g[6]->Fill_0));
    assert(g[8]->Fill_0 =~= rotated(g[7]->Fill_0));
    assert(g[28]->Fill_0 =~= g[25]->Fill_0.map_values(|b: u8| (0xFF - b) as u8));
    assert(g[29]->Fill_0 =~= rotated(g[28]->Fill_0));
    assert(g[30]->Fill_0 =~= rotated(g[29]->Fill_0));
}

} // verus!
