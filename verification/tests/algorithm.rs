use dban::algorithm::{all_schemes, Pass, PassKind, Scheme, VerifyMode};

fn scheme<'a>(schemes: &'a [Scheme], id: &str) -> &'a Scheme {
    schemes.iter().find(|s| s.id == id).unwrap()
}

#[test]
fn registry_is_sane() {
    let schemes = all_schemes();
    assert!(schemes.len() >= 10);
    // Exactly one recommended default.
    assert_eq!(schemes.iter().filter(|s| s.recommended).count(), 1);
    // Unique ids.
    let mut ids: Vec<_> = schemes.iter().map(|s| s.id).collect();
    ids.sort();
    ids.dedup();
    assert_eq!(ids.len(), schemes.len());
    // Every scheme has at least one pass and a non-empty description.
    for s in &schemes {
        assert!(!s.passes.is_empty(), "{} has no passes", s.id);
        assert!(!s.description.is_empty());
    }
}

#[test]
fn gutmann_is_35_passes() {
    let schemes = all_schemes();
    let g = scheme(&schemes, "gutmann");
    assert_eq!(g.pass_count(), 35);
    let randoms = g
        .passes
        .iter()
        .filter(|p| p.kind == PassKind::Random)
        .count();
    assert_eq!(
        randoms, 8,
        "Gutmann has 4 leading + 4 trailing random passes"
    );
    // First four and last four are random, middle 27 are fixed.
    assert!(g.passes[..4].iter().all(|p| p.kind == PassKind::Random));
    assert!(g.passes[31..].iter().all(|p| p.kind == PassKind::Random));
}

#[test]
fn dod_variants() {
    let schemes = all_schemes();
    assert_eq!(scheme(&schemes, "dod-short").pass_count(), 3);
    assert_eq!(scheme(&schemes, "dod-ece").pass_count(), 7);
    assert_eq!(scheme(&schemes, "schneier").pass_count(), 7);
    assert_eq!(scheme(&schemes, "vsitr").pass_count(), 7);
}

#[test]
fn pass_labels() {
    assert_eq!(Pass::zeros().label(), "zeros (0x00)");
    assert_eq!(Pass::ones().label(), "ones (0xFF)");
    assert_eq!(Pass::random().label(), "random");
    assert_eq!(Pass::fill(&[0x92, 0x49, 0x24]).label(), "0x92 49 24");
}

#[test]
fn verify_mode_cycles() {
    let mut v = VerifyMode::Off;
    v = v.cycle();
    assert_eq!(v, VerifyMode::LastPass);
    v = v.cycle();
    assert_eq!(v, VerifyMode::AllPasses);
    v = v.cycle();
    assert_eq!(v, VerifyMode::Off);
}

#[test]
fn verify_mode_labels() {
    assert_eq!(VerifyMode::Off.label(), "off");
    assert_eq!(VerifyMode::LastPass.label(), "last pass");
    assert_eq!(VerifyMode::AllPasses.label(), "all passes");
}

#[test]
fn unusual_pass_labels() {
    assert_eq!(Pass::fill(&[0xAA]).label(), "0xAA");
    assert_eq!(Pass::fill(&[]).label(), "0x");
    assert_eq!(Pass::fill(&[0x00, 0x00]).label(), "0x00 00");
}

#[test]
fn gutmann_patterns_in_order() {
    let schemes = all_schemes();
    let g = scheme(&schemes, "gutmann");
    assert_eq!(g.passes[4].kind, PassKind::Fill(&[0x55]));
    assert_eq!(g.passes[6].kind, PassKind::Fill(&[0x92, 0x49, 0x24]));
    assert_eq!(g.passes[24].kind, PassKind::Fill(&[0xFF]));
    assert_eq!(g.passes[30].kind, PassKind::Fill(&[0xDB, 0x6D, 0xB6]));
}

#[test]
fn scheme_pass_counts_match_the_documented_table() {
    let schemes = all_schemes();
    let counts: Vec<(&str, usize)> = schemes.iter().map(|s| (s.id, s.pass_count())).collect();
    assert_eq!(
        counts,
        vec![
            ("nist-clear", 1),
            ("prng", 1),
            ("dod-short", 3),
            ("dod-ece", 7),
            ("schneier", 7),
            ("gutmann", 35),
            ("vsitr", 7),
            ("rcmp-tssit", 7),
            ("hmg-is5", 3),
            ("afssi-5020", 3),
            ("zero", 1),
        ]
    );
    assert_eq!(scheme(&schemes, "zero").default_verify, VerifyMode::Off);
    assert_eq!(scheme(&schemes, "zero").origin, "—");
    assert!(scheme(&schemes, "nist-clear").recommended);
    let copy = scheme(&schemes, "vsitr").clone();
    assert_eq!(copy.passes[6].kind, PassKind::Fill(&[0xAA]));
}
