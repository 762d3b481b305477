use dban::signing::{hex, unhex, ReportSignature};

#[test]
fn hex_roundtrip() {
    let data = [0x00u8, 0x0f, 0xa5, 0xff, 0x10];
    assert_eq!(hex(&data), "000fa5ff10");
    assert_eq!(unhex("000FA5ff10").unwrap(), data);
    assert!(unhex("xyz").is_none());
    assert!(unhex("abc").is_none()); // odd length
}

#[test]
fn sign_and_verify_roundtrip() {
    let bytes = b"erasure report contents";
    let sig = ReportSignature::create("dban-report-1.json", bytes).unwrap();
    assert_eq!(sig.algorithm, "Ed25519");
    assert_eq!(sig.public_key.len(), 64);
    assert_eq!(sig.signature.len(), 128);
    assert!(sig.verify(bytes), "fresh signature must verify");
    assert_eq!(sig.fingerprint().len(), 16);
}

#[test]
fn tampering_breaks_verification() {
    let bytes = b"erasure report contents";
    let sig = ReportSignature::create("r.json", bytes).unwrap();
    let mut tampered = bytes.to_vec();
    tampered[0] ^= 0x01;
    assert!(
        !sig.verify(&tampered),
        "altered bytes must fail verification"
    );
}

#[test]
fn distinct_sessions_use_distinct_keys() {
    let a = ReportSignature::create("r.json", b"x").unwrap();
    let b = ReportSignature::create("r.json", b"x").unwrap();
    assert_ne!(a.public_key, b.public_key, "keys are ephemeral per call");
}

#[test]
fn non_ascii_text_is_no_hex() {
    assert!(unhex("éé").is_none());
    assert!(unhex("0é0").is_none());
    assert_eq!(unhex("").unwrap(), Vec::<u8>::new());
}

#[test]
fn known_signature() {
    // RFC 8032, section 7.1, test 2.
    let seed = unhex("4ccd089b28ff96da9db6c346ec114e0f5b8a319f35aba624da8cf6ed4fb8a6fb").unwrap();
    let seed: [u8; 32] = seed.try_into().unwrap();
    let sig = ReportSignature::create_with_seed("r.json", &[0x72], &seed);
    assert_eq!(
        sig.public_key,
        "3d4017c3e843895a92b70aa74d1b7ebc9c982ccf2ec4968cc0cd55f12af4660c"
    );
    assert_eq!(
        sig.signature,
        "92a009a9f0d4cab8720e820b5f642540a2b27b5416503f8fb3762223ebdb69da\
         085ac1e43e15996e458f3613d0f11d8c387b2eaeb4302aeeb00d291612bb0c00"
    );
    assert_eq!(sig.signed_file, "r.json");
    assert!(sig.verify(&[0x72]));
    assert!(!sig.verify(&[0x73]));
    assert_eq!(sig.fingerprint(), "3d4017c3e843895a");
    assert!(sig.clone().verify(&[0x72]));
}

#[test]
fn malformed_records_do_not_verify() {
    let mut sig = ReportSignature::create("r.json", b"x").unwrap();
    let good = sig.public_key.clone();
    sig.public_key = "zz".to_string();
    assert!(!sig.verify(b"x"));
    assert_eq!(sig.fingerprint(), "zz");
    sig.public_key = good[2..].to_string();
    assert!(!sig.verify(b"x"));
    sig.public_key = "02".to_string() + &"00".repeat(31);
    assert!(!sig.verify(b"x"), "no point has this encoding, or it is not the signer");
    sig.public_key = good;
    assert!(sig.verify(b"x"));
    sig.signature = sig.signature[..126].to_string();
    assert!(!sig.verify(b"x"));
}

#[test]
fn entropy_makes_the_key() {
    let sig = ReportSignature::create_with_entropy("r.json", b"data", Some([7; 32])).unwrap();
    let same = ReportSignature::create_with_seed("r.json", b"data", &[7; 32]);
    assert_eq!(sig.public_key, same.public_key);
    assert_eq!(sig.signature, same.signature);
    assert!(sig.verify(b"data"));
    assert!(ReportSignature::create_with_entropy("r.json", b"data", None).is_none());
}

#[test]
fn decoding_and_encoding_gives_lower_case() {
    assert_eq!(hex(&unhex("00fFAb9C").unwrap()), "00ffab9c");
}
