use dban::prng::{seed_from_le, Prng};

#[test]
fn same_seed_same_stream() {
    let mut a = Prng::from_seed(42);
    let mut b = Prng::from_seed(42);
    let mut buf_a = vec![0u8; 4096 + 5];
    let mut buf_b = vec![0u8; 4096 + 5];
    a.fill(&mut buf_a);
    b.fill(&mut buf_b);
    assert_eq!(buf_a, buf_b);
}

#[test]
fn different_seeds_diverge() {
    let mut a = Prng::from_seed(1);
    let mut b = Prng::from_seed(2);
    let mut buf_a = vec![0u8; 256];
    let mut buf_b = vec![0u8; 256];
    a.fill(&mut buf_a);
    b.fill(&mut buf_b);
    assert_ne!(buf_a, buf_b);
}

#[test]
fn output_is_not_degenerate() {
    // Sanity: a 1 MiB stream should contain (nearly) every byte value.
    let mut p = Prng::from_seed(0xDEADBEEF);
    let mut buf = vec![0u8; 1 << 20];
    p.fill(&mut buf);
    let mut seen = [false; 256];
    for &b in &buf {
        seen[b as usize] = true;
    }
    assert!(seen.iter().filter(|&&s| s).count() == 256);
}

#[test]
fn zero_seed_is_valid() {
    let mut p = Prng::from_seed(0);
    let mut buf = vec![0u8; 64];
    p.fill(&mut buf);
    assert!(buf.iter().any(|&b| b != 0));
}

/// The published generator, on native rotations.
fn reference(seed: u64, n: usize) -> Vec<u64> {
    let mut sm: u64 = seed;
    let mut s = [0u64; 4];
    for slot in &mut s {
        sm = sm.wrapping_add(0x9E37_79B9_7F4A_7C15);
        let mut z: u64 = sm;
        z = (z ^ (z >> 30)).wrapping_mul(0xBF58_476D_1CE4_E5B9);
        z = (z ^ (z >> 27)).wrapping_mul(0x94D0_49BB_1331_11EB);
        *slot = z ^ (z >> 31);
    }
    let mut out = Vec::new();
    for _ in 0..n {
        out.push(s[0].wrapping_add(s[3]).rotate_left(23).wrapping_add(s[0]));
        let t: u64 = s[1] << 17;
        s[2] ^= s[0];
        s[3] ^= s[1];
        s[1] ^= s[2];
        s[0] ^= s[3];
        s[2] ^= t;
        s[3] = s[3].rotate_left(45);
    }
    out
}

#[test]
fn words_are_those_of_xoshiro256_plus_plus() {
    for seed in [0u64, 1, 42, u64::MAX, 0xDEADBEEF] {
        let mut p = Prng::from_seed(seed);
        for w in reference(seed, 100) {
            assert_eq!(p.next_u64(), w);
        }
    }
}

#[test]
fn fill_in_pieces_is_fill_at_once() {
    let mut whole = vec![0u8; 1000];
    Prng::from_seed(7).fill(&mut whole);
    let mut p = Prng::from_seed(7);
    let mut pieces = Vec::new();
    for len in [8usize, 64, 128, 400, 400] {
        let mut part = vec![0u8; len];
        p.fill(&mut part);
        pieces.extend_from_slice(&part);
    }
    assert_eq!(whole, pieces);
    // Bytes are the words, least significant byte first.
    let words = reference(7, 125);
    let bytes: Vec<u8> = words.iter().flat_map(|w| w.to_le_bytes()).collect();
    assert_eq!(whole, bytes);
}

#[test]
fn fresh_generators_reproduce_from_their_seed() {
    let (mut p, seed) = Prng::fresh().unwrap();
    let mut again = Prng::from_seed(seed);
    let mut copy = p.clone();
    let w: u64 = p.next_u64();
    assert_eq!(w, again.next_u64());
    assert_eq!(w, copy.next_u64());
    let (_, other) = Prng::fresh().unwrap();
    assert_ne!(seed, other, "seeds come from the operating system");
}

#[test]
fn seeds_are_read_least_significant_byte_first() {
    assert_eq!(seed_from_le(&[1, 2, 3, 4, 5, 6, 7, 8]), 0x0807_0605_0403_0201);
    assert_eq!(seed_from_le(&[0xff; 8]), u64::MAX);
}

#[test]
fn entropy_makes_the_seed() {
    let (mut p, seed) = Prng::from_entropy(Some([42, 0, 0, 0, 0, 0, 0, 1])).unwrap();
    assert_eq!(seed, 0x0100_0000_0000_002a);
    assert_eq!(p.next_u64(), Prng::from_seed(seed).next_u64());
    assert!(Prng::from_entropy(None).is_none());
}
