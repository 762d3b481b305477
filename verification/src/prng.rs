//! xoshiro256++ pseudo-random generator.
//!
//! * fast byte-stream generation (the wipe engine is I/O bound, never PRNG
//!   bound),
//! * fully deterministic from a 64-bit seed, which lets the verify phase
//!   regenerate the exact stream that was written instead of buffering it,
//! * tiny, auditable implementation.
//!
//! Seeds come from the operating system CSPRNG via `getrandom`.

use vstd::prelude::*;

verus! {

/// A generator state: four 64-bit words.
pub struct PrngState {
    pub s0: u64,
    pub s1: u64,
    pub s2: u64,
    pub s3: u64,
}

/// Rotation of a 64-bit word to the left by `k` bits, `0 < k < 64`.
pub open spec fn rotl(x: u64, k: u64) -> u64 {
    (x << k) | (x >> ((64 - k) as u64))
}

/// The splitmix64 counter after one step.
pub open spec fn splitmix_next(s: u64) -> u64 {
    s.wrapping_add(0x9E37_79B9_7F4A_7C15)
}

/// The splitmix64 output for the (already advanced) counter `s`.
pub open spec fn splitmix_mix(s: u64) -> u64 {
    let z1 = (s ^ (s >> 30)).wrapping_mul(0xBF58_476D_1CE4_E5B9);
    let z2 = (z1 ^ (z1 >> 27)).wrapping_mul(0x94D0_49BB_1331_11EB);
    z2 ^ (z2 >> 31)
}

/// The four words that splitmix64 expands `seed` into.
pub open spec fn expand_seed(seed: u64) -> PrngState {
    let c0 = splitmix_next(seed);
    let c1 = splitmix_next(c0);
    let c2 = splitmix_next(c1);
    let c3 = splitmix_next(c2);
    PrngState {
        s0: splitmix_mix(c0),
        s1: splitmix_mix(c1),
        s2: splitmix_mix(c2),
        s3: splitmix_mix(c3),
    }
}

/// The all-zero state is a fixed point of the generator and must not occur.
pub open spec fn is_zero_state(st: PrngState) -> bool {
    st.s0 == 0 && st.s1 == 0 && st.s2 == 0 && st.s3 == 0
}

/// The state that the generator starts from for `seed`.
pub open spec fn seed_state(seed: u64) -> PrngState {
    let st = expand_seed(seed);
    if is_zero_state(st) {
        PrngState { s0: 1, s1: 0, s2: 0, s3: 0 }
    } else {
        st
    }
}

/// The word that the generator gives in state `st`.
pub open spec fn output(st: PrngState) -> u64 {
    rotl(st.s0.wrapping_add(st.s3), 23).wrapping_add(st.s0)
}

/// The state after `st`.
pub open spec fn step(st: PrngState) -> PrngState {
    let t = st.s1 << 17;
    let b = st.s2 ^ st.s0;
    let c = st.s3 ^ st.s1;
    PrngState { s0: st.s0 ^ c, s1: st.s1 ^ b, s2: b ^ t, s3: rotl(c, 45) }
}

/// The state `n` steps after `st`.
pub open spec fn state_after(st: PrngState, n: nat) -> PrngState
    decreases n,
{
    if n == 0 {
        st
    } else {
        step(state_after(st, (n - 1) as nat))
    }
}

/// Byte `k` (0 to 7) of a word, least significant first.
pub open spec fn le_byte(w: u64, k: nat) -> u8 {
    ((w >> ((8 * k) as u64)) & 0xff) as u8
}

/// Byte `i` of the stream that starts in state `st`.
pub open spec fn stream_byte(st: PrngState, i: nat) -> u8 {
    le_byte(output(state_after(st, i / 8)), i % 8)
}

/// The first `n` bytes of the stream that starts in state `st`.
pub open spec fn stream(st: PrngState, n: nat) -> Seq<u8> {
    Seq::new(n, |i: int| stream_byte(st, i as nat))
}

/// How many words a fill of `n` bytes consumes.
pub open spec fn words_for(n: nat) -> nat {
    (n + 7) / 8
}

fn rotate_left(x: u64, k: u64) -> (r: u64)
    requires
        0 < k < 64,
    ensures
        r == rotl(x, k),
{
    (x << k) | (x >> (64 - k))
}

/// splitmix64, used to expand a 64-bit seed into xoshiro's 256-bit state.
fn splitmix64(state: &mut u64) -> (z: u64)
    ensures
        *final(state) == splitmix_next(*old(state)),
        z == splitmix_mix(*final(state)),
{
    *state = state.wrapping_add(0x9E37_79B9_7F4A_7C15);
    let mut z: u64 = *state;
    z = (z ^ (z >> 30)).wrapping_mul(0xBF58_476D_1CE4_E5B9);
    z = (z ^ (z >> 27)).wrapping_mul(0x94D0_49BB_1331_11EB);
    z ^ (z >> 31)
}

/// `getrandom::getrandom`: fills `buf` with bytes from the operating system's
/// entropy source and tells whether that succeeded. Nothing is claimed of the
/// bytes.
#[verifier::external_body]
pub(crate) fn os_entropy(buf: &mut [u8]) -> (ok: bool)
    ensures
        final(buf)@.len() == old(buf)@.len(),
{
    getrandom::getrandom(buf).is_ok()
}

/// A xoshiro256++ generator.
#[derive(Debug)]
pub struct Prng {
    s: [u64; 4],
}

impl Clone for Prng {
    fn clone(&self) -> (r: Self)
        ensures
            r@ == self@,
    {
        Prng { s: self.s }
    }
}

impl View for Prng {
    type V = PrngState;

    closed spec fn view(&self) -> PrngState {
        PrngState { s0: self.s[0], s1: self.s[1], s2: self.s[2], s3: self.s[3] }
    }
}

impl Prng {
    /// Deterministic construction. The same seed always yields the same stream;
    /// the engine relies on this to verify random passes without storing them.
    pub fn from_seed(seed: u64) -> (p: Self)
        ensures
            p@ == seed_state(seed),
            !is_zero_state(p@),
    {
        let mut sm: u64 = seed;
        let w0: u64 = splitmix64(&mut sm);
        let w1: u64 = splitmix64(&mut sm);
        let w2: u64 = splitmix64(&mut sm);
        let w3: u64 = splitmix64(&mut sm);
        if w0 == 0 && w1 == 0 && w2 == 0 && w3 == 0 {
            Prng { s: [1, 0, 0, 0] }
        } else {
            Prng { s: [w0, w1, w2, w3] }
        }
    }

    /// A generator seeded from OS entropy, with the seed, so that the caller
    /// can reproduce the stream later. `None` where the operating system has
    /// no entropy to give.
    pub fn fresh() -> (r: Option<(Self, u64)>)
        ensures
            r matches Some((p, seed)) ==> p@ == seed_state(seed) && !is_zero_state(p@),
    {
        let mut bytes: [u8; 8] = [0; 8];
        if os_entropy(&mut bytes) {
            Self::from_entropy(Some(bytes))
        } else {
            Self::from_entropy(None)
        }
    }

    /// The generator, with its seed, that eight bytes of entropy make, read
    /// least significant byte first; `None` where there are none.
    pub fn from_entropy(entropy: Option<[u8; 8]>) -> (r: Option<(Self, u64)>)
        ensures
            r is Some <==> entropy is Some,
            r matches Some((p, seed)) ==> {
                &&& p@ == seed_state(seed)
                &&& !is_zero_state(p@)
                &&& forall|k: int|
                    0 <= k < 8 ==> le_byte(seed, k as nat) == #[trigger] entropy->0[k]
            },
    {
        match entropy {
            Some(bytes) => {
                let seed: u64 = seed_from_le(&bytes);
                Some((Self::from_seed(seed), seed))
            },
            None => None,
        }
    }

    /// The next 64-bit word.
    pub fn next_u64(&mut self) -> (w: u64)
        ensures
            w == output(old(self)@),
            final(self)@ == step(old(self)@),
    {
        let s0: u64 = self.s[0];
        let s1: u64 = self.s[1];
        let s2: u64 = self.s[2];
        let s3: u64 = self.s[3];
        let result: u64 = rotate_left(s0.wrapping_add(s3), 23).wrapping_add(s0);
        let t: u64 = s1 << 17;
        let b: u64 = s2 ^ s0;
        let c: u64 = s3 ^ s1;
        self.s = [s0 ^ c, s1 ^ b, b ^ t, rotate_left(c, 45)];
        result
    }

    /// Fill `buf` with pseudo-random bytes.
    pub fn fill(&mut self, buf: &mut [u8])
        ensures
            final(buf)@ == stream(old(self)@, old(buf)@.len()),
            final(self)@ == state_after(old(self)@, words_for(old(buf)@.len())),
    {
        let ghost st = self@;
        let n: usize = buf.len();
        let mut i: usize = 0;
        while i < n
            invariant
                i <= n,
                n == buf@.len(),
                n == old(buf)@.len(),
                i % 8 == 0 || i == n,
                self@ == state_after(st, words_for(i as nat)),
                forall|j: int| 0 <= j < i ==> buf@[j] == stream_byte(st, j as nat),
            decreases n - i,
        {
            let w: u64 = self.next_u64();
            let m: usize = if n - i < 8 { n - i } else { 8 };
            let mut k: usize = 0;
            while k < m
                invariant
                    k <= m <= 8,
                    i + m <= n,
                    i % 8 == 0,
                    n == buf@.len(),
                    w == output(state_after(st, (i / 8) as nat)),
                    forall|j: int| 0 <= j < i + k ==> buf@[j] == stream_byte(st, j as nat),
                decreases m - k,
            {
                let sh: u64 = 8 * (k as u64);
                let x: u64 = (w >> sh) & 0xff;
                assert(x <= 0xff) by (bit_vector)
                    requires
                        x == (w >> sh) & 0xff,
                ;
                buf[i + k] = x as u8;
                assert((i + k) as nat / 8 == (i / 8) as nat && (i + k) as nat % 8 == k as nat);
                k += 1;
            }
            i += m;
        }
        assert(buf@ =~= stream(st, n as nat));
    }
}

/// The seed that eight bytes of entropy make: the little-endian number that they
/// hold.
pub fn seed_from_le(bytes: &[u8; 8]) -> (seed: u64)
    ensures
        forall|k: int| 0 <= k < 8 ==> le_byte(seed, k as nat) == #[trigger] bytes[k],
{
    let b0: u64 = bytes[0] as u64;
    let b1: u64 = bytes[1] as u64;
    let b2: u64 = bytes[2] as u64;
    let b3: u64 = bytes[3] as u64;
    let b4: u64 = bytes[4] as u64;
    let b5: u64 = bytes[5] as u64;
    let b6: u64 = bytes[6] as u64;
    let b7: u64 = bytes[7] as u64;
    let seed: u64 = b0 | (b1 << 8) | (b2 << 16) | (b3 << 24) | (b4 << 32) | (b5 << 40) | (b6 << 48)
        | (b7 << 56);
    assert(seed >> 0 & 0xff == b0 && seed >> 8 & 0xff == b1 && seed >> 16 & 0xff == b2 && seed >> 24
        & 0xff == b3 && seed >> 32 & 0xff == b4 && seed >> 40 & 0xff == b5 && seed >> 48 & 0xff
        == b6 && seed >> 56 & 0xff == b7) by (bit_vector)
        requires
            b0 < 256,
            b1 < 256,
            b2 < 256,
            b3 < 256,
            b4 < 256,
            b5 < 256,
            b6 < 256,
            b7 < 256,
            seed == b0 | (b1 << 8) | (b2 << 16) | (b3 << 24) | (b4 << 32) | (b5 << 40) | (b6 << 48)
                | (b7 << 56),
    ;
    seed
}

/// The generator never reaches the all-zero state: one step from a state that
/// is not all zero gives a state that is not all zero.
pub proof fn law_step_keeps_state_nonzero(st: PrngState)
    requires
        !is_zero_state(st),
    ensures
        !is_zero_state(step(st)),
{
    let s0 = st.s0;
    let s1 = st.s1;
    let s2 = st.s2;
    let s3 = st.s3;
    assert(!(s0 ^ (s3 ^ s1) == 0 && s1 ^ (s2 ^ s0) == 0 && (s2 ^ s0) ^ (s1 << 17) == 0 && (((s3 ^ s1)
        << 45) | ((s3 ^ s1) >> 19)) == 0)) by (bit_vector)
        requires
            !(s0 == 0 && s1 == 0 && s2 == 0 && s3 == 0),
    ;
}

/// No state of a seeded generator is all zero, however far it has run.
pub proof fn law_seeded_states_are_nonzero(seed: u64, n: nat)
    ensures
        !is_zero_state(state_after(seed_state(seed), n)),
    decreases n,
{
    if n > 0 {
        law_seeded_states_are_nonzero(seed, (n - 1) as nat);
        law_step_keeps_state_nonzero(state_after(seed_state(seed), (n - 1) as nat));
    }
}

/// Running `m` steps and then `n` more is running `m + n` steps.
pub proof fn lemma_state_after_adds(st: PrngState, m: nat, n: nat)
    ensures
        state_after(state_after(st, m), n) == state_after(st, m + n),
    decreases n,
{
    if n > 0 {
        lemma_state_after_adds(st, m, (n - 1) as nat);
        assert((m + n - 1) as nat == m + (n - 1) as nat);
    }
}

/// Filling in pieces gives the same bytes as filling at once, as long as each
/// piece but the last is a whole number of words.
pub proof fn law_stream_in_pieces(st: PrngState, m: nat, n: nat)
    requires
        m % 8 == 0,
    ensures
        stream(st, m) + stream(state_after(st, words_for(m)), n) == stream(st, m + n),
{
    let after = state_after(st, words_for(m));
    assert forall|j: int| m <= j < m + n implies #[trigger] stream(st, m + n)[j] == stream(
        after,
        n,
    )[j - m] by {
        let i = j - m;
        lemma_state_after_adds(st, words_for(m), (i / 8) as nat);
        assert(words_for(m) == m / 8);
        assert(j / 8 == m / 8 + i / 8);
        assert(j % 8 == i % 8);
    }
    assert(stream(st, m) + stream(after, n) =~= stream(st, m + n));
}

/// The stream is the words of the generator one after another, each with its least
/// significant byte first.
pub proof fn law_stream_is_the_words(st: PrngState, i: nat)
    ensures
        ({
            let b = |k: nat| stream_byte(st, 8 * i + k) as u64;
            output(state_after(st, i)) == b(0) | (b(1) << 8) | (b(2) << 16) | (b(3) << 24) | (b(4) << 32) | (
            b(5) << 40) | (b(6) << 48) | (b(7) << 56)
        }),
{
    let w = output(state_after(st, i));
    assert forall|k: nat| k < 8 implies stream_byte(st, 8 * i + k) == #[trigger] le_byte(w, k) by {
        assert((8 * i + k) / 8 == i && (8 * i + k) % 8 == k);
    }
    assert(((w >> 0) & 0xff) <= 0xff && ((w >> 8) & 0xff) <= 0xff && ((w >> 16) & 0xff) <= 0xff && ((w >> 24)
        & 0xff) <= 0xff && ((w >> 32) & 0xff) <= 0xff && ((w >> 40) & 0xff) <= 0xff && ((w >> 48) & 0xff)
        <= 0xff && ((w >> 56) & 0xff) <= 0xff) by (bit_vector);
    assert(w == ((w >> 0) & 0xff) | (((w >> 8) & 0xff) << 8) | (((w >> 16) & 0xff) << 16) | (((w >> 24)
        & 0xff) << 24) | (((w >> 32) & 0xff) << 32) | (((w >> 40) & 0xff) << 40) | (((w >> 48) & 0xff)
        << 48) | (((w >> 56) & 0xff) << 56)) by (bit_vector);
    assert(le_byte(w, 0) as u64 == (w >> 0) & 0xff);
    assert(le_byte(w, 1) as u64 == (w >> 8) & 0xff);
    assert(le_byte(w, 2) as u64 == (w >> 16) & 0xff);
    assert(le_byte(w, 3) as u64 == (w >> 24) & 0xff);
    assert(le_byte(w, 4) as u64 == (w >> 32) & 0xff);
    assert(le_byte(w, 5) as u64 == (w >> 40) & 0xff);
    assert(le_byte(w, 6) as u64 == (w >> 48) & 0xff);
    assert(le_byte(w, 7) as u64 == (w >> 56) & 0xff);
}

} // verus!
