//! The safety interlock.
//!
//! *No code path can start a wipe unattended*:
//!
//! 1. There are no CLI flags that select disks or start jobs.
//! 2. [`crate::engine::spawn_wipe`] requires an [`ArmToken`] argument.
//! 3. The only constructor of `ArmToken` lives in this module, behind the
//!    [`SafetyGate`] state machine, which demands:
//!      * at least one explicitly selected, unlocked disk,
//!      * a dynamically generated confirmation phrase typed exactly
//!        (e.g. `ERASE 2 DISKS`; it changes with the selection, so it can
//!        never become muscle memory),
//!      * a five-second countdown during which any key aborts.
//!
//! Locked disks (mounted, swap, boot medium, held by RAID/dm) are rejected at
//! selection time *and* re-rejected by the engine.

use vstd::prelude::*;

use crate::error::CoreError;
use crate::text::{dec, lemma_dec_value, push_dec, push_text};

verus! {

/// Length of the final countdown.
pub const COUNTDOWN_MS: u64 = 5_000;

/// Proof that the operator completed the arming ceremony. Cannot be
/// constructed outside this module; required by the engine to start any job.
pub struct ArmToken {
    _private: (),
}

/// Where the arming ceremony stands.
#[derive(Debug, PartialEq, Eq)]
pub enum ArmState {
    /// Nothing armed; the arming gate idles here.
    Disarmed,
    /// Operator is typing the confirmation phrase.
    Typing { typed: String },
    /// Phrase accepted; final abortable countdown is running.
    Countdown { remaining_ms: u64 },
    /// Token released. Terminal state: a gate can only fire once.
    Released,
}

impl Clone for ArmState {
    fn clone(&self) -> (r: Self)
        ensures
            r@ == self@,
    {
        match self {
            ArmState::Disarmed => ArmState::Disarmed,
            ArmState::Typing { typed } => ArmState::Typing { typed: typed.clone() },
            ArmState::Countdown { remaining_ms } => ArmState::Countdown {
                remaining_ms: *remaining_ms,
            },
            ArmState::Released => ArmState::Released,
        }
    }
}

/// An [`ArmState`], with the typed text as a sequence.
pub enum GateState {
    Disarmed,
    Typing(Seq<char>),
    Countdown(nat),
    Released,
}

impl View for ArmState {
    type V = GateState;

    open spec fn view(&self) -> GateState {
        match *self {
            ArmState::Disarmed => GateState::Disarmed,
            ArmState::Typing { typed } => GateState::Typing(typed@),
            ArmState::Countdown { remaining_ms } => GateState::Countdown(remaining_ms as nat),
            ArmState::Released => GateState::Released,
        }
    }
}

/// A gate: how many disks it guards, the phrase that arms it, and where its
/// ceremony stands.
pub struct GateModel {
    pub disks: nat,
    pub phrase: Seq<char>,
    pub state: GateState,
}

/// The phrase that arms a wipe of `disks` disks.
pub open spec fn arm_phrase(disks: nat) -> Seq<char> {
    if disks == 1 {
        "ERASE 1 DISK"@
    } else {
        "ERASE "@ + dec(disks) + " DISKS"@
    }
}

/// Whether the arming gate takes `c` as input: printable ASCII only.
pub open spec fn accepts_char(c: char) -> bool {
    ' ' <= c <= '~'
}

/// An ASCII letter as upper case, any other character as it is.
pub open spec fn ascii_upper(c: char) -> char {
    if 'a' <= c <= 'z' {
        (c as u8 - 32) as u8 as char
    } else {
        c
    }
}

/// What can happen to a gate.
pub enum GateInput {
    Char(char),
    Backspace,
    Confirm,
    Tick(nat),
    Abort,
}

/// The arming gate of a fresh ceremony for `disks` disks.
pub open spec fn new_gate(disks: nat) -> GateModel {
    GateModel { disks, phrase: arm_phrase(disks), state: GateState::Typing(Seq::empty()) }
}

/// Whether the phrase has been typed exactly and waits for confirmation.
pub open spec fn gate_matches(g: GateModel) -> bool {
    g.state matches GateState::Typing(t) && t == g.phrase
}

/// Whether a tick of `ms` milliseconds ends the countdown.
pub open spec fn tick_releases(g: GateModel, ms: nat) -> bool {
    g.state matches GateState::Countdown(r) && r <= ms
}

/// The arming gate after an input.
pub open spec fn gate_after(g: GateModel, input: GateInput) -> GateModel {
    let state = match input {
        GateInput::Char(c) => match g.state {
            GateState::Typing(t) if accepts_char(c) => GateState::Typing(t.push(ascii_upper(c))),
            s => s,
        },
        GateInput::Backspace => match g.state {
            GateState::Typing(t) if t.len() > 0 => GateState::Typing(t.drop_last()),
            s => s,
        },
        GateInput::Confirm => if gate_matches(g) {
            GateState::Countdown(COUNTDOWN_MS as nat)
        } else {
            g.state
        },
        GateInput::Tick(ms) => match g.state {
            GateState::Countdown(r) => if r <= ms {
                GateState::Released
            } else {
                GateState::Countdown((r - ms) as nat)
            },
            s => s,
        },
        GateInput::Abort => if g.state is Released {
            g.state
        } else {
            GateState::Disarmed
        },
    };
    GateModel { disks: g.disks, phrase: g.phrase, state }
}

/// Appends `c` to the typed text, while text is being typed.
fn append_typed(state: &mut ArmState, c: char)
    ensures
        final(state)@ == (match old(state)@ {
            GateState::Typing(t) => GateState::Typing(t.push(c)),
            s => s,
        }),
{
    match state {
        ArmState::Typing { typed } => {
            typed.push(c);
        },
        _ => {},
    }
}

/// Takes the last character off the typed text, while text is being typed.
fn drop_typed(state: &mut ArmState)
    ensures
        final(state)@ == (match old(state)@ {
            GateState::Typing(t) if t.len() > 0 => GateState::Typing(t.drop_last()),
            s => s,
        }),
{
    match state {
        ArmState::Typing { typed } => {
            let _ = typed.pop();
        },
        _ => {},
    }
}

/// The arming ceremony for one confirmed selection.
pub struct SafetyGate {
    state: ArmState,
    phrase: String,
    disk_count: usize,
}

impl View for SafetyGate {
    type V = GateModel;

    closed spec fn view(&self) -> GateModel {
        GateModel { disks: self.disk_count as nat, phrase: self.phrase@, state: self.state@ }
    }
}

impl SafetyGate {
    /// Build a gate for a confirmed selection. Fails when nothing is selected.
    pub fn new(disk_count: usize) -> (r: Result<Self, CoreError>)
        ensures
            disk_count == 0 <==> r is Err,
            r matches Err(e) ==> e == CoreError::NothingSelected,
            r matches Ok(g) ==> g@ == new_gate(disk_count as nat),
    {
        if disk_count == 0 {
            return Err(CoreError::NothingSelected);
        }
        let phrase = if disk_count == 1 {
            "ERASE 1 DISK".to_owned()
        } else {
            let mut s = "ERASE ".to_owned();
            push_dec(&mut s, disk_count as u64);
            push_text(&mut s, " DISKS");
            s
        };
        Ok(SafetyGate { state: ArmState::Typing { typed: String::new() }, phrase, disk_count })
    }

    /// Where the ceremony stands.
    pub fn state(&self) -> (s: &ArmState)
        ensures
            s@ == self@.state,
    {
        &self.state
    }

    /// How many disks the arming gate guards.
    pub fn disk_count(&self) -> (n: usize)
        ensures
            n == self@.disks,
    {
        self.disk_count
    }

    /// The exact phrase the operator must type.
    pub fn phrase(&self) -> (s: &str)
        ensures
            s@ == self@.phrase,
    {
        self.phrase.as_str()
    }

    /// What has been typed so far; empty unless the phrase is being typed.
    pub fn typed(&self) -> (s: &str)
        ensures
            s@ == (if self@.state is Typing {
                self@.state->Typing_0
            } else {
                Seq::empty()
            }),
    {
        match &self.state {
            ArmState::Typing { typed } => typed.as_str(),
            _ => {
                proof {
                    reveal_strlit("");
                    assert(""@ =~= Seq::<char>::empty());
                }
                ""
            },
        }
    }

    /// Append a typed character. Only printable ASCII is accepted; anything
    /// else is ignored so stray escape sequences can't pollute the input.
    pub fn input_char(&mut self, c: char)
        ensures
            final(self)@ == gate_after(old(self)@, GateInput::Char(c)),
    {
        if ' ' <= c && c <= '~' {
            // Uppercase as the user types: deliberate friction is in the
            // phrase content, not the shift key.
            let up = if 'a' <= c && c <= 'z' { (c as u8 - 32) as char } else { c };
            append_typed(&mut self.state, up);
        }
    }

    /// Delete the last typed character.
    pub fn backspace(&mut self)
        ensures
            final(self)@ == gate_after(old(self)@, GateInput::Backspace),
    {
        drop_typed(&mut self.state);
    }

    /// True while the typed text is exactly the phrase.
    pub fn phrase_matches(&self) -> (b: bool)
        ensures
            b == gate_matches(self@),
    {
        match &self.state {
            ArmState::Typing { typed } => *typed == self.phrase,
            _ => false,
        }
    }

    /// Move from typing to the countdown. Rejects a wrong phrase.
    pub fn confirm(&mut self) -> (r: Result<(), CoreError>)
        ensures
            final(self)@ == gate_after(old(self)@, GateInput::Confirm),
            r is Ok <==> gate_matches(old(self)@),
            r matches Err(e) ==> e == (if old(self)@.state is Typing {
                CoreError::PhraseMismatch
            } else {
                CoreError::InvalidState
            }),
    {
        if self.phrase_matches() {
            self.state = ArmState::Countdown { remaining_ms: COUNTDOWN_MS };
            return Ok(());
        }
        match &self.state {
            ArmState::Typing { .. } => Err(CoreError::PhraseMismatch),
            _ => Err(CoreError::InvalidState),
        }
    }

    /// Advance the countdown; returns the token exactly once when it expires.
    pub fn tick(&mut self, elapsed_ms: u64) -> (t: Option<ArmToken>)
        ensures
            final(self)@ == gate_after(old(self)@, GateInput::Tick(elapsed_ms as nat)),
            t is Some <==> tick_releases(old(self)@, elapsed_ms as nat),
    {
        match self.state {
            ArmState::Countdown { remaining_ms } => {
                let left: u64 = remaining_ms.saturating_sub(elapsed_ms);
                if left == 0 {
                    self.state = ArmState::Released;
                    return Some(ArmToken { _private: () });
                }
                self.state = ArmState::Countdown { remaining_ms: left };
                None
            },
            _ => None,
        }
    }

    /// Milliseconds left on the countdown, while it runs.
    pub fn countdown_remaining_ms(&self) -> (r: Option<u64>)
        ensures
            r is Some <==> self@.state is Countdown,
            r matches Some(ms) ==> ms == self@.state->Countdown_0,
    {
        match self.state {
            ArmState::Countdown { remaining_ms } => Some(remaining_ms),
            _ => None,
        }
    }

    /// Abort and disarm. Valid from any non-released state.
    pub fn abort(&mut self)
        ensures
            final(self)@ == gate_after(old(self)@, GateInput::Abort),
    {
        match self.state {
            ArmState::Released => {},
            _ => {
                self.state = ArmState::Disarmed;
            },
        }
    }

    /// True once the arming gate has been aborted.
    pub fn is_aborted(&self) -> (b: bool)
        ensures
            b == (self@.state is Disarmed),
    {
        match self.state {
            ArmState::Disarmed => true,
            _ => false,
        }
    }
}

/// The arming gate after a sequence of inputs.
pub open spec fn gate_run(g: GateModel, inputs: Seq<GateInput>) -> GateModel
    decreases inputs.len(),
{
    if inputs.len() == 0 {
        g
    } else {
        gate_after(gate_run(g, inputs.drop_last()), inputs.last())
    }
}

/// How many tokens a gate gives out over a sequence of inputs.
pub open spec fn tokens_released(g: GateModel, inputs: Seq<GateInput>) -> nat
    decreases inputs.len(),
{
    if inputs.len() == 0 {
        0
    } else {
        tokens_released(g, inputs.drop_last()) + if (inputs.last() matches GateInput::Tick(ms)
            && tick_releases(gate_run(g, inputs.drop_last()), ms)) {
            1nat
        } else {
            0nat
        }
    }
}

/// The milliseconds that tick by in `inputs[from..to]`.
pub open spec fn ticked(inputs: Seq<GateInput>, from: int, to: int) -> nat
    decreases to - from,
{
    if to <= from {
        0
    } else {
        ticked(inputs, from, to - 1) + match inputs[to - 1] {
            GateInput::Tick(ms) => ms,
            _ => 0nat,
        }
    }
}

/// Whether input `j` to a fresh gate for `disks` disks confirmed the exactly
/// typed phrase and no abort came
/// among the inputs after it and before `end`.
pub open spec fn confirmed_at(disks: nat, inputs: Seq<GateInput>, j: int, end: int) -> bool {
    &&& 0 <= j < end <= inputs.len()
    &&& inputs[j] is Confirm
    &&& gate_run(new_gate(disks), inputs.take(j)).state == GateState::Typing(arm_phrase(disks))
    &&& forall|i: int| j < i < end ==> !((#[trigger] inputs[i]) is Abort)
}

/// A gate gives out at most one token, whatever happens to it, and none more
/// once it has been released.
pub proof fn law_at_most_one_token(g: GateModel, inputs: Seq<GateInput>)
    ensures
        tokens_released(g, inputs) <= 1,
        tokens_released(g, inputs) == 1 ==> gate_run(g, inputs).state is Released,
        g.state is Released ==> tokens_released(g, inputs) == 0 && gate_run(g, inputs) == g,
    decreases inputs.len(),
{
    if inputs.len() > 0 {
        law_at_most_one_token(g, inputs.drop_last());
    }
}

/// An aborted gate never releases a token and stays aborted.
pub proof fn law_aborted_gate_never_releases(g: GateModel, inputs: Seq<GateInput>)
    requires
        g.state is Disarmed,
    ensures
        tokens_released(g, inputs) == 0,
        gate_run(g, inputs) == g,
    decreases inputs.len(),
{
    if inputs.len() > 0 {
        law_aborted_gate_never_releases(g, inputs.drop_last());
    }
}

proof fn lemma_phrase_is_kept(g: GateModel, inputs: Seq<GateInput>)
    ensures
        gate_run(g, inputs).phrase == g.phrase,
        gate_run(g, inputs).disks == g.disks,
    decreases inputs.len(),
{
    if inputs.len() > 0 {
        lemma_phrase_is_kept(g, inputs.drop_last());
    }
}

proof fn lemma_take_prefix(disks: nat, inputs: Seq<GateInput>, j: int, end: int)
    requires
        inputs.len() > 0,
        confirmed_at(disks, inputs.drop_last(), j, end),
    ensures
        confirmed_at(disks, inputs, j, end),
        ticked(inputs.drop_last(), j + 1, end) == ticked(inputs, j + 1, end),
{
    assert(inputs.drop_last().take(j) =~= inputs.take(j));
    assert forall|i: int| j < i < end implies !((#[trigger] inputs[i]) is Abort) by {
        assert(inputs.drop_last()[i] == inputs[i]);
    }
    lemma_ticked_prefix(inputs, j + 1, end);
}

proof fn lemma_ticked_prefix(inputs: Seq<GateInput>, from: int, to: int)
    requires
        0 <= from,
        to < inputs.len(),
    ensures
        ticked(inputs.drop_last(), from, to) == ticked(inputs, from, to),
    decreases to - from,
{
    if to > from {
        lemma_ticked_prefix(inputs, from, to - 1);
    }
}

/// A running countdown goes back to a confirmation of the exact phrase, with
/// no abort since, and what is missing from it has ticked by.
proof fn lemma_countdown_was_confirmed(disks: nat, inputs: Seq<GateInput>) -> (j: int)
    requires
        gate_run(new_gate(disks), inputs).state is Countdown,
    ensures
        confirmed_at(disks, inputs, j, inputs.len() as int),
        gate_run(new_gate(disks), inputs).state->Countdown_0 + ticked(
            inputs,
            j + 1,
            inputs.len() as int,
        ) >= COUNTDOWN_MS,
    decreases inputs.len(),
{
    let g = new_gate(disks);
    let before = inputs.drop_last();
    let n = inputs.len() as int;
    assert(inputs.take(n - 1) =~= before);
    lemma_phrase_is_kept(g, before);
    if gate_run(g, before).state is Countdown {
        let j = lemma_countdown_was_confirmed(disks, before);
        lemma_take_prefix(disks, inputs, j, n - 1);
        assert(!(inputs.last() is Abort));
        assert(ticked(inputs, j + 1, n) == ticked(inputs, j + 1, n - 1) + match inputs[n - 1] {
            GateInput::Tick(ms) => ms,
            _ => 0nat,
        });
        j
    } else {
        assert(inputs.last() is Confirm);
        assert(ticked(inputs, n, n) == 0);
        n - 1
    }
}

/// A token comes only at the end of the whole ceremony: the exact phrase for
/// the selected number of disks was typed and confirmed, and at least
/// [`COUNTDOWN_MS`] milliseconds ticked by after that without an abort.
pub proof fn law_token_needs_the_ceremony(disks: nat, inputs: Seq<GateInput>)
    requires
        tokens_released(new_gate(disks), inputs) > 0,
    ensures
        exists|j: int, k: int|
            #![trigger confirmed_at(disks, inputs, j, k), ticked(inputs, j + 1, k)]
            confirmed_at(disks, inputs, j, k) && ticked(inputs, j + 1, k) >= COUNTDOWN_MS,
    decreases inputs.len(),
{
    let g = new_gate(disks);
    let before = inputs.drop_last();
    let n = inputs.len() as int;
    if tokens_released(g, before) > 0 {
        law_token_needs_the_ceremony(disks, before);
        let (j, k) = choose|j: int, k: int|
            #![trigger confirmed_at(disks, before, j, k), ticked(before, j + 1, k)]
            confirmed_at(disks, before, j, k) && ticked(before, j + 1, k) >= COUNTDOWN_MS;
        lemma_take_prefix(disks, inputs, j, k);
        assert(confirmed_at(disks, inputs, j, k) && ticked(inputs, j + 1, k) >= COUNTDOWN_MS);
    } else {
        let j = lemma_countdown_was_confirmed(disks, before);
        lemma_take_prefix(disks, inputs, j, n - 1);
        assert(ticked(inputs, j + 1, n) == ticked(inputs, j + 1, n - 1)
            + inputs.last()->Tick_0);
        assert(confirmed_at(disks, inputs, j, n) && ticked(inputs, j + 1, n) >= COUNTDOWN_MS);
    }
}

/// The phrase changes with the selection: two different numbers of disks have
/// two different phrases.
pub proof fn law_phrase_tells_the_count(m: nat, n: nat)
    requires
        arm_phrase(m) == arm_phrase(n),
    ensures
        m == n,
{
    reveal_strlit("ERASE 1 DISK");
    reveal_strlit("ERASE ");
    reveal_strlit(" DISKS");
    lemma_dec_value(m);
    lemma_dec_value(n);
    let a = arm_phrase(m);
    let b = arm_phrase(n);
    if m != 1 && n != 1 {
        assert(dec(m) =~= a.subrange(6, a.len() - 6));
        assert(dec(n) =~= b.subrange(6, b.len() - 6));
    } else if m != n {
        let long = if m == 1 {
            b
        } else {
            a
        };
        assert(long.last() == 'S');
        assert("ERASE 1 DISK"@.last() == 'K');
    }
}

/// Lower-case input counts as upper case: a letter and its capital have the
/// same effect on the arming gate.
pub proof fn law_case_is_ignored(g: GateModel, c: char)
    ensures
        gate_after(g, GateInput::Char(ascii_upper(c))) == gate_after(g, GateInput::Char(c)),
{
}

/// Whether a character is typed as it is: a printable one that is no small letter.
spec fn is_typed(c: char) -> bool {
    accepts_char(c) && ascii_upper(c) == c
}

proof fn lemma_dec_is_typed(n: nat)
    ensures
        forall|i: int| 0 <= i < dec(n).len() ==> is_typed(#[trigger] dec(n)[i]),
    decreases n,
{
    let d = crate::text::digit_char(n % 10);
    assert('0' <= d <= '9');
    if n >= 10 {
        lemma_dec_is_typed(n / 10);
        assert forall|i: int| 0 <= i < dec(n).len() implies is_typed(#[trigger] dec(n)[i]) by {
            if i < dec(n).len() - 1 {
                assert(dec(n)[i] == dec(n / 10)[i]);
            } else {
                assert(dec(n)[i] == d);
            }
        }
    } else {
        assert(dec(n) =~= seq![d]);
    }
}

proof fn lemma_phrase_is_typed(disks: nat)
    ensures
        forall|i: int| 0 <= i < arm_phrase(disks).len() ==> is_typed(#[trigger] arm_phrase(disks)[i]),
{
    reveal_strlit("ERASE 1 DISK");
    reveal_strlit("ERASE ");
    reveal_strlit(" DISKS");
    lemma_dec_is_typed(disks);
    let p = arm_phrase(disks);
    if disks != 1 {
        assert forall|i: int| 0 <= i < p.len() implies is_typed(#[trigger] p[i]) by {
            let n = dec(disks).len();
            if 6 <= i < 6 + n {
                assert(p[i] == dec(disks)[i - 6]);
            } else if i >= 6 + n {
                assert(p[i] == " DISKS"@[i - 6 - n]);
            }
        }
    }
}

/// Whether inputs type a text, character by character.
pub open spec fn types(inputs: Seq<GateInput>, text: Seq<char>) -> bool {
    inputs.len() == text.len() && forall|i: int|
        0 <= i < text.len() ==> #[trigger] inputs[i] == GateInput::Char(text[i])
}

proof fn lemma_typed(disks: nat, inputs: Seq<GateInput>, k: int)
    requires
        types(inputs, arm_phrase(disks).take(k)),
        0 <= k <= arm_phrase(disks).len(),
    ensures
        gate_run(new_gate(disks), inputs) == (GateModel {
            disks,
            phrase: arm_phrase(disks),
            state: GateState::Typing(arm_phrase(disks).take(k)),
        }),
        tokens_released(new_gate(disks), inputs) == 0,
    decreases k,
{
    let p = arm_phrase(disks);
    if k > 0 {
        let less = inputs.drop_last();
        assert forall|i: int| 0 <= i < k - 1 implies #[trigger] less[i] == GateInput::Char(
            p.take(k - 1)[i],
        ) by {
            assert(less[i] == inputs[i]);
            assert(p.take(k)[i] == p[i]);
        }
        lemma_typed(disks, less, k - 1);
        lemma_phrase_is_typed(disks);
        assert(inputs[k - 1] == GateInput::Char(p.take(k)[k - 1]));
        assert(is_typed(p[k - 1]));
        assert(p.take(k - 1).push(p[k - 1]) =~= p.take(k));
    } else {
        assert(p.take(0) =~= Seq::<char>::empty());
    }
}

/// The ceremony works: who types `ERASE 1 DISK`, or the number of disks in `ERASE n
/// DISKS`, confirms it and waits five seconds gets the token; who waits less does
/// not, and who types anything else gets no countdown.
pub proof fn law_ceremony_releases_the_token(
    disks: nat,
    inputs: Seq<GateInput>,
    ms: nat,
    typed: Seq<char>,
)
    requires
        disks > 0,
        types(
            inputs,
            if disks == 1 {
                "ERASE 1 DISK"@
            } else {
                "ERASE "@ + dec(disks) + " DISKS"@
            },
        ),
    ensures
        tokens_released(
            new_gate(disks),
            inputs.push(GateInput::Confirm).push(GateInput::Tick(ms)),
        ) == if ms >= 5000 {
            1nat
        } else {
            0nat
        },
        typed != (if disks == 1 {
            "ERASE 1 DISK"@
        } else {
            "ERASE "@ + dec(disks) + " DISKS"@
        }) ==> gate_after(
            GateModel { state: GateState::Typing(typed), ..new_gate(disks) },
            GateInput::Confirm,
        ).state == GateState::Typing(typed),
{
    let phrase = arm_phrase(disks);
    let n = phrase.len() as int;
    assert(phrase.take(n) =~= phrase);
    lemma_typed(disks, inputs, n);
    let confirmed = inputs.push(GateInput::Confirm);
    assert(confirmed.drop_last() =~= inputs);
    let all = confirmed.push(GateInput::Tick(ms));
    assert(all.drop_last() =~= confirmed);
    assert(all.last() == GateInput::Tick(ms));
    assert(confirmed.last() == GateInput::Confirm);
    let g = new_gate(disks);
    assert(tokens_released(g, confirmed) == 0);
    assert(gate_run(g, confirmed).state == GateState::Countdown(5000));
    assert(tick_releases(gate_run(g, confirmed), ms) == (ms >= 5000));
}

/// A typed letter counts as its capital, and characters that cannot be printed do not
/// count; backspace takes the last character back.
pub proof fn law_typing_and_backspace(g: GateModel, typed: Seq<char>, c: char)
    requires
        g.state == GateState::Typing(typed),
    ensures
        ({
            let after = gate_after(g, GateInput::Char(c));
            &&& 'A' <= c <= 'Z' || '0' <= c <= '9' || c == ' ' ==> after.state == GateState::Typing(
                typed.push(c),
            )
            &&& c < ' ' || c > '~' ==> after == g
            &&& ' ' <= c <= '~' ==> gate_after(after, GateInput::Backspace) == g
            &&& gate_after(g, GateInput::Abort).state is Disarmed
        }),
{
    let after = gate_after(g, GateInput::Char(c));
    if ' ' <= c <= '~' {
        assert(typed.push(ascii_upper(c)).drop_last() =~= typed);
    }
}

} // verus!
