//! What a firmware erase does to a drive, and what its report says of it.

use vstd::prelude::*;

use crate::device::{Bus, DiskModel};
use crate::engine::{erase_job_spec, JobClock, JobStatus};
use crate::erase::{
    awaits_reply, erase_after, erase_begun, erase_report, simulated_bps, EraseActionModel, EraseEventModel,
    EraseModel, EraseOutcomeModel, EraseStage,
};
use crate::firmware::{FirmwareErrorModel, FirmwareMethod};
use crate::nvme::sanitize_log_spec;
use crate::tcg::{
    compacket, get_msid_payload, method_revert, packet, revert_payload, security_request_spec,
    start_session_payload, subpacket, uid_auth_sid, uid_thissp, uid_token, TcgSession,
};
use crate::transport::{ReplyModel, RequestModel};

verus! {

/// What comes of the operations of an erase, in order; with each, whether the
/// operator has asked to stop.
pub type EraseEvents = Seq<(EraseEventModel, bool)>;

/// An erase after some events, and the operation that is then in flight.
pub open spec fn erase_at(j: EraseModel, events: EraseEvents) -> (EraseModel, EraseActionModel)
    decreases events.len(),
{
    if events.len() == 0 {
        erase_begun(j)
    } else {
        let (ev, cancel) = events.last();
        erase_after(erase_at(j, events.drop_last()).0, ev, cancel)
    }
}

/// Whether each event can be the result of the operation that was in flight.
pub open spec fn plausible(j: EraseModel, events: EraseEvents) -> bool {
    forall|k: int|
        0 <= k < events.len() ==> erase_at(j, #[trigger] events.take(k)).0.fits(events[k].0)
}

/// Whether a request is the command by which a method destroys what a drive holds.
///
/// * ATA: SECURITY ERASE UNIT (0xF4) through ATA PASS-THROUGH(16), with feature
///   0x02 exactly for the enhanced erase.
/// * NVMe Format: Format NVM (0x80) on all namespaces, with the secure erase
///   setting 2 for a cryptographic erase and 1 for one of user data.
/// * NVMe Sanitize: Sanitize (0x84), with the action 4 for a cryptographic erase
///   and 2 for a block erase.
/// * TCG: a call of Revert, sent to the drive on its bus.
pub open spec fn destroys(method: FirmwareMethod, bus: Bus, request: RequestModel) -> bool {
    match method {
        FirmwareMethod::AtaSecureErase { enhanced } => {
            &&& request matches RequestModel::Sg(r)
            &&& r.cdb.len() == 16
            &&& r.cdb[0] == 0x85
            &&& r.cdb[14] == 0xF4
            &&& r.cdb[4] == if enhanced { 0x02u8 } else { 0x00u8 }
        },
        FirmwareMethod::NvmeFormat { crypto } => {
            &&& request matches RequestModel::Nvme(r)
            &&& r.cmd.opcode == 0x80
            &&& r.cmd.nsid == 0xffff_ffff
            &&& (r.cmd.cdw10 / 0x200) % 8 == if crypto { 2u32 } else { 1u32 }
        },
        FirmwareMethod::NvmeSanitize { crypto } => {
            &&& request matches RequestModel::Nvme(r)
            &&& r.cmd.opcode == 0x84
            &&& r.cmd.cdw10 % 8 == if crypto { 4u32 } else { 2u32 }
        },
        FirmwareMethod::TcgRevert => match request {
            RequestModel::Sg(r) => bus != Bus::Nvme && r.cdb[0] == 0xB5 && calls_revert(r.data),
            RequestModel::Nvme(r) => bus == Bus::Nvme && r.cmd.opcode == 0x81 && calls_revert(r.data),
        },
    }
}

/// Whether a frame carries a call of the method Revert (00 00 00 06 00 00 02 02) on
/// the security provider of the session: behind 52 bytes of headers come the call
/// token and the two UIDs, each as a token of nine bytes.
pub open spec fn calls_revert(frame: Seq<u8>) -> bool {
    &&& frame.len() >= 71
    &&& frame[52] == 0xf8
    &&& frame[53] == 0xa8
    &&& frame.subrange(54, 62) == seq![0u8, 0u8, 0u8, 0u8, 0u8, 0u8, 0u8, 1u8]
    &&& frame[62] == 0xa8
    &&& frame.subrange(63, 71) == seq![0u8, 0u8, 0u8, 6u8, 0u8, 0u8, 2u8, 2u8]
}

/// Whether a drive carried out a command: it answered, with status zero. For an ATA
/// command status 2 only says that the answer carries registers.
pub open spec fn carried_out(method: FirmwareMethod, ev: EraseEventModel) -> bool {
    ev matches EraseEventModel::Replied(ReplyModel::Completed { status, sense, data }) && (status == 0
        || (status == 2 && method is AtaSecureErase))
}

/// Whether event `k` is that the drive carried out the destroying command.
pub open spec fn destroyed_at(j: EraseModel, events: EraseEvents, k: int) -> bool {
    &&& 0 <= k < events.len()
    &&& erase_at(j, events.take(k)).1 matches EraseActionModel::Issue(request)
    &&& destroys(j.method, j.bus, request)
    &&& carried_out(j.method, events[k].0)
}

/// Whether event `l` tells that the erase is complete: the reply to the destroying
/// command itself, a sanitize log (log page 0x81) that says so in the low three
/// bits of its third byte, or the response to Revert.
pub open spec fn confirmed_at(j: EraseModel, events: EraseEvents, k: int, l: int) -> bool {
    &&& 0 <= k <= l < events.len()
    &&& carried_out(j.method, events[l].0)
    &&& match j.method {
        FirmwareMethod::NvmeSanitize { crypto } => {
            &&& k < l
            &&& erase_at(j, events.take(l)).1 matches EraseActionModel::Issue(RequestModel::Nvme(r))
            &&& r.cmd.opcode == 0x02
            &&& r.cmd.cdw10 % 0x100 == 0x81
            &&& events[l].0->Replied_0->data[2] % 8 <= 1
        },
        FirmwareMethod::TcgRevert => k < l,
        _ => k == l,
    }
}

spec fn was_destroyed(j: EraseModel, events: EraseEvents) -> bool {
    exists|k: int| destroyed_at(j, events, k)
}

spec fn was_confirmed(j: EraseModel, events: EraseEvents) -> bool {
    exists|k: int, l: int| destroyed_at(j, events, k) && confirmed_at(j, events, k, l)
}

/// Whether an operation is the destroying command.
spec fn is_destroying(j: EraseModel, a: EraseActionModel) -> bool {
    a matches EraseActionModel::Issue(r) && destroys(j.method, j.bus, r)
}

/// What the stages of an erase of a real disk stand for; `destroyed` tells whether
/// the drive has carried out the destroying command.
spec fn on_track(j: EraseModel, m: EraseModel, a: EraseActionModel, destroyed: bool) -> bool {
    let method = j.method;
    &&& m.method == method
    &&& m.bus == j.bus
    &&& !m.simulated
    &&& m.outcome is Running <==> m.stage != EraseStage::Ended
    &&& match m.stage {
        EraseStage::SettingPassword => method is AtaSecureErase,
        EraseStage::Erasing => method is AtaSecureErase && is_destroying(j, a),
        EraseStage::Formatting => method is NvmeFormat && is_destroying(j, a),
        EraseStage::Sanitizing => method is NvmeSanitize && is_destroying(j, a),
        EraseStage::ReadingStatus => {
            &&& method is NvmeSanitize
            &&& destroyed
            &&& a == EraseActionModel::Issue(RequestModel::Nvme(sanitize_log_spec()))
        },
        EraseStage::WaitingForStatus => method is NvmeSanitize && destroyed,
        EraseStage::Discovering
        | EraseStage::SendingStart
        | EraseStage::ReceivingStart
        | EraseStage::SendingGet
        | EraseStage::ReceivingGet => method is TcgRevert,
        EraseStage::SendingRevert => method is TcgRevert && is_destroying(j, a),
        EraseStage::ReceivingRevert => method is TcgRevert && destroyed,
        EraseStage::Ended => true,
        _ => false,
    }
}

/// How an erase of a real disk may come to success: on the reply to the command in
/// flight.
spec fn may_succeed(
    j: EraseModel,
    m: EraseModel,
    a: EraseActionModel,
    destroyed: bool,
    ev: EraseEventModel,
) -> bool {
    ||| m.outcome is Succeeded
    ||| {
        &&& carried_out(j.method, ev)
        &&& match j.method {
            FirmwareMethod::NvmeSanitize { crypto } => {
                &&& destroyed
                &&& a == EraseActionModel::Issue(RequestModel::Nvme(sanitize_log_spec()))
                &&& ev->Replied_0->data[2] % 8 <= 1
            },
            FirmwareMethod::TcgRevert => destroyed,
            _ => is_destroying(j, a),
        }
    }
}

/// A frame holds its payload behind 52 bytes of headers.
proof fn lemma_frame_payload(s: TcgSession, payload: Seq<u8>, from: int, to: int)
    requires
        0 <= from <= to <= payload.len(),
    ensures
        s.framed(payload).len() >= 52 + payload.len(),
        s.framed(payload).subrange(52 + from, 52 + to) == payload.subrange(from, to),
{
    let sub = subpacket(payload);
    let pkt = packet(s.tper_session, s.host_session, sub);
    let com = compacket(s.comid, pkt);
    let frame = s.framed(payload);
    assert forall|i: int| 0 <= i < payload.len() implies frame[52 + i] == #[trigger] payload[i] by {
        assert(sub[8 + i] == payload[i]);
        assert(pkt[24 + (8 + i)] == sub[8 + i]);
        assert(com[20 + (24 + (8 + i))] == pkt[24 + (8 + i)]);
    }
    assert forall|i: int| 0 <= i < to - from implies frame.subrange(52 + from, 52 + to)[i]
        == payload.subrange(from, to)[i] by {
        assert(frame[52 + (from + i)] == payload[from + i]);
    }
    assert(frame.subrange(52 + from, 52 + to) =~= payload.subrange(from, to));
}

proof fn lemma_revert_head(frame: Seq<u8>, payload: Seq<u8>, msid: Seq<u8>)
    requires
        payload == revert_payload(msid),
        frame.len() >= 52 + payload.len(),
        frame.subrange(52, 71) == payload.subrange(0, 19),
    ensures
        calls_revert(frame),
{
    let head = payload.subrange(0, 19);
    assert(head =~= seq![0xf8u8, 0xa8u8] + uid_thissp() + seq![0xa8u8] + method_revert());
    assert(head[0] == frame[52]);
    assert(head[1] == frame[53]);
    assert(head[10] == frame[62]);
    assert(frame.subrange(54, 62) =~= head.subrange(2, 10));
    assert(head.subrange(2, 10) =~= uid_thissp());
    assert(frame.subrange(63, 71) =~= head.subrange(11, 19));
    assert(head.subrange(11, 19) =~= method_revert());
}

/// Whether a frame carries a credential behind the SID authority.
pub open spec fn carries_credential(frame: Seq<u8>, msid: Seq<u8>) -> bool {
    &&& frame.subrange(73, 81) == seq![0u8, 0u8, 0u8, 9u8, 0u8, 0u8, 0u8, 6u8]
    &&& frame[81] == 0xa0 + msid.len()
    &&& frame.subrange(82, 82 + msid.len() as int) == msid
}

proof fn lemma_revert_credential(frame: Seq<u8>, payload: Seq<u8>, msid: Seq<u8>)
    requires
        1 <= msid.len() <= 15,
        payload == revert_payload(msid),
        frame.len() >= 52 + payload.len(),
        frame.subrange(73, 82 + msid.len() as int) == payload.subrange(21, 30 + msid.len() as int),
    ensures
        carries_credential(frame, msid),
{
    let n = msid.len() as int;
    let rest = payload.subrange(21, 30 + n);
    assert(rest =~= uid_auth_sid() + seq![(0xa0 + n) as u8] + msid);
    assert(frame.subrange(73, 81) =~= rest.subrange(0, 8));
    assert(rest.subrange(0, 8) =~= uid_auth_sid());
    assert(frame[81] == rest[8]);
    assert(frame.subrange(82, 82 + n) =~= rest.subrange(9, 9 + n));
    assert(rest.subrange(9, 9 + n) =~= msid);
}

/// A call of Revert, framed for any session, is one, with the credential in it.
proof fn lemma_revert_frame(s: TcgSession, msid: Seq<u8>)
    ensures
        calls_revert(s.framed(revert_payload(msid))),
        1 <= msid.len() <= 15 ==> carries_credential(s.framed(revert_payload(msid)), msid),
{
    let payload = revert_payload(msid);
    let frame = s.framed(payload);
    assert(payload.len() >= 30 + msid.len());
    lemma_frame_payload(s, payload, 0, 19);
    lemma_revert_head(frame, payload, msid);
    if 1 <= msid.len() <= 15 {
        lemma_frame_payload(s, payload, 21, 30 + msid.len() as int);
        lemma_revert_credential(frame, payload, msid);
    }
}

proof fn lemma_destroyed_stays(j: EraseModel, events: EraseEvents, k: int)
    requires
        events.len() > 0,
        destroyed_at(j, events.drop_last(), k),
    ensures
        destroyed_at(j, events, k),
{
    assert(events.drop_last().take(k) =~= events.take(k));
}

proof fn lemma_confirmed_stays(j: EraseModel, events: EraseEvents, k: int, l: int)
    requires
        events.len() > 0,
        confirmed_at(j, events.drop_last(), k, l),
    ensures
        confirmed_at(j, events, k, l),
{
    assert(events.drop_last().take(l) =~= events.take(l));
}

proof fn lemma_ata_step(
    j: EraseModel,
    m: EraseModel,
    a: EraseActionModel,
    destroyed: bool,
    ev: EraseEventModel,
    cancel: bool,
)
    requires
        j.method is AtaSecureErase || j.method is NvmeFormat,
        on_track(j, m, a, destroyed),
        m.fits(ev),
    ensures
        ({
            let (n, b) = erase_after(m, ev, cancel);
            &&& on_track(j, n, b, destroyed || (is_destroying(j, a) && carried_out(j.method, ev)))
            &&& n.outcome is Succeeded ==> may_succeed(j, m, a, destroyed, ev)
        }),
{
}

proof fn lemma_sanitize_step(
    j: EraseModel,
    m: EraseModel,
    a: EraseActionModel,
    destroyed: bool,
    ev: EraseEventModel,
    cancel: bool,
)
    requires
        j.method is NvmeSanitize,
        on_track(j, m, a, destroyed),
        m.fits(ev),
    ensures
        ({
            let (n, b) = erase_after(m, ev, cancel);
            &&& on_track(j, n, b, destroyed || (is_destroying(j, a) && carried_out(j.method, ev)))
            &&& n.outcome is Succeeded ==> may_succeed(j, m, a, destroyed, ev)
        }),
{
}

proof fn lemma_tcg_step(
    j: EraseModel,
    m: EraseModel,
    a: EraseActionModel,
    destroyed: bool,
    ev: EraseEventModel,
    cancel: bool,
)
    requires
        j.method is TcgRevert,
        on_track(j, m, a, destroyed),
        m.fits(ev),
    ensures
        ({
            let (n, b) = erase_after(m, ev, cancel);
            &&& on_track(j, n, b, destroyed || (is_destroying(j, a) && carried_out(j.method, ev)))
            &&& n.outcome is Succeeded ==> may_succeed(j, m, a, destroyed, ev)
        }),
{
    if m.stage == EraseStage::ReceivingGet && carried_out(j.method, ev) {
        let data = ev->Replied_0->data;
        let msid = match crate::tcg::first_bytes_token(data, 0) {
            Some(x) => x,
            None => Seq::empty(),
        };
        lemma_revert_frame(m.session(), msid);
    }
}

proof fn lemma_whole_erase(j: EraseModel, events: EraseEvents)
    requires
        !j.simulated,
        j.stage == EraseStage::Idle,
        j.outcome is Running,
        plausible(j, events),
    ensures
        on_track(j, erase_at(j, events).0, erase_at(j, events).1, was_destroyed(j, events)),
        erase_at(j, events).0.outcome is Succeeded ==> was_confirmed(j, events),
    decreases events.len(),
{
    if events.len() > 0 {
        let before = events.drop_last();
        let last = events.len() - 1;
        let (ev, cancel) = events.last();
        assert forall|k: int| 0 <= k < before.len() implies erase_at(
            j,
            #[trigger] before.take(k),
        ).0.fits(before[k].0) by {
            assert(before.take(k) =~= events.take(k));
        }
        lemma_whole_erase(j, before);
        assert(events.take(last) =~= before);
        let (m, a) = erase_at(j, before);
        let d = was_destroyed(j, before);
        match j.method {
            FirmwareMethod::NvmeSanitize { .. } => lemma_sanitize_step(j, m, a, d, ev, cancel),
            FirmwareMethod::TcgRevert => lemma_tcg_step(j, m, a, d, ev, cancel),
            _ => lemma_ata_step(j, m, a, d, ev, cancel),
        }
        lemma_events_add_up(j, events);
    }
}

proof fn lemma_events_add_up(j: EraseModel, events: EraseEvents)
    requires
        events.len() > 0,
        erase_at(j, events.drop_last()).0.outcome is Succeeded ==> was_confirmed(
            j,
            events.drop_last(),
        ),
    ensures
        ({
            let before = events.drop_last();
            let (m, a) = erase_at(j, before);
            let ev = events.last().0;
            &&& was_destroyed(j, before) || (is_destroying(j, a) && carried_out(j.method, ev))
                <==> was_destroyed(j, events)
            &&& may_succeed(j, m, a, was_destroyed(j, before), ev) ==> was_confirmed(j, events)
        }),
{
    let before = events.drop_last();
    let last = events.len() - 1;
    let (m, a) = erase_at(j, before);
    let ev = events.last().0;
    assert(events.take(last) =~= before);
    if was_destroyed(j, before) {
        let k = choose|k: int| destroyed_at(j, before, k);
        lemma_destroyed_stays(j, events, k);
        if may_succeed(j, m, a, true, ev) && !(m.outcome is Succeeded) && (j.method is NvmeSanitize
            || j.method is TcgRevert) {
            assert(confirmed_at(j, events, k, last));
        }
    }
    if was_confirmed(j, before) {
        let (k, l) = choose|k: int, l: int|
            destroyed_at(j, before, k) && confirmed_at(j, before, k, l);
        lemma_destroyed_stays(j, events, k);
        lemma_confirmed_stays(j, events, k, l);
    }
    if is_destroying(j, a) && carried_out(j.method, ev) {
        assert(destroyed_at(j, events, last));
        if j.method is AtaSecureErase || j.method is NvmeFormat {
            assert(confirmed_at(j, events, last, last));
        }
    }
    if was_destroyed(j, events) {
        let k = choose|k: int| destroyed_at(j, events, k);
        if k < last {
            assert(before.take(k) =~= events.take(k));
            assert(destroyed_at(j, before, k));
        }
    }
}

/// An erase of a real disk succeeds only after the drive has destroyed its data:
/// the destroying command of the method was issued, the drive carried it out
/// without error, and told that it is done.
pub proof fn law_success_means_destroyed(
    disk: DiskModel,
    method: FirmwareMethod,
    events: EraseEvents,
)
    requires
        !disk.simulated,
        plausible(erase_job_spec(disk, method), events),
        erase_at(erase_job_spec(disk, method), events).0.outcome is Succeeded,
    ensures
        exists|k: int, l: int|
            destroyed_at(erase_job_spec(disk, method), events, k) && confirmed_at(
                erase_job_spec(disk, method),
                events,
                k,
                l,
            ),
{
    lemma_whole_erase(erase_job_spec(disk, method), events);
}

/// A command that the drive does not carry out ends the erase without success, and
/// no further command follows: with the drive's status if it answered, and with an
/// I/O error if the command did not reach it.
pub proof fn law_failed_command_stops(j: EraseModel, reply: ReplyModel, cancel: bool)
    requires
        awaits_reply(j.stage),
        j.outcome is Running,
    ensures
        ({
            let (n, a) = erase_after(j, EraseEventModel::Replied(reply), cancel);
            let ata = j.stage == EraseStage::SettingPassword || j.stage == EraseStage::Erasing;
            match reply {
                ReplyModel::Completed { status, sense, data } => status != 0 && !(ata && status == 2)
                    ==> a is Stop && n.outcome == EraseOutcomeModel::Stopped(
                    FirmwareErrorModel::DeviceStatus(status),
                ),
                ReplyModel::Refused(m) => {
                    &&& a is Stop
                    &&& n.outcome matches EraseOutcomeModel::Stopped(FirmwareErrorModel::Io(t))
                    &&& m.is_suffix_of(t)
                },
                ReplyModel::NotOpened(m) => a is Stop && n.outcome == EraseOutcomeModel::Stopped(
                    FirmwareErrorModel::Io(m),
                ),
            }
        }),
{
    if let ReplyModel::Refused(m) = reply {
        let (n, a) = erase_after(j, EraseEventModel::Replied(reply), cancel);
        let t = n.outcome->Stopped_0->Io_0;
        assert(t.subrange(t.len() - m.len(), t.len() as int) =~= m);
    }
}

/// An ATA erase sets a password (0xF1) and then erases with the same one, as the
/// drive demands: a block of 512 bytes whose control word selects the user
/// password.
pub proof fn law_ata_erase_uses_the_password_it_set(
    disk: DiskModel,
    enhanced: bool,
    status: u32,
    sense: Seq<u8>,
    data: Seq<u8>,
    cancel: bool,
)
    requires
        !disk.simulated,
        status == 0 || status == 2,
    ensures
        ({
            let j = erase_job_spec(disk, FirmwareMethod::AtaSecureErase { enhanced });
            let (m, set) = erase_begun(j);
            let reply = ReplyModel::Completed { status, sense, data };
            let (n, erase) = erase_after(m, EraseEventModel::Replied(reply), cancel);
            &&& set matches EraseActionModel::Issue(RequestModel::Sg(x))
            &&& x.cdb.len() == 16 && x.cdb[0] == 0x85 && x.cdb[14] == 0xF1
            &&& x.data.len() == 512 && x.data[0] == 0 && x.data[1] == 0
            &&& erase matches EraseActionModel::Issue(RequestModel::Sg(y))
            &&& y.cdb[14] == 0xF4
            &&& y.data == x.data
        }),
{
}

/// A simulated erase never sends a command to a drive, and a real one never writes
/// to a file, whatever happens.
pub proof fn law_simulation_and_drive_are_apart(
    disk: DiskModel,
    method: FirmwareMethod,
    events: EraseEvents,
)
    requires
        plausible(erase_job_spec(disk, method), events),
    ensures
        ({
            let a = erase_at(erase_job_spec(disk, method), events).1;
            if disk.simulated {
                !(a is Issue)
            } else {
                !(a is OpenForWrite) && !(a is WriteZeros) && !(a is Sync)
            }
        }),
    decreases events.len(),
{
    let j = erase_job_spec(disk, method);
    if disk.simulated {
        lemma_simulated(j, events);
    } else {
        lemma_whole_erase(j, events);
        if events.len() > 0 {
            let before = events.drop_last();
            assert forall|k: int| 0 <= k < before.len() implies erase_at(
                j,
                #[trigger] before.take(k),
            ).0.fits(before[k].0) by {
                assert(before.take(k) =~= events.take(k));
            }
            lemma_whole_erase(j, before);
            assert(events.take(events.len() - 1) =~= before);
        }
    }
}

proof fn lemma_simulated(j: EraseModel, events: EraseEvents)
    requires
        j.simulated,
        plausible(j, events),
    ensures
        !(erase_at(j, events).1 is Issue),
        ({
            let stage = erase_at(j, events).0.stage;
            ||| stage == EraseStage::Opening
            ||| stage == EraseStage::Zeroing
            ||| stage == EraseStage::Pacing
            ||| stage == EraseStage::Flushing
            ||| stage == EraseStage::Ended
        }),
    decreases events.len(),
{
    if events.len() > 0 {
        let before = events.drop_last();
        assert forall|k: int| 0 <= k < before.len() implies erase_at(
            j,
            #[trigger] before.take(k),
        ).0.fits(before[k].0) by {
            assert(before.take(k) =~= events.take(k));
        }
        lemma_simulated(j, before);
        assert(events.take(events.len() - 1) =~= before);
    }
}

/// Revert authenticates with the credential that the drive itself told: where the
/// response to Get holds a token with up to fifteen bytes, and no other token
/// before it, the call of Revert carries those bytes in a token of its own behind
/// the SID authority (00 00 00 09 00 00 00 06).
pub proof fn law_revert_uses_the_drives_credential(
    j: EraseModel,
    sense: Seq<u8>,
    head: Seq<u8>,
    msid: Seq<u8>,
    tail: Seq<u8>,
    cancel: bool,
)
    requires
        j.stage == EraseStage::ReceivingGet,
        1 <= msid.len() <= 15,
        forall|i: int| 0 <= i < head.len() ==> !(0xa0 <= #[trigger] head[i] <= 0xbf),
    ensures
        ({
            let data = head + seq![(0xa0 + msid.len()) as u8] + msid + tail;
            let reply = ReplyModel::Completed { status: 0, sense, data };
            let (n, a) = erase_after(j, EraseEventModel::Replied(reply), cancel);
            &&& a matches EraseActionModel::Issue(r)
            &&& ({
                let frame = match r {
                    RequestModel::Sg(x) => x.data,
                    RequestModel::Nvme(x) => x.data,
                };
                &&& calls_revert(frame)
                &&& carries_credential(frame, msid)
            })
        }),
{
    let data = head + seq![(0xa0 + msid.len()) as u8] + msid + tail;
    lemma_first_token(data, head, msid, tail, 0);
    lemma_revert_frame(j.session(), msid);
}

proof fn lemma_first_token(data: Seq<u8>, head: Seq<u8>, msid: Seq<u8>, tail: Seq<u8>, i: int)
    requires
        data == head + seq![(0xa0 + msid.len()) as u8] + msid + tail,
        1 <= msid.len() <= 15,
        0 <= i <= head.len(),
        forall|k: int| 0 <= k < head.len() ==> !(0xa0 <= #[trigger] head[k] <= 0xbf),
    ensures
        crate::tcg::first_bytes_token(data, i) == Some(msid),
    decreases head.len() - i,
{
    if i < head.len() {
        assert(data[i] == head[i]);
        lemma_first_token(data, head, msid, tail, i + 1);
    } else {
        assert(data[i] == 0xa0 + msid.len());
        assert(data[i] % 16 == msid.len());
        assert(data.subrange(i + 1, i + 1 + msid.len() as int) =~= msid);
    }
}

/// The report of a firmware erase identifies the disk, the command and the time,
/// counts as a firmware erase with nothing overwritten, and says success exactly if
/// the erase succeeded; an error it names unless the erase was cancelled.
pub proof fn law_erase_report_tells_the_truth(j: EraseModel, disk: DiskModel, clock: JobClock)
    ensures
        ({
            let r = erase_report(j, disk, clock);
            &&& r.disk_name == disk.name
            &&& r.disk_model == disk.model
            &&& r.disk_serial == disk.serial
            &&& r.disk_size_bytes == disk.size_bytes
            &&& r.method_id == j.method.id_spec()
            &&& r.method_name == j.method.name_spec()
            &&& r.firmware
            &&& r.rounds == 0 && r.pass_count == 0
            &&& r.bytes_written == 0 && r.bytes_verified == 0 && r.write_ns == 0
            &&& r.started_unix == clock.started_unix
            &&& r.finished_unix == clock.finished_unix
            &&& r.duration_ns == clock.duration_ns
            &&& r.status == JobStatus::Success <==> j.outcome is Succeeded
            &&& r.passes_completed == if j.outcome is Succeeded { 1u32 } else { 0u32 }
            &&& r.status == JobStatus::Cancelled <==> j.outcome == EraseOutcomeModel::Stopped(
                FirmwareErrorModel::Cancelled,
            )
            &&& r.error is Some <==> (j.outcome matches EraseOutcomeModel::Stopped(e) && !(e is Cancelled))
            &&& (j.outcome matches EraseOutcomeModel::Stopped(FirmwareErrorModel::Io(m))
                ==> m.is_suffix_of(r.error->0))
        }),
{
    if let EraseOutcomeModel::Stopped(FirmwareErrorModel::Io(m)) = j.outcome {
        let t = erase_report(j, disk, clock).error->0;
        assert(t.subrange(t.len() - m.len(), t.len() as int) =~= m);
    }
}

/// A simulated erase runs at six times the rate of an overwrite of its disk, and at
/// six times 64 MiB a second where that has none.
pub proof fn law_simulated_erase_is_six_times_as_fast(b: u64)
    requires
        0 < b,
        6 * b <= u64::MAX,
    ensures
        simulated_bps(Some(b)) == 6 * b,
        simulated_bps(None) == 6 * 64 * 1024 * 1024,
        simulated_bps(Some(0)) == 1,
{
}

/// An erase starts with its method's first command, as a job of one step that shows
/// the method: a real one with the command itself, a simulated one with its file.
pub proof fn law_erase_begins_with_the_method(disk: DiskModel, method: FirmwareMethod)
    ensures
        ({
            let (m, a) = erase_begun(erase_job_spec(disk, method));
            &&& m.method == method
            &&& m.progress.pass_label == method.name_spec()
            &&& m.progress.pass_index == 1 && m.progress.pass_count == 1
            &&& m.progress.work_done == 0
            &&& disk.simulated <==> a is OpenForWrite
            &&& !disk.simulated ==> a is Issue
        }),
{
}

/// The ComID that a security command goes to.
pub open spec fn addressed_comid(r: RequestModel) -> int {
    match r {
        RequestModel::Sg(x) => 0x100 * x.cdb[2] + x.cdb[3],
        RequestModel::Nvme(x) => (x.cmd.cdw10 / 0x100) as int % 0x1_0000,
    }
}

proof fn lemma_addressed(bus: Bus, send: bool, comid: u16, data: Seq<u8>)
    ensures
        addressed_comid(security_request_spec(bus, send, comid, data)) == comid,
{
    let c = comid as int;
    assert(c == 256 * ((c / 256) % 256) + c % 256);
    let r = security_request_spec(bus, send, comid, data);
    if bus == Bus::Nvme {
        let w = 0x100_0000 * 1 + 0x100 * c;
        assert((w / 0x100) % 0x1_0000 == c);
    } else {
        let cdb = r->Sg_0.cdb;
        assert(cdb[2] == crate::bytes::byte_of(c, 256) && cdb[3] == crate::bytes::byte_of(c, 1));
    }
}

/// A TCG erase talks to the ComID that the drive told in its discovery data: it takes
/// it over then, keeps it, and addresses every further command to it.
pub proof fn law_session_uses_the_drives_comid(j: EraseModel, ev: EraseEventModel, cancel: bool)
    requires
        j.method is TcgRevert,
        awaits_reply(j.stage),
        j.stage == EraseStage::Discovering || j.stage == EraseStage::SendingStart || j.stage
            == EraseStage::ReceivingStart || j.stage == EraseStage::SendingGet || j.stage
            == EraseStage::ReceivingGet || j.stage == EraseStage::SendingRevert || j.stage
            == EraseStage::ReceivingRevert,
        j.fits(ev),
    ensures
        ({
            let (n, a) = erase_after(j, ev, cancel);
            &&& j.stage != EraseStage::Discovering ==> n.comid == j.comid
            &&& j.stage == EraseStage::Discovering && carried_out(j.method, ev) ==> (
            match crate::tcg::discovered_comid(ev->Replied_0->data) {
                Some(c) => n.comid == c && a is Issue,
                None => n.outcome == EraseOutcomeModel::Stopped(FirmwareErrorModel::Unsupported),
            })
            &&& (a matches EraseActionModel::Issue(r) ==> addressed_comid(r) == n.comid)
        }),
{
    let (n, a) = erase_after(j, ev, cancel);
    if let EraseActionModel::Issue(r) = a {
        let data = match r {
            RequestModel::Sg(x) => x.data,
            RequestModel::Nvme(x) => x.data,
        };
        lemma_addressed(n.bus, true, n.comid, data);
        lemma_addressed(n.bus, false, n.comid, data);
    }
}

/// Whether a frame carries a call of a method on an object: behind 52 bytes of headers
/// come the call token and the two UIDs, each as a token of nine bytes.
pub open spec fn calls(frame: Seq<u8>, object: Seq<u8>, method: Seq<u8>) -> bool {
    &&& frame.len() >= 71
    &&& frame[52] == 0xf8
    &&& frame[53] == 0xa8
    &&& frame.subrange(54, 62) == object
    &&& frame[62] == 0xa8
    &&& frame.subrange(63, 71) == method
}

proof fn lemma_call_head(
    frame: Seq<u8>,
    payload: Seq<u8>,
    object: Seq<u8>,
    method: Seq<u8>,
    rest: Seq<u8>,
)
    requires
        object.len() == 8,
        method.len() == 8,
        payload == seq![0xf8u8] + uid_token(object) + uid_token(method) + rest,
        frame.len() >= 52 + payload.len(),
        frame.subrange(52, 71) == payload.subrange(0, 19),
    ensures
        calls(frame, object, method),
{
    let head = payload.subrange(0, 19);
    assert(head =~= seq![0xf8u8, 0xa8u8] + object + seq![0xa8u8] + method);
    assert(head[0] == frame[52]);
    assert(head[1] == frame[53]);
    assert(head[10] == frame[62]);
    assert(frame.subrange(54, 62) =~= head.subrange(2, 10));
    assert(head.subrange(2, 10) =~= object);
    assert(frame.subrange(63, 71) =~= head.subrange(11, 19));
    assert(head.subrange(11, 19) =~= method);
}

proof fn lemma_framed_call(
    s: TcgSession,
    payload: Seq<u8>,
    object: Seq<u8>,
    method: Seq<u8>,
    rest: Seq<u8>,
)
    requires
        object.len() == 8,
        method.len() == 8,
        payload == seq![0xf8u8] + uid_token(object) + uid_token(method) + rest,
    ensures
        calls(s.framed(payload), object, method),
{
    assert(payload.len() >= 19);
    lemma_frame_payload(s, payload, 0, 19);
    lemma_call_head(s.framed(payload), payload, object, method, rest);
}

/// The session with a drive is opened on its session manager (00 00 00 00 00 00 00 FF)
/// by StartSession (00 00 00 FF 00 00 FF 02).
pub proof fn law_session_is_started(s: TcgSession, payload: Seq<u8>)
    requires
        payload == start_session_payload(s.host_session),
    ensures
        calls(
            s.framed(payload),
            seq![0u8, 0u8, 0u8, 0u8, 0u8, 0u8, 0u8, 0xffu8],
            seq![0u8, 0u8, 0u8, 0xffu8, 0u8, 0u8, 0xffu8, 2u8],
        ),
{
    let object = seq![0u8, 0u8, 0u8, 0u8, 0u8, 0u8, 0u8, 0xffu8];
    let method = seq![0u8, 0u8, 0u8, 0xffu8, 0u8, 0u8, 0xffu8, 2u8];
    let rest = payload.skip(19);
    assert(payload =~= seq![0xf8u8] + uid_token(object) + uid_token(method) + rest);
    lemma_framed_call(s, payload, object, method, rest);
}

/// The credential of a drive is read from C_PIN MSID (00 00 00 0B 00 00 84 02) by Get
/// (00 00 00 06 00 00 00 16).
pub proof fn law_credential_is_asked_for(s: TcgSession, payload: Seq<u8>)
    requires
        payload == get_msid_payload(),
    ensures
        calls(
            s.framed(payload),
            seq![0u8, 0u8, 0u8, 0x0bu8, 0u8, 0u8, 0x84u8, 2u8],
            seq![0u8, 0u8, 0u8, 6u8, 0u8, 0u8, 0u8, 0x16u8],
        ),
{
    let object = seq![0u8, 0u8, 0u8, 0x0bu8, 0u8, 0u8, 0x84u8, 2u8];
    let method = seq![0u8, 0u8, 0u8, 6u8, 0u8, 0u8, 0u8, 0x16u8];
    let rest = payload.skip(19);
    assert(payload =~= seq![0xf8u8] + uid_token(object) + uid_token(method) + rest);
    lemma_framed_call(s, payload, object, method, rest);
}

/// A sanitize is waited for: as long as the log says that it is under way the erase
/// waits and reads the log again, and a failure that the log tells ends it with its
/// code.
pub proof fn law_sanitize_is_polled(j: EraseModel, sense: Seq<u8>, data: Seq<u8>, cancel: bool)
    requires
        j.stage == EraseStage::ReadingStatus,
        data.len() == 512,
    ensures
        ({
            let reply = ReplyModel::Completed { status: 0, sense, data };
            let (n, a) = erase_after(j, EraseEventModel::Replied(reply), cancel);
            let (again, b) = erase_after(n, EraseEventModel::Done, false);
            &&& data[2] % 8 == 2 ==> {
                &&& a matches EraseActionModel::Wait { ms }
                &&& 0 < ms <= 60_000
                &&& n.outcome == j.outcome
                &&& b matches EraseActionModel::Issue(RequestModel::Nvme(r))
                &&& r.cmd.opcode == 0x02 && r.cmd.cdw10 % 0x100 == 0x81
                &&& again.stage == EraseStage::ReadingStatus
            }
            &&& data[2] % 8 > 2 ==> n.outcome == EraseOutcomeModel::Stopped(
                FirmwareErrorModel::DeviceStatus((data[2] % 8) as u32),
            )
        }),
{
}

} // verus!
