use dban::algorithm::{all_schemes, Pass, Scheme, VerifyMode};
use dban::device::{Bus, Disk, LockReason, MediaKind};
use dban::engine::{
    spawn_firmware, spawn_wipe, throttle, JobClock, JobReport, JobStatus, Phase, Progress, WipeSpec, CHUNK_SIZE,
};
use dban::firmware::FirmwareMethod;
use dban::job::{
    direct_io_possible, fill_pattern_at, retries_buffered, JobAction, JobError, JobEvent, JobOutcome, WipeJob,
};
use dban::prng::Prng;
use dban::safety::{ArmToken, SafetyGate};
use dban::CoreError;

fn token() -> ArmToken {
    let mut g = SafetyGate::new(1).unwrap();
    for c in "ERASE 1 DISK".chars() {
        g.input_char(c);
    }
    g.confirm().unwrap();
    g.tick(5_000).unwrap()
}

fn test_disk(size: u64) -> Disk {
    Disk {
        path: "disk.img".to_string(),
        name: "test0".to_string(),
        model: "Unit Test Disk".to_string(),
        serial: "UT-0001".to_string(),
        size_bytes: size,
        bus: Bus::Demo,
        kind: MediaKind::Ssd,
        removable: false,
        lock: None,
        simulated: true,
        throttle_bps: None,
    }
}

fn spec_of(passes: Vec<Pass>, verify: VerifyMode) -> WipeSpec {
    WipeSpec {
        scheme: Scheme {
            id: "test",
            name: "Test",
            origin: "-",
            description: "-",
            passes,
            default_verify: verify,
            recommended: false,
        },
        rounds: 1,
        verify,
        final_blank: false,
    }
}

/// Runs a job on `data`; `tamper` may change the contents after each flush.
fn run(job: &mut WipeJob, data: &mut [u8], tamper: &mut dyn FnMut(&mut [u8])) -> Vec<JobAction> {
    let mut log = Vec::new();
    let mut at: usize = 0;
    let mut now: u64 = 0;
    let mut action = JobAction::Open;
    loop {
        log.push(action);
        now += 1000;
        let event = match action {
            JobAction::Open | JobAction::SeekStart => {
                at = 0;
                JobEvent::Done
            }
            JobAction::WriteChunk { len } => {
                data[at..at + len].copy_from_slice(job.chunk());
                at += len;
                JobEvent::Done
            }
            JobAction::ReadChunk { len } => {
                let bytes = data[at..at + len].to_vec();
                at += len;
                JobEvent::Data(bytes)
            }
            JobAction::Sync => {
                tamper(data);
                JobEvent::Done
            }
            JobAction::Pace { .. } => JobEvent::Done,
            JobAction::Stop => return log,
        };
        action = job.step(event, false, now);
    }
}

#[test]
fn write_then_verify_roundtrip_random() {
    const SIZE: u64 = 4096 * 5; // exercises a partial final chunk path
    let spec = spec_of(vec![Pass::random()], VerifyMode::AllPasses);
    let mut job = spawn_wipe(&test_disk(SIZE), &spec, &token()).unwrap();
    let mut data = vec![0u8; SIZE as usize];
    run(&mut job, &mut data, &mut |_| {});
    assert!(matches!(job.outcome(), JobOutcome::Succeeded));
    assert_eq!(job.stats().bytes_written, SIZE);
    assert_eq!(job.stats().bytes_verified, SIZE);
    assert!(data.iter().any(|&b| b != 0), "the stream was written");
}

#[test]
fn verify_detects_tampering() {
    const SIZE: u64 = 4096 * 4;
    let spec = spec_of(vec![Pass::zeros()], VerifyMode::LastPass);
    let mut job = spawn_wipe(&test_disk(SIZE), &spec, &token()).unwrap();
    let mut data = vec![0xABu8; SIZE as usize];
    // Corrupt one byte behind the engine's back.
    run(&mut job, &mut data, &mut |d| d[8192 + 7] = 0xEE);
    match job.outcome() {
        JobOutcome::Stopped(JobError::Verify { pass: 1, offset }) => assert_eq!(*offset, 8192 + 7),
        _ => panic!("tampering was not detected"),
    }
    let clock = JobClock { started_unix: 1, finished_unix: 2, duration_ns: 3 };
    let report = job.finish(&test_disk(SIZE), &spec, clock);
    assert_eq!(report.status, JobStatus::VerifyFailed);
    assert_eq!(
        report.error.as_deref(),
        Some("verification mismatch in pass 1 at byte offset 8199")
    );
    assert_eq!(report.passes_completed, 1);
    assert_eq!(job.progress().snapshot().phase, Phase::Failed);
    assert!(job.progress().snapshot().error.is_some());
}

#[test]
fn pattern_phase_is_continuous_across_chunks() {
    // A 3-byte pattern must not reset at chunk boundaries.
    let pattern: &[u8] = &[0x92, 0x49, 0x24];
    let mut whole = vec![0u8; 1000];
    fill_pattern_at(&mut whole, pattern, 0);

    let mut pieces = vec![0u8; 1000];
    let mut off: usize = 0;
    for chunk_len in [333usize, 333, 334] {
        let piece = &mut pieces[off..off + chunk_len];
        fill_pattern_at(piece, pattern, off as u64);
        off += chunk_len;
    }
    assert_eq!(whole, pieces);
    // Spot-check the absolute formula.
    for (i, &b) in whole.iter().enumerate() {
        assert_eq!(b, pattern[i % 3]);
    }
}

#[test]
fn work_accounting() {
    let scheme = all_schemes()
        .into_iter()
        .find(|s| s.id == "dod-short")
        .unwrap();
    let spec = WipeSpec {
        scheme,
        rounds: 2,
        verify: VerifyMode::LastPass,
        final_blank: true,
    };
    // 3 passes * 2 rounds + 1 blank = 7 passes, 1 verified.
    assert_eq!(spec.pass_list().len(), 7);
    assert_eq!(spec.work_bytes(1000), 1000 * 8);
    let flags = spec.verify_flags(7);
    assert_eq!(flags.iter().filter(|&&v| v).count(), 1);
    assert!(flags[6]);
}

#[test]
fn zero_rounds_count_as_one() {
    let mut spec = spec_of(vec![Pass::zeros(), Pass::ones()], VerifyMode::AllPasses);
    spec.rounds = 0;
    assert_eq!(spec.pass_list().len(), 2);
    assert_eq!(spec.verify_flags(2), vec![true, true]);
    spec.verify = VerifyMode::Off;
    assert_eq!(spec.verify_flags(3), vec![false; 3]);
    assert_eq!(spec.work_bytes(10), 20);
    assert!(spec.work_fits(u64::MAX / 2));
    assert!(!spec.work_fits(u64::MAX / 2 + 1));
    assert_eq!(spec.clone().scheme.id, "test");
}

#[test]
fn several_chunks_of_a_pattern_and_a_stream() {
    // Two chunks and a bit.
    let size: u64 = 2 * CHUNK_SIZE as u64 + 1001;
    let spec = spec_of(
        vec![Pass::random(), Pass::fill(&[0x92, 0x49, 0x24])],
        VerifyMode::AllPasses,
    );
    let mut job = spawn_wipe(&test_disk(size), &spec, &token()).unwrap();
    let mut data = vec![0u8; size as usize];
    let mut first: Vec<u8> = Vec::new();
    let log = run(&mut job, &mut data, &mut |d| {
        if first.is_empty() {
            first = d.to_vec();
        }
    });
    assert!(matches!(job.outcome(), JobOutcome::Succeeded));
    for (i, &b) in data.iter().enumerate() {
        assert_eq!(b, [0x92, 0x49, 0x24][i % 3], "byte {i}");
    }
    // The first pass is one stream across its chunks.
    assert_ne!(first[..CHUNK_SIZE], first[CHUNK_SIZE..2 * CHUNK_SIZE]);
    assert_eq!(job.stats().passes_completed, 2);
    assert_eq!(job.stats().bytes_written, 2 * size);
    assert_eq!(job.stats().bytes_verified, 2 * size);
    assert!(job.stats().write_ns > 0);
    let writes = log.iter().filter(|a| matches!(a, JobAction::WriteChunk { .. })).count();
    let reads = log.iter().filter(|a| matches!(a, JobAction::ReadChunk { .. })).count();
    assert_eq!((writes, reads), (6, 6));
    let snap = job.progress().snapshot();
    assert_eq!(snap.work_done, snap.work_total);
    assert_eq!(snap.clone().pass_label, "0x92 49 24");
}

#[test]
fn a_seeded_pass_writes_its_stream() {
    let spec = spec_of(vec![Pass::random()], VerifyMode::Off);
    let mut job = spawn_wipe(&test_disk(1000), &spec, &token()).unwrap();
    let a = job.resume(JobEvent::Done, false, 0, None);
    assert_eq!(a, JobAction::SeekStart);
    let a = job.resume(JobEvent::Done, false, 0, Some(42));
    assert_eq!(a, JobAction::WriteChunk { len: 1000 });
    let mut want = vec![0u8; 1000];
    Prng::from_seed(42).fill(&mut want);
    assert_eq!(job.chunk(), &want[..]);
}

#[test]
fn missing_entropy_ends_the_job() {
    let spec = spec_of(vec![Pass::random()], VerifyMode::Off);
    let mut job = spawn_wipe(&test_disk(1000), &spec, &token()).unwrap();
    job.resume(JobEvent::Done, false, 0, None);
    assert_eq!(job.resume(JobEvent::Done, false, 0, None), JobAction::Stop);
    assert!(matches!(job.outcome(), JobOutcome::NoEntropy));
    let report = JobReport::panicked(&test_disk(1000));
    assert_eq!(report.error.as_deref(), Some("worker thread panicked"));
    assert_eq!(report.status, JobStatus::Failed);
}

#[test]
fn cancel_stops_before_the_next_chunk() {
    let size: u64 = 2 * CHUNK_SIZE as u64;
    let spec = spec_of(vec![Pass::ones()], VerifyMode::LastPass);
    let mut job = spawn_wipe(&test_disk(size), &spec, &token()).unwrap();
    job.step(JobEvent::Done, false, 0);
    let a = job.step(JobEvent::Done, false, 0);
    assert_eq!(a, JobAction::WriteChunk { len: CHUNK_SIZE });
    assert_eq!(job.step(JobEvent::Done, true, 0), JobAction::Stop);
    assert!(matches!(job.outcome(), JobOutcome::Stopped(JobError::Cancelled)));
    let clock = JobClock { started_unix: 5, finished_unix: 6, duration_ns: 7 };
    let report = job.finish(&test_disk(size), &spec, clock);
    assert_eq!(report.status, JobStatus::Cancelled);
    assert_eq!(report.error, None);
    assert_eq!((report.started_unix, report.finished_unix, report.duration_ns), (5, 6, 7));
    assert_eq!(report.passes_completed, 0);
    assert_eq!(report.bytes_written, 0);
    assert_eq!(job.progress().snapshot().phase, Phase::Cancelled);
    assert_eq!(job.step(JobEvent::Done, false, 0), JobAction::Stop);
}

#[test]
fn io_errors_fail_the_job() {
    let spec = spec_of(vec![Pass::zeros()], VerifyMode::Off);
    let mut job = spawn_wipe(&test_disk(10), &spec, &token()).unwrap();
    let a = job.step(JobEvent::Error("no such device".to_string()), false, 0);
    assert_eq!(a, JobAction::Stop);
    let clock = JobClock { started_unix: 0, finished_unix: 0, duration_ns: 0 };
    let report = job.finish(&test_disk(10), &spec, clock);
    assert_eq!(report.status, JobStatus::Failed);
    assert_eq!(report.error.as_deref(), Some("I/O error: no such device"));
    assert_eq!(report.method_id, "test");
    assert_eq!(report.method_name, "Test");
    assert!(!report.firmware);
    assert_eq!(report.clone().disk_serial, "UT-0001");
}

#[test]
fn throttled_jobs_pace_themselves() {
    let mut disk = test_disk(100);
    disk.throttle_bps = Some(50);
    let spec = spec_of(vec![Pass::zeros()], VerifyMode::LastPass);
    let mut job = spawn_wipe(&disk, &spec, &token()).unwrap();
    let mut data = vec![1u8; 100];
    let log = run(&mut job, &mut data, &mut |_| {});
    assert_eq!(
        log,
        vec![
            JobAction::Open,
            JobAction::SeekStart,
            JobAction::WriteChunk { len: 100 },
            JobAction::Pace { done: 100, bps: 50 },
            JobAction::Sync,
            JobAction::SeekStart,
            JobAction::ReadChunk { len: 100 },
            JobAction::Pace { done: 100, bps: 50 },
            JobAction::Stop,
        ]
    );
    // 100 bytes at 50 bytes/sec take two seconds, in naps of at most 50 ms.
    let ms: u64 = 1_000_000;
    assert_eq!(throttle(0, 100, 50, 50 * ms), Some(50 * ms));
    assert_eq!(throttle(1990 * ms, 100, 50, 50 * ms), Some(10 * ms));
    assert_eq!(throttle(2000 * ms, 100, 50, 50 * ms), None);
    assert_eq!(throttle(0, 100, 0, 50 * ms), None);
}

#[test]
fn empty_disks_are_wiped_at_once() {
    let spec = spec_of(vec![Pass::random(), Pass::zeros()], VerifyMode::AllPasses);
    let mut job = spawn_wipe(&test_disk(0), &spec, &token()).unwrap();
    let mut data: Vec<u8> = Vec::new();
    run(&mut job, &mut data, &mut |_| {});
    assert!(matches!(job.outcome(), JobOutcome::Succeeded));
    assert_eq!(job.stats().passes_completed, 2);
    assert_eq!(job.progress().snapshot().work_total, 1);
}

#[test]
fn locked_disks_are_refused() {
    let mut disk = test_disk(10);
    disk.lock = Some(LockReason::SwapActive);
    let spec = spec_of(vec![Pass::zeros()], VerifyMode::Off);
    match spawn_wipe(&disk, &spec, &token()) {
        Err(CoreError::DiskLocked(name, reason)) => {
            assert_eq!((name.as_str(), reason.as_str()), ("test0", "active swap"))
        }
        _ => panic!("a locked disk must be refused"),
    }
    let method = FirmwareMethod::TcgRevert;
    match spawn_firmware(&disk, method, &token()) {
        Err(CoreError::DiskLocked(name, reason)) => {
            assert_eq!((name.as_str(), reason.as_str()), ("test0", "active swap"))
        }
        _ => panic!("a locked disk must be refused"),
    }
}

#[test]
fn phases_and_statuses() {
    let p = Progress::new(0, 3).snapshot();
    assert_eq!((p.work_done, p.work_total, p.pass_count), (0, 1, 3));
    assert_eq!(p.phase, Phase::Queued);
    assert!(!Phase::Writing.is_terminal() && !Phase::Verifying.is_terminal());
    assert!(Phase::Done.is_terminal() && Phase::Failed.is_terminal());
    assert!(Phase::Cancelled.is_terminal());
    assert_eq!(Phase::Queued.label(), "queued");
    assert_eq!(Phase::Writing.label(), "writing");
    assert_eq!(Phase::Verifying.label(), "verifying");
    assert_eq!(Phase::Done.label(), "done");
    assert_eq!(Phase::Failed.label(), "FAILED");
    assert_eq!(Phase::Cancelled.label(), "cancelled");
    assert_eq!(JobStatus::Success.label(), "SUCCESS");
    assert_eq!(JobStatus::VerifyFailed.label(), "VERIFY FAILED");
    assert_eq!(JobStatus::Failed.label(), "FAILED");
    assert_eq!(JobStatus::Cancelled.label(), "CANCELLED");
}

#[test]
fn unbuffered_io_falls_back_once() {
    assert!(direct_io_possible(512 * 7));
    assert!(!direct_io_possible(513));
    assert!(retries_buffered(true, 0, true));
    assert!(!retries_buffered(true, 4096, true));
    assert!(!retries_buffered(false, 0, true));
    assert!(!retries_buffered(true, 0, false));
}

#[test]
fn longer_targets_keep_what_lies_behind_the_disk() {
    let size: u64 = 5000;
    let spec = spec_of(vec![Pass::random(), Pass::ones()], VerifyMode::AllPasses);
    let mut job = spawn_wipe(&test_disk(size), &spec, &token()).unwrap();
    let mut data = vec![0x5Au8; 6000];
    // A change behind the disk is no tampering.
    run(&mut job, &mut data, &mut |d| d[5999] = 1);
    assert!(matches!(job.outcome(), JobOutcome::Succeeded));
    assert!(data[..5000].iter().all(|&b| b == 0xff));
    assert!(data[5000..5999].iter().all(|&b| b == 0x5A));
    let clock = JobClock { started_unix: 1, finished_unix: 2, duration_ns: 3 };
    let report = job.finish(&test_disk(size), &spec, clock);
    assert_eq!(report.passes_completed, report.pass_count);
    assert_eq!(report.bytes_written + report.bytes_verified, spec.work_bytes(size));
}
