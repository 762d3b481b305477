use dban::ata::{
    ata_lba48_ret, ata_passthrough, ata_result, ata_secure_erase, configuration_identify, detect_ata,
    detect_hidden_ata, identify_device, lba48_result, read_native_max, reveal_hidden_ata, sector_size_fits,
    RevealAction, RevealAta, RevealEvent,
};
use dban::demo::DemoProvider;
use dban::device::{Bus, Disk, MediaKind};
use dban::engine::{spawn_firmware, JobClock, JobStatus, Phase};
use dban::erase::{EraseAction, EraseEvent, EraseJob, EraseOutcome};
use dban::firmware::{
    demo_support, detect_hidden_areas, detect_support, nth_method, reveal_hidden_areas, FirmwareError,
    FirmwareMethod, FirmwareSupport, HiddenAreas, RevealChoice,
};
use dban::nvme::{
    detect_nvme, identify_controller, nvme_format, nvme_result, nvme_sanitize, nvme_security, sanitize_log,
    sanitize_status, SanitizeStatus,
};
use dban::safety::{ArmToken, SafetyGate};
use dban::tcg::{
    detect_opal, discover_comid, extract_first_bytes_token, get_msid_call, revert_call, scsi_security,
    sec_recv, sec_send, security_result, start_session_call, token_blob, token_uint, TcgSession,
};
use dban::transport::{Reply, Request, SgDirection};

fn disk(bus: Bus, size: u64) -> Disk {
    Disk {
        path: "x".to_string(),
        name: "t".to_string(),
        model: "Test".to_string(),
        serial: "S".to_string(),
        size_bytes: size,
        bus,
        kind: MediaKind::Ssd,
        removable: false,
        lock: None,
        simulated: true,
        throttle_bps: None,
    }
}

fn physical(bus: Bus, size: u64) -> Disk {
    let mut d = disk(bus, size);
    d.simulated = false;
    d
}

fn token() -> ArmToken {
    let mut g = SafetyGate::new(1).unwrap();
    for c in "ERASE 1 DISK".chars() {
        g.input_char(c);
    }
    g.confirm().unwrap();
    g.tick(5_000).unwrap()
}

fn done(data: Vec<u8>) -> Reply {
    Reply::Completed { status: 0, sense: vec![0; 32], data }
}

#[test]
fn method_metadata_is_unique_and_complete() {
    let all = [
        FirmwareMethod::AtaSecureErase { enhanced: false },
        FirmwareMethod::AtaSecureErase { enhanced: true },
        FirmwareMethod::NvmeFormat { crypto: false },
        FirmwareMethod::NvmeFormat { crypto: true },
        FirmwareMethod::NvmeSanitize { crypto: false },
        FirmwareMethod::NvmeSanitize { crypto: true },
        FirmwareMethod::TcgRevert,
    ];
    let mut ids: Vec<_> = all.iter().map(|m| m.id()).collect();
    ids.sort();
    ids.dedup();
    assert_eq!(ids.len(), all.len(), "ids must be unique");
    for m in all {
        assert!(!m.name().is_empty());
        assert!(!m.description().is_empty());
    }
}

#[test]
fn demo_capability_matrix() {
    // SATA SSD: 2 ATA erases + Opal revert.
    let sata = demo_support(&disk(Bus::Sata, 0));
    assert!(sata.ata_secure_erase && sata.ata_enhanced_erase && sata.opal);
    assert_eq!(sata.methods().len(), 3);

    // NVMe: 2 Format + 2 Sanitize + Opal revert.
    let nvme = demo_support(&disk(Bus::Nvme, 0));
    assert!(nvme.nvme_format_crypto && nvme.nvme_sanitize_block && nvme.opal);
    assert_eq!(nvme.methods().len(), 5);

    let usb = demo_support(&disk(Bus::Usb, 0));
    assert!(!usb.any());
}

#[test]
fn frozen_hides_ata_methods() {
    let s = FirmwareSupport {
        ata_secure_erase: true,
        ata_enhanced_erase: true,
        ata_frozen: true,
        ..Default::default()
    };
    assert!(s.methods().is_empty(), "frozen drive offers no erase");
}

#[test]
fn hidden_area_math() {
    let h = HiddenAreas {
        current_sectors: 100,
        native_sectors: 120,
        real_sectors: 150,
        sector_size: 512,
    };
    assert!(h.has_hpa() && h.has_dco() && h.any());
    assert_eq!(h.hidden_sectors(), 50);
    assert_eq!(h.hidden_bytes(), 50 * 512);
    assert_eq!(h.full_bytes(), 150 * 512);
    let clean = HiddenAreas::none(100, 512);
    assert!(!clean.any() && !clean.has_hpa() && !clean.has_dco());
}

#[test]
fn detect_support_demo_dispatch() {
    // A simulated disk short-circuits to the synthetic matrix without ever
    // touching a drive. (`disk()` sets simulated = true.)
    let demo = disk(Bus::Nvme, 0);
    assert!(demo.simulated);
    assert!(detect_support(&demo, None, None).any());
}

#[test]
fn support_of_real_disks() {
    let found = FirmwareSupport { ata_secure_erase: true, ..Default::default() };
    let s = detect_support(&physical(Bus::Sata, 0), Some(found), Some(true));
    assert!(s.ata_secure_erase && s.opal);
    assert_eq!(
        s.methods(),
        vec![FirmwareMethod::AtaSecureErase { enhanced: false }, FirmwareMethod::TcgRevert]
    );
    let s = detect_support(&physical(Bus::Sata, 0), None, None);
    assert!(!s.any());
    let s = detect_support(&physical(Bus::Usb, 0), Some(found), Some(true));
    assert!(!s.any(), "only SATA and NVMe disks are probed");
}

#[test]
fn methods_in_picker_order() {
    let all = FirmwareSupport {
        ata_secure_erase: true,
        ata_enhanced_erase: true,
        ata_frozen: false,
        nvme_format_user: true,
        nvme_format_crypto: true,
        nvme_sanitize_block: true,
        nvme_sanitize_crypto: true,
        opal: true,
    };
    let methods = all.methods();
    assert_eq!(methods.len(), 7);
    for (i, m) in methods.iter().enumerate() {
        assert_eq!(*m, nth_method(i));
        assert!(all.supports(*m));
        assert!(!FirmwareSupport::default().supports(*m));
    }
    assert_eq!(nth_method(0).bus(), Bus::Sata);
    assert_eq!(nth_method(2).bus(), Bus::Nvme);
    assert_eq!(nth_method(5).bus(), Bus::Nvme);
    assert_eq!(nth_method(6).bus(), Bus::Unknown);
}

#[test]
fn simulated_hidden_detect_and_reveal() {
    // Backing file is 4 MiB but the disk advertises only 3 MiB: 1 MiB HPA.
    let d = disk(Bus::Demo, 3 << 20);
    let h = detect_hidden_areas(&d, Some(4 << 20), None);
    assert!(h.has_hpa());
    assert_eq!(h.hidden_bytes(), 1 << 20);
    assert_eq!(h.full_bytes(), 4 << 20);
    assert_eq!(
        reveal_hidden_areas(&d, Some(4 << 20), &h),
        RevealChoice::Capacity(4 << 20)
    );

    // A disk whose file matches its size has nothing hidden.
    let c = disk(Bus::Demo, 1 << 20);
    let h = detect_hidden_areas(&c, Some(1 << 20), None);
    assert!(!h.any());
    assert_eq!(
        reveal_hidden_areas(&c, Some(1 << 20), &h),
        RevealChoice::Capacity(1 << 20)
    );
}

#[test]
fn simulated_disks_reveal_every_byte_of_their_file() {
    // No multiple of a sector: the tail is revealed too.
    for len in [512u64, 1000, 1500, 2048] {
        let d = disk(Bus::Demo, 512);
        let h = detect_hidden_areas(&d, Some(len), None);
        assert_eq!(h.real_sectors, len / 512);
        assert_eq!(reveal_hidden_areas(&d, Some(len), &h), RevealChoice::Capacity(len));
    }
    // A file that is shorter, or cannot be looked at, hides nothing.
    let d = disk(Bus::Demo, 512);
    for len in [Some(100), None] {
        let h = detect_hidden_areas(&d, len, None);
        assert_eq!(reveal_hidden_areas(&d, len, &h), RevealChoice::Capacity(512));
    }
}

#[test]
fn hidden_areas_of_real_disks() {
    let measured = HiddenAreas {
        current_sectors: 10,
        native_sectors: 20,
        real_sectors: 20,
        sector_size: 512,
    };
    let sata = physical(Bus::Sata, 10 * 512);
    assert_eq!(detect_hidden_areas(&sata, None, Some(measured)), measured);
    assert_eq!(reveal_hidden_areas(&sata, None, &measured), RevealChoice::RunAta);
    assert_eq!(
        detect_hidden_areas(&sata, Some(u64::MAX), None),
        HiddenAreas::none(10, 512)
    );
    let usb = physical(Bus::Usb, 10 * 512);
    assert!(!detect_hidden_areas(&usb, None, Some(measured)).any());
    assert_eq!(reveal_hidden_areas(&usb, None, &measured), RevealChoice::Unsupported);
    assert_eq!(HiddenAreas::none(1, 0).sector_size, 512);
    assert_eq!(HiddenAreas::default().real_sectors, 0);
}

#[test]
fn error_texts() {
    assert_eq!(
        FirmwareError::Unsupported.message(),
        "firmware command not supported by this disk"
    );
    assert_eq!(
        FirmwareError::Frozen.message(),
        "drive security is frozen; power-cycle the drive and retry"
    );
    assert_eq!(FirmwareError::Cancelled.message(), "operation cancelled");
    assert_eq!(FirmwareError::Io("x".to_string()).message(), "device I/O error: x");
    assert_eq!(
        FirmwareError::DeviceStatus(8).message(),
        "drive reported command failure (status 0x08)"
    );
    assert_eq!(
        FirmwareError::DeviceStatus(0x2b1f).message(),
        "drive reported command failure (status 0x2b1f)"
    );
}

#[test]
fn ata_command_blocks() {
    let r = ata_passthrough(0xC2, 1, 0x123456, 0xB1, vec![0; 512]);
    assert_eq!(
        r.cdb,
        vec![0x85, 8, 0x2e, 0, 0xC2, 0, 1, 0, 0x56, 0, 0x34, 0, 0x12, 0, 0xB1, 0]
    );
    assert_eq!(r.direction, SgDirection::FromDevice);
    assert_eq!(r.direction.code(), -3);
    assert_eq!(r.timeout_ms, 120_000);
    let r = ata_passthrough(0xC0, 0, 0, 0xB1, Vec::new());
    assert_eq!(r.cdb[..3], [0x85, 6, 0]);
    assert_eq!(r.direction.code(), -1);
    let r = ata_lba48_ret(0, 0x37, 0x0605_0403_0201);
    assert_eq!(
        r.cdb,
        vec![0x85, 7, 0x21, 0, 0, 6, 0, 4, 1, 5, 2, 0, 3, 0, 0x37, 0]
    );
    assert_eq!(r.timeout_ms, 30_000);
    assert_eq!(identify_device().cdb[14], 0xEC);
    assert_eq!(read_native_max().cdb[14], 0x27);
    assert_eq!(configuration_identify().cdb[4], 0xC2);
}

#[test]
fn ata_replies() {
    let failed = |status: u32| {
        ata_result(Reply::Completed { status, sense: vec![0; 32], data: vec![7] })
    };
    assert_eq!(failed(0).unwrap(), vec![7]);
    assert_eq!(failed(2).unwrap(), vec![7]);
    assert!(matches!(failed(8), Err(FirmwareError::DeviceStatus(8))));
    assert_eq!(
        ata_result(Reply::Refused("EPERM".to_string())).unwrap_err().message(),
        "device I/O error: SG_IO ATA pass-through: EPERM"
    );
    assert_eq!(
        ata_result(Reply::NotOpened("ENOENT".to_string())).unwrap_err().message(),
        "device I/O error: ENOENT"
    );
    let mut sense = vec![0u8; 32];
    sense[0] = 0x72;
    sense[8] = 0x09;
    sense[15] = 0x01;
    sense[17] = 0x02;
    sense[19] = 0x03;
    sense[14] = 0x04;
    sense[16] = 0x05;
    sense[18] = 0x06;
    let reply = Reply::Completed { status: 2, sense: sense.clone(), data: Vec::new() };
    assert_eq!(lba48_result(reply).unwrap(), 0x0605_0403_0202);
    sense[8] = 0;
    let reply = Reply::Completed { status: 0, sense, data: Vec::new() };
    assert_eq!(
        lba48_result(reply).unwrap_err().message(),
        "device I/O error: ATA return descriptor not present"
    );
    assert_eq!(
        lba48_result(Reply::Refused("EIO".to_string())).unwrap_err().message(),
        "device I/O error: SG_IO ATA pass-through (lba48): EIO"
    );
    assert!(lba48_result(Reply::NotOpened("x".to_string())).is_err());
}

fn set_word(id: &mut [u8], i: usize, w: u16) {
    id[2 * i] = (w & 0xff) as u8;
    id[2 * i + 1] = (w >> 8) as u8;
}

#[test]
fn ata_identify_data() {
    let mut id = vec![0u8; 512];
    assert!(!detect_ata(&id).any());
    set_word(&mut id, 82, 0x0002);
    assert!(detect_ata(&id).ata_secure_erase && !detect_ata(&id).ata_enhanced_erase);
    set_word(&mut id, 128, 0x0021);
    assert!(detect_ata(&id).ata_enhanced_erase && !detect_ata(&id).ata_frozen);
    set_word(&mut id, 128, 0x0029);
    assert!(detect_ata(&id).ata_frozen);
    assert!(detect_ata(&id).methods().is_empty());
    set_word(&mut id, 82, 0xfffd);
    assert!(!detect_ata(&id).ata_secure_erase);
}

#[test]
fn ata_hidden_sectors() {
    let mut id = vec![0u8; 512];
    let h = detect_hidden_ata(512_000, &id, None, None);
    assert_eq!(h, HiddenAreas::none(1000, 512));
    // Native is never below current.
    let h = detect_hidden_ata(512_000, &id, Some(900), None);
    assert!(!h.any());
    let mut dco = vec![0u8; 512];
    set_word(&mut dco, 3, 0x0010);
    set_word(&mut dco, 5, 0x0001);
    let h = detect_hidden_ata(512_000, &id, Some(1200), Some(dco.clone()));
    assert_eq!((h.current_sectors, h.native_sectors), (1000, 1200));
    assert_eq!(h.real_sectors, 0x1_0000_0010);
    assert!(h.has_hpa() && h.has_dco());
    // 4096-byte logical sectors: 2048 words, valid by word 106 bit 12.
    set_word(&mut id, 106, 0x1000);
    set_word(&mut id, 117, 2048);
    assert!(sector_size_fits(&id));
    let h = detect_hidden_ata(409_600, &id, None, None);
    assert_eq!((h.sector_size, h.current_sectors), (4096, 100));
    set_word(&mut id, 118, 0x8000);
    assert!(!sector_size_fits(&id));
}

#[test]
fn hidden_sectors_are_revealed_step_by_step() {
    let hidden = HiddenAreas {
        current_sectors: 0,
        native_sectors: 100,
        real_sectors: 150,
        sector_size: 512,
    };
    let (stage, a) = reveal_hidden_ata(RevealAta::Measuring, RevealEvent::Measured(hidden));
    match a {
        RevealAction::Issue(r) => assert_eq!((r.cdb[4], r.cdb[14]), (0xC0, 0xB1)),
        _ => panic!("the overlay is removed first"),
    }
    // A refused restore is passed over.
    let (stage, a) = reveal_hidden_ata(stage, RevealEvent::Failed(FirmwareError::DeviceStatus(1)));
    match a {
        RevealAction::IssueLba48(r) => assert_eq!(r.cdb[14], 0x27),
        _ => panic!("then the native maximum is read"),
    }
    let (stage, a) = reveal_hidden_ata(stage, RevealEvent::Sectors(150));
    match a {
        RevealAction::IssueLba48(r) => assert_eq!((r.cdb[14], r.cdb[8]), (0x37, 149)),
        _ => panic!("and set"),
    }
    let (stage, a) = reveal_hidden_ata(stage, RevealEvent::Sectors(150));
    assert!(matches!(a, RevealAction::Measure));
    let after = HiddenAreas::none(150, 512);
    let (stage, a) = reveal_hidden_ata(stage, RevealEvent::Measured(after));
    assert_eq!(stage, RevealAta::Ended);
    match a {
        RevealAction::Revealed(h) => assert_eq!(h.full_bytes(), 150 * 512),
        _ => panic!("the new capacity is reported"),
    }
    let (stage, a) = reveal_hidden_ata(
        RevealAta::ReadingNative,
        RevealEvent::Failed(FirmwareError::Unsupported),
    );
    assert_eq!(stage, RevealAta::Ended);
    assert!(matches!(a, RevealAction::Fail(FirmwareError::Unsupported)));
    let (_, a) = reveal_hidden_ata(
        RevealAta::Measuring,
        RevealEvent::Measured(HiddenAreas::none(5, 512)),
    );
    assert!(matches!(a, RevealAction::IssueLba48(_)), "no overlay, no restore");
}

#[test]
fn nvme_commands() {
    let id = identify_controller();
    assert_eq!((id.cmd.opcode, id.cmd.cdw10, id.cmd.data_len, id.data.len()), (6, 1, 4096, 4096));
    let f = nvme_format(true);
    assert_eq!((f.cmd.opcode, f.cmd.cdw10, f.cmd.nsid), (0x80, 2 << 9, 0xffff_ffff));
    assert_eq!(nvme_format(false).cmd.cdw10, 1 << 9);
    assert_eq!(f.cmd.timeout_ms, 600_000);
    assert_eq!(nvme_sanitize(false).cmd.cdw10, 2);
    assert_eq!(nvme_sanitize(true).cmd.cdw10, 4);
    assert_eq!(sanitize_log().cmd.cdw10, 0x81 | (127 << 16));
    let s = nvme_security(true, 1, 0x1234, vec![9; 8]);
    assert_eq!((s.cmd.opcode, s.cmd.cdw10, s.cmd.cdw11), (0x81, 0x0112_3400, 8));
    assert_eq!(nvme_security(false, 1, 1, vec![0]).cmd.opcode, 0x82);
    let mut data = vec![0u8; 4096];
    assert!(detect_nvme(&data).nvme_format_user && !detect_nvme(&data).nvme_format_crypto);
    data[524] = 4;
    data[328] = 1;
    let s = detect_nvme(&data);
    assert!(s.nvme_format_crypto && s.nvme_sanitize_crypto && !s.nvme_sanitize_block);
    data[328] = 2;
    assert!(detect_nvme(&data).nvme_sanitize_block);
    let bad = Reply::Completed { status: 2, sense: Vec::new(), data: Vec::new() };
    assert!(matches!(nvme_result(bad), Err(FirmwareError::DeviceStatus(2))));
    let mut log = vec![0u8; 512];
    assert_eq!(sanitize_status(&log), SanitizeStatus::Finished);
    log[2] = 0x0a;
    assert_eq!(sanitize_status(&log), SanitizeStatus::InProgress);
    log[2] = 0x09;
    assert_eq!(sanitize_status(&log), SanitizeStatus::Finished);
    log[2] = 3;
    assert_eq!(sanitize_status(&log), SanitizeStatus::Failed(3));
}

/// Discovery data with these descriptors: code and body.
fn discovery(features: &[(u16, Vec<u8>)]) -> Vec<u8> {
    let mut d = vec![0u8; 512];
    let mut off: usize = 48;
    for (code, body) in features {
        d[off] = (code >> 8) as u8;
        d[off + 1] = (code & 0xff) as u8;
        d[off + 3] = body.len() as u8;
        d[off + 4..off + 4 + body.len()].copy_from_slice(body);
        off += 4 + body.len();
    }
    let len = (off - 4) as u32;
    d[..4].copy_from_slice(&len.to_be_bytes());
    d
}

#[test]
fn tcg_discovery() {
    let body = |a: u8, b: u8| {
        let mut v = vec![0u8; 16];
        v[0] = a;
        v[1] = b;
        v
    };
    let none = discovery(&[(0x0001, body(1, 1)), (0x0002, body(2, 2))]);
    assert_eq!(discover_comid(&none), None);
    assert!(!detect_opal(&none));
    let opal = discovery(&[(0x0001, body(1, 1)), (0x0203, body(0x07, 0xfe))]);
    assert_eq!(discover_comid(&opal), Some(0x07fe));
    assert!(detect_opal(&opal));
    // The last class counts.
    let two = discovery(&[(0x0200, body(1, 2)), (0x0304, body(3, 4))]);
    assert_eq!(discover_comid(&two), Some(0x0304));
    // A descriptor without a body ends the list.
    let cut = discovery(&[(0x0001, Vec::new()), (0x0203, body(7, 7))]);
    assert_eq!(discover_comid(&cut), None);
    // A length beyond the data is cut down to it.
    let mut long = opal.clone();
    long[0] = 0xff;
    assert_eq!(discover_comid(&long), Some(0x07fe));
    // Nothing behind the announced length is read.
    let mut short = opal;
    short[..4].copy_from_slice(&40u32.to_be_bytes());
    assert_eq!(discover_comid(&short), None);
}

#[test]
fn tcg_tokens() {
    assert_eq!(token_uint(5), vec![5]);
    assert_eq!(token_uint(63), vec![63]);
    assert_eq!(token_uint(64), vec![0x91, 64]);
    assert_eq!(token_uint(0x6462_616e), vec![0x94, 0x64, 0x62, 0x61, 0x6e]);
    assert_eq!(token_uint(u64::MAX), [vec![0x98], vec![0xff; 8]].concat());
    assert_eq!(token_blob(&[1, 2, 3]), vec![0xa3, 1, 2, 3]);
    assert_eq!(token_blob(&[]), vec![0xa0]);
    assert_eq!(token_blob(&[9; 16])[..3], [0xd0, 0, 16]);
    let blob = [4u8, 5, 6, 7];
    assert_eq!(extract_first_bytes_token(&token_blob(&blob)).unwrap(), blob);
    assert_eq!(
        extract_first_bytes_token(&[0xf8, 0xa0, 0xb2, 1, 2, 0xa1, 9]).unwrap(),
        vec![1, 2]
    );
    assert_eq!(extract_first_bytes_token(&[0xa5, 1, 2]), None);
    assert_eq!(extract_first_bytes_token(&[0; 64]), None);
}

#[test]
fn tcg_framing() {
    let session = TcgSession::open(0x07fe);
    let payload = [1u8, 2, 3];
    let tx = session.frame(&payload);
    assert_eq!(tx.len(), 512);
    assert_eq!(tx[4..6], [0x07, 0xfe]);
    // ComPacket header 20, Packet header 24, SubPacket header 8, payload 3, pad 1.
    assert_eq!(tx[16..20], 36u32.to_be_bytes());
    assert_eq!(tx[24..28], 0x6462_616eu32.to_be_bytes());
    assert_eq!(tx[40..44], 12u32.to_be_bytes());
    assert_eq!(tx[50..52], [0, 3]);
    assert_eq!(tx[52..56], [1, 2, 3, 0]);
    assert!(tx[56..].iter().all(|&b| b == 0));
    assert_eq!(session.frame(&[0xff; 461]).len(), 1024);
    let start = start_session_call(0x6462_616e);
    assert_eq!(start[..2], [0xf8, 0xa8]);
    assert_eq!(start.len(), 1 + 9 + 9 + 1 + 5 + 9 + 6);
    assert_eq!(get_msid_call().len(), 1 + 9 + 9 + 6);
    let revert = revert_call(&[0xAB, 0xCD]);
    assert_eq!(revert[29..32], [0xa2, 0xAB, 0xCD]);
    assert_eq!(revert[32..], [0xf1, 0xf9, 0, 0, 0]);
}

#[test]
fn tcg_transport() {
    let r = scsi_security(true, 1, 0x07fe, vec![0; 512]);
    assert_eq!(r.cdb, vec![0xB5, 1, 0x07, 0xfe, 0, 0, 0, 0, 2, 0, 0, 0]);
    assert_eq!(r.direction.code(), 2);
    let r = scsi_security(false, 1, 1, vec![0; 2048]);
    assert_eq!(r.cdb[0], 0xA2);
    assert!(matches!(sec_recv(Bus::Nvme, 1, 512), Request::Nvme(_)));
    assert!(matches!(sec_send(Bus::Sata, 1, vec![1]), Request::Sg(_)));
    let busy = || Reply::Completed { status: 2, sense: Vec::new(), data: Vec::new() };
    assert!(matches!(
        security_result(Bus::Sata, busy()),
        Err(FirmwareError::DeviceStatus(2))
    ));
    assert_eq!(
        security_result(Bus::Sata, Reply::Refused("E".to_string())).unwrap_err().message(),
        "device I/O error: SG_IO SECURITY PROTOCOL: E"
    );
    assert_eq!(
        security_result(Bus::Nvme, Reply::Refused("E".to_string())).unwrap_err().message(),
        "device I/O error: NVME_IOCTL_ADMIN_CMD: E"
    );
}

fn start(d: &Disk, m: FirmwareMethod) -> (EraseJob, EraseAction) {
    let mut job = spawn_firmware(d, m, &token()).unwrap();
    let first = job.begin();
    (job, first)
}

/// Runs the erase of a simulated disk on `data`.
fn simulate(d: &Disk, m: FirmwareMethod, data: &mut [u8], cancel: bool) -> EraseJob {
    let (mut job, mut action) = start(d, m);
    let mut at: usize = 0;
    loop {
        match action {
            EraseAction::OpenForWrite => at = 0,
            EraseAction::WriteZeros { len } => {
                data[at..at + len].fill(0);
                at += len;
            }
            EraseAction::Pace { .. } | EraseAction::Sync => {}
            EraseAction::Stop => return job,
            _ => panic!("a simulated disk is sent no command"),
        }
        action = job.step(EraseEvent::Done, cancel);
    }
}

const CLOCK: JobClock = JobClock { started_unix: 1, finished_unix: 2, duration_ns: 3 };

#[test]
fn simulated_erase_zeroes_backing_file() {
    let mut d = disk(Bus::Demo, 4096);
    d.throttle_bps = Some(64 << 20);
    let mut data = vec![0xABu8; 4096];
    let mut job = simulate(&d, FirmwareMethod::NvmeFormat { crypto: true }, &mut data, false);
    let snap = job.progress().snapshot();
    assert_eq!(snap.work_done, snap.work_total, "progress should reach 100%");
    assert!(data.iter().all(|&b| b == 0), "file must be zeroed");
    let report = job.finish(&d, CLOCK);
    assert_eq!(report.status, JobStatus::Success);
    assert!(report.firmware);
    assert_eq!(report.method_id, "nvme-format-crypto");
    assert_eq!(report.passes_completed, 1);
    // What only an overwrite counts is zero.
    assert_eq!((report.rounds, report.pass_count), (0, 0));
    assert_eq!((report.bytes_written, report.bytes_verified), (0, 0));
    assert_eq!(job.progress().snapshot().phase, Phase::Done);
}

#[test]
fn simulated_erase_honors_cancel() {
    let mut d = disk(Bus::Demo, 8 << 20);
    d.throttle_bps = Some(1 << 20);
    let mut data = vec![0xABu8; 8 << 20];
    let mut job = simulate(&d, FirmwareMethod::NvmeFormat { crypto: false }, &mut data, true);
    assert!(matches!(
        job.outcome(),
        EraseOutcome::Stopped(FirmwareError::Cancelled)
    ));
    assert!(data.iter().all(|&b| b == 0xAB));
    let report = job.finish(&d, CLOCK);
    assert_eq!(report.status, JobStatus::Cancelled);
    assert_eq!(report.error, None);
}

#[test]
fn opal_revert_is_offered_and_simulated() {
    let mut d = disk(Bus::Nvme, 4096);
    d.throttle_bps = Some(64 << 20);
    assert!(detect_support(&d, None, None).supports(FirmwareMethod::TcgRevert));
    let mut data = vec![0xCDu8; 4096];
    simulate(&d, FirmwareMethod::TcgRevert, &mut data, false);
    assert!(data.iter().all(|&b| b == 0));
}

#[test]
fn simulated_erase_leaves_what_is_hidden() {
    let d = disk(Bus::Sata, (1 << 20) + 10);
    let mut data = vec![1u8; 3 << 20];
    let job = simulate(&d, FirmwareMethod::AtaSecureErase { enhanced: false }, &mut data, false);
    assert!(matches!(job.outcome(), EraseOutcome::Succeeded));
    assert!(data[..(1 << 20) + 10].iter().all(|&b| b == 0));
    assert!(data[(1 << 20) + 10..].iter().all(|&b| b == 1));
}

#[test]
fn interrupted_and_failed_simulations() {
    let d = disk(Bus::Demo, 100);
    let m = FirmwareMethod::NvmeFormat { crypto: false };
    let (mut job, _) = start(&d, m);
    job.step(EraseEvent::Done, false);
    let a = job.step(EraseEvent::Done, false);
    // Six times the default rate of 64 MiB/s.
    assert!(matches!(a, EraseAction::Pace { done: 100, bps: 402_653_184 }));
    assert!(matches!(job.step(EraseEvent::Interrupted, true), EraseAction::Stop));
    assert!(matches!(job.outcome(), EraseOutcome::Stopped(FirmwareError::Cancelled)));
    let (mut job, _) = start(&d, m);
    job.step(EraseEvent::Failed("ENOENT".to_string()), false);
    let report = job.finish(&d, CLOCK);
    assert_eq!(report.status, JobStatus::Failed);
    assert_eq!(report.error.as_deref(), Some("device I/O error: ENOENT"));
    assert_eq!(report.passes_completed, 0);
}

fn cdb(a: &EraseAction) -> Vec<u8> {
    match a {
        EraseAction::Issue(Request::Sg(r)) => r.cdb.clone(),
        _ => panic!("a SCSI command was expected"),
    }
}

fn opcode(a: &EraseAction) -> u8 {
    match a {
        EraseAction::Issue(Request::Nvme(r)) => r.cmd.opcode,
        _ => panic!("an NVMe command was expected"),
    }
}

#[test]
fn ata_erase_sets_a_password_first() {
    let (set, erase) = ata_secure_erase(true);
    assert_eq!(set.data[2..6], *b"dban");
    assert_eq!(erase.cdb[4], 0x02);
    let d = physical(Bus::Sata, 1000);
    let (mut job, a) = start(&d, FirmwareMethod::AtaSecureErase { enhanced: true });
    assert!(job.progress().snapshot().indeterminate);
    assert_eq!(cdb(&a)[14], 0xF1);
    let a = job.step(EraseEvent::Replied(done(vec![0; 512])), false);
    assert_eq!((cdb(&a)[4], cdb(&a)[14]), (0x02, 0xF4));
    let a = job.step(EraseEvent::Replied(done(vec![0; 512])), false);
    assert!(matches!(a, EraseAction::Stop));
    assert!(matches!(job.outcome(), EraseOutcome::Succeeded));
    let (mut job, _) = start(&d, FirmwareMethod::AtaSecureErase { enhanced: false });
    let refused = Reply::Completed { status: 8, sense: vec![0; 32], data: vec![0; 512] };
    job.step(EraseEvent::Replied(refused), false);
    let report = job.finish(&d, CLOCK);
    assert_eq!(
        report.error.as_deref(),
        Some("drive reported command failure (status 0x08)")
    );
}

#[test]
fn sanitize_is_polled_until_it_ends() {
    let d = physical(Bus::Nvme, 1000);
    let (mut job, a) = start(&d, FirmwareMethod::NvmeSanitize { crypto: false });
    assert_eq!(opcode(&a), 0x84);
    let a = job.step(EraseEvent::Replied(done(Vec::new())), false);
    assert_eq!(opcode(&a), 0x02);
    let mut log = vec![0u8; 512];
    log[2] = 2;
    let a = job.step(EraseEvent::Replied(done(log.clone())), false);
    assert!(matches!(a, EraseAction::Wait { ms: 500 }));
    let a = job.step(EraseEvent::Done, false);
    assert_eq!(opcode(&a), 0x02);
    log[2] = 1;
    job.step(EraseEvent::Replied(done(log.clone())), false);
    assert!(matches!(job.outcome(), EraseOutcome::Succeeded));

    let (mut job, _) = start(&d, FirmwareMethod::NvmeSanitize { crypto: true });
    job.step(EraseEvent::Replied(done(Vec::new())), true);
    assert!(matches!(job.outcome(), EraseOutcome::Stopped(FirmwareError::Cancelled)));

    let (mut job, _) = start(&d, FirmwareMethod::NvmeSanitize { crypto: true });
    job.step(EraseEvent::Replied(done(Vec::new())), false);
    log[2] = 3;
    job.step(EraseEvent::Replied(done(log)), false);
    assert!(matches!(
        job.outcome(),
        EraseOutcome::Stopped(FirmwareError::DeviceStatus(3))
    ));

    let (mut job, a) = start(&d, FirmwareMethod::NvmeFormat { crypto: false });
    assert_eq!(opcode(&a), 0x80);
    job.step(EraseEvent::Replied(done(Vec::new())), false);
    assert!(matches!(job.outcome(), EraseOutcome::Succeeded));
}

#[test]
fn revert_walks_through_its_session() {
    let d = physical(Bus::Sata, 1000);
    let (mut job, a) = start(&d, FirmwareMethod::TcgRevert);
    assert_eq!(cdb(&a)[..4], [0xA2, 1, 0, 1]);
    let found = discovery(&[(0x0203, vec![0x07, 0xfe, 0, 0])]);
    let a = job.step(EraseEvent::Replied(done(found)), false);
    assert_eq!(cdb(&a)[..4], [0xB5, 1, 0x07, 0xfe]);
    let a = job.step(EraseEvent::Replied(done(Vec::new())), false);
    assert_eq!(cdb(&a)[..4], [0xA2, 1, 0x07, 0xfe]);
    let a = job.step(EraseEvent::Replied(done(vec![0; 2048])), false);
    assert_eq!(cdb(&a)[0], 0xB5);
    job.step(EraseEvent::Replied(done(Vec::new())), false);
    let mut resp = vec![0u8; 2048];
    resp[100..103].copy_from_slice(&[0xa2, 0x4D, 0x53]);
    let a = job.step(EraseEvent::Replied(done(resp)), false);
    match &a {
        EraseAction::Issue(Request::Sg(r)) => {
            let call = TcgSession::open(0x07fe).frame(&revert_call(&[0x4D, 0x53]));
            assert_eq!(r.data, call);
        }
        _ => panic!("the revert is sent"),
    }
    job.step(EraseEvent::Replied(done(Vec::new())), false);
    job.step(EraseEvent::Replied(done(vec![0; 2048])), false);
    assert!(matches!(job.outcome(), EraseOutcome::Succeeded));

    let (mut job, _) = start(&d, FirmwareMethod::TcgRevert);
    job.step(EraseEvent::Replied(done(vec![0; 512])), false);
    assert!(matches!(
        job.outcome(),
        EraseOutcome::Stopped(FirmwareError::Unsupported)
    ));
}

#[test]
fn demo_disks_enumerate() {
    let p = DemoProvider::new("/tmp/dban-demo".to_string());
    let disks = p.disks();
    assert_eq!(disks.len(), 5);
    assert!(p.is_simulation());
    // Exactly one disk simulates the locked boot medium.
    assert_eq!(disks.iter().filter(|d| d.0.is_locked()).count(), 1);
    // Backing files are at least the advertised size (sda's file is larger to
    // simulate a hidden HPA).
    for (d, len) in &disks {
        assert!(*len >= d.size_bytes);
        assert!(d.throttle_bps.is_some());
        assert_eq!(d.path, format!("{}/{}.img", p.dir(), d.name));
    }
    // sda advertises 192 MiB but its 256 MiB backing file hides 64 MiB, which
    // detect_hidden_areas should surface.
    let (sda, len) = disks.iter().find(|d| d.0.name == "sda").unwrap();
    let hidden = detect_hidden_areas(sda, Some(*len), None);
    assert!(hidden.has_hpa(), "sda should report a hidden HPA");
    assert_eq!(hidden.hidden_bytes(), 64 * 1024 * 1024);
    // The other disks have nothing hidden.
    let (nvme, len) = disks.iter().find(|d| d.0.name == "nvme0n1").unwrap();
    assert!(!detect_hidden_areas(nvme, Some(*len), None).any());
    assert_eq!(DemoProvider::new("/d/".to_string()).disks()[0].0.path, "/d/sda.img");
}
