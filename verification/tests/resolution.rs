use std::time::Duration;

use drive_serial::ioctl_operations::{ControlEvent, ControlRequest, OpenRequest};
use drive_serial::session::{DriveSession, SessionAction, SessionEvent, SessionStage};
use drive_serial::structs::MAX_IDE_DRIVES;
use drive_serial::{physical_drive_path, Attempt, Finding, HardDriveSerial, Strategy};

/// How a simulated device answers one control request.
#[derive(Clone)]
enum Answer {
    /// The request completes at once with this reply.
    Now(Vec<u8>),
    /// The request is pending, and the wait ends with this status and reply.
    Later(u32, Vec<u8>),
    /// The request fails with this error code.
    Fails(u32),
}

/// A simulated device: which handles it grants, and how it answers.
#[derive(Clone)]
struct Device {
    admin: bool,
    smart: bool,
    zero: bool,
    version: Answer,
    identify: Answer,
    smart_identify: Answer,
    property: Answer,
    geometry: Answer,
    last_error: u32,
}

impl Device {
    /// No hardware: no handle can be opened.
    fn absent() -> Device {
        Device {
            admin: false,
            smart: false,
            zero: false,
            version: Answer::Fails(1),
            identify: Answer::Fails(1),
            smart_identify: Answer::Fails(1),
            property: Answer::Fails(1),
            geometry: Answer::Fails(1),
            last_error: 1,
        }
    }
}

/// What the caller of a session did, in order.
#[derive(Debug, PartialEq, Eq, Clone)]
enum Did {
    Open(String, u32, u32),
    Control(u32),
    Wait,
    LastError,
    Close,
}

/// Identify data whose serial number field holds `serial`, padded with spaces.
fn identify_data(serial: &[u8]) -> Vec<u8> {
    let mut field = [b' '; 20];
    field[..serial.len()].copy_from_slice(serial);
    let mut data = vec![0u8; 512];
    for k in 0..10 {
        data[20 + 2 * k] = field[2 * k + 1];
        data[20 + 2 * k + 1] = field[2 * k];
    }
    data
}

fn version_reply(device_map: u8) -> Vec<u8> {
    let mut out = vec![0u8; 24];
    out[3] = device_map;
    out
}

/// The reply to either identify request: the data stands where the result
/// record of the elevated-access strategy has it.
fn admin_identify_reply(serial: &[u8]) -> Vec<u8> {
    let mut out = vec![0u8; 1043];
    out[19..531].copy_from_slice(&identify_data(serial));
    out
}

fn smart_identify_reply(serial: &[u8]) -> Vec<u8> {
    let mut out = vec![0u8; 1040];
    out[13..525].copy_from_slice(&identify_data(serial));
    out
}

fn property_reply(offset: u32, field: &[u8]) -> Vec<u8> {
    let mut out = vec![0u8; 10000];
    out[24..28].copy_from_slice(&offset.to_le_bytes());
    let at = offset as usize;
    out[at..at + field.len()].copy_from_slice(field);
    out
}

/// Performs the actions of a session against a simulated device.
fn read_drive(b_drive_num: u8, device: &Device, log: &mut Vec<Did>) -> HardDriveSerial {
    let (mut session, mut action) = DriveSession::begin(b_drive_num);
    let mut waiting: Option<(u32, Vec<u8>)> = None;
    let mut through_smart = false;
    let mut steps = 0;
    loop {
        steps += 1;
        assert!(steps < 100, "the session does not end");
        let event = match action {
            SessionAction::Open(OpenRequest { path, desired_access, share_mode, .. }) => {
                let granted = if desired_access == 0 {
                    device.zero
                } else if share_mode == 7 {
                    device.smart
                } else {
                    device.admin
                };
                through_smart = share_mode == 7;
                log.push(Did::Open(path, desired_access, share_mode));
                if granted {
                    SessionEvent::Opened
                } else {
                    SessionEvent::Denied
                }
            }
            SessionAction::Control(ControlRequest { control_code, output_size, .. }) => {
                log.push(Did::Control(control_code));
                let answer = match control_code {
                    0x0007_4080 => &device.version,
                    0x0007_c088 if through_smart => &device.smart_identify,
                    0x0007_c088 => &device.identify,
                    0x002d_1400 => &device.property,
                    _ => &device.geometry,
                };
                match answer {
                    Answer::Now(output) => {
                        assert!(output.len() <= output_size as usize);
                        SessionEvent::Control(ControlEvent::Returned { output: output.clone() })
                    }
                    Answer::Later(status, output) => {
                        waiting = Some((*status, output.clone()));
                        SessionEvent::Control(ControlEvent::Failed { error_code: 997 })
                    }
                    Answer::Fails(code) => {
                        SessionEvent::Control(ControlEvent::Failed { error_code: *code })
                    }
                }
            }
            SessionAction::AwaitCompletion => {
                log.push(Did::Wait);
                let (status, output) = waiting.take().expect("nothing is pending");
                SessionEvent::Control(ControlEvent::WaitEnded { status, output })
            }
            SessionAction::QueryLastError => {
                log.push(Did::LastError);
                SessionEvent::LastError { error_code: device.last_error }
            }
            SessionAction::Close => {
                log.push(Did::Close);
                SessionEvent::Closed { elapsed: Duration::from_millis(3) }
            }
            SessionAction::Done => break,
        };
        action = session.step(event);
    }
    assert!(session.is_done());
    session.into_record()
}

/// Resolves the serial numbers of a set of simulated devices, one for each
/// index from zero on; the indices behind them hold no hardware.
fn resolve(engine: &mut HardDriveSerial, devices: &[Device]) -> Result<Vec<String>, Vec<String>> {
    let mut log = Vec::new();
    let drives: Vec<HardDriveSerial> = (0..MAX_IDE_DRIVES)
        .map(|i| {
            let device = devices.get(i).cloned().unwrap_or_else(Device::absent);
            read_drive(i as u8, &device, &mut log)
        })
        .collect();
    engine.get_serial_numbers(drives)
}

/// A device that shows a unit at each index of its device map.
fn admin_device(serial: &[u8]) -> Device {
    Device {
        admin: true,
        version: Answer::Now(version_reply(0xFF)),
        identify: Answer::Now(admin_identify_reply(serial)),
        ..Device::absent()
    }
}

fn zero_device(offset: u32, field: &[u8]) -> Device {
    Device { zero: true, property: Answer::Now(property_reply(offset, field)), ..Device::absent() }
}

fn opens(drive: u8) -> [Did; 3] {
    let path = format!("\\\\.\\PhysicalDrive{}", drive);
    [
        Did::Open(path.clone(), 0xC000_0000, 3),
        Did::Open(path.clone(), 0xC000_0000, 7),
        Did::Open(path, 0, 3),
    ]
}

#[test]
fn drive_paths_name_the_physical_drive() {
    assert_eq!(physical_drive_path(0), "\\\\.\\PhysicalDrive0");
    assert_eq!(physical_drive_path(15), "\\\\.\\PhysicalDrive15");
    assert_eq!(physical_drive_path(255), "\\\\.\\PhysicalDrive255");
}

#[test]
fn new_resolution_is_empty() {
    let hd = HardDriveSerial::new();
    assert!(hd.serial_numbers().is_empty());
    assert!(hd.errors().is_empty());
    assert!(hd.skips().is_empty());
    assert!(hd.timings().is_empty());
}

#[test]
fn admin_device_at_index_zero_is_resolved() {
    let mut log = Vec::new();
    let record = read_drive(0, &admin_device(b"WD-WCC1234567"), &mut log);
    assert_eq!(record.serial_numbers(), &vec!["WD-WCC1234567".to_string()]);
    assert!(record.errors().is_empty());
    assert_eq!(
        record.timings(),
        &vec![(0usize, "hd0Trd#A".to_string(), Duration::from_millis(3))]
    );
    let [admin, smart, zero] = opens(0);
    assert_eq!(
        log,
        vec![
            admin,
            Did::Control(0x0007_4080),
            Did::Control(0x0007_c088),
            Did::Close,
            smart,
            zero
        ]
    );

    let mut engine = HardDriveSerial::new();
    let result = resolve(&mut engine, &[admin_device(b"WD-WCC1234567")]);
    assert_eq!(result, Ok(vec!["WD-WCC1234567".to_string()]));
    assert!(engine.errors().is_empty());
}

#[test]
fn zero_rights_device_at_index_one_is_resolved() {
    let device = zero_device(64, b"3132333441424344\0");
    let mut log = Vec::new();
    let record = read_drive(1, &device, &mut log);
    assert_eq!(record.serial_numbers(), &vec!["1234ABCD".to_string()]);
    assert!(record.errors().is_empty());
    assert_eq!(
        record.skips(),
        &vec![
            "Drive 1: No access with admin rights. Skipping.".to_string(),
            "Drive 1: No access using SMART. Skipping.".to_string(),
        ]
    );
    assert_eq!(
        record.timings(),
        &vec![(1usize, "hd1Trd#Z".to_string(), Duration::from_millis(3))]
    );
    let [admin, smart, zero] = opens(1);
    assert_eq!(log, vec![admin, smart, zero, Did::Control(0x002d_1400), Did::Close]);

    let mut engine = HardDriveSerial::new();
    let result = resolve(&mut engine, &[Device::absent(), device]);
    assert_eq!(result, Ok(vec!["1234ABCD".to_string()]));
    assert!(engine.errors().is_empty());
}

#[test]
fn absent_device_contributes_nothing_and_takes_no_success_away() {
    // Not even the zero-rights query or the geometry probes answer.
    let silent = Device { zero: true, ..Device::absent() };
    let mut log = Vec::new();
    let record = read_drive(2, &silent, &mut log);
    assert!(record.serial_numbers().is_empty());
    assert!(record.errors().is_empty());
    let [admin, smart, zero] = opens(2);
    assert_eq!(
        log,
        vec![
            admin,
            smart,
            zero,
            Did::Control(0x002d_1400),
            Did::Control(0x0007_00a0),
            Did::Control(0x0007_0000),
            Did::Close
        ]
    );

    let mut log = Vec::new();
    let record = read_drive(3, &Device::absent(), &mut log);
    assert!(record.serial_numbers().is_empty());
    assert!(record.errors().is_empty());
    assert!(record.timings().is_empty());
    assert_eq!(log, opens(3).to_vec());

    let mut engine = HardDriveSerial::new();
    let result = resolve(&mut engine, &[silent, admin_device(b"OK-1")]);
    assert_eq!(result, Ok(vec!["OK-1".to_string()]));
    assert!(engine.errors().is_empty());
}

#[test]
fn resolving_twice_gives_the_same_serials() {
    let devices = [
        admin_device(b"WD-WCC1234567"),
        zero_device(64, b"3132333441424344\0"),
        Device::absent(),
        Device {
            smart: true,
            version: Answer::Later(0, version_reply(0)),
            smart_identify: Answer::Later(0, smart_identify_reply(b"S_9")),
            ..Device::absent()
        },
    ];
    let expected =
        vec!["WD-WCC1234567".to_string(), "1234ABCD".to_string(), "S_9".to_string()];
    let first = resolve(&mut HardDriveSerial::new(), &devices);
    let second = resolve(&mut HardDriveSerial::new(), &devices);
    assert_eq!(first, Ok(expected.clone()));
    assert_eq!(second, first);

    // One engine that resolves twice holds each serial number twice: the
    // same set.
    let mut engine = HardDriveSerial::new();
    let once = resolve(&mut engine, &devices).unwrap();
    let twice = resolve(&mut engine, &devices).unwrap();
    assert_eq!(once, expected);
    assert_eq!(twice, [expected.clone(), expected.clone()].concat());
    let mut set_once = once.clone();
    set_once.sort();
    set_once.dedup();
    let mut set_twice = twice.clone();
    set_twice.sort();
    set_twice.dedup();
    assert_eq!(set_once, set_twice);
}

#[test]
fn all_strategies_run_even_after_a_success() {
    let device = Device {
        admin: true,
        smart: true,
        zero: true,
        version: Answer::Now(version_reply(1 << 5)),
        identify: Answer::Now(admin_identify_reply(b"FROM-ADMIN")),
        smart_identify: Answer::Now(smart_identify_reply(b"FROM-SMART")),
        property: Answer::Now(property_reply(50, b"FROM_ZERO\0")),
        ..Device::absent()
    };
    let mut log = Vec::new();
    let record = read_drive(5, &device, &mut log);
    assert_eq!(
        record.serial_numbers(),
        &vec!["FROM-ADMIN".to_string(), "FROM-SMART".to_string(), "FROM_ZERO".to_string()]
    );
    assert!(record.errors().is_empty());
    assert!(record.skips().is_empty());
    let labels: Vec<&str> = record.timings().iter().map(|t| t.1.as_str()).collect();
    assert_eq!(labels, vec!["hd5Trd#A", "hd5Trd#SM", "hd5Trd#Z"]);
    assert!(record.timings().iter().all(|t| t.0 == 5));
    let handles: Vec<&Did> =
        log.iter().filter(|d| matches!(d, Did::Open(..) | Did::Close)).collect();
    let [admin, smart, zero] = opens(5);
    assert_eq!(handles, vec![&admin, &Did::Close, &smart, &Did::Close, &zero, &Did::Close]);
}

#[test]
fn pending_requests_are_awaited() {
    let device = Device {
        admin: true,
        version: Answer::Later(0, version_reply(1)),
        identify: Answer::Later(0, admin_identify_reply(b"LATE-1")),
        ..Device::absent()
    };
    let mut log = Vec::new();
    let record = read_drive(0, &device, &mut log);
    assert_eq!(record.serial_numbers(), &vec!["LATE-1".to_string()]);
    assert_eq!(
        log[..6],
        [
            opens(0)[0].clone(),
            Did::Control(0x0007_4080),
            Did::Wait,
            Did::Control(0x0007_c088),
            Did::Wait,
            Did::Close
        ]
    );
}

#[test]
fn failed_wait_ends_the_strategy() {
    let device = Device {
        admin: true,
        version: Answer::Later(0xFFFF_FFFF, version_reply(1)),
        last_error: 6,
        ..Device::absent()
    };
    let mut log = Vec::new();
    let record = read_drive(4, &device, &mut log);
    assert!(record.serial_numbers().is_empty());
    assert_eq!(
        record.errors(),
        &vec!["Drive 4: Failed to get serial number with admin rights, error code: 6".to_string()]
    );
    assert_eq!(
        log[..5],
        [
            opens(4)[0].clone(),
            Did::Control(0x0007_4080),
            Did::Wait,
            Did::LastError,
            Did::Close
        ]
    );
}

#[test]
fn unsupported_admin_method_is_a_skip() {
    let device =
        Device { admin: true, version: Answer::Fails(50), last_error: 50, ..Device::absent() };
    let mut log = Vec::new();
    let record = read_drive(7, &device, &mut log);
    assert!(record.serial_numbers().is_empty());
    assert!(record.errors().is_empty());
    assert_eq!(
        record.skips(),
        &vec![
            "Drive 7: Admin rights method not supported. Skipping.".to_string(),
            "Drive 7: No access using SMART. Skipping.".to_string(),
            "Drive 7: No access with zero rights. Skipping.".to_string(),
        ]
    );
    assert_eq!(record.timings().len(), 1);
}

#[test]
fn failed_admin_method_is_an_error() {
    let device =
        Device { admin: true, version: Answer::Fails(5), last_error: 5, ..Device::absent() };
    let mut log = Vec::new();
    let record = read_drive(12, &device, &mut log);
    assert_eq!(
        record.errors(),
        &vec!["Drive 12: Failed to get serial number with admin rights, error code: 5".to_string()]
    );
    let mut engine = HardDriveSerial::new();
    let result = resolve(&mut engine, &[device]);
    let messages = result.unwrap_err();
    assert_eq!(
        messages[0],
        "Drive 0: Failed to get serial number with admin rights, error code: 5"
    );
    // The errors come first, then the skips: two for this drive and three for
    // each of the others.
    assert_eq!(messages.len(), 1 + 2 + 3 * 15);
    assert_eq!(messages[1], "Drive 0: No access using SMART. Skipping.");
    assert_eq!(messages[2], "Drive 0: No access with zero rights. Skipping.");
    assert_eq!(messages[3], "Drive 1: No access with admin rights. Skipping.");
    assert_eq!(messages[47], "Drive 15: No access with zero rights. Skipping.");
}

#[test]
fn smart_and_zero_failures_are_no_errors() {
    let device = Device {
        smart: true,
        zero: true,
        version: Answer::Fails(1),
        property: Answer::Fails(1),
        ..Device::absent()
    };
    let mut log = Vec::new();
    let record = read_drive(0, &device, &mut log);
    assert!(record.serial_numbers().is_empty());
    assert!(record.errors().is_empty());
    assert_eq!(record.skips(), &vec!["Drive 0: No access with admin rights. Skipping.".to_string()]);
    let labels: Vec<&str> = record.timings().iter().map(|t| t.1.as_str()).collect();
    assert_eq!(labels, vec!["hd0Trd#SM", "hd0Trd#Z"]);
    assert!(!log.contains(&Did::LastError));
}

#[test]
fn empty_zero_rights_serial_is_no_data() {
    let mut log = Vec::new();
    let record = read_drive(9, &zero_device(0, b""), &mut log);
    assert!(record.serial_numbers().is_empty());
    assert!(record.errors().is_empty());
    assert_eq!(record.skips().len(), 2);
    assert_eq!(
        log[2..],
        [
            opens(9)[2].clone(),
            Did::Control(0x002d_1400),
            Did::Control(0x0007_00a0),
            Did::Control(0x0007_0000),
            Did::Close
        ]
    );
}

#[test]
fn unit_missing_from_device_map_ends_the_admin_strategy() {
    // The map shows the unit of index 1 only; the drive read has index 0.
    let device = Device {
        admin: true,
        version: Answer::Now(version_reply(0x02)),
        identify: Answer::Now(admin_identify_reply(b"NOT-MINE")),
        last_error: 0,
        ..Device::absent()
    };
    let mut log = Vec::new();
    let record = read_drive(0, &device, &mut log);
    assert!(record.serial_numbers().is_empty());
    assert_eq!(
        record.errors(),
        &vec!["Drive 0: Failed to get serial number with admin rights, error code: 0".to_string()]
    );
    assert_eq!(
        log[..4],
        [opens(0)[0].clone(), Did::Control(0x0007_4080), Did::LastError, Did::Close]
    );

    let mut log = Vec::new();
    let record = read_drive(1, &device, &mut log);
    assert_eq!(record.serial_numbers(), &vec!["NOT-MINE".to_string()]);
    assert!(record.errors().is_empty());
}

#[test]
fn invalid_candidates_are_errors_that_name_drive_and_strategy() {
    let mut hd = HardDriveSerial::new();
    let ran = |serial: &str| Attempt::Ran {
        finding: Finding::Candidate { serial: serial.to_string() },
        elapsed: Duration::from_secs(1),
    };
    hd.read_physical_drive_in_nt_with_admin_rights(3, ran("bad serial"));
    hd.read_physical_drive_in_nt_using_smart(4, ran("a.b"));
    hd.read_physical_drive_in_nt_with_zero_rights(5, ran(""));
    hd.read_physical_drive_in_nt_with_zero_rights(6, ran("GOOD_1"));
    assert_eq!(hd.serial_numbers(), &vec!["GOOD_1".to_string()]);
    assert_eq!(
        hd.errors(),
        &vec![
            "Drive 3: Invalid serial number received with admin rights".to_string(),
            "Drive 4: Invalid serial number received using SMART".to_string(),
            "Drive 5: Invalid serial number received with zero rights".to_string(),
        ]
    );
    assert!(hd.skips().is_empty());
    assert_eq!(
        hd.timings(),
        &vec![
            (3usize, "hd3Trd#A".to_string(), Duration::from_secs(1)),
            (4usize, "hd4Trd#SM".to_string(), Duration::from_secs(1)),
            (5usize, "hd5Trd#Z".to_string(), Duration::from_secs(1)),
            (6usize, "hd6Trd#Z".to_string(), Duration::from_secs(1)),
        ]
    );
}

#[test]
fn attempts_without_data_are_recorded_by_strategy() {
    let none = |error_code: u32| Attempt::Ran {
        finding: Finding::NoData { error_code },
        elapsed: Duration::from_millis(1),
    };
    let mut hd = HardDriveSerial::new();
    hd.read_physical_drive_in_nt_with_admin_rights(0, none(50));
    hd.read_physical_drive_in_nt_with_admin_rights(1, none(0));
    hd.read_physical_drive_in_nt_with_admin_rights(2, none(4294967295));
    hd.read_physical_drive_in_nt_using_smart(3, none(5));
    hd.read_physical_drive_in_nt_with_zero_rights(4, none(50));
    hd.read_physical_drive_in_nt_with_admin_rights(10, Attempt::Denied);
    hd.read_physical_drive_in_nt_using_smart(11, Attempt::Denied);
    hd.read_physical_drive_in_nt_with_zero_rights(12, Attempt::Denied);
    assert!(hd.serial_numbers().is_empty());
    assert_eq!(
        hd.errors(),
        &vec![
            "Drive 1: Failed to get serial number with admin rights, error code: 0".to_string(),
            "Drive 2: Failed to get serial number with admin rights, error code: 4294967295"
                .to_string(),
        ]
    );
    assert_eq!(
        hd.skips(),
        &vec![
            "Drive 0: Admin rights method not supported. Skipping.".to_string(),
            "Drive 10: No access with admin rights. Skipping.".to_string(),
            "Drive 11: No access using SMART. Skipping.".to_string(),
            "Drive 12: No access with zero rights. Skipping.".to_string(),
        ]
    );
    assert_eq!(hd.timings().len(), 5);
}

#[test]
fn note_skip_and_time_record_one_thing_each() {
    let mut hd = HardDriveSerial::new();
    hd.note(1, Strategy::Smart, Finding::Candidate { serial: "A1".to_string() });
    assert_eq!(hd.serial_numbers(), &vec!["A1".to_string()]);
    assert!(hd.timings().is_empty());
    hd.skip(2, Strategy::Zero);
    assert_eq!(hd.skips(), &vec!["Drive 2: No access with zero rights. Skipping.".to_string()]);
    hd.time(3, Strategy::Admin, Duration::from_nanos(17));
    assert_eq!(hd.timings(), &vec![(3usize, "hd3Trd#A".to_string(), Duration::from_nanos(17))]);
    assert!(hd.errors().is_empty());
}

#[test]
fn merge_appends_in_order_and_reports_serials_or_messages() {
    let ran = |serial: &str| Attempt::Ran {
        finding: Finding::Candidate { serial: serial.to_string() },
        elapsed: Duration::from_millis(2),
    };
    let mut a = HardDriveSerial::new();
    a.read_physical_drive_in_nt_with_admin_rights(0, ran("A-1"));
    a.read_physical_drive_in_nt_using_smart(0, ran("no good"));
    let mut b = HardDriveSerial::new();
    b.read_physical_drive_in_nt_with_admin_rights(1, Attempt::Denied);
    b.read_physical_drive_in_nt_with_zero_rights(1, ran("B_2"));
    let mut engine = HardDriveSerial::new();
    let result = engine.get_serial_numbers(vec![a, HardDriveSerial::new(), b]);
    assert_eq!(result, Ok(vec!["A-1".to_string(), "B_2".to_string()]));
    assert_eq!(engine.serial_numbers(), &vec!["A-1".to_string(), "B_2".to_string()]);
    assert_eq!(
        engine.errors(),
        &vec!["Drive 0: Invalid serial number received using SMART".to_string()]
    );
    assert_eq!(
        engine.skips(),
        &vec!["Drive 1: No access with admin rights. Skipping.".to_string()]
    );
    let labels: Vec<&str> = engine.timings().iter().map(|t| t.1.as_str()).collect();
    assert_eq!(labels, vec!["hd0Trd#A", "hd0Trd#SM", "hd1Trd#Z"]);

    let mut c = HardDriveSerial::new();
    c.read_physical_drive_in_nt_with_admin_rights(1, Attempt::Denied);
    c.read_physical_drive_in_nt_using_smart(2, ran("?"));
    let mut failed = HardDriveSerial::new();
    assert_eq!(
        failed.get_serial_numbers(vec![c]),
        Err(vec![
            "Drive 2: Invalid serial number received using SMART".to_string(),
            "Drive 1: No access with admin rights. Skipping.".to_string(),
        ])
    );
    assert_eq!(HardDriveSerial::new().get_serial_numbers(vec![]), Err(vec![]));
}

#[test]
fn merge_order_changes_the_order_only() {
    let one = |drive: u8, serial: &str| {
        let mut hd = HardDriveSerial::new();
        hd.read_physical_drive_in_nt_with_admin_rights(
            drive,
            Attempt::Ran {
                finding: Finding::Candidate { serial: serial.to_string() },
                elapsed: Duration::from_millis(2),
            },
        );
        hd
    };
    let forward = HardDriveSerial::new()
        .get_serial_numbers(vec![one(0, "A"), one(1, "B"), one(2, "C")])
        .unwrap();
    let mut backward = HardDriveSerial::new()
        .get_serial_numbers(vec![one(2, "C"), one(1, "B"), one(0, "A")])
        .unwrap();
    assert_eq!(forward, vec!["A", "B", "C"]);
    assert_eq!(backward, vec!["C", "B", "A"]);
    backward.sort();
    assert_eq!(forward, backward);
}

#[test]
fn events_of_another_kind_count_as_failures() {
    // A handle that was not reported as opened counts as denied.
    let (mut session, _) = DriveSession::begin(0);
    let action = session.step(SessionEvent::LastError { error_code: 1 });
    assert!(matches!(action, SessionAction::Open(ref r) if r.share_mode == 7));
    assert_eq!(session.stage(), SessionStage::Opening(Strategy::Smart));

    // A request that is answered by no transport event came to nothing.
    let action = session.step(SessionEvent::Opened);
    assert!(matches!(action, SessionAction::Control(_)));
    let action = session.step(SessionEvent::Opened);
    assert!(matches!(action, SessionAction::Close));
    assert_eq!(session.stage(), SessionStage::Closing(Strategy::Smart));

    // A close that reports no time records none.
    let action = session.step(SessionEvent::Denied);
    assert!(matches!(action, SessionAction::Open(ref r) if r.desired_access == 0));
    let action = session.step(SessionEvent::Denied);
    assert!(matches!(action, SessionAction::Done));
    assert!(session.is_done());
    let action = session.step(SessionEvent::Opened);
    assert!(matches!(action, SessionAction::Done));
    let record = session.into_record();
    assert!(record.timings().is_empty());
    assert!(record.errors().is_empty());
    assert_eq!(record.skips().len(), 2);

    // A question for the last error code that is not answered counts as zero.
    let (mut session, _) = DriveSession::begin(8);
    session.step(SessionEvent::Opened);
    let action = session.step(SessionEvent::Control(ControlEvent::Failed { error_code: 2 }));
    assert!(matches!(action, SessionAction::QueryLastError));
    assert_eq!(session.stage(), SessionStage::AwaitingLastError);
    let action = session.step(SessionEvent::Opened);
    assert!(matches!(action, SessionAction::Close));
    session.step(SessionEvent::Closed { elapsed: Duration::from_millis(1) });
    let record = session.into_record();
    assert_eq!(
        record.errors(),
        &vec!["Drive 8: Failed to get serial number with admin rights, error code: 0".to_string()]
    );
}

#[test]
fn found_serial_is_kept_when_close_reports_no_time() {
    let (mut session, _) = DriveSession::begin(0);
    session.step(SessionEvent::Opened);
    session.step(SessionEvent::Control(ControlEvent::Returned { output: version_reply(1) }));
    let action = session.step(SessionEvent::Control(ControlEvent::Returned {
        output: admin_identify_reply(b"KEEP-ME"),
    }));
    assert!(matches!(action, SessionAction::Close));
    session.step(SessionEvent::Opened);
    let record = session.into_record();
    assert_eq!(record.serial_numbers(), &vec!["KEEP-ME".to_string()]);
    assert!(record.timings().is_empty());
}
