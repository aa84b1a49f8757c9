//! The three access strategies, each as a state machine over the replies of
//! the device-control transport.
//!
//! A strategy never touches a device. It is stepped with what the transport
//! reported of the last control request and answers with what to do next: issue
//! a request, wait for a pending one to complete, or finish with the serial
//! number it found, if any.

use vstd::prelude::*;
use crate::structs::{
    le_u32, le_u32_bytes, zeros, DFP_GET_VERSION, DFP_RECEIVE_DRIVE_DATA, DISK_GEOMETRY_EX_SIZE,
    DISK_GEOMETRY_SIZE, GETVERSIONINPARAMS_SIZE, GETVERSIONOUTPARAMS, GETVERSIONOUTPARAMS_SIZE,
    IDENTIFY_BUFFER_SIZE, IDE_ATA_IDENTIFY, SENDCMDINPARAMS, SENDCMDINPARAMS_SIZE,
    SENDCMDOUTPARAMS, SENDCMDOUTPARAMS_SIZE, STORAGE_DEVICE_DESCRIPTOR,
    STORAGE_DEVICE_DESCRIPTOR_SIZE, STORAGE_PROPERTY_QUERY,
};
use crate::text::{
    ascii_serial_char, ascii_text, is_ascii_serial_char, lemma_padded_text, string_from_buffer,
};
use crate::utils::{
    do_identify, drive_head_select, extract_serial_from_identify_data, field_at, flip_and_code,
    flip_and_code_bytes, heuristic_decode, identify_serial, lemma_content_end_bounds,
    lemma_content_start_bounds, lemma_flip_and_code_ascii, lemma_flip_and_code_len, trim_span,
    ExtractError,
};

verus! {

/// The device type of disk control codes.
pub const IOCTL_DISK_BASE: u32 = 0x0000_0007;

/// The device type of storage control codes.
pub const IOCTL_STORAGE_BASE: u32 = 0x0000_002d;

/// The transfer method that buffers input and output.
pub const METHOD_BUFFERED: u32 = 0;

/// A control code that any handle may issue.
pub const FILE_ANY_ACCESS: u32 = 0;

/// A control code that needs read access.
pub const FILE_READ_ACCESS: u32 = 0x0001;

/// A control code that needs write access.
pub const FILE_WRITE_ACCESS: u32 = 0x0002;

/// The control code that asks the SMART driver for its version.
pub const SMART_GET_VERSION: u32 = 0x0007_4080;

/// The control code that receives drive data through SMART.
pub const SMART_RCV_DRIVE_DATA: u32 = 0x0007_c088;

/// The control code that queries a property of a storage device.
pub const IOCTL_STORAGE_QUERY_PROPERTY: u32 = 0x002d_1400;

/// The control code that asks for the geometry of a disk.
pub const IOCTL_DISK_GET_DRIVE_GEOMETRY: u32 = 0x0007_0000;

/// The control code that asks for the geometry and size of a disk.
pub const IOCTL_DISK_GET_DRIVE_GEOMETRY_EX: u32 = 0x0007_00a0;

/// The property class "device" of a property query.
pub const STORAGE_DEVICE_PROPERTY: u32 = 0;

/// The query type "standard" of a property query.
pub const PROPERTY_STANDARD_QUERY: u32 = 0;

/// The error code of a request that was started and has not completed.
pub const ERROR_IO_PENDING: u32 = 997;

/// The error code of a request that the driver does not support.
pub const ERROR_NOT_SUPPORTED: u32 = 50;

/// The status of a wait that ended because the request completed.
pub const WAIT_OBJECT_0: u32 = 0;

/// The size of the buffer that receives the reply to a property query.
pub const PROPERTY_BUFFER_SIZE: u32 = 10000;

/// The least size of the buffer that the serial number of a property query is
/// decoded into.
pub const SERIAL_BUFFER_SIZE: usize = 1000;

/// Read access to a device.
pub const GENERIC_READ: u32 = 0x8000_0000;

/// Write access to a device.
pub const GENERIC_WRITE: u32 = 0x4000_0000;

/// Others may read the device while the handle is open.
pub const FILE_SHARE_READ: u32 = 0x0000_0001;

/// Others may write the device while the handle is open.
pub const FILE_SHARE_WRITE: u32 = 0x0000_0002;

/// Others may delete the device while the handle is open.
pub const FILE_SHARE_DELETE: u32 = 0x0000_0004;

/// Open the device only if it exists.
pub const OPEN_EXISTING: u32 = 3;

/// Requests on the handle may complete asynchronously.
pub const FILE_FLAG_OVERLAPPED: u32 = 0x4000_0000;

/// A control code from its four parts.
pub open spec fn ctl_code(device_type: u32, function: u32, method: u32, access: u32) -> u32 {
    (device_type << 16) | (access << 14) | (function << 2) | method
}

/// Each control code is made of the parts that the protocol names for it.
pub proof fn lemma_control_codes()
    ensures
        DFP_GET_VERSION == ctl_code(IOCTL_DISK_BASE, 0x0020, METHOD_BUFFERED, FILE_READ_ACCESS),
        SMART_GET_VERSION == ctl_code(IOCTL_DISK_BASE, 0x0020, METHOD_BUFFERED, FILE_READ_ACCESS),
        DFP_RECEIVE_DRIVE_DATA == ctl_code(
            IOCTL_DISK_BASE,
            0x0022,
            METHOD_BUFFERED,
            FILE_READ_ACCESS | FILE_WRITE_ACCESS,
        ),
        SMART_RCV_DRIVE_DATA == ctl_code(
            IOCTL_DISK_BASE,
            0x0022,
            METHOD_BUFFERED,
            FILE_READ_ACCESS | FILE_WRITE_ACCESS,
        ),
        IOCTL_STORAGE_QUERY_PROPERTY == ctl_code(
            IOCTL_STORAGE_BASE,
            0x0500,
            METHOD_BUFFERED,
            FILE_ANY_ACCESS,
        ),
        IOCTL_DISK_GET_DRIVE_GEOMETRY == ctl_code(
            IOCTL_DISK_BASE,
            0x0000,
            METHOD_BUFFERED,
            FILE_ANY_ACCESS,
        ),
        IOCTL_DISK_GET_DRIVE_GEOMETRY_EX == ctl_code(
            IOCTL_DISK_BASE,
            0x0028,
            METHOD_BUFFERED,
            FILE_ANY_ACCESS,
        ),
{
    assert(0x0007_4080u32 == (0x7u32 << 16) | (0x1u32 << 14) | (0x20u32 << 2) | 0u32)
        by (bit_vector);
    assert(0x0007_c088u32 == (0x7u32 << 16) | ((0x1u32 | 0x2u32) << 14) | (0x22u32 << 2) | 0u32)
        by (bit_vector);
    assert(0x002d_1400u32 == (0x2du32 << 16) | (0u32 << 14) | (0x500u32 << 2) | 0u32)
        by (bit_vector);
    assert(0x0007_0000u32 == (0x7u32 << 16) | (0u32 << 14) | (0u32 << 2) | 0u32) by (bit_vector);
    assert(0x0007_00a0u32 == (0x7u32 << 16) | (0u32 << 14) | (0x28u32 << 2) | 0u32)
        by (bit_vector);
}

/// How to open a device: its path and the rights and flags to open it with.
#[derive(Debug)]
pub struct OpenRequest {
    pub path: String,
    pub desired_access: u32,
    pub share_mode: u32,
    pub creation_disposition: u32,
    pub flags_and_attributes: u32,
}

/// How to open the device `drive_name` with full read and write access.
pub fn create_file_with_admin_rights(drive_name: &str) -> (request: OpenRequest)
    ensures
        request.path@ == drive_name@,
        request.desired_access == GENERIC_READ | GENERIC_WRITE,
        request.share_mode == FILE_SHARE_READ | FILE_SHARE_WRITE,
        request.creation_disposition == OPEN_EXISTING,
        request.flags_and_attributes == FILE_FLAG_OVERLAPPED,
{
    OpenRequest {
        path: drive_name.to_owned(),
        desired_access: GENERIC_READ | GENERIC_WRITE,
        share_mode: FILE_SHARE_READ | FILE_SHARE_WRITE,
        creation_disposition: OPEN_EXISTING,
        flags_and_attributes: FILE_FLAG_OVERLAPPED,
    }
}

/// How to open the device `drive_name` with the access that SMART requests
/// need: read and write, shared with readers, writers and deleters.
pub fn create_file_with_smart_rights(drive_name: &str) -> (request: OpenRequest)
    ensures
        request.path@ == drive_name@,
        request.desired_access == GENERIC_READ | GENERIC_WRITE,
        request.share_mode == FILE_SHARE_DELETE | FILE_SHARE_READ | FILE_SHARE_WRITE,
        request.creation_disposition == OPEN_EXISTING,
        request.flags_and_attributes == FILE_FLAG_OVERLAPPED,
{
    OpenRequest {
        path: drive_name.to_owned(),
        desired_access: GENERIC_READ | GENERIC_WRITE,
        share_mode: FILE_SHARE_DELETE | FILE_SHARE_READ | FILE_SHARE_WRITE,
        creation_disposition: OPEN_EXISTING,
        flags_and_attributes: FILE_FLAG_OVERLAPPED,
    }
}

/// How to open the device `drive_name` without any access right, which is
/// enough to query it.
pub fn create_file_with_zero_rights(drive_name: &str) -> (request: OpenRequest)
    ensures
        request.path@ == drive_name@,
        request.desired_access == 0,
        request.share_mode == FILE_SHARE_READ | FILE_SHARE_WRITE,
        request.creation_disposition == OPEN_EXISTING,
        request.flags_and_attributes == FILE_FLAG_OVERLAPPED,
{
    OpenRequest {
        path: drive_name.to_owned(),
        desired_access: 0,
        share_mode: FILE_SHARE_READ | FILE_SHARE_WRITE,
        creation_disposition: OPEN_EXISTING,
        flags_and_attributes: FILE_FLAG_OVERLAPPED,
    }
}

/// A control request: its code, the bytes to send, and the size of the buffer
/// that receives the reply.
#[derive(Debug)]
pub struct ControlRequest {
    pub control_code: u32,
    pub input: Vec<u8>,
    pub output_size: u32,
}

/// What the transport reports to a strategy.
#[derive(Debug)]
pub enum ControlEvent {
    /// The handle is open and no request has been issued on it.
    Ready,
    /// The request completed at once; `output` is the reply buffer.
    Returned { output: Vec<u8> },
    /// The request failed with this error code.
    Failed { error_code: u32 },
    /// The wait for a pending request ended with this status; `output` is the
    /// reply buffer.
    WaitEnded { status: u32, output: Vec<u8> },
}

impl ControlEvent {
    /// Whether the request was started and has yet to complete.
    pub open spec fn is_pending(self) -> bool {
        self matches ControlEvent::Failed { error_code } && error_code == ERROR_IO_PENDING
    }

    /// The reply, where the request has completed.
    pub open spec fn reply(self) -> Option<Seq<u8>> {
        match self {
            ControlEvent::Returned { output } => Some(output@),
            ControlEvent::WaitEnded { status, output } => if status == WAIT_OBJECT_0 {
                Some(output@)
            } else {
                None
            },
            _ => None,
        }
    }
}

/// What a strategy asks for next.
#[derive(Debug)]
pub enum StrategyAction {
    /// Issue this control request and report how it went.
    Issue(ControlRequest),
    /// Wait until the pending request completes and report how the wait ended.
    AwaitCompletion,
    /// The strategy is done, with this serial number or with none.
    Finish(Option<String>),
}

/// What a strategy asks for next, as plain values.
pub enum ActionView {
    Issue { control_code: u32, input: Seq<u8>, output_size: u32 },
    AwaitCompletion,
    Finish { serial: Option<Seq<char>> },
}

impl View for StrategyAction {
    type V = ActionView;

    open spec fn view(&self) -> ActionView {
        match *self {
            StrategyAction::Issue(request) => ActionView::Issue {
                control_code: request.control_code,
                input: request.input@,
                output_size: request.output_size,
            },
            StrategyAction::AwaitCompletion => ActionView::AwaitCompletion,
            StrategyAction::Finish(found) => ActionView::Finish {
                serial: match found {
                    Some(s) => Some(s@),
                    None => None,
                },
            },
        }
    }
}

/// The action that ends a strategy without a serial number.
pub open spec fn finish_empty() -> ActionView {
    ActionView::Finish { serial: None }
}

/// How a control request went, as far as a strategy cares.
pub enum Reply {
    /// It completed with this reply.
    Output(Vec<u8>),
    /// It was started and has yet to complete.
    Pending,
    /// It failed.
    Failure,
}

/// Reads what the transport reported: a request that returned, or whose wait
/// ended at the completion signal, has completed; one that failed as pending
/// is awaited; every other report is a failure.
pub fn classify(event: ControlEvent) -> (r: Reply)
    ensures
        match r {
            Reply::Output(output) => event.reply() == Some(output@),
            Reply::Pending => event.is_pending(),
            Reply::Failure => !event.is_pending() && event.reply() is None,
        },
{
    match event {
        ControlEvent::Ready => Reply::Failure,
        ControlEvent::Returned { output } => Reply::Output(output),
        ControlEvent::Failed { error_code } => if error_code == ERROR_IO_PENDING {
            Reply::Pending
        } else {
            Reply::Failure
        },
        ControlEvent::WaitEnded { status, output } => if status == WAIT_OBJECT_0 {
            Reply::Output(output)
        } else {
            Reply::Failure
        },
    }
}

/// The serial number in identify data, if it holds one.
pub open spec fn found_serial(data: Seq<u8>) -> Option<Seq<char>> {
    match identify_serial(data) {
        Ok(text) => Some(text),
        Err(_) => None,
    }
}

/// Whether a device map shows a unit at the index `b_drive_num`: the bit of
/// that index is set, bit 0 being the lowest. The map has eight bits. A drive
/// of index 8 or above has no bit in it, so that no map shows a unit for it.
pub open spec fn shows_unit(device_map: u8, b_drive_num: u8) -> bool {
    b_drive_num < 8 && (device_map >> b_drive_num) & 1u8 == 1u8
}

/// The empty map shows no unit, the full map shows one at each of the eight
/// indices, and the map with the one bit of an index shows a unit there and
/// nowhere else.
pub proof fn lemma_shows_unit(b_drive_num: u8, other: u8)
    ensures
        !shows_unit(0, b_drive_num),
        shows_unit(0xFF, b_drive_num) == (b_drive_num < 8),
        b_drive_num < 8 ==> shows_unit(1u8 << b_drive_num, b_drive_num),
        b_drive_num < 8 && other != b_drive_num ==> !shows_unit(1u8 << b_drive_num, other),
{
    assert((0u8 >> b_drive_num) & 1u8 == 0u8) by (bit_vector);
    assert(b_drive_num < 8 ==> (0xFFu8 >> b_drive_num) & 1u8 == 1u8) by (bit_vector);
    assert(b_drive_num < 8 ==> ((1u8 << b_drive_num) >> b_drive_num) & 1u8 == 1u8)
        by (bit_vector);
    assert(b_drive_num < 8 && other < 8 && other != b_drive_num ==> ((1u8 << b_drive_num)
        >> other) & 1u8 == 0u8) by (bit_vector);
}

/// Whether `device_map` shows a unit at the index `b_drive_num`.
pub fn unit_present(device_map: u8, b_drive_num: u8) -> (r: bool)
    ensures
        r == shows_unit(device_map, b_drive_num),
{
    b_drive_num < 8 && (device_map >> b_drive_num) & 1u8 == 1u8
}

/// Whether the reply to the feature probe reports a unit at the index
/// `b_drive_num`: it holds a whole version record whose device map shows one
/// there.
pub open spec fn reports_device(reply: Seq<u8>, b_drive_num: u8) -> bool {
    reply.len() >= GETVERSIONOUTPARAMS_SIZE && shows_unit(reply[3], b_drive_num)
}

/// The input of the identify request of the elevated-access strategy: the
/// buffer size, the registers of the identify command with the drive selected
/// by the low bit of its index, the drive number and an empty buffer. The
/// request leaves out the last byte of the record.
pub open spec fn admin_identify_input(b_drive_num: u8) -> Seq<u8> {
    le_u32_bytes(IDENTIFY_BUFFER_SIZE as u32) + seq![
        0u8,
        1u8,
        0u8,
        0u8,
        0u8,
        drive_head_select(b_drive_num),
        IDE_ATA_IDENTIFY,
        0u8,
    ] + seq![b_drive_num] + zeros(IDENTIFY_BUFFER_SIZE as nat) + zeros(2)
}

/// The size of the reply buffer of that request: the result record and the
/// identify data, less one byte.
pub open spec fn admin_identify_output_size() -> u32 {
    (SENDCMDOUTPARAMS_SIZE + IDENTIFY_BUFFER_SIZE - 1) as u32
}

/// The input of the identify request of the SMART strategy: a command record
/// in which only the command code is set.
pub open spec fn smart_identify_input() -> Seq<u8> {
    zeros(4) + seq![0u8, 0u8, 0u8, 0u8, 0u8, 0u8, IDE_ATA_IDENTIFY, 0u8] + zeros(
        (1 + IDENTIFY_BUFFER_SIZE + 3) as nat,
    )
}

/// The size of the reply buffer of that request: the command record and the
/// identify data.
pub open spec fn smart_identify_output_size() -> u32 {
    (SENDCMDINPARAMS_SIZE + IDENTIFY_BUFFER_SIZE) as u32
}

/// The serial number in the reply to the identify request of the
/// elevated-access strategy: that of the data in a whole result record.
pub open spec fn admin_reply_serial(reply: Seq<u8>) -> Option<Seq<char>> {
    if reply.len() >= SENDCMDOUTPARAMS_SIZE {
        found_serial(reply.subrange(19, 531))
    } else {
        None
    }
}

/// The serial number in the reply to the identify request of the SMART
/// strategy: that of the data in a whole command record.
pub open spec fn smart_reply_serial(reply: Seq<u8>) -> Option<Seq<char>> {
    if reply.len() >= SENDCMDINPARAMS_SIZE {
        found_serial(reply.subrange(13, 525))
    } else {
        None
    }
}

/// Where the elevated-access strategy stands.
#[derive(Clone, Copy, Debug, PartialEq, Eq, Structural)]
pub enum AdminStage {
    /// Nothing has been issued.
    Start,
    /// The feature probe is outstanding.
    Probing,
    /// The identify request is outstanding.
    Identifying,
    /// The strategy has finished.
    Finished,
}

/// The step of the elevated-access strategy from `stage` on `event`: the
/// stage that follows, and the action to take.
pub open spec fn admin_step(stage: AdminStage, event: ControlEvent, b_drive_num: u8) -> (
    AdminStage,
    ActionView,
) {
    match stage {
        AdminStage::Start => if event is Ready {
            (
                AdminStage::Probing,
                ActionView::Issue {
                    control_code: DFP_GET_VERSION,
                    input: Seq::empty(),
                    output_size: GETVERSIONOUTPARAMS_SIZE as u32,
                },
            )
        } else {
            (AdminStage::Finished, finish_empty())
        },
        AdminStage::Probing => if event.is_pending() {
            (AdminStage::Probing, ActionView::AwaitCompletion)
        } else if event.reply() matches Some(reply) && reports_device(reply, b_drive_num) {
            (
                AdminStage::Identifying,
                ActionView::Issue {
                    control_code: DFP_RECEIVE_DRIVE_DATA,
                    input: admin_identify_input(b_drive_num),
                    output_size: admin_identify_output_size(),
                },
            )
        } else {
            (AdminStage::Finished, finish_empty())
        },
        AdminStage::Identifying => if event.is_pending() {
            (AdminStage::Identifying, ActionView::AwaitCompletion)
        } else {
            (
                AdminStage::Finished,
                ActionView::Finish {
                    serial: match event.reply() {
                        Some(reply) => admin_reply_serial(reply),
                        None => None,
                    },
                },
            )
        },
        AdminStage::Finished => (AdminStage::Finished, finish_empty()),
    }
}

/// The serial number or none, from the result of reading identify data.
fn found(r: Result<String, ExtractError>) -> (serial: Option<String>)
    ensures
        match serial {
            Some(s) => r matches Ok(t) && t == s,
            None => r is Err,
        },
{
    match r {
        Ok(serial) => Some(serial),
        Err(_) => None,
    }
}

/// Steps the elevated-access strategy for the drive `b_drive_num`, on a handle
/// that was opened with full read and write access.
///
/// The strategy probes the driver for its version and device map. Where the
/// map shows a unit at the index of the drive, it sends the identify command,
/// with the drive selected by the low bit of its index, and reads the serial
/// number from the data that comes back. A request that is pending is awaited;
/// any other failure, a map that shows no unit at the index, and an empty
/// serial number end the strategy without one.
pub fn get_drive_serial_with_admin_rights(
    stage: AdminStage,
    event: ControlEvent,
    b_drive_num: u8,
) -> (r: (AdminStage, StrategyAction))
    ensures
        (r.0, r.1@) == admin_step(stage, event, b_drive_num),
{
    match stage {
        AdminStage::Start => match event {
            ControlEvent::Ready => (
                AdminStage::Probing,
                StrategyAction::Issue(
                    ControlRequest {
                        control_code: DFP_GET_VERSION,
                        input: Vec::new(),
                        output_size: GETVERSIONOUTPARAMS_SIZE as u32,
                    },
                ),
            ),
            _ => (AdminStage::Finished, StrategyAction::Finish(None)),
        },
        AdminStage::Probing => match classify(event) {
            Reply::Pending => (AdminStage::Probing, StrategyAction::AwaitCompletion),
            Reply::Failure => (AdminStage::Finished, StrategyAction::Finish(None)),
            Reply::Output(output) => {
                let present = match GETVERSIONOUTPARAMS::from_bytes(output.as_slice()) {
                    Some(version_params) => unit_present(
                        version_params.b_ide_device_map,
                        b_drive_num,
                    ),
                    None => false,
                };
                if !present {
                    (AdminStage::Finished, StrategyAction::Finish(None))
                } else {
                    let mut scip = SENDCMDINPARAMS::zeroed();
                    let request = do_identify(&mut scip, IDE_ATA_IDENTIFY, b_drive_num);
                    assert(request.input@ =~= admin_identify_input(b_drive_num));
                    (AdminStage::Identifying, StrategyAction::Issue(request))
                }
            },
        },
        AdminStage::Identifying => match classify(event) {
            Reply::Pending => (AdminStage::Identifying, StrategyAction::AwaitCompletion),
            Reply::Failure => (AdminStage::Finished, StrategyAction::Finish(None)),
            Reply::Output(output) => {
                let serial = match SENDCMDOUTPARAMS::from_bytes(output.as_slice()) {
                    Some(by_id_out_cmd) => found(
                        extract_serial_from_identify_data(by_id_out_cmd.b_buffer.as_slice()),
                    ),
                    None => None,
                };
                (AdminStage::Finished, StrategyAction::Finish(serial))
            },
        },
        AdminStage::Finished => (AdminStage::Finished, StrategyAction::Finish(None)),
    }
}

/// Where the SMART strategy stands.
#[derive(Clone, Copy, Debug, PartialEq, Eq, Structural)]
pub enum SmartStage {
    /// Nothing has been issued.
    Start,
    /// The feature probe is outstanding.
    Probing,
    /// The identify request is outstanding.
    Identifying,
    /// The strategy has finished.
    Finished,
}

/// The step of the SMART strategy from `stage` on `event`: the stage that
/// follows, and the action to take.
pub open spec fn smart_step(stage: SmartStage, event: ControlEvent) -> (SmartStage, ActionView) {
    match stage {
        SmartStage::Start => if event is Ready {
            (
                SmartStage::Probing,
                ActionView::Issue {
                    control_code: SMART_GET_VERSION,
                    input: Seq::empty(),
                    output_size: GETVERSIONINPARAMS_SIZE as u32,
                },
            )
        } else {
            (SmartStage::Finished, finish_empty())
        },
        SmartStage::Probing => if event.is_pending() {
            (SmartStage::Probing, ActionView::AwaitCompletion)
        } else if event.reply() is Some {
            (
                SmartStage::Identifying,
                ActionView::Issue {
                    control_code: SMART_RCV_DRIVE_DATA,
                    input: smart_identify_input(),
                    output_size: smart_identify_output_size(),
                },
            )
        } else {
            (SmartStage::Finished, finish_empty())
        },
        SmartStage::Identifying => if event.is_pending() {
            (SmartStage::Identifying, ActionView::AwaitCompletion)
        } else {
            (
                SmartStage::Finished,
                ActionView::Finish {
                    serial: match event.reply() {
                        Some(reply) => smart_reply_serial(reply),
                        None => None,
                    },
                },
            )
        },
        SmartStage::Finished => (SmartStage::Finished, finish_empty()),
    }
}

/// Steps the SMART strategy, on a handle that was opened with the access that
/// SMART requests need. The drive index plays no part: the handle addresses
/// the one channel of its device.
///
/// The strategy probes the SMART driver for its version. Where that succeeds,
/// it sends a command record with only the identify command code set and reads
/// the serial number from the data that comes back in the record. A request
/// that is pending is awaited; any other failure and an empty serial number
/// end the strategy without one.
pub fn get_drive_serial_with_smart(stage: SmartStage, event: ControlEvent, _b_drive_num: u8) -> (r:
    (SmartStage, StrategyAction))
    ensures
        (r.0, r.1@) == smart_step(stage, event),
{
    match stage {
        SmartStage::Start => match event {
            ControlEvent::Ready => (
                SmartStage::Probing,
                StrategyAction::Issue(
                    ControlRequest {
                        control_code: SMART_GET_VERSION,
                        input: Vec::new(),
                        output_size: GETVERSIONINPARAMS_SIZE as u32,
                    },
                ),
            ),
            _ => (SmartStage::Finished, StrategyAction::Finish(None)),
        },
        SmartStage::Probing => match classify(event) {
            Reply::Pending => (SmartStage::Probing, StrategyAction::AwaitCompletion),
            Reply::Failure => (SmartStage::Finished, StrategyAction::Finish(None)),
            Reply::Output(_) => {
                let mut command = SENDCMDINPARAMS::zeroed();
                command.ir_drive_regs.b_command_reg = IDE_ATA_IDENTIFY;
                let input = command.to_bytes();
                assert(input@ =~= smart_identify_input());
                (
                    SmartStage::Identifying,
                    StrategyAction::Issue(
                        ControlRequest {
                            control_code: SMART_RCV_DRIVE_DATA,
                            input,
                            output_size: (SENDCMDINPARAMS_SIZE + IDENTIFY_BUFFER_SIZE) as u32,
                        },
                    ),
                )
            },
        },
        SmartStage::Identifying => match classify(event) {
            Reply::Pending => (SmartStage::Identifying, StrategyAction::AwaitCompletion),
            Reply::Failure => (SmartStage::Finished, StrategyAction::Finish(None)),
            Reply::Output(output) => {
                let serial = match SENDCMDINPARAMS::from_bytes(output.as_slice()) {
                    Some(command) => found(
                        extract_serial_from_identify_data(command.c_buffer.as_slice()),
                    ),
                    None => None,
                };
                (SmartStage::Finished, StrategyAction::Finish(serial))
            },
        },
        SmartStage::Finished => (SmartStage::Finished, StrategyAction::Finish(None)),
    }
}

/// The bytes of the serial number in the reply to a property query: the field
/// that the serial number offset of the descriptor locates, decoded. An offset
/// of zero locates nothing.
pub open spec fn property_serial_bytes(reply: Seq<u8>) -> Seq<u8> {
    let offset = le_u32(reply, 24);
    if offset == 0 {
        Seq::empty()
    } else {
        flip_and_code(reply, offset as int, false)
    }
}

/// The text of the serial number in the reply to a property query: the
/// decoded bytes, which are ASCII, as characters. A reply that is shorter than
/// the descriptor has none.
pub open spec fn property_serial_text(reply: Seq<u8>) -> Option<Seq<char>> {
    if reply.len() >= STORAGE_DEVICE_DESCRIPTOR_SIZE {
        Some(ascii_text(property_serial_bytes(reply)))
    } else {
        None
    }
}

/// Whether a text is acceptable as a serial number that was read without
/// access rights: it is not empty, and each character is an ASCII letter or
/// digit, an underscore or a hyphen.
pub open spec fn is_acceptable(text: Seq<char>) -> bool {
    &&& text.len() > 0
    &&& forall|i: int| 0 <= i < text.len() ==> is_ascii_serial_char(#[trigger] text[i])
}

/// The candidate, if it is acceptable. An empty candidate is none, as if the
/// query had failed.
pub open spec fn accepted(candidate: Option<Seq<char>>) -> Option<Seq<char>> {
    match candidate {
        Some(text) => if is_acceptable(text) {
            Some(text)
        } else {
            None
        },
        None => None,
    }
}

/// The serial number that the reply to a property query yields.
pub open spec fn property_reply_serial(reply: Seq<u8>) -> Option<Seq<char>> {
    accepted(property_serial_text(reply))
}

/// The serial number that the property query yields, given what the transport
/// reported of it.
pub open spec fn queried_serial(event: ControlEvent) -> Option<Seq<char>> {
    match event.reply() {
        Some(reply) => property_reply_serial(reply),
        None => None,
    }
}

/// The input of the property query: property class "device", query type
/// "standard".
pub open spec fn property_query_input() -> Seq<u8> {
    le_u32_bytes(STORAGE_DEVICE_PROPERTY) + le_u32_bytes(PROPERTY_STANDARD_QUERY) + zeros(4)
}

/// Reads the text of the serial number from the reply to a property query.
pub fn property_serial(reply: &[u8]) -> (r: Option<String>)
    ensures
        match r {
            Some(s) => property_serial_text(reply@) == Some(s@),
            None => property_serial_text(reply@) is None,
        },
{
    let descrip = match STORAGE_DEVICE_DESCRIPTOR::from_bytes(reply) {
        Some(d) => d,
        None => {
            return None;
        },
    };
    let offset: usize = descrip.serial_number_offset as usize;
    let size: usize = if reply.len() < SERIAL_BUFFER_SIZE {
        SERIAL_BUFFER_SIZE
    } else {
        reply.len()
    };
    let mut serial_buffer: Vec<u8> = vec![0u8; size];
    let ghost text = property_serial_bytes(reply@);
    proof {
        lemma_flip_and_code_len(reply@, offset as int, false);
    }
    flip_and_code_bytes(offset, 0, reply, serial_buffer.as_mut_slice());
    proof {
        if offset > 0 {
            let d = heuristic_decode(field_at(reply@, offset as int));
            lemma_content_end_bounds(d, d.len() as int);
            lemma_content_start_bounds(d, 0);
            assert(text == trim_span(d));
        }
        assert(serial_buffer@.subrange(0, text.len() as int) =~= text);
        lemma_padded_text(serial_buffer@, text);
        lemma_flip_and_code_ascii(reply@, offset as int, false);
    }
    Some(string_from_buffer(serial_buffer.as_slice()))
}

/// Accepts a candidate as the serial number of the zero-rights strategy if
/// it is not empty and each of its characters is an ASCII letter or digit, an
/// underscore or a hyphen.
pub fn accept_candidate(candidate: Option<String>) -> (r: Option<String>)
    ensures
        match r {
            Some(s) => candidate matches Some(c) && c == s && is_acceptable(s@),
            None => candidate matches Some(c) ==> !is_acceptable(c@),
        },
{
    match candidate {
        None => None,
        Some(serial_number) => {
            let mut ok = true;
            for c in it: serial_number.as_str().chars()
                invariant
                    it.seq() == serial_number@,
                    ok == (forall|i: int|
                        0 <= i < it.index() ==> is_ascii_serial_char(#[trigger] serial_number@[i])),
            {
                if !ascii_serial_char(c) {
                    ok = false;
                }
            }
            if ok && !serial_number.as_str().is_empty() {
                Some(serial_number)
            } else {
                None
            }
        },
    }
}

/// Where the zero-rights strategy stands.
#[derive(Clone, Copy, Debug, PartialEq, Eq, Structural)]
pub enum ZeroStage {
    /// Nothing has been issued.
    Start,
    /// The property query is outstanding.
    Querying,
    /// The extended geometry probe is outstanding.
    ProbingGeometryEx,
    /// The plain geometry probe is outstanding.
    ProbingGeometry,
    /// The strategy has finished.
    Finished,
}

/// The action that probes the extended disk geometry.
pub open spec fn geometry_ex_action() -> ActionView {
    ActionView::Issue {
        control_code: IOCTL_DISK_GET_DRIVE_GEOMETRY_EX,
        input: Seq::empty(),
        output_size: DISK_GEOMETRY_EX_SIZE as u32,
    }
}

/// The action that probes the plain disk geometry.
pub open spec fn geometry_action() -> ActionView {
    ActionView::Issue {
        control_code: IOCTL_DISK_GET_DRIVE_GEOMETRY,
        input: Seq::empty(),
        output_size: DISK_GEOMETRY_SIZE as u32,
    }
}

/// The step of the zero-rights strategy from `stage` on `event`: the stage
/// that follows, and the action to take.
pub open spec fn zero_step(stage: ZeroStage, event: ControlEvent) -> (ZeroStage, ActionView) {
    match stage {
        ZeroStage::Start => if event is Ready {
            (
                ZeroStage::Querying,
                ActionView::Issue {
                    control_code: IOCTL_STORAGE_QUERY_PROPERTY,
                    input: property_query_input(),
                    output_size: PROPERTY_BUFFER_SIZE,
                },
            )
        } else {
            (ZeroStage::Finished, finish_empty())
        },
        ZeroStage::Querying => if event.is_pending() {
            (ZeroStage::Querying, ActionView::AwaitCompletion)
        } else if queried_serial(event) is Some {
            (ZeroStage::Finished, ActionView::Finish { serial: queried_serial(event) })
        } else {
            (ZeroStage::ProbingGeometryEx, geometry_ex_action())
        },
        ZeroStage::ProbingGeometryEx => if event.is_pending() {
            (ZeroStage::ProbingGeometryEx, ActionView::AwaitCompletion)
        } else {
            (ZeroStage::ProbingGeometry, geometry_action())
        },
        ZeroStage::ProbingGeometry => if event.is_pending() {
            (ZeroStage::ProbingGeometry, ActionView::AwaitCompletion)
        } else {
            (ZeroStage::Finished, finish_empty())
        },
        ZeroStage::Finished => (ZeroStage::Finished, finish_empty()),
    }
}

/// Steps the zero-rights strategy, on a handle that was opened without access
/// rights.
///
/// The strategy queries the standard device property and decodes the serial
/// number that the descriptor in the reply locates. A serial number that is
/// not empty and made of acceptable characters ends the strategy. Where the
/// query fails or yields no such serial number, the strategy probes the
/// extended and then the plain disk geometry, which show that a device exists
/// and hold no serial number, and ends without one. A request that is pending
/// is awaited.
pub fn get_drive_serial_with_zero_rights(stage: ZeroStage, event: ControlEvent) -> (r: (
    ZeroStage,
    StrategyAction,
))
    ensures
        (r.0, r.1@) == zero_step(stage, event),
{
    match stage {
        ZeroStage::Start => match event {
            ControlEvent::Ready => {
                let query = STORAGE_PROPERTY_QUERY {
                    PropertyId: STORAGE_DEVICE_PROPERTY,
                    QueryType: PROPERTY_STANDARD_QUERY,
                    AdditionalParameters: [0u8; 1],
                };
                let input = query.to_bytes();
                assert(input@ =~= property_query_input());
                (
                    ZeroStage::Querying,
                    StrategyAction::Issue(
                        ControlRequest {
                            control_code: IOCTL_STORAGE_QUERY_PROPERTY,
                            input,
                            output_size: PROPERTY_BUFFER_SIZE,
                        },
                    ),
                )
            },
            _ => (ZeroStage::Finished, StrategyAction::Finish(None)),
        },
        ZeroStage::Querying => match classify(event) {
            Reply::Pending => (ZeroStage::Querying, StrategyAction::AwaitCompletion),
            Reply::Failure => (ZeroStage::ProbingGeometryEx, geometry_ex_probe()),
            Reply::Output(output) => match accept_candidate(property_serial(output.as_slice())) {
                Some(serial_number) => (
                    ZeroStage::Finished,
                    StrategyAction::Finish(Some(serial_number)),
                ),
                None => (ZeroStage::ProbingGeometryEx, geometry_ex_probe()),
            },
        },
        ZeroStage::ProbingGeometryEx => match classify(event) {
            Reply::Pending => (ZeroStage::ProbingGeometryEx, StrategyAction::AwaitCompletion),
            _ => (
                ZeroStage::ProbingGeometry,
                StrategyAction::Issue(
                    ControlRequest {
                        control_code: IOCTL_DISK_GET_DRIVE_GEOMETRY,
                        input: Vec::new(),
                        output_size: DISK_GEOMETRY_SIZE as u32,
                    },
                ),
            ),
        },
        ZeroStage::ProbingGeometry => match classify(event) {
            Reply::Pending => (ZeroStage::ProbingGeometry, StrategyAction::AwaitCompletion),
            _ => (ZeroStage::Finished, StrategyAction::Finish(None)),
        },
        ZeroStage::Finished => (ZeroStage::Finished, StrategyAction::Finish(None)),
    }
}

/// The request that probes the extended disk geometry.
fn geometry_ex_probe() -> (action: StrategyAction)
    ensures
        action@ == geometry_ex_action(),
{
    StrategyAction::Issue(
        ControlRequest {
            control_code: IOCTL_DISK_GET_DRIVE_GEOMETRY_EX,
            input: Vec::new(),
            output_size: DISK_GEOMETRY_EX_SIZE as u32,
        },
    )
}

} // verus!
