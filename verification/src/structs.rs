//! The fixed-layout records of the device-control protocols.
//!
//! A driver reads and writes these records by position, so each has one byte
//! layout: its fields in order, integers in little-endian order, each field at
//! the next multiple of its alignment, and the whole padded to a multiple of
//! the largest alignment. Padding bytes are written as zero and ignored when
//! read.

use vstd::prelude::*;

verus! {

/// The size of the data that the identify command returns.
pub const IDENTIFY_BUFFER_SIZE: usize = 512;

/// The control code that asks the driver for its version and device map.
pub const DFP_GET_VERSION: u32 = 0x00074080;

/// The control code that sends a command and receives drive data.
pub const DFP_RECEIVE_DRIVE_DATA: u32 = 0x0007c088;

/// The command code of ATA IDENTIFY DEVICE.
pub const IDE_ATA_IDENTIFY: u8 = 0xEC;

/// The number of logical device indices that are tried.
pub const MAX_IDE_DRIVES: usize = 16;

pub const IDEREGS_SIZE: usize = 8;

pub const GETVERSIONOUTPARAMS_SIZE: usize = 24;

pub const GETVERSIONINPARAMS_SIZE: usize = 24;

pub const SENDCMDINPARAMS_SIZE: usize = 528;

pub const SENDCMDOUTPARAMS_SIZE: usize = 532;

pub const STORAGE_DEVICE_DESCRIPTOR_SIZE: usize = 40;

pub const STORAGE_PROPERTY_QUERY_SIZE: usize = 12;

pub const DISK_GEOMETRY_SIZE: usize = 12;

pub const DISK_GEOMETRY_EX_SIZE: usize = 32;

/// The 32-bit integer that is stored at `at` in little-endian order.
pub open spec fn le_u32(s: Seq<u8>, at: int) -> u32 {
    (s[at] as int + 256 * (s[at + 1] as int) + 65536 * (s[at + 2] as int) + 16777216 * (s[at
        + 3] as int)) as u32
}

/// The four bytes of a 32-bit integer in little-endian order.
pub open spec fn le_u32_bytes(v: u32) -> Seq<u8> {
    seq![
        (v % 256) as u8,
        ((v / 256) % 256) as u8,
        ((v / 65536) % 256) as u8,
        (v / 16777216) as u8,
    ]
}

/// The 16-bit integer that is stored at `at` in little-endian order.
pub open spec fn le_u16_at(s: Seq<u8>, at: int) -> u16 {
    (s[at] as int + 256 * (s[at + 1] as int)) as u16
}

/// The signed 64-bit integer that is stored at `at` in little-endian order,
/// in two's complement.
pub open spec fn le_i64(s: Seq<u8>, at: int) -> i64 {
    let unsigned = le_u32(s, at) as int + 0x1_0000_0000 * (le_u32(s, at + 4) as int);
    if unsigned >= 0x8000_0000_0000_0000 {
        (unsigned - 0x1_0000_0000_0000_0000) as i64
    } else {
        unsigned as i64
    }
}

/// `n` null bytes.
pub open spec fn zeros(n: nat) -> Seq<u8> {
    Seq::new(n, |i: int| 0u8)
}

/// Little-endian storage loses nothing: reading back what was stored gives
/// the integer.
pub proof fn lemma_le_u32_round_trip(v: u32)
    ensures
        le_u32(le_u32_bytes(v), 0) == v,
{
}

pub fn read_le_u32(bytes: &[u8], at: usize) -> (v: u32)
    requires
        at + 4 <= bytes@.len(),
    ensures
        v == le_u32(bytes@, at as int),
{
    let b0: u32 = bytes[at] as u32;
    let b1: u32 = bytes[at + 1] as u32;
    let b2: u32 = bytes[at + 2] as u32;
    let b3: u32 = bytes[at + 3] as u32;
    b0 + 256 * b1 + 65536 * b2 + 16777216 * b3
}

pub fn read_le_u16_at(bytes: &[u8], at: usize) -> (v: u16)
    requires
        at + 2 <= bytes@.len(),
    ensures
        v == le_u16_at(bytes@, at as int),
{
    let b0: u16 = bytes[at] as u16;
    let b1: u16 = bytes[at + 1] as u16;
    b0 + 256 * b1
}

pub fn read_le_i64(bytes: &[u8], at: usize) -> (v: i64)
    requires
        at + 8 <= bytes@.len(),
    ensures
        v == le_i64(bytes@, at as int),
{
    proof {
        vstd::slice::axiom_spec_len(bytes);
    }
    let low: u64 = read_le_u32(bytes, at) as u64;
    let high: u64 = read_le_u32(bytes, at + 4) as u64;
    let unsigned: u64 = low + 0x1_0000_0000 * high;
    if unsigned >= 0x8000_0000_0000_0000 {
        ((unsigned - 0x8000_0000_0000_0000) as i64) + i64::MIN
    } else {
        unsigned as i64
    }
}

pub fn push_le_u32(out: &mut Vec<u8>, v: u32)
    ensures
        final(out)@ == old(out)@ + le_u32_bytes(v),
{
    out.push((v % 256) as u8);
    out.push(((v / 256) % 256) as u8);
    out.push(((v / 65536) % 256) as u8);
    out.push((v / 16777216) as u8);
    assert(out@ =~= old(out)@ + le_u32_bytes(v));
}

/// The version and device map that the feature probe returns.
#[allow(non_camel_case_types)]
pub struct GETVERSIONOUTPARAMS {
    pub b_version: u8,
    pub b_revision: u8,
    pub b_reserved: u8,
    /// One bit for each unit that is attached to the channel.
    pub b_ide_device_map: u8,
    pub f_capabilities: u32,
    pub dw_reserved: [u32; 4],
}

impl GETVERSIONOUTPARAMS {
    /// Whether the record is what the first bytes of `bytes` hold.
    pub open spec fn is_read_from(self, bytes: Seq<u8>) -> bool {
        &&& bytes.len() >= GETVERSIONOUTPARAMS_SIZE
        &&& self.b_version == bytes[0]
        &&& self.b_revision == bytes[1]
        &&& self.b_reserved == bytes[2]
        &&& self.b_ide_device_map == bytes[3]
        &&& self.f_capabilities == le_u32(bytes, 4)
        &&& self.dw_reserved@ == seq![
            le_u32(bytes, 8),
            le_u32(bytes, 12),
            le_u32(bytes, 16),
            le_u32(bytes, 20),
        ]
    }

    /// Reads the record from the start of `bytes`. There is none where
    /// `bytes` is shorter than the record.
    pub fn from_bytes(bytes: &[u8]) -> (r: Option<GETVERSIONOUTPARAMS>)
        ensures
            r is Some <==> bytes@.len() >= GETVERSIONOUTPARAMS_SIZE,
            r matches Some(v) ==> v.is_read_from(bytes@),
    {
        if bytes.len() < GETVERSIONOUTPARAMS_SIZE {
            return None;
        }
        let dw_reserved: [u32; 4] = [
            read_le_u32(bytes, 8),
            read_le_u32(bytes, 12),
            read_le_u32(bytes, 16),
            read_le_u32(bytes, 20),
        ];
        let v = GETVERSIONOUTPARAMS {
            b_version: bytes[0],
            b_revision: bytes[1],
            b_reserved: bytes[2],
            b_ide_device_map: bytes[3],
            f_capabilities: read_le_u32(bytes, 4),
            dw_reserved,
        };
        assert(v.dw_reserved@ =~= seq![
            le_u32(bytes@, 8),
            le_u32(bytes@, 12),
            le_u32(bytes@, 16),
            le_u32(bytes@, 20),
        ]);
        Some(v)
    }
}

/// The version and device map that the SMART feature probe returns.
#[allow(non_camel_case_types)]
pub struct GETVERSIONINPARAMS {
    pub b_version: u8,
    pub b_revision: u8,
    pub b_reserved: u8,
    pub b_ide_device_map: u8,
    pub f_capabilities: u32,
    pub dw_reserved: [u32; 4],
}

impl GETVERSIONINPARAMS {
    /// Whether the record is what the first bytes of `bytes` hold.
    pub open spec fn is_read_from(self, bytes: Seq<u8>) -> bool {
        &&& bytes.len() >= GETVERSIONINPARAMS_SIZE
        &&& self.b_version == bytes[0]
        &&& self.b_revision == bytes[1]
        &&& self.b_reserved == bytes[2]
        &&& self.b_ide_device_map == bytes[3]
        &&& self.f_capabilities == le_u32(bytes, 4)
        &&& self.dw_reserved@ == seq![
            le_u32(bytes, 8),
            le_u32(bytes, 12),
            le_u32(bytes, 16),
            le_u32(bytes, 20),
        ]
    }

    /// Reads the record from the start of `bytes`. There is none where
    /// `bytes` is shorter than the record.
    pub fn from_bytes(bytes: &[u8]) -> (r: Option<GETVERSIONINPARAMS>)
        ensures
            r is Some <==> bytes@.len() >= GETVERSIONINPARAMS_SIZE,
            r matches Some(v) ==> v.is_read_from(bytes@),
    {
        if bytes.len() < GETVERSIONINPARAMS_SIZE {
            return None;
        }
        let dw_reserved: [u32; 4] = [
            read_le_u32(bytes, 8),
            read_le_u32(bytes, 12),
            read_le_u32(bytes, 16),
            read_le_u32(bytes, 20),
        ];
        let v = GETVERSIONINPARAMS {
            b_version: bytes[0],
            b_revision: bytes[1],
            b_reserved: bytes[2],
            b_ide_device_map: bytes[3],
            f_capabilities: read_le_u32(bytes, 4),
            dw_reserved,
        };
        assert(v.dw_reserved@ =~= seq![
            le_u32(bytes@, 8),
            le_u32(bytes@, 12),
            le_u32(bytes@, 16),
            le_u32(bytes@, 20),
        ]);
        Some(v)
    }
}

/// The registers of a drive command.
#[allow(non_camel_case_types)]
pub struct IDEREGS {
    pub b_features_reg: u8,
    pub b_sector_count_reg: u8,
    pub b_sector_number_reg: u8,
    pub b_cyl_low_reg: u8,
    pub b_cyl_high_reg: u8,
    pub b_drive_head_reg: u8,
    pub b_command_reg: u8,
    pub b_reserved: u8,
}

impl IDEREGS {
    /// The bytes of the record.
    pub open spec fn layout(self) -> Seq<u8> {
        seq![
            self.b_features_reg,
            self.b_sector_count_reg,
            self.b_sector_number_reg,
            self.b_cyl_low_reg,
            self.b_cyl_high_reg,
            self.b_drive_head_reg,
            self.b_command_reg,
            self.b_reserved,
        ]
    }

    /// Whether the record is what `bytes` holds at `at`.
    pub open spec fn is_read_from(self, bytes: Seq<u8>, at: int) -> bool {
        self.layout() == bytes.subrange(at, at + IDEREGS_SIZE)
    }

    /// The registers all zero.
    pub fn zeroed() -> (r: IDEREGS)
        ensures
            r.layout() == zeros(IDEREGS_SIZE as nat),
    {
        let r = IDEREGS {
            b_features_reg: 0,
            b_sector_count_reg: 0,
            b_sector_number_reg: 0,
            b_cyl_low_reg: 0,
            b_cyl_high_reg: 0,
            b_drive_head_reg: 0,
            b_command_reg: 0,
            b_reserved: 0,
        };
        assert(r.layout() =~= zeros(IDEREGS_SIZE as nat));
        r
    }

    /// Appends the bytes of the record to `out`.
    pub fn write_to(&self, out: &mut Vec<u8>)
        ensures
            final(out)@ == old(out)@ + self.layout(),
    {
        out.push(self.b_features_reg);
        out.push(self.b_sector_count_reg);
        out.push(self.b_sector_number_reg);
        out.push(self.b_cyl_low_reg);
        out.push(self.b_cyl_high_reg);
        out.push(self.b_drive_head_reg);
        out.push(self.b_command_reg);
        out.push(self.b_reserved);
        assert(out@ =~= old(out)@ + self.layout());
    }

    /// Reads the record that `bytes` holds at `at`.
    pub fn read_at(bytes: &[u8], at: usize) -> (r: IDEREGS)
        requires
            at + IDEREGS_SIZE <= bytes@.len(),
        ensures
            r.is_read_from(bytes@, at as int),
    {
        let r = IDEREGS {
            b_features_reg: bytes[at],
            b_sector_count_reg: bytes[at + 1],
            b_sector_number_reg: bytes[at + 2],
            b_cyl_low_reg: bytes[at + 3],
            b_cyl_high_reg: bytes[at + 4],
            b_drive_head_reg: bytes[at + 5],
            b_command_reg: bytes[at + 6],
            b_reserved: bytes[at + 7],
        };
        assert(r.layout() =~= bytes@.subrange(at as int, at + IDEREGS_SIZE));
        r
    }
}

/// A drive command: the registers, and room for the data that goes with them.
#[allow(non_camel_case_types)]
pub struct SENDCMDINPARAMS {
    pub c_buffer_size: u32,
    pub ir_drive_regs: IDEREGS,
    pub b_drive_number: u8,
    pub c_buffer: [u8; IDENTIFY_BUFFER_SIZE],
}

impl SENDCMDINPARAMS {
    /// The bytes of the record: the buffer size, the registers, the drive
    /// number, the buffer and three bytes of padding.
    pub open spec fn layout(self) -> Seq<u8> {
        le_u32_bytes(self.c_buffer_size) + self.ir_drive_regs.layout() + seq![self.b_drive_number]
            + self.c_buffer@ + zeros(3)
    }

    /// The record all zero.
    pub fn zeroed() -> (r: SENDCMDINPARAMS)
        ensures
            r.layout() == zeros(SENDCMDINPARAMS_SIZE as nat),
            r.c_buffer_size == 0,
            r.ir_drive_regs.layout() == zeros(IDEREGS_SIZE as nat),
            r.b_drive_number == 0,
            r.c_buffer@ == zeros(IDENTIFY_BUFFER_SIZE as nat),
    {
        let r = SENDCMDINPARAMS {
            c_buffer_size: 0,
            ir_drive_regs: IDEREGS::zeroed(),
            b_drive_number: 0,
            c_buffer: [0u8; IDENTIFY_BUFFER_SIZE],
        };
        assert(r.c_buffer@ =~= zeros(IDENTIFY_BUFFER_SIZE as nat));
        assert(r.layout() =~= zeros(SENDCMDINPARAMS_SIZE as nat));
        r
    }

    /// Whether the record is what the first bytes of `bytes` hold.
    pub open spec fn is_read_from(self, bytes: Seq<u8>) -> bool {
        &&& bytes.len() >= SENDCMDINPARAMS_SIZE
        &&& self.c_buffer_size == le_u32(bytes, 0)
        &&& self.ir_drive_regs.is_read_from(bytes, 4)
        &&& self.b_drive_number == bytes[12]
        &&& self.c_buffer@ == bytes.subrange(13, 525)
    }

    /// Reads the record from the start of `bytes`. There is none where
    /// `bytes` is shorter than the record.
    pub fn from_bytes(bytes: &[u8]) -> (r: Option<SENDCMDINPARAMS>)
        ensures
            r is Some <==> bytes@.len() >= SENDCMDINPARAMS_SIZE,
            r matches Some(v) ==> v.is_read_from(bytes@),
    {
        if bytes.len() < SENDCMDINPARAMS_SIZE {
            return None;
        }
        let mut c_buffer: [u8; IDENTIFY_BUFFER_SIZE] = [0u8; IDENTIFY_BUFFER_SIZE];
        let mut i: usize = 0;
        while i < IDENTIFY_BUFFER_SIZE
            invariant
                i <= IDENTIFY_BUFFER_SIZE,
                bytes@.len() >= SENDCMDINPARAMS_SIZE,
                forall|j: int| 0 <= j < i ==> c_buffer@[j] == bytes@[13 + j],
            decreases IDENTIFY_BUFFER_SIZE - i,
        {
            c_buffer[i] = bytes[13 + i];
            i = i + 1;
        }
        let v = SENDCMDINPARAMS {
            c_buffer_size: read_le_u32(bytes, 0),
            ir_drive_regs: IDEREGS::read_at(bytes, 4),
            b_drive_number: bytes[12],
            c_buffer,
        };
        assert(v.c_buffer@ =~= bytes@.subrange(13, 525));
        Some(v)
    }

    /// The bytes of the record.
    pub fn to_bytes(&self) -> (out: Vec<u8>)
        ensures
            out@ == self.layout(),
            out@.len() == SENDCMDINPARAMS_SIZE,
    {
        let mut out: Vec<u8> = Vec::new();
        push_le_u32(&mut out, self.c_buffer_size);
        self.ir_drive_regs.write_to(&mut out);
        out.push(self.b_drive_number);
        let ghost head = out@;
        let mut i: usize = 0;
        while i < IDENTIFY_BUFFER_SIZE
            invariant
                i <= IDENTIFY_BUFFER_SIZE,
                out@ == head + self.c_buffer@.subrange(0, i as int),
            decreases IDENTIFY_BUFFER_SIZE - i,
        {
            out.push(self.c_buffer[i]);
            i = i + 1;
            assert(out@ =~= head + self.c_buffer@.subrange(0, i as int));
        }
        out.push(0);
        out.push(0);
        out.push(0);
        assert(out@ =~= self.layout());
        out
    }
}

/// What a drive command returns: the registers as the drive left them, its
/// status, and the data.
#[allow(non_camel_case_types)]
pub struct SENDCMDOUTPARAMS {
    pub c_buffer_size: u32,
    pub ir_drive_regs: IDEREGS,
    pub b_drive_number: u8,
    pub b_status_reg: u8,
    pub b_error_reg: u8,
    pub b_interrupt_reason_reg: u8,
    pub b_reserved: [u8; 3],
    pub b_buffer: [u8; IDENTIFY_BUFFER_SIZE],
}

impl SENDCMDOUTPARAMS {
    /// Whether the record is what the first bytes of `bytes` hold.
    pub open spec fn is_read_from(self, bytes: Seq<u8>) -> bool {
        &&& bytes.len() >= SENDCMDOUTPARAMS_SIZE
        &&& self.c_buffer_size == le_u32(bytes, 0)
        &&& self.ir_drive_regs.is_read_from(bytes, 4)
        &&& self.b_drive_number == bytes[12]
        &&& self.b_status_reg == bytes[13]
        &&& self.b_error_reg == bytes[14]
        &&& self.b_interrupt_reason_reg == bytes[15]
        &&& self.b_reserved@ == bytes.subrange(16, 19)
        &&& self.b_buffer@ == bytes.subrange(19, 531)
    }

    /// Reads the record from the start of `bytes`. There is none where
    /// `bytes` is shorter than the record.
    pub fn from_bytes(bytes: &[u8]) -> (r: Option<SENDCMDOUTPARAMS>)
        ensures
            r is Some <==> bytes@.len() >= SENDCMDOUTPARAMS_SIZE,
            r matches Some(v) ==> v.is_read_from(bytes@),
    {
        if bytes.len() < SENDCMDOUTPARAMS_SIZE {
            return None;
        }
        let mut b_buffer: [u8; IDENTIFY_BUFFER_SIZE] = [0u8; IDENTIFY_BUFFER_SIZE];
        let mut i: usize = 0;
        while i < IDENTIFY_BUFFER_SIZE
            invariant
                i <= IDENTIFY_BUFFER_SIZE,
                bytes@.len() >= SENDCMDOUTPARAMS_SIZE,
                forall|j: int| 0 <= j < i ==> b_buffer@[j] == bytes@[19 + j],
            decreases IDENTIFY_BUFFER_SIZE - i,
        {
            b_buffer[i] = bytes[19 + i];
            i = i + 1;
        }
        let b_reserved: [u8; 3] = [bytes[16], bytes[17], bytes[18]];
        let v = SENDCMDOUTPARAMS {
            c_buffer_size: read_le_u32(bytes, 0),
            ir_drive_regs: IDEREGS::read_at(bytes, 4),
            b_drive_number: bytes[12],
            b_status_reg: bytes[13],
            b_error_reg: bytes[14],
            b_interrupt_reason_reg: bytes[15],
            b_reserved,
            b_buffer,
        };
        assert(v.b_reserved@ =~= bytes@.subrange(16, 19));
        assert(v.b_buffer@ =~= bytes@.subrange(19, 531));
        Some(v)
    }
}

/// The data of the identify command, field by field.
#[allow(non_camel_case_types)]
#[allow(non_snake_case)]
pub struct IDENTIFY_DATA {
    pub GeneralConfiguration: u16,
    pub NumberOfCylinders: u16,
    pub Reserved1: u16,
    pub NumberOfHeads: u16,
    pub UnformattedBytesPerTrack: u16,
    pub UnformattedBytesPerSector: u16,
    pub SectorsPerTrack: u16,
    pub VendorUnique1: [u16; 3],
    pub SerialNumber: [u16; 10],
    pub BufferType: u16,
    pub BufferSectorSize: u16,
    pub NumberOfEccBytes: u16,
    pub FirmwareRevision: [u16; 4],
    pub ModelNumber: [u16; 20],
    pub MaximumBlockTransfer: u8,
    pub VendorUnique2: u8,
    pub DoubleWordIo: u16,
    pub Capabilities: u16,
    pub Reserved2: u16,
    pub VendorUnique3: u8,
    pub PioCycleTimingMode: u8,
    pub VendorUnique4: u8,
    pub DmaCycleTimingMode: u8,
    pub TranslationFieldsValid: u16,
    pub NumberOfCurrentCylinders: u16,
    pub NumberOfCurrentHeads: u16,
    pub CurrentSectorsPerTrack: u16,
    pub CurrentSectorCapacity: u32,
    pub CurrentMultiSectorSetting: u16,
    pub UserAddressableSectors: u32,
    pub SingleWordDMASupport: u16,
    pub MultiWordDMASupport: u16,
    pub AdvancedPIOModes: u16,
    pub MinimumMWXferCycleTime: u16,
    pub RecommendedMWXferCycleTime: u16,
    pub MinimumPIOCycleTime: u16,
    pub MinimumPIOCycleTimeIORDY: u16,
    pub Reserved5: [u16; 2],
    pub ReleaseTimeOverlapped: u16,
    pub ReleaseTimeServiceCommand: u16,
    pub MajorRevision: u16,
    pub MinorRevision: u16,
    pub Reserved6: [u16; 50],
    pub SpecialFunctionsEnabled: u16,
    pub Reserved7: [u16; 128],
}

/// The header of what a property query returns. Each offset is counted from
/// the start of the descriptor and locates a null-terminated string; an offset
/// of zero says that the device has no such string.
#[allow(non_camel_case_types)]
pub struct STORAGE_DEVICE_DESCRIPTOR {
    pub version: u32,
    pub size: u32,
    pub device_type: u8,
    pub vendor_id_offset: u32,
    pub product_id_offset: u32,
    pub product_revision_offset: u32,
    pub serial_number_offset: u32,
    pub bus_type: u8,
    pub raw_properties_length: u32,
    pub raw_device_properties: [u8; 1],
}

impl STORAGE_DEVICE_DESCRIPTOR {
    /// Whether the record is what the first bytes of `bytes` hold.
    pub open spec fn is_read_from(self, bytes: Seq<u8>) -> bool {
        &&& bytes.len() >= STORAGE_DEVICE_DESCRIPTOR_SIZE
        &&& self.version == le_u32(bytes, 0)
        &&& self.size == le_u32(bytes, 4)
        &&& self.device_type == bytes[8]
        &&& self.vendor_id_offset == le_u32(bytes, 12)
        &&& self.product_id_offset == le_u32(bytes, 16)
        &&& self.product_revision_offset == le_u32(bytes, 20)
        &&& self.serial_number_offset == le_u32(bytes, 24)
        &&& self.bus_type == bytes[28]
        &&& self.raw_properties_length == le_u32(bytes, 32)
        &&& self.raw_device_properties@ == seq![bytes[36]]
    }

    /// Reads the record from the start of `bytes`. There is none where
    /// `bytes` is shorter than the record.
    pub fn from_bytes(bytes: &[u8]) -> (r: Option<STORAGE_DEVICE_DESCRIPTOR>)
        ensures
            r is Some <==> bytes@.len() >= STORAGE_DEVICE_DESCRIPTOR_SIZE,
            r matches Some(v) ==> v.is_read_from(bytes@),
    {
        if bytes.len() < STORAGE_DEVICE_DESCRIPTOR_SIZE {
            return None;
        }
        let raw_device_properties: [u8; 1] = [bytes[36]];
        let v = STORAGE_DEVICE_DESCRIPTOR {
            version: read_le_u32(bytes, 0),
            size: read_le_u32(bytes, 4),
            device_type: bytes[8],
            vendor_id_offset: read_le_u32(bytes, 12),
            product_id_offset: read_le_u32(bytes, 16),
            product_revision_offset: read_le_u32(bytes, 20),
            serial_number_offset: read_le_u32(bytes, 24),
            bus_type: bytes[28],
            raw_properties_length: read_le_u32(bytes, 32),
            raw_device_properties,
        };
        assert(v.raw_device_properties@ =~= seq![bytes@[36]]);
        Some(v)
    }
}

/// The physical layout of a disk.
#[allow(non_camel_case_types)]
pub struct DISK_GEOMETRY {
    pub cylinders: u32,
    pub media_type: u8,
    pub tracks_per_cylinder: u16,
    pub sectors_per_track: u16,
    pub bytes_per_sector: u16,
}

impl DISK_GEOMETRY {
    /// Whether the record is what `bytes` holds at `at`. The byte behind the
    /// media type is padding.
    pub open spec fn is_read_from(self, bytes: Seq<u8>, at: int) -> bool {
        &&& 0 <= at
        &&& bytes.len() >= at + DISK_GEOMETRY_SIZE
        &&& self.cylinders == le_u32(bytes, at)
        &&& self.media_type == bytes[at + 4]
        &&& self.tracks_per_cylinder == le_u16_at(bytes, at + 6)
        &&& self.sectors_per_track == le_u16_at(bytes, at + 8)
        &&& self.bytes_per_sector == le_u16_at(bytes, at + 10)
    }

    /// Reads the record that `bytes` holds at `at`.
    pub fn read_at(bytes: &[u8], at: usize) -> (r: DISK_GEOMETRY)
        requires
            at + DISK_GEOMETRY_SIZE <= bytes@.len(),
        ensures
            r.is_read_from(bytes@, at as int),
    {
        proof {
            vstd::slice::axiom_spec_len(bytes);
        }
        DISK_GEOMETRY {
            cylinders: read_le_u32(bytes, at),
            media_type: bytes[at + 4],
            tracks_per_cylinder: read_le_u16_at(bytes, at + 6),
            sectors_per_track: read_le_u16_at(bytes, at + 8),
            bytes_per_sector: read_le_u16_at(bytes, at + 10),
        }
    }

    /// Reads the record from the start of `bytes`. There is none where
    /// `bytes` is shorter than the record.
    pub fn from_bytes(bytes: &[u8]) -> (r: Option<DISK_GEOMETRY>)
        ensures
            r is Some <==> bytes@.len() >= DISK_GEOMETRY_SIZE,
            r matches Some(v) ==> v.is_read_from(bytes@, 0),
    {
        if bytes.len() < DISK_GEOMETRY_SIZE {
            return None;
        }
        Some(DISK_GEOMETRY::read_at(bytes, 0))
    }
}

/// The physical layout of a disk and its size in bytes.
#[allow(non_camel_case_types)]
pub struct DISK_GEOMETRY_EX {
    pub geometry: DISK_GEOMETRY,
    pub disk_size: i64,
    pub data: [u8; 1],
}

impl DISK_GEOMETRY_EX {
    /// Whether the record is what the first bytes of `bytes` hold: the
    /// geometry, four bytes of padding, the size, the data byte and seven
    /// bytes of padding.
    pub open spec fn is_read_from(self, bytes: Seq<u8>) -> bool {
        &&& bytes.len() >= DISK_GEOMETRY_EX_SIZE
        &&& self.geometry.is_read_from(bytes, 0)
        &&& self.disk_size == le_i64(bytes, 16)
        &&& self.data@ == seq![bytes[24]]
    }

    /// Reads the record from the start of `bytes`. There is none where
    /// `bytes` is shorter than the record.
    pub fn from_bytes(bytes: &[u8]) -> (r: Option<DISK_GEOMETRY_EX>)
        ensures
            r is Some <==> bytes@.len() >= DISK_GEOMETRY_EX_SIZE,
            r matches Some(v) ==> v.is_read_from(bytes@),
    {
        if bytes.len() < DISK_GEOMETRY_EX_SIZE {
            return None;
        }
        let data: [u8; 1] = [bytes[24]];
        let v = DISK_GEOMETRY_EX {
            geometry: DISK_GEOMETRY::read_at(bytes, 0),
            disk_size: read_le_i64(bytes, 16),
            data,
        };
        assert(v.data@ =~= seq![bytes@[24]]);
        Some(v)
    }
}

/// A query for one property of a storage device.
#[allow(non_camel_case_types)]
#[allow(non_snake_case)]
pub struct STORAGE_PROPERTY_QUERY {
    pub PropertyId: u32,
    pub QueryType: u32,
    pub AdditionalParameters: [u8; 1],
}

impl STORAGE_PROPERTY_QUERY {
    /// The bytes of the record: the two selectors, the parameter byte and
    /// three bytes of padding.
    pub open spec fn layout(self) -> Seq<u8> {
        le_u32_bytes(self.PropertyId) + le_u32_bytes(self.QueryType) + self.AdditionalParameters@
            + zeros(3)
    }

    /// The bytes of the record.
    pub fn to_bytes(&self) -> (out: Vec<u8>)
        ensures
            out@ == self.layout(),
            out@.len() == STORAGE_PROPERTY_QUERY_SIZE,
    {
        let mut out: Vec<u8> = Vec::new();
        push_le_u32(&mut out, self.PropertyId);
        push_le_u32(&mut out, self.QueryType);
        out.push(self.AdditionalParameters[0]);
        out.push(0);
        out.push(0);
        out.push(0);
        assert(out@ =~= self.layout());
        out
    }
}

} // verus!
