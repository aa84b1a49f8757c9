use drive_serial::structs::{
    push_le_u32, read_le_i64, read_le_u16_at, read_le_u32, DFP_GET_VERSION,
    DFP_RECEIVE_DRIVE_DATA, DISK_GEOMETRY, DISK_GEOMETRY_EX, DISK_GEOMETRY_EX_SIZE,
    DISK_GEOMETRY_SIZE, GETVERSIONINPARAMS, GETVERSIONINPARAMS_SIZE, GETVERSIONOUTPARAMS,
    GETVERSIONOUTPARAMS_SIZE,
    IDENTIFY_BUFFER_SIZE, IDEREGS, IDEREGS_SIZE, IDE_ATA_IDENTIFY, MAX_IDE_DRIVES,
    SENDCMDINPARAMS, SENDCMDINPARAMS_SIZE, SENDCMDOUTPARAMS, SENDCMDOUTPARAMS_SIZE,
    STORAGE_DEVICE_DESCRIPTOR, STORAGE_DEVICE_DESCRIPTOR_SIZE, STORAGE_PROPERTY_QUERY,
    STORAGE_PROPERTY_QUERY_SIZE,
};

/// Bytes that differ from place to place.
fn pattern(len: usize) -> Vec<u8> {
    (0..len).map(|i| (i * 7 + 3) as u8).collect()
}

fn le(bytes: &[u8], at: usize) -> u32 {
    u32::from_le_bytes([bytes[at], bytes[at + 1], bytes[at + 2], bytes[at + 3]])
}

#[test]
fn protocol_constants() {
    assert_eq!(IDENTIFY_BUFFER_SIZE, 512);
    assert_eq!(DFP_GET_VERSION, 0x0007_4080);
    assert_eq!(DFP_RECEIVE_DRIVE_DATA, 0x0007_c088);
    assert_eq!(IDE_ATA_IDENTIFY, 0xEC);
    assert_eq!(MAX_IDE_DRIVES, 16);
}

#[test]
fn record_sizes() {
    assert_eq!(IDEREGS_SIZE, 8);
    assert_eq!(GETVERSIONOUTPARAMS_SIZE, 24);
    assert_eq!(GETVERSIONINPARAMS_SIZE, 24);
    assert_eq!(SENDCMDINPARAMS_SIZE, 4 + 8 + 1 + 512 + 3);
    assert_eq!(SENDCMDOUTPARAMS_SIZE, 4 + 8 + 4 + 3 + 512 + 1);
    assert_eq!(STORAGE_DEVICE_DESCRIPTOR_SIZE, 40);
    assert_eq!(STORAGE_PROPERTY_QUERY_SIZE, 12);
    assert_eq!(DISK_GEOMETRY_SIZE, 12);
    assert_eq!(DISK_GEOMETRY_EX_SIZE, 32);
}

#[test]
fn integers_are_little_endian() {
    assert_eq!(read_le_u32(&[0x78, 0x56, 0x34, 0x12], 0), 0x1234_5678);
    assert_eq!(read_le_u32(&[9, 0xFF, 0xFF, 0xFF, 0xFF], 1), u32::MAX);
    assert_eq!(read_le_u32(&[1, 0, 0, 0, 0], 1), 0);
    let mut out = vec![0xAA];
    push_le_u32(&mut out, 0x1234_5678);
    push_le_u32(&mut out, 512);
    assert_eq!(out, vec![0xAA, 0x78, 0x56, 0x34, 0x12, 0, 2, 0, 0]);
    for v in [0u32, 1, 255, 256, 65535, 65536, 0x00FF_FFFF, 0x0100_0000, u32::MAX] {
        let mut out = Vec::new();
        push_le_u32(&mut out, v);
        assert_eq!(out, v.to_le_bytes().to_vec());
        assert_eq!(read_le_u32(&out, 0), v);
    }
}

#[test]
fn version_record_is_read_by_position() {
    let bytes = pattern(30);
    let v = GETVERSIONOUTPARAMS::from_bytes(&bytes).unwrap();
    assert_eq!(v.b_version, bytes[0]);
    assert_eq!(v.b_revision, bytes[1]);
    assert_eq!(v.b_reserved, bytes[2]);
    assert_eq!(v.b_ide_device_map, bytes[3]);
    assert_eq!(v.f_capabilities, le(&bytes, 4));
    assert_eq!(v.dw_reserved, [le(&bytes, 8), le(&bytes, 12), le(&bytes, 16), le(&bytes, 20)]);
    assert!(GETVERSIONOUTPARAMS::from_bytes(&bytes[..24]).is_some());
    assert!(GETVERSIONOUTPARAMS::from_bytes(&bytes[..23]).is_none());
    assert!(GETVERSIONOUTPARAMS::from_bytes(&[]).is_none());
}

#[test]
fn registers_are_written_and_read_in_order() {
    let regs = IDEREGS {
        b_features_reg: 1,
        b_sector_count_reg: 2,
        b_sector_number_reg: 3,
        b_cyl_low_reg: 4,
        b_cyl_high_reg: 5,
        b_drive_head_reg: 6,
        b_command_reg: 7,
        b_reserved: 8,
    };
    let mut out = vec![0xEE];
    regs.write_to(&mut out);
    assert_eq!(out, vec![0xEE, 1, 2, 3, 4, 5, 6, 7, 8]);
    let back = IDEREGS::read_at(&out, 1);
    assert_eq!(back.b_features_reg, 1);
    assert_eq!(back.b_sector_count_reg, 2);
    assert_eq!(back.b_sector_number_reg, 3);
    assert_eq!(back.b_cyl_low_reg, 4);
    assert_eq!(back.b_cyl_high_reg, 5);
    assert_eq!(back.b_drive_head_reg, 6);
    assert_eq!(back.b_command_reg, 7);
    assert_eq!(back.b_reserved, 8);
    let mut zero = Vec::new();
    IDEREGS::zeroed().write_to(&mut zero);
    assert_eq!(zero, vec![0u8; 8]);
}

#[test]
fn command_record_round_trips() {
    assert_eq!(SENDCMDINPARAMS::zeroed().to_bytes(), vec![0u8; 528]);
    let mut bytes = pattern(528);
    let command = SENDCMDINPARAMS::from_bytes(&bytes).unwrap();
    assert_eq!(command.c_buffer_size, le(&bytes, 0));
    assert_eq!(command.ir_drive_regs.b_features_reg, bytes[4]);
    assert_eq!(command.ir_drive_regs.b_command_reg, bytes[10]);
    assert_eq!(command.ir_drive_regs.b_reserved, bytes[11]);
    assert_eq!(command.b_drive_number, bytes[12]);
    assert_eq!(&command.c_buffer[..], &bytes[13..525]);
    // The padding is written as zero.
    bytes[525] = 0;
    bytes[526] = 0;
    bytes[527] = 0;
    assert_eq!(command.to_bytes(), bytes);
    assert!(SENDCMDINPARAMS::from_bytes(&bytes[..527]).is_none());
}

#[test]
fn result_record_is_read_by_position() {
    let bytes = pattern(1043);
    let result = SENDCMDOUTPARAMS::from_bytes(&bytes).unwrap();
    assert_eq!(result.c_buffer_size, le(&bytes, 0));
    assert_eq!(result.ir_drive_regs.b_features_reg, bytes[4]);
    assert_eq!(result.ir_drive_regs.b_drive_head_reg, bytes[9]);
    assert_eq!(result.ir_drive_regs.b_reserved, bytes[11]);
    assert_eq!(result.b_drive_number, bytes[12]);
    assert_eq!(result.b_status_reg, bytes[13]);
    assert_eq!(result.b_error_reg, bytes[14]);
    assert_eq!(result.b_interrupt_reason_reg, bytes[15]);
    assert_eq!(&result.b_reserved[..], &bytes[16..19]);
    assert_eq!(&result.b_buffer[..], &bytes[19..531]);
    assert!(SENDCMDOUTPARAMS::from_bytes(&bytes[..532]).is_some());
    assert!(SENDCMDOUTPARAMS::from_bytes(&bytes[..531]).is_none());
}

#[test]
fn descriptor_is_read_by_position() {
    let bytes = pattern(64);
    let d = STORAGE_DEVICE_DESCRIPTOR::from_bytes(&bytes).unwrap();
    assert_eq!(d.version, le(&bytes, 0));
    assert_eq!(d.size, le(&bytes, 4));
    assert_eq!(d.device_type, bytes[8]);
    assert_eq!(d.vendor_id_offset, le(&bytes, 12));
    assert_eq!(d.product_id_offset, le(&bytes, 16));
    assert_eq!(d.product_revision_offset, le(&bytes, 20));
    assert_eq!(d.serial_number_offset, le(&bytes, 24));
    assert_eq!(d.bus_type, bytes[28]);
    assert_eq!(d.raw_properties_length, le(&bytes, 32));
    assert_eq!(d.raw_device_properties, [bytes[36]]);
    assert!(STORAGE_DEVICE_DESCRIPTOR::from_bytes(&bytes[..40]).is_some());
    assert!(STORAGE_DEVICE_DESCRIPTOR::from_bytes(&bytes[..39]).is_none());
}

#[test]
fn property_query_is_written_by_position() {
    let query = STORAGE_PROPERTY_QUERY {
        PropertyId: 0x0403_0201,
        QueryType: 0x0807_0605,
        AdditionalParameters: [9],
    };
    assert_eq!(query.to_bytes(), vec![1, 2, 3, 4, 5, 6, 7, 8, 9, 0, 0, 0]);
}

#[test]
fn short_and_long_integers_are_little_endian() {
    assert_eq!(read_le_u16_at(&[9, 0x34, 0x12], 1), 0x1234);
    assert_eq!(read_le_u16_at(&[0xFF, 0xFF], 0), u16::MAX);
    for v in [0i64, 1, -1, 255, -256, i64::MAX, i64::MIN, 0x0102_0304_0506_0708, -500_107_862_016] {
        let mut bytes = vec![0xAB];
        bytes.extend_from_slice(&v.to_le_bytes());
        assert_eq!(read_le_i64(&bytes, 1), v);
    }
}

#[test]
fn smart_version_record_is_read_by_position() {
    let bytes = pattern(30);
    let v = GETVERSIONINPARAMS::from_bytes(&bytes).unwrap();
    assert_eq!(v.b_version, bytes[0]);
    assert_eq!(v.b_revision, bytes[1]);
    assert_eq!(v.b_reserved, bytes[2]);
    assert_eq!(v.b_ide_device_map, bytes[3]);
    assert_eq!(v.f_capabilities, le(&bytes, 4));
    assert_eq!(v.dw_reserved, [le(&bytes, 8), le(&bytes, 12), le(&bytes, 16), le(&bytes, 20)]);
    assert!(GETVERSIONINPARAMS::from_bytes(&bytes[..24]).is_some());
    assert!(GETVERSIONINPARAMS::from_bytes(&bytes[..23]).is_none());
}

#[test]
fn geometry_is_read_by_position() {
    let bytes = pattern(40);
    let g = DISK_GEOMETRY::from_bytes(&bytes).unwrap();
    assert_eq!(g.cylinders, le(&bytes, 0));
    assert_eq!(g.media_type, bytes[4]);
    assert_eq!(g.tracks_per_cylinder, u16::from_le_bytes([bytes[6], bytes[7]]));
    assert_eq!(g.sectors_per_track, u16::from_le_bytes([bytes[8], bytes[9]]));
    assert_eq!(g.bytes_per_sector, u16::from_le_bytes([bytes[10], bytes[11]]));
    assert!(DISK_GEOMETRY::from_bytes(&bytes[..12]).is_some());
    assert!(DISK_GEOMETRY::from_bytes(&bytes[..11]).is_none());
    let shifted = DISK_GEOMETRY::read_at(&bytes, 5);
    assert_eq!(shifted.cylinders, le(&bytes, 5));
    assert_eq!(shifted.media_type, bytes[9]);
    assert_eq!(shifted.bytes_per_sector, u16::from_le_bytes([bytes[15], bytes[16]]));

    let mut disk = vec![0u8; 32];
    disk[0..4].copy_from_slice(&60801u32.to_le_bytes());
    disk[4] = 12;
    disk[5] = 0xEE;
    disk[6..8].copy_from_slice(&255u16.to_le_bytes());
    disk[8..10].copy_from_slice(&63u16.to_le_bytes());
    disk[10..12].copy_from_slice(&512u16.to_le_bytes());
    disk[12..16].copy_from_slice(&[0xEE; 4]);
    disk[16..24].copy_from_slice(&500_107_862_016i64.to_le_bytes());
    disk[24] = 7;
    let ex = DISK_GEOMETRY_EX::from_bytes(&disk).unwrap();
    assert_eq!(ex.geometry.cylinders, 60801);
    assert_eq!(ex.geometry.media_type, 12);
    assert_eq!(ex.geometry.tracks_per_cylinder, 255);
    assert_eq!(ex.geometry.sectors_per_track, 63);
    assert_eq!(ex.geometry.bytes_per_sector, 512);
    assert_eq!(ex.disk_size, 500_107_862_016);
    assert_eq!(ex.data, [7]);
    assert!(DISK_GEOMETRY_EX::from_bytes(&disk[..31]).is_none());
}
