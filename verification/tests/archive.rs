use mpq_archive::parser::{
    get_header_type, parse, read_headers, MPQHashType, MPQSectionType,
    MPQ_ARCHIVE_HEADER_TYPE, MPQ_USER_DATA_HEADER_TYPE,
};
use mpq_archive::{
    MPQBlockTableEntry, MPQBuilder, MPQFileHeader, MPQHashTableEntry, MPQParserError,
    MPQUserData,
};

fn basic_file_header() -> Vec<u8> {
    vec![
        b'M',
        b'P',
        b'Q', // Magic
        MPQ_ARCHIVE_HEADER_TYPE,
        0xd0,
        0x00,
        0x00,
        0x00, // header_size
        0xcf,
        0xa3,
        0x03,
        0x00, // archive_size
        0x03,
        0x00, // format_version
        0x05,
        0x00, // sector_size_shift
        0xbf,
        0xa0,
        0x03,
        0x00, // hash_table_offset
        0xbf,
        0xa2,
        0x03,
        0x00, // block_table_offset
        0x01,
        0x00,
        0x00,
        0x00, // hash_table_entries
        0x02,
        0x00,
        0x00,
        0x00, // block_table_entries
    ]
}

fn basic_user_header() -> Vec<u8> {
    vec![
        b'M',
        b'P',
        b'Q', // Magic
        MPQ_USER_DATA_HEADER_TYPE,
        0x00,
        0x00,
        0x00,
        0x00, // user_data_size (unused)
        0x18,
        0x00,
        0x00,
        0x00, // archive_header_offset
        0x04,
        0x00,
        0x00,
        0x00, // user_data_header_size
        0xbe,
        0xef,
        0xca,
        0x4e, // content
        0x00,
        0x00,
        0x00,
        0x00, // Some padded data, MPQFileHeader should continue
    ]
}

fn encrypted_hash_table() -> Vec<u8> {
    vec![
        0x07, 0xf8, 0xb8, 0x55, 0x4f, 0xb4, 0x8e, 0x3c, 0x7c, 0xa8, 0x7b, 0xac, 0xae, 0x1a,
        0x00, 0xe0, 0xc7, 0xc9, 0xdc, 0xc5, 0x3e, 0x6c, 0xfe, 0xc3, 0xa2, 0x02, 0x33, 0xa7,
        0xb8, 0x1b, 0x6d, 0xb7, 0x83, 0x4f, 0x4c, 0x63, 0x15, 0x59, 0x4d, 0xf8, 0xda, 0x7e,
        0x55, 0xfa, 0xe7, 0xb5, 0x2b, 0x0b, 0xe6, 0xd8, 0x76, 0xe6, 0xef, 0x30, 0x78, 0x8b,
        0x70, 0x31, 0xdb, 0x02, 0xa2, 0x78, 0xb8, 0x89, 0x07, 0x90, 0x24, 0xb9, 0xb4, 0xec,
        0xdc, 0xa3, 0x53, 0xe9, 0x4e, 0x95, 0xfc, 0x4e, 0x52, 0x15, 0x92, 0x59, 0xe3, 0xf1,
        0x37, 0x9f, 0x4b, 0xec, 0x53, 0x8d, 0x7c, 0x04, 0x02, 0xdc, 0xe7, 0xcd, 0x95, 0xfe,
        0x32, 0x21, 0x83, 0x94, 0x8d, 0x32, 0x23, 0x36, 0xa9, 0xd4, 0x76, 0xe1, 0x58, 0x3e,
        0x12, 0x12, 0x33, 0x2a, 0xb1, 0x95, 0x30, 0x1e, 0xff, 0xac, 0x45, 0x0e, 0xb1, 0x11,
        0xd5, 0x00, 0xc1, 0xed, 0x64, 0x49, 0xd4, 0xa3, 0x4b, 0x5a, 0xe0, 0x69, 0x0a, 0x5a,
        0x35, 0x4a, 0x31, 0xd5, 0xa7, 0x53, 0xe3, 0xf8, 0xd8, 0x27, 0x11, 0x93, 0x86, 0x65,
        0x21, 0xd5, 0x3d, 0xfd, 0xd6, 0x4d, 0x45, 0x62, 0xda, 0xc3, 0x7b, 0x0c, 0xab, 0xc7,
        0x9d, 0x48, 0xbb, 0xbf, 0x15, 0x21, 0xfe, 0xe0, 0xca, 0x9e, 0x9a, 0x07, 0x3c, 0x91,
        0x65, 0x26, 0xe1, 0xbb, 0x74, 0xeb, 0xce, 0x93, 0x32, 0x20, 0xad, 0x73, 0x59, 0x9c,
        0x96, 0x24, 0xae, 0xfd, 0xf7, 0x99, 0xcf, 0xbb, 0x09, 0xf2, 0x39, 0x61, 0x4e, 0x36,
        0xd5, 0x80, 0xdb, 0x5b, 0xa2, 0x61, 0x5a, 0x3d, 0xc2, 0x0b, 0xe3, 0x23, 0x30, 0x5a,
        0xd4, 0xcd, 0xc6, 0x4a, 0x11, 0x47, 0xa1, 0x95, 0x7d, 0xbb, 0xd8, 0xcf, 0x76, 0xcf,
        0xc9, 0x04, 0x13, 0x75, 0xba, 0x19, 0x98, 0xc8, 0xd6, 0xe3, 0xbe, 0x91, 0xb2, 0x1c,
        0x6e, 0xb0, 0x8d, 0x87,
    ]
}

fn decrypted_hash_table() -> Vec<u8> {
    vec![
        0xcb, 0x37, 0x84, 0xd3, 0xec, 0xea, 0xdf, 0x07, 0x00, 0x00, 0x00, 0x00, 0x09, 0x00,
        0x00, 0x00, 0x4b, 0xa5, 0xc2, 0xaa, 0x95, 0x2b, 0x76, 0xf4, 0x00, 0x00, 0x00, 0x00,
        0x02, 0x00, 0x00, 0x00, 0xff, 0xff, 0xff, 0xff, 0xff, 0xff, 0xff, 0xff, 0xff, 0xff,
        0xff, 0xff, 0xff, 0xff, 0xff, 0xff, 0xff, 0xff, 0xff, 0xff, 0xff, 0xff, 0xff, 0xff,
        0xff, 0xff, 0xff, 0xff, 0xff, 0xff, 0xff, 0xff, 0xff, 0xff, 0xff, 0xff, 0xff, 0xff,
        0xff, 0xff, 0xff, 0xff, 0xff, 0xff, 0xff, 0xff, 0xff, 0xff, 0x70, 0xb7, 0xe5, 0xc9,
        0xb6, 0xf6, 0x18, 0x3b, 0x00, 0x00, 0x00, 0x00, 0x05, 0x00, 0x00, 0x00, 0x7b, 0x08,
        0x3c, 0x34, 0x82, 0x36, 0x8e, 0x27, 0x00, 0x00, 0x00, 0x00, 0x04, 0x00, 0x00, 0x00,
        0xa0, 0x1e, 0x2b, 0x3b, 0x57, 0xf0, 0x2e, 0xb7, 0x00, 0x00, 0x00, 0x00, 0x06, 0x00,
        0x00, 0x00, 0xdc, 0x8b, 0x7e, 0x5a, 0x5c, 0x3f, 0x25, 0xff, 0x00, 0x00, 0x00, 0x00,
        0x01, 0x00, 0x00, 0x00, 0x10, 0x79, 0x65, 0xfd, 0xa7, 0x98, 0x9b, 0x4e, 0x00, 0x00,
        0x00, 0x00, 0x08, 0x00, 0x00, 0x00, 0x9c, 0xc2, 0x83, 0xd3, 0x92, 0x2e, 0x40, 0xef,
        0x00, 0x00, 0x00, 0x00, 0x00, 0x00, 0x00, 0x00, 0xff, 0xff, 0xff, 0xff, 0xff, 0xff,
        0xff, 0xff, 0xff, 0xff, 0xff, 0xff, 0xff, 0xff, 0xff, 0xff, 0xff, 0xff, 0xff, 0xff,
        0xff, 0xff, 0xff, 0xff, 0xff, 0xff, 0xff, 0xff, 0xff, 0xff, 0xff, 0xff, 0xff, 0xff,
        0xff, 0xff, 0xff, 0xff, 0xff, 0xff, 0xff, 0xff, 0xff, 0xff, 0xff, 0xff, 0xff, 0xff,
        0xcf, 0xb0, 0xa8, 0x1d, 0x28, 0xff, 0xce, 0xa2, 0x00, 0x00, 0x00, 0x00, 0x07, 0x00,
        0x00, 0x00, 0x89, 0x22, 0x95, 0x31, 0xa3, 0xfa, 0x5f, 0x6a, 0x00, 0x00, 0x00, 0x00,
        0x03, 0x00, 0x00, 0x00,
    ]
}

fn encrypted_block_table() -> Vec<u8> {
    vec![
        0xa7, 0x67, 0x48, 0x3d, 0x7a, 0xd1, 0x08, 0xca, 0x4c, 0xbc, 0x35, 0xf8, 0x06, 0x04,
        0x34, 0xe9, 0xbe, 0xb3, 0xb5, 0xb3, 0x7d, 0xeb, 0x0e, 0x11, 0x05, 0xb9, 0xf4, 0x17,
        0xd3, 0x1b, 0x38, 0x21, 0x2f, 0xfd, 0x94, 0x62, 0xa1, 0xea, 0xe2, 0x2e, 0x29, 0xde,
        0xe8, 0xdf, 0x4d, 0x84, 0x0b, 0x54, 0x88, 0xe4, 0x87, 0xdc, 0xcc, 0xca, 0xd6, 0xf6,
        0xe6, 0xb4, 0x09, 0x0c, 0xf8, 0x27, 0xec, 0x87, 0x5d, 0x33, 0x7b, 0x3a, 0x9c, 0xb5,
        0xd9, 0x80, 0x8c, 0x3c, 0x19, 0x81, 0x6c, 0x76, 0xec, 0xac, 0x53, 0x55, 0xd6, 0xa6,
        0xf6, 0x7d, 0x18, 0xfb, 0xa9, 0x86, 0x30, 0x33, 0x29, 0xcb, 0x63, 0x11, 0xfa, 0xb5,
        0xe6, 0x02, 0x7f, 0x23, 0x4b, 0xe9, 0xd8, 0x77, 0x0c, 0x4d, 0xc8, 0x1e, 0x41, 0xe9,
        0xf2, 0x84, 0x6e, 0xc6, 0x75, 0xbd, 0x47, 0x8b, 0x04, 0x7d, 0x48, 0xd9, 0xc2, 0xa1,
        0x02, 0x0d, 0x04, 0xdf, 0xb3, 0xc7, 0x82, 0xf5, 0x77, 0x37, 0x81, 0x9d, 0x7f, 0xfb,
        0x65, 0x5d, 0x96, 0xe3, 0xa2, 0x0a, 0x68, 0x1b, 0xb6, 0x6b, 0x7c, 0x12, 0x3e, 0x7b,
        0x63, 0x9c, 0x00, 0x7b, 0x7e, 0x23,
    ]
}

fn decrypted_block_table() -> Vec<u8> {
    vec![
        0x2c, 0x00, 0x00, 0x00, 0xd7, 0x02, 0x00, 0x00, 0x7a, 0x03, 0x00, 0x00, 0x00, 0x02,
        0x00, 0x81, 0x03, 0x03, 0x00, 0x00, 0x21, 0x03, 0x00, 0x00, 0xe9, 0x04, 0x00, 0x00,
        0x00, 0x02, 0x00, 0x81, 0x24, 0x06, 0x00, 0x00, 0x30, 0xf6, 0x02, 0x00, 0x7d, 0x52,
        0x07, 0x00, 0x00, 0x02, 0x00, 0x81, 0x54, 0xfc, 0x02, 0x00, 0xe2, 0x00, 0x00, 0x00,
        0x4e, 0x01, 0x00, 0x00, 0x00, 0x02, 0x00, 0x81, 0x36, 0xfd, 0x02, 0x00, 0x61, 0x00,
        0x00, 0x00, 0x61, 0x00, 0x00, 0x00, 0x00, 0x02, 0x00, 0x81, 0x97, 0xfd, 0x02, 0x00,
        0x2b, 0x05, 0x00, 0x00, 0xb2, 0x07, 0x00, 0x00, 0x00, 0x02, 0x00, 0x81, 0xc2, 0x02,
        0x03, 0x00, 0x07, 0x19, 0x00, 0x00, 0x8f, 0x30, 0x00, 0x00, 0x00, 0x02, 0x00, 0x81,
        0xc9, 0x1b, 0x03, 0x00, 0x15, 0x02, 0x00, 0x00, 0x60, 0x09, 0x00, 0x00, 0x00, 0x02,
        0x00, 0x81, 0xde, 0x1d, 0x03, 0x00, 0x78, 0x00, 0x00, 0x00, 0xa4, 0x00, 0x00, 0x00,
        0x00, 0x02, 0x00, 0x81, 0x56, 0x1e, 0x03, 0x00, 0xfe, 0x00, 0x00, 0x00, 0x20, 0x01,
        0x00, 0x00, 0x00, 0x02, 0x00, 0x81,
    ]
}

/// The block of `(listfile)`: the tag of bzip2, and the list of the eight
/// file names, each followed by a carriage return and a line feed, packed.
fn listfile_block() -> Vec<u8> {
    vec![
        0x10, 0x42, 0x5a, 0x68, 0x39, 0x31, 0x41, 0x59, 0x26, 0x53, 0x59, 0x7e, 0x75, 0x8b,
        0xc8, 0x00, 0x00, 0x3a, 0x55, 0x80, 0x00, 0x12, 0x00, 0x01, 0x04, 0x00, 0x3f, 0xa7,
        0xdf, 0x20, 0x20, 0x00, 0x6a, 0x12, 0x93, 0x51, 0x99, 0x23, 0x23, 0x10, 0xf5, 0x04,
        0xa1, 0x35, 0x3d, 0x4f, 0x53, 0x43, 0x20, 0xc8, 0x90, 0x1a, 0x09, 0xe1, 0x48, 0x2a,
        0xbc, 0x98, 0xde, 0xd2, 0x43, 0xd1, 0xa8, 0xad, 0xdb, 0x5e, 0xf9, 0x03, 0x3a, 0x7e,
        0xa6, 0xcf, 0x08, 0x7c, 0x04, 0x3d, 0xe1, 0x09, 0x59, 0x85, 0x62, 0x99, 0x01, 0xaa,
        0xf6, 0x5a, 0x74, 0xe7, 0x68, 0x66, 0xec, 0x06, 0x00, 0xb4, 0xa8, 0xea, 0x8f, 0xb5,
        0x56, 0x4f, 0x4d, 0xad, 0x0d, 0x74, 0x27, 0x14, 0x41, 0x40, 0xaf, 0xe2, 0xee, 0x48,
        0xa7, 0x0a, 0x12, 0x0f, 0xce, 0xb1, 0x79, 0x00,
    ]
}

fn put(buffer: &mut [u8], at: usize, bytes: &[u8]) {
    buffer[at..at + bytes.len()].copy_from_slice(bytes);
}

/// An archive with the header, the hash table, the block table and the
/// block of `(listfile)` of the replay that the known values come from. The
/// blocks of the other files are left zero. `base` is where the archive
/// header stands: with a `base` above zero a user data section comes first.
fn reference_archive(base: usize) -> Vec<u8> {
    let mut buffer = vec![0u8; base + 205044];
    if base > 0 {
        put(&mut buffer, 0, b"MPQ\x1b");
        put(&mut buffer, 4, &512u32.to_le_bytes());
        put(&mut buffer, 8, &(base as u32).to_le_bytes());
        put(&mut buffer, 12, &5u32.to_le_bytes());
        put(&mut buffer, 16, b"hello");
    }
    put(&mut buffer, base, b"MPQ\x1a");
    put(&mut buffer, base + 4, &44u32.to_le_bytes());
    put(&mut buffer, base + 8, &205044u32.to_le_bytes());
    put(&mut buffer, base + 12, &1u16.to_le_bytes());
    put(&mut buffer, base + 14, &3u16.to_le_bytes());
    put(&mut buffer, base + 16, &204628u32.to_le_bytes());
    put(&mut buffer, base + 20, &204884u32.to_le_bytes());
    put(&mut buffer, base + 24, &16u32.to_le_bytes());
    put(&mut buffer, base + 28, &10u32.to_le_bytes());
    put(&mut buffer, base + 0x31DDE, &listfile_block());
    put(&mut buffer, base + 204628, &encrypted_hash_table());
    put(&mut buffer, base + 204884, &encrypted_block_table());
    buffer
}

#[test]
fn it_parses_headers() {
    // Let's build the MoPaQ progressively.
    let mut user_data_header_input = basic_user_header();
    let mut archive_header_input = basic_file_header();
    user_data_header_input.append(&mut archive_header_input);
    let (_input, (_archive_header, user_data_header)) =
        read_headers(&user_data_header_input).unwrap();
    assert!(user_data_header.is_some());
}

#[test]
fn it_generates_hashes() {
    let builder = MPQBuilder::new();
    let hash_table_key = builder
        .mpq_string_hash("(hash table)", MPQHashType::Table)
        .unwrap();
    let block_table_key = builder
        .mpq_string_hash("(block table)", MPQHashType::Table)
        .unwrap();
    assert_eq!(hash_table_key, 0xc3af3770);
    assert_eq!(block_table_key, 0xec83b3a3);
    let encrypted_hash_table_data = encrypted_hash_table();
    let decrypted_hash_table_data = decrypted_hash_table();
    let (_, decrypted_entries) = builder
        .mpq_data_decrypt(&encrypted_hash_table_data, hash_table_key)
        .unwrap();
    assert_eq!(decrypted_entries, decrypted_hash_table_data);
    let encrypted_block_table_data = encrypted_block_table();
    let decrypted_block_table_data = decrypted_block_table();
    let (_, decrypted_entries) = builder
        .mpq_data_decrypt(&encrypted_block_table_data, block_table_key)
        .unwrap();
    assert_eq!(decrypted_entries, decrypted_block_table_data);
}

#[test]
fn mpq_file_header_it_parses_header() {
    // The archive header by itself
    let basic_file_header_input = basic_file_header();
    let (input, header_type) = get_header_type(&basic_file_header_input).unwrap();
    assert_eq!(header_type, MPQSectionType::Header);
    let (_input, header_data) = MPQFileHeader::parse(input, 0).unwrap();
    assert_eq!(header_data.hash_table_entries, 1);
    assert_eq!(header_data.block_table_entries, 2);
}

#[test]
fn mpq_user_data_it_parses_header() {
    // The user data header by itself
    let user_data_header_input = basic_user_header();
    let (input, header_type) = get_header_type(&user_data_header_input).unwrap();
    assert_eq!(header_type, MPQSectionType::UserData);
    let (input, user_data) = MPQUserData::parse(input).unwrap();
    assert_eq!(user_data.archive_header_offset, 0x18);
    assert_eq!(user_data.user_data_header_size, 0x04);
    assert_eq!(user_data.content, vec![0xbe, 0xef, 0xca, 0x4e]);
    assert_eq!(input, &b""[..]);
}

#[test]
fn mpyq_test_file_header() {
    let file_contents = reference_archive(0);
    let (_input, mpq) = parse(&file_contents).unwrap();
    assert_eq!(mpq.archive_header.header_size, 44);
    assert_eq!(mpq.archive_header.archive_size, 205044);
    assert_eq!(mpq.archive_header.format_version, 1);
    assert_eq!(mpq.archive_header.sector_size_shift, 3);
    assert_eq!(mpq.archive_header.hash_table_offset, 204628);
    assert_eq!(mpq.archive_header.block_table_offset, 204884);
    assert_eq!(mpq.archive_header.hash_table_entries, 16);
    assert_eq!(mpq.archive_header.block_table_entries, 10);
}

#[test]
fn mpyq_test_file_list() {
    let file_contents = reference_archive(0);
    let (_input, mpq) = parse(&file_contents).unwrap();
    assert_eq!(
        mpq.get_files(&file_contents).unwrap(),
        vec![
            ("replay.attributes.events".to_string(), 2400usize),
            ("replay.details".to_string(), 890usize),
            ("replay.game.events".to_string(), 479869usize),
            ("replay.initData".to_string(), 1257usize),
            ("replay.load.info".to_string(), 97usize),
            ("replay.message.events".to_string(), 334usize),
            ("replay.smartcam.events".to_string(), 12431usize),
            ("replay.sync.events".to_string(), 1970usize),
        ]
    );
}

#[test]
fn mpyq_test_hash_table() {
    let file_contents = reference_archive(0);
    let (_input, mpq) = parse(&file_contents).unwrap();
    let mut expected_entries: Vec<MPQHashTableEntry> = vec![];
    expected_entries.push(MPQHashTableEntry::new(
        0xD38437CB, 0x07DFEAEC, 0x0000, 0x0000, 0x00000009,
    ));
    expected_entries.push(MPQHashTableEntry::new(
        0xAAC2A54B, 0xF4762B95, 0x0000, 0x0000, 0x00000002,
    ));
    expected_entries.push(MPQHashTableEntry::new(
        0xFFFFFFFF, 0xFFFFFFFF, 0xFFFF, 0xFFFF, 0xFFFFFFFF,
    ));
    expected_entries.push(MPQHashTableEntry::new(
        0xFFFFFFFF, 0xFFFFFFFF, 0xFFFF, 0xFFFF, 0xFFFFFFFF,
    ));
    expected_entries.push(MPQHashTableEntry::new(
        0xFFFFFFFF, 0xFFFFFFFF, 0xFFFF, 0xFFFF, 0xFFFFFFFF,
    ));
    expected_entries.push(MPQHashTableEntry::new(
        0xC9E5B770, 0x3B18F6B6, 0x0000, 0x0000, 0x00000005,
    ));
    expected_entries.push(MPQHashTableEntry::new(
        0x343C087B, 0x278E3682, 0x0000, 0x0000, 0x00000004,
    ));
    expected_entries.push(MPQHashTableEntry::new(
        0x3B2B1EA0, 0xB72EF057, 0x0000, 0x0000, 0x00000006,
    ));
    expected_entries.push(MPQHashTableEntry::new(
        0x5A7E8BDC, 0xFF253F5C, 0x0000, 0x0000, 0x00000001,
    ));
    expected_entries.push(MPQHashTableEntry::new(
        0xFD657910, 0x4E9B98A7, 0x0000, 0x0000, 0x00000008,
    ));
    expected_entries.push(MPQHashTableEntry::new(
        0xD383C29C, 0xEF402E92, 0x0000, 0x0000, 0x00000000,
    ));
    expected_entries.push(MPQHashTableEntry::new(
        0xFFFFFFFF, 0xFFFFFFFF, 0xFFFF, 0xFFFF, 0xFFFFFFFF,
    ));
    expected_entries.push(MPQHashTableEntry::new(
        0xFFFFFFFF, 0xFFFFFFFF, 0xFFFF, 0xFFFF, 0xFFFFFFFF,
    ));
    expected_entries.push(MPQHashTableEntry::new(
        0xFFFFFFFF, 0xFFFFFFFF, 0xFFFF, 0xFFFF, 0xFFFFFFFF,
    ));
    expected_entries.push(MPQHashTableEntry::new(
        0x1DA8B0CF, 0xA2CEFF28, 0x0000, 0x0000, 0x00000007,
    ));
    expected_entries.push(MPQHashTableEntry::new(
        0x31952289, 0x6A5FFAA3, 0x0000, 0x0000, 0x00000003,
    ));
    assert_eq!(mpq.hash_table_entries, expected_entries);
}

#[test]
fn mpyq_test_block_table() {
    let file_contents = reference_archive(0);
    let (_input, mpq) = parse(&file_contents).unwrap();
    let mut expected_entries: Vec<MPQBlockTableEntry> = vec![];
    expected_entries.push(MPQBlockTableEntry::new(0x0000002C, 727, 890, 0x81000200u32));
    expected_entries.push(MPQBlockTableEntry::new(
        0x00000303,
        801,
        1257,
        0x81000200u32,
    ));
    expected_entries.push(MPQBlockTableEntry::new(
        0x00000624,
        194096,
        479869,
        0x81000200u32,
    ));
    expected_entries.push(MPQBlockTableEntry::new(0x0002FC54, 226, 334, 0x81000200u32));
    expected_entries.push(MPQBlockTableEntry::new(0x0002FD36, 97, 97, 0x81000200u32));
    expected_entries.push(MPQBlockTableEntry::new(
        0x0002FD97,
        1323,
        1970,
        0x81000200u32,
    ));
    expected_entries.push(MPQBlockTableEntry::new(
        0x000302C2,
        6407,
        12431,
        0x81000200u32,
    ));
    expected_entries.push(MPQBlockTableEntry::new(
        0x00031BC9,
        533,
        2400,
        0x81000200u32,
    ));
    expected_entries.push(MPQBlockTableEntry::new(0x00031DDE, 120, 164, 0x81000200u32));
    expected_entries.push(MPQBlockTableEntry::new(0x00031E56, 254, 288, 0x81000200u32));
    assert_eq!(mpq.block_table_entries, expected_entries);
}

#[test]
fn sentinel_entries_of_the_hash_table() {
    let file_contents = reference_archive(0);
    let (_input, mpq) = parse(&file_contents).unwrap();
    for index in [2usize, 3, 4, 11, 12, 13] {
        assert_eq!(
            mpq.hash_table_entries[index],
            MPQHashTableEntry::new(0xFFFFFFFF, 0xFFFFFFFF, 0xFFFF, 0xFFFF, 0xFFFFFFFF)
        );
    }
    for entry in &mpq.block_table_entries {
        assert_eq!(entry.flags, 0x81000200);
    }
}

#[test]
fn parse_hands_back_what_follows_the_headers() {
    let file_contents = reference_archive(0);
    let (tail, mpq) = parse(&file_contents).unwrap();
    assert_eq!(tail.len(), 205044 - 44);
    assert_eq!(mpq.archive_header.offset, 0);
    assert!(mpq.user_data.is_none());
    assert!(mpq.archive_header.extended_file_header.is_some());
    assert_eq!(mpq.encryption_table.len(), 1280);
}

#[test]
fn archive_after_user_data() {
    let file_contents = reference_archive(1024);
    let (tail, mpq) = parse(&file_contents).unwrap();
    assert_eq!(tail.len(), 205044 - 44);
    assert_eq!(mpq.archive_header.offset, 1024);
    let user_data = mpq.user_data.as_ref().unwrap();
    assert_eq!(user_data.user_data_size, 512);
    assert_eq!(user_data.archive_header_offset, 1024);
    assert_eq!(user_data.user_data_header_size, 5);
    assert_eq!(user_data.content, b"hello".to_vec());
    assert_eq!(mpq.hash_table_entries.len(), 16);
    assert_eq!(mpq.block_table_entries.len(), 10);
    assert_eq!(mpq.block_table_entries[0], MPQBlockTableEntry::new(0x2C, 727, 890, 0x81000200));
    let (rest, list) = mpq
        .read_mpq_file_sector("(listfile)", false, &file_contents)
        .unwrap();
    assert_eq!(list.len(), 164);
    assert_eq!(rest.len(), 205044 - 0x31DDE - 120);
    assert_eq!(mpq.get_files(&file_contents).unwrap().len(), 8);
}

#[test]
fn reads_the_list_of_files() {
    let file_contents = reference_archive(0);
    let (_input, mpq) = parse(&file_contents).unwrap();
    let (_, list) = mpq
        .read_mpq_file_sector("(listfile)", false, &file_contents)
        .unwrap();
    assert_eq!(
        String::from_utf8(list).unwrap(),
        "replay.attributes.events\r\nreplay.details\r\nreplay.game.events\r\n\
         replay.initData\r\nreplay.load.info\r\nreplay.message.events\r\n\
         replay.smartcam.events\r\nreplay.sync.events\r\n"
    );
}

#[test]
fn a_file_that_is_not_there_reads_as_empty() {
    let file_contents = reference_archive(0);
    let (_input, mpq) = parse(&file_contents).unwrap();
    let (rest, data) = mpq
        .read_mpq_file_sector("no.such.file", false, &file_contents)
        .unwrap();
    assert!(data.is_empty());
    assert_eq!(rest.len(), file_contents.len());
    assert!(matches!(
        mpq.get_hash_table_entry("no.such.file"),
        Err(MPQParserError::HashTableEntryNotFound(name)) if name == "no.such.file"
    ));
    assert!(matches!(
        mpq.get_hash_table_entry("\u{20AC}"),
        Err(MPQParserError::UnhashableCharacter)
    ));
    let (_, data) = mpq
        .read_mpq_file_sector("\u{20AC}", false, &file_contents)
        .unwrap();
    assert!(data.is_empty());
}

#[test]
fn finds_entries_by_name_whatever_the_case() {
    let file_contents = reference_archive(0);
    let (_input, mpq) = parse(&file_contents).unwrap();
    let entry = mpq.get_hash_table_entry("replay.details").unwrap();
    assert_eq!(entry, MPQHashTableEntry::new(0xD383C29C, 0xEF402E92, 0, 0, 0));
    assert_eq!(mpq.get_hash_table_entry("REPLAY.DETAILS").unwrap(), entry);
    assert_eq!(
        mpq.get_hash_table_entry("(listfile)").unwrap().block_table_index,
        8
    );
}

#[test]
fn a_table_past_the_end_of_the_input_is_incomplete_data() {
    let mut file_contents = reference_archive(0);
    file_contents.truncate(205044 - 1);
    assert!(matches!(
        parse(&file_contents),
        Err(MPQParserError::IncompleteData)
    ));
    file_contents.truncate(204884 - 1);
    assert!(matches!(
        parse(&file_contents),
        Err(MPQParserError::IncompleteData)
    ));
    file_contents.truncate(40);
    assert!(matches!(
        parse(&file_contents),
        Err(MPQParserError::IncompleteData)
    ));
}

#[test]
fn headers_that_are_not_there() {
    assert!(matches!(
        parse(b"PK\x03\x04 and so on"),
        Err(MPQParserError::UnexpectedSection)
    ));
    assert!(matches!(parse(b""), Err(MPQParserError::UnexpectedSection)));
    assert!(matches!(parse(b"MPQ"), Err(MPQParserError::UnexpectedSection)));
    assert!(matches!(
        parse(b"MPQ\x1c0123456789012345678901234567890123456789"),
        Err(MPQParserError::UnexpectedSection)
    ));
    // A user data section, and then the end of the input.
    assert!(matches!(
        parse(&basic_user_header()),
        Err(MPQParserError::MissingArchiveHeader)
    ));
    // A user data section, and then something that is no archive header.
    let mut input = basic_user_header();
    input.extend_from_slice(b"MPQ\x1b0123456789012345678901234567890123456789");
    assert!(matches!(
        parse(&input),
        Err(MPQParserError::MissingArchiveHeader)
    ));
    // A user data section whose archive header offset points into itself.
    let mut input = basic_user_header();
    input[8] = 0x13;
    assert!(matches!(
        parse(&input),
        Err(MPQParserError::MissingArchiveHeader)
    ));
    // A user data section whose content runs past the end of the input.
    let mut input = basic_user_header();
    input[12] = 0x09;
    assert!(matches!(parse(&input), Err(MPQParserError::IncompleteData)));
}

#[test]
fn section_types() {
    assert_eq!(MPQSectionType::from(&[0x1au8][..]), MPQSectionType::Header);
    assert_eq!(MPQSectionType::from(&[0x1bu8][..]), MPQSectionType::UserData);
    assert_eq!(MPQSectionType::from(&[0x1cu8][..]), MPQSectionType::Unknown);
    assert_eq!(MPQSectionType::from(&[0x1au8, 0x1a][..]), MPQSectionType::Unknown);
    assert_eq!(MPQSectionType::from(&[][..]), MPQSectionType::Unknown);
    let (rest, section) = get_header_type(b"MPQ\x7fxyz").unwrap();
    assert_eq!(section, MPQSectionType::Unknown);
    assert_eq!(rest, b"xyz");
}

#[test]
fn header_without_extension() {
    let input = basic_file_header();
    let (rest, header) = MPQFileHeader::parse(&input[4..], 7).unwrap();
    assert!(rest.is_empty());
    assert_eq!(header.header_size, 0xd0);
    assert_eq!(header.archive_size, 0x3a3cf);
    assert_eq!(header.format_version, 3);
    assert_eq!(header.sector_size_shift, 5);
    assert_eq!(header.hash_table_offset, 0x3a0bf);
    assert_eq!(header.block_table_offset, 0x3a2bf);
    assert_eq!(header.extended_file_header, None);
    assert_eq!(header.offset, 7);
    assert!(matches!(
        MPQFileHeader::parse(&input[4..31], 0),
        Err(MPQParserError::IncompleteData)
    ));
}

#[test]
fn header_with_extension() {
    let mut input = basic_file_header();
    input[12] = 1;
    input.extend_from_slice(&(-2i64).to_le_bytes());
    input.extend_from_slice(&(-3i16).to_le_bytes());
    input.extend_from_slice(&0x1234i16.to_le_bytes());
    input.push(0xaa);
    let (rest, header) = MPQFileHeader::parse(&input[4..], 0).unwrap();
    assert_eq!(rest, &[0xaa][..]);
    let extension = header.extended_file_header.unwrap();
    assert_eq!(extension.extended_block_table_offset, -2);
    assert_eq!(extension.hash_table_offset_high, -3);
    assert_eq!(extension.block_table_offset_high, 0x1234);
    assert!(matches!(
        MPQFileHeader::parse(&input[4..43], 0),
        Err(MPQParserError::IncompleteData)
    ));
}

#[test]
fn builder_needs_an_archive_header() {
    let built = MPQBuilder::new().build(b"");
    assert_eq!(built.err(), Some("Missing archive header".to_string()));
    let builder = MPQBuilder::new()
        .with_archive_header(MPQFileHeader::default())
        .with_user_data(Some(MPQUserData::default()))
        .with_hash_table(vec![MPQHashTableEntry::new(1, 2, 3, 4, 5)])
        .with_block_table(vec![MPQBlockTableEntry::new(6, 7, 8, 9)]);
    let mpq = builder.build(b"").unwrap();
    assert_eq!(mpq.archive_header, MPQFileHeader::default());
    assert!(mpq.user_data.is_some());
    assert_eq!(mpq.hash_table_entries, vec![MPQHashTableEntry::new(1, 2, 3, 4, 5)]);
    assert_eq!(mpq.block_table_entries, vec![MPQBlockTableEntry::new(6, 7, 8, 9)]);
    assert_eq!(mpq.encryption_table.len(), 1280);
}
