use mpq_archive::parser::section_data::{
    get_mpq_type, read_mpq_header, read_section_data, MPQSectionType, MPQUserDataBuilder,
};
use mpq_archive::parser::MPQFileHeaderParser;
use mpq_archive::MPQParserError;

#[test]
fn it_parses_user_data_magic() {
    let user_data_header: Vec<u8> = vec![
        b'M', b'P', b'Q', // Magic
        0x1b, // 0x1b for User Data
        0x00, 0x02, 0x00, 0x00, // The user data size
    ];
    let archive_header: Vec<u8> = vec![
        b'M', b'P', b'Q', // Magic
        0x1a, // 0x1a for Archive Header
        0xd0, 0x00, 0x00, 0x00, // The archive header size
    ];
    assert_eq!(
        get_mpq_type(&user_data_header),
        Ok((
            &b"\x00\x02\x00\x00"[..],
            MPQSectionType::UserData(MPQUserDataBuilder::new())
        ))
    );
    assert_eq!(
        get_mpq_type(&archive_header),
        Ok((
            &b"\xd0\x00\x00\x00"[..],
            MPQSectionType::Header(MPQFileHeaderParser::new())
        ))
    );
}

#[test]
fn magic_of_no_known_section() {
    assert_eq!(
        get_mpq_type(b"MPQ\x1c rest"),
        Ok((&b" rest"[..], MPQSectionType::Unknown))
    );
    assert_eq!(get_mpq_type(b"MPK\x1a"), Err(MPQParserError::UnexpectedSection));
    assert_eq!(get_mpq_type(b"MPQ"), Err(MPQParserError::UnexpectedSection));
    assert_eq!(get_mpq_type(b""), Err(MPQParserError::UnexpectedSection));
}

fn user_data_section() -> Vec<u8> {
    let mut section = vec![];
    section.extend_from_slice(&512u32.to_le_bytes());
    section.extend_from_slice(&24u32.to_le_bytes());
    section.extend_from_slice(&4u32.to_le_bytes());
    section.extend_from_slice(&[0xbe, 0xef, 0xca, 0x4e]);
    section.extend_from_slice(&[0, 0, 0, 0]);
    section.extend_from_slice(b"MPQ\x1a");
    section
}

#[test]
fn reads_a_user_data_section_into_its_builder() {
    let section = user_data_section();
    let stale = MPQUserDataBuilder::new().with_size(1).with_user_data(b"old");
    let (tail, read) = read_section_data(&section, MPQSectionType::UserData(stale)).unwrap();
    assert_eq!(tail, b"MPQ\x1a");
    assert_eq!(
        read,
        MPQSectionType::UserData(
            MPQUserDataBuilder::new()
                .with_size(512)
                .with_archive_header_offset(24)
                .with_user_data(&[0xbe, 0xef, 0xca, 0x4e])
        )
    );
    let user_data = read.build_user_data().unwrap();
    assert_eq!(user_data.user_data_size, 512);
    assert_eq!(user_data.archive_header_offset, 24);
    assert_eq!(user_data.user_data_header_size, 4);
    assert_eq!(user_data.content, vec![0xbe, 0xef, 0xca, 0x4e]);
    assert_eq!(
        read_section_data(&section[..15], MPQSectionType::UserData(MPQUserDataBuilder::new())),
        Err(MPQParserError::IncompleteData)
    );
}

#[test]
fn reads_an_archive_header_into_a_parser() {
    let mut fields = vec![];
    fields.extend_from_slice(&32u32.to_le_bytes());
    fields.extend_from_slice(&1000u32.to_le_bytes());
    fields.extend_from_slice(&0u16.to_le_bytes());
    fields.extend_from_slice(&3u16.to_le_bytes());
    fields.extend_from_slice(&100u32.to_le_bytes());
    fields.extend_from_slice(&200u32.to_le_bytes());
    fields.extend_from_slice(&4u32.to_le_bytes());
    fields.extend_from_slice(&2u32.to_le_bytes());
    fields.extend_from_slice(b"rest");
    let (tail, read) = read_mpq_header(&fields).unwrap();
    assert_eq!(tail, b"rest");
    let (_, expected) = MPQFileHeaderParser::new().parse(&fields).unwrap();
    assert_eq!(read, MPQSectionType::Header(expected));
    let (tail, again) =
        read_section_data(&fields, MPQSectionType::Header(MPQFileHeaderParser::new())).unwrap();
    assert_eq!(tail, b"rest");
    assert_eq!(again, read);
    let header = read.build_archive_header().unwrap();
    assert_eq!(header.header_size, 32);
    assert_eq!(header.archive_size, 1000);
    assert_eq!(header.hash_table_entries, 4);
    assert_eq!(header.block_table_entries, 2);
    assert_eq!(header.extended_file_header, None);
    assert_eq!(read_mpq_header(&fields[..27]), Err(MPQParserError::IncompleteData));
}

#[test]
fn a_section_of_no_known_kind_is_not_read() {
    assert_eq!(
        read_section_data(b"anything", MPQSectionType::Unknown),
        Err(MPQParserError::UnexpectedSection)
    );
}

#[test]
fn sections_build_what_they_are() {
    let user_data = MPQSectionType::UserData(
        MPQUserDataBuilder::new().with_size(1).with_archive_header_offset(2),
    );
    assert_eq!(
        user_data.build_archive_header(),
        Err("Wrong section type".to_string())
    );
    let header = MPQSectionType::Header(MPQFileHeaderParser::new());
    assert_eq!(
        header.build_user_data().err(),
        Some("Wrong section type".to_string())
    );
    assert_eq!(
        MPQSectionType::Unknown.build_user_data().err(),
        Some("Wrong section type".to_string())
    );
    assert_eq!(
        MPQSectionType::Unknown.build_archive_header(),
        Err("Wrong section type".to_string())
    );
    assert_eq!(
        MPQSectionType::Header(MPQFileHeaderParser::new()).build_archive_header(),
        Err("Missing header_size".to_string())
    );
}

#[test]
fn user_data_builder() {
    assert_eq!(
        MPQUserDataBuilder::new().build().err(),
        Some("Missing size".to_string())
    );
    assert_eq!(
        MPQUserDataBuilder::new().with_size(9).build().err(),
        Some("Missing archive_header_offset".to_string())
    );
    assert_eq!(
        MPQUserDataBuilder::new().with_archive_header_offset(9).build().err(),
        Some("Missing size".to_string())
    );
    let user_data = MPQUserDataBuilder::new()
        .with_user_data(b"abc")
        .with_archive_header_offset(64)
        .with_size(128)
        .build()
        .unwrap();
    assert_eq!(user_data.user_data_size, 128);
    assert_eq!(user_data.archive_header_offset, 64);
    assert_eq!(user_data.user_data_header_size, 3);
    assert_eq!(user_data.content, b"abc".to_vec());
    let empty = MPQUserDataBuilder::new()
        .with_size(0)
        .with_archive_header_offset(16)
        .build()
        .unwrap();
    assert_eq!(empty.user_data_header_size, 0);
    assert!(empty.content.is_empty());
}
