use mpq_archive::parser::{MPQFileHeaderExtParser, MPQFileHeaderParser, MPQUserDataParser};
use mpq_archive::{MPQFileHeader, MPQParserError};

fn header_fields(format_version: u16) -> Vec<u8> {
    let mut fields = vec![];
    fields.extend_from_slice(&44u32.to_le_bytes());
    fields.extend_from_slice(&205044u32.to_le_bytes());
    fields.extend_from_slice(&format_version.to_le_bytes());
    fields.extend_from_slice(&3u16.to_le_bytes());
    fields.extend_from_slice(&204628u32.to_le_bytes());
    fields.extend_from_slice(&204884u32.to_le_bytes());
    fields.extend_from_slice(&16u32.to_le_bytes());
    fields.extend_from_slice(&10u32.to_le_bytes());
    fields.extend_from_slice(&(-7i64).to_le_bytes());
    fields.extend_from_slice(&5i16.to_le_bytes());
    fields.extend_from_slice(&(-6i16).to_le_bytes());
    fields
}

#[test]
fn header_field_by_field_is_the_header_in_one_go() {
    for format_version in [0u16, 1, 2] {
        let fields = header_fields(format_version);
        let (tail, parser) = MPQFileHeaderParser::new().parse(&fields).unwrap();
        let (rest, header) = MPQFileHeader::parse(&fields, 0).unwrap();
        assert_eq!(tail, rest);
        assert_eq!(tail.len(), if format_version == 1 { 0 } else { 12 });
        assert_eq!(parser.build().unwrap(), header);
    }
}

#[test]
fn header_fields_one_at_a_time() {
    let fields = header_fields(1);
    let parser = MPQFileHeaderParser::new();
    assert_eq!(parser, MPQFileHeaderParser::default());
    let (tail, parser) = parser.parse_header_size(&fields).unwrap();
    assert_eq!(parser.header_size, Some(44));
    assert_eq!(parser.archive_size, None);
    let (tail, parser) = parser.parse_archive_size(tail).unwrap();
    assert_eq!(parser.archive_size, Some(205044));
    let (tail, parser) = parser.parse_format_version(tail).unwrap();
    assert_eq!(parser.format_version, Some(1));
    let (tail, parser) = parser.parse_sector_size_shift(tail).unwrap();
    assert_eq!(parser.sector_size_shift, Some(3));
    let (tail, parser) = parser.parse_hash_table_offset(tail).unwrap();
    assert_eq!(parser.hash_table_offset, Some(204628));
    let (tail, parser) = parser.parse_block_table_offset(tail).unwrap();
    assert_eq!(parser.block_table_offset, Some(204884));
    let (tail, parser) = parser.parse_hash_table_entries(tail).unwrap();
    assert_eq!(parser.hash_table_entries, Some(16));
    let (tail, parser) = parser.parse_block_table_entries(tail).unwrap();
    assert_eq!(parser.block_table_entries, Some(10));
    assert_eq!(parser.extended_file_header, None);
    assert_eq!(tail.len(), 12);
    let (tail, parser) = parser.parse_extended_header_if_needed(tail).unwrap();
    assert!(tail.is_empty());
    let extension = parser.extended_file_header.unwrap();
    assert_eq!(extension.extended_block_table_offset, Some(-7));
    assert_eq!(extension.hash_table_offset_high, Some(5));
    assert_eq!(extension.block_table_offset_high, Some(-6));
    let header = parser.build().unwrap();
    assert_eq!(header.offset, 0);
    assert_eq!(header.hash_table_entries, 16);
    let built = header.extended_file_header.unwrap();
    assert_eq!(built.extended_block_table_offset, -7);
    assert_eq!(built.hash_table_offset_high, 5);
    assert_eq!(built.block_table_offset_high, -6);
}

#[test]
fn header_is_not_built_before_it_is_read() {
    let fields = header_fields(0);
    let parser = MPQFileHeaderParser::new();
    assert_eq!(parser.build(), Err("Missing header_size".to_string()));
    let (tail, parser) = parser.parse_header_size(&fields).unwrap();
    assert_eq!(parser.build(), Err("Missing archive_size".to_string()));
    let (tail, parser) = parser.parse_archive_size(tail).unwrap();
    assert_eq!(parser.build(), Err("Missing format_version".to_string()));
    let (tail, parser) = parser.parse_format_version(tail).unwrap();
    assert_eq!(parser.build(), Err("Missing sector_size_shift".to_string()));
    let (tail, parser) = parser.parse_sector_size_shift(tail).unwrap();
    assert_eq!(parser.build(), Err("Missing hash_table_offset".to_string()));
    let (tail, parser) = parser.parse_hash_table_offset(tail).unwrap();
    assert_eq!(parser.build(), Err("Missing block_table_offset".to_string()));
    let (tail, parser) = parser.parse_block_table_offset(tail).unwrap();
    assert_eq!(parser.build(), Err("Missing hash_table_entries".to_string()));
    let (tail, parser) = parser.parse_hash_table_entries(tail).unwrap();
    assert_eq!(parser.build(), Err("Missing block_table_entries".to_string()));
    let (_, parser) = parser.parse_block_table_entries(tail).unwrap();
    assert!(parser.build().is_ok());
    // An extension that was begun has to be complete too.
    let begun = MPQFileHeaderParser {
        extended_file_header: Some(MPQFileHeaderExtParser::new()),
        ..parser
    };
    assert_eq!(
        begun.build(),
        Err("Missing extended_block_table_offset".to_string())
    );
}

#[test]
fn extension_field_by_field() {
    let fields = header_fields(1);
    let parser = MPQFileHeaderExtParser::new();
    assert_eq!(
        parser.build(),
        Err("Missing extended_block_table_offset".to_string())
    );
    let (tail, parser) = parser.parse_extended_block_table_offset(&fields[28..]).unwrap();
    assert_eq!(parser.build(), Err("Missing hash_table_offset_high".to_string()));
    let (tail, parser) = parser.parse_hash_table_offset_high(tail).unwrap();
    assert_eq!(parser.build(), Err("Missing block_table_offset_high".to_string()));
    let (tail, parser) = parser.parse_block_table_offset_high(tail).unwrap();
    assert!(tail.is_empty());
    let extension = parser.build().unwrap();
    assert_eq!(extension.extended_block_table_offset, -7);
    assert_eq!(extension.hash_table_offset_high, 5);
    assert_eq!(extension.block_table_offset_high, -6);
    let (_, again) = MPQFileHeaderExtParser::new().parse(&fields[28..]).unwrap();
    assert_eq!(again, parser);
    assert!(matches!(
        MPQFileHeaderExtParser::new().parse(&fields[29..]),
        Err(MPQParserError::IncompleteData)
    ));
}

#[test]
fn header_fields_that_run_off_the_end() {
    let fields = header_fields(1);
    assert!(matches!(
        MPQFileHeaderParser::new().parse(&fields[..39]),
        Err(MPQParserError::IncompleteData)
    ));
    assert!(matches!(
        MPQFileHeaderParser::new().parse(&fields[..27]),
        Err(MPQParserError::IncompleteData)
    ));
    assert!(matches!(
        MPQFileHeaderParser::new().parse_header_size(&fields[..3]),
        Err(MPQParserError::IncompleteData)
    ));
}

fn user_data_fields() -> Vec<u8> {
    let mut fields = vec![];
    fields.extend_from_slice(&512u32.to_le_bytes());
    fields.extend_from_slice(&24u32.to_le_bytes());
    fields.extend_from_slice(&4u32.to_le_bytes());
    fields.extend_from_slice(&[0xbe, 0xef, 0xca, 0x4e]);
    fields.extend_from_slice(&[0, 0, 0, 0]);
    fields.extend_from_slice(b"MPQ\x1a");
    fields
}

#[test]
fn user_data_field_by_field() {
    let fields = user_data_fields();
    let (tail, parser) = MPQUserDataParser::new().parse(&fields).unwrap();
    assert_eq!(tail, b"MPQ\x1a");
    assert_eq!(parser.user_data_size, Some(512));
    assert_eq!(parser.archive_header_offset, Some(24));
    assert_eq!(parser.user_data_header_size, Some(4));
    assert_eq!(parser.user_data, vec![0xbe, 0xef, 0xca, 0x4e]);
    let user_data = parser.build().unwrap();
    assert_eq!(user_data.user_data_size, 512);
    assert_eq!(user_data.archive_header_offset, 24);
    assert_eq!(user_data.user_data_header_size, 4);
    assert_eq!(user_data.content, vec![0xbe, 0xef, 0xca, 0x4e]);
    // One part at a time.
    let (tail, parser) = MPQUserDataParser::new().parse_user_data_size(&fields).unwrap();
    let (tail, parser) = parser.parse_archive_header_offset(tail).unwrap();
    let (tail, parser) = parser.parse_user_data(tail).unwrap();
    assert_eq!(tail, b"MPQ\x1a");
    assert_eq!(parser.user_data, vec![0xbe, 0xef, 0xca, 0x4e]);
}

#[test]
fn user_data_is_not_built_before_it_is_read() {
    let fields = user_data_fields();
    let parser = MPQUserDataParser::new();
    assert_eq!(parser, MPQUserDataParser::default());
    assert!(matches!(
        MPQUserDataParser::new().build(),
        Err(MPQParserError::BuilderMissingField(field)) if field == "MPQUserData.user_data_size"
    ));
    let (tail, parser) = parser.parse_user_data_size(&fields).unwrap();
    let (_, too_early) = MPQUserDataParser::new().parse_user_data_size(&fields).unwrap();
    assert!(matches!(
        too_early.build(),
        Err(MPQParserError::BuilderMissingField(field))
            if field == "MPQUserData.archive_header_offset"
    ));
    // The user data cannot be read before the offset of the archive header.
    let (_, too_early) = MPQUserDataParser::new().parse_user_data_size(&fields).unwrap();
    assert!(matches!(
        too_early.parse_user_data(tail),
        Err(MPQParserError::BuilderMissingField(field))
            if field == "MPQUserData.archive_header_offset"
    ));
    let (_, parser) = parser.parse_archive_header_offset(tail).unwrap();
    assert!(matches!(
        parser.build(),
        Err(MPQParserError::BuilderMissingField(field))
            if field == "MPQUserData.user_data_header_size"
    ));
}

#[test]
fn user_data_that_leaves_no_place_for_the_archive_header() {
    let mut fields = user_data_fields();
    fields[4] = 19;
    assert!(matches!(
        MPQUserDataParser::new().parse(&fields),
        Err(MPQParserError::MissingArchiveHeader)
    ));
    let mut fields = user_data_fields();
    fields[8] = 30;
    assert!(matches!(
        MPQUserDataParser::new().parse(&fields),
        Err(MPQParserError::IncompleteData)
    ));
    let mut fields = user_data_fields();
    fields[4] = 29;
    assert!(matches!(
        MPQUserDataParser::new().parse(&fields),
        Err(MPQParserError::IncompleteData)
    ));
}
