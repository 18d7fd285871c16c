use rp_binary_info::DataType;
use rp_binary_info::Header;
use rp_binary_info::MappingTableEntry;
use rp_binary_info::HEADER_SIZE;
use rp_binary_info::ID_RP_BINARY_END;
use rp_binary_info::ID_RP_PROGRAM_NAME;
use rp_binary_info::ID_RP_PROGRAM_VERSION_STRING;
use rp_binary_info::TAG_RASPBERRY_PI;
use rp_binary_info::build_date;
use rp_binary_info::custom_integer;
use rp_binary_info::custom_string;
use rp_binary_info::entry_count;
use rp_binary_info::make_tag;
use rp_binary_info::program_name;
use rp_binary_info::translate_address;
use rp_binary_info::version;
use rp_binary_info::entry::Addr;
use rp_binary_info::entry::IdAndInt;
use rp_binary_info::entry::IdAndString;
use rp_binary_info::entry::ENTRY_SIZE;
use rp_binary_info::image::read_cstr;
use rp_binary_info::image::Image;

#[test]
fn make_tag_matches_reserved_constant() {
    assert_eq!(make_tag(b'R', b'P'), TAG_RASPBERRY_PI);
    assert_eq!(make_tag(b'R', b'P'), 0x5052);
}

#[test]
fn make_tag_is_deterministic() {
    assert_eq!(make_tag(b'A', b'Z'), make_tag(b'A', b'Z'));
    assert_eq!(make_tag(0, 0), 0);
    assert_eq!(make_tag(0xff, 0xff), 0xffff);
}

#[test]
fn make_tag_distinguishes_pairs() {
    // Distinct pairs, including the two orders of the same letters, give
    // distinct tags.
    assert_ne!(make_tag(b'R', b'P'), make_tag(b'P', b'R'));
    assert_ne!(make_tag(b'A', b'B'), make_tag(b'A', b'C'));
    assert_ne!(make_tag(b'A', b'B'), make_tag(b'C', b'B'));
    assert_eq!(make_tag(b'P', b'R'), 0x5250);
}

#[test]
fn data_type_codes_round_trip() {
    let all = [
        (DataType::Raw, 1),
        (DataType::SizedData, 2),
        (DataType::BinaryInfoListZeroTerminated, 3),
        (DataType::Bson, 4),
        (DataType::IdAndInt, 5),
        (DataType::IdAndString, 6),
        (DataType::BlockDevice, 7),
        (DataType::PinsWithFunction, 8),
        (DataType::PinsWithName, 9),
        (DataType::PinsWithNames, 10),
    ];
    for (dt, code) in all {
        assert_eq!(dt.code(), code);
        assert_eq!(DataType::from_code(code), Some(dt));
    }
    assert_eq!(DataType::from_code(0), None);
    assert_eq!(DataType::from_code(11), None);
    assert_eq!(DataType::from_code(0xffff), None);
}

#[test]
fn program_name_record_shape() {
    let e = program_name(0x1000_0040);
    assert_eq!(e.header.data_type, DataType::IdAndString);
    assert_eq!(e.header.tag, TAG_RASPBERRY_PI);
    assert_eq!(e.id, ID_RP_PROGRAM_NAME);
    assert_eq!(e.value, 0x1000_0040);
}

#[test]
fn version_and_build_date_record_shape() {
    let v = version(0x1000_0080);
    assert_eq!(v.header.data_type, DataType::IdAndString);
    assert_eq!(v.header.tag, TAG_RASPBERRY_PI);
    assert_eq!(v.id, ID_RP_PROGRAM_VERSION_STRING);
    assert_eq!(v.value, 0x1000_0080);
    let b = build_date(0x1000_00c0);
    assert_eq!(b.header.data_type, DataType::IdAndString);
    assert_eq!(b.header.tag, TAG_RASPBERRY_PI);
    assert_eq!(b.value, 0x1000_00c0);
}

#[test]
fn custom_records_round_trip() {
    // Encoding a record and decoding the bytes reports the same data
    // type, tag, id and value.
    let tag = make_tag(b'M', b'Y');
    let e = custom_integer(tag, ID_RP_BINARY_END, 0x1003_0000);
    assert_eq!(e.header.data_type, DataType::IdAndInt);
    let bytes = e.encode();
    assert_eq!(bytes.len(), ENTRY_SIZE);
    let back = IdAndInt::decode(&bytes, 0).expect("an encoded record decodes");
    assert_eq!(back, e);

    let s = custom_string(tag, 0x1234_5678, 0x2000_0000);
    assert_eq!(s.header.data_type, DataType::IdAndString);
    let bytes = s.encode();
    let back = IdAndString::decode(&bytes, 0).expect("an encoded record decodes");
    assert_eq!(back, s);
}

#[test]
fn record_wire_layout_is_little_endian() {
    // data_type 5, tag, id and value, each little-endian.
    let e = custom_integer(0x5052, 0x0102_0304, 0xa1b2_c3d4);
    let bytes = e.encode();
    assert_eq!(
        bytes,
        vec![0x05, 0x00, 0x52, 0x50, 0x04, 0x03, 0x02, 0x01, 0xd4, 0xc3, 0xb2, 0xa1]
    );
}

#[test]
fn decode_rejects_wrong_shape() {
    let e = custom_integer(TAG_RASPBERRY_PI, 1, 2);
    let bytes = e.encode();
    // An IdAndInt record does not decode as IdAndString, and vice versa.
    assert!(IdAndString::decode(&bytes, 0).is_none());
    let s = custom_string(TAG_RASPBERRY_PI, 1, 2);
    let bytes = s.encode();
    assert!(IdAndInt::decode(&bytes, 0).is_none());
    // Truncated bytes decode as nothing.
    assert!(IdAndString::decode(&bytes[..ENTRY_SIZE - 1], 0).is_none());
    assert!(IdAndString::decode(&bytes, 1).is_none());
}

#[test]
fn header_reads_back_its_inputs() {
    let h = Header::new(Addr(0x1000_0100), Addr(0x1000_0120), 0x1000_0200);
    assert_eq!(h.entries_start(), 0x1000_0100);
    assert_eq!(h.entries_end(), 0x1000_0120);
    assert_eq!(h.mapping_table(), 0x1000_0200);
    assert_eq!(h.marker_start(), 0x7188_ebf2);
    assert_eq!(h.marker_end(), 0xe71a_a390);
}

#[test]
fn header_markers_do_not_depend_on_inputs() {
    let a = Header::new(Addr(0), Addr(0), 0);
    let b = Header::new(Addr(0xffff_ffff), Addr(0xffff_ffff), 0xffff_ffff);
    assert_eq!(a.marker_start(), b.marker_start());
    assert_eq!(a.marker_end(), b.marker_end());
}

#[test]
fn header_round_trips_through_bytes() {
    let h = Header::new(Addr(0x1000_0100), Addr(0x1000_0110), 0x1000_0200);
    let bytes = h.encode();
    assert_eq!(bytes.len(), HEADER_SIZE);
    let back = Header::decode(&bytes, 0).expect("an encoded header decodes");
    assert_eq!(back.entries_start(), h.entries_start());
    assert_eq!(back.entries_end(), h.entries_end());
    assert_eq!(back.mapping_table(), h.mapping_table());
}

#[test]
fn header_wire_layout_is_little_endian() {
    let h = Header::new(Addr(0x0102_0304), Addr(0x0506_0708), 0x090a_0b0c);
    assert_eq!(
        h.encode(),
        vec![
            0xf2, 0xeb, 0x88, 0x71, // marker_start
            0x04, 0x03, 0x02, 0x01, // entries_start
            0x08, 0x07, 0x06, 0x05, // entries_end
            0x0c, 0x0b, 0x0a, 0x09, // mapping_table
            0x90, 0xa3, 0x1a, 0xe7, // marker_end
        ]
    );
}

#[test]
fn decoded_values_reencode_to_the_same_bytes() {
    // The wire form is unique: whatever decodes also re-encodes to the
    // bytes it came from.
    let record_bytes = vec![0x05, 0x00, 0x52, 0x50, 0xde, 0x65, 0xf4, 0x68, 0x00, 0x00, 0x03, 0x10];
    let e = IdAndInt::decode(&record_bytes, 0).expect("a well-formed record decodes");
    assert_eq!(e.encode(), record_bytes);

    let h = Header::new(Addr(0x1000_0100), Addr(0x1000_0110), 0x1000_0200);
    let header_bytes = h.encode();
    let back = Header::decode(&header_bytes, 0).expect("an encoded header decodes");
    assert_eq!(back.encode(), header_bytes);
}

#[test]
fn header_decode_rejects_corrupted_magic() {
    let h = Header::new(Addr(0x10), Addr(0x20), 0x30);
    let mut bytes = h.encode();
    bytes[0] ^= 0xff;
    assert!(Header::decode(&bytes, 0).is_none());
    let mut bytes = h.encode();
    bytes[19] ^= 0x01;
    assert!(Header::decode(&bytes, 0).is_none());
    let bytes = h.encode();
    assert!(Header::decode(&bytes[..HEADER_SIZE - 1], 0).is_none());
}

fn sentinel() -> MappingTableEntry {
    MappingTableEntry {
        source_addr_start: 0,
        dest_addr_start: 0,
        dest_addr_end: 0,
    }
}

#[test]
fn mapping_table_translates_covered_address() {
    // One real entry followed by the sentinel: a covered address resolves
    // to the same distance into the source region.
    let table = [
        MappingTableEntry {
            source_addr_start: 0x1000_0000,
            dest_addr_start: 0x2000_0000,
            dest_addr_end: 0x2000_0100,
        },
        sentinel(),
    ];
    assert_eq!(translate_address(&table, 0x2000_0050), Some(0x1000_0050));
    assert_eq!(translate_address(&table, 0x2000_0000), Some(0x1000_0000));
    assert_eq!(translate_address(&table, 0x2000_00ff), Some(0x1000_00ff));
}

#[test]
fn mapping_table_misses_uncovered_address() {
    let table = [
        MappingTableEntry {
            source_addr_start: 0x1000_0000,
            dest_addr_start: 0x2000_0000,
            dest_addr_end: 0x2000_0100,
        },
        sentinel(),
    ];
    assert_eq!(translate_address(&table, 0x2000_0200), None);
    assert_eq!(translate_address(&table, 0x2000_0100), None);
    assert_eq!(translate_address(&table, 0x1fff_ffff), None);
    assert_eq!(translate_address(&table, 0), None);
}

#[test]
fn mapping_table_walk_stops_at_sentinel() {
    // An entry placed after the sentinel is never reached.
    let table = [
        sentinel(),
        MappingTableEntry {
            source_addr_start: 0x1000_0000,
            dest_addr_start: 0x2000_0000,
            dest_addr_end: 0x2000_0100,
        },
    ];
    assert_eq!(translate_address(&table, 0x2000_0050), None);
}

#[test]
fn mapping_table_first_covering_entry_wins() {
    let table = [
        MappingTableEntry {
            source_addr_start: 0x1000_0000,
            dest_addr_start: 0x2000_0000,
            dest_addr_end: 0x2000_0100,
        },
        MappingTableEntry {
            source_addr_start: 0x1100_0000,
            dest_addr_start: 0x2000_0080,
            dest_addr_end: 0x2000_0200,
        },
        sentinel(),
    ];
    assert_eq!(translate_address(&table, 0x2000_0090), Some(0x1000_0090));
    assert_eq!(translate_address(&table, 0x2000_0150), Some(0x1100_00d0));
}

#[test]
fn entry_count_recovers_element_count() {
    assert_eq!(entry_count(0x1000_0100, 0x1000_0100), 0);
    assert_eq!(entry_count(0x1000_0100, 0x1000_0104), 1);
    assert_eq!(entry_count(0x1000_0100, 0x1000_0120), 8);
}

#[test]
fn placed_entry_table_counts_its_slots() {
    for n in [0usize, 1, 7] {
        let mut img = Image::new(0x1000_0000);
        let addrs: Vec<Addr> = (0..n).map(|k| Addr(0x2000_0000 + 4 * k as u32)).collect();
        let (start, end) = img.place_entry_table(&addrs);
        assert_eq!(entry_count(start.0, end.0), n as u32);
        assert_eq!(img.len(), 4 * n);
    }
}

#[test]
fn placed_records_decode_from_the_image() {
    // Place a program-name string and its record, then read both back as
    // the external reader would.
    let base = 0x1000_0000;
    let mut img = Image::new(base);
    let name_addr = img.append(b"hello world\0");
    let entry = program_name(name_addr);
    let a = entry.addr(&mut img);

    let offset = img.addr_to_offset(a.0);
    let bytes = img.as_bytes();
    let back = IdAndString::decode(bytes, offset).expect("the placed record decodes");
    assert_eq!(back.header.data_type, DataType::IdAndString);
    assert_eq!(back.header.tag, make_tag(b'R', b'P'));
    assert_eq!(back.id, ID_RP_PROGRAM_NAME);
    assert_eq!(back.value, name_addr);
    let text = read_cstr(bytes, (back.value - base) as usize).expect("the string reads back");
    assert_eq!(text, b"hello world");
}

#[test]
fn read_cstr_needs_a_terminator() {
    assert_eq!(read_cstr(b"abc\0def", 0), Some(b"abc".to_vec()));
    assert_eq!(read_cstr(b"abc\0def", 4), None);
    assert_eq!(read_cstr(b"\0", 0), Some(b"".to_vec()));
    assert_eq!(read_cstr(b"abc", 0), None);
    assert_eq!(read_cstr(b"abc\0", 9), None);
}

#[test]
fn whole_image_walks_end_to_end() {
    // Build a small image: two strings, three records, the entry table,
    // the mapping table and the header, then walk it as a reader.
    let base = 0x1000_0000;
    let mut img = Image::new(base);
    let name_addr = img.append(b"example\0");
    let version_addr = img.append(b"1.2.3\0");
    let a1 = program_name(name_addr).addr(&mut img);
    let a2 = version(version_addr).addr(&mut img);
    let a3 = custom_integer(TAG_RASPBERRY_PI, ID_RP_BINARY_END, 0x1003_0000).addr(&mut img);
    let (start, end) = img.place_entry_table(&[a1, a2, a3]);
    let table = [
        MappingTableEntry {
            source_addr_start: 0x1000_0000,
            dest_addr_start: 0x2000_0000,
            dest_addr_end: 0x2000_0100,
        },
        sentinel(),
    ];
    let table_addr = img.place_mapping_table(&table);
    let header_addr = img.place_header(&Header::new(start, end, table_addr));

    let header_offset = img.addr_to_offset(header_addr);
    let bytes = img.as_bytes();
    let h = Header::decode(bytes, header_offset).expect("the header decodes");
    assert_eq!(entry_count(h.entries_start(), h.entries_end()), 3);
    assert_eq!(h.mapping_table(), table_addr);

    // Walk the entry table: each slot holds the address of a record.
    let first_slot = (h.entries_start() - base) as usize;
    let slot = u32::from_le_bytes(bytes[first_slot..first_slot + 4].try_into().unwrap());
    assert_eq!(slot, a1.0);
    let record = IdAndString::decode(bytes, (slot - base) as usize).unwrap();
    assert_eq!(record.id, ID_RP_PROGRAM_NAME);
    assert_eq!(
        read_cstr(bytes, (record.value - base) as usize),
        Some(b"example".to_vec())
    );

    // Resolve a runtime address through the mapping table.
    assert_eq!(translate_address(&table, 0x2000_0050), Some(0x1000_0050));
    assert_eq!(translate_address(&table, 0x2000_0200), None);
}
