use kknd2_cplc_parser::DecodeError;
use kknd2_cplc_parser::creature_library::parse_library;

fn push_u16(bytes: &mut Vec<u8>, value: u16) {
    bytes.push((value & 0xff) as u8);
    bytes.push((value >> 8) as u8);
}

fn push_u32(bytes: &mut Vec<u8>, value: u32) {
    bytes.push((value & 0xff) as u8);
    bytes.push(((value >> 8) & 0xff) as u8);
    bytes.push(((value >> 16) & 0xff) as u8);
    bytes.push(((value >> 24) & 0xff) as u8);
}

fn library_header(total_entries: u16) -> Vec<u8> {
    let mut bytes = Vec::new();
    push_u32(&mut bytes, 0x4c43324b);
    push_u16(&mut bytes, total_entries);
    bytes
}

/// A minimal valid bitmap: a 14-byte header and no pixel payload.
fn push_minimal_bitmap(bytes: &mut Vec<u8>) {
    push_u16(bytes, 0x4d42);
    push_u32(bytes, 14); // declared size: the header alone
    push_u16(bytes, 0);
    push_u16(bytes, 0);
    push_u32(bytes, 14); // pixel data offset
}

/// An entry with the given id and name bytes, no metadata, no properties,
/// and a minimal bitmap.
fn push_plain_entry(bytes: &mut Vec<u8>, id: u16, name: &[u8]) {
    push_u32(bytes, 0x5243324b);
    push_u16(bytes, id);
    bytes.push(name.len() as u8);
    bytes.extend_from_slice(name);
    push_u16(bytes, 0); // metadata length
    bytes.extend_from_slice(&[0xee; 6]); // fixed skip after the metadata
    push_u16(bytes, 0); // property count
    bytes.push(0x77); // trailing marker
    push_minimal_bitmap(bytes);
}

#[test]
fn a_single_entry_library_holds_exactly_that_creature() {
    let mut bytes = library_header(1);
    push_plain_entry(&mut bytes, 7, b"Raider");
    let library = parse_library(bytes).unwrap();
    assert_eq!(library.len(), 1);
    let creature = library.get(&7).unwrap();
    assert_eq!(creature.id, 7);
    assert_eq!(creature.name, "Raider");
    assert_eq!(creature.size, 32);
}

#[test]
fn the_size_hint_is_the_metadata_length_plus_thirty_two() {
    let mut bytes = library_header(1);
    push_u32(&mut bytes, 0x5243324b);
    push_u16(&mut bytes, 4);
    bytes.push(3);
    bytes.extend_from_slice(b"Orc");
    push_u16(&mut bytes, 10); // metadata length
    bytes.extend_from_slice(&[0xee; 16]); // metadata block and fixed skip
    push_u16(&mut bytes, 0);
    bytes.push(0);
    push_minimal_bitmap(&mut bytes);
    let library = parse_library(bytes).unwrap();
    assert_eq!(library.get(&4).unwrap().size, 42);
}

#[test]
fn an_empty_library_decodes_to_an_empty_table() {
    let library = parse_library(library_header(0)).unwrap();
    assert_eq!(library.len(), 0);
}

#[test]
fn several_entries_are_all_keyed_by_their_ids() {
    let mut bytes = library_header(3);
    push_plain_entry(&mut bytes, 1, b"Grunt");
    push_plain_entry(&mut bytes, 9, b"Tank");
    push_plain_entry(&mut bytes, 500, b"Queen");
    let library = parse_library(bytes).unwrap();
    assert_eq!(library.len(), 3);
    assert_eq!(library.get(&1).unwrap().name, "Grunt");
    assert_eq!(library.get(&9).unwrap().name, "Tank");
    assert_eq!(library.get(&500).unwrap().name, "Queen");
}

#[test]
fn a_duplicate_id_overwrites_and_parsing_reads_on_for_the_missing_count() {
    let mut bytes = library_header(2);
    push_plain_entry(&mut bytes, 5, b"First");
    push_plain_entry(&mut bytes, 5, b"Second");
    push_plain_entry(&mut bytes, 6, b"Third");
    let library = parse_library(bytes).unwrap();
    assert_eq!(library.len(), 2);
    assert_eq!(library.get(&5).unwrap().name, "Second");
    assert_eq!(library.get(&6).unwrap().name, "Third");
}

#[test]
fn wrong_library_magic_fails_before_anything_else_is_read() {
    let mut bytes = library_header(1);
    bytes[0] = 0x4c; // 0x4c43324b becomes 0x4c43324c
    push_plain_entry(&mut bytes, 7, b"Raider");
    assert_eq!(parse_library(bytes).unwrap_err(), DecodeError::BadMagic { expected: 0x4c43324b, found: 0x4c43324c, offset: 0 });
}

#[test]
fn wrong_entry_magic_aborts_the_whole_parse() {
    let mut bytes = library_header(1);
    push_plain_entry(&mut bytes, 7, b"Raider");
    bytes[6] = 0x00; // the entry magic starts at offset 6
    assert_eq!(parse_library(bytes).unwrap_err(), DecodeError::BadMagic { expected: 0x5243324b, found: 0x52433200, offset: 6 });
}

#[test]
fn a_library_that_runs_out_before_the_declared_count_is_truncated() {
    let mut bytes = library_header(2);
    push_plain_entry(&mut bytes, 7, b"Raider");
    assert_eq!(parse_library(bytes).unwrap_err(), DecodeError::TruncatedInput);
}

#[test]
fn a_file_shorter_than_its_header_is_truncated() {
    assert_eq!(parse_library(vec![]).unwrap_err(), DecodeError::TruncatedInput);
    assert_eq!(parse_library(vec![0x4b, 0x32]).unwrap_err(), DecodeError::TruncatedInput);
    assert_eq!(parse_library(vec![0x4b, 0x32, 0x43, 0x4c, 0x01]).unwrap_err(), DecodeError::TruncatedInput);
}

#[test]
fn an_invalid_name_is_a_bad_encoding() {
    let mut bytes = library_header(1);
    push_plain_entry(&mut bytes, 7, &[0xff, 0xfe]);
    assert_eq!(parse_library(bytes).unwrap_err(), DecodeError::BadEncoding);
}

#[test]
fn a_multi_byte_name_is_decoded_as_text_not_copied_as_bytes() {
    let mut bytes = library_header(1);
    push_plain_entry(&mut bytes, 7, "Ärgernis".as_bytes());
    let library = parse_library(bytes).unwrap();
    let name = &library.get(&7).unwrap().name;
    assert_eq!(name, "Ärgernis");
    assert_eq!(name.chars().count(), 8);
    assert_eq!(name.len(), 9); // nine bytes, eight characters
}

#[test]
fn a_name_length_that_overruns_the_file_is_truncated() {
    let mut bytes = library_header(1);
    push_u32(&mut bytes, 0x5243324b);
    push_u16(&mut bytes, 7);
    bytes.push(200); // declares 200 name bytes
    bytes.extend_from_slice(b"short");
    assert_eq!(parse_library(bytes).unwrap_err(), DecodeError::TruncatedInput);
}

#[test]
fn a_metadata_skip_past_the_end_is_out_of_bounds() {
    let mut bytes = library_header(1);
    push_u32(&mut bytes, 0x5243324b);
    push_u16(&mut bytes, 7);
    bytes.push(1);
    bytes.push(b'A');
    push_u16(&mut bytes, 60000); // metadata length far past the end
    bytes.extend_from_slice(&[0xee; 6]);
    assert_eq!(parse_library(bytes).unwrap_err(), DecodeError::OutOfBounds);
}

#[test]
fn wrong_bitmap_magic_aborts_the_whole_parse() {
    let mut bytes = library_header(1);
    push_u32(&mut bytes, 0x5243324b);
    push_u16(&mut bytes, 7);
    bytes.push(1);
    bytes.push(b'A');
    push_u16(&mut bytes, 0);
    bytes.extend_from_slice(&[0xee; 6]);
    push_u16(&mut bytes, 0);
    bytes.push(0);
    let bitmap_offset = bytes.len();
    push_u16(&mut bytes, 0x4d43); // not the bitmap signature
    push_u32(&mut bytes, 14);
    push_u16(&mut bytes, 0);
    push_u16(&mut bytes, 0);
    push_u32(&mut bytes, 14);
    assert_eq!(parse_library(bytes).unwrap_err(), DecodeError::BadMagic { expected: 0x4d42, found: 0x4d43, offset: bitmap_offset });
}

#[test]
fn a_bitmap_payload_past_the_end_is_out_of_bounds() {
    let mut bytes = library_header(1);
    push_u32(&mut bytes, 0x5243324b);
    push_u16(&mut bytes, 7);
    bytes.push(1);
    bytes.push(b'A');
    push_u16(&mut bytes, 0);
    bytes.extend_from_slice(&[0xee; 6]);
    push_u16(&mut bytes, 0);
    bytes.push(0);
    push_u16(&mut bytes, 0x4d42);
    push_u32(&mut bytes, 500); // declared size far past the end
    push_u16(&mut bytes, 0);
    push_u16(&mut bytes, 0);
    push_u32(&mut bytes, 14);
    assert_eq!(parse_library(bytes).unwrap_err(), DecodeError::OutOfBounds);
}

#[test]
fn plain_properties_are_skipped_over() {
    let mut bytes = library_header(1);
    push_u32(&mut bytes, 0x5243324b);
    push_u16(&mut bytes, 8);
    bytes.push(4);
    bytes.extend_from_slice(b"Mech");
    push_u16(&mut bytes, 0);
    bytes.extend_from_slice(&[0xee; 6]);
    push_u16(&mut bytes, 2); // two properties
    for (name, kind) in [(b"Speed", 0u8), (b"Armor", 9u8)] {
        bytes.push(name.len() as u8);
        bytes.extend_from_slice(name);
        bytes.push(kind); // a non-array property type tag
        bytes.extend_from_slice(&[0x55; 14]); // its fixed-width value
    }
    bytes.push(0);
    push_minimal_bitmap(&mut bytes);
    let library = parse_library(bytes).unwrap();
    assert_eq!(library.get(&8).unwrap().name, "Mech");
}

#[test]
fn array_properties_are_walked_through_item_by_item() {
    for array_kind in [1u8, 2, 3] {
        let mut bytes = library_header(1);
        push_u32(&mut bytes, 0x5243324b);
        push_u16(&mut bytes, 8);
        bytes.push(4);
        bytes.extend_from_slice(b"Mech");
        push_u16(&mut bytes, 0);
        bytes.extend_from_slice(&[0xee; 6]);
        push_u16(&mut bytes, 1); // one property
        bytes.push(5);
        bytes.extend_from_slice(b"Costs");
        bytes.push(array_kind); // an array property type tag
        bytes.extend_from_slice(&[0x55; 12]); // the array-list header skip
        push_u16(&mut bytes, 2); // two items
        bytes.push(3);
        bytes.extend_from_slice(b"oil");
        push_u32(&mut bytes, 1200);
        bytes.push(5);
        bytes.extend_from_slice(b"metal");
        push_u32(&mut bytes, 800);
        bytes.push(0);
        push_minimal_bitmap(&mut bytes);
        let library = parse_library(bytes).unwrap();
        assert_eq!(library.get(&8).unwrap().name, "Mech");
    }
}

#[test]
fn a_truncated_array_property_is_truncated_input() {
    let mut bytes = library_header(1);
    push_u32(&mut bytes, 0x5243324b);
    push_u16(&mut bytes, 8);
    bytes.push(4);
    bytes.extend_from_slice(b"Mech");
    push_u16(&mut bytes, 0);
    bytes.extend_from_slice(&[0xee; 6]);
    push_u16(&mut bytes, 1);
    bytes.push(5);
    bytes.extend_from_slice(b"Costs");
    bytes.push(2);
    bytes.extend_from_slice(&[0x55; 12]);
    push_u16(&mut bytes, 2); // declares two items but the file ends
    assert_eq!(parse_library(bytes).unwrap_err(), DecodeError::TruncatedInput);
}
