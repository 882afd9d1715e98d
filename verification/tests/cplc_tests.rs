use kknd2_cplc_parser::DecodeError;
use kknd2_cplc_parser::cplc::Entity;
use kknd2_cplc_parser::cplc::file_pointer_to_offset;
use kknd2_cplc_parser::cplc::parse_cplc;

fn push_u16(bytes: &mut Vec<u8>, value: u16) {
    bytes.push((value & 0xff) as u8);
    bytes.push((value >> 8) as u8);
}

fn push_u32(bytes: &mut Vec<u8>, value: u32) {
    bytes.push((value & 0xff) as u8);
    bytes.push(((value >> 8) & 0xff) as u8);
    bytes.push(((value >> 16) & 0xff) as u8);
    bytes.push(((value >> 24) & 0xff) as u8);
}

/// A placement file preamble with bias 8, so stored pointers are absolute
/// file offsets, whose head pointer is `first`.
fn preamble(first: u32) -> Vec<u8> {
    let mut bytes = Vec::new();
    push_u32(&mut bytes, 0xdeadc0de);
    push_u32(&mut bytes, 8); // pointer bias
    push_u32(&mut bytes, 0); // declared file size, unused
    push_u32(&mut bytes, first); // head of the entity chain
    push_u32(&mut bytes, 0);
    push_u32(&mut bytes, 0);
    push_u32(&mut bytes, 0);
    bytes
}

/// The prologue shared by every record: tag, skip, coordinates, skip, lists.
fn push_record_prologue(bytes: &mut Vec<u8>, tag: u8, x: u32, y: u32, list_1: u32) {
    bytes.push(tag);
    bytes.extend_from_slice(&[0xaa; 4]);
    push_u32(bytes, x);
    push_u32(bytes, y);
    bytes.extend_from_slice(&[0xbb; 3]);
    push_u32(bytes, list_1);
    push_u32(bytes, 0x2222);
    push_u32(bytes, 0x3333);
    push_u32(bytes, 0x4444);
}

fn push_unit_record(bytes: &mut Vec<u8>, tag: u8, x: u32, y: u32, list_1: u32) {
    push_record_prologue(bytes, tag, x, y, list_1);
    bytes.extend_from_slice(&[0xcc; 24]);
    push_u16(bytes, 3); // team
    push_u16(bytes, 7); // flags
    push_u16(bytes, 9); // unknown
    push_u16(bytes, 11); // activation timer
}

#[test]
fn translate_maps_zero_to_zero() {
    assert_eq!(file_pointer_to_offset(0, 0), 0);
    assert_eq!(file_pointer_to_offset(77, 0), 0);
    assert_eq!(file_pointer_to_offset(0xffffffff, 0), 0);
}

#[test]
fn translate_adds_eight_and_subtracts_the_bias() {
    assert_eq!(file_pointer_to_offset(8, 100), 100);
    assert_eq!(file_pointer_to_offset(0, 1), 9);
    assert_eq!(file_pointer_to_offset(50, 42), 0);
    assert_eq!(file_pointer_to_offset(8, 0xffffffff), 0xffffffff);
}

#[test]
fn wrong_cplc_magic_fails_before_anything_else_is_read() {
    let mut bytes = preamble(0);
    bytes[3] = 0x00; // 0xdeadc0de becomes 0x00adc0de
    bytes.extend_from_slice(&[0xff; 64]); // garbage that is never reached
    assert_eq!(parse_cplc(bytes).unwrap_err(), DecodeError::BadMagic { expected: 0xdeadc0de, found: 0x00adc0de, offset: 0 });
}

#[test]
fn truncated_preamble_is_a_corrupt_chain() {
    assert_eq!(parse_cplc(vec![]).unwrap_err(), DecodeError::CorruptChain);
    assert_eq!(parse_cplc(vec![0xde, 0xc0]).unwrap_err(), DecodeError::CorruptChain);
    let mut bytes = preamble(0);
    bytes.truncate(20);
    assert_eq!(parse_cplc(bytes).unwrap_err(), DecodeError::CorruptChain);
}

#[test]
fn empty_chain_decodes_to_no_entities() {
    let entities = parse_cplc(preamble(0)).unwrap();
    assert_eq!(entities.len(), 0);
}

#[test]
fn single_unit_record_ends_the_chain_at_its_zero_pointer() {
    let mut bytes = preamble(28);
    push_unit_record(&mut bytes, 0x05, 640, 480, 0);
    let entities = parse_cplc(bytes).unwrap();
    assert_eq!(entities.len(), 1);
    assert_eq!(entities[0].kind, 0x05);
    assert_eq!(entities[0].placement.x, 640);
    assert_eq!(entities[0].placement.y, 480);
    assert_eq!(entities[0].placement.list_1, 0);
    match &entities[0].entity {
        Entity::Unit(unit) => {
            assert_eq!(unit.team, 3);
            assert_eq!(unit.flags, 7);
            assert_eq!(unit.unknown, 9);
            assert_eq!(unit.activation_timer, 11);
        },
        other => panic!("expected a unit, found {:?}", other),
    }
}

#[test]
fn every_undedicated_tag_decodes_as_a_unit_keeping_the_tag() {
    for tag in [0x00u8, 0x02, 0x03, 0x05, 0x08, 0x0a, 0x42, 0xa8, 0xaa, 0xff] {
        let mut bytes = preamble(28);
        push_unit_record(&mut bytes, tag, 1, 2, 0);
        let entities = parse_cplc(bytes).unwrap();
        assert_eq!(entities.len(), 1);
        assert_eq!(entities[0].kind, tag);
        assert!(matches!(entities[0].entity, Entity::Unit(_)));
    }
}

#[test]
fn tag_1_selects_the_cpu_player_layout() {
    let mut bytes = preamble(28);
    push_record_prologue(&mut bytes, 0x01, 5, 6, 0);
    bytes.extend_from_slice(&[0xcc; 20]);
    push_u32(&mut bytes, 2); // ally mode
    push_u16(&mut bytes, 150); // cost modifier
    push_u16(&mut bytes, 90); // time modifier
    push_u16(&mut bytes, 55); // confidence
    push_u16(&mut bytes, 17);
    push_u16(&mut bytes, 23);
    push_u16(&mut bytes, 29);
    let entities = parse_cplc(bytes).unwrap();
    assert_eq!(entities.len(), 1);
    assert_eq!(entities[0].kind, 0x01);
    match &entities[0].entity {
        Entity::CpuPlayerInformation(info) => {
            assert_eq!(info.ally_mode, 2);
            assert_eq!(info.cost_modifier, 150);
            assert_eq!(info.time_modifier, 90);
            assert_eq!(info.confidence, 55);
            assert_eq!(info.default_units, [17, 23, 29]);
        },
        other => panic!("expected CPU player information, found {:?}", other),
    }
}

#[test]
fn tag_4_selects_the_map_configuration_layout() {
    let mut bytes = preamble(28);
    push_record_prologue(&mut bytes, 0x04, 5, 6, 0);
    bytes.extend_from_slice(&[0xcc; 20]);
    for colour in 1..=9u16 {
        push_u16(&mut bytes, colour); // team colours
    }
    push_u16(&mut bytes, 2); // local team
    push_u16(&mut bytes, 1); // local race
    push_u32(&mut bytes, 0x01020304); // counter
    for restriction in [31u16, 32, 33, 34] {
        push_u16(&mut bytes, restriction); // build restrictions
    }
    push_u16(&mut bytes, 5000); // ally funds
    push_u16(&mut bytes, 6000); // enemy funds
    push_u16(&mut bytes, 7000); // player funds
    push_u16(&mut bytes, 2); // mission lose condition
    push_u16(&mut bytes, 1); // mission win condition
    push_u16(&mut bytes, 4); // max tech level
    bytes.extend_from_slice(&[0xdd; 4]);
    push_u16(&mut bytes, 8); // counter function
    push_u16(&mut bytes, 3); // matrix set
    push_u16(&mut bytes, 45); // par time
    let entities = parse_cplc(bytes).unwrap();
    assert_eq!(entities.len(), 1);
    assert_eq!(entities[0].kind, 0x04);
    match &entities[0].entity {
        Entity::MapConfiguration(configuration) => {
            assert_eq!(configuration.team_colours, [1, 2, 3, 4, 5, 6, 7, 8, 9]);
            assert_eq!(configuration.local_team, 2);
            assert_eq!(configuration.local_race, 1);
            assert_eq!(configuration.counter, 0x01020304);
            assert_eq!(configuration.build_restrictions, [31, 32, 33, 34]);
            assert_eq!(configuration.ally_funds, 5000);
            assert_eq!(configuration.enemy_funds, 6000);
            assert_eq!(configuration.player_funds, 7000);
            assert_eq!(configuration.mission_lose_condition, 2);
            assert_eq!(configuration.mission_win_condition, 1);
            assert_eq!(configuration.max_tech_level, 4);
            assert_eq!(configuration.counter_function, 8);
            assert_eq!(configuration.matrix_set, 3);
            assert_eq!(configuration.par_time, 45);
        },
        other => panic!("expected a map configuration, found {:?}", other),
    }
}

#[test]
fn tags_9_and_a9_select_the_prologue_only_layouts() {
    let mut bytes = preamble(28);
    push_record_prologue(&mut bytes, 0x09, 11, 12, 0);
    let entities = parse_cplc(bytes).unwrap();
    assert_eq!(entities.len(), 1);
    assert!(matches!(entities[0].entity, Entity::ScrollStart(_)));
    assert_eq!(entities[0].placement.x, 11);

    let mut bytes = preamble(28);
    push_record_prologue(&mut bytes, 0xa9, 13, 14, 0);
    let entities = parse_cplc(bytes).unwrap();
    assert_eq!(entities.len(), 1);
    assert!(matches!(entities[0].entity, Entity::Ripple(_)));
    assert_eq!(entities[0].placement.y, 14);
}

#[test]
fn the_chain_is_returned_in_traversal_order() {
    // Three unit records at offsets 28, 92 and 156; the head points at the
    // third, which links to the first, which links to the second, which ends
    // the chain.
    let mut bytes = preamble(156);
    push_unit_record(&mut bytes, 0x10, 100, 0, 92);
    push_unit_record(&mut bytes, 0x11, 200, 0, 0);
    push_unit_record(&mut bytes, 0x12, 300, 0, 28);
    let entities = parse_cplc(bytes).unwrap();
    assert_eq!(entities.len(), 3);
    assert_eq!(entities[0].kind, 0x12);
    assert_eq!(entities[0].placement.x, 300);
    assert_eq!(entities[1].kind, 0x10);
    assert_eq!(entities[1].placement.x, 100);
    assert_eq!(entities[2].kind, 0x11);
    assert_eq!(entities[2].placement.x, 200);
}

#[test]
fn a_pointer_beyond_the_end_of_the_file_is_a_corrupt_chain() {
    let mut bytes = preamble(28);
    let past_the_end = 10_000;
    push_unit_record(&mut bytes, 0x05, 1, 2, past_the_end);
    assert_eq!(parse_cplc(bytes).unwrap_err(), DecodeError::CorruptChain);
}

#[test]
fn a_head_pointer_beyond_the_end_of_the_file_is_a_corrupt_chain() {
    let bytes = preamble(9999);
    assert_eq!(parse_cplc(bytes).unwrap_err(), DecodeError::CorruptChain);
}

#[test]
fn a_pointer_below_the_bias_is_a_corrupt_chain() {
    // With bias 50, a stored pointer of 10 would land before the file start.
    let mut bytes = Vec::new();
    push_u32(&mut bytes, 0xdeadc0de);
    push_u32(&mut bytes, 50); // pointer bias
    push_u32(&mut bytes, 0);
    push_u32(&mut bytes, 10); // head pointer: 10 + 8 - 50 < 0
    push_u32(&mut bytes, 0);
    push_u32(&mut bytes, 0);
    push_u32(&mut bytes, 0);
    assert_eq!(parse_cplc(bytes).unwrap_err(), DecodeError::CorruptChain);
}

#[test]
fn a_truncated_record_is_a_corrupt_chain() {
    let mut bytes = preamble(28);
    push_unit_record(&mut bytes, 0x05, 1, 2, 0);
    bytes.truncate(28 + 40); // cut the record short
    assert_eq!(parse_cplc(bytes).unwrap_err(), DecodeError::CorruptChain);
}

#[test]
fn a_pointer_exactly_at_the_end_of_the_file_is_a_corrupt_chain() {
    // The preamble is 28 bytes, so a head pointer of 28 lands exactly at the
    // end of a record-less file.
    let bytes = preamble(28);
    assert_eq!(parse_cplc(bytes).unwrap_err(), DecodeError::CorruptChain);
}

#[test]
fn a_cycle_of_pointers_is_a_corrupt_chain() {
    // The record points back at itself; the step bound catches the cycle.
    let mut bytes = preamble(28);
    push_unit_record(&mut bytes, 0x05, 1, 2, 28);
    assert_eq!(parse_cplc(bytes).unwrap_err(), DecodeError::CorruptChain);
}
