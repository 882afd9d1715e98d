//! Decoder for the map placement file: a singly-linked chain of typed entity
//! records, each selected by a one-byte tag and laid out at a file offset
//! derived from the pointer stored in the previous record.
use vstd::prelude::*;

use crate::DecodeError;
use crate::cursor::Cursor;
use crate::cursor::le16_at;
use crate::cursor::le32_at;

verus! {

/// Signature of a placement file, stored in its first four bytes.
pub const CPLC_MAGIC: u32 = 0xdeadc0de;

/// Bytes skipped at the start of every record payload, before the
/// coordinates.
pub const PRE_COORDINATE_SKIP: i64 = 4;

/// Bytes skipped between the coordinates and the four list pointers.
pub const PRE_LIST_SKIP: i64 = 3;

/// Bytes skipped between the list pointers and the unit fields.
pub const UNIT_FIELD_SKIP: i64 = 24;

/// Bytes skipped between the list pointers and the CPU player fields.
pub const CPU_PLAYER_FIELD_SKIP: i64 = 20;

/// Bytes skipped between the list pointers and the map configuration fields.
pub const MAP_CONFIGURATION_FIELD_SKIP: i64 = 20;

/// Bytes skipped between `max_tech_level` and `counter_function` in a map
/// configuration record.
pub const COUNTER_FUNCTION_SKIP: i64 = 4;

/// The common geometry prologue embedded in every entity record: map
/// coordinates and four file-relative list pointers. `list_1` links to the
/// next entity in the chain; zero terminates the chain.
#[derive(Debug)]
pub struct BasicInformation {
    pub x: u32,
    pub y: u32,
    pub list_1: u32,
    pub list_2: u32,
    pub list_3: u32,
    pub list_4: u32,
}

/// Payload of a CPU player configuration record (tag `0x01`).
#[derive(Debug)]
pub struct CpuPlayerInformation {
    pub ally_mode: u32,
    pub cost_modifier: u16,
    pub time_modifier: u16,
    pub confidence: u16,
    pub default_units: [u16; 3],
}

/// The placement file header that follows the magic and the pointer bias.
#[derive(Debug)]
pub struct Header {
    pub file_size: u32,
    pub list_1: u32,
    pub list_2: u32,
    pub list_3: u32,
    pub list_4: u32,
}

/// Payload of a unit record (any tag without a dedicated layout; the tag is
/// the unit's type id).
#[derive(Debug)]
pub struct Unit {
    pub team: u16,
    pub flags: u16,
    pub unknown: u16,
    pub activation_timer: u16,
}

/// Payload of a scroll start record (tag `0x09`); only the prologue.
#[derive(Debug)]
pub struct ScrollStart {}

/// Payload of a ripple record (tag `0xa9`); only the prologue.
#[derive(Debug)]
pub struct Ripple {}

/// Payload of a map configuration record (tag `0x04`).
#[derive(Debug)]
pub struct MapConfiguration {
    pub ally_funds: u16,
    pub enemy_funds: u16,
    pub player_funds: u16,
    pub build_restrictions: [u16; 4],
    pub par_time: u16,
    pub matrix_set: u16,
    pub counter: u32,
    pub counter_function: u16,
    pub mission_win_condition: u16,
    pub mission_lose_condition: u16,
    pub max_tech_level: u16,
    pub local_team: u16,
    pub local_race: u16,
    pub team_colours: [u16; 9],
}

/// Converts a file-relative pointer into an absolute byte offset, given the
/// pointer bias declared in the file header. Zero is the sentinel for "no
/// further entity" and maps to zero; any other pointer maps to
/// `pointer + 8 - bias`, which may be negative when the bias is larger.
pub open spec fn spec_translate(file_offset: u32, pointer: u32) -> int {
    if pointer == 0 {
        0
    } else {
        pointer + 8 - file_offset
    }
}

/// Converts a stored pointer to an absolute byte offset, per
/// `spec_translate`. Callers must rule out a negative result (the sentinel
/// zero aside, a pointer below `file_offset - 8` has no valid offset) and
/// must treat any resulting offset at or past the end of the file as a
/// corrupt chain.
pub fn file_pointer_to_offset(file_offset: u32, pointer: u32) -> (r: u64)
    requires
        pointer == 0 || pointer + 8 >= file_offset,
    ensures
        r == spec_translate(file_offset, pointer),
{
    if pointer == 0 {
        return 0;
    }
    pointer as u64 + 8 - file_offset as u64
}

/// Translating the zero sentinel gives zero, whatever the bias.
pub proof fn lemma_translate_zero(file_offset: u32)
    ensures
        spec_translate(file_offset, 0) == 0,
{
}

/// Translating any nonzero pointer gives exactly `pointer + 8 - bias`.
pub proof fn lemma_translate_nonzero(file_offset: u32, pointer: u32)
    requires
        pointer != 0,
    ensures
        spec_translate(file_offset, pointer) == pointer + 8 - file_offset,
{
}

/// The record layout selected by a tag byte.
#[derive(Clone, Copy, Debug, PartialEq, Eq, Structural)]
pub enum ItemParser {
    CpuPlayerInformation,
    MapConfiguration,
    ScrollStart,
    Ripple,
    Unit,
}

/// The layout each tag byte selects: `0x01`, `0x04`, `0x09` and `0xa9` have
/// dedicated layouts; every other byte is a unit whose type id is the tag.
pub open spec fn spec_item_parser(value: u8) -> ItemParser {
    if value == 0x01 {
        ItemParser::CpuPlayerInformation
    } else if value == 0x04 {
        ItemParser::MapConfiguration
    } else if value == 0x09 {
        ItemParser::ScrollStart
    } else if value == 0xa9 {
        ItemParser::Ripple
    } else {
        ItemParser::Unit
    }
}

impl ItemParser {
    /// Selects the record layout for a tag byte, per `spec_item_parser`.
    pub fn from_tag(value: u8) -> (r: ItemParser)
        ensures
            r == spec_item_parser(value),
    {
        match value {
            0x01 => ItemParser::CpuPlayerInformation,
            0x04 => ItemParser::MapConfiguration,
            0x09 => ItemParser::ScrollStart,
            0xa9 => ItemParser::Ripple,
            _ => ItemParser::Unit,
        }
    }
}

/// The geometry prologue as laid out at payload offset `p`: four bytes
/// skipped, the coordinates, three bytes skipped, then the four pointers.
pub open spec fn spec_basic_information(s: Seq<u8>, p: int) -> BasicInformation {
    BasicInformation {
        x: le32_at(s, p + 4),
        y: le32_at(s, p + 8),
        list_1: le32_at(s, p + 15),
        list_2: le32_at(s, p + 19),
        list_3: le32_at(s, p + 23),
        list_4: le32_at(s, p + 27),
    }
}

/// Bytes a record's prologue occupies.
pub const BASIC_INFORMATION_SIZE: usize = 31;

/// Parses the geometry prologue at the cursor. Succeeds exactly when all 31
/// bytes are in bounds; any cursor fault is a corrupt chain.
pub fn parse_basic_information(cursor: &mut Cursor) -> (r: Result<BasicInformation, DecodeError>)
    requires
        old(cursor).wf(),
    ensures
        final(cursor).wf(),
        final(cursor).data@ == old(cursor).data@,
        old(cursor).pos + BASIC_INFORMATION_SIZE <= old(cursor).data@.len() ==> {
            &&& r == Ok::<BasicInformation, DecodeError>(
                spec_basic_information(old(cursor).data@, old(cursor).pos as int),
            )
            &&& final(cursor).pos == old(cursor).pos + BASIC_INFORMATION_SIZE
        },
        old(cursor).pos + BASIC_INFORMATION_SIZE > old(cursor).data@.len() ==> r == Err::<
            BasicInformation,
            DecodeError,
        >(DecodeError::CorruptChain),
{
    if cursor.seek_relative(PRE_COORDINATE_SKIP).is_err() {
        return Err(DecodeError::CorruptChain);
    }
    let x = match cursor.read_u32() {
        Ok(v) => v,
        Err(_) => {
            return Err(DecodeError::CorruptChain);
        },
    };
    let y = match cursor.read_u32() {
        Ok(v) => v,
        Err(_) => {
            return Err(DecodeError::CorruptChain);
        },
    };
    if cursor.seek_relative(PRE_LIST_SKIP).is_err() {
        return Err(DecodeError::CorruptChain);
    }
    let list_1 = match cursor.read_u32() {
        Ok(v) => v,
        Err(_) => {
            return Err(DecodeError::CorruptChain);
        },
    };
    let list_2 = match cursor.read_u32() {
        Ok(v) => v,
        Err(_) => {
            return Err(DecodeError::CorruptChain);
        },
    };
    let list_3 = match cursor.read_u32() {
        Ok(v) => v,
        Err(_) => {
            return Err(DecodeError::CorruptChain);
        },
    };
    let list_4 = match cursor.read_u32() {
        Ok(v) => v,
        Err(_) => {
            return Err(DecodeError::CorruptChain);
        },
    };
    Ok(BasicInformation { x, y, list_1, list_2, list_3, list_4 })
}

/// Bytes a unit payload occupies: the prologue, a skip, four fields.
pub const UNIT_SIZE: usize = 63;

/// The unit fields as laid out after the prologue and its skip.
pub open spec fn spec_unit(s: Seq<u8>, p: int) -> Unit {
    Unit {
        team: le16_at(s, p + 55),
        flags: le16_at(s, p + 57),
        unknown: le16_at(s, p + 59),
        activation_timer: le16_at(s, p + 61),
    }
}

/// Parses a unit payload at the cursor: the prologue, a fixed skip, then the
/// four unit fields. Succeeds exactly when the whole payload is in bounds;
/// any cursor fault is a corrupt chain.
pub fn parse_unit(cursor: &mut Cursor) -> (r: Result<(BasicInformation, Unit), DecodeError>)
    requires
        old(cursor).wf(),
    ensures
        final(cursor).wf(),
        final(cursor).data@ == old(cursor).data@,
        old(cursor).pos + UNIT_SIZE <= old(cursor).data@.len() ==> {
            &&& r == Ok::<(BasicInformation, Unit), DecodeError>(
                (
                    spec_basic_information(old(cursor).data@, old(cursor).pos as int),
                    spec_unit(old(cursor).data@, old(cursor).pos as int),
                ),
            )
            &&& final(cursor).pos == old(cursor).pos + UNIT_SIZE
        },
        old(cursor).pos + UNIT_SIZE > old(cursor).data@.len() ==> r == Err::<
            (BasicInformation, Unit),
            DecodeError,
        >(DecodeError::CorruptChain),
{
    let basic_information = match parse_basic_information(cursor) {
        Ok(b) => b,
        Err(_) => {
            return Err(DecodeError::CorruptChain);
        },
    };
    if cursor.seek_relative(UNIT_FIELD_SKIP).is_err() {
        return Err(DecodeError::CorruptChain);
    }
    let team = match cursor.read_u16() {
        Ok(v) => v,
        Err(_) => {
            return Err(DecodeError::CorruptChain);
        },
    };
    let flags = match cursor.read_u16() {
        Ok(v) => v,
        Err(_) => {
            return Err(DecodeError::CorruptChain);
        },
    };
    let unknown = match cursor.read_u16() {
        Ok(v) => v,
        Err(_) => {
            return Err(DecodeError::CorruptChain);
        },
    };
    let activation_timer = match cursor.read_u16() {
        Ok(v) => v,
        Err(_) => {
            return Err(DecodeError::CorruptChain);
        },
    };
    Ok((basic_information, Unit { team, flags, unknown, activation_timer }))
}

/// Bytes a scroll start or ripple payload occupies: only the prologue.
pub const PROLOGUE_ONLY_SIZE: usize = 31;

/// Parses a scroll start payload at the cursor: only the prologue.
pub fn parse_scroll_start(cursor: &mut Cursor) -> (r: Result<
    (BasicInformation, ScrollStart),
    DecodeError,
>)
    requires
        old(cursor).wf(),
    ensures
        final(cursor).wf(),
        final(cursor).data@ == old(cursor).data@,
        old(cursor).pos + PROLOGUE_ONLY_SIZE <= old(cursor).data@.len() ==> {
            &&& r == Ok::<(BasicInformation, ScrollStart), DecodeError>(
                (spec_basic_information(old(cursor).data@, old(cursor).pos as int), ScrollStart {}),
            )
            &&& final(cursor).pos == old(cursor).pos + PROLOGUE_ONLY_SIZE
        },
        old(cursor).pos + PROLOGUE_ONLY_SIZE > old(cursor).data@.len() ==> r == Err::<
            (BasicInformation, ScrollStart),
            DecodeError,
        >(DecodeError::CorruptChain),
{
    let basic_information = match parse_basic_information(cursor) {
        Ok(b) => b,
        Err(_) => {
            return Err(DecodeError::CorruptChain);
        },
    };
    Ok((basic_information, ScrollStart {}))
}

/// Parses a ripple payload at the cursor: only the prologue.
pub fn parse_ripple(cursor: &mut Cursor) -> (r: Result<(BasicInformation, Ripple), DecodeError>)
    requires
        old(cursor).wf(),
    ensures
        final(cursor).wf(),
        final(cursor).data@ == old(cursor).data@,
        old(cursor).pos + PROLOGUE_ONLY_SIZE <= old(cursor).data@.len() ==> {
            &&& r == Ok::<(BasicInformation, Ripple), DecodeError>(
                (spec_basic_information(old(cursor).data@, old(cursor).pos as int), Ripple {}),
            )
            &&& final(cursor).pos == old(cursor).pos + PROLOGUE_ONLY_SIZE
        },
        old(cursor).pos + PROLOGUE_ONLY_SIZE > old(cursor).data@.len() ==> r == Err::<
            (BasicInformation, Ripple),
            DecodeError,
        >(DecodeError::CorruptChain),
{
    let basic_information = match parse_basic_information(cursor) {
        Ok(b) => b,
        Err(_) => {
            return Err(DecodeError::CorruptChain);
        },
    };
    Ok((basic_information, Ripple {}))
}

/// Bytes a CPU player payload occupies: the prologue, a skip, the fields.
pub const CPU_PLAYER_SIZE: usize = 67;

/// The CPU player fields as laid out after the prologue and its skip.
pub open spec fn spec_cpu_player_information(s: Seq<u8>, p: int) -> CpuPlayerInformation {
    CpuPlayerInformation {
        ally_mode: le32_at(s, p + 51),
        cost_modifier: le16_at(s, p + 55),
        time_modifier: le16_at(s, p + 57),
        confidence: le16_at(s, p + 59),
        default_units: [le16_at(s, p + 61), le16_at(s, p + 63), le16_at(s, p + 65)],
    }
}

/// Parses a CPU player payload at the cursor: the prologue, a fixed skip,
/// then the configuration fields and the three default unit ids.
pub fn parse_cpu_player_information(cursor: &mut Cursor) -> (r: Result<
    (BasicInformation, CpuPlayerInformation),
    DecodeError,
>)
    requires
        old(cursor).wf(),
    ensures
        final(cursor).wf(),
        final(cursor).data@ == old(cursor).data@,
        old(cursor).pos + CPU_PLAYER_SIZE <= old(cursor).data@.len() ==> {
            &&& r == Ok::<(BasicInformation, CpuPlayerInformation), DecodeError>(
                (
                    spec_basic_information(old(cursor).data@, old(cursor).pos as int),
                    spec_cpu_player_information(old(cursor).data@, old(cursor).pos as int),
                ),
            )
            &&& final(cursor).pos == old(cursor).pos + CPU_PLAYER_SIZE
        },
        old(cursor).pos + CPU_PLAYER_SIZE > old(cursor).data@.len() ==> r == Err::<
            (BasicInformation, CpuPlayerInformation),
            DecodeError,
        >(DecodeError::CorruptChain),
{
    let basic_information = match parse_basic_information(cursor) {
        Ok(b) => b,
        Err(_) => {
            return Err(DecodeError::CorruptChain);
        },
    };
    if cursor.seek_relative(CPU_PLAYER_FIELD_SKIP).is_err() {
        return Err(DecodeError::CorruptChain);
    }
    let ally_mode = match cursor.read_u32() {
        Ok(v) => v,
        Err(_) => {
            return Err(DecodeError::CorruptChain);
        },
    };
    let cost_modifier = match cursor.read_u16() {
        Ok(v) => v,
        Err(_) => {
            return Err(DecodeError::CorruptChain);
        },
    };
    let time_modifier = match cursor.read_u16() {
        Ok(v) => v,
        Err(_) => {
            return Err(DecodeError::CorruptChain);
        },
    };
    let confidence = match cursor.read_u16() {
        Ok(v) => v,
        Err(_) => {
            return Err(DecodeError::CorruptChain);
        },
    };
    let default_unit_1 = match cursor.read_u16() {
        Ok(v) => v,
        Err(_) => {
            return Err(DecodeError::CorruptChain);
        },
    };
    let default_unit_2 = match cursor.read_u16() {
        Ok(v) => v,
        Err(_) => {
            return Err(DecodeError::CorruptChain);
        },
    };
    let default_unit_3 = match cursor.read_u16() {
        Ok(v) => v,
        Err(_) => {
            return Err(DecodeError::CorruptChain);
        },
    };
    Ok(
        (
            basic_information,
            CpuPlayerInformation {
                ally_mode,
                cost_modifier,
                time_modifier,
                confidence,
                default_units: [default_unit_1, default_unit_2, default_unit_3],
            },
        ),
    )
}

/// Bytes a map configuration payload occupies.
pub const MAP_CONFIGURATION_SIZE: usize = 107;

/// The map configuration fields as laid out after the prologue and its skip:
/// the team colour array, the scalar fields, a skip, then the trailing
/// scalar fields.
pub open spec fn spec_map_configuration(s: Seq<u8>, p: int) -> MapConfiguration {
    MapConfiguration {
        ally_funds: le16_at(s, p + 85),
        enemy_funds: le16_at(s, p + 87),
        player_funds: le16_at(s, p + 89),
        build_restrictions: [
            le16_at(s, p + 77),
            le16_at(s, p + 79),
            le16_at(s, p + 81),
            le16_at(s, p + 83),
        ],
        par_time: le16_at(s, p + 105),
        matrix_set: le16_at(s, p + 103),
        counter: le32_at(s, p + 73),
        counter_function: le16_at(s, p + 101),
        mission_win_condition: le16_at(s, p + 93),
        mission_lose_condition: le16_at(s, p + 91),
        max_tech_level: le16_at(s, p + 95),
        local_team: le16_at(s, p + 69),
        local_race: le16_at(s, p + 71),
        team_colours: [
            le16_at(s, p + 51),
            le16_at(s, p + 53),
            le16_at(s, p + 55),
            le16_at(s, p + 57),
            le16_at(s, p + 59),
            le16_at(s, p + 61),
            le16_at(s, p + 63),
            le16_at(s, p + 65),
            le16_at(s, p + 67),
        ],
    }
}

/// Reads the nine team colour slots of a map configuration record.
pub fn parse_team_colours(cursor: &mut Cursor) -> (r: Result<[u16; 9], DecodeError>)
    requires
        old(cursor).wf(),
    ensures
        final(cursor).wf(),
        final(cursor).data@ == old(cursor).data@,
        old(cursor).pos + 18 <= old(cursor).data@.len() ==> {
            &&& r == Ok::<[u16; 9], DecodeError>(
                [
                    le16_at(old(cursor).data@, old(cursor).pos as int),
                    le16_at(old(cursor).data@, old(cursor).pos + 2),
                    le16_at(old(cursor).data@, old(cursor).pos + 4),
                    le16_at(old(cursor).data@, old(cursor).pos + 6),
                    le16_at(old(cursor).data@, old(cursor).pos + 8),
                    le16_at(old(cursor).data@, old(cursor).pos + 10),
                    le16_at(old(cursor).data@, old(cursor).pos + 12),
                    le16_at(old(cursor).data@, old(cursor).pos + 14),
                    le16_at(old(cursor).data@, old(cursor).pos + 16),
                ],
            )
            &&& final(cursor).pos == old(cursor).pos + 18
        },
        old(cursor).pos + 18 > old(cursor).data@.len() ==> r == Err::<[u16; 9], DecodeError>(
            DecodeError::CorruptChain,
        ),
{
    let mut slots: [u16; 9] = [0, 0, 0, 0, 0, 0, 0, 0, 0];
    let mut i: usize = 0;
    while i < 9
        invariant
            cursor.wf(),
            cursor.data@ == old(cursor).data@,
            i <= 9,
            cursor.pos == old(cursor).pos + 2 * i,
            i > 0 ==> old(cursor).pos + 2 * i <= old(cursor).data@.len(),
            forall|j: int|
                0 <= j < i ==> slots@[j] == le16_at(old(cursor).data@, old(cursor).pos + 2 * j),
        decreases 9 - i,
    {
        let v = match cursor.read_u16() {
            Ok(v) => v,
            Err(_) => {
                return Err(DecodeError::CorruptChain);
            },
        };
        slots[i] = v;
        i = i + 1;
    }
    let team_colours: [u16; 9] = [
        slots[0],
        slots[1],
        slots[2],
        slots[3],
        slots[4],
        slots[5],
        slots[6],
        slots[7],
        slots[8],
    ];
    Ok(team_colours)
}

/// Reads the four build restriction slots of a map configuration record.
pub fn parse_build_restrictions(cursor: &mut Cursor) -> (r: Result<[u16; 4], DecodeError>)
    requires
        old(cursor).wf(),
    ensures
        final(cursor).wf(),
        final(cursor).data@ == old(cursor).data@,
        old(cursor).pos + 8 <= old(cursor).data@.len() ==> {
            &&& r == Ok::<[u16; 4], DecodeError>(
                [
                    le16_at(old(cursor).data@, old(cursor).pos as int),
                    le16_at(old(cursor).data@, old(cursor).pos + 2),
                    le16_at(old(cursor).data@, old(cursor).pos + 4),
                    le16_at(old(cursor).data@, old(cursor).pos + 6),
                ],
            )
            &&& final(cursor).pos == old(cursor).pos + 8
        },
        old(cursor).pos + 8 > old(cursor).data@.len() ==> r == Err::<[u16; 4], DecodeError>(
            DecodeError::CorruptChain,
        ),
{
    let mut slots: [u16; 4] = [0, 0, 0, 0];
    let mut i: usize = 0;
    while i < 4
        invariant
            cursor.wf(),
            cursor.data@ == old(cursor).data@,
            i <= 4,
            cursor.pos == old(cursor).pos + 2 * i,
            i > 0 ==> old(cursor).pos + 2 * i <= old(cursor).data@.len(),
            forall|j: int|
                0 <= j < i ==> slots@[j] == le16_at(old(cursor).data@, old(cursor).pos + 2 * j),
        decreases 4 - i,
    {
        let v = match cursor.read_u16() {
            Ok(v) => v,
            Err(_) => {
                return Err(DecodeError::CorruptChain);
            },
        };
        slots[i] = v;
        i = i + 1;
    }
    let build_restrictions: [u16; 4] = [slots[0], slots[1], slots[2], slots[3]];
    Ok(build_restrictions)
}

/// Parses a map configuration payload at the cursor: the prologue, a fixed
/// skip, the team colours, the scalar fields, a skip, and the trailing
/// fields.
pub fn parse_map_configuration(cursor: &mut Cursor) -> (r: Result<
    (BasicInformation, MapConfiguration),
    DecodeError,
>)
    requires
        old(cursor).wf(),
    ensures
        final(cursor).wf(),
        final(cursor).data@ == old(cursor).data@,
        old(cursor).pos + MAP_CONFIGURATION_SIZE <= old(cursor).data@.len() ==> {
            &&& r == Ok::<(BasicInformation, MapConfiguration), DecodeError>(
                (
                    spec_basic_information(old(cursor).data@, old(cursor).pos as int),
                    spec_map_configuration(old(cursor).data@, old(cursor).pos as int),
                ),
            )
            &&& final(cursor).pos == old(cursor).pos + MAP_CONFIGURATION_SIZE
        },
        old(cursor).pos + MAP_CONFIGURATION_SIZE > old(cursor).data@.len() ==> r == Err::<
            (BasicInformation, MapConfiguration),
            DecodeError,
        >(DecodeError::CorruptChain),
{
    let basic_information = match parse_basic_information(cursor) {
        Ok(b) => b,
        Err(_) => {
            return Err(DecodeError::CorruptChain);
        },
    };
    if cursor.seek_relative(MAP_CONFIGURATION_FIELD_SKIP).is_err() {
        return Err(DecodeError::CorruptChain);
    }
    let team_colours = match parse_team_colours(cursor) {
        Ok(v) => v,
        Err(_) => {
            return Err(DecodeError::CorruptChain);
        },
    };
    let local_team = match cursor.read_u16() {
        Ok(v) => v,
        Err(_) => {
            return Err(DecodeError::CorruptChain);
        },
    };
    let local_race = match cursor.read_u16() {
        Ok(v) => v,
        Err(_) => {
            return Err(DecodeError::CorruptChain);
        },
    };
    let counter = match cursor.read_u32() {
        Ok(v) => v,
        Err(_) => {
            return Err(DecodeError::CorruptChain);
        },
    };
    let build_restrictions = match parse_build_restrictions(cursor) {
        Ok(v) => v,
        Err(_) => {
            return Err(DecodeError::CorruptChain);
        },
    };
    let ally_funds = match cursor.read_u16() {
        Ok(v) => v,
        Err(_) => {
            return Err(DecodeError::CorruptChain);
        },
    };
    let enemy_funds = match cursor.read_u16() {
        Ok(v) => v,
        Err(_) => {
            return Err(DecodeError::CorruptChain);
        },
    };
    let player_funds = match cursor.read_u16() {
        Ok(v) => v,
        Err(_) => {
            return Err(DecodeError::CorruptChain);
        },
    };
    let mission_lose_condition = match cursor.read_u16() {
        Ok(v) => v,
        Err(_) => {
            return Err(DecodeError::CorruptChain);
        },
    };
    let mission_win_condition = match cursor.read_u16() {
        Ok(v) => v,
        Err(_) => {
            return Err(DecodeError::CorruptChain);
        },
    };
    let max_tech_level = match cursor.read_u16() {
        Ok(v) => v,
        Err(_) => {
            return Err(DecodeError::CorruptChain);
        },
    };
    if cursor.seek_relative(COUNTER_FUNCTION_SKIP).is_err() {
        return Err(DecodeError::CorruptChain);
    }
    let counter_function = match cursor.read_u16() {
        Ok(v) => v,
        Err(_) => {
            return Err(DecodeError::CorruptChain);
        },
    };
    let matrix_set = match cursor.read_u16() {
        Ok(v) => v,
        Err(_) => {
            return Err(DecodeError::CorruptChain);
        },
    };
    let par_time = match cursor.read_u16() {
        Ok(v) => v,
        Err(_) => {
            return Err(DecodeError::CorruptChain);
        },
    };
    let configuration = MapConfiguration {
        ally_funds,
        enemy_funds,
        player_funds,
        build_restrictions,
        par_time,
        matrix_set,
        counter,
        counter_function,
        mission_win_condition,
        mission_lose_condition,
        max_tech_level,
        local_team,
        local_race,
        team_colours,
    };
    Ok((basic_information, configuration))
}

/// Bytes the placement file occupies before the first record can start: the
/// magic, the pointer bias, and the header.
pub const CPLC_PREAMBLE_SIZE: usize = 28;

/// Parses the placement file header: the declared file size and the four
/// head-of-list pointers. Succeeds exactly when all 20 bytes are in bounds;
/// any cursor fault is a corrupt chain.
pub fn parse_header(cursor: &mut Cursor) -> (r: Result<Header, DecodeError>)
    requires
        old(cursor).wf(),
    ensures
        final(cursor).wf(),
        final(cursor).data@ == old(cursor).data@,
        old(cursor).pos + 20 <= old(cursor).data@.len() ==> {
            &&& r == Ok::<Header, DecodeError>(
                Header {
                    file_size: le32_at(old(cursor).data@, old(cursor).pos as int),
                    list_1: le32_at(old(cursor).data@, old(cursor).pos + 4),
                    list_2: le32_at(old(cursor).data@, old(cursor).pos + 8),
                    list_3: le32_at(old(cursor).data@, old(cursor).pos + 12),
                    list_4: le32_at(old(cursor).data@, old(cursor).pos + 16),
                },
            )
            &&& final(cursor).pos == old(cursor).pos + 20
        },
        old(cursor).pos + 20 > old(cursor).data@.len() ==> r == Err::<Header, DecodeError>(
            DecodeError::CorruptChain,
        ),
{
    let file_size = match cursor.read_u32() {
        Ok(v) => v,
        Err(_) => {
            return Err(DecodeError::CorruptChain);
        },
    };
    let list_1 = match cursor.read_u32() {
        Ok(v) => v,
        Err(_) => {
            return Err(DecodeError::CorruptChain);
        },
    };
    let list_2 = match cursor.read_u32() {
        Ok(v) => v,
        Err(_) => {
            return Err(DecodeError::CorruptChain);
        },
    };
    let list_3 = match cursor.read_u32() {
        Ok(v) => v,
        Err(_) => {
            return Err(DecodeError::CorruptChain);
        },
    };
    let list_4 = match cursor.read_u32() {
        Ok(v) => v,
        Err(_) => {
            return Err(DecodeError::CorruptChain);
        },
    };
    Ok(Header { file_size, list_1, list_2, list_3, list_4 })
}

/// The decoded payload of one entity record.
#[derive(Debug)]
pub enum Entity {
    MapConfiguration(MapConfiguration),
    CpuPlayerInformation(CpuPlayerInformation),
    ScrollStart(ScrollStart),
    Ripple(Ripple),
    Unit(Unit),
}

/// One decoded entity of the chain: the tag byte that selected its layout
/// (kept because for units it is the unit's type id), the geometry prologue,
/// and the variant payload.
#[derive(Debug)]
pub struct MapEntity {
    pub kind: u8,
    pub placement: BasicInformation,
    pub entity: Entity,
}

/// Bytes the payload selected by a tag byte occupies, after the tag itself.
pub open spec fn spec_payload_size(tag: u8) -> int {
    match spec_item_parser(tag) {
        ItemParser::CpuPlayerInformation => CPU_PLAYER_SIZE as int,
        ItemParser::MapConfiguration => MAP_CONFIGURATION_SIZE as int,
        ItemParser::ScrollStart => PROLOGUE_ONLY_SIZE as int,
        ItemParser::Ripple => PROLOGUE_ONLY_SIZE as int,
        ItemParser::Unit => UNIT_SIZE as int,
    }
}

/// The entity record laid out at offset `off`: the tag byte, then the
/// payload the tag selects.
pub open spec fn spec_entity_at(s: Seq<u8>, off: int) -> MapEntity
    recommends
        0 <= off < s.len(),
        off + 1 + spec_payload_size(s[off]) <= s.len(),
{
    let tag = s[off];
    let p = off + 1;
    MapEntity {
        kind: tag,
        placement: spec_basic_information(s, p),
        entity: match spec_item_parser(tag) {
            ItemParser::CpuPlayerInformation => Entity::CpuPlayerInformation(
                spec_cpu_player_information(s, p),
            ),
            ItemParser::MapConfiguration => Entity::MapConfiguration(spec_map_configuration(s, p)),
            ItemParser::ScrollStart => Entity::ScrollStart(ScrollStart {}),
            ItemParser::Ripple => Entity::Ripple(Ripple {}),
            ItemParser::Unit => Entity::Unit(spec_unit(s, p)),
        },
    }
}

/// The entity chain reached by starting at absolute offset `next` and
/// following each record's translated `list_1` pointer, with at most `fuel`
/// records. Zero terminates the chain; `None` stands for any corrupt chain:
/// an offset outside the file, a record past the end of the file, a pointer
/// that translates below zero, or more records than `fuel` (a cycle, once
/// `fuel` is the file length, since each record starts at a distinct offset
/// within the file).
pub open spec fn spec_chain(s: Seq<u8>, bias: u32, next: int, fuel: nat) -> Option<Seq<MapEntity>>
    decreases fuel,
{
    if next == 0 {
        Some(Seq::empty())
    } else if fuel == 0 {
        None
    } else if next < 0 || next >= s.len() {
        None
    } else if next + 1 + spec_payload_size(s[next]) > s.len() {
        None
    } else {
        let entity = spec_entity_at(s, next);
        let link = spec_translate(bias, entity.placement.list_1);
        if link < 0 {
            None
        } else {
            match spec_chain(s, bias, link, (fuel - 1) as nat) {
                Some(rest) => Some(seq![entity] + rest),
                None => None,
            }
        }
    }
}

/// Appends a decoded prefix in front of the rest of a chain, when the rest
/// is not corrupt.
pub open spec fn chain_extend(prefix: Seq<MapEntity>, rest: Option<Seq<MapEntity>>) -> Option<
    Seq<MapEntity>,
> {
    match rest {
        Some(r) => Some(prefix + r),
        None => None,
    }
}

/// Every decoded chain ends exactly at the first record whose translated
/// `list_1` pointer is zero: the chain is empty exactly when the start
/// offset is the zero sentinel; each earlier record's translated pointer is
/// nonzero and is the offset of the record that follows it; the last
/// record's translated pointer is zero; and the chain cannot be longer than
/// the fuel bound.
pub proof fn lemma_chain_structure(s: Seq<u8>, bias: u32, next: int, fuel: nat, chain: Seq<
    MapEntity,
>)
    requires
        spec_chain(s, bias, next, fuel) == Some(chain),
    ensures
        chain.len() <= fuel || next == 0,
        chain.len() == 0 <==> next == 0,
        chain.len() > 0 ==> chain[0] == spec_entity_at(s, next),
        forall|i: int|
            0 <= i < chain.len() - 1 ==> #[trigger] spec_translate(bias, chain[i].placement.list_1)
                != 0 && chain[i + 1] == spec_entity_at(
                s,
                spec_translate(bias, chain[i].placement.list_1),
            ),
        chain.len() > 0 ==> spec_translate(bias, chain[chain.len() - 1].placement.list_1) == 0,
    decreases fuel,
{
    if next == 0 {
        assert(chain =~= Seq::empty());
    } else {
        let entity = spec_entity_at(s, next);
        let link = spec_translate(bias, entity.placement.list_1);
        let rest = spec_chain(s, bias, link, (fuel - 1) as nat)->Some_0;
        lemma_chain_structure(s, bias, link, (fuel - 1) as nat, rest);
        assert(chain =~= seq![entity] + rest);
        assert forall|i: int| 0 <= i < chain.len() - 1 implies #[trigger] spec_translate(
            bias,
            chain[i].placement.list_1,
        ) != 0 && chain[i + 1] == spec_entity_at(
            s,
            spec_translate(bias, chain[i].placement.list_1),
        ) by {
            if i == 0 {
                assert(rest.len() > 0);
                assert(link != 0);
                assert(chain[1] == rest[0]);
            } else {
                assert(chain[i] == rest[i - 1]);
                assert(chain[i + 1] == rest[i]);
            }
        }
    }
}

/// Tag dispatch is a fixed mapping: the tag byte at a record's offset fully
/// determines which payload variant is decoded there, `0x01`, `0x04`, `0x09`
/// and `0xa9` each select their dedicated layout, any other byte selects a
/// unit, and the decoded record always retains that tag byte as its kind.
pub proof fn lemma_tag_dispatch(s: Seq<u8>, off: int)
    requires
        0 <= off < s.len(),
    ensures
        spec_entity_at(s, off).kind == s[off],
        s[off] == 0x01 ==> spec_entity_at(s, off).entity is CpuPlayerInformation,
        s[off] == 0x04 ==> spec_entity_at(s, off).entity is MapConfiguration,
        s[off] == 0x09 ==> spec_entity_at(s, off).entity is ScrollStart,
        s[off] == 0xa9 ==> spec_entity_at(s, off).entity is Ripple,
        !(s[off] == 0x01 || s[off] == 0x04 || s[off] == 0x09 || s[off] == 0xa9)
            ==> spec_entity_at(s, off).entity is Unit,
{
}

/// Parses the whole placement file: verifies the magic, reads the pointer
/// bias and the header, then follows the `list_1` chain, decoding one record
/// per step, until the zero sentinel. The result is exactly the chain that
/// `spec_chain` defines from the file bytes, starting at the translated head
/// pointer; a wrong magic fails with `BadMagic` before anything else is
/// read, and every other failure — a truncated preamble, an offset outside
/// the file, a truncated record, a pointer that translates below zero, or a
/// cycle — is a corrupt chain.
pub fn parse_cplc(data: Vec<u8>) -> (r: Result<Vec<MapEntity>, DecodeError>)
    ensures
        ({
            let s = data@;
            &&& s.len() < 4 ==> r == Err::<Vec<MapEntity>, DecodeError>(DecodeError::CorruptChain)
            &&& (s.len() >= 4 && le32_at(s, 0) != CPLC_MAGIC) ==> r == Err::<
                Vec<MapEntity>,
                DecodeError,
            >(DecodeError::BadMagic { expected: CPLC_MAGIC, found: le32_at(s, 0), offset: 0 })
            &&& (s.len() >= 4 && le32_at(s, 0) == CPLC_MAGIC && s.len() < CPLC_PREAMBLE_SIZE)
                ==> r == Err::<Vec<MapEntity>, DecodeError>(DecodeError::CorruptChain)
            &&& (s.len() >= CPLC_PREAMBLE_SIZE && le32_at(s, 0) == CPLC_MAGIC) ==> (match (
                spec_chain(
                    s,
                    le32_at(s, 4),
                    spec_translate(le32_at(s, 4), le32_at(s, 12)),
                    s.len() as nat,
                ),
                r,
            ) {
                (Some(chain), Ok(entities)) => entities@ == chain,
                (None, Err(e)) => e == DecodeError::CorruptChain,
                _ => false,
            })
        }),
{
    let mut cursor = Cursor::new(data);
    let ghost s = cursor.data@;
    let magic = match cursor.read_u32() {
        Ok(v) => v,
        Err(_) => {
            return Err(DecodeError::CorruptChain);
        },
    };
    if magic != CPLC_MAGIC {
        return Err(DecodeError::BadMagic { expected: CPLC_MAGIC, found: magic, offset: 0 });
    }
    let file_offset = match cursor.read_u32() {
        Ok(v) => v,
        Err(_) => {
            return Err(DecodeError::CorruptChain);
        },
    };
    let header = match parse_header(&mut cursor) {
        Ok(h) => h,
        Err(e) => {
            return Err(e);
        },
    };
    let ghost first = spec_translate(file_offset, header.list_1);
    let ghost full_fuel = s.len() as nat;
    if header.list_1 != 0 && (header.list_1 as u64) + 8 < file_offset as u64 {
        return Err(DecodeError::CorruptChain);
    }
    let mut next: u64 = file_pointer_to_offset(file_offset, header.list_1);
    let mut entities: Vec<MapEntity> = Vec::new();
    let mut fuel: usize = cursor.data.len();
    proof {
        if spec_chain(s, file_offset, first, full_fuel) is Some {
            assert(Seq::<MapEntity>::empty() + spec_chain(
                s,
                file_offset,
                first,
                full_fuel,
            )->Some_0 =~= spec_chain(s, file_offset, first, full_fuel)->Some_0);
        }
    }
    while next != 0
        invariant
            cursor.wf(),
            cursor.data@ == s,
            s == data@,
            s.len() >= CPLC_PREAMBLE_SIZE,
            le32_at(s, 0) == CPLC_MAGIC,
            file_offset == le32_at(s, 4),
            first == spec_translate(file_offset, le32_at(s, 12)),
            full_fuel == s.len(),
            fuel <= s.len(),
            chain_extend(entities@, spec_chain(s, file_offset, next as int, fuel as nat))
                == spec_chain(s, file_offset, first, full_fuel),
        decreases fuel,
    {
        if fuel == 0 {
            return Err(DecodeError::CorruptChain);
        }
        if next >= cursor.data.len() as u64 {
            return Err(DecodeError::CorruptChain);
        }
        if cursor.seek_absolute(next).is_err() {
            return Err(DecodeError::CorruptChain);
        }
        let value = match cursor.read_u8() {
            Ok(v) => v,
            Err(_) => {
                return Err(DecodeError::CorruptChain);
            },
        };
        let kind = ItemParser::from_tag(value);
        let ghost entity_spec = spec_entity_at(s, next as int);
        let pointer = match kind {
            ItemParser::CpuPlayerInformation => {
                let (basic_information, cpu_player_information) = match parse_cpu_player_information(
                    &mut cursor,
                ) {
                    Ok(p) => p,
                    Err(_) => {
                        return Err(DecodeError::CorruptChain);
                    },
                };
                let list_1 = basic_information.list_1;
                entities.push(
                    MapEntity {
                        kind: value,
                        placement: basic_information,
                        entity: Entity::CpuPlayerInformation(cpu_player_information),
                    },
                );
                list_1
            },
            ItemParser::MapConfiguration => {
                let (basic_information, map_configuration) = match parse_map_configuration(
                    &mut cursor,
                ) {
                    Ok(p) => p,
                    Err(_) => {
                        return Err(DecodeError::CorruptChain);
                    },
                };
                let list_1 = basic_information.list_1;
                entities.push(
                    MapEntity {
                        kind: value,
                        placement: basic_information,
                        entity: Entity::MapConfiguration(map_configuration),
                    },
                );
                list_1
            },
            ItemParser::ScrollStart => {
                let (basic_information, scroll_start) = match parse_scroll_start(&mut cursor) {
                    Ok(p) => p,
                    Err(_) => {
                        return Err(DecodeError::CorruptChain);
                    },
                };
                let list_1 = basic_information.list_1;
                entities.push(
                    MapEntity {
                        kind: value,
                        placement: basic_information,
                        entity: Entity::ScrollStart(scroll_start),
                    },
                );
                list_1
            },
            ItemParser::Ripple => {
                let (basic_information, ripple) = match parse_ripple(&mut cursor) {
                    Ok(p) => p,
                    Err(_) => {
                        return Err(DecodeError::CorruptChain);
                    },
                };
                let list_1 = basic_information.list_1;
                entities.push(
                    MapEntity {
                        kind: value,
                        placement: basic_information,
                        entity: Entity::Ripple(ripple),
                    },
                );
                list_1
            },
            ItemParser::Unit => {
                let (basic_information, unit) = match parse_unit(&mut cursor) {
                    Ok(p) => p,
                    Err(_) => {
                        return Err(DecodeError::CorruptChain);
                    },
                };
                let list_1 = basic_information.list_1;
                entities.push(
                    MapEntity {
                        kind: value,
                        placement: basic_information,
                        entity: Entity::Unit(unit),
                    },
                );
                list_1
            },
        };
        if pointer != 0 && (pointer as u64) + 8 < file_offset as u64 {
            return Err(DecodeError::CorruptChain);
        }
        let ghost old_entities = entities@.drop_last();
        proof {
            assert(entities@.last() == entity_spec);
            assert(entities@ =~= old_entities + seq![entity_spec]);
            let link = spec_translate(file_offset, entity_spec.placement.list_1);
            if spec_chain(s, file_offset, link, (fuel - 1) as nat) is Some {
                let rest = spec_chain(s, file_offset, link, (fuel - 1) as nat)->Some_0;
                assert(old_entities + (seq![entity_spec] + rest) =~= entities@ + rest);
            }
        }
        next = file_pointer_to_offset(file_offset, pointer);
        fuel = fuel - 1;
    }
    proof {
        assert(entities@ + Seq::<MapEntity>::empty() =~= entities@);
    }
    Ok(entities)
}

} // verus!
