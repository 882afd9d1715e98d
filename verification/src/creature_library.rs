//! Decoder for the creature definition library: an id-keyed table of
//! variable-length records, each holding a name, typed property records, and
//! an embedded bitmap icon.
use vstd::prelude::*;

use std::collections::HashMap;

use crate::DecodeError;
use crate::cursor::Cursor;
use crate::cursor::le16_at;
use crate::cursor::le32_at;

verus! {

broadcast use vstd::std_specs::hash::group_hash_axioms;

/// Signature of a creature library file, stored in its first four bytes.
pub const FILE_MAGIC: u32 = 0x4c43324b;

/// Signature at the start of every library entry.
pub const ENTRY_MAGIC: u32 = 0x5243324b;

/// Signature of the embedded bitmap icon.
pub const BITMAP_MAGIC: u16 = 0x4d42;

/// Bytes a bitmap header occupies; the declared bitmap size counts them.
pub const BITMAP_HEADER_SIZE: i64 = 14;

/// Bytes skipped after an entry's metadata length, together with the
/// metadata block itself.
pub const METADATA_TRAILING_SKIP: u16 = 6;

/// Bytes a fixed-width (non-array) property value occupies.
pub const PLAIN_PROPERTY_SKIP: i64 = 14;

/// Bytes skipped at the start of an array-list sub-record.
pub const ARRAY_LIST_HEADER_SKIP: i64 = 12;

/// An entry's derived size hint is its metadata length plus this base.
pub const SIZE_HINT_BASE: u16 = 32;

/// One creature definition from the library.
#[derive(Debug)]
pub struct Creature {
    pub id: u16,
    pub name: String,
    pub size: usize,
}

/// The mathematical content of a `Creature`: its id, the characters of its
/// name, and its derived size hint.
pub struct CreatureView {
    pub id: u16,
    pub name: Seq<char>,
    pub size: int,
}

impl View for Creature {
    type V = CreatureView;

    open spec fn view(&self) -> CreatureView {
        CreatureView { id: self.id, name: self.name@, size: self.size as int }
    }
}

/// The header of the embedded bitmap icon.
#[derive(Debug)]
pub struct BitmapHeader {
    pub magic: u16,
    pub size_in_bytes: u32,
    pub reserved_1: u16,
    pub reserved_2: u16,
    pub pixel_data_offset: u32,
}

/// What decoding the bytes of a length-prefixed string as text yields: the
/// characters on valid text, nothing on invalid text.
pub uninterp spec fn utf8_decode(bytes: Seq<u8>) -> Option<Seq<char>>;

/// Relies on `String::from_utf8`: it succeeds exactly on valid UTF-8, and
/// the decoded text is a function of the bytes alone.
#[verifier::external_body]
fn bytes_to_string(bytes: Vec<u8>) -> (r: Result<String, DecodeError>)
    ensures
        r matches Ok(name) ==> utf8_decode(bytes@) == Some(name@),
        r matches Err(e) ==> utf8_decode(bytes@) is None && e == DecodeError::BadEncoding,
{
    match String::from_utf8(bytes) {
        Ok(name) => Ok(name),
        Err(_) => Err(DecodeError::BadEncoding),
    }
}

/// The length-prefixed string laid out at offset `p`: a one-byte length,
/// then that many bytes of text. Yields the characters and the offset past
/// the string; a read past the end is truncated input, and invalid text is a
/// bad encoding.
pub open spec fn spec_pascal_string(s: Seq<u8>, p: int) -> Result<(Seq<char>, int), DecodeError> {
    if p + 1 > s.len() {
        Err(DecodeError::TruncatedInput)
    } else {
        let length = s[p] as int;
        if p + 1 + length > s.len() {
            Err(DecodeError::TruncatedInput)
        } else {
            match utf8_decode(s.subrange(p + 1, p + 1 + length)) {
                Some(name) => Ok((name, p + 1 + length)),
                None => Err(DecodeError::BadEncoding),
            }
        }
    }
}

/// Parses a length-prefixed string at the cursor, per `spec_pascal_string`.
pub fn parse_pascal_string(cursor: &mut Cursor) -> (r: Result<String, DecodeError>)
    requires
        old(cursor).wf(),
    ensures
        final(cursor).wf(),
        final(cursor).data@ == old(cursor).data@,
        match (spec_pascal_string(old(cursor).data@, old(cursor).pos as int), r) {
            (Ok((name, end)), Ok(parsed)) => parsed@ == name && final(cursor).pos == end,
            (Err(expected), Err(actual)) => expected == actual,
            _ => false,
        },
{
    let length = match cursor.read_u8() {
        Ok(v) => v,
        Err(e) => {
            return Err(e);
        },
    };
    if cursor.data.len() - cursor.pos < length as usize {
        return Err(DecodeError::TruncatedInput);
    }
    let ghost start = cursor.pos as int;
    let mut buffer: Vec<u8> = Vec::new();
    let mut i: usize = 0;
    while i < length as usize
        invariant
            cursor.wf(),
            cursor.data@ == old(cursor).data@,
            i <= length,
            0 <= start,
            start + length <= cursor.data@.len(),
            cursor.pos == start + i,
            buffer@ =~= cursor.data@.subrange(start, start + i),
        decreases length - i,
    {
        let b = match cursor.read_u8() {
            Ok(v) => v,
            Err(e) => {
                return Err(e);
            },
        };
        buffer.push(b);
        i = i + 1;
        proof {
            assert(buffer@ =~= cursor.data@.subrange(start, start + i));
        }
    }
    bytes_to_string(buffer)
}

/// The named value laid out at offset `p` inside an array-list sub-record: a
/// length-prefixed name, then a four-byte value.
pub open spec fn spec_array_item(s: Seq<u8>, p: int) -> Result<
    ((Seq<char>, u32), int),
    DecodeError,
> {
    match spec_pascal_string(s, p) {
        Err(e) => Err(e),
        Ok((name, after_name)) => {
            if after_name + 4 > s.len() {
                Err(DecodeError::TruncatedInput)
            } else {
                Ok(((name, le32_at(s, after_name)), after_name + 4))
            }
        },
    }
}

/// Parses one named value of an array-list sub-record, per
/// `spec_array_item`.
pub fn parse_array_item(cursor: &mut Cursor) -> (r: Result<(String, u32), DecodeError>)
    requires
        old(cursor).wf(),
    ensures
        final(cursor).wf(),
        final(cursor).data@ == old(cursor).data@,
        match (spec_array_item(old(cursor).data@, old(cursor).pos as int), r) {
            (Ok(((name, value), end)), Ok(parsed)) => {
                &&& parsed.0@ == name
                &&& parsed.1 == value
                &&& final(cursor).pos == end
            },
            (Err(expected), Err(actual)) => expected == actual,
            _ => false,
        },
{
    let name = match parse_pascal_string(cursor) {
        Ok(v) => v,
        Err(e) => {
            return Err(e);
        },
    };
    let value = match cursor.read_u32() {
        Ok(v) => v,
        Err(e) => {
            return Err(e);
        },
    };
    Ok((name, value))
}

/// The run of `n` named values laid out one after another at offset `p`.
pub open spec fn spec_array_items(s: Seq<u8>, p: int, n: nat) -> Result<
    (Seq<(Seq<char>, u32)>, int),
    DecodeError,
>
    decreases n,
{
    if n == 0 {
        Ok((Seq::empty(), p))
    } else {
        match spec_array_item(s, p) {
            Err(e) => Err(e),
            Ok((item, after_item)) => {
                match spec_array_items(s, after_item, (n - 1) as nat) {
                    Err(e) => Err(e),
                    Ok((rest, end)) => Ok((seq![item] + rest, end)),
                }
            },
        }
    }
}

/// Appends already-parsed named values in front of the rest of a run.
pub open spec fn items_extend(
    prefix: Seq<(Seq<char>, u32)>,
    rest: Result<(Seq<(Seq<char>, u32)>, int), DecodeError>,
) -> Result<(Seq<(Seq<char>, u32)>, int), DecodeError> {
    match rest {
        Ok((items, end)) => Ok((prefix + items, end)),
        Err(e) => Err(e),
    }
}

/// The characters-and-value form of a parsed list of named values.
pub open spec fn pairs_view(v: Seq<(String, u32)>) -> Seq<(Seq<char>, u32)> {
    Seq::new(v.len(), |i: int| (v[i].0@, v[i].1))
}

/// The array-list sub-record laid out at offset `p`: a fixed skip, a
/// two-byte count, then that many named values.
pub open spec fn spec_array_list(s: Seq<u8>, p: int) -> Result<
    (Seq<(Seq<char>, u32)>, int),
    DecodeError,
> {
    if !(0 <= p + 12 <= s.len()) {
        Err(DecodeError::OutOfBounds)
    } else if p + 14 > s.len() {
        Err(DecodeError::TruncatedInput)
    } else {
        spec_array_items(s, p + 14, le16_at(s, p + 12) as nat)
    }
}

/// Parses an array-list sub-record at the cursor, per `spec_array_list`.
pub fn parse_array_list(cursor: &mut Cursor) -> (r: Result<Vec<(String, u32)>, DecodeError>)
    requires
        old(cursor).wf(),
    ensures
        final(cursor).wf(),
        final(cursor).data@ == old(cursor).data@,
        match (spec_array_list(old(cursor).data@, old(cursor).pos as int), r) {
            (Ok((items, end)), Ok(parsed)) => pairs_view(parsed@) == items && final(cursor).pos
                == end,
            (Err(expected), Err(actual)) => expected == actual,
            _ => false,
        },
{
    let ghost s = old(cursor).data@;
    if cursor.seek_relative(ARRAY_LIST_HEADER_SKIP).is_err() {
        return Err(DecodeError::OutOfBounds);
    }
    let array_length = match cursor.read_u16() {
        Ok(v) => v,
        Err(e) => {
            return Err(e);
        },
    };
    let ghost start = cursor.pos as int;
    let mut result: Vec<(String, u32)> = Vec::new();
    proof {
        assert(pairs_view(result@) =~= Seq::<(Seq<char>, u32)>::empty());
        let rest = spec_array_items(s, start, array_length as nat);
        if rest is Ok {
            assert(Seq::<(Seq<char>, u32)>::empty() + rest->Ok_0.0 =~= rest->Ok_0.0);
        }
    }
    let mut i: usize = 0;
    while i < array_length as usize
        invariant
            cursor.wf(),
            cursor.data@ == s,
            s == old(cursor).data@,
            spec_array_list(s, old(cursor).pos as int) == spec_array_items(
                s,
                start,
                array_length as nat,
            ),
            i <= array_length,
            items_extend(
                pairs_view(result@),
                spec_array_items(s, cursor.pos as int, (array_length - i) as nat),
            ) == spec_array_items(s, start, array_length as nat),
        decreases array_length - i,
    {
        let item = match parse_array_item(cursor) {
            Ok(v) => v,
            Err(e) => {
                return Err(e);
            },
        };
        let ghost prev = result@;
        let ghost item_view = (item.0@, item.1);
        result.push(item);
        i = i + 1;
        proof {
            assert(pairs_view(result@) =~= pairs_view(prev) + seq![item_view]);
            let rest = spec_array_items(s, cursor.pos as int, (array_length - i) as nat);
            if rest is Ok {
                let items = rest->Ok_0.0;
                assert((pairs_view(prev) + seq![item_view]) + items =~= pairs_view(prev) + (
                seq![item_view] + items));
            }
        }
    }
    Ok(result)
}

/// The property record laid out at offset `p`: a length-prefixed name
/// (read and discarded), a one-byte type tag, then either an array-list
/// sub-record (tags 1, 2 and 3) or a fixed-width value. Yields the offset
/// past the property.
pub open spec fn spec_property(s: Seq<u8>, p: int) -> Result<int, DecodeError> {
    match spec_pascal_string(s, p) {
        Err(e) => Err(e),
        Ok((_name, after_name)) => {
            if after_name + 1 > s.len() {
                Err(DecodeError::TruncatedInput)
            } else {
                let kind = s[after_name];
                if kind == 1 || kind == 2 || kind == 3 {
                    match spec_array_list(s, after_name + 1) {
                        Err(e) => Err(e),
                        Ok((_items, end)) => Ok(end),
                    }
                } else {
                    if !(0 <= after_name + 15 <= s.len()) {
                        Err(DecodeError::OutOfBounds)
                    } else {
                        Ok(after_name + 15)
                    }
                }
            }
        },
    }
}

/// Parses one property record at the cursor, per `spec_property`.
pub fn parse_property(cursor: &mut Cursor) -> (r: Result<(), DecodeError>)
    requires
        old(cursor).wf(),
    ensures
        final(cursor).wf(),
        final(cursor).data@ == old(cursor).data@,
        match (spec_property(old(cursor).data@, old(cursor).pos as int), r) {
            (Ok(end), Ok(())) => final(cursor).pos == end,
            (Err(expected), Err(actual)) => expected == actual,
            _ => false,
        },
{
    let _name = match parse_pascal_string(cursor) {
        Ok(v) => v,
        Err(e) => {
            return Err(e);
        },
    };
    let kind = match cursor.read_u8() {
        Ok(v) => v,
        Err(e) => {
            return Err(e);
        },
    };
    if kind == 1 || kind == 2 || kind == 3 {
        match parse_array_list(cursor) {
            Ok(_items) => Ok(()),
            Err(e) => Err(e),
        }
    } else {
        match cursor.seek_relative(PLAIN_PROPERTY_SKIP) {
            Ok(()) => Ok(()),
            Err(e) => Err(e),
        }
    }
}

/// The run of `n` property records laid out one after another at offset
/// `p`. Yields the offset past the last one.
pub open spec fn spec_properties(s: Seq<u8>, p: int, n: nat) -> Result<int, DecodeError>
    decreases n,
{
    if n == 0 {
        Ok(p)
    } else {
        match spec_property(s, p) {
            Err(e) => Err(e),
            Ok(after_property) => spec_properties(s, after_property, (n - 1) as nat),
        }
    }
}

/// The bitmap header laid out at offset `p`: the two-byte signature, the
/// declared bitmap size, two reserved fields, and the pixel data offset.
pub open spec fn spec_bitmap_header(s: Seq<u8>, p: int) -> Result<(BitmapHeader, int), DecodeError> {
    if p + 2 > s.len() {
        Err(DecodeError::TruncatedInput)
    } else if le16_at(s, p) != BITMAP_MAGIC {
        Err(
            DecodeError::BadMagic {
                expected: BITMAP_MAGIC as u32,
                found: le16_at(s, p) as u32,
                offset: p as usize,
            },
        )
    } else if p + 14 > s.len() {
        Err(DecodeError::TruncatedInput)
    } else {
        Ok(
            (
                BitmapHeader {
                    magic: le16_at(s, p),
                    size_in_bytes: le32_at(s, p + 2),
                    reserved_1: le16_at(s, p + 6),
                    reserved_2: le16_at(s, p + 8),
                    pixel_data_offset: le32_at(s, p + 10),
                },
                p + 14,
            ),
        )
    }
}

/// Parses the bitmap header at the cursor, per `spec_bitmap_header`.
pub fn parse_bitmap_header(cursor: &mut Cursor) -> (r: Result<BitmapHeader, DecodeError>)
    requires
        old(cursor).wf(),
    ensures
        final(cursor).wf(),
        final(cursor).data@ == old(cursor).data@,
        match (spec_bitmap_header(old(cursor).data@, old(cursor).pos as int), r) {
            (Ok((header, end)), Ok(parsed)) => parsed == header && final(cursor).pos == end,
            (Err(expected), Err(actual)) => expected == actual,
            _ => false,
        },
{
    let start = cursor.pos;
    let magic = match cursor.read_u16() {
        Ok(v) => v,
        Err(e) => {
            return Err(e);
        },
    };
    if magic != BITMAP_MAGIC {
        return Err(
            DecodeError::BadMagic {
                expected: BITMAP_MAGIC as u32,
                found: magic as u32,
                offset: start,
            },
        );
    }
    let size_in_bytes = match cursor.read_u32() {
        Ok(v) => v,
        Err(e) => {
            return Err(e);
        },
    };
    let reserved_1 = match cursor.read_u16() {
        Ok(v) => v,
        Err(e) => {
            return Err(e);
        },
    };
    let reserved_2 = match cursor.read_u16() {
        Ok(v) => v,
        Err(e) => {
            return Err(e);
        },
    };
    let pixel_data_offset = match cursor.read_u32() {
        Ok(v) => v,
        Err(e) => {
            return Err(e);
        },
    };
    Ok(BitmapHeader { magic, size_in_bytes, reserved_1, reserved_2, pixel_data_offset })
}

/// The embedded bitmap laid out at offset `p`: its header, then the pixel
/// payload, consumed without decoding by skipping the declared size less the
/// header bytes already read. Yields the offset past the bitmap.
pub open spec fn spec_bitmap(s: Seq<u8>, p: int) -> Result<int, DecodeError> {
    match spec_bitmap_header(s, p) {
        Err(e) => Err(e),
        Ok((header, _after_header)) => {
            if !(0 <= p + header.size_in_bytes <= s.len()) {
                Err(DecodeError::OutOfBounds)
            } else {
                Ok(p + header.size_in_bytes)
            }
        },
    }
}

/// Parses the embedded bitmap at the cursor, per `spec_bitmap`.
pub fn parse_bitmap(cursor: &mut Cursor) -> (r: Result<(), DecodeError>)
    requires
        old(cursor).wf(),
    ensures
        final(cursor).wf(),
        final(cursor).data@ == old(cursor).data@,
        match (spec_bitmap(old(cursor).data@, old(cursor).pos as int), r) {
            (Ok(end), Ok(())) => final(cursor).pos == end,
            (Err(expected), Err(actual)) => expected == actual,
            _ => false,
        },
{
    let header = match parse_bitmap_header(cursor) {
        Ok(v) => v,
        Err(e) => {
            return Err(e);
        },
    };
    match cursor.seek_relative(header.size_in_bytes as i64 - BITMAP_HEADER_SIZE) {
        Ok(()) => Ok(()),
        Err(e) => Err(e),
    }
}

/// The library entry laid out at offset `p`: the entry signature, the id,
/// the name, a metadata block (skipped), the property records, a marker
/// byte, and the embedded bitmap. Yields the creature and the offset past
/// the entry; its derived size hint is the metadata length plus a fixed
/// base.
#[verifier::opaque]
pub open spec fn spec_entry(s: Seq<u8>, p: int) -> Result<(CreatureView, int), DecodeError> {
    if p + 4 > s.len() {
        Err(DecodeError::TruncatedInput)
    } else if le32_at(s, p) != ENTRY_MAGIC {
        Err(
            DecodeError::BadMagic {
                expected: ENTRY_MAGIC,
                found: le32_at(s, p),
                offset: p as usize,
            },
        )
    } else if p + 6 > s.len() {
        Err(DecodeError::TruncatedInput)
    } else {
        match spec_pascal_string(s, p + 6) {
            Err(e) => Err(e),
            Ok((name, after_name)) => {
                if after_name + 2 > s.len() {
                    Err(DecodeError::TruncatedInput)
                } else {
                    let metadata_length = le16_at(s, after_name) as int;
                    if !(0 <= after_name + 8 + metadata_length <= s.len()) {
                        Err(DecodeError::OutOfBounds)
                    } else {
                        let after_metadata = after_name + 8 + metadata_length;
                        if after_metadata + 2 > s.len() {
                            Err(DecodeError::TruncatedInput)
                        } else {
                            match spec_properties(
                                s,
                                after_metadata + 2,
                                le16_at(s, after_metadata) as nat,
                            ) {
                                Err(e) => Err(e),
                                Ok(after_properties) => {
                                    if after_properties + 1 > s.len() {
                                        Err(DecodeError::TruncatedInput)
                                    } else {
                                        match spec_bitmap(s, after_properties + 1) {
                                            Err(e) => Err(e),
                                            Ok(end) => Ok(
                                                (
                                                    CreatureView {
                                                        id: le16_at(s, p + 4),
                                                        name,
                                                        size: SIZE_HINT_BASE + metadata_length,
                                                    },
                                                    end,
                                                ),
                                            ),
                                        }
                                    }
                                },
                            }
                        }
                    }
                }
            },
        }
    }
}

/// Parses one library entry at the cursor, per `spec_entry`.
#[verifier::loop_isolation(false)]
pub fn parse_entry(cursor: &mut Cursor) -> (r: Result<Creature, DecodeError>)
    requires
        old(cursor).wf(),
    ensures
        final(cursor).wf(),
        final(cursor).data@ == old(cursor).data@,
        match (spec_entry(old(cursor).data@, old(cursor).pos as int), r) {
            (Ok((creature, end)), Ok(parsed)) => parsed@ == creature && final(cursor).pos == end,
            (Err(expected), Err(actual)) => expected == actual,
            _ => false,
        },
{
    proof {
        reveal(spec_entry);
    }
    let ghost s = old(cursor).data@;
    let start = cursor.pos;
    let magic = match cursor.read_u32() {
        Ok(v) => v,
        Err(e) => {
            return Err(e);
        },
    };
    if magic != ENTRY_MAGIC {
        return Err(DecodeError::BadMagic { expected: ENTRY_MAGIC, found: magic, offset: start });
    }
    let id = match cursor.read_u16() {
        Ok(v) => v,
        Err(e) => {
            return Err(e);
        },
    };
    let name = match parse_pascal_string(cursor) {
        Ok(v) => v,
        Err(e) => {
            return Err(e);
        },
    };
    let metadata_length = match cursor.read_u16() {
        Ok(v) => v,
        Err(e) => {
            return Err(e);
        },
    };
    if cursor.seek_relative(metadata_length as i64 + METADATA_TRAILING_SKIP as i64).is_err() {
        return Err(DecodeError::OutOfBounds);
    }
    let property_count = match cursor.read_u16() {
        Ok(v) => v,
        Err(e) => {
            return Err(e);
        },
    };
    let ghost properties_start = cursor.pos as int;
    let mut i: usize = 0;
    while i < property_count as usize
        invariant
            cursor.wf(),
            cursor.data@ == s,
            i <= property_count,
            spec_properties(s, cursor.pos as int, (property_count - i) as nat) == spec_properties(
                s,
                properties_start,
                property_count as nat,
            ),
        decreases property_count - i,
    {
        match parse_property(cursor) {
            Ok(()) => (),
            Err(e) => {
                return Err(e);
            },
        };
        i = i + 1;
    }
    let _marker = match cursor.read_u8() {
        Ok(v) => v,
        Err(e) => {
            return Err(e);
        },
    };
    match parse_bitmap(cursor) {
        Ok(()) => (),
        Err(e) => {
            return Err(e);
        },
    };
    Ok(Creature { id, name, size: SIZE_HINT_BASE as usize + metadata_length as usize })
}

/// A run of named values never moves the offset backwards, nor past the end.
proof fn lemma_array_items_bounds(s: Seq<u8>, p: int, n: nat)
    requires
        0 <= p <= s.len(),
        spec_array_items(s, p, n) is Ok,
    ensures
        p <= spec_array_items(s, p, n)->Ok_0.1 <= s.len(),
    decreases n,
{
    if n != 0 {
        let after_item = spec_array_item(s, p)->Ok_0.1;
        lemma_array_items_bounds(s, after_item, (n - 1) as nat);
    }
}

/// A property record never moves the offset backwards, nor past the end.
proof fn lemma_property_bounds(s: Seq<u8>, p: int)
    requires
        0 <= p <= s.len(),
        spec_property(s, p) is Ok,
    ensures
        p <= spec_property(s, p)->Ok_0 <= s.len(),
{
    let after_name = spec_pascal_string(s, p)->Ok_0.1;
    let kind = s[after_name];
    if kind == 1 || kind == 2 || kind == 3 {
        lemma_array_items_bounds(
            s,
            after_name + 15,
            le16_at(s, after_name + 13) as nat,
        );
    }
}

/// A run of property records never moves the offset backwards, nor past the
/// end.
proof fn lemma_properties_bounds(s: Seq<u8>, p: int, n: nat)
    requires
        0 <= p <= s.len(),
        spec_properties(s, p, n) is Ok,
    ensures
        p <= spec_properties(s, p, n)->Ok_0 <= s.len(),
    decreases n,
{
    if n != 0 {
        let after_property = spec_property(s, p)->Ok_0;
        lemma_property_bounds(s, p);
        lemma_properties_bounds(s, after_property, (n - 1) as nat);
    }
}

/// A library entry always moves the offset strictly forwards, and never past
/// the end: parsing entries one after another terminates.
proof fn lemma_entry_advances(s: Seq<u8>, p: int)
    requires
        0 <= p <= s.len(),
        spec_entry(s, p) is Ok,
    ensures
        p < spec_entry(s, p)->Ok_0.1 <= s.len(),
{
    reveal(spec_entry);
    let after_name = spec_pascal_string(s, p + 6)->Ok_0.1;
    let metadata_length = le16_at(s, after_name) as int;
    let after_metadata = after_name + 8 + metadata_length;
    lemma_properties_bounds(s, after_metadata + 2, le16_at(s, after_metadata) as nat);
}

/// The table built from the entries laid out one after another at offset
/// `p`, on top of the already-built table `table`, until it holds `total`
/// ids. A later entry with an already-present id overwrites it; the
/// recursion is bounded because every entry moves strictly forwards through
/// the file, and a file that runs out before the table is full surfaces the
/// entry's own failure.
pub open spec fn spec_library_loop(
    s: Seq<u8>,
    p: int,
    table: Map<u16, CreatureView>,
    total: int,
) -> Result<Map<u16, CreatureView>, DecodeError>
    decreases s.len() - p,
{
    if table.dom().len() >= total {
        Ok(table)
    } else if !(0 <= p <= s.len()) {
        Err(DecodeError::TruncatedInput)
    } else {
        match spec_entry(s, p) {
            Err(e) => Err(e),
            Ok((creature, end)) => {
                if p < end <= s.len() {
                    spec_library_loop(s, end, table.insert(creature.id, creature), total)
                } else {
                    Err(DecodeError::TruncatedInput)
                }
            },
        }
    }
}

/// The creature table encoded by a whole library file: the file signature,
/// the declared entry count, then entries until the table holds that many
/// ids.
pub open spec fn spec_library(s: Seq<u8>) -> Result<Map<u16, CreatureView>, DecodeError> {
    if s.len() < 4 {
        Err(DecodeError::TruncatedInput)
    } else if le32_at(s, 0) != FILE_MAGIC {
        Err(DecodeError::BadMagic { expected: FILE_MAGIC, found: le32_at(s, 0), offset: 0 })
    } else if s.len() < 6 {
        Err(DecodeError::TruncatedInput)
    } else {
        spec_library_loop(s, 6, Map::empty(), le16_at(s, 4) as int)
    }
}

/// The mathematical content of a parsed library table: each creature by id.
pub open spec fn library_view(table: Map<u16, Creature>) -> Map<u16, CreatureView> {
    table.map_values(|c: Creature| c@)
}

/// Parses a whole creature library file: verifies the file signature, reads
/// the declared entry count, then parses entries until the table holds that
/// many distinct ids (a later entry with a duplicate id overwrites the
/// earlier one). The result is exactly the table that `spec_library` defines
/// from the file bytes; a wrong signature fails with `BadMagic` before
/// anything else is read, and any structural mismatch aborts the whole parse
/// with the entry's own failure.
#[verifier::loop_isolation(false)]
#[verifier::rlimit(100)]
pub fn parse_library(data: Vec<u8>) -> (r: Result<HashMap<u16, Creature>, DecodeError>)
    ensures
        match (spec_library(data@), r) {
            (Ok(table), Ok(parsed)) => library_view(parsed@) == table,
            (Err(expected), Err(actual)) => expected == actual,
            _ => false,
        },
{
    let mut cursor = Cursor::new(data);
    let ghost s = cursor.data@;
    let magic = match cursor.read_u32() {
        Ok(v) => v,
        Err(e) => {
            return Err(e);
        },
    };
    if magic != FILE_MAGIC {
        return Err(DecodeError::BadMagic { expected: FILE_MAGIC, found: magic, offset: 0 });
    }
    let total_entries = match cursor.read_u16() {
        Ok(v) => v,
        Err(e) => {
            return Err(e);
        },
    };
    let mut library: HashMap<u16, Creature> = HashMap::new();
    proof {
        assert(library_view(library@) =~= Map::<u16, CreatureView>::empty());
    }
    while library.len() < total_entries as usize
        invariant
            cursor.wf(),
            cursor.data@ == s,
            library@.dom().finite(),
            spec_library_loop(s, cursor.pos as int, library_view(library@), total_entries as int)
                == spec_library(s),
        decreases s.len() - cursor.pos,
    {
        let ghost entry_start = cursor.pos as int;
        proof {
            assert(library_view(library@).dom() =~= library@.dom());
        }
        let creature = match parse_entry(&mut cursor) {
            Ok(c) => c,
            Err(e) => {
                return Err(e);
            },
        };
        let ghost previous = library@;
        let ghost creature_view = creature@;
        proof {
            lemma_entry_advances(s, entry_start);
        }
        library.insert(creature.id, creature);
        proof {
            assert(library_view(library@) =~= library_view(previous).insert(
                creature_view.id,
                creature_view,
            ));
        }
    }
    proof {
        assert(library_view(library@).dom() =~= library@.dom());
    }
    Ok(library)
}

/// Entries added one after another on top of a table keyed by id keep it
/// keyed by id, and stop exactly when it holds the asked-for number of ids.
proof fn lemma_library_loop_size(
    s: Seq<u8>,
    p: int,
    table: Map<u16, CreatureView>,
    total: int,
    result: Map<u16, CreatureView>,
)
    requires
        spec_library_loop(s, p, table, total) == Ok::<Map<u16, CreatureView>, DecodeError>(result),
        table.dom().finite(),
        table.dom().len() <= total,
        forall|k: u16| table.dom().contains(k) ==> #[trigger] table[k].id == k,
    ensures
        result.dom().finite(),
        result.dom().len() == total,
        forall|k: u16| result.dom().contains(k) ==> #[trigger] result[k].id == k,
    decreases s.len() - p,
{
    broadcast use vstd::set::axiom_set_insert_len;

    if table.dom().len() < total {
        let creature = spec_entry(s, p)->Ok_0.0;
        let end = spec_entry(s, p)->Ok_0.1;
        let extended = table.insert(creature.id, creature);
        assert(extended.dom() =~= table.dom().insert(creature.id));
        lemma_library_loop_size(s, end, extended, total, result);
    }
}

/// Every successfully decoded library holds exactly as many creatures as the
/// file's declared entry count, and each one sits under its own id.
pub proof fn lemma_library_table_size(s: Seq<u8>, table: Map<u16, CreatureView>)
    requires
        spec_library(s) == Ok::<Map<u16, CreatureView>, DecodeError>(table),
    ensures
        table.dom().finite(),
        table.dom().len() == le16_at(s, 4),
        forall|k: u16| table.dom().contains(k) ==> #[trigger] table[k].id == k,
{
    lemma_library_loop_size(s, 6, Map::empty(), le16_at(s, 4) as int, table);
}

} // verus!
