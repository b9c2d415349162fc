//! What a byte buffer means: the two layouts of the format, stated over the
//! bytes alone.

use crate::entries::{inserted_all, keys_unique, lemma_inserted_all_unique, Entries};
use crate::error::FormatError;
use crate::value::{Float, ValueView};
use crate::wire::{as_i8, bit_set, fits, le_i16, le_i32, le_u16, le_u32, text_at};
use vstd::prelude::*;

verus! {

/// Version byte of the offset-table layout.
pub const VERSION_LEGACY: u8 = 0x01;

/// Version byte of the typed-section layout.
pub const VERSION_TYPED: u8 = 0x02;

/// Number of typed sections, and of the flag bits that announce them.
pub const SECTION_COUNT: u8 = 13;

/// The typed sections, in the order of their flag bits and of their place in
/// the buffer.
#[derive(Clone, Copy, Debug, PartialEq, Eq)]
pub enum Section {
    I32,
    F32,
    ScaledF32,
    I16,
    I8,
    Bool,
    ScaledVec3,
    Vec3,
    ScaledVec2,
    Vec2,
    ScaledVec4,
    Vec4,
    String,
}

impl Section {
    /// The section that flag bit `bit` announces.
    pub open spec fn of_bit(bit: int) -> Section {
        if bit == 0 {
            Section::I32
        } else if bit == 1 {
            Section::F32
        } else if bit == 2 {
            Section::ScaledF32
        } else if bit == 3 {
            Section::I16
        } else if bit == 4 {
            Section::I8
        } else if bit == 5 {
            Section::Bool
        } else if bit == 6 {
            Section::ScaledVec3
        } else if bit == 7 {
            Section::Vec3
        } else if bit == 8 {
            Section::ScaledVec2
        } else if bit == 9 {
            Section::Vec2
        } else if bit == 10 {
            Section::ScaledVec4
        } else if bit == 11 {
            Section::Vec4
        } else {
            Section::String
        }
    }

    /// The section that flag bit `bit` announces.
    pub fn from_bit(bit: u8) -> (s: Section)
        requires
            bit < SECTION_COUNT,
        ensures
            s == Section::of_bit(bit as int),
    {
        if bit == 0 {
            Section::I32
        } else if bit == 1 {
            Section::F32
        } else if bit == 2 {
            Section::ScaledF32
        } else if bit == 3 {
            Section::I16
        } else if bit == 4 {
            Section::I8
        } else if bit == 5 {
            Section::Bool
        } else if bit == 6 {
            Section::ScaledVec3
        } else if bit == 7 {
            Section::Vec3
        } else if bit == 8 {
            Section::ScaledVec2
        } else if bit == 9 {
            Section::Vec2
        } else if bit == 10 {
            Section::ScaledVec4
        } else if bit == 11 {
            Section::Vec4
        } else {
            Section::String
        }
    }

    /// The section stores one payload of fixed width per key.
    pub open spec fn fixed(self) -> bool {
        !(self is Bool) && !(self is String)
    }

    /// Bytes of payload per key in a section of fixed width; 0 for the
    /// other two.
    pub open spec fn width(self) -> int {
        match self {
            Section::I32 => 4,
            Section::F32 => 4,
            Section::ScaledF32 => 1,
            Section::I16 => 2,
            Section::I8 => 1,
            Section::ScaledVec3 => 3,
            Section::Vec3 => 12,
            Section::ScaledVec2 => 2,
            Section::Vec2 => 8,
            Section::ScaledVec4 => 4,
            Section::Vec4 => 16,
            Section::Bool => 0,
            Section::String => 0,
        }
    }

    /// The value that the payload at `at` holds, in a section of fixed width.
    pub open spec fn payload(self, bytes: Seq<u8>, at: int) -> ValueView {
        match self {
            Section::I32 => ValueView::I32(le_i32(bytes, at)),
            Section::F32 => ValueView::F32(Float::Bits(le_u32(bytes, at))),
            Section::ScaledF32 => ValueView::F32(Float::Scaled(bytes[at])),
            Section::I16 => ValueView::I16(le_i16(bytes, at)),
            Section::I8 => ValueView::I8(as_i8(bytes[at])),
            Section::ScaledVec3 => ValueView::Vec(
                seq![
                    Float::Scaled(bytes[at]),
                    Float::Scaled(bytes[at + 1]),
                    Float::Scaled(bytes[at + 2]),
                ],
            ),
            Section::Vec3 => ValueView::Vec(
                seq![
                    Float::Bits(le_u32(bytes, at)),
                    Float::Bits(le_u32(bytes, at + 4)),
                    Float::Bits(le_u32(bytes, at + 8)),
                ],
            ),
            Section::ScaledVec2 => ValueView::Vec(
                seq![Float::Scaled(bytes[at]), Float::Scaled(bytes[at + 1])],
            ),
            Section::Vec2 => ValueView::Vec(
                seq![Float::Bits(le_u32(bytes, at)), Float::Bits(le_u32(bytes, at + 4))],
            ),
            Section::ScaledVec4 => ValueView::Vec(
                seq![
                    Float::Scaled(bytes[at]),
                    Float::Scaled(bytes[at + 1]),
                    Float::Scaled(bytes[at + 2]),
                    Float::Scaled(bytes[at + 3]),
                ],
            ),
            Section::Vec4 => ValueView::Vec(
                seq![
                    Float::Bits(le_u32(bytes, at)),
                    Float::Bits(le_u32(bytes, at + 4)),
                    Float::Bits(le_u32(bytes, at + 8)),
                    Float::Bits(le_u32(bytes, at + 12)),
                ],
            ),
            Section::Bool | Section::String => arbitrary(),
        }
    }
}

/// The number of keys that the key list at `pos` declares.
pub open spec fn key_count(bytes: Seq<u8>, pos: int) -> int {
    le_u16(bytes, pos) as int
}

/// The index just past the key list at `pos`.
pub open spec fn keys_end(bytes: Seq<u8>, pos: int) -> int {
    pos + 2 + 4 * key_count(bytes, pos)
}

/// The key list at `pos` lies within the buffer.
pub open spec fn keys_fit(bytes: Seq<u8>, pos: int) -> bool {
    fits(bytes, pos, 2) && keys_end(bytes, pos) <= bytes.len()
}

/// Key `i` of the key list at `pos`.
pub open spec fn key_at(bytes: Seq<u8>, pos: int, i: int) -> u32 {
    le_u32(bytes, pos + 2 + 4 * i)
}

/// The keys of the key list at `pos`.
pub open spec fn key_list(bytes: Seq<u8>, pos: int) -> Seq<u32> {
    Seq::new(key_count(bytes, pos) as nat, |i: int| key_at(bytes, pos, i))
}

/// The index just past a section of fixed width that starts at `pos`.
pub open spec fn numbers_end(kind: Section, bytes: Seq<u8>, pos: int) -> int {
    keys_end(bytes, pos) + key_count(bytes, pos) * kind.width()
}

/// A section of fixed width that starts at `pos` lies within the buffer.
pub open spec fn numbers_fit(kind: Section, bytes: Seq<u8>, pos: int) -> bool {
    keys_fit(bytes, pos) && numbers_end(kind, bytes, pos) <= bytes.len()
}

/// The entries of a section of fixed width: key `i` with payload `i`.
pub open spec fn numbers_entries(kind: Section, bytes: Seq<u8>, pos: int) -> Entries {
    Seq::new(
        key_count(bytes, pos) as nat,
        |i: int|
            (key_at(bytes, pos, i), kind.payload(bytes, keys_end(bytes, pos) + i * kind.width())),
    )
}

/// Bytes that hold `n` packed booleans, eight to a byte.
pub open spec fn packed_len(n: int) -> int {
    (n + 7) / 8
}

/// Bit `bit` of the byte `b` is set.
pub open spec fn byte_bit(b: u8, bit: u8) -> bool {
    b & (1u8 << bit) != 0
}

/// The index just past a boolean section that starts at `pos`.
pub open spec fn bools_end(bytes: Seq<u8>, pos: int) -> int {
    keys_end(bytes, pos) + packed_len(key_count(bytes, pos))
}

/// A boolean section that starts at `pos` lies within the buffer.
pub open spec fn bools_fit(bytes: Seq<u8>, pos: int) -> bool {
    keys_fit(bytes, pos) && bools_end(bytes, pos) <= bytes.len()
}

/// Boolean `i` of the section at `pos`: bit `i mod 8` of payload byte
/// `i / 8`.
pub open spec fn bool_at(bytes: Seq<u8>, pos: int, i: int) -> bool {
    byte_bit(bytes[keys_end(bytes, pos) + i / 8], (i % 8) as u8)
}

/// The entries of a boolean section.
pub open spec fn bools_entries(bytes: Seq<u8>, pos: int) -> Entries {
    Seq::new(
        key_count(bytes, pos) as nat,
        |i: int| (key_at(bytes, pos, i), ValueView::Bool(bool_at(bytes, pos, i))),
    )
}

/// The entries of the first `n` strings of a string table: string `i` has
/// key `keys[i]` and starts at `offsets[i]` in `buf`. The first string that
/// cannot be read decides the error.
pub open spec fn text_entries(keys: Seq<u32>, offsets: Seq<int>, buf: Seq<u8>, n: int) -> Result<
    Entries,
    FormatError,
>
    decreases n,
{
    if n <= 0 {
        Ok(Seq::empty())
    } else {
        match text_entries(keys, offsets, buf, n - 1) {
            Err(e) => Err(e),
            Ok(es) => match text_at(buf, offsets[n - 1]) {
                Err(e) => Err(e),
                Ok(text) => Ok(es.push((keys[n - 1], ValueView::String(text)))),
            },
        }
    }
}

/// The index at which the string buffer of the section at `pos` starts.
pub open spec fn strings_start(bytes: Seq<u8>, pos: int) -> int {
    keys_end(bytes, pos) + 2 * key_count(bytes, pos)
}

/// The index just past a string section that starts at `pos`.
pub open spec fn strings_end(bytes: Seq<u8>, pos: int, str_len: int) -> int {
    strings_start(bytes, pos) + str_len
}

/// A string section that starts at `pos` lies within the buffer.
pub open spec fn strings_fit(bytes: Seq<u8>, pos: int, str_len: int) -> bool {
    keys_fit(bytes, pos) && 0 <= str_len && strings_end(bytes, pos, str_len) <= bytes.len()
}

/// The offsets of the string section at `pos`, one per key.
pub open spec fn string_offsets(bytes: Seq<u8>, pos: int) -> Seq<int> {
    Seq::new(
        key_count(bytes, pos) as nat,
        |i: int| le_u16(bytes, keys_end(bytes, pos) + 2 * i) as int,
    )
}

/// The shared string buffer of the section at `pos`.
pub open spec fn string_buffer(bytes: Seq<u8>, pos: int, str_len: int) -> Seq<u8> {
    bytes.subrange(strings_start(bytes, pos), strings_end(bytes, pos, str_len))
}

/// The entries of the section `kind` that starts at `pos`, and the index just
/// past it.
pub open spec fn section(kind: Section, bytes: Seq<u8>, pos: int, str_len: int) -> Result<
    (Entries, int),
    FormatError,
> {
    match kind {
        Section::Bool => if bools_fit(bytes, pos) {
            Ok((bools_entries(bytes, pos), bools_end(bytes, pos)))
        } else {
            Err(FormatError::Truncated)
        },
        Section::String => if strings_fit(bytes, pos, str_len) {
            match text_entries(
                key_list(bytes, pos),
                string_offsets(bytes, pos),
                string_buffer(bytes, pos, str_len),
                key_count(bytes, pos),
            ) {
                Ok(es) => Ok((es, strings_end(bytes, pos, str_len))),
                Err(e) => Err(e),
            }
        } else {
            Err(FormatError::Truncated)
        },
        _ => if numbers_fit(kind, bytes, pos) {
            Ok((numbers_entries(kind, bytes, pos), numbers_end(kind, bytes, pos)))
        } else {
            Err(FormatError::Truncated)
        },
    }
}

/// The flat map after the sections from flag bit `bit` on were read from
/// `pos`, on top of the entries `acc`.
pub open spec fn sections_from(
    bytes: Seq<u8>,
    flags: u16,
    str_len: int,
    bit: int,
    pos: int,
    acc: Entries,
) -> Result<Entries, FormatError>
    decreases SECTION_COUNT - bit,
{
    if bit < 0 || bit >= SECTION_COUNT {
        Ok(acc)
    } else if !bit_set(flags, bit as u8) {
        sections_from(bytes, flags, str_len, bit + 1, pos, acc)
    } else {
        match section(Section::of_bit(bit), bytes, pos, str_len) {
            Err(e) => Err(e),
            Ok((es, next)) => sections_from(
                bytes,
                flags,
                str_len,
                bit + 1,
                next,
                inserted_all(acc, es),
            ),
        }
    }
}

/// Index of the string-buffer length in the typed layout.
pub const TYPED_STR_LEN_AT: usize = 1;

/// Index of the flags in the typed layout.
pub const TYPED_FLAGS_AT: usize = 3;

/// Index of the first section in the typed layout.
pub const TYPED_BODY_AT: usize = 5;

/// The flat map of a buffer in the typed-section layout.
pub open spec fn parse_typed(bytes: Seq<u8>) -> Result<Entries, FormatError> {
    if bytes.len() < TYPED_BODY_AT {
        Err(FormatError::Truncated)
    } else {
        sections_from(
            bytes,
            le_u16(bytes, TYPED_FLAGS_AT as int),
            le_u16(bytes, TYPED_STR_LEN_AT as int) as int,
            0,
            TYPED_BODY_AT as int,
            Seq::empty(),
        )
    }
}

/// Index of the entry count in the legacy layout.
pub const LEGACY_COUNT_AT: usize = 4;

/// Index of the first `(key, offset)` pair in the legacy layout.
pub const LEGACY_PAIRS_AT: usize = 12;

/// The number of entries that a legacy buffer declares.
pub open spec fn legacy_count(bytes: Seq<u8>) -> int {
    le_u32(bytes, LEGACY_COUNT_AT as int) as int
}

/// The index at which the string data of a legacy buffer starts.
pub open spec fn legacy_data_at(bytes: Seq<u8>) -> int {
    LEGACY_PAIRS_AT + 8 * legacy_count(bytes)
}

/// The keys of a legacy buffer.
pub open spec fn legacy_keys(bytes: Seq<u8>) -> Seq<u32> {
    Seq::new(legacy_count(bytes) as nat, |i: int| le_u32(bytes, LEGACY_PAIRS_AT + 8 * i))
}

/// The offsets of a legacy buffer, one per key.
pub open spec fn legacy_offsets(bytes: Seq<u8>) -> Seq<int> {
    Seq::new(
        legacy_count(bytes) as nat,
        |i: int| le_u32(bytes, LEGACY_PAIRS_AT + 8 * i + 4) as int,
    )
}

/// The flat map of a buffer in the legacy layout: every value is a string.
pub open spec fn parse_legacy(bytes: Seq<u8>) -> Result<Entries, FormatError> {
    if bytes.len() < LEGACY_PAIRS_AT || legacy_data_at(bytes) > bytes.len() {
        Err(FormatError::Truncated)
    } else {
        match text_entries(
            legacy_keys(bytes),
            legacy_offsets(bytes),
            bytes.subrange(legacy_data_at(bytes), bytes.len() as int),
            legacy_count(bytes),
        ) {
            Ok(es) => Ok(inserted_all(Seq::empty(), es)),
            Err(e) => Err(e),
        }
    }
}

/// The flat map that `bytes` hold, or why they hold none.
pub open spec fn parse(bytes: Seq<u8>) -> Result<Entries, FormatError> {
    if bytes.len() == 0 {
        Err(FormatError::Truncated)
    } else if bytes[0] == VERSION_LEGACY {
        parse_legacy(bytes)
    } else if bytes[0] == VERSION_TYPED {
        parse_typed(bytes)
    } else {
        Err(FormatError::InvalidVersion)
    }
}

/// Once a string of a table cannot be read, the table cannot be read,
/// however many strings are asked for.
pub proof fn lemma_text_entries_err(
    keys: Seq<u32>,
    offsets: Seq<int>,
    buf: Seq<u8>,
    k: int,
    n: int,
)
    requires
        k <= n,
        text_entries(keys, offsets, buf, k) is Err,
    ensures
        text_entries(keys, offsets, buf, n) == text_entries(keys, offsets, buf, k),
    decreases n - k,
{
    if k < n {
        lemma_text_entries_err(keys, offsets, buf, k, n - 1);
    }
}

/// Reading sections on top of unique keys gives unique keys.
pub proof fn lemma_sections_unique(
    bytes: Seq<u8>,
    flags: u16,
    str_len: int,
    bit: int,
    pos: int,
    acc: Entries,
)
    requires
        keys_unique(acc),
    ensures
        sections_from(bytes, flags, str_len, bit, pos, acc) matches Ok(es) ==> keys_unique(es),
    decreases SECTION_COUNT - bit,
{
    if 0 <= bit < SECTION_COUNT {
        if !bit_set(flags, bit as u8) {
            lemma_sections_unique(bytes, flags, str_len, bit + 1, pos, acc);
        } else {
            match section(Section::of_bit(bit), bytes, pos, str_len) {
                Err(e) => {},
                Ok((es, next)) => {
                    lemma_inserted_all_unique(acc, es);
                    lemma_sections_unique(
                        bytes,
                        flags,
                        str_len,
                        bit + 1,
                        next,
                        inserted_all(acc, es),
                    );
                },
            }
        }
    }
}

/// In the flat map of any buffer, no key stands at two places.
pub proof fn lemma_parse_unique(bytes: Seq<u8>)
    ensures
        parse(bytes) matches Ok(es) ==> keys_unique(es),
{
    if bytes.len() > 0 && bytes[0] == VERSION_LEGACY {
        if parse_legacy(bytes) is Ok {
            let es = text_entries(
                legacy_keys(bytes),
                legacy_offsets(bytes),
                bytes.subrange(legacy_data_at(bytes), bytes.len() as int),
                legacy_count(bytes),
            ).unwrap();
            lemma_inserted_all_unique(Seq::empty(), es);
        }
    } else if bytes.len() > 0 && bytes[0] == VERSION_TYPED {
        if bytes.len() >= TYPED_BODY_AT {
            lemma_sections_unique(
                bytes,
                le_u16(bytes, TYPED_FLAGS_AT as int),
                le_u16(bytes, TYPED_STR_LEN_AT as int) as int,
                0,
                TYPED_BODY_AT as int,
                Seq::empty(),
            );
        }
    }
}

/// A table that can be read has one entry per string.
pub proof fn lemma_text_entries_len(keys: Seq<u32>, offsets: Seq<int>, buf: Seq<u8>, n: int)
    requires
        0 <= n,
    ensures
        text_entries(keys, offsets, buf, n) matches Ok(es) ==> es.len() == n,
    decreases n,
{
    if n > 0 {
        lemma_text_entries_len(keys, offsets, buf, n - 1);
    }
}

} // verus!
