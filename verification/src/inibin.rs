//! The flat map and the decoder that builds it from bytes.

use crate::entries::{
    inserted, inserted_all, keys_unique, lemma_inserted_all_push, lemma_inserted_all_unique,
    lookup, Entries,
};
use crate::error::FormatError;
use crate::hash::{hash_of, inibin_hash};
use crate::layout::{
    bools_end, bools_entries, bools_fit, byte_bit, key_at, key_count, key_list, keys_end,
    keys_fit, legacy_count, legacy_keys, legacy_offsets, lemma_text_entries_err, numbers_end,
    numbers_entries, numbers_fit, packed_len, parse, parse_legacy, parse_typed, section,
    sections_from, string_buffer, string_offsets, text_entries, Section, LEGACY_PAIRS_AT,
    SECTION_COUNT, VERSION_LEGACY, VERSION_TYPED,
};
use crate::value::{Float, FloatVec, Value, ValueView};
use crate::wire::{fits, is_bit_set, lemma_text_at_suffix, read_text, text_at, Reader};
use indexmap::IndexMap;
use vstd::prelude::*;
use vstd::slice::slice_subrange;

verus! {

/// `indexmap::IndexMap`, a hash map that keeps its entries in the order in
/// which their keys were first inserted. Nothing inside it is visible here.
#[verifier::external_type_specification]
#[verifier::external_body]
#[verifier::reject_recursive_types(K)]
#[verifier::reject_recursive_types(V)]
#[verifier::reject_recursive_types(S)]
pub struct ExIndexMap<K, V, S>(IndexMap<K, V, S>);

/// The entries of a map in the order in which the map walks them, each
/// value by its view.
pub uninterp spec fn map_entries(m: IndexMap<u32, Value>) -> Seq<(u32, ValueView)>;

/// `IndexMap::new`: a map without entries.
#[verifier::external_body]
fn map_new() -> (m: IndexMap<u32, Value>)
    ensures
        map_entries(m) == Seq::<(u32, ValueView)>::empty(),
{
    IndexMap::new()
}

/// `IndexMap::insert`: where the key is present it keeps its place in the
/// order and takes the new value; where it is absent the pair goes last.
#[verifier::external_body]
fn map_insert(m: &mut IndexMap<u32, Value>, key: u32, value: Value)
    ensures
        map_entries(*final(m)) == inserted(map_entries(*old(m)), key, value@),
{
    m.insert(key, value);
}

/// `IndexMap::get`: the value stored under the key where the key is
/// present, nothing where it is absent.
#[verifier::external_body]
fn map_get<'a>(m: &'a IndexMap<u32, Value>, key: u32) -> (r: Option<&'a Value>)
    ensures
        match r {
            Some(v) => lookup(map_entries(*m), key) == Some(v@),
            None => lookup(map_entries(*m), key) is None,
        },
{
    m.get(&key)
}

/// The offsets of a table as integers.
pub open spec fn as_ints(offsets: Seq<usize>) -> Seq<int> {
    Seq::new(offsets.len(), |i: int| offsets[i] as int)
}

/// Tells whether bit `bit` of the byte `b` is set.
fn is_byte_bit_set(b: u8, bit: u8) -> (r: bool)
    requires
        bit < 8,
    ensures
        r == byte_bit(b, bit),
{
    b & (1u8 << bit) != 0
}

/// Reads one payload of the section `kind`.
fn read_payload(r: &mut Reader, kind: Section) -> (res: Result<Value, FormatError>)
    requires
        old(r).wf(),
        kind.fixed(),
    ensures
        final(r).wf(),
        final(r).bytes@ == old(r).bytes@,
        match res {
            Ok(v) => fits(old(r).bytes@, old(r).pos as int, kind.width()) && final(r).pos
                == old(r).pos + kind.width() && v@ == kind.payload(
                old(r).bytes@,
                old(r).pos as int,
            ),
            Err(e) => e == FormatError::Truncated && !fits(
                old(r).bytes@,
                old(r).pos as int,
                kind.width(),
            ),
        },
{
    match kind {
        Section::I32 => {
            let v: i32 = r.read_i32()?;
            Ok(Value::I32(v))
        },
        Section::F32 => {
            let v: u32 = r.read_u32()?;
            Ok(Value::F32(Float::Bits(v)))
        },
        Section::ScaledF32 => {
            let v: u8 = r.read_u8()?;
            Ok(Value::F32(Float::Scaled(v)))
        },
        Section::I16 => {
            let v: i16 = r.read_i16()?;
            Ok(Value::I16(v))
        },
        Section::I8 => {
            let v: i8 = r.read_i8()?;
            Ok(Value::I8(v))
        },
        Section::ScaledVec3 => {
            let a: u8 = r.read_u8()?;
            let b: u8 = r.read_u8()?;
            let c: u8 = r.read_u8()?;
            let items = [Float::Scaled(a), Float::Scaled(b), Float::Scaled(c)];
            Ok(Value::Vec(FloatVec::from_slice(items.as_slice())))
        },
        Section::Vec3 => {
            let a: u32 = r.read_u32()?;
            let b: u32 = r.read_u32()?;
            let c: u32 = r.read_u32()?;
            let items = [Float::Bits(a), Float::Bits(b), Float::Bits(c)];
            Ok(Value::Vec(FloatVec::from_slice(items.as_slice())))
        },
        Section::ScaledVec2 => {
            let a: u8 = r.read_u8()?;
            let b: u8 = r.read_u8()?;
            let items = [Float::Scaled(a), Float::Scaled(b)];
            Ok(Value::Vec(FloatVec::from_slice(items.as_slice())))
        },
        Section::Vec2 => {
            let a: u32 = r.read_u32()?;
            let b: u32 = r.read_u32()?;
            let items = [Float::Bits(a), Float::Bits(b)];
            Ok(Value::Vec(FloatVec::from_slice(items.as_slice())))
        },
        Section::ScaledVec4 => {
            let a: u8 = r.read_u8()?;
            let b: u8 = r.read_u8()?;
            let c: u8 = r.read_u8()?;
            let d: u8 = r.read_u8()?;
            let items = [Float::Scaled(a), Float::Scaled(b), Float::Scaled(c), Float::Scaled(d)];
            Ok(Value::Vec(FloatVec::from_slice(items.as_slice())))
        },
        Section::Vec4 => {
            let a: u32 = r.read_u32()?;
            let b: u32 = r.read_u32()?;
            let c: u32 = r.read_u32()?;
            let d: u32 = r.read_u32()?;
            let items = [Float::Bits(a), Float::Bits(b), Float::Bits(c), Float::Bits(d)];
            Ok(Value::Vec(FloatVec::from_slice(items.as_slice())))
        },
        Section::Bool | Section::String => vstd::pervasive::unreached(),
    }
}

/// A flat map: values under 32-bit hash keys, in the order in which the keys
/// were first read.
#[derive(Debug)]
pub struct IniBin {
    map: IndexMap<u32, Value>,
}

impl View for IniBin {
    type V = Seq<(u32, ValueView)>;

    closed spec fn view(&self) -> Seq<(u32, ValueView)> {
        map_entries(self.map)
    }
}

impl IniBin {
    /// The underlying map.
    pub fn map(&self) -> (m: &IndexMap<u32, Value>)
        ensures
            map_entries(*m) == self@,
    {
        &self.map
    }

    /// The underlying map, by value.
    pub fn into_map(self) -> (m: IndexMap<u32, Value>)
        ensures
            map_entries(m) == self@,
    {
        self.map
    }

    /// The value stored under the hash key `key`.
    pub fn lookup(&self, key: u32) -> (r: Option<&Value>)
        ensures
            match r {
                Some(v) => lookup(self@, key) == Some(v@),
                None => lookup(self@, key) is None,
            },
    {
        map_get(&self.map, key)
    }

    /// The value of the field `ident` of the section `section`.
    pub fn get(&self, section: &str, ident: &str) -> (r: Option<&Value>)
        ensures
            match r {
                Some(v) => lookup(self@, hash_of(section@, ident@)) == Some(v@),
                None => lookup(self@, hash_of(section@, ident@)) is None,
            },
    {
        self.lookup(inibin_hash(section, ident))
    }

    /// Decodes a buffer in either layout. No map is handed out unless the
    /// whole buffer could be read.
    pub fn from_bytes(b: &[u8]) -> (res: Result<IniBin, FormatError>)
        ensures
            match res {
                Ok(ini) => parse(b@) == Ok::<Entries, FormatError>(ini@) && keys_unique(ini@),
                Err(e) => parse(b@) == Err::<Entries, FormatError>(e),
            },
    {
        let mut r = Reader::new(b);
        let version: u8 = r.read_u8()?;
        if version == VERSION_LEGACY {
            match r.skip(3) {
                Ok(()) => Self::from_v1(&mut r),
                Err(e) => Err(e),
            }
        } else if version == VERSION_TYPED {
            Self::from_v2(&mut r)
        } else {
            Err(FormatError::InvalidVersion)
        }
    }

    fn empty() -> (ini: IniBin)
        ensures
            ini@ == Seq::<(u32, ValueView)>::empty(),
    {
        IniBin { map: map_new() }
    }

    fn insert(&mut self, key: u32, value: Value)
        ensures
            final(self)@ == inserted(old(self)@, key, value@),
    {
        map_insert(&mut self.map, key, value);
    }

    /// Decodes the legacy layout from just behind its four header bytes.
    fn from_v1(r: &mut Reader) -> (res: Result<IniBin, FormatError>)
        requires
            old(r).wf(),
            old(r).pos == 4,
        ensures
            match res {
                Ok(ini) => parse_legacy(old(r).bytes@) == Ok::<Entries, FormatError>(ini@)
                    && keys_unique(ini@),
                Err(e) => parse_legacy(old(r).bytes@) == Err::<Entries, FormatError>(e),
            },
    {
        let ghost bytes = r.bytes@;
        let entry_count: u32 = r.read_u32()?;
        let _data_count: u32 = r.read_u32()?;
        let mut keys: Vec<u32> = Vec::new();
        let mut offsets: Vec<usize> = Vec::new();
        let mut i: u32 = 0;
        while i < entry_count
            invariant
                r.wf(),
                r.bytes@ == bytes,
                bytes.len() >= LEGACY_PAIRS_AT,
                entry_count == legacy_count(bytes),
                i <= entry_count,
                r.pos == LEGACY_PAIRS_AT + 8 * i,
                keys@.len() == i,
                offsets@.len() == i,
                forall|j: int| 0 <= j < i ==> keys@[j] == legacy_keys(bytes)[j],
                forall|j: int| 0 <= j < i ==> offsets@[j] as int == legacy_offsets(bytes)[j],
                parse_legacy(old(r).bytes@) == parse_legacy(bytes),
            decreases entry_count - i,
        {
            let key: u32 = r.read_u32()?;
            let offset: u32 = r.read_u32()?;
            keys.push(key);
            offsets.push(offset as usize);
            i += 1;
        }
        let buffer = r.rest();
        let mut ini = Self::empty();
        assert(keys@ =~= legacy_keys(bytes));
        assert(as_ints(offsets@) =~= legacy_offsets(bytes));
        match ini.read_strings(&keys, &offsets, buffer) {
            Ok(()) => {
                proof {
                    let es = text_entries(
                        keys@,
                        as_ints(offsets@),
                        buffer@,
                        keys@.len() as int,
                    ).unwrap();
                    lemma_inserted_all_unique(Seq::empty(), es);
                }
                Ok(ini)
            },
            Err(e) => Err(e),
        }
    }

    /// Decodes the typed-section layout from just behind its version byte.
    fn from_v2(r: &mut Reader) -> (res: Result<IniBin, FormatError>)
        requires
            old(r).wf(),
            old(r).pos == 1,
        ensures
            match res {
                Ok(ini) => parse_typed(old(r).bytes@) == Ok::<Entries, FormatError>(ini@)
                    && keys_unique(ini@),
                Err(e) => parse_typed(old(r).bytes@) == Err::<Entries, FormatError>(e),
            },
    {
        let ghost bytes = r.bytes@;
        let mut ini = Self::empty();
        let str_len: u16 = r.read_u16()?;
        let flags: u16 = r.read_u16()?;
        let mut bit: u8 = 0;
        while bit < SECTION_COUNT
            invariant
                r.wf(),
                r.bytes@ == bytes,
                bit <= SECTION_COUNT,
                keys_unique(ini@),
                parse_typed(old(r).bytes@) == sections_from(
                    bytes,
                    flags,
                    str_len as int,
                    bit as int,
                    r.pos as int,
                    ini@,
                ),
            decreases SECTION_COUNT - bit,
        {
            if is_bit_set(flags, bit) {
                let kind = Section::from_bit(bit);
                let ghost before = ini@;
                let ghost pos = r.pos as int;
                match kind {
                    Section::Bool => ini.read_section_bools(r)?,
                    Section::String => ini.read_section_strings(r, str_len as usize)?,
                    _ => ini.read_section_numbers(r, kind)?,
                }
                proof {
                    let es = section(kind, bytes, pos, str_len as int).unwrap().0;
                    lemma_inserted_all_unique(before, es);
                }
            }
            bit += 1;
        }
        Ok(ini)
    }

    /// Reads a key list: a count, then that many keys.
    fn read_keys(r: &mut Reader) -> (res: Result<Vec<u32>, FormatError>)
        requires
            old(r).wf(),
        ensures
            final(r).wf(),
            final(r).bytes@ == old(r).bytes@,
            match res {
                Ok(keys) => keys_fit(old(r).bytes@, old(r).pos as int) && keys@ == key_list(
                    old(r).bytes@,
                    old(r).pos as int,
                ) && final(r).pos == keys_end(old(r).bytes@, old(r).pos as int),
                Err(e) => e == FormatError::Truncated && !keys_fit(
                    old(r).bytes@,
                    old(r).pos as int,
                ),
            },
    {
        let ghost bytes = r.bytes@;
        let ghost pos = r.pos as int;
        let count: u16 = r.read_u16()?;
        let mut keys: Vec<u32> = Vec::with_capacity(count as usize);
        let mut i: u16 = 0;
        while i < count
            invariant
                r.wf(),
                r.bytes@ == bytes,
                old(r).bytes@ == bytes,
                old(r).pos == pos,
                fits(bytes, pos, 2),
                count == key_count(bytes, pos),
                i <= count,
                r.pos == pos + 2 + 4 * i,
                keys@.len() == i,
                forall|j: int| 0 <= j < i ==> keys@[j] == key_at(bytes, pos, j),
            decreases count - i,
        {
            let key: u32 = r.read_u32()?;
            keys.push(key);
            i += 1;
        }
        Ok(keys)
    }

    /// Reads a section of fixed width: a key list, then one payload per key.
    fn read_section_numbers(&mut self, r: &mut Reader, kind: Section) -> (res: Result<
        (),
        FormatError,
    >)
        requires
            old(r).wf(),
            kind.fixed(),
        ensures
            final(r).wf(),
            final(r).bytes@ == old(r).bytes@,
            match res {
                Ok(()) => numbers_fit(kind, old(r).bytes@, old(r).pos as int) && final(r).pos
                    == numbers_end(kind, old(r).bytes@, old(r).pos as int) && final(self)@
                    == inserted_all(
                    old(self)@,
                    numbers_entries(kind, old(r).bytes@, old(r).pos as int),
                ),
                Err(e) => e == FormatError::Truncated && !numbers_fit(
                    kind,
                    old(r).bytes@,
                    old(r).pos as int,
                ),
            },
    {
        let ghost bytes = r.bytes@;
        let ghost pos = r.pos as int;
        let ghost start = self@;
        let keys = Self::read_keys(r)?;
        let ghost entries = numbers_entries(kind, bytes, pos);
        let ghost base = keys_end(bytes, pos);
        let ghost width = kind.width();
        let mut i: usize = 0;
        while i < keys.len()
            invariant
                r.wf(),
                r.bytes@ == bytes,
                old(r).bytes@ == bytes,
                old(r).pos == pos,
                kind.fixed(),
                width == kind.width(),
                base == keys_end(bytes, pos),
                entries == numbers_entries(kind, bytes, pos),
                keys_fit(bytes, pos),
                keys@ == key_list(bytes, pos),
                i <= keys@.len(),
                r.pos == base + i * width,
                self@ == inserted_all(start, entries.take(i as int)),
            decreases keys@.len() - i,
        {
            proof {
                let n = keys@.len() as int;
                assert((i + 1) * width == i * width + width) by (nonlinear_arith);
                assert((i + 1) * width <= n * width) by (nonlinear_arith)
                    requires
                        i + 1 <= n,
                        0 <= width,
                ;
            }
            let value = read_payload(r, kind)?;
            proof {
                assert(entries.take(i + 1) =~= entries.take(i as int).push(entries[i as int]));
                lemma_inserted_all_push(
                    start,
                    entries.take(i as int),
                    entries[i as int].0,
                    entries[i as int].1,
                );
            }
            self.insert(keys[i], value);
            i += 1;
        }
        assert(entries.take(i as int) =~= entries);
        Ok(())
    }

    /// Reads a boolean section: a key list, then the booleans packed eight
    /// to a byte, the first in the lowest bit.
    fn read_section_bools(&mut self, r: &mut Reader) -> (res: Result<(), FormatError>)
        requires
            old(r).wf(),
        ensures
            final(r).wf(),
            final(r).bytes@ == old(r).bytes@,
            match res {
                Ok(()) => bools_fit(old(r).bytes@, old(r).pos as int) && final(r).pos
                    == bools_end(old(r).bytes@, old(r).pos as int) && final(self)@
                    == inserted_all(old(self)@, bools_entries(old(r).bytes@, old(r).pos as int)),
                Err(e) => e == FormatError::Truncated && !bools_fit(
                    old(r).bytes@,
                    old(r).pos as int,
                ),
            },
    {
        let ghost bytes = r.bytes@;
        let ghost pos = r.pos as int;
        let ghost start = self@;
        let keys = Self::read_keys(r)?;
        let ghost entries = bools_entries(bytes, pos);
        let ghost base = keys_end(bytes, pos);
        let mut b: u8 = 0;
        let mut i: usize = 0;
        while i < keys.len()
            invariant
                r.wf(),
                r.bytes@ == bytes,
                old(r).bytes@ == bytes,
                old(r).pos == pos,
                base == keys_end(bytes, pos),
                entries == bools_entries(bytes, pos),
                keys_fit(bytes, pos),
                keys@ == key_list(bytes, pos),
                i <= keys@.len(),
                r.pos == base + packed_len(i as int),
                i % 8 != 0 ==> b == bytes[base + i / 8],
                self@ == inserted_all(start, entries.take(i as int)),
            decreases keys@.len() - i,
        {
            let bit: u8 = (i % 8) as u8;
            if bit == 0 {
                b = r.read_u8()?;
            }
            proof {
                assert(entries.take(i + 1) =~= entries.take(i as int).push(entries[i as int]));
                lemma_inserted_all_push(
                    start,
                    entries.take(i as int),
                    entries[i as int].0,
                    entries[i as int].1,
                );
            }
            self.insert(keys[i], Value::Bool(is_byte_bit_set(b, bit)));
            i += 1;
        }
        assert(entries.take(i as int) =~= entries);
        Ok(())
    }

    /// Reads a string section: a key list, one offset per key, then the
    /// shared string buffer of `str_len` bytes.
    fn read_section_strings(&mut self, r: &mut Reader, str_len: usize) -> (res: Result<
        (),
        FormatError,
    >)
        requires
            old(r).wf(),
        ensures
            final(r).wf(),
            final(r).bytes@ == old(r).bytes@,
            match res {
                Ok(()) => section(
                    Section::String,
                    old(r).bytes@,
                    old(r).pos as int,
                    str_len as int,
                ) matches Ok((es, next)) && final(r).pos == next && final(self)@
                    == inserted_all(old(self)@, es),
                Err(e) => section(Section::String, old(r).bytes@, old(r).pos as int, str_len as int)
                    == Err::<(Entries, int), FormatError>(e),
            },
    {
        let ghost bytes = r.bytes@;
        let ghost pos = r.pos as int;
        let keys = Self::read_keys(r)?;
        let ghost base = keys_end(bytes, pos);
        let mut offsets: Vec<usize> = Vec::with_capacity(keys.len());
        let mut i: usize = 0;
        while i < keys.len()
            invariant
                r.wf(),
                r.bytes@ == bytes,
                old(r).bytes@ == bytes,
                old(r).pos == pos,
                base == keys_end(bytes, pos),
                keys_fit(bytes, pos),
                keys@ == key_list(bytes, pos),
                i <= keys@.len(),
                r.pos == base + 2 * i,
                offsets@.len() == i,
                forall|j: int| 0 <= j < i ==> offsets@[j] as int == string_offsets(bytes, pos)[j],
            decreases keys@.len() - i,
        {
            let offset: u16 = r.read_u16()?;
            offsets.push(offset as usize);
            i += 1;
        }
        let buffer = r.take(str_len)?;
        assert(as_ints(offsets@) =~= string_offsets(bytes, pos));
        self.read_strings(&keys, &offsets, buffer)
    }

    /// Stores the strings of a table: string `i` has key `keys[i]` and starts
    /// at `offsets[i]` in `buffer`.
    fn read_strings(&mut self, keys: &Vec<u32>, offsets: &Vec<usize>, buffer: &[u8]) -> (res:
        Result<(), FormatError>)
        requires
            offsets@.len() == keys@.len(),
        ensures
            match res {
                Ok(()) => text_entries(
                    keys@,
                    as_ints(offsets@),
                    buffer@,
                    keys@.len() as int,
                ) matches Ok(es) && final(self)@ == inserted_all(old(self)@, es),
                Err(e) => text_entries(keys@, as_ints(offsets@), buffer@, keys@.len() as int)
                    == Err::<Entries, FormatError>(e),
            },
    {
        let ghost start = self@;
        let ghost n = keys@.len() as int;
        let ghost mut done: Entries = Seq::empty();
        let mut i: usize = 0;
        while i < keys.len()
            invariant
                n == keys@.len(),
                offsets@.len() == n,
                i <= n,
                text_entries(keys@, as_ints(offsets@), buffer@, i as int) == Ok::<
                    Entries,
                    FormatError,
                >(done),
                self@ == inserted_all(start, done),
            decreases n - i,
        {
            match self.read_string(keys[i], buffer, offsets[i]) {
                Ok(()) => {
                    proof {
                        let text = text_at(buffer@, offsets@[i as int] as int).unwrap();
                        lemma_inserted_all_push(
                            start,
                            done,
                            keys@[i as int],
                            ValueView::String(text),
                        );
                        done = done.push((keys@[i as int], ValueView::String(text)));
                    }
                },
                Err(e) => {
                    proof {
                        lemma_text_entries_err(keys@, as_ints(offsets@), buffer@, i + 1, n);
                    }
                    return Err(e);
                },
            }
            i += 1;
        }
        Ok(())
    }

    /// Stores under `key` the string that starts at `offset` in `buffer`.
    fn read_string(&mut self, key: u32, buffer: &[u8], offset: usize) -> (res: Result<
        (),
        FormatError,
    >)
        ensures
            match res {
                Ok(()) => text_at(buffer@, offset as int) matches Ok(text) && final(self)@
                    == inserted(old(self)@, key, ValueView::String(text)),
                Err(e) => text_at(buffer@, offset as int) == Err::<Seq<char>, FormatError>(e)
                    && final(self)@ == old(self)@,
            },
    {
        if offset > buffer.len() {
            return Err(FormatError::Truncated);
        }
        proof {
            lemma_text_at_suffix(buffer@, offset as int);
        }
        let text = read_text(slice_subrange(buffer, offset, buffer.len()))?;
        self.insert(key, Value::String(text));
        Ok(())
    }
}

} // verus!
