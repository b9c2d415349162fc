//! The schema-driven decoder: it walks a declared struct field by field,
//! rebuilds the hash key of each field and looks the field up in a flat map.

use crate::entries::{keys_unique, lookup, Entries};
use crate::error::{Error, FormatError};
use crate::hash::{
    hash_extend, hash_of, inibin_hash, inibin_incremental_hash, lemma_hash_chain,
};
use crate::inibin::IniBin;
use crate::layout::parse;
use crate::value::{Float, FloatVec, Value, ValueView};
use vstd::prelude::*;
use vstd::slice::slice_subrange;

verus! {

/// The kinds of value a caller can ask for.
#[derive(Clone, Copy, Debug, PartialEq, Eq)]
pub enum Request {
    Any,
    Bool,
    I8,
    I16,
    I32,
    I64,
    I128,
    U8,
    U16,
    U32,
    U64,
    U128,
    F32,
    F64,
    Char,
    Str,
    String,
    Bytes,
    ByteBuf,
    Option,
    Unit,
    UnitStruct,
    NewtypeStruct,
    Sequence,
    Tuple,
    TupleStruct,
    Mapping,
    Enum,
    IgnoredAny,
}

impl Request {
    /// The decoder serves this kind: it looks the field up and hands out
    /// what is stored, whatever its tag.
    pub open spec fn served(self) -> bool {
        match self {
            Request::Any
            | Request::Bool
            | Request::I8
            | Request::I16
            | Request::I32
            | Request::I64
            | Request::I128
            | Request::U8
            | Request::U16
            | Request::U32
            | Request::U64
            | Request::F32
            | Request::String
            | Request::Option => true,
            _ => false,
        }
    }

    /// A field asked for in this kind must be present.
    pub open spec fn required(self) -> bool {
        !(self is Option)
    }

    /// Tells whether the decoder serves this kind.
    pub fn is_served(&self) -> (r: bool)
        ensures
            r == self.served(),
    {
        match self {
            Request::Any
            | Request::Bool
            | Request::I8
            | Request::I16
            | Request::I32
            | Request::I64
            | Request::I128
            | Request::U8
            | Request::U16
            | Request::U32
            | Request::U64
            | Request::F32
            | Request::String
            | Request::Option => true,
            _ => false,
        }
    }

    /// Tells whether a field asked for in this kind must be present.
    pub fn is_required(&self) -> (r: bool)
        ensures
            r == self.required(),
    {
        match self {
            Request::Option => false,
            _ => true,
        }
    }
}

/// What a frame stands for.
pub struct FrameView {
    /// Hash of the struct's name with an empty field name.
    pub struct_name_hash: u32,
    /// Names of the fields not yet reached, in declared order.
    pub remaining: Seq<Seq<char>>,
    /// Hash key of the field reached last; 0 before the first.
    pub current_field_hash: u32,
}

/// The frame of a struct that was just entered.
pub open spec fn fresh_frame(name: Seq<char>, fields: Seq<Seq<char>>) -> FrameView {
    FrameView {
        struct_name_hash: hash_of(name, Seq::empty()),
        remaining: fields,
        current_field_hash: 0,
    }
}

/// The frame after its next field was reached.
pub open spec fn advanced(frame: FrameView) -> FrameView {
    FrameView {
        struct_name_hash: frame.struct_name_hash,
        remaining: frame.remaining.skip(1),
        current_field_hash: hash_extend(frame.struct_name_hash, frame.remaining[0]),
    }
}

/// The stack after a struct was entered.
pub open spec fn entered(
    stack: Seq<FrameView>,
    name: Seq<char>,
    fields: Seq<Seq<char>>,
) -> Seq<FrameView> {
    stack.push(fresh_frame(name, fields))
}

/// The names of a field list.
pub open spec fn names(fields: Seq<&'static str>) -> Seq<Seq<char>> {
    Seq::new(fields.len(), |i: int| fields[i]@)
}

/// What a read of the field under `key` gives: the stored value, nothing
/// for an absent optional field, an error for an absent required field.
pub open spec fn read_outcome(map: Entries, key: u32, required: bool) -> Result<
    Option<ValueView>,
    Error,
> {
    match lookup(map, key) {
        Some(v) => Ok(Some(v)),
        None => if required {
            Err(Error::FieldNotFound(key))
        } else {
            Ok(None)
        },
    }
}

/// What a request for the field under `key` gives: a kind that the decoder
/// does not serve is refused whatever is stored.
pub open spec fn request_outcome(map: Entries, key: u32, request: Request) -> Result<
    Option<ValueView>,
    Error,
> {
    if request.served() {
        read_outcome(map, key, request.required())
    } else {
        Err(Error::TypeUnsupported)
    }
}

/// The child's seed is the hash of its own name: it is the same on top of
/// any stack, and the frames below are left as they were.
pub proof fn lemma_child_seed_is_own(
    below: Seq<FrameView>,
    other: Seq<FrameView>,
    name: Seq<char>,
    fields: Seq<Seq<char>>,
)
    ensures
        entered(below, name, fields).last().struct_name_hash == hash_of(name, Seq::empty()),
        entered(below, name, fields).last() == entered(other, name, fields).last(),
        entered(below, name, fields).drop_last() == below,
{
}

/// The frame after `k` of its fields were reached.
pub open spec fn walked(frame: FrameView, k: nat) -> FrameView
    decreases k,
{
    if k == 0 {
        frame
    } else {
        advanced(walked(frame, (k - 1) as nat))
    }
}

/// Walking the fields of a struct keeps its seed, leaves the fields not yet
/// reached, and gives each field reached the hash of the struct's name and
/// the field's name as its key: no other frame enters into it.
pub proof fn lemma_walk(name: Seq<char>, fields: Seq<Seq<char>>, k: nat)
    requires
        k <= fields.len(),
    ensures
        walked(fresh_frame(name, fields), k).struct_name_hash == hash_of(name, Seq::empty()),
        walked(fresh_frame(name, fields), k).remaining == fields.skip(k as int),
        k > 0 ==> walked(fresh_frame(name, fields), k).current_field_hash == hash_of(
            name,
            fields[k - 1],
        ),
    decreases k,
{
    if k > 0 {
        lemma_walk(name, fields, (k - 1) as nat);
        lemma_hash_chain(name, fields[k - 1]);
    }
}

/// One struct that is being decoded.
#[derive(Debug)]
struct Frame {
    struct_name_hash: u32,
    fields: &'static [&'static str],
    current_field_hash: u32,
}

impl View for Frame {
    type V = FrameView;

    closed spec fn view(&self) -> FrameView {
        FrameView {
            struct_name_hash: self.struct_name_hash,
            remaining: names(self.fields@),
            current_field_hash: self.current_field_hash,
        }
    }
}

/// What a decoder stands for: its flat map and its stack of frames, the
/// innermost struct last.
pub struct DeserializerView {
    pub map: Entries,
    pub stack: Seq<FrameView>,
}

/// A decoding session over one flat map.
#[derive(Debug)]
pub struct Deserializer {
    inibin: IniBin,
    stack: Vec<Frame>,
}

impl View for Deserializer {
    type V = DeserializerView;

    closed spec fn view(&self) -> DeserializerView {
        DeserializerView {
            map: self.inibin@,
            stack: Seq::new(self.stack@.len(), |i: int| self.stack@[i]@),
        }
    }
}

impl Deserializer {
    /// A session over the flat map that `input` holds, outside any struct.
    pub fn from_bytes(input: &[u8]) -> (res: Result<Deserializer, FormatError>)
        ensures
            match res {
                Ok(de) => parse(input@) == Ok::<Entries, FormatError>(de@.map) && keys_unique(
                    de@.map,
                ) && de@.stack == Seq::<FrameView>::empty(),
                Err(e) => parse(input@) == Err::<Entries, FormatError>(e),
            },
    {
        let inibin = IniBin::from_bytes(input)?;
        let de = Deserializer { inibin, stack: Vec::new() };
        Ok(de)
    }

    /// The flat map of the session.
    pub fn inibin(&self) -> (ini: &IniBin)
        ensures
            ini@ == self@.map,
    {
        &self.inibin
    }

    /// The number of structs entered and not yet left.
    pub fn depth(&self) -> (n: usize)
        ensures
            n == self@.stack.len(),
    {
        self.stack.len()
    }

    /// The name hash of the innermost struct.
    pub fn struct_name_hash(&self) -> (h: u32)
        requires
            self@.stack.len() > 0,
        ensures
            h == self@.stack.last().struct_name_hash,
    {
        self.stack[self.stack.len() - 1].struct_name_hash
    }

    /// The hash key of the field reached last in the innermost struct.
    pub fn current_field_hash(&self) -> (h: u32)
        requires
            self@.stack.len() > 0,
        ensures
            h == self@.stack.last().current_field_hash,
    {
        self.stack[self.stack.len() - 1].current_field_hash
    }

    /// The number of fields of the innermost struct not yet reached.
    pub fn remaining_fields(&self) -> (n: usize)
        requires
            self@.stack.len() > 0,
        ensures
            n == self@.stack.last().remaining.len(),
    {
        self.stack[self.stack.len() - 1].fields.len()
    }

    /// Enters the struct `name` with the declared fields `fields`: one more
    /// frame, seeded by the struct's own name.
    pub fn enter_struct(&mut self, name: &str, fields: &'static [&'static str])
        ensures
            final(self)@.map == old(self)@.map,
            final(self)@.stack == entered(old(self)@.stack, name@, names(fields@)),
    {
        self.stack.push(
            Frame { struct_name_hash: inibin_hash(name, ""), fields, current_field_hash: 0 },
        );
        proof {
            reveal_strlit("");
        }
    }

    /// Reaches the next declared field of the innermost struct and hands out
    /// its name. The field's hash key becomes the current one.
    pub fn next_field(&mut self) -> (res: Result<&'static str, Error>)
        requires
            old(self)@.stack.len() > 0,
        ensures
            final(self)@.map == old(self)@.map,
            match res {
                Ok(name) => old(self)@.stack.last().remaining.len() > 0 && name@ == old(
                    self,
                )@.stack.last().remaining[0] && final(self)@.stack == old(self)@.stack.update(
                    old(self)@.stack.len() - 1,
                    advanced(old(self)@.stack.last()),
                ),
                Err(e) => e == Error::SchemaExhausted && old(self)@.stack.last().remaining.len()
                    == 0 && final(self)@.stack == old(self)@.stack,
            },
    {
        let last: usize = self.stack.len() - 1;
        if self.stack[last].fields.len() == 0 {
            return Err(Error::SchemaExhausted);
        }
        let frame = self.stack.pop().unwrap();
        let name: &'static str = frame.fields[0];
        let rest = slice_subrange(frame.fields, 1, frame.fields.len());
        let next = Frame {
            struct_name_hash: frame.struct_name_hash,
            fields: rest,
            current_field_hash: inibin_incremental_hash(frame.struct_name_hash, name),
        };
        proof {
            assert(names(rest@) =~= names(frame.fields@).skip(1));
        }
        self.stack.push(next);
        Ok(name)
    }

    /// Reaches the next field of the innermost struct, or leaves the struct
    /// where every declared field has been reached.
    pub fn next_key(&mut self) -> (res: Option<&'static str>)
        requires
            old(self)@.stack.len() > 0,
        ensures
            final(self)@.map == old(self)@.map,
            match res {
                Some(name) => old(self)@.stack.last().remaining.len() > 0 && name@ == old(
                    self,
                )@.stack.last().remaining[0] && final(self)@.stack == old(self)@.stack.update(
                    old(self)@.stack.len() - 1,
                    advanced(old(self)@.stack.last()),
                ),
                None => old(self)@.stack.last().remaining.len() == 0 && final(self)@.stack == old(
                    self,
                )@.stack.drop_last(),
            },
    {
        match self.next_field() {
            Ok(name) => Some(name),
            Err(_) => {
                self.stack.pop();
                None
            },
        }
    }

    /// Looks up the current field of the innermost struct.
    pub fn read_value(&self, required: bool) -> (res: Result<Option<&Value>, Error>)
        requires
            self@.stack.len() > 0,
        ensures
            match res {
                Ok(Some(v)) => read_outcome(
                    self@.map,
                    self@.stack.last().current_field_hash,
                    required,
                ) == Ok::<Option<ValueView>, Error>(Some(v@)),
                Ok(None) => read_outcome(
                    self@.map,
                    self@.stack.last().current_field_hash,
                    required,
                ) == Ok::<Option<ValueView>, Error>(None),
                Err(e) => read_outcome(
                    self@.map,
                    self@.stack.last().current_field_hash,
                    required,
                ) == Err::<Option<ValueView>, Error>(e),
            },
    {
        let key: u32 = self.current_field_hash();
        match self.inibin.lookup(key) {
            Some(v) => Ok(Some(v)),
            None => if required {
                Err(Error::FieldNotFound(key))
            } else {
                Ok(None)
            },
        }
    }

    /// Serves a request for the current field of the innermost struct in
    /// the kind `request`.
    pub fn read_request(&self, request: Request) -> (res: Result<Option<&Value>, Error>)
        requires
            self@.stack.len() > 0,
        ensures
            match res {
                Ok(Some(v)) => request_outcome(
                    self@.map,
                    self@.stack.last().current_field_hash,
                    request,
                ) == Ok::<Option<ValueView>, Error>(Some(v@)),
                Ok(None) => request_outcome(
                    self@.map,
                    self@.stack.last().current_field_hash,
                    request,
                ) == Ok::<Option<ValueView>, Error>(None),
                Err(e) => request_outcome(
                    self@.map,
                    self@.stack.last().current_field_hash,
                    request,
                ) == Err::<Option<ValueView>, Error>(e),
            },
    {
        if request.is_served() {
            self.read_value(request.is_required())
        } else {
            Err(Error::TypeUnsupported)
        }
    }
}

/// What a cursor stands for: the floats of a vector and the index of the
/// next one to hand out.
pub struct VecCursorView {
    pub items: Seq<Float>,
    pub idx: int,
}

/// One read from a cursor: the next float and the cursor moved on, or
/// nothing and the cursor as it was once every float has been handed out.
pub open spec fn stepped(c: VecCursorView) -> (VecCursorView, Option<Float>) {
    if 0 <= c.idx < c.items.len() {
        (VecCursorView { items: c.items, idx: c.idx + 1 }, Some(c.items[c.idx]))
    } else {
        (c, None)
    }
}

/// The cursor after `k` reads.
pub open spec fn after_reads(c: VecCursorView, k: nat) -> VecCursorView
    decreases k,
{
    if k == 0 {
        c
    } else {
        stepped(after_reads(c, (k - 1) as nat)).0
    }
}

/// A cursor over `items` hands out `items[k]` at read `k` while `k` is less
/// than the number of items, and nothing at every later read.
pub proof fn lemma_cursor_bound(items: Seq<Float>, k: nat)
    ensures
        ({
            let c = after_reads(VecCursorView { items, idx: 0 }, k);
            &&& c.items == items
            &&& c.idx == if k <= items.len() {
                k as int
            } else {
                items.len() as int
            }
            &&& stepped(c).1 == if k < items.len() {
                Some(items[k as int])
            } else {
                None
            }
        }),
    decreases k,
{
    if k > 0 {
        lemma_cursor_bound(items, (k - 1) as nat);
    }
}

/// A cursor over the floats of a vector value.
#[derive(Debug)]
pub struct VecCursor {
    items: FloatVec,
    idx: usize,
}

impl View for VecCursor {
    type V = VecCursorView;

    closed spec fn view(&self) -> VecCursorView {
        VecCursorView { items: self.items@, idx: self.idx as int }
    }
}

impl VecCursor {
    /// A cursor at the first float of `items`.
    pub fn new(items: FloatVec) -> (c: VecCursor)
        ensures
            c@ == (VecCursorView { items: items@, idx: 0 }),
    {
        VecCursor { items, idx: 0 }
    }

    /// The number of floats not yet handed out.
    pub fn remaining(&self) -> (n: usize)
        ensures
            n == if self@.idx <= self@.items.len() {
                self@.items.len() - self@.idx
            } else {
                0
            },
    {
        let len: usize = self.items.len();
        if self.idx <= len {
            len - self.idx
        } else {
            0
        }
    }

    /// Hands out the next float; the caller has made sure that there is one.
    pub fn read_element(&mut self) -> (x: Float)
        requires
            old(self)@.idx < old(self)@.items.len(),
        ensures
            (final(self)@, Some(x)) == stepped(old(self)@),
    {
        let x = self.items.as_slice()[self.idx];
        self.idx = self.idx + 1;
        x
    }

    /// Hands out the next float, or nothing once the vector is exhausted.
    pub fn next_element(&mut self) -> (r: Option<Float>)
        ensures
            (final(self)@, r) == stepped(old(self)@),
    {
        if self.idx < self.items.len() {
            Some(self.read_element())
        } else {
            None
        }
    }
}

} // verus!
