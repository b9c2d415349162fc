//! The values a flat map holds.

use crate::wire::{as_i16, as_i32, as_i8};
use smallvec::SmallVec;
use vstd::prelude::*;
use vstd::std_specs::convert::FromSpecImpl;

verus! {

/// A 32-bit floating-point quantity, held without floating-point arithmetic.
#[derive(Clone, Copy, Debug, PartialEq, Eq)]
pub enum Float {
    /// The IEEE-754 binary32 bit pattern of the number.
    Bits(u32),
    /// A byte of a scaled section: the number is this byte times the scale
    /// factor of the format.
    Scaled(u8),
}

/// A short vector of floats: a `smallvec::SmallVec<[Float; 4]>`, which stores
/// up to four items inline. Nothing inside it is visible to the verifier;
/// what it holds is `small_items`.
#[verifier::external_body]
#[derive(Debug, PartialEq)]
pub struct FloatVec {
    items: SmallVec<[Float; 4]>,
}

/// The items of a small vector, first to last.
pub uninterp spec fn small_items(v: FloatVec) -> Seq<Float>;

/// `SmallVec::from_slice`: a vector holding a copy of the items of `items`,
/// in their order.
#[verifier::external_body]
fn small_from_slice(items: &[Float]) -> (v: FloatVec)
    ensures
        small_items(v) == items@,
{
    FloatVec { items: SmallVec::from_slice(items) }
}

/// `SmallVec::as_slice`: the items of the vector as a slice, in their order.
#[verifier::external_body]
fn small_as_slice(v: &FloatVec) -> (items: &[Float])
    ensures
        items@ == small_items(*v),
{
    v.items.as_slice()
}

impl View for FloatVec {
    type V = Seq<Float>;

    open spec fn view(&self) -> Seq<Float> {
        small_items(*self)
    }
}

impl FloatVec {
    /// A vector of the items of `items`, in their order.
    pub fn from_slice(items: &[Float]) -> (v: Self)
        ensures
            v@ == items@,
    {
        small_from_slice(items)
    }

    /// The items as a slice.
    pub fn as_slice(&self) -> (items: &[Float])
        ensures
            items@ == self@,
    {
        small_as_slice(self)
    }

    /// The number of items.
    pub fn len(&self) -> (n: usize)
        ensures
            n == self@.len(),
    {
        small_as_slice(self).len()
    }
}

impl Clone for FloatVec {
    fn clone(&self) -> (r: Self)
        ensures
            r@ == self@,
    {
        small_from_slice(small_as_slice(self))
    }
}

/// What a [`Value`] stands for.
pub enum ValueView {
    I8(i8),
    I16(i16),
    I32(i32),
    I64(i64),
    F32(Float),
    Bool(bool),
    Vec(Seq<Float>),
    String(Seq<char>),
}

/// One stored value. The tag is the stored representation: no value is ever
/// widened or narrowed into another.
#[derive(Debug, PartialEq)]
pub enum Value {
    I8(i8),
    I16(i16),
    I32(i32),
    I64(i64),
    F32(Float),
    Bool(bool),
    Vec(FloatVec),
    String(String),
}

impl View for Value {
    type V = ValueView;

    open spec fn view(&self) -> ValueView {
        match *self {
            Value::I8(v) => ValueView::I8(v),
            Value::I16(v) => ValueView::I16(v),
            Value::I32(v) => ValueView::I32(v),
            Value::I64(v) => ValueView::I64(v),
            Value::F32(v) => ValueView::F32(v),
            Value::Bool(v) => ValueView::Bool(v),
            Value::Vec(v) => ValueView::Vec(v@),
            Value::String(v) => ValueView::String(v@),
        }
    }
}

impl Clone for Value {
    fn clone(&self) -> (r: Self)
        ensures
            r@ == self@,
    {
        match self {
            Value::I8(v) => Value::I8(*v),
            Value::I16(v) => Value::I16(*v),
            Value::I32(v) => Value::I32(*v),
            Value::I64(v) => Value::I64(*v),
            Value::F32(v) => Value::F32(*v),
            Value::Bool(v) => Value::Bool(*v),
            Value::Vec(v) => Value::Vec(v.clone()),
            Value::String(v) => Value::String(v.clone()),
        }
    }
}

/// The 64-bit pattern `u` read as a two's-complement integer.
pub open spec fn as_i64(u: u64) -> i64 {
    if u < 0x8000_0000_0000_0000 {
        u as i64
    } else {
        (u - 0x1_0000_0000_0000_0000) as i64
    }
}

impl From<i8> for Value {
    fn from(val: i8) -> (r: Value) {
        Value::I8(val)
    }
}

impl FromSpecImpl<i8> for Value {
    open spec fn obeys_from_spec() -> bool {
        true
    }

    open spec fn from_spec(val: i8) -> Value {
        Value::I8(val)
    }
}

impl From<u8> for Value {
    fn from(val: u8) -> (r: Value) {
        if val < 0x80 {
            Value::I8(val as i8)
        } else {
            Value::I8((val as i16 - 0x100) as i8)
        }
    }
}

impl FromSpecImpl<u8> for Value {
    open spec fn obeys_from_spec() -> bool {
        true
    }

    open spec fn from_spec(val: u8) -> Value {
        Value::I8(as_i8(val))
    }
}

impl From<i16> for Value {
    fn from(val: i16) -> (r: Value) {
        Value::I16(val)
    }
}

impl FromSpecImpl<i16> for Value {
    open spec fn obeys_from_spec() -> bool {
        true
    }

    open spec fn from_spec(val: i16) -> Value {
        Value::I16(val)
    }
}

impl From<u16> for Value {
    fn from(val: u16) -> (r: Value) {
        if val < 0x8000 {
            Value::I16(val as i16)
        } else {
            Value::I16((val as i32 - 0x1_0000) as i16)
        }
    }
}

impl FromSpecImpl<u16> for Value {
    open spec fn obeys_from_spec() -> bool {
        true
    }

    open spec fn from_spec(val: u16) -> Value {
        Value::I16(as_i16(val))
    }
}

impl From<i32> for Value {
    fn from(val: i32) -> (r: Value) {
        Value::I32(val)
    }
}

impl FromSpecImpl<i32> for Value {
    open spec fn obeys_from_spec() -> bool {
        true
    }

    open spec fn from_spec(val: i32) -> Value {
        Value::I32(val)
    }
}

impl From<u32> for Value {
    fn from(val: u32) -> (r: Value) {
        if val < 0x8000_0000 {
            Value::I32(val as i32)
        } else {
            Value::I32((val as i64 - 0x1_0000_0000) as i32)
        }
    }
}

impl FromSpecImpl<u32> for Value {
    open spec fn obeys_from_spec() -> bool {
        true
    }

    open spec fn from_spec(val: u32) -> Value {
        Value::I32(as_i32(val))
    }
}

impl From<i64> for Value {
    fn from(val: i64) -> (r: Value) {
        Value::I64(val)
    }
}

impl FromSpecImpl<i64> for Value {
    open spec fn obeys_from_spec() -> bool {
        true
    }

    open spec fn from_spec(val: i64) -> Value {
        Value::I64(val)
    }
}

impl From<u64> for Value {
    fn from(val: u64) -> (r: Value) {
        if val < 0x8000_0000_0000_0000 {
            Value::I64(val as i64)
        } else {
            Value::I64((val as i128 - 0x1_0000_0000_0000_0000) as i64)
        }
    }
}

impl FromSpecImpl<u64> for Value {
    open spec fn obeys_from_spec() -> bool {
        true
    }

    open spec fn from_spec(val: u64) -> Value {
        Value::I64(as_i64(val))
    }
}

impl From<bool> for Value {
    fn from(val: bool) -> (r: Value) {
        Value::Bool(val)
    }
}

impl FromSpecImpl<bool> for Value {
    open spec fn obeys_from_spec() -> bool {
        true
    }

    open spec fn from_spec(val: bool) -> Value {
        Value::Bool(val)
    }
}

impl From<Float> for Value {
    fn from(val: Float) -> (r: Value) {
        Value::F32(val)
    }
}

impl FromSpecImpl<Float> for Value {
    open spec fn obeys_from_spec() -> bool {
        true
    }

    open spec fn from_spec(val: Float) -> Value {
        Value::F32(val)
    }
}

impl From<String> for Value {
    fn from(val: String) -> (r: Value) {
        Value::String(val)
    }
}

impl FromSpecImpl<String> for Value {
    open spec fn obeys_from_spec() -> bool {
        true
    }

    open spec fn from_spec(val: String) -> Value {
        Value::String(val)
    }
}

impl From<FloatVec> for Value {
    fn from(val: FloatVec) -> (r: Value) {
        Value::Vec(val)
    }
}

impl FromSpecImpl<FloatVec> for Value {
    open spec fn obeys_from_spec() -> bool {
        true
    }

    open spec fn from_spec(val: FloatVec) -> Value {
        Value::Vec(val)
    }
}

impl From<[Float; 2]> for Value {
    fn from(val: [Float; 2]) -> (r: Value)
        ensures
            r@ == ValueView::Vec(val@),
    {
        Value::Vec(FloatVec::from_slice(val.as_slice()))
    }
}

impl FromSpecImpl<[Float; 2]> for Value {
    open spec fn obeys_from_spec() -> bool {
        false
    }

    open spec fn from_spec(val: [Float; 2]) -> Value {
        arbitrary()
    }
}

impl From<[Float; 3]> for Value {
    fn from(val: [Float; 3]) -> (r: Value)
        ensures
            r@ == ValueView::Vec(val@),
    {
        Value::Vec(FloatVec::from_slice(val.as_slice()))
    }
}

impl FromSpecImpl<[Float; 3]> for Value {
    open spec fn obeys_from_spec() -> bool {
        false
    }

    open spec fn from_spec(val: [Float; 3]) -> Value {
        arbitrary()
    }
}

impl From<[Float; 4]> for Value {
    fn from(val: [Float; 4]) -> (r: Value)
        ensures
            r@ == ValueView::Vec(val@),
    {
        Value::Vec(FloatVec::from_slice(val.as_slice()))
    }
}

impl FromSpecImpl<[Float; 4]> for Value {
    open spec fn obeys_from_spec() -> bool {
        false
    }

    open spec fn from_spec(val: [Float; 4]) -> Value {
        arbitrary()
    }
}

} // verus!
