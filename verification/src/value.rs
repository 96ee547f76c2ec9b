//! The value model: an ownership-tracked wrapper around one tagged-union
//! engine value. The payload is one of a fixed set of scalar kinds, a byte
//! vector (which doubles as the text kind), a homogeneous vector of a
//! scalar kind, or the distinguished nil value. Every typed accessor is
//! checked against the discriminant and reports a recoverable
//! `WrongVariant` error on a mismatch instead of trapping.

use vstd::prelude::*;
use vstd::string::StringSliceAdditionalSpecFns;

use crate::error::RayforceError;

verus! {

/// The mathematical value of one engine object.
pub enum RayVal {
    Null,
    Bool(bool),
    Byte(u8),
    I16(i16),
    I32(i32),
    I64(i64),
    Bytes(Seq<u8>),
    VecI16(Seq<i16>),
    VecI32(Seq<i32>),
    VecI64(Seq<i64>),
}

/// The type discriminant carried by every value.
#[derive(Clone, Copy, Debug, PartialEq, Eq, Structural)]
pub enum RayType {
    Null,
    Bool,
    Byte,
    I16,
    I32,
    I64,
    Bytes,
    VecI16,
    VecI32,
    VecI64,
}

/// The discriminant of a value.
pub open spec fn tag_of(v: RayVal) -> RayType {
    match v {
        RayVal::Null => RayType::Null,
        RayVal::Bool(_) => RayType::Bool,
        RayVal::Byte(_) => RayType::Byte,
        RayVal::I16(_) => RayType::I16,
        RayVal::I32(_) => RayType::I32,
        RayVal::I64(_) => RayType::I64,
        RayVal::Bytes(_) => RayType::Bytes,
        RayVal::VecI16(_) => RayType::VecI16,
        RayVal::VecI32(_) => RayType::VecI32,
        RayVal::VecI64(_) => RayType::VecI64,
    }
}

/// The stored form of one engine value.
pub enum Payload {
    Null,
    Bool(bool),
    Byte(u8),
    I16(i16),
    I32(i32),
    I64(i64),
    Bytes(Vec<u8>),
    VecI16(Vec<i16>),
    VecI32(Vec<i32>),
    VecI64(Vec<i64>),
}

impl View for Payload {
    type V = RayVal;

    open spec fn view(&self) -> RayVal {
        match self {
            Payload::Null => RayVal::Null,
            Payload::Bool(b) => RayVal::Bool(*b),
            Payload::Byte(n) => RayVal::Byte(*n),
            Payload::I16(n) => RayVal::I16(*n),
            Payload::I32(n) => RayVal::I32(*n),
            Payload::I64(n) => RayVal::I64(*n),
            Payload::Bytes(v) => RayVal::Bytes(v@),
            Payload::VecI16(v) => RayVal::VecI16(v@),
            Payload::VecI32(v) => RayVal::VecI32(v@),
            Payload::VecI64(v) => RayVal::VecI64(v@),
        }
    }
}

/// One owned engine value, tagged with its discriminant.
pub struct RayObj {
    pub payload: Payload,
}

impl View for RayObj {
    type V = RayVal;

    open spec fn view(&self) -> RayVal {
        self.payload@
    }
}

/// A byte vector of `n` zeroed elements, the unpopulated state of a fresh
/// vector value.
pub open spec fn zero_bytes(n: nat) -> Seq<u8> {
    Seq::new(n, |i: int| 0u8)
}

pub open spec fn zero_i16s(n: nat) -> Seq<i16> {
    Seq::new(n, |i: int| 0i16)
}

pub open spec fn zero_i32s(n: nat) -> Seq<i32> {
    Seq::new(n, |i: int| 0i32)
}

pub open spec fn zero_i64s(n: nat) -> Seq<i64> {
    Seq::new(n, |i: int| 0i64)
}

impl RayObj {
    /// The raw underlying object: direct access to the stored payload.
    pub fn as_ptr(&self) -> (r: &Payload)
        ensures
            r@ == self@,
    {
        &self.payload
    }

    /// The discriminant of this value.
    pub fn type_of(&self) -> (t: RayType)
        ensures
            t == tag_of(self@),
    {
        match &self.payload {
            Payload::Null => RayType::Null,
            Payload::Bool(_) => RayType::Bool,
            Payload::Byte(_) => RayType::Byte,
            Payload::I16(_) => RayType::I16,
            Payload::I32(_) => RayType::I32,
            Payload::I64(_) => RayType::I64,
            Payload::Bytes(_) => RayType::Bytes,
            Payload::VecI16(_) => RayType::VecI16,
            Payload::VecI32(_) => RayType::VecI32,
            Payload::VecI64(_) => RayType::VecI64,
        }
    }

    /// Whether this is the engine's distinguished "no output" value.
    pub fn is_nil(&self) -> (r: bool)
        ensures
            r == (self@ is Null),
    {
        match &self.payload {
            Payload::Null => true,
            _ => false,
        }
    }

    /// The nil value.
    pub fn null() -> (r: RayObj)
        ensures
            r@ == RayVal::Null,
    {
        RayObj { payload: Payload::Null }
    }

    /// A text value holding the bytes of `s`. Text is kept by explicit
    /// length, so it may contain zero bytes.
    pub fn from_text(s: &str) -> (r: RayObj)
        ensures
            r@ == RayVal::Bytes(s.spec_bytes()),
    {
        RayObj { payload: Payload::Bytes(copy_u8s_slice(s.as_bytes())) }
    }

    /// A byte-vector value holding exactly `bytes`.
    pub fn from_bytes(bytes: Vec<u8>) -> (r: RayObj)
        ensures
            r@ == RayVal::Bytes(bytes@),
    {
        RayObj { payload: Payload::Bytes(bytes) }
    }

    /// A vector value populated from the given elements.
    pub fn from_i64_slice(v: &[i64]) -> (r: RayObj)
        ensures
            r@ == RayVal::VecI64(v@),
    {
        RayObj { payload: Payload::VecI64(copy_i64s_slice(v)) }
    }

    /// A fresh vector value of `len` elements of the scalar kind `elem`,
    /// zero-filled: the length is fixed at construction and the caller is
    /// expected to overwrite every element before the value is observed by
    /// any other component. A non-vector element kind is a `WrongVariant`
    /// error.
    pub fn vector(elem: RayType, len: usize) -> (r: Result<RayObj, RayforceError>)
        ensures
            elem is Byte ==> (r matches Ok(o) && o@ == RayVal::Bytes(zero_bytes(len as nat))),
            elem is I16 ==> (r matches Ok(o) && o@ == RayVal::VecI16(zero_i16s(len as nat))),
            elem is I32 ==> (r matches Ok(o) && o@ == RayVal::VecI32(zero_i32s(len as nat))),
            elem is I64 ==> (r matches Ok(o) && o@ == RayVal::VecI64(zero_i64s(len as nat))),
            !(elem is Byte || elem is I16 || elem is I32 || elem is I64) ==> (r matches Err(e)
                && e == RayforceError::WrongVariant),
    {
        match elem {
            RayType::Byte => Ok(RayObj { payload: Payload::Bytes(make_zero_u8s(len)) }),
            RayType::I16 => Ok(RayObj { payload: Payload::VecI16(make_zero_i16s(len)) }),
            RayType::I32 => Ok(RayObj { payload: Payload::VecI32(make_zero_i32s(len)) }),
            RayType::I64 => Ok(RayObj { payload: Payload::VecI64(make_zero_i64s(len)) }),
            _ => Err(RayforceError::WrongVariant),
        }
    }

    /// The boolean payload, or `WrongVariant` for any other discriminant.
    pub fn as_bool(&self) -> (r: Result<bool, RayforceError>)
        ensures
            self@ matches RayVal::Bool(v) ==> r == Ok::<bool, RayforceError>(v),
            !(self@ is Bool) ==> r == Err::<bool, RayforceError>(RayforceError::WrongVariant),
    {
        match &self.payload {
            Payload::Bool(v) => Ok(*v),
            _ => Err(RayforceError::WrongVariant),
        }
    }

    /// The byte payload, or `WrongVariant` for any other discriminant.
    pub fn as_byte(&self) -> (r: Result<u8, RayforceError>)
        ensures
            self@ matches RayVal::Byte(v) ==> r == Ok::<u8, RayforceError>(v),
            !(self@ is Byte) ==> r == Err::<u8, RayforceError>(RayforceError::WrongVariant),
    {
        match &self.payload {
            Payload::Byte(v) => Ok(*v),
            _ => Err(RayforceError::WrongVariant),
        }
    }

    /// The 16-bit payload, or `WrongVariant` for any other discriminant.
    pub fn as_i16(&self) -> (r: Result<i16, RayforceError>)
        ensures
            self@ matches RayVal::I16(v) ==> r == Ok::<i16, RayforceError>(v),
            !(self@ is I16) ==> r == Err::<i16, RayforceError>(RayforceError::WrongVariant),
    {
        match &self.payload {
            Payload::I16(v) => Ok(*v),
            _ => Err(RayforceError::WrongVariant),
        }
    }

    /// The 32-bit payload, or `WrongVariant` for any other discriminant.
    pub fn as_i32(&self) -> (r: Result<i32, RayforceError>)
        ensures
            self@ matches RayVal::I32(v) ==> r == Ok::<i32, RayforceError>(v),
            !(self@ is I32) ==> r == Err::<i32, RayforceError>(RayforceError::WrongVariant),
    {
        match &self.payload {
            Payload::I32(v) => Ok(*v),
            _ => Err(RayforceError::WrongVariant),
        }
    }

    /// The 64-bit payload, or `WrongVariant` for any other discriminant.
    pub fn as_i64(&self) -> (r: Result<i64, RayforceError>)
        ensures
            self@ matches RayVal::I64(v) ==> r == Ok::<i64, RayforceError>(v),
            !(self@ is I64) ==> r == Err::<i64, RayforceError>(RayforceError::WrongVariant),
    {
        match &self.payload {
            Payload::I64(v) => Ok(*v),
            _ => Err(RayforceError::WrongVariant),
        }
    }

    /// The byte-vector payload, or `WrongVariant` for any other
    /// discriminant.
    pub fn as_bytes(&self) -> (r: Result<&Vec<u8>, RayforceError>)
        ensures
            self@ matches RayVal::Bytes(s) ==> (r matches Ok(b) && b@ == s),
            !(self@ is Bytes) ==> (r matches Err(e) && e == RayforceError::WrongVariant),
    {
        match &self.payload {
            Payload::Bytes(b) => Ok(b),
            _ => Err(RayforceError::WrongVariant),
        }
    }

    /// Overwrite the boolean payload; `WrongVariant` (and no change) for
    /// any other discriminant.
    pub fn set_bool(&mut self, v: bool) -> (r: Result<(), RayforceError>)
        ensures
            old(self)@ is Bool ==> (final(self)@ == RayVal::Bool(v) && r is Ok),
            !(old(self)@ is Bool) ==> (final(self)@ == old(self)@ && r == Err::<(),
                RayforceError,
            >(RayforceError::WrongVariant)),
    {
        match &mut self.payload {
            Payload::Bool(p) => {
                *p = v;
                Ok(())
            },
            _ => Err(RayforceError::WrongVariant),
        }
    }

    /// Overwrite the byte payload; `WrongVariant` for any other
    /// discriminant.
    pub fn set_byte(&mut self, v: u8) -> (r: Result<(), RayforceError>)
        ensures
            old(self)@ is Byte ==> (final(self)@ == RayVal::Byte(v) && r is Ok),
            !(old(self)@ is Byte) ==> (final(self)@ == old(self)@ && r == Err::<(),
                RayforceError,
            >(RayforceError::WrongVariant)),
    {
        match &mut self.payload {
            Payload::Byte(p) => {
                *p = v;
                Ok(())
            },
            _ => Err(RayforceError::WrongVariant),
        }
    }

    /// Overwrite the 16-bit payload; `WrongVariant` for any other
    /// discriminant.
    pub fn set_i16(&mut self, v: i16) -> (r: Result<(), RayforceError>)
        ensures
            old(self)@ is I16 ==> (final(self)@ == RayVal::I16(v) && r is Ok),
            !(old(self)@ is I16) ==> (final(self)@ == old(self)@ && r == Err::<(),
                RayforceError,
            >(RayforceError::WrongVariant)),
    {
        match &mut self.payload {
            Payload::I16(p) => {
                *p = v;
                Ok(())
            },
            _ => Err(RayforceError::WrongVariant),
        }
    }

    /// Overwrite the 32-bit payload; `WrongVariant` for any other
    /// discriminant.
    pub fn set_i32(&mut self, v: i32) -> (r: Result<(), RayforceError>)
        ensures
            old(self)@ is I32 ==> (final(self)@ == RayVal::I32(v) && r is Ok),
            !(old(self)@ is I32) ==> (final(self)@ == old(self)@ && r == Err::<(),
                RayforceError,
            >(RayforceError::WrongVariant)),
    {
        match &mut self.payload {
            Payload::I32(p) => {
                *p = v;
                Ok(())
            },
            _ => Err(RayforceError::WrongVariant),
        }
    }

    /// Overwrite the 64-bit payload; `WrongVariant` for any other
    /// discriminant.
    pub fn set_i64(&mut self, v: i64) -> (r: Result<(), RayforceError>)
        ensures
            old(self)@ is I64 ==> (final(self)@ == RayVal::I64(v) && r is Ok),
            !(old(self)@ is I64) ==> (final(self)@ == old(self)@ && r == Err::<(),
                RayforceError,
            >(RayforceError::WrongVariant)),
    {
        match &mut self.payload {
            Payload::I64(p) => {
                *p = v;
                Ok(())
            },
            _ => Err(RayforceError::WrongVariant),
        }
    }

    /// The fixed length of a vector value; `WrongVariant` for a scalar or
    /// nil value.
    pub fn vec_len(&self) -> (r: Result<usize, RayforceError>)
        ensures
            self@ matches RayVal::Bytes(s) ==> (r matches Ok(n) && n == s.len()),
            self@ matches RayVal::VecI16(s) ==> (r matches Ok(n) && n == s.len()),
            self@ matches RayVal::VecI32(s) ==> (r matches Ok(n) && n == s.len()),
            self@ matches RayVal::VecI64(s) ==> (r matches Ok(n) && n == s.len()),
            tag_of(self@) !is Bytes && tag_of(self@) !is VecI16 && tag_of(self@) !is VecI32
                && tag_of(self@) !is VecI64 ==> (r matches Err(e) && e
                == RayforceError::WrongVariant),
    {
        match &self.payload {
            Payload::Bytes(v) => Ok(v.len()),
            Payload::VecI16(v) => Ok(v.len()),
            Payload::VecI32(v) => Ok(v.len()),
            Payload::VecI64(v) => Ok(v.len()),
            _ => Err(RayforceError::WrongVariant),
        }
    }

    /// Element `i` of a byte-vector value; `WrongVariant` for any other
    /// discriminant, `OutOfBounds` past the fixed length.
    pub fn get_byte_at(&self, i: usize) -> (r: Result<u8, RayforceError>)
        ensures
            self@ matches RayVal::Bytes(s) ==> (i < s.len() ==> r == Ok::<u8, RayforceError>(
                s[i as int],
            )),
            self@ matches RayVal::Bytes(s) ==> (i >= s.len() ==> r == Err::<u8,
                RayforceError,
            >(RayforceError::OutOfBounds)),
            !(self@ is Bytes) ==> r == Err::<u8, RayforceError>(RayforceError::WrongVariant),
    {
        match &self.payload {
            Payload::Bytes(v) => {
                if i < v.len() {
                    Ok(v[i])
                } else {
                    Err(RayforceError::OutOfBounds)
                }
            },
            _ => Err(RayforceError::WrongVariant),
        }
    }

    /// Element `i` of a 16-bit vector value.
    pub fn get_i16_at(&self, i: usize) -> (r: Result<i16, RayforceError>)
        ensures
            self@ matches RayVal::VecI16(s) ==> (i < s.len() ==> r == Ok::<i16, RayforceError>(
                s[i as int],
            )),
            self@ matches RayVal::VecI16(s) ==> (i >= s.len() ==> r == Err::<i16,
                RayforceError,
            >(RayforceError::OutOfBounds)),
            !(self@ is VecI16) ==> r == Err::<i16, RayforceError>(RayforceError::WrongVariant),
    {
        match &self.payload {
            Payload::VecI16(v) => {
                if i < v.len() {
                    Ok(v[i])
                } else {
                    Err(RayforceError::OutOfBounds)
                }
            },
            _ => Err(RayforceError::WrongVariant),
        }
    }

    /// Element `i` of a 32-bit vector value.
    pub fn get_i32_at(&self, i: usize) -> (r: Result<i32, RayforceError>)
        ensures
            self@ matches RayVal::VecI32(s) ==> (i < s.len() ==> r == Ok::<i32, RayforceError>(
                s[i as int],
            )),
            self@ matches RayVal::VecI32(s) ==> (i >= s.len() ==> r == Err::<i32,
                RayforceError,
            >(RayforceError::OutOfBounds)),
            !(self@ is VecI32) ==> r == Err::<i32, RayforceError>(RayforceError::WrongVariant),
    {
        match &self.payload {
            Payload::VecI32(v) => {
                if i < v.len() {
                    Ok(v[i])
                } else {
                    Err(RayforceError::OutOfBounds)
                }
            },
            _ => Err(RayforceError::WrongVariant),
        }
    }

    /// Element `i` of a 64-bit vector value.
    pub fn get_i64_at(&self, i: usize) -> (r: Result<i64, RayforceError>)
        ensures
            self@ matches RayVal::VecI64(s) ==> (i < s.len() ==> r == Ok::<i64, RayforceError>(
                s[i as int],
            )),
            self@ matches RayVal::VecI64(s) ==> (i >= s.len() ==> r == Err::<i64,
                RayforceError,
            >(RayforceError::OutOfBounds)),
            !(self@ is VecI64) ==> r == Err::<i64, RayforceError>(RayforceError::WrongVariant),
    {
        match &self.payload {
            Payload::VecI64(v) => {
                if i < v.len() {
                    Ok(v[i])
                } else {
                    Err(RayforceError::OutOfBounds)
                }
            },
            _ => Err(RayforceError::WrongVariant),
        }
    }

    /// Overwrite element `i` of a byte-vector value.
    pub fn set_byte_at(&mut self, i: usize, v: u8) -> (r: Result<(), RayforceError>)
        ensures
            old(self)@ matches RayVal::Bytes(s) ==> (i < s.len() ==> (final(self)@
                == RayVal::Bytes(s.update(i as int, v)) && r is Ok)),
            old(self)@ matches RayVal::Bytes(s) ==> (i >= s.len() ==> (final(self)@ == old(self)@
                && r == Err::<(), RayforceError>(RayforceError::OutOfBounds))),
            !(old(self)@ is Bytes) ==> (final(self)@ == old(self)@ && r == Err::<(),
                RayforceError,
            >(RayforceError::WrongVariant)),
    {
        match &mut self.payload {
            Payload::Bytes(vec) => {
                if i < vec.len() {
                    vec.set(i, v);
                    Ok(())
                } else {
                    Err(RayforceError::OutOfBounds)
                }
            },
            _ => Err(RayforceError::WrongVariant),
        }
    }

    /// Overwrite element `i` of a 16-bit vector value.
    pub fn set_i16_at(&mut self, i: usize, v: i16) -> (r: Result<(), RayforceError>)
        ensures
            old(self)@ matches RayVal::VecI16(s) ==> (i < s.len() ==> (final(self)@
                == RayVal::VecI16(s.update(i as int, v)) && r is Ok)),
            old(self)@ matches RayVal::VecI16(s) ==> (i >= s.len() ==> (final(self)@ == old(self)@
                && r == Err::<(), RayforceError>(RayforceError::OutOfBounds))),
            !(old(self)@ is VecI16) ==> (final(self)@ == old(self)@ && r == Err::<(),
                RayforceError,
            >(RayforceError::WrongVariant)),
    {
        match &mut self.payload {
            Payload::VecI16(vec) => {
                if i < vec.len() {
                    vec.set(i, v);
                    Ok(())
                } else {
                    Err(RayforceError::OutOfBounds)
                }
            },
            _ => Err(RayforceError::WrongVariant),
        }
    }

    /// Overwrite element `i` of a 32-bit vector value.
    pub fn set_i32_at(&mut self, i: usize, v: i32) -> (r: Result<(), RayforceError>)
        ensures
            old(self)@ matches RayVal::VecI32(s) ==> (i < s.len() ==> (final(self)@
                == RayVal::VecI32(s.update(i as int, v)) && r is Ok)),
            old(self)@ matches RayVal::VecI32(s) ==> (i >= s.len() ==> (final(self)@ == old(self)@
                && r == Err::<(), RayforceError>(RayforceError::OutOfBounds))),
            !(old(self)@ is VecI32) ==> (final(self)@ == old(self)@ && r == Err::<(),
                RayforceError,
            >(RayforceError::WrongVariant)),
    {
        match &mut self.payload {
            Payload::VecI32(vec) => {
                if i < vec.len() {
                    vec.set(i, v);
                    Ok(())
                } else {
                    Err(RayforceError::OutOfBounds)
                }
            },
            _ => Err(RayforceError::WrongVariant),
        }
    }

    /// Overwrite element `i` of a 64-bit vector value.
    pub fn set_i64_at(&mut self, i: usize, v: i64) -> (r: Result<(), RayforceError>)
        ensures
            old(self)@ matches RayVal::VecI64(s) ==> (i < s.len() ==> (final(self)@
                == RayVal::VecI64(s.update(i as int, v)) && r is Ok)),
            old(self)@ matches RayVal::VecI64(s) ==> (i >= s.len() ==> (final(self)@ == old(self)@
                && r == Err::<(), RayforceError>(RayforceError::OutOfBounds))),
            !(old(self)@ is VecI64) ==> (final(self)@ == old(self)@ && r == Err::<(),
                RayforceError,
            >(RayforceError::WrongVariant)),
    {
        match &mut self.payload {
            Payload::VecI64(vec) => {
                if i < vec.len() {
                    vec.set(i, v);
                    Ok(())
                } else {
                    Err(RayforceError::OutOfBounds)
                }
            },
            _ => Err(RayforceError::WrongVariant),
        }
    }
}

impl Clone for RayObj {
    /// A clone denotes exactly the same mathematical value as its
    /// original; dropping the clone releases only the clone's own handle
    /// and leaves the original untouched.
    fn clone(&self) -> (r: Self)
        ensures
            r@ == self@,
    {
        RayObj {
            payload: match &self.payload {
                Payload::Null => Payload::Null,
                Payload::Bool(b) => Payload::Bool(*b),
                Payload::Byte(n) => Payload::Byte(*n),
                Payload::I16(n) => Payload::I16(*n),
                Payload::I32(n) => Payload::I32(*n),
                Payload::I64(n) => Payload::I64(*n),
                Payload::Bytes(v) => Payload::Bytes(copy_u8s_slice(v.as_slice())),
                Payload::VecI16(v) => Payload::VecI16(copy_i16s_slice(v.as_slice())),
                Payload::VecI32(v) => Payload::VecI32(copy_i32s_slice(v.as_slice())),
                Payload::VecI64(v) => Payload::VecI64(copy_i64s_slice(v.as_slice())),
            },
        }
    }
}

impl From<bool> for RayObj {
    fn from(v: bool) -> (r: Self) {
        RayObj { payload: Payload::Bool(v) }
    }
}

impl vstd::std_specs::convert::FromSpecImpl<bool> for RayObj {
    open spec fn obeys_from_spec() -> bool {
        true
    }

    open spec fn from_spec(v: bool) -> Self {
        RayObj { payload: Payload::Bool(v) }
    }
}

impl From<u8> for RayObj {
    fn from(v: u8) -> (r: Self) {
        RayObj { payload: Payload::Byte(v) }
    }
}

impl vstd::std_specs::convert::FromSpecImpl<u8> for RayObj {
    open spec fn obeys_from_spec() -> bool {
        true
    }

    open spec fn from_spec(v: u8) -> Self {
        RayObj { payload: Payload::Byte(v) }
    }
}

impl From<i16> for RayObj {
    fn from(v: i16) -> (r: Self) {
        RayObj { payload: Payload::I16(v) }
    }
}

impl vstd::std_specs::convert::FromSpecImpl<i16> for RayObj {
    open spec fn obeys_from_spec() -> bool {
        true
    }

    open spec fn from_spec(v: i16) -> Self {
        RayObj { payload: Payload::I16(v) }
    }
}

impl From<i32> for RayObj {
    fn from(v: i32) -> (r: Self) {
        RayObj { payload: Payload::I32(v) }
    }
}

impl vstd::std_specs::convert::FromSpecImpl<i32> for RayObj {
    open spec fn obeys_from_spec() -> bool {
        true
    }

    open spec fn from_spec(v: i32) -> Self {
        RayObj { payload: Payload::I32(v) }
    }
}

impl From<i64> for RayObj {
    fn from(v: i64) -> (r: Self) {
        RayObj { payload: Payload::I64(v) }
    }
}

impl vstd::std_specs::convert::FromSpecImpl<i64> for RayObj {
    open spec fn obeys_from_spec() -> bool {
        true
    }

    open spec fn from_spec(v: i64) -> Self {
        RayObj { payload: Payload::I64(v) }
    }
}

/// Indexing a vector of byte vectors through `deep_view` lands on the
/// element's own view.
pub(crate) proof fn lemma_deep_index(v: Vec<Vec<u8>>, i: int)
    requires
        0 <= i < v.len(),
    ensures
        v.deep_view()[i] == v@[i]@,
        v.deep_view().len() == v@.len(),
{
    assert(v.deep_view()[i] =~= v@[i]@);
}

fn copy_u8s_slice(v: &[u8]) -> (r: Vec<u8>)
    ensures
        r@ == v@,
{
    let mut out: Vec<u8> = Vec::new();
    let mut i: usize = 0;
    while i < v.len()
        invariant
            i <= v.len(),
            out@ == v@.take(i as int),
        decreases v.len() - i,
    {
        out.push(v[i]);
        i = i + 1;
        proof {
            assert(out@ =~= v@.take(i as int));
        }
    }
    proof {
        assert(out@ =~= v@);
    }
    out
}

fn copy_i16s_slice(v: &[i16]) -> (r: Vec<i16>)
    ensures
        r@ == v@,
{
    let mut out: Vec<i16> = Vec::new();
    let mut i: usize = 0;
    while i < v.len()
        invariant
            i <= v.len(),
            out@ == v@.take(i as int),
        decreases v.len() - i,
    {
        out.push(v[i]);
        i = i + 1;
        proof {
            assert(out@ =~= v@.take(i as int));
        }
    }
    proof {
        assert(out@ =~= v@);
    }
    out
}

fn copy_i32s_slice(v: &[i32]) -> (r: Vec<i32>)
    ensures
        r@ == v@,
{
    let mut out: Vec<i32> = Vec::new();
    let mut i: usize = 0;
    while i < v.len()
        invariant
            i <= v.len(),
            out@ == v@.take(i as int),
        decreases v.len() - i,
    {
        out.push(v[i]);
        i = i + 1;
        proof {
            assert(out@ =~= v@.take(i as int));
        }
    }
    proof {
        assert(out@ =~= v@);
    }
    out
}

fn copy_i64s_slice(v: &[i64]) -> (r: Vec<i64>)
    ensures
        r@ == v@,
{
    let mut out: Vec<i64> = Vec::new();
    let mut i: usize = 0;
    while i < v.len()
        invariant
            i <= v.len(),
            out@ == v@.take(i as int),
        decreases v.len() - i,
    {
        out.push(v[i]);
        i = i + 1;
        proof {
            assert(out@ =~= v@.take(i as int));
        }
    }
    proof {
        assert(out@ =~= v@);
    }
    out
}

fn make_zero_u8s(len: usize) -> (r: Vec<u8>)
    ensures
        r@ == zero_bytes(len as nat),
{
    let mut out: Vec<u8> = Vec::new();
    let mut i: usize = 0;
    while i < len
        invariant
            i <= len,
            out@ == zero_bytes(i as nat),
        decreases len - i,
    {
        out.push(0u8);
        i = i + 1;
        proof {
            assert(out@ =~= zero_bytes(i as nat));
        }
    }
    out
}

fn make_zero_i16s(len: usize) -> (r: Vec<i16>)
    ensures
        r@ == zero_i16s(len as nat),
{
    let mut out: Vec<i16> = Vec::new();
    let mut i: usize = 0;
    while i < len
        invariant
            i <= len,
            out@ == zero_i16s(i as nat),
        decreases len - i,
    {
        out.push(0i16);
        i = i + 1;
        proof {
            assert(out@ =~= zero_i16s(i as nat));
        }
    }
    out
}

fn make_zero_i32s(len: usize) -> (r: Vec<i32>)
    ensures
        r@ == zero_i32s(len as nat),
{
    let mut out: Vec<i32> = Vec::new();
    let mut i: usize = 0;
    while i < len
        invariant
            i <= len,
            out@ == zero_i32s(i as nat),
        decreases len - i,
    {
        out.push(0i32);
        i = i + 1;
        proof {
            assert(out@ =~= zero_i32s(i as nat));
        }
    }
    out
}

fn make_zero_i64s(len: usize) -> (r: Vec<i64>)
    ensures
        r@ == zero_i64s(len as nat),
{
    let mut out: Vec<i64> = Vec::new();
    let mut i: usize = 0;
    while i < len
        invariant
            i <= len,
            out@ == zero_i64s(i as nat),
        decreases len - i,
    {
        out.push(0i64);
        i = i + 1;
        proof {
            assert(out@ =~= zero_i64s(i as nat));
        }
    }
    out
}

} // verus!
