//! The decoder: reads values in the MTProto binary form from a byte slice.
use vstd::prelude::*;
use vstd::slice::{slice_subrange, slice_to_vec};
use vstd::utf8::{decode_utf8, valid_utf8};

use crate::encoding::{
    BOOL_FALSE_ID, BOOL_TRUE_ID, LONG_LEN_MARKER, SHORT_LEN_MAX, follows, follows_view, parse_blob,
    parse_blob_header, parse_bool, parse_i16, parse_i32, parse_i64, parse_i8, parse_str, parse_u16,
    parse_u32, parse_u64, parse_u8,
};
use crate::error::{Error, SerdeType};
use crate::wire::{lemma_le_value_bound, lemma_pow256_values, read_le};

verus! {

/// Relies on `String::from_utf8`: it succeeds exactly on valid UTF-8, and
/// the string it returns holds the characters that the bytes encode.
#[verifier::external_body]
fn string_from_utf8(bytes: Vec<u8>) -> (r: Option<String>)
    ensures
        r is Some <==> valid_utf8(bytes@),
        r is Some ==> r->Some_0@ == decode_utf8(bytes@),
{
    String::from_utf8(bytes).ok()
}

/// Reads values in the MTProto binary form from the front of a byte slice.
///
/// The wire form of a union carries no tag: the variant to decode is named
/// up front by the hint.
pub struct Deserializer<'a> {
    reader: &'a [u8],
    enum_variant_id: Option<&'static str>,
}

impl<'a> View for Deserializer<'a> {
    type V = Seq<u8>;

    /// The bytes not read yet.
    closed spec fn view(&self) -> Seq<u8> {
        self.reader@
    }
}

impl<'a> Deserializer<'a> {
    /// The name of the union variant that this decoder reads.
    pub closed spec fn hint(&self) -> Option<&'static str> {
        self.enum_variant_id
    }

    /// Reads from `reader`; `enum_variant_id` names the variant of a union
    /// to decode, if any.
    pub fn new(reader: &'a [u8], enum_variant_id: Option<&'static str>) -> (r: Deserializer<'a>)
        ensures
            r@ == reader@,
            r.hint() == enum_variant_id,
    {
        Deserializer { reader: reader, enum_variant_id: enum_variant_id }
    }

    /// The name of the union variant that this decoder reads.
    pub fn enum_variant_id(&self) -> (r: Option<&'static str>)
        ensures
            r == self.hint(),
    {
        self.enum_variant_id
    }

    /// The bytes not read yet.
    pub fn into_reader(self) -> (r: &'a [u8])
        ensures
            r@ == self@,
    {
        self.reader
    }

    /// A copy of the bytes not read yet.
    pub fn remaining_bytes(self) -> (r: Result<Vec<u8>, Error>)
        ensures
            r is Ok,
            r->Ok_0@ == self@,
    {
        Ok(slice_to_vec(self.reader))
    }

    /// The number of bytes not read yet.
    pub fn remaining_length(&self) -> (r: usize)
        ensures
            r == self@.len(),
    {
        self.reader.len()
    }

    /// Splits off the next `n` bytes.
    fn take(&mut self, n: usize) -> (r: Result<&'a [u8], Error>)
        ensures
            final(self).hint() == old(self).hint(),
            old(self)@.len() < n ==> r == Err::<&'a [u8], Error>(Error::UnexpectedEof),
            old(self)@.len() >= n ==> r is Ok && r->Ok_0@ == old(self)@.take(n as int) && final(self)@
                == old(self)@.skip(n as int),
    {
        let len = self.reader.len();
        if len < n {
            return Err(Error::UnexpectedEof);
        }
        let head = slice_subrange(self.reader, 0, n);
        self.reader = slice_subrange(self.reader, n, len);
        Ok(head)
    }

    /// Reads the header of a string or blob: payload length and padding.
    fn get_str_info(&mut self) -> (r: Result<(usize, usize), Error>)
        ensures
            final(self).hint() == old(self).hint(),
            match parse_blob_header(old(self)@) {
                Ok((len, pad, rest)) => r == Ok::<(usize, usize), Error>((len as usize, pad as usize))
                    && final(self)@ == rest && len < 0x100_0000,
                Err(e) => r == Err::<(usize, usize), Error>(e),
            },
    {
        let ghost s = self@;
        let first = match self.take(1) {
            Ok(b) => b,
            Err(e) => return Err(e),
        };
        let first_byte = first[0];
        let len: usize;
        let rem: usize;
        if first_byte <= SHORT_LEN_MAX as u8 {
            len = first_byte as usize;
            rem = (len + 1) % 4;
        } else if first_byte == LONG_LEN_MARKER {
            let b = match self.take(3) {
                Ok(b) => b,
                Err(e) => return Err(e),
            };
            proof {
                assert(b@ =~= s.subrange(1, 4));
                assert(self@ =~= s.skip(4));
                assert(b@.subrange(0, 3) =~= b@);
                lemma_le_value_bound(b@);
                lemma_pow256_values();
            }
            len = read_le(b, 3) as usize;
            rem = len % 4;
        } else {
            return Err(Error::InvalidLengthMarker(first_byte));
        }
        Ok((len, (4 - rem) % 4))
    }

    /// Reads a blob and gives back its payload.
    fn read_byte_buf(&mut self) -> (r: Result<Vec<u8>, Error>)
        ensures
            final(self).hint() == old(self).hint(),
            follows_view(r, parse_blob(old(self)@), final(self)@),
    {
        let ghost s = self@;
        let (len, padding) = match self.get_str_info() {
            Ok(info) => info,
            Err(e) => return Err(e),
        };
        let ghost after_header = self@;
        let b = match self.take(len) {
            Ok(b) => b,
            Err(e) => return Err(e),
        };
        match self.take(padding) {
            Ok(_) => {},
            Err(e) => return Err(e),
        }
        assert(self@ =~= after_header.skip(len + padding));
        Ok(slice_to_vec(b))
    }

    /// Reads a blob whose payload must be UTF-8.
    fn read_string(&mut self) -> (r: Result<String, Error>)
        ensures
            final(self).hint() == old(self).hint(),
            follows_view(r, parse_str(old(self)@), final(self)@),
    {
        let b = match self.read_byte_buf() {
            Ok(b) => b,
            Err(e) => return Err(e),
        };
        match string_from_utf8(b) {
            Some(s) => Ok(s),
            None => Err(Error::InvalidUtf8),
        }
    }

    /// The format does not describe itself, so nothing can be read blind.
    pub fn deserialize_any(&mut self) -> (r: Result<(), Error>)
        ensures
            r == Err::<(), Error>(Error::UnsupportedSerdeType(SerdeType::Any)),
            *final(self) == *old(self),
    {
        Err(Error::UnsupportedSerdeType(SerdeType::Any))
    }

    /// A boolean: a word that must be one of the two boolean constants.
    pub fn deserialize_bool(&mut self) -> (r: Result<bool, Error>)
        ensures
            final(self).hint() == old(self).hint(),
            follows(r, parse_bool(old(self)@), final(self)@),
    {
        let id_value = match self.deserialize_u32() {
            Ok(v) => v,
            Err(e) => return Err(e),
        };
        if id_value == BOOL_FALSE_ID {
            Ok(false)
        } else if id_value == BOOL_TRUE_ID {
            Ok(true)
        } else {
            Err(Error::UnexpectedBool(id_value))
        }
    }

    /// An 8-bit integer, read as 32 bits and narrowed.
    pub fn deserialize_i8(&mut self) -> (r: Result<i8, Error>)
        ensures
            final(self).hint() == old(self).hint(),
            follows(r, parse_i8(old(self)@), final(self)@),
    {
        let v = match self.deserialize_i32() {
            Ok(v) => v,
            Err(e) => return Err(e),
        };
        if i8::MIN as i32 <= v && v <= i8::MAX as i32 {
            Ok(v as i8)
        } else {
            Err(Error::IntegerOverflowingCast)
        }
    }

    /// A 16-bit integer, read as 32 bits and narrowed.
    pub fn deserialize_i16(&mut self) -> (r: Result<i16, Error>)
        ensures
            final(self).hint() == old(self).hint(),
            follows(r, parse_i16(old(self)@), final(self)@),
    {
        let v = match self.deserialize_i32() {
            Ok(v) => v,
            Err(e) => return Err(e),
        };
        if i16::MIN as i32 <= v && v <= i16::MAX as i32 {
            Ok(v as i16)
        } else {
            Err(Error::IntegerOverflowingCast)
        }
    }

    pub fn deserialize_i32(&mut self) -> (r: Result<i32, Error>)
        ensures
            final(self).hint() == old(self).hint(),
            follows(r, parse_i32(old(self)@), final(self)@),
    {
        match self.deserialize_u32() {
            Ok(v) => Ok(v as i32),
            Err(e) => Err(e),
        }
    }

    pub fn deserialize_i64(&mut self) -> (r: Result<i64, Error>)
        ensures
            final(self).hint() == old(self).hint(),
            follows(r, parse_i64(old(self)@), final(self)@),
    {
        match self.deserialize_u64() {
            Ok(v) => Ok(v as i64),
            Err(e) => Err(e),
        }
    }

    /// An 8-bit unsigned integer, read as 32 bits and narrowed.
    pub fn deserialize_u8(&mut self) -> (r: Result<u8, Error>)
        ensures
            final(self).hint() == old(self).hint(),
            follows(r, parse_u8(old(self)@), final(self)@),
    {
        let v = match self.deserialize_u32() {
            Ok(v) => v,
            Err(e) => return Err(e),
        };
        if v <= u8::MAX as u32 {
            Ok(v as u8)
        } else {
            Err(Error::IntegerOverflowingCast)
        }
    }

    /// A 16-bit unsigned integer, read as 32 bits and narrowed.
    pub fn deserialize_u16(&mut self) -> (r: Result<u16, Error>)
        ensures
            final(self).hint() == old(self).hint(),
            follows(r, parse_u16(old(self)@), final(self)@),
    {
        let v = match self.deserialize_u32() {
            Ok(v) => v,
            Err(e) => return Err(e),
        };
        if v <= u16::MAX as u32 {
            Ok(v as u16)
        } else {
            Err(Error::IntegerOverflowingCast)
        }
    }

    pub fn deserialize_u32(&mut self) -> (r: Result<u32, Error>)
        ensures
            final(self).hint() == old(self).hint(),
            follows(r, parse_u32(old(self)@), final(self)@),
    {
        let b = match self.take(4) {
            Ok(b) => b,
            Err(e) => return Err(e),
        };
        proof {
            assert(b@.subrange(0, 4) =~= b@);
            lemma_le_value_bound(b@);
            lemma_pow256_values();
        }
        Ok(read_le(b, 4) as u32)
    }

    pub fn deserialize_u64(&mut self) -> (r: Result<u64, Error>)
        ensures
            final(self).hint() == old(self).hint(),
            follows(r, parse_u64(old(self)@), final(self)@),
    {
        let b = match self.take(8) {
            Ok(b) => b,
            Err(e) => return Err(e),
        };
        proof {
            assert(b@.subrange(0, 8) =~= b@);
            lemma_le_value_bound(b@);
            lemma_pow256_values();
        }
        Ok(read_le(b, 8))
    }

    /// Characters have no representation of their own.
    pub fn deserialize_char(&mut self) -> (r: Result<char, Error>)
        ensures
            r == Err::<char, Error>(Error::UnsupportedSerdeType(SerdeType::Char)),
            *final(self) == *old(self),
    {
        Err(Error::UnsupportedSerdeType(SerdeType::Char))
    }

    /// A string, read into an owned copy.
    pub fn deserialize_str(&mut self) -> (r: Result<String, Error>)
        ensures
            final(self).hint() == old(self).hint(),
            follows_view(r, parse_str(old(self)@), final(self)@),
    {
        self.read_string()
    }

    pub fn deserialize_string(&mut self) -> (r: Result<String, Error>)
        ensures
            final(self).hint() == old(self).hint(),
            follows_view(r, parse_str(old(self)@), final(self)@),
    {
        self.read_string()
    }

    pub fn deserialize_bytes(&mut self) -> (r: Result<Vec<u8>, Error>)
        ensures
            final(self).hint() == old(self).hint(),
            follows_view(r, parse_blob(old(self)@), final(self)@),
    {
        self.read_byte_buf()
    }

    pub fn deserialize_byte_buf(&mut self) -> (r: Result<Vec<u8>, Error>)
        ensures
            final(self).hint() == old(self).hint(),
            follows_view(r, parse_blob(old(self)@), final(self)@),
    {
        self.read_byte_buf()
    }

    /// Optional values have no representation.
    pub fn deserialize_option(&mut self) -> (r: Result<(), Error>)
        ensures
            r == Err::<(), Error>(Error::UnsupportedSerdeType(SerdeType::Optional)),
            *final(self) == *old(self),
    {
        Err(Error::UnsupportedSerdeType(SerdeType::Optional))
    }

    /// The unit value has no representation.
    pub fn deserialize_unit(&mut self) -> (r: Result<(), Error>)
        ensures
            r == Err::<(), Error>(Error::UnsupportedSerdeType(SerdeType::Unit)),
            *final(self) == *old(self),
    {
        Err(Error::UnsupportedSerdeType(SerdeType::Unit))
    }

    /// A record without fields takes no bytes.
    pub fn deserialize_unit_struct(&mut self) -> (r: Result<(), Error>)
        ensures
            r == Ok::<(), Error>(()),
            *final(self) == *old(self),
    {
        Ok(())
    }

    /// A sequence: a 32-bit element count, then the elements, which the
    /// caller reads as the returned accessor allows.
    pub fn deserialize_seq(&mut self) -> (r: Result<SeqAccess, Error>)
        ensures
            final(self).hint() == old(self).hint(),
            match parse_u32(old(self)@) {
                Ok((n, rest)) => r is Ok && r->Ok_0.declared() == n && r->Ok_0.consumed() == 0
                    && final(self)@ == rest,
                Err(e) => r == Err::<SeqAccess, Error>(e),
            },
    {
        match self.deserialize_u32() {
            Ok(len) => Ok(SeqAccess::new(len)),
            Err(e) => Err(e),
        }
    }

    /// A tuple of `len` elements: no count is read.
    pub fn deserialize_tuple(&mut self, len: usize) -> (r: Result<SeqAccess, Error>)
        ensures
            *final(self) == *old(self),
            len <= u32::MAX ==> r is Ok && r->Ok_0.declared() == len && r->Ok_0.consumed() == 0,
            len > u32::MAX ==> r == Err::<SeqAccess, Error>(Error::IntegerOverflowingCast),
    {
        if len > u32::MAX as usize {
            return Err(Error::IntegerOverflowingCast);
        }
        Ok(SeqAccess::new(len as u32))
    }

    /// A record with `n_fields` fields, or the payload of a union variant:
    /// no count is read.
    pub fn deserialize_struct(&mut self, n_fields: usize) -> (r: Result<SeqAccess, Error>)
        ensures
            *final(self) == *old(self),
            n_fields <= u32::MAX ==> r is Ok && r->Ok_0.declared() == n_fields && r->Ok_0.consumed()
                == 0,
            n_fields > u32::MAX ==> r == Err::<SeqAccess, Error>(Error::IntegerOverflowingCast),
    {
        self.deserialize_tuple(n_fields)
    }

    /// A map: a 32-bit pair count, then the pairs.
    pub fn deserialize_map(&mut self) -> (r: Result<MapAccess, Error>)
        ensures
            final(self).hint() == old(self).hint(),
            match parse_u32(old(self)@) {
                Ok((n, rest)) => r is Ok && r->Ok_0.declared() == n && r->Ok_0.consumed() == 0
                    && final(self)@ == rest,
                Err(e) => r == Err::<MapAccess, Error>(e),
            },
    {
        match self.deserialize_u32() {
            Ok(len) => Ok(MapAccess::new(len)),
            Err(e) => Err(e),
        }
    }

    /// The name of the union variant to decode: the hint given up front,
    /// never read from the input.
    pub fn deserialize_identifier(&mut self) -> (r: &'static str)
        requires
            old(self).hint() is Some,
        ensures
            Some(r) == old(self).hint(),
            *final(self) == *old(self),
    {
        match self.enum_variant_id {
            Some(id) => id,
            None => "",
        }
    }

    /// Values cannot be skipped without knowing their shape.
    pub fn deserialize_ignored_any(&mut self) -> (r: Result<(), Error>)
        ensures
            r == Err::<(), Error>(Error::UnsupportedSerdeType(SerdeType::IgnoredAny)),
            *final(self) == *old(self),
    {
        Err(Error::UnsupportedSerdeType(SerdeType::IgnoredAny))
    }
}

/// Position in a sequence whose element count is known.
pub struct SeqAccess {
    len: u32,
    next_index: u32,
}

impl SeqAccess {
    #[verifier::type_invariant]
    spec fn inv(&self) -> bool {
        self.next_index <= self.len
    }

    /// The number of elements in the sequence.
    pub closed spec fn declared(&self) -> nat {
        self.len as nat
    }

    /// The number of elements handed out so far.
    pub closed spec fn consumed(&self) -> nat {
        self.next_index as nat
    }

    pub fn new(len: u32) -> (r: SeqAccess)
        ensures
            r.declared() == len,
            r.consumed() == 0,
    {
        SeqAccess { len: len, next_index: 0 }
    }

    /// Whether another element is to be read; if so, it is counted.
    pub fn next_element(&mut self) -> (r: bool)
        ensures
            r == (old(self).consumed() < old(self).declared()),
            final(self).declared() == old(self).declared(),
            final(self).consumed() == if r {
                old(self).consumed() + 1
            } else {
                old(self).consumed()
            },
    {
        if self.next_index < self.len {
            self.next_index = self.next_index + 1;
            true
        } else {
            false
        }
    }

    /// The number of elements still to come.
    pub fn size_hint(&self) -> (r: Option<usize>)
        ensures
            r == Some((self.declared() - self.consumed()) as usize),
    {
        proof {
            use_type_invariant(self);
        }
        Some((self.len - self.next_index) as usize)
    }
}

/// Position in a map whose pair count is known.
pub struct MapAccess {
    len: u32,
    next_index: u32,
}

impl MapAccess {
    #[verifier::type_invariant]
    spec fn inv(&self) -> bool {
        self.next_index <= self.len
    }

    /// The number of pairs in the map.
    pub closed spec fn declared(&self) -> nat {
        self.len as nat
    }

    /// The number of keys handed out so far.
    pub closed spec fn consumed(&self) -> nat {
        self.next_index as nat
    }

    pub fn new(len: u32) -> (r: MapAccess)
        ensures
            r.declared() == len,
            r.consumed() == 0,
    {
        MapAccess { len: len, next_index: 0 }
    }

    /// Whether another pair is to be read; if so, it is counted.
    pub fn next_key(&mut self) -> (r: bool)
        ensures
            r == (old(self).consumed() < old(self).declared()),
            final(self).declared() == old(self).declared(),
            final(self).consumed() == if r {
                old(self).consumed() + 1
            } else {
                old(self).consumed()
            },
    {
        if self.next_index < self.len {
            self.next_index = self.next_index + 1;
            true
        } else {
            false
        }
    }

    /// The number of pairs still to come.
    pub fn size_hint(&self) -> (r: Option<usize>)
        ensures
            r == Some((self.declared() - self.consumed()) as usize),
    {
        proof {
            use_type_invariant(self);
        }
        Some((self.len - self.next_index) as usize)
    }
}

} // verus!
