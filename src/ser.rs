//! The encoder: appends the wire form of each value to a byte buffer.
use vstd::prelude::*;
use vstd::string::StringSliceAdditionalSpecFns;
use vstd::utf8::encode_utf8;

use crate::encoding::{
    BLOB_LEN_LIMIT, BOOL_FALSE_ID, BOOL_TRUE_ID, LONG_LEN_MARKER, SHORT_LEN_MAX, blob_header,
    blob_padding, enc_blob, enc_bool, enc_i32, enc_i64, enc_str, enc_u32, enc_u64, zeros,
};
use crate::error::{Error, SerdeType};
use crate::wire::write_le;

verus! {

/// Writes values in the MTProto binary form to an owned byte buffer.
pub struct Serializer {
    writer: Vec<u8>,
}

impl View for Serializer {
    type V = Seq<u8>;

    /// Everything written so far.
    closed spec fn view(&self) -> Seq<u8> {
        self.writer@
    }
}

impl Serializer {
    /// Starts writing after the bytes already in `writer`.
    pub fn new(writer: Vec<u8>) -> (r: Serializer)
        ensures
            r@ == writer@,
    {
        Serializer { writer: writer }
    }

    /// Gives back the buffer with everything written to it.
    pub fn into_writer(self) -> (r: Vec<u8>)
        ensures
            r@ == self@,
    {
        self.writer
    }

    /// Header, payload and zero padding of a string or blob.
    fn write_blob(&mut self, value: &[u8])
        requires
            value@.len() < BLOB_LEN_LIMIT,
        ensures
            final(self)@ == old(self)@ + enc_blob(value@),
    {
        let ghost start = self.writer@;
        let len = value.len();
        let rem: usize;
        if len <= SHORT_LEN_MAX {
            self.writer.push(len as u8);
            rem = (len + 1) % 4;
        } else {
            self.writer.push(LONG_LEN_MARKER);
            write_le(&mut self.writer, len as u64, 3);
            rem = len % 4;
        }
        let ghost with_header = self.writer@;
        assert(with_header == start + blob_header(len as nat));
        self.writer.extend_from_slice(value);
        let pad: usize = if rem > 0 {
            4 - rem
        } else {
            0
        };
        assert(pad == blob_padding(len as nat));
        let ghost with_payload = self.writer@;
        let mut i: usize = 0;
        while i < pad
            invariant
                i <= pad,
                self.writer@ == with_payload + zeros(i as nat),
            decreases pad - i,
        {
            self.writer.push(0);
            i = i + 1;
            assert(self.writer@ =~= with_payload + zeros(i as nat));
        }
        assert(self.writer@ =~= start + enc_blob(value@));
    }

    /// A boolean, as the word that stands for it.
    pub fn serialize_bool(&mut self, value: bool) -> (r: Result<(), Error>)
        ensures
            r == Ok::<(), Error>(()),
            final(self)@ == old(self)@ + enc_bool(value),
    {
        let id = if value {
            BOOL_TRUE_ID
        } else {
            BOOL_FALSE_ID
        };
        self.serialize_u32(id)
    }

    /// An 8-bit integer, widened to 32 bits.
    pub fn serialize_i8(&mut self, value: i8) -> (r: Result<(), Error>)
        ensures
            r == Ok::<(), Error>(()),
            final(self)@ == old(self)@ + enc_i32(value as i32),
    {
        self.serialize_i32(value as i32)
    }

    /// A 16-bit integer, widened to 32 bits.
    pub fn serialize_i16(&mut self, value: i16) -> (r: Result<(), Error>)
        ensures
            r == Ok::<(), Error>(()),
            final(self)@ == old(self)@ + enc_i32(value as i32),
    {
        self.serialize_i32(value as i32)
    }

    pub fn serialize_i32(&mut self, value: i32) -> (r: Result<(), Error>)
        ensures
            r == Ok::<(), Error>(()),
            final(self)@ == old(self)@ + enc_i32(value),
    {
        write_le(&mut self.writer, (value as u32) as u64, 4);
        Ok(())
    }

    pub fn serialize_i64(&mut self, value: i64) -> (r: Result<(), Error>)
        ensures
            r == Ok::<(), Error>(()),
            final(self)@ == old(self)@ + enc_i64(value),
    {
        write_le(&mut self.writer, value as u64, 8);
        Ok(())
    }

    /// An 8-bit unsigned integer, widened to 32 bits.
    pub fn serialize_u8(&mut self, value: u8) -> (r: Result<(), Error>)
        ensures
            r == Ok::<(), Error>(()),
            final(self)@ == old(self)@ + enc_u32(value as u32),
    {
        self.serialize_u32(value as u32)
    }

    /// A 16-bit unsigned integer, widened to 32 bits.
    pub fn serialize_u16(&mut self, value: u16) -> (r: Result<(), Error>)
        ensures
            r == Ok::<(), Error>(()),
            final(self)@ == old(self)@ + enc_u32(value as u32),
    {
        self.serialize_u32(value as u32)
    }

    pub fn serialize_u32(&mut self, value: u32) -> (r: Result<(), Error>)
        ensures
            r == Ok::<(), Error>(()),
            final(self)@ == old(self)@ + enc_u32(value),
    {
        write_le(&mut self.writer, value as u64, 4);
        Ok(())
    }

    pub fn serialize_u64(&mut self, value: u64) -> (r: Result<(), Error>)
        ensures
            r == Ok::<(), Error>(()),
            final(self)@ == old(self)@ + enc_u64(value),
    {
        write_le(&mut self.writer, value, 8);
        Ok(())
    }

    /// Characters have no representation of their own.
    pub fn serialize_char(&mut self, _value: char) -> (r: Result<(), Error>)
        ensures
            r == Err::<(), Error>(Error::UnsupportedSerdeType(SerdeType::Char)),
            final(self)@ == old(self)@,
    {
        Err(Error::UnsupportedSerdeType(SerdeType::Char))
    }

    /// A string: its UTF-8 bytes, framed as a blob.
    pub fn serialize_str(&mut self, value: &str) -> (r: Result<(), Error>)
        requires
            encode_utf8(value@).len() < BLOB_LEN_LIMIT,
        ensures
            r == Ok::<(), Error>(()),
            final(self)@ == old(self)@ + enc_str(value@),
    {
        let bytes = value.as_bytes();
        assert(bytes@ == value.spec_bytes());
        self.write_blob(bytes);
        Ok(())
    }

    /// A byte blob: length header, the bytes, zero padding.
    pub fn serialize_bytes(&mut self, value: &[u8]) -> (r: Result<(), Error>)
        requires
            value@.len() < BLOB_LEN_LIMIT,
        ensures
            r == Ok::<(), Error>(()),
            final(self)@ == old(self)@ + enc_blob(value@),
    {
        self.write_blob(value);
        Ok(())
    }

    /// An absent optional value has no representation.
    pub fn serialize_none(&mut self) -> (r: Result<(), Error>)
        ensures
            r == Err::<(), Error>(Error::UnsupportedSerdeType(SerdeType::Optional)),
            final(self)@ == old(self)@,
    {
        Err(Error::UnsupportedSerdeType(SerdeType::Optional))
    }

    /// A present optional value has no representation either.
    pub fn serialize_some(&mut self) -> (r: Result<(), Error>)
        ensures
            r == Err::<(), Error>(Error::UnsupportedSerdeType(SerdeType::Optional)),
            final(self)@ == old(self)@,
    {
        Err(Error::UnsupportedSerdeType(SerdeType::Optional))
    }

    /// The unit value has no representation.
    pub fn serialize_unit(&mut self) -> (r: Result<(), Error>)
        ensures
            r == Err::<(), Error>(Error::UnsupportedSerdeType(SerdeType::Unit)),
            final(self)@ == old(self)@,
    {
        Err(Error::UnsupportedSerdeType(SerdeType::Unit))
    }

    /// A record without fields, or a variant without payload: no bytes.
    pub fn serialize_unit_struct(&mut self) -> (r: Result<(), Error>)
        ensures
            r == Ok::<(), Error>(()),
            final(self)@ == old(self)@,
    {
        Ok(())
    }

    /// A sequence: its element count as a 32-bit word, then the elements,
    /// which the caller writes through the returned accessor.
    pub fn serialize_seq(&mut self, len: Option<usize>) -> (r: Result<SerializeFixedLengthSeq, Error>)
        ensures
            match len {
                None => r == Err::<SerializeFixedLengthSeq, Error>(
                    Error::SeqWithUnknownLengthUnsupported,
                ) && final(self)@ == old(self)@,
                Some(n) => if n <= u32::MAX {
                    &&& r is Ok
                    &&& r->Ok_0.arity() == n
                    &&& r->Ok_0.submitted() == 0
                    &&& final(self)@ == old(self)@ + enc_u32(n as u32)
                } else {
                    r == Err::<SerializeFixedLengthSeq, Error>(Error::IntegerOverflowingCast)
                        && final(self)@ == old(self)@
                },
            },
    {
        match len {
            Some(n) => SerializeFixedLengthSeq::with_serialize_len(self, n),
            None => Err(Error::SeqWithUnknownLengthUnsupported),
        }
    }

    /// A tuple of `len` elements: no count is written.
    pub fn serialize_tuple(&mut self, len: usize) -> (r: Result<SerializeFixedLengthSeq, Error>)
        ensures
            r is Ok,
            r->Ok_0.arity() == len,
            r->Ok_0.submitted() == 0,
            final(self)@ == old(self)@,
    {
        Ok(SerializeFixedLengthSeq::new(len))
    }

    /// A record of `len` fields: no count is written.
    pub fn serialize_struct(&mut self, len: usize) -> (r: Result<SerializeFixedLengthSeq, Error>)
        ensures
            r is Ok,
            r->Ok_0.arity() == len,
            r->Ok_0.submitted() == 0,
            final(self)@ == old(self)@,
    {
        Ok(SerializeFixedLengthSeq::new(len))
    }

    /// Maps have no representation when written.
    pub fn serialize_map(&mut self, _len: Option<usize>) -> (r: Result<(), Error>)
        ensures
            r == Err::<(), Error>(Error::UnsupportedSerdeType(SerdeType::KeyMap)),
            final(self)@ == old(self)@,
    {
        Err(Error::UnsupportedSerdeType(SerdeType::KeyMap))
    }
}

/// Counts the elements given to a container whose arity was fixed when it
/// was opened, and refuses those beyond it.
pub struct SerializeFixedLengthSeq {
    len: usize,
    next_index: usize,
}

impl SerializeFixedLengthSeq {
    /// The number of elements the container was declared with.
    pub closed spec fn arity(&self) -> nat {
        self.len as nat
    }

    /// The number of elements accepted so far.
    pub closed spec fn submitted(&self) -> nat {
        self.next_index as nat
    }

    pub fn new(len: usize) -> (r: SerializeFixedLengthSeq)
        ensures
            r.arity() == len,
            r.submitted() == 0,
    {
        SerializeFixedLengthSeq { len: len, next_index: 0 }
    }

    /// Writes `len` as the 32-bit element count of a sequence and opens it.
    pub fn with_serialize_len(ser: &mut Serializer, len: usize) -> (r: Result<SerializeFixedLengthSeq, Error>)
        ensures
            len <= u32::MAX ==> {
                &&& r is Ok
                &&& r->Ok_0.arity() == len
                &&& r->Ok_0.submitted() == 0
                &&& final(ser)@ == old(ser)@ + enc_u32(len as u32)
            },
            len > u32::MAX ==> r == Err::<SerializeFixedLengthSeq, Error>(Error::IntegerOverflowingCast)
                && final(ser)@ == old(ser)@,
    {
        if len > u32::MAX as usize {
            return Err(Error::IntegerOverflowingCast);
        }
        let _ = ser.serialize_u32(len as u32);
        Ok(SerializeFixedLengthSeq::new(len))
    }

    /// Accounts for one more element, which the caller then writes; fails
    /// once all declared elements have been given.
    pub fn next_element(&mut self) -> (r: Result<(), Error>)
        ensures
            old(self).submitted() < old(self).arity() ==> r == Ok::<(), Error>(())
                && final(self).submitted() == old(self).submitted() + 1
                && final(self).arity() == old(self).arity(),
            old(self).submitted() >= old(self).arity() ==> r == Err::<(), Error>(
                Error::ExcessElements(old(self).arity() as usize),
            ) && *final(self) == *old(self),
    {
        if self.next_index < self.len {
            self.next_index = self.next_index + 1;
            Ok(())
        } else {
            Err(Error::ExcessElements(self.len))
        }
    }
}

} // verus!
