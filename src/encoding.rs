//! What each value looks like on the wire, and how a byte sequence is
//! read back, as mathematical functions.
use vstd::prelude::*;
use vstd::utf8::{decode_utf8, encode_utf8, valid_utf8};

use crate::error::Error;
use crate::wire::{le_bytes, le_value};

verus! {

/// The word that stands for `true`.
pub const BOOL_TRUE_ID: u32 = 0x997275b5;

/// The word that stands for `false`.
pub const BOOL_FALSE_ID: u32 = 0x3779ac0b;

/// The largest length that fits in the one-byte header of a string or blob.
pub const SHORT_LEN_MAX: usize = 253;

/// The first byte of the four-byte header of a string or blob.
pub const LONG_LEN_MARKER: u8 = 254;

/// Strings and blobs must be shorter than this: their length has three bytes.
pub const BLOB_LEN_LIMIT: usize = 0x100_0000;

pub open spec fn enc_u32(v: u32) -> Seq<u8> {
    le_bytes(v as nat, 4)
}

pub open spec fn enc_u64(v: u64) -> Seq<u8> {
    le_bytes(v as nat, 8)
}

pub open spec fn enc_i32(v: i32) -> Seq<u8> {
    le_bytes((v as u32) as nat, 4)
}

pub open spec fn enc_i64(v: i64) -> Seq<u8> {
    le_bytes((v as u64) as nat, 8)
}

pub open spec fn bool_id(b: bool) -> u32 {
    if b {
        BOOL_TRUE_ID
    } else {
        BOOL_FALSE_ID
    }
}

pub open spec fn enc_bool(b: bool) -> Seq<u8> {
    enc_u32(bool_id(b))
}

/// The header in front of a payload of `len` bytes.
pub open spec fn blob_header(len: nat) -> Seq<u8> {
    if len <= SHORT_LEN_MAX {
        seq![len as u8]
    } else {
        seq![LONG_LEN_MARKER] + le_bytes(len, 3)
    }
}

/// How many zero bytes follow a payload of `len` bytes.
pub open spec fn blob_padding(len: nat) -> nat {
    if len <= SHORT_LEN_MAX {
        ((4 - (len + 1) % 4) % 4) as nat
    } else {
        ((4 - len % 4) % 4) as nat
    }
}

pub open spec fn zeros(n: nat) -> Seq<u8> {
    Seq::new(n, |i: int| 0u8)
}

/// A byte blob: header, payload, padding.
pub open spec fn enc_blob(b: Seq<u8>) -> Seq<u8> {
    blob_header(b.len()) + b + zeros(blob_padding(b.len()))
}

/// A string: its UTF-8 bytes, framed as a blob.
pub open spec fn enc_str(s: Seq<char>) -> Seq<u8> {
    enc_blob(encode_utf8(s))
}

/// Reads a 32-bit word; the rest of the input follows it.
pub open spec fn parse_u32(s: Seq<u8>) -> Result<(u32, Seq<u8>), Error> {
    if s.len() < 4 {
        Err(Error::UnexpectedEof)
    } else {
        Ok((le_value(s.take(4)) as u32, s.skip(4)))
    }
}

pub open spec fn parse_u64(s: Seq<u8>) -> Result<(u64, Seq<u8>), Error> {
    if s.len() < 8 {
        Err(Error::UnexpectedEof)
    } else {
        Ok((le_value(s.take(8)) as u64, s.skip(8)))
    }
}

pub open spec fn parse_i32(s: Seq<u8>) -> Result<(i32, Seq<u8>), Error> {
    match parse_u32(s) {
        Ok((v, rest)) => Ok((v as i32, rest)),
        Err(e) => Err(e),
    }
}

pub open spec fn parse_i64(s: Seq<u8>) -> Result<(i64, Seq<u8>), Error> {
    match parse_u64(s) {
        Ok((v, rest)) => Ok((v as i64, rest)),
        Err(e) => Err(e),
    }
}

pub open spec fn parse_i8(s: Seq<u8>) -> Result<(i8, Seq<u8>), Error> {
    match parse_i32(s) {
        Ok((v, rest)) => if i8::MIN <= v <= i8::MAX {
            Ok((v as i8, rest))
        } else {
            Err(Error::IntegerOverflowingCast)
        },
        Err(e) => Err(e),
    }
}

pub open spec fn parse_i16(s: Seq<u8>) -> Result<(i16, Seq<u8>), Error> {
    match parse_i32(s) {
        Ok((v, rest)) => if i16::MIN <= v <= i16::MAX {
            Ok((v as i16, rest))
        } else {
            Err(Error::IntegerOverflowingCast)
        },
        Err(e) => Err(e),
    }
}

pub open spec fn parse_u8(s: Seq<u8>) -> Result<(u8, Seq<u8>), Error> {
    match parse_u32(s) {
        Ok((v, rest)) => if v <= u8::MAX {
            Ok((v as u8, rest))
        } else {
            Err(Error::IntegerOverflowingCast)
        },
        Err(e) => Err(e),
    }
}

pub open spec fn parse_u16(s: Seq<u8>) -> Result<(u16, Seq<u8>), Error> {
    match parse_u32(s) {
        Ok((v, rest)) => if v <= u16::MAX {
            Ok((v as u16, rest))
        } else {
            Err(Error::IntegerOverflowingCast)
        },
        Err(e) => Err(e),
    }
}

pub open spec fn parse_bool(s: Seq<u8>) -> Result<(bool, Seq<u8>), Error> {
    match parse_u32(s) {
        Ok((v, rest)) => if v == BOOL_TRUE_ID {
            Ok((true, rest))
        } else if v == BOOL_FALSE_ID {
            Ok((false, rest))
        } else {
            Err(Error::UnexpectedBool(v))
        },
        Err(e) => Err(e),
    }
}

/// Reads a string or blob header: the payload length, the padding length,
/// and what follows the header.
pub open spec fn parse_blob_header(s: Seq<u8>) -> Result<(nat, nat, Seq<u8>), Error> {
    if s.len() < 1 {
        Err(Error::UnexpectedEof)
    } else if s[0] <= SHORT_LEN_MAX {
        Ok((s[0] as nat, blob_padding(s[0] as nat), s.skip(1)))
    } else if s[0] == LONG_LEN_MARKER {
        if s.len() < 4 {
            Err(Error::UnexpectedEof)
        } else {
            let len = le_value(s.subrange(1, 4));
            Ok((len, ((4 - len % 4) % 4) as nat, s.skip(4)))
        }
    } else {
        Err(Error::InvalidLengthMarker(s[0]))
    }
}

/// Reads a blob: its payload and what follows its padding.
pub open spec fn parse_blob(s: Seq<u8>) -> Result<(Seq<u8>, Seq<u8>), Error> {
    match parse_blob_header(s) {
        Ok((len, pad, rest)) => if rest.len() < len + pad {
            Err(Error::UnexpectedEof)
        } else {
            Ok((rest.take(len as int), rest.skip((len + pad) as int)))
        },
        Err(e) => Err(e),
    }
}

/// Reads a string: a blob whose payload must be valid UTF-8.
pub open spec fn parse_str(s: Seq<u8>) -> Result<(Seq<char>, Seq<u8>), Error> {
    match parse_blob(s) {
        Ok((b, rest)) => if valid_utf8(b) {
            Ok((decode_utf8(b), rest))
        } else {
            Err(Error::InvalidUtf8)
        },
        Err(e) => Err(e),
    }
}

} // verus!

verus! {

/// `r` and the input left over, `rest`, are what reading by `p` gives.
pub open spec fn follows<T>(r: Result<T, Error>, p: Result<(T, Seq<u8>), Error>, rest: Seq<u8>) -> bool {
    match p {
        Ok((v, s)) => r == Ok::<T, Error>(v) && rest == s,
        Err(e) => r == Err::<T, Error>(e),
    }
}

/// As [`follows`], for a result that is compared through its view.
pub open spec fn follows_view<T: View>(
    r: Result<T, Error>,
    p: Result<(T::V, Seq<u8>), Error>,
    rest: Seq<u8>,
) -> bool {
    match p {
        Ok((v, s)) => r is Ok && r->Ok_0@ == v && rest == s,
        Err(e) => r is Err && r->Err_0 == e,
    }
}

} // verus!
