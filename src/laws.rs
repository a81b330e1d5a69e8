//! What holds of the encoder and the decoder together.
//!
//! A record, a tuple and the payload of a union variant carry no framing of
//! their own: on the wire they are their fields, one after another, however
//! deeply they nest. So a value of any of them is modelled here by the
//! sequence of its scalar fields in order, and a boxed value by its type
//! identifier as one more `u32` field in front.
use vstd::prelude::*;
use vstd::utf8::{encode_utf8, encode_utf8_decode_utf8, encode_utf8_valid_utf8};

use crate::encoding::{
    BLOB_LEN_LIMIT, BOOL_FALSE_ID, BOOL_TRUE_ID, blob_header, blob_padding, enc_blob, enc_bool,
    enc_i32, enc_i64, enc_str, enc_u32, enc_u64, parse_blob, parse_bool, parse_i16, parse_i32,
    parse_i64, parse_i8, parse_str, parse_u16, parse_u32, parse_u64, parse_u8, zeros,
};
use crate::error::Error;
use crate::wire::{le_bytes, lemma_le_bytes_len, lemma_le_round_trip, lemma_pow256_values};

verus! {

/// A scalar field: what the encoder's primitive methods write.
pub enum Scalar {
    Bool(bool),
    I8(i8),
    I16(i16),
    I32(i32),
    I64(i64),
    U8(u8),
    U16(u16),
    U32(u32),
    U64(u64),
    Str(Seq<char>),
    Bytes(Seq<u8>),
}

/// The static type of a scalar field: what the decoder is asked to read.
pub enum Kind {
    Bool,
    I8,
    I16,
    I32,
    I64,
    U8,
    U16,
    U32,
    U64,
    Str,
    Bytes,
}

pub open spec fn kind_of(v: Scalar) -> Kind {
    match v {
        Scalar::Bool(_) => Kind::Bool,
        Scalar::I8(_) => Kind::I8,
        Scalar::I16(_) => Kind::I16,
        Scalar::I32(_) => Kind::I32,
        Scalar::I64(_) => Kind::I64,
        Scalar::U8(_) => Kind::U8,
        Scalar::U16(_) => Kind::U16,
        Scalar::U32(_) => Kind::U32,
        Scalar::U64(_) => Kind::U64,
        Scalar::Str(_) => Kind::Str,
        Scalar::Bytes(_) => Kind::Bytes,
    }
}

/// The encoder accepts the value: strings and blobs are shorter than the
/// three-byte length limit.
pub open spec fn encodable(v: Scalar) -> bool {
    match v {
        Scalar::Str(s) => encode_utf8(s).len() < BLOB_LEN_LIMIT,
        Scalar::Bytes(b) => b.len() < BLOB_LEN_LIMIT,
        _ => true,
    }
}

/// The bytes that the encoder's method for the field's type appends.
pub open spec fn enc_scalar(v: Scalar) -> Seq<u8> {
    match v {
        Scalar::Bool(b) => enc_bool(b),
        Scalar::I8(x) => enc_i32(x as i32),
        Scalar::I16(x) => enc_i32(x as i32),
        Scalar::I32(x) => enc_i32(x),
        Scalar::I64(x) => enc_i64(x),
        Scalar::U8(x) => enc_u32(x as u32),
        Scalar::U16(x) => enc_u32(x as u32),
        Scalar::U32(x) => enc_u32(x),
        Scalar::U64(x) => enc_u64(x),
        Scalar::Str(s) => enc_str(s),
        Scalar::Bytes(b) => enc_blob(b),
    }
}

/// What the decoder's method for `k` gives on input `s`, and the rest.
pub open spec fn parse_scalar(k: Kind, s: Seq<u8>) -> Result<(Scalar, Seq<u8>), Error> {
    match k {
        Kind::Bool => match parse_bool(s) {
            Ok((v, r)) => Ok((Scalar::Bool(v), r)),
            Err(e) => Err(e),
        },
        Kind::I8 => match parse_i8(s) {
            Ok((v, r)) => Ok((Scalar::I8(v), r)),
            Err(e) => Err(e),
        },
        Kind::I16 => match parse_i16(s) {
            Ok((v, r)) => Ok((Scalar::I16(v), r)),
            Err(e) => Err(e),
        },
        Kind::I32 => match parse_i32(s) {
            Ok((v, r)) => Ok((Scalar::I32(v), r)),
            Err(e) => Err(e),
        },
        Kind::I64 => match parse_i64(s) {
            Ok((v, r)) => Ok((Scalar::I64(v), r)),
            Err(e) => Err(e),
        },
        Kind::U8 => match parse_u8(s) {
            Ok((v, r)) => Ok((Scalar::U8(v), r)),
            Err(e) => Err(e),
        },
        Kind::U16 => match parse_u16(s) {
            Ok((v, r)) => Ok((Scalar::U16(v), r)),
            Err(e) => Err(e),
        },
        Kind::U32 => match parse_u32(s) {
            Ok((v, r)) => Ok((Scalar::U32(v), r)),
            Err(e) => Err(e),
        },
        Kind::U64 => match parse_u64(s) {
            Ok((v, r)) => Ok((Scalar::U64(v), r)),
            Err(e) => Err(e),
        },
        Kind::Str => match parse_str(s) {
            Ok((v, r)) => Ok((Scalar::Str(v), r)),
            Err(e) => Err(e),
        },
        Kind::Bytes => match parse_blob(s) {
            Ok((v, r)) => Ok((Scalar::Bytes(v), r)),
            Err(e) => Err(e),
        },
    }
}

/// The wire form of a fixed-arity container: its fields, one after another.
pub open spec fn enc_fields(vs: Seq<Scalar>) -> Seq<u8>
    decreases vs.len(),
{
    if vs.len() == 0 {
        Seq::empty()
    } else {
        enc_scalar(vs[0]) + enc_fields(vs.drop_first())
    }
}

/// Reads the fields of a fixed-arity container whose field types are `ks`.
pub open spec fn parse_fields(ks: Seq<Kind>, s: Seq<u8>) -> Result<(Seq<Scalar>, Seq<u8>), Error>
    decreases ks.len(),
{
    if ks.len() == 0 {
        Ok((Seq::empty(), s))
    } else {
        match parse_scalar(ks[0], s) {
            Ok((v, r)) => match parse_fields(ks.drop_first(), r) {
                Ok((vs, r2)) => Ok((seq![v] + vs, r2)),
                Err(e) => Err(e),
            },
            Err(e) => Err(e),
        }
    }
}

proof fn lemma_u32_round_trip(v: u32, rest: Seq<u8>)
    ensures
        parse_u32(enc_u32(v) + rest) == Ok::<(u32, Seq<u8>), Error>((v, rest)),
{
    let s = enc_u32(v) + rest;
    lemma_le_bytes_len(v as nat, 4);
    lemma_pow256_values();
    lemma_le_round_trip(v as nat, 4);
    assert(s.take(4) =~= enc_u32(v));
    assert(s.skip(4) =~= rest);
}

proof fn lemma_u64_round_trip(v: u64, rest: Seq<u8>)
    ensures
        parse_u64(enc_u64(v) + rest) == Ok::<(u64, Seq<u8>), Error>((v, rest)),
{
    let s = enc_u64(v) + rest;
    lemma_le_bytes_len(v as nat, 8);
    lemma_pow256_values();
    lemma_le_round_trip(v as nat, 8);
    assert(s.take(8) =~= enc_u64(v));
    assert(s.skip(8) =~= rest);
}

proof fn lemma_blob_round_trip(b: Seq<u8>, rest: Seq<u8>)
    requires
        b.len() < BLOB_LEN_LIMIT,
    ensures
        parse_blob(enc_blob(b) + rest) == Ok::<(Seq<u8>, Seq<u8>), Error>((b, rest)),
{
    let len = b.len();
    let pad = blob_padding(len);
    let s = enc_blob(b) + rest;
    let tail = b + zeros(pad) + rest;
    if len <= 253 {
        assert(s[0] == len as u8);
        assert(s.skip(1) =~= tail);
    } else {
        lemma_le_bytes_len(len, 3);
        lemma_pow256_values();
        lemma_le_round_trip(len, 3);
        assert(s[0] == 254);
        assert(s.subrange(1, 4) =~= le_bytes(len, 3));
        assert(s.skip(4) =~= tail);
    }
    assert(tail.take(len as int) =~= b);
    assert(tail.skip((len + pad) as int) =~= rest);
}

/// Reading a field of the type it was written as gives it back, and leaves
/// whatever followed it.
pub proof fn lemma_scalar_round_trip(v: Scalar, rest: Seq<u8>)
    requires
        encodable(v),
    ensures
        parse_scalar(kind_of(v), enc_scalar(v) + rest) == Ok::<(Scalar, Seq<u8>), Error>((v, rest)),
{
    match v {
        Scalar::Bool(b) => {
            lemma_u32_round_trip(if b { BOOL_TRUE_ID } else { BOOL_FALSE_ID }, rest);
        },
        Scalar::I8(x) => {
            lemma_u32_round_trip((x as i32) as u32, rest);
            assert(((x as i32) as u32) as i32 == x as i32) by (bit_vector);
        },
        Scalar::I16(x) => {
            lemma_u32_round_trip((x as i32) as u32, rest);
            assert(((x as i32) as u32) as i32 == x as i32) by (bit_vector);
        },
        Scalar::I32(x) => {
            lemma_u32_round_trip(x as u32, rest);
            assert((x as u32) as i32 == x) by (bit_vector);
        },
        Scalar::I64(x) => {
            lemma_u64_round_trip(x as u64, rest);
            assert((x as u64) as i64 == x) by (bit_vector);
        },
        Scalar::U8(x) => {
            lemma_u32_round_trip(x as u32, rest);
        },
        Scalar::U16(x) => {
            lemma_u32_round_trip(x as u32, rest);
        },
        Scalar::U32(x) => {
            lemma_u32_round_trip(x, rest);
        },
        Scalar::U64(x) => {
            lemma_u64_round_trip(x, rest);
        },
        Scalar::Str(c) => {
            lemma_blob_round_trip(encode_utf8(c), rest);
            encode_utf8_valid_utf8(c);
            encode_utf8_decode_utf8(c);
        },
        Scalar::Bytes(b) => {
            lemma_blob_round_trip(b, rest);
        },
    }
}

/// Reading a record, tuple or variant payload with the field types it was
/// written with gives back every field, and leaves whatever followed it.
pub proof fn lemma_fields_round_trip(vs: Seq<Scalar>, rest: Seq<u8>)
    requires
        forall|i: int| 0 <= i < vs.len() ==> encodable(#[trigger] vs[i]),
    ensures
        parse_fields(vs.map_values(|v: Scalar| kind_of(v)), enc_fields(vs) + rest) == Ok::<
            (Seq<Scalar>, Seq<u8>),
            Error,
        >((vs, rest)),
    decreases vs.len(),
{
    let ks = vs.map_values(|v: Scalar| kind_of(v));
    if vs.len() > 0 {
        let tail = vs.drop_first();
        let after = enc_fields(tail) + rest;
        assert(enc_fields(vs) + rest =~= enc_scalar(vs[0]) + after);
        lemma_scalar_round_trip(vs[0], after);
        assert(forall|i: int| 0 <= i < tail.len() ==> tail[i] == vs[i + 1]);
        lemma_fields_round_trip(tail, rest);
        assert(ks.drop_first() =~= tail.map_values(|v: Scalar| kind_of(v)));
        assert(seq![vs[0]] + tail =~= vs);
    } else {
        assert(enc_fields(vs) + rest =~= rest);
        assert(vs =~= Seq::<Scalar>::empty());
    }
}

/// A boxed value, its type identifier followed by its fields, reads back
/// as the identifier and then the fields.
pub proof fn lemma_boxed_round_trip(id: u32, vs: Seq<Scalar>, rest: Seq<u8>)
    requires
        forall|i: int| 0 <= i < vs.len() ==> encodable(#[trigger] vs[i]),
    ensures
        parse_u32(enc_u32(id) + enc_fields(vs) + rest) == Ok::<(u32, Seq<u8>), Error>(
            (id, enc_fields(vs) + rest),
        ),
        parse_fields(vs.map_values(|v: Scalar| kind_of(v)), enc_fields(vs) + rest) == Ok::<
            (Seq<Scalar>, Seq<u8>),
            Error,
        >((vs, rest)),
{
    assert(enc_u32(id) + enc_fields(vs) + rest =~= enc_u32(id) + (enc_fields(vs) + rest));
    lemma_u32_round_trip(id, enc_fields(vs) + rest);
    lemma_fields_round_trip(vs, rest);
}

/// Every field takes a whole number of 4-byte words.
pub proof fn lemma_scalar_aligned(v: Scalar)
    requires
        encodable(v),
    ensures
        enc_scalar(v).len() % 4 == 0,
{
    match v {
        Scalar::I64(x) => lemma_le_bytes_len((x as u64) as nat, 8),
        Scalar::U64(x) => lemma_le_bytes_len(x as nat, 8),
        Scalar::Bool(b) => lemma_le_bytes_len(
            (if b { BOOL_TRUE_ID } else { BOOL_FALSE_ID }) as nat,
            4,
        ),
        Scalar::I8(x) => lemma_le_bytes_len(((x as i32) as u32) as nat, 4),
        Scalar::I16(x) => lemma_le_bytes_len(((x as i32) as u32) as nat, 4),
        Scalar::I32(x) => lemma_le_bytes_len((x as u32) as nat, 4),
        Scalar::U8(x) => lemma_le_bytes_len(x as nat, 4),
        Scalar::U16(x) => lemma_le_bytes_len(x as nat, 4),
        Scalar::U32(x) => lemma_le_bytes_len(x as nat, 4),
        Scalar::Str(c) => lemma_blob_aligned(encode_utf8(c)),
        Scalar::Bytes(b) => lemma_blob_aligned(b),
    }
}

/// A string or blob, with its header and padding, takes a whole number of
/// 4-byte words.
pub proof fn lemma_blob_aligned(b: Seq<u8>)
    ensures
        enc_blob(b).len() % 4 == 0,
{
    lemma_le_bytes_len(b.len(), 3);
    assert(blob_header(b.len()).len() == if b.len() <= 253 { 1nat } else { 4nat });
}

/// A record, tuple or variant payload takes a whole number of 4-byte words.
pub proof fn lemma_fields_aligned(vs: Seq<Scalar>)
    requires
        forall|i: int| 0 <= i < vs.len() ==> encodable(#[trigger] vs[i]),
    ensures
        enc_fields(vs).len() % 4 == 0,
    decreases vs.len(),
{
    if vs.len() > 0 {
        lemma_scalar_aligned(vs[0]);
        let tail = vs.drop_first();
        assert(forall|i: int| 0 <= i < tail.len() ==> tail[i] == vs[i + 1]);
        lemma_fields_aligned(tail);
    }
}

} // verus!
