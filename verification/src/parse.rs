//! Little-endian cursor codec over a guest-memory byte window.
//!
//! A [`Reader`] or [`Writer`] carries only a cursor; every operation borrows
//! the guest memory it works on, checks that the remaining window is large
//! enough, and advances the cursor on success.  An access past the end of
//! memory fails with a host trap instead of touching anything.

use vstd::prelude::*;

verus! {

use crate::engine::Trap;
use vstd::string::StringSliceAdditionalSpecFns;
use vstd::utf8::{decode_utf8, encode_utf8, valid_utf8};

/// Relies on `core::str::from_utf8`: it succeeds exactly on valid UTF-8, and
/// the returned string slice views the very bytes that were passed in.
#[verifier::external_body]
pub(crate) fn utf8_from(bytes: &[u8]) -> (r: Option<&str>)
    ensures
        r is Some <==> valid_utf8(bytes@),
        r matches Some(s) ==> s.spec_bytes() == bytes@,
{
    core::str::from_utf8(bytes).ok()
}

/// The value of two bytes combined little-endian.
pub open spec fn le16(b0: u8, b1: u8) -> u16 {
    (b0 as u16) | ((b1 as u16) << 8)
}

/// The value of four bytes combined little-endian.
pub open spec fn le32(b0: u8, b1: u8, b2: u8, b3: u8) -> u32 {
    (b0 as u32) | ((b1 as u32) << 8) | ((b2 as u32) << 16) | ((b3 as u32) << 24)
}

/// The value of eight bytes combined little-endian.
pub open spec fn le64(b0: u8, b1: u8, b2: u8, b3: u8, b4: u8, b5: u8, b6: u8, b7: u8) -> u64 {
    (b0 as u64) | ((b1 as u64) << 8) | ((b2 as u64) << 16) | ((b3 as u64) << 24)
        | ((b4 as u64) << 32) | ((b5 as u64) << 40) | ((b6 as u64) << 48) | ((b7 as u64) << 56)
}

/// The `u8` stored in `m` at offset `i`.
pub open spec fn u8_at(m: Seq<u8>, i: int) -> u8 {
    m[i]
}

/// The little-endian `u16` stored in `m` at offset `i`.
pub open spec fn u16_at(m: Seq<u8>, i: int) -> u16 {
    le16(m[i], m[i + 1])
}

/// The little-endian `u32` stored in `m` at offset `i`.
pub open spec fn u32_at(m: Seq<u8>, i: int) -> u32 {
    le32(m[i], m[i + 1], m[i + 2], m[i + 3])
}

/// The little-endian `u64` stored in `m` at offset `i`.
pub open spec fn u64_at(m: Seq<u8>, i: int) -> u64 {
    le64(m[i], m[i + 1], m[i + 2], m[i + 3], m[i + 4], m[i + 5], m[i + 6], m[i + 7])
}

/// `m` with the byte `v` stored at offset `i`.
pub open spec fn store8(m: Seq<u8>, i: int, v: u8) -> Seq<u8> {
    m.update(i, v)
}

/// `m` with the little-endian bytes of `v` stored at offsets `i..i + 2`.
pub open spec fn store16(m: Seq<u8>, i: int, v: u16) -> Seq<u8> {
    m.update(i, v as u8).update(i + 1, (v >> 8) as u8)
}

/// `m` with the little-endian bytes of `v` stored at offsets `i..i + 4`.
pub open spec fn store32(m: Seq<u8>, i: int, v: u32) -> Seq<u8> {
    m.update(i, v as u8).update(i + 1, (v >> 8) as u8).update(i + 2, (v >> 16) as u8).update(
        i + 3,
        (v >> 24) as u8,
    )
}

/// `m` with the little-endian bytes of `v` stored at offsets `i..i + 8`.
pub open spec fn store64(m: Seq<u8>, i: int, v: u64) -> Seq<u8> {
    m.update(i, v as u8).update(i + 1, (v >> 8) as u8).update(i + 2, (v >> 16) as u8).update(
        i + 3,
        (v >> 24) as u8,
    ).update(i + 4, (v >> 32) as u8).update(i + 5, (v >> 40) as u8).update(
        i + 6,
        (v >> 48) as u8,
    ).update(i + 7, (v >> 56) as u8)
}

/// Storing a `u16` and reading it back at the same offset yields the value,
/// and no byte outside the written range changes.
pub proof fn lemma_store16_load(m: Seq<u8>, i: int, v: u16)
    requires
        0 <= i,
        i + 2 <= m.len(),
    ensures
        store16(m, i, v).len() == m.len(),
        u16_at(store16(m, i, v), i) == v,
        forall|j: int| 0 <= j < m.len() && !(i <= j < i + 2) ==> store16(m, i, v)[j] == m[j],
{
    assert((((v as u8) as u16) | ((((v >> 8) as u8) as u16) << 8)) == v) by (bit_vector);
}

/// Storing a `u32` and reading it back at the same offset yields the value,
/// and no byte outside the written range changes.
pub proof fn lemma_store32_load(m: Seq<u8>, i: int, v: u32)
    requires
        0 <= i,
        i + 4 <= m.len(),
    ensures
        store32(m, i, v).len() == m.len(),
        u32_at(store32(m, i, v), i) == v,
        forall|j: int| 0 <= j < m.len() && !(i <= j < i + 4) ==> store32(m, i, v)[j] == m[j],
{
    assert((((v as u8) as u32) | ((((v >> 8) as u8) as u32) << 8) | ((((v >> 16) as u8) as u32)
        << 16) | ((((v >> 24) as u8) as u32) << 24)) == v) by (bit_vector);
}

/// Storing a `u64` and reading it back at the same offset yields the value,
/// and no byte outside the written range changes.
pub proof fn lemma_store64_load(m: Seq<u8>, i: int, v: u64)
    requires
        0 <= i,
        i + 8 <= m.len(),
    ensures
        store64(m, i, v).len() == m.len(),
        u64_at(store64(m, i, v), i) == v,
        forall|j: int| 0 <= j < m.len() && !(i <= j < i + 8) ==> store64(m, i, v)[j] == m[j],
{
    assert((((v as u8) as u64) | ((((v >> 8) as u8) as u64) << 8) | ((((v >> 16) as u8) as u64)
        << 16) | ((((v >> 24) as u8) as u64) << 24) | ((((v >> 32) as u8) as u64) << 32) | ((((v
        >> 40) as u8) as u64) << 40) | ((((v >> 48) as u8) as u64) << 48) | ((((v >> 56) as u8)
        as u64) << 56)) == v) by (bit_vector);
}

/// One value in a message, as the codec serializes it.
pub enum Field {
    /// A single byte.
    U8(u8),
    /// A little-endian `u16`.
    U16(u16),
    /// A little-endian `u32`.
    U32(u32),
    /// A little-endian `u64`.
    U64(u64),
    /// A UTF-8 string.
    Str(Seq<char>),
}

/// The bytes that the codec writes for one field.
pub open spec fn field_enc(f: Field) -> Seq<u8> {
    match f {
        Field::U8(v) => seq![v],
        Field::U16(v) => seq![v as u8, (v >> 8) as u8],
        Field::U32(v) => seq![v as u8, (v >> 8) as u8, (v >> 16) as u8, (v >> 24) as u8],
        Field::U64(v) => seq![
            v as u8,
            (v >> 8) as u8,
            (v >> 16) as u8,
            (v >> 24) as u8,
            (v >> 32) as u8,
            (v >> 40) as u8,
            (v >> 48) as u8,
            (v >> 56) as u8,
        ],
        Field::Str(s) => encode_utf8(s),
    }
}

/// The bytes that the codec writes for a sequence of fields, in order.
pub open spec fn fields_enc(fs: Seq<Field>) -> Seq<u8>
    decreases fs.len(),
{
    if fs.len() == 0 {
        Seq::empty()
    } else {
        field_enc(fs[0]) + fields_enc(fs.drop_first())
    }
}

/// Reading one field from `m` at offset `i` yields the field's value.
pub open spec fn field_reads_back(m: Seq<u8>, i: int, f: Field) -> bool {
    match f {
        Field::U8(v) => u8_at(m, i) == v,
        Field::U16(v) => u16_at(m, i) == v,
        Field::U32(v) => u32_at(m, i) == v,
        Field::U64(v) => u64_at(m, i) == v,
        Field::Str(s) => {
            let sub = m.subrange(i, i + encode_utf8(s).len());
            valid_utf8(sub) && decode_utf8(sub) == s
        },
    }
}

/// Reading the fields from `m` at offset `i`, in order, yields their values.
pub open spec fn fields_read_back(m: Seq<u8>, i: int, fs: Seq<Field>) -> bool
    decreases fs.len(),
{
    fs.len() == 0 || (field_reads_back(m, i, fs[0]) && fields_read_back(
        m,
        i + field_enc(fs[0]).len(),
        fs.drop_first(),
    ))
}

proof fn lemma_le16_recombine(v: u16)
    ensures
        le16(v as u8, (v >> 8) as u8) == v,
{
    assert((((v as u8) as u16) | ((((v >> 8) as u8) as u16) << 8)) == v) by (bit_vector);
}

proof fn lemma_le32_recombine(v: u32)
    ensures
        le32(v as u8, (v >> 8) as u8, (v >> 16) as u8, (v >> 24) as u8) == v,
{
    assert((((v as u8) as u32) | ((((v >> 8) as u8) as u32) << 8) | ((((v >> 16) as u8) as u32)
        << 16) | ((((v >> 24) as u8) as u32) << 24)) == v) by (bit_vector);
}

proof fn lemma_le64_recombine(v: u64)
    ensures
        le64(
            v as u8,
            (v >> 8) as u8,
            (v >> 16) as u8,
            (v >> 24) as u8,
            (v >> 32) as u8,
            (v >> 40) as u8,
            (v >> 48) as u8,
            (v >> 56) as u8,
        ) == v,
{
    assert((((v as u8) as u64) | ((((v >> 8) as u8) as u64) << 8) | ((((v >> 16) as u8) as u64)
        << 16) | ((((v >> 24) as u8) as u64) << 24) | ((((v >> 32) as u8) as u64) << 32) | ((((v
        >> 40) as u8) as u64) << 40) | ((((v >> 48) as u8) as u64) << 48) | ((((v >> 56) as u8)
        as u64) << 56)) == v) by (bit_vector);
}

/// Law: writing any sequence of `u8`, `u16`, `u32`, `u64` and UTF-8 string
/// fields and reading them back in the same order yields the original values.
///
/// `m` is any memory whose bytes at `i` hold the encoding of `fs`, as the
/// writer's postconditions guarantee after the fields were written there.
pub proof fn lemma_codec_round_trip(m: Seq<u8>, i: int, fs: Seq<Field>)
    requires
        0 <= i,
        i + fields_enc(fs).len() <= m.len(),
        m.subrange(i, i + fields_enc(fs).len()) == fields_enc(fs),
    ensures
        fields_read_back(m, i, fs),
    decreases fs.len(),
{
    if fs.len() > 0 {
        let f = fs[0];
        let rest = fs.drop_first();
        let e0 = field_enc(f);
        let er = fields_enc(rest);
        let l0 = e0.len() as int;
        let lr = er.len() as int;
        assert(fields_enc(fs) == e0 + er);
        assert(m.subrange(i, i + l0) =~= e0) by {
            assert(forall|k: int| 0 <= k < l0 ==> m.subrange(i, i + l0 + lr)[k] == (e0 + er)[k]);
        }
        assert(forall|k: int| 0 <= k < l0 ==> m[i + k] == e0[k]) by {
            assert(forall|k: int| 0 <= k < l0 ==> m.subrange(i, i + l0)[k] == e0[k]);
        }
        match f {
            Field::U8(v) => {
                assert(m[i + 0] == e0[0]);
            },
            Field::U16(v) => {
                lemma_le16_recombine(v);
            },
            Field::U32(v) => {
                lemma_le32_recombine(v);
            },
            Field::U64(v) => {
                lemma_le64_recombine(v);
            },
            Field::Str(s) => {
                broadcast use vstd::utf8::encode_utf8_valid_utf8;
                broadcast use vstd::utf8::encode_utf8_decode_utf8;

                assert(m.subrange(i, i + l0) == encode_utf8(s));
            },
        }
        assert(m.subrange(i + l0, i + l0 + lr) =~= er) by {
            assert(forall|k: int| 0 <= k < lr ==> #[trigger] (m.subrange(i + l0, i + l0 + lr)[k])
                == m.subrange(i, i + l0 + lr)[l0 + k] && m.subrange(i, i + l0 + lr)[l0 + k] == (e0
                + er)[l0 + k]);
        }
        lemma_codec_round_trip(m, i + l0, rest);
    }
}

/// Guest memory reader: a cursor into a byte window.
pub struct Reader {
    /// Offset of the next byte to read.
    pub pos: usize,
}

impl Reader {
    /// Make a new reader starting at byte offset `pos`.
    pub fn new(pos: usize) -> (r: Reader)
        ensures
            r.pos == pos,
    {
        Reader { pos }
    }

    /// Receive a `u8` from the WASM module.
    pub fn u8(&mut self, bytes: &Vec<u8>) -> (r: Result<u8, Trap>)
        ensures
            r is Ok <==> old(self).pos + 1 <= bytes@.len(),
            r matches Ok(v) ==> v == u8_at(bytes@, old(self).pos as int)
                && final(self).pos == old(self).pos + 1,
            r is Err ==> r == Err::<u8, Trap>(Trap::OutOfBounds) && *final(self) == *old(self),
    {
        if self.pos < bytes.len() {
            let v = bytes[self.pos];
            self.pos = self.pos + 1;
            Ok(v)
        } else {
            Err(Trap::OutOfBounds)
        }
    }

    /// Receive a `u16` from the WASM module.
    pub fn u16(&mut self, bytes: &Vec<u8>) -> (r: Result<u16, Trap>)
        ensures
            r is Ok <==> old(self).pos + 2 <= bytes@.len(),
            r matches Ok(v) ==> v == u16_at(bytes@, old(self).pos as int)
                && final(self).pos == old(self).pos + 2,
            r is Err ==> r == Err::<u16, Trap>(Trap::OutOfBounds) && *final(self) == *old(self),
    {
        if self.pos <= bytes.len() && bytes.len() - self.pos >= 2 {
            let b0 = bytes[self.pos];
            let b1 = bytes[self.pos + 1];
            self.pos = self.pos + 2;
            Ok((b0 as u16) | ((b1 as u16) << 8))
        } else {
            Err(Trap::OutOfBounds)
        }
    }

    /// Receive a `u32` from the WASM module.
    pub fn u32(&mut self, bytes: &Vec<u8>) -> (r: Result<u32, Trap>)
        ensures
            r is Ok <==> old(self).pos + 4 <= bytes@.len(),
            r matches Ok(v) ==> v == u32_at(bytes@, old(self).pos as int)
                && final(self).pos == old(self).pos + 4,
            r is Err ==> r == Err::<u32, Trap>(Trap::OutOfBounds) && *final(self) == *old(self),
    {
        if self.pos <= bytes.len() && bytes.len() - self.pos >= 4 {
            let b0 = bytes[self.pos];
            let b1 = bytes[self.pos + 1];
            let b2 = bytes[self.pos + 2];
            let b3 = bytes[self.pos + 3];
            self.pos = self.pos + 4;
            Ok((b0 as u32) | ((b1 as u32) << 8) | ((b2 as u32) << 16) | ((b3 as u32) << 24))
        } else {
            Err(Trap::OutOfBounds)
        }
    }

    /// Receive a `u64` from the WASM module.
    pub fn u64(&mut self, bytes: &Vec<u8>) -> (r: Result<u64, Trap>)
        ensures
            r is Ok <==> old(self).pos + 8 <= bytes@.len(),
            r matches Ok(v) ==> v == u64_at(bytes@, old(self).pos as int)
                && final(self).pos == old(self).pos + 8,
            r is Err ==> r == Err::<u64, Trap>(Trap::OutOfBounds) && *final(self) == *old(self),
    {
        if self.pos <= bytes.len() && bytes.len() - self.pos >= 8 {
            let b0 = bytes[self.pos];
            let b1 = bytes[self.pos + 1];
            let b2 = bytes[self.pos + 2];
            let b3 = bytes[self.pos + 3];
            let b4 = bytes[self.pos + 4];
            let b5 = bytes[self.pos + 5];
            let b6 = bytes[self.pos + 6];
            let b7 = bytes[self.pos + 7];
            self.pos = self.pos + 8;
            Ok((b0 as u64) | ((b1 as u64) << 8) | ((b2 as u64) << 16) | ((b3 as u64) << 24)
                | ((b4 as u64) << 32) | ((b5 as u64) << 40) | ((b6 as u64) << 48)
                | ((b7 as u64) << 56))
        } else {
            Err(Trap::OutOfBounds)
        }
    }

    /// Receive a UTF-8 string of `len` bytes from the WASM module.
    pub fn str(&mut self, bytes: &Vec<u8>, len: usize) -> (r: Result<String, Trap>)
        ensures
            r is Ok <==> old(self).pos + len <= bytes@.len() && valid_utf8(
                bytes@.subrange(old(self).pos as int, old(self).pos + len),
            ),
            r matches Ok(s) ==> encode_utf8(s@) == bytes@.subrange(
                old(self).pos as int,
                old(self).pos + len,
            ) && final(self).pos == old(self).pos + len,
            old(self).pos + len > bytes@.len() ==> r == Err::<String, Trap>(Trap::OutOfBounds),
            old(self).pos + len <= bytes@.len() && !valid_utf8(
                bytes@.subrange(old(self).pos as int, old(self).pos + len),
            ) ==> r == Err::<String, Trap>(Trap::InvalidUtf8),
            r is Err ==> *final(self) == *old(self),
    {
        if self.pos > bytes.len() || bytes.len() - self.pos < len {
            return Err(Trap::OutOfBounds);
        }
        let p = self.pos;
        let mut buf: Vec<u8> = Vec::new();
        let mut j: usize = 0;
        while j < len
            invariant
                p + len <= bytes@.len(),
                p + len <= usize::MAX,
                j <= len,
                buf@ == bytes@.subrange(p as int, p + j),
            decreases len - j,
        {
            buf.push(bytes[p + j]);
            proof {
                assert(buf@ =~= bytes@.subrange(p as int, p + j + 1));
            }
            j = j + 1;
        }
        match utf8_from(buf.as_slice()) {
            Some(s) => {
                self.pos = p + len;
                Ok(s.to_owned())
            },
            None => Err(Trap::InvalidUtf8),
        }
    }
}

/// Guest memory writer: a cursor into a byte window.
pub struct Writer {
    /// Offset of the next byte to write.
    pub pos: usize,
}

impl Writer {
    /// Make a new writer starting at byte offset `pos`.
    pub fn new(pos: usize) -> (r: Writer)
        ensures
            r.pos == pos,
    {
        Writer { pos }
    }

    /// Send a `u8` to the WASM module.
    pub fn u8(&mut self, bytes: &mut Vec<u8>, byte: u8) -> (r: Result<(), Trap>)
        ensures
            r is Ok <==> old(self).pos + 1 <= old(bytes)@.len(),
            r is Ok ==> final(self).pos == old(self).pos + 1
                && final(bytes)@ == store8(old(bytes)@, old(self).pos as int, byte),
            r is Err ==> r == Err::<(), Trap>(Trap::OutOfBounds) && *final(self) == *old(self)
                && final(bytes)@ == old(bytes)@,
    {
        if self.pos < bytes.len() {
            let p = self.pos;
            bytes[p] = byte;
            self.pos = p + 1;
            Ok(())
        } else {
            Err(Trap::OutOfBounds)
        }
    }

    /// Send a `u16` to the WASM module.
    pub fn u16(&mut self, bytes: &mut Vec<u8>, half: u16) -> (r: Result<(), Trap>)
        ensures
            r is Ok <==> old(self).pos + 2 <= old(bytes)@.len(),
            r is Ok ==> final(self).pos == old(self).pos + 2
                && final(bytes)@ == store16(old(bytes)@, old(self).pos as int, half),
            r is Err ==> r == Err::<(), Trap>(Trap::OutOfBounds) && *final(self) == *old(self)
                && final(bytes)@ == old(bytes)@,
    {
        if self.pos <= bytes.len() && bytes.len() - self.pos >= 2 {
            let p = self.pos;
            bytes[p] = #[verifier::truncate] (half as u8);
            bytes[p + 1] = #[verifier::truncate] ((half >> 8) as u8);
            self.pos = p + 2;
            Ok(())
        } else {
            Err(Trap::OutOfBounds)
        }
    }

    /// Send a `u32` to the WASM module.
    pub fn u32(&mut self, bytes: &mut Vec<u8>, word: u32) -> (r: Result<(), Trap>)
        ensures
            r is Ok <==> old(self).pos + 4 <= old(bytes)@.len(),
            r is Ok ==> final(self).pos == old(self).pos + 4
                && final(bytes)@ == store32(old(bytes)@, old(self).pos as int, word),
            r is Err ==> r == Err::<(), Trap>(Trap::OutOfBounds) && *final(self) == *old(self)
                && final(bytes)@ == old(bytes)@,
    {
        if self.pos <= bytes.len() && bytes.len() - self.pos >= 4 {
            let p = self.pos;
            bytes[p] = #[verifier::truncate] (word as u8);
            bytes[p + 1] = #[verifier::truncate] ((word >> 8) as u8);
            bytes[p + 2] = #[verifier::truncate] ((word >> 16) as u8);
            bytes[p + 3] = #[verifier::truncate] ((word >> 24) as u8);
            self.pos = p + 4;
            Ok(())
        } else {
            Err(Trap::OutOfBounds)
        }
    }

    /// Send a `u64` to the WASM module.
    pub fn u64(&mut self, bytes: &mut Vec<u8>, long: u64) -> (r: Result<(), Trap>)
        ensures
            r is Ok <==> old(self).pos + 8 <= old(bytes)@.len(),
            r is Ok ==> final(self).pos == old(self).pos + 8
                && final(bytes)@ == store64(old(bytes)@, old(self).pos as int, long),
            r is Err ==> r == Err::<(), Trap>(Trap::OutOfBounds) && *final(self) == *old(self)
                && final(bytes)@ == old(bytes)@,
    {
        if self.pos <= bytes.len() && bytes.len() - self.pos >= 8 {
            let p = self.pos;
            bytes[p] = #[verifier::truncate] (long as u8);
            bytes[p + 1] = #[verifier::truncate] ((long >> 8) as u8);
            bytes[p + 2] = #[verifier::truncate] ((long >> 16) as u8);
            bytes[p + 3] = #[verifier::truncate] ((long >> 24) as u8);
            bytes[p + 4] = #[verifier::truncate] ((long >> 32) as u8);
            bytes[p + 5] = #[verifier::truncate] ((long >> 40) as u8);
            bytes[p + 6] = #[verifier::truncate] ((long >> 48) as u8);
            bytes[p + 7] = #[verifier::truncate] ((long >> 56) as u8);
            self.pos = p + 8;
            Ok(())
        } else {
            Err(Trap::OutOfBounds)
        }
    }

    /// Send a UTF-8 string to the WASM module.
    pub fn str(&mut self, bytes: &mut Vec<u8>, utf8: &str) -> (r: Result<(), Trap>)
        ensures
            r is Ok <==> old(self).pos + utf8.spec_bytes().len() <= old(bytes)@.len(),
            r is Ok ==> final(self).pos == old(self).pos + utf8.spec_bytes().len()
                && final(bytes)@.len() == old(bytes)@.len()
                && final(bytes)@.subrange(
                    old(self).pos as int,
                    old(self).pos + utf8.spec_bytes().len(),
                ) == encode_utf8(utf8@)
                && (forall|j: int| 0 <= j < old(bytes)@.len()
                    && !(old(self).pos <= j < old(self).pos + utf8.spec_bytes().len())
                    ==> final(bytes)@[j] == old(bytes)@[j]),
            r is Err ==> r == Err::<(), Trap>(Trap::OutOfBounds) && *final(self) == *old(self)
                && final(bytes)@ == old(bytes)@,
    {
        let sb = utf8.as_bytes();
        let n = sb.len();
        if self.pos > bytes.len() || bytes.len() - self.pos < n {
            return Err(Trap::OutOfBounds);
        }
        let p = self.pos;
        let mut j: usize = 0;
        while j < n
            invariant
                p + n <= bytes@.len(),
                p + n <= usize::MAX,
                j <= n,
                sb@ == utf8.spec_bytes(),
                n == sb@.len(),
                bytes@.len() == old(bytes)@.len(),
                bytes@.subrange(p as int, p + j) == sb@.subrange(0, j as int),
                forall|k: int| 0 <= k < bytes@.len() && !(p <= k < p + j)
                    ==> bytes@[k] == old(bytes)@[k],
            decreases n - j,
        {
            let b = sb[j];
            bytes[p + j] = b;
            proof {
                assert(bytes@.subrange(p as int, p + j + 1) =~= sb@.subrange(0, j + 1));
            }
            j = j + 1;
        }
        proof {
            assert(bytes@.subrange(p as int, p + n) =~= sb@);
        }
        self.pos = p + n;
        Ok(())
    }
}

} // verus!
