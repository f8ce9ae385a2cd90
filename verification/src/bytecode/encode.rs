//! Binary serialisation and deserialisation of a [`BytecodeModule`].
//!
//! On-disk format (all integers little-endian):
//!
//! ```text
//! [magic 6B]           b"SELVR\x01"
//! [version 2B]         u8 major, u8 minor
//! [source len 2B]      u16
//! [source bytes]       UTF-8
//! [src hash 32B]       SHA-256 (or zeros)
//! [pool count 2B]      u16
//!   per entry:
//!     [tag 1B]         0=Str, 1=Name
//!     [len 2B]         u16
//!     [bytes]          UTF-8
//! [fn count 2B]        u16
//!   per fn:
//!     [name_idx 2B]    u16
//!     [param_count 1B] u8
//!     [local_count 2B] u16
//!     [flags 1B]       bit0=is_export, bit1=is_async
//!     [code_len 4B]    u32
//!     [code bytes]
//! ```

use vstd::prelude::*;
use vstd::utf8::{valid_utf8, decode_utf8, encode_utf8};
use crate::bytecode::module::{
    BytecodeModule, BytecodeModuleV, BcFn, BcFnV, ConstPool, ConstValue, ConstValueV, MAGIC,
    VERSION,
};
use crate::text::string_of;

verus! {

broadcast use vstd::utf8::encode_utf8_valid_utf8, vstd::utf8::encode_utf8_decode_utf8;

#[derive(Debug, Clone, Copy, PartialEq, Eq, Structural)]
pub enum EncodeError {
    TooLarge,
}

impl EncodeError {
    pub fn message(&self) -> (m: String)
        ensures
            m@ == "bytecode too large"@,
    {
        string_of("bytecode too large")
    }
}

#[derive(Debug, Clone, Copy, PartialEq, Eq, Structural)]
pub enum DecodeError {
    UnexpectedEof,
    BadMagic,
    UnsupportedVersion(u8, u8),
    InvalidUtf8,
}

// ── Encoding ─────────────────────────────────────────────────────────────────

/// `v` as two little-endian bytes.
pub open spec fn le16(v: u16) -> Seq<u8> {
    seq![(v % 256) as u8, (v / 256) as u8]
}

/// `v` as four little-endian bytes.
pub open spec fn le32(v: u32) -> Seq<u8> {
    seq![
        (v % 256) as u8,
        ((v / 256) % 256) as u8,
        ((v / 65536) % 256) as u8,
        (v / 16777216) as u8,
    ]
}

/// A length-prefixed UTF-8 string (the length is taken mod 2^16).
pub open spec fn str_field(s: Seq<char>) -> Seq<u8> {
    le16(encode_utf8(s).len() as u16) + encode_utf8(s)
}

pub open spec fn entry_field(e: ConstValueV) -> Seq<u8> {
    match e {
        ConstValueV::Str(s) => seq![0u8] + str_field(s),
        ConstValueV::Name(s) => seq![1u8] + str_field(s),
    }
}

pub open spec fn entries_field(es: Seq<ConstValueV>) -> Seq<u8>
    decreases es.len(),
{
    if es.len() == 0 {
        seq![]
    } else {
        entries_field(es.drop_last()) + entry_field(es.last())
    }
}

pub open spec fn flags_byte(f: BcFnV) -> u8 {
    ((if f.is_export { 1int } else { 0int }) + (if f.is_async { 2int } else { 0int })) as u8
}

pub open spec fn fn_field(f: BcFnV) -> Seq<u8> {
    le16(f.name_idx) + seq![f.param_count] + le16(f.local_count) + seq![flags_byte(f)] + le32(
        f.code.len() as u32,
    ) + f.code
}

pub open spec fn fns_field(fs: Seq<BcFnV>) -> Seq<u8>
    decreases fs.len(),
{
    if fs.len() == 0 {
        seq![]
    } else {
        fns_field(fs.drop_last()) + fn_field(fs.last())
    }
}

pub open spec fn magic_bytes() -> Seq<u8> {
    seq![0x53u8, 0x45u8, 0x4Cu8, 0x56u8, 0x52u8, 0x01u8]
}

/// The encoding of a module.
pub open spec fn encode_spec(m: BytecodeModuleV) -> Seq<u8> {
    magic_bytes() + seq![0u8, 1u8] + str_field(m.source) + m.src_hash + le16(
        m.pool.len() as u16,
    ) + entries_field(m.pool) + le16(m.fns.len() as u16) + fns_field(m.fns)
}

pub(crate) fn push_u16(buf: &mut Vec<u8>, v: u16)
    ensures
        final(buf)@ == old(buf)@ + le16(v),
{
    buf.push((v % 256) as u8);
    buf.push((v / 256) as u8);
    assert(final(buf)@ =~= old(buf)@ + le16(v));
}

pub(crate) fn push_u32(buf: &mut Vec<u8>, v: u32)
    ensures
        final(buf)@ == old(buf)@ + le32(v),
{
    buf.push((v % 256) as u8);
    buf.push(((v / 256) % 256) as u8);
    buf.push(((v / 65536) % 256) as u8);
    buf.push((v / 16777216) as u8);
    assert(final(buf)@ =~= old(buf)@ + le32(v));
}

pub(crate) fn push_bytes(buf: &mut Vec<u8>, bytes: &[u8])
    ensures
        final(buf)@ == old(buf)@ + bytes@,
{
    let ghost start = buf@;
    let mut i: usize = 0;
    while i < bytes.len()
        invariant
            i <= bytes@.len(),
            buf@ == start + bytes@.subrange(0, i as int),
        decreases bytes.len() - i,
    {
        buf.push(bytes[i]);
        assert(bytes@.subrange(0, i + 1) =~= bytes@.subrange(0, i as int).push(bytes@[i as int]));
        i = i + 1;
    }
    assert(bytes@.subrange(0, i as int) =~= bytes@);
}

fn write_str(buf: &mut Vec<u8>, s: &str)
    ensures
        final(buf)@ == old(buf)@ + str_field(s@),
{
    let bytes = s.as_bytes();
    let len = #[verifier::truncate] (bytes.len() as u16);
    push_u16(buf, len);
    push_bytes(buf, bytes);
    assert(final(buf)@ =~= old(buf)@ + str_field(s@));
}

/// Encodes a module.  Never fails; lengths wider than their fields wrap.
pub fn encode(m: &BytecodeModule) -> (r: Result<Vec<u8>, EncodeError>)
    ensures
        r matches Ok(b) && b@ == encode_spec(m@),
{
    let mut buf: Vec<u8> = Vec::new();
    let magic = MAGIC;
    push_bytes(&mut buf, &magic);
    assert(magic@ =~= magic_bytes());
    buf.push(VERSION.0);
    buf.push(VERSION.1);
    write_str(&mut buf, m.source.as_str());
    push_bytes(&mut buf, &m.src_hash);
    let pool_len = #[verifier::truncate] (m.const_pool.entries.len() as u16);
    push_u16(&mut buf, pool_len);
    let ghost head = buf@;
    let mut i: usize = 0;
    while i < m.const_pool.entries.len()
        invariant
            i <= m.const_pool@.len(),
            buf@ == head + entries_field(m.const_pool@.subrange(0, i as int)),
        decreases m.const_pool.entries.len() - i,
    {
        let ghost before = buf@;
        match &m.const_pool.entries[i] {
            ConstValue::Str(s) => {
                buf.push(0u8);
                write_str(&mut buf, s.as_str());
            },
            ConstValue::Name(s) => {
                buf.push(1u8);
                write_str(&mut buf, s.as_str());
            },
        }
        proof {
            let es = m.const_pool@.subrange(0, i + 1);
            assert(es.drop_last() =~= m.const_pool@.subrange(0, i as int));
            assert(es.last() == m.const_pool.entries@[i as int]@);
            assert(buf@ =~= before + entry_field(es.last()));
        }
        i = i + 1;
    }
    assert(m.const_pool@.subrange(0, i as int) =~= m.const_pool@);
    let fn_len = #[verifier::truncate] (m.fns.len() as u16);
    push_u16(&mut buf, fn_len);
    let ghost head2 = buf@;
    let ghost fs = m@.fns;
    let mut j: usize = 0;
    while j < m.fns.len()
        invariant
            j <= fs.len(),
            fs == m@.fns,
            buf@ == head2 + fns_field(fs.subrange(0, j as int)),
        decreases m.fns.len() - j,
    {
        let ghost before = buf@;
        let f = &m.fns[j];
        push_u16(&mut buf, f.name_idx);
        buf.push(f.param_count);
        push_u16(&mut buf, f.local_count);
        let flags: u8 = (if f.is_export { 1u8 } else { 0u8 }) + (if f.is_async { 2u8 } else { 0u8 });
        buf.push(flags);
        let code_len = #[verifier::truncate] (f.code.len() as u32);
        push_u32(&mut buf, code_len);
        push_bytes(&mut buf, f.code.as_slice());
        proof {
            let sub = fs.subrange(0, j + 1);
            assert(sub.drop_last() =~= fs.subrange(0, j as int));
            assert(sub.last() == f@);
            assert(buf@ =~= before + fn_field(f@));
        }
        j = j + 1;
    }
    assert(fs.subrange(0, j as int) =~= fs);
    assert(buf@ =~= encode_spec(m@));
    Ok(buf)
}

// ── Decoding ─────────────────────────────────────────────────────────────────

pub open spec fn rd_u8(d: Seq<u8>, p: int) -> Result<(u8, int), DecodeError> {
    if 0 <= p < d.len() {
        Ok((d[p], p + 1))
    } else {
        Err(DecodeError::UnexpectedEof)
    }
}

pub open spec fn rd_bytes(d: Seq<u8>, p: int, n: int) -> Result<(Seq<u8>, int), DecodeError> {
    if 0 <= p && 0 <= n && p + n <= d.len() {
        Ok((d.subrange(p, p + n), p + n))
    } else {
        Err(DecodeError::UnexpectedEof)
    }
}

pub open spec fn rd_u16(d: Seq<u8>, p: int) -> Result<(u16, int), DecodeError> {
    if 0 <= p && p + 2 <= d.len() {
        Ok(((d[p] + 256 * d[p + 1]) as u16, p + 2))
    } else {
        Err(DecodeError::UnexpectedEof)
    }
}

pub open spec fn rd_u32(d: Seq<u8>, p: int) -> Result<(u32, int), DecodeError> {
    if 0 <= p && p + 4 <= d.len() {
        Ok(
            ((d[p] + 256 * d[p + 1] + 65536 * d[p + 2] + 16777216 * d[p + 3]) as u32, p + 4),
        )
    } else {
        Err(DecodeError::UnexpectedEof)
    }
}

pub open spec fn rd_str(d: Seq<u8>, p: int) -> Result<(Seq<char>, int), DecodeError> {
    match rd_u16(d, p) {
        Err(e) => Err(e),
        Ok((n, p1)) => match rd_bytes(d, p1, n as int) {
            Err(e) => Err(e),
            Ok((b, p2)) => if valid_utf8(b) {
                Ok((decode_utf8(b), p2))
            } else {
                Err(DecodeError::InvalidUtf8)
            },
        },
    }
}

/// One pool entry: a zero tag is a string, any other a name.
pub open spec fn rd_entry(d: Seq<u8>, p: int) -> Result<(ConstValueV, int), DecodeError> {
    match rd_u8(d, p) {
        Err(e) => Err(e),
        Ok((tag, p1)) => match rd_str(d, p1) {
            Err(e) => Err(e),
            Ok((s, p2)) => Ok(
                (if tag == 0 { ConstValueV::Str(s) } else { ConstValueV::Name(s) }, p2),
            ),
        },
    }
}

pub open spec fn rd_entries(d: Seq<u8>, p: int, n: nat) -> Result<
    (Seq<ConstValueV>, int),
    DecodeError,
>
    decreases n,
{
    if n == 0 {
        Ok((seq![], p))
    } else {
        match rd_entry(d, p) {
            Err(e) => Err(e),
            Ok((e, p1)) => match rd_entries(d, p1, (n - 1) as nat) {
                Err(err) => Err(err),
                Ok((rest, p2)) => Ok((seq![e] + rest, p2)),
            },
        }
    }
}

/// One function record; flag bits other than the two defined are ignored.
pub open spec fn rd_fn(d: Seq<u8>, p: int) -> Result<(BcFnV, int), DecodeError> {
    match rd_u16(d, p) {
        Err(e) => Err(e),
        Ok((name_idx, p1)) => match rd_u8(d, p1) {
            Err(e) => Err(e),
            Ok((param_count, p2)) => match rd_u16(d, p2) {
                Err(e) => Err(e),
                Ok((local_count, p3)) => match rd_u8(d, p3) {
                    Err(e) => Err(e),
                    Ok((flags, p4)) => match rd_u32(d, p4) {
                        Err(e) => Err(e),
                        Ok((code_len, p5)) => match rd_bytes(d, p5, code_len as int) {
                            Err(e) => Err(e),
                            Ok((code, p6)) => Ok(
                                (
                                    BcFnV {
                                        name_idx,
                                        param_count,
                                        local_count,
                                        code,
                                        is_export: flags % 2 == 1,
                                        is_async: (flags / 2) % 2 == 1,
                                    },
                                    p6,
                                ),
                            ),
                        },
                    },
                },
            },
        },
    }
}

pub open spec fn rd_fns(d: Seq<u8>, p: int, n: nat) -> Result<(Seq<BcFnV>, int), DecodeError>
    decreases n,
{
    if n == 0 {
        Ok((seq![], p))
    } else {
        match rd_fn(d, p) {
            Err(e) => Err(e),
            Ok((f, p1)) => match rd_fns(d, p1, (n - 1) as nat) {
                Err(err) => Err(err),
                Ok((rest, p2)) => Ok((seq![f] + rest, p2)),
            },
        }
    }
}

/// What decoding `d` gives: the module, or the first error met reading it
/// front to back.  Bytes after the last function are ignored.
pub open spec fn decode_spec(d: Seq<u8>) -> Result<BytecodeModuleV, DecodeError> {
    match rd_bytes(d, 0, 6) {
        Err(e) => Err(e),
        Ok((magic, p0)) => if magic != magic_bytes() {
            Err(DecodeError::BadMagic)
        } else {
            match rd_u8(d, p0) {
                Err(e) => Err(e),
                Ok((major, p1)) => match rd_u8(d, p1) {
                    Err(e) => Err(e),
                    Ok((minor, p2)) => if major != 0 {
                        Err(DecodeError::UnsupportedVersion(major, minor))
                    } else {
                        match rd_str(d, p2) {
                            Err(e) => Err(e),
                            Ok((source, p3)) => match rd_bytes(d, p3, 32) {
                                Err(e) => Err(e),
                                Ok((src_hash, p4)) => match rd_u16(d, p4) {
                                    Err(e) => Err(e),
                                    Ok((pc, p5)) => match rd_entries(d, p5, pc as nat) {
                                        Err(e) => Err(e),
                                        Ok((pool, p6)) => match rd_u16(d, p6) {
                                            Err(e) => Err(e),
                                            Ok((fc, p7)) => match rd_fns(d, p7, fc as nat) {
                                                Err(e) => Err(e),
                                                Ok((fns, _p8)) => Ok(
                                                    BytecodeModuleV { pool, fns, source, src_hash },
                                                ),
                                            },
                                        },
                                    },
                                },
                            },
                        }
                    },
                },
            }
        },
    }
}

/// An executable read result agrees with its specification.
pub open spec fn agrees<T>(r: Result<(T, usize), DecodeError>, s: Result<(T, int), DecodeError>) -> bool {
    match r {
        Ok((v, p)) => s == Ok::<(T, int), DecodeError>((v, p as int)),
        Err(e) => s == Err::<(T, int), DecodeError>(e),
    }
}

fn read_u8(data: &[u8], pos: usize) -> (r: Result<(u8, usize), DecodeError>)
    ensures
        agrees(r, rd_u8(data@, pos as int)),
{
    if pos < data.len() {
        Ok((data[pos], pos + 1))
    } else {
        Err(DecodeError::UnexpectedEof)
    }
}

fn read_u16(data: &[u8], pos: usize) -> (r: Result<(u16, usize), DecodeError>)
    ensures
        agrees(r, rd_u16(data@, pos as int)),
{
    if pos <= data.len() && 2 <= data.len() - pos {
        let v: u16 = data[pos] as u16 + 256 * (data[pos + 1] as u16);
        Ok((v, pos + 2))
    } else {
        Err(DecodeError::UnexpectedEof)
    }
}

fn read_u32(data: &[u8], pos: usize) -> (r: Result<(u32, usize), DecodeError>)
    ensures
        agrees(r, rd_u32(data@, pos as int)),
{
    if pos <= data.len() && 4 <= data.len() - pos {
        let v: u32 = data[pos] as u32 + 256 * (data[pos + 1] as u32) + 65536 * (
        data[pos + 2] as u32) + 16777216 * (data[pos + 3] as u32);
        Ok((v, pos + 4))
    } else {
        Err(DecodeError::UnexpectedEof)
    }
}

fn read_bytes(data: &[u8], pos: usize, n: usize) -> (r: Result<(Vec<u8>, usize), DecodeError>)
    ensures
        match r {
            Ok((b, p)) => rd_bytes(data@, pos as int, n as int) == Ok::<(Seq<u8>, int), DecodeError>((b@, p as int)),
            Err(e) => rd_bytes(data@, pos as int, n as int) == Err::<(Seq<u8>, int), DecodeError>(e),
        },
{
    if pos <= data.len() && n <= data.len() - pos {
        let mut out: Vec<u8> = Vec::new();
        let mut i: usize = 0;
        while i < n
            invariant
                i <= n,
                n <= data.len() - pos,
                pos <= data.len(),
                out@ == data@.subrange(pos as int, pos + i),
            decreases n - i,
        {
            out.push(data[pos + i]);
            assert(data@.subrange(pos as int, pos + i + 1) =~= data@.subrange(pos as int, pos + i).push(data@[pos + i]));
            i = i + 1;
        }
        Ok((out, pos + n))
    } else {
        Err(DecodeError::UnexpectedEof)
    }
}

/// Wraps `std::str::from_utf8` (then copies into a `String`): `Some`
/// exactly when the bytes are valid UTF-8, holding the text they encode.
#[verifier::external_body]
fn utf8_to_string(bytes: &[u8]) -> (r: Option<String>)
    ensures
        r is Some <==> valid_utf8(bytes@),
        r matches Some(s) ==> s@ == decode_utf8(bytes@),
{
    match std::str::from_utf8(bytes) {
        Ok(s) => Some(s.to_string()),
        Err(_) => None,
    }
}

fn read_str(data: &[u8], pos: usize) -> (r: Result<(String, usize), DecodeError>)
    ensures
        match r {
            Ok((s, p)) => rd_str(data@, pos as int) == Ok::<(Seq<char>, int), DecodeError>((s@, p as int)),
            Err(e) => rd_str(data@, pos as int) == Err::<(Seq<char>, int), DecodeError>(e),
        },
{
    let (len, p1) = read_u16(data, pos)?;
    let (bytes, p2) = read_bytes(data, p1, len as usize)?;
    match utf8_to_string(bytes.as_slice()) {
        Some(s) => Ok((s, p2)),
        None => Err(DecodeError::InvalidUtf8),
    }
}

fn read_entry(data: &[u8], pos: usize) -> (r: Result<(ConstValue, usize), DecodeError>)
    ensures
        match r {
            Ok((e, p)) => rd_entry(data@, pos as int) == Ok::<(ConstValueV, int), DecodeError>((e@, p as int)),
            Err(err) => rd_entry(data@, pos as int) == Err::<(ConstValueV, int), DecodeError>(err),
        },
{
    let (tag, p1) = read_u8(data, pos)?;
    let (s, p2) = read_str(data, p1)?;
    Ok((if tag == 0 { ConstValue::Str(s) } else { ConstValue::Name(s) }, p2))
}

fn read_entries(data: &[u8], pos: usize, n: u16) -> (r: Result<(ConstPool, usize), DecodeError>)
    ensures
        match r {
            Ok((pool, p)) => rd_entries(data@, pos as int, n as nat) == Ok::<(Seq<ConstValueV>, int), DecodeError>((pool@, p as int)),
            Err(err) => rd_entries(data@, pos as int, n as nat) == Err::<(Seq<ConstValueV>, int), DecodeError>(err),
        },
{
    let ghost d = data@;
    let mut pool = ConstPool::new();
    let mut p = pos;
    let mut i: u16 = 0;
    while i < n
        invariant
            i <= n,
            d == data@,
            rd_entries(d, pos as int, n as nat) == match rd_entries(d, p as int, (n - i) as nat) {
                Err(e) => Err(e),
                Ok((rest, q)) => Ok::<(Seq<ConstValueV>, int), DecodeError>((pool@ + rest, q)),
            },
        decreases n - i,
    {
        let ghost before = pool@;
        let ghost rest_n = (n - i) as nat;
        let (e, q) = match read_entry(data, p) {
            Ok(x) => x,
            Err(err) => {
                assert(rd_entries(d, p as int, rest_n) == Err::<(Seq<ConstValueV>, int), DecodeError>(err));
                return Err(err);
            },
        };
        pool.entries.push(e);
        proof {
            let ev = pool.entries@.last()@;
            assert(pool@ =~= before.push(ev));
            match rd_entries(d, q as int, (rest_n - 1) as nat) {
                Err(err) => {},
                Ok((rest, q2)) => {
                    assert(before + (seq![ev] + rest) =~= pool@ + rest);
                },
            }
        }
        p = q;
        i = i + 1;
    }
    assert(pool@ + Seq::<ConstValueV>::empty() =~= pool@);
    Ok((pool, p))
}

fn read_fn(data: &[u8], pos: usize) -> (r: Result<(BcFn, usize), DecodeError>)
    ensures
        match r {
            Ok((f, p)) => rd_fn(data@, pos as int) == Ok::<(BcFnV, int), DecodeError>((f@, p as int)),
            Err(err) => rd_fn(data@, pos as int) == Err::<(BcFnV, int), DecodeError>(err),
        },
{
    let (name_idx, p1) = read_u16(data, pos)?;
    let (param_count, p2) = read_u8(data, p1)?;
    let (local_count, p3) = read_u16(data, p2)?;
    let (flags, p4) = read_u8(data, p3)?;
    let (code_len, p5) = read_u32(data, p4)?;
    let (code, p6) = read_bytes(data, p5, code_len as usize)?;
    let f = BcFn {
        name_idx,
        param_count,
        local_count,
        code,
        is_export: flags % 2 != 0,
        is_async: (flags / 2) % 2 != 0,
    };
    Ok((f, p6))
}

fn read_fns(data: &[u8], pos: usize, n: u16) -> (r: Result<(Vec<BcFn>, usize), DecodeError>)
    ensures
        match r {
            Ok((fs, p)) => rd_fns(data@, pos as int, n as nat) == Ok::<(Seq<BcFnV>, int), DecodeError>((fs@.map_values(|f: BcFn| f@), p as int)),
            Err(err) => rd_fns(data@, pos as int, n as nat) == Err::<(Seq<BcFnV>, int), DecodeError>(err),
        },
{
    let ghost d = data@;
    let mut fns: Vec<BcFn> = Vec::new();
    let mut p = pos;
    let mut i: u16 = 0;
    while i < n
        invariant
            i <= n,
            d == data@,
            rd_fns(d, pos as int, n as nat) == match rd_fns(d, p as int, (n - i) as nat) {
                Err(e) => Err(e),
                Ok((rest, q)) => Ok::<(Seq<BcFnV>, int), DecodeError>((fns@.map_values(|f: BcFn| f@) + rest, q)),
            },
        decreases n - i,
    {
        let ghost before = fns@.map_values(|f: BcFn| f@);
        let ghost rest_n = (n - i) as nat;
        let (f, q) = match read_fn(data, p) {
            Ok(x) => x,
            Err(err) => {
                assert(rd_fns(d, p as int, rest_n) == Err::<(Seq<BcFnV>, int), DecodeError>(err));
                return Err(err);
            },
        };
        fns.push(f);
        proof {
            let fv = fns@.last()@;
            assert(fns@.map_values(|f: BcFn| f@) =~= before.push(fv));
            match rd_fns(d, q as int, (rest_n - 1) as nat) {
                Err(err) => {},
                Ok((rest, q2)) => {
                    assert(before + (seq![fv] + rest) =~= fns@.map_values(|f: BcFn| f@) + rest);
                },
            }
        }
        p = q;
        i = i + 1;
    }
    assert(fns@.map_values(|f: BcFn| f@) + Seq::<BcFnV>::empty() =~= fns@.map_values(|f: BcFn| f@));
    Ok((fns, p))
}

/// Decodes a module written by [`encode`].
pub fn decode(data: &[u8]) -> (r: Result<BytecodeModule, DecodeError>)
    ensures
        match r {
            Ok(m) => decode_spec(data@) == Ok::<BytecodeModuleV, DecodeError>(m@),
            Err(e) => decode_spec(data@) == Err::<BytecodeModuleV, DecodeError>(e),
        },
{
    let (magic, p0) = read_bytes(data, 0, 6)?;
    if !(magic[0] == 0x53 && magic[1] == 0x45 && magic[2] == 0x4C && magic[3] == 0x56
        && magic[4] == 0x52 && magic[5] == 0x01) {
        proof {
            if magic@ == magic_bytes() {
                assert(magic@[0] == 0x53);
            }
        }
        return Err(DecodeError::BadMagic);
    }
    assert(magic@ =~= magic_bytes());
    let (major, p1) = read_u8(data, p0)?;
    let (minor, p2) = read_u8(data, p1)?;
    if major != VERSION.0 {
        return Err(DecodeError::UnsupportedVersion(major, minor));
    }
    let (source, p3) = read_str(data, p2)?;
    let (hash_bytes, p4) = read_bytes(data, p3, 32)?;
    let mut src_hash = [0u8; 32];
    let mut k: usize = 0;
    while k < 32
        invariant
            hash_bytes@.len() == 32,
            k <= 32,
            forall|t: int| 0 <= t < k ==> src_hash@[t] == hash_bytes@[t],
        decreases 32 - k,
    {
        src_hash.set(k, hash_bytes[k]);
        k = k + 1;
    }
    assert(src_hash@ =~= hash_bytes@);
    let (pool_count, p5) = read_u16(data, p4)?;
    let (const_pool, p6) = read_entries(data, p5, pool_count)?;
    let (fn_count, p7) = read_u16(data, p6)?;
    let (fns, _p8) = read_fns(data, p7, fn_count)?;
    Ok(BytecodeModule { const_pool, fns, source, src_hash })
}

// ── Round trip ───────────────────────────────────────────────────────────────

/// `b` stands in `d` at position `p`.
pub open spec fn at(d: Seq<u8>, p: int, b: Seq<u8>) -> bool {
    &&& 0 <= p
    &&& p + b.len() <= d.len()
    &&& d.subrange(p, p + b.len()) == b
}

/// Every length that the format stores in a fixed-width field fits it.
pub open spec fn fits(m: BytecodeModuleV) -> bool {
    &&& encode_utf8(m.source).len() < 0x10000
    &&& m.src_hash.len() == 32
    &&& m.pool.len() < 0x10000
    &&& (forall|i: int| 0 <= i < m.pool.len() ==> encode_utf8(#[trigger] m.pool[i].text()).len() < 0x10000)
    &&& m.fns.len() < 0x10000
    &&& (forall|i: int| 0 <= i < m.fns.len() ==> (#[trigger] m.fns[i]).code.len() < 0x1_0000_0000)
}

proof fn lemma_at_split(d: Seq<u8>, p: int, a: Seq<u8>, b: Seq<u8>)
    requires
        at(d, p, a + b),
    ensures
        at(d, p, a),
        at(d, p + a.len(), b),
{
    let ab = a + b;
    let s = d.subrange(p, p + ab.len());
    assert(s == ab);
    assert(d.subrange(p, p + a.len()) =~= s.subrange(0, a.len() as int));
    assert(s.subrange(0, a.len() as int) =~= a);
    assert(d.subrange(p + a.len(), p + a.len() + b.len()) =~= s.subrange(a.len() as int, ab.len() as int));
    assert(s.subrange(a.len() as int, ab.len() as int) =~= b);
}

proof fn lemma_rd_u8(d: Seq<u8>, p: int, x: u8)
    requires
        at(d, p, seq![x]),
    ensures
        rd_u8(d, p) == Ok::<(u8, int), DecodeError>((x, p + 1)),
{
    assert(d[p] == d.subrange(p, p + 1)[0]);
}

proof fn lemma_rd_bytes(d: Seq<u8>, p: int, b: Seq<u8>)
    requires
        at(d, p, b),
    ensures
        rd_bytes(d, p, b.len() as int) == Ok::<(Seq<u8>, int), DecodeError>((b, p + b.len())),
{
}

proof fn lemma_rd_u16(d: Seq<u8>, p: int, v: u16)
    requires
        at(d, p, le16(v)),
    ensures
        rd_u16(d, p) == Ok::<(u16, int), DecodeError>((v, p + 2)),
{
    assert(d[p] == d.subrange(p, p + 2)[0]);
    assert(d[p + 1] == d.subrange(p, p + 2)[1]);
    assert((v % 256) + 256 * (v / 256) == v) by (nonlinear_arith);
}

proof fn lemma_rd_u32(d: Seq<u8>, p: int, v: u32)
    requires
        at(d, p, le32(v)),
    ensures
        rd_u32(d, p) == Ok::<(u32, int), DecodeError>((v, p + 4)),
{
    let s = d.subrange(p, p + 4);
    assert(d[p] == s[0] && d[p + 1] == s[1] && d[p + 2] == s[2] && d[p + 3] == s[3]);
    let x = v as int;
    assert(x % 256 + 256 * ((x / 256) % 256) + 65536 * ((x / 65536) % 256) + 16777216 * (x / 16777216) == x)
        by (nonlinear_arith)
        requires 0 <= x < 0x1_0000_0000;
}

proof fn lemma_rd_str(d: Seq<u8>, p: int, s: Seq<char>)
    requires
        at(d, p, str_field(s)),
        encode_utf8(s).len() < 0x10000,
    ensures
        rd_str(d, p) == Ok::<(Seq<char>, int), DecodeError>((s, p + str_field(s).len())),
{
    let b = encode_utf8(s);
    lemma_at_split(d, p, le16(b.len() as u16), b);
    lemma_rd_u16(d, p, b.len() as u16);
    lemma_rd_bytes(d, p + 2, b);
}

proof fn lemma_rd_entry(d: Seq<u8>, p: int, e: ConstValueV)
    requires
        at(d, p, entry_field(e)),
        encode_utf8(e.text()).len() < 0x10000,
    ensures
        rd_entry(d, p) == Ok::<(ConstValueV, int), DecodeError>((e, p + entry_field(e).len())),
{
    match e {
        ConstValueV::Str(s) => {
            lemma_at_split(d, p, seq![0u8], str_field(s));
            lemma_rd_u8(d, p, 0u8);
            lemma_rd_str(d, p + 1, s);
        },
        ConstValueV::Name(s) => {
            lemma_at_split(d, p, seq![1u8], str_field(s));
            lemma_rd_u8(d, p, 1u8);
            lemma_rd_str(d, p + 1, s);
        },
    }
}

proof fn lemma_entries_front(es: Seq<ConstValueV>)
    requires
        es.len() > 0,
    ensures
        entries_field(es) == entry_field(es[0]) + entries_field(es.drop_first()),
    decreases es.len(),
{
    if es.len() == 1 {
        assert(es.drop_last() =~= Seq::<ConstValueV>::empty());
        assert(es.drop_first() =~= Seq::<ConstValueV>::empty());
        assert(entries_field(es) =~= entry_field(es[0]) + entries_field(es.drop_first()));
    } else {
        lemma_entries_front(es.drop_last());
        assert(es.drop_last().drop_first() =~= es.drop_first().drop_last());
        assert(es.drop_first().last() == es.last());
        assert(entries_field(es) =~= entry_field(es[0]) + entries_field(es.drop_first()));
    }
}

proof fn lemma_rd_entries(d: Seq<u8>, p: int, es: Seq<ConstValueV>)
    requires
        at(d, p, entries_field(es)),
        forall|i: int| 0 <= i < es.len() ==> encode_utf8(#[trigger] es[i].text()).len() < 0x10000,
    ensures
        rd_entries(d, p, es.len()) == Ok::<(Seq<ConstValueV>, int), DecodeError>((es, p + entries_field(es).len())),
    decreases es.len(),
{
    if es.len() > 0 {
        lemma_entries_front(es);
        let rest = es.drop_first();
        lemma_at_split(d, p, entry_field(es[0]), entries_field(rest));
        lemma_rd_entry(d, p, es[0]);
        assert forall|i: int| 0 <= i < rest.len() implies encode_utf8(#[trigger] rest[i].text()).len() < 0x10000 by {
            assert(rest[i] == es[i + 1]);
        }
        let p1 = p + entry_field(es[0]).len();
        lemma_rd_entries(d, p1, rest);
        assert(seq![es[0]] + rest =~= es);
        assert(rest.len() == (es.len() - 1) as nat);
        assert(rd_entries(d, p, es.len()) == match rd_entries(d, p1, rest.len()) {
            Err(err) => Err(err),
            Ok((r, p2)) => Ok::<(Seq<ConstValueV>, int), DecodeError>((seq![es[0]] + r, p2)),
        });
    } else {
        assert(es =~= Seq::<ConstValueV>::empty());
    }
}

proof fn lemma_rd_fn(d: Seq<u8>, p: int, f: BcFnV)
    requires
        at(d, p, fn_field(f)),
        f.code.len() < 0x1_0000_0000,
    ensures
        rd_fn(d, p) == Ok::<(BcFnV, int), DecodeError>((f, p + fn_field(f).len())),
{
    let a = le16(f.name_idx);
    let b = seq![f.param_count];
    let c = le16(f.local_count);
    let fl = seq![flags_byte(f)];
    let l = le32(f.code.len() as u32);
    assert(fn_field(f) == a + b + c + fl + l + f.code);
    lemma_at_split(d, p, a + b + c + fl + l, f.code);
    lemma_at_split(d, p, a + b + c + fl, l);
    lemma_at_split(d, p, a + b + c, fl);
    lemma_at_split(d, p, a + b, c);
    lemma_at_split(d, p, a, b);
    lemma_rd_u16(d, p, f.name_idx);
    lemma_rd_u8(d, p + 2, f.param_count);
    lemma_rd_u16(d, p + 3, f.local_count);
    lemma_rd_u8(d, p + 5, flags_byte(f));
    lemma_rd_u32(d, p + 6, f.code.len() as u32);
    lemma_rd_bytes(d, p + 10, f.code);
}

proof fn lemma_fns_front(fs: Seq<BcFnV>)
    requires
        fs.len() > 0,
    ensures
        fns_field(fs) == fn_field(fs[0]) + fns_field(fs.drop_first()),
    decreases fs.len(),
{
    if fs.len() == 1 {
        assert(fs.drop_last() =~= Seq::<BcFnV>::empty());
        assert(fs.drop_first() =~= Seq::<BcFnV>::empty());
        assert(fns_field(fs) =~= fn_field(fs[0]) + fns_field(fs.drop_first()));
    } else {
        lemma_fns_front(fs.drop_last());
        assert(fs.drop_last().drop_first() =~= fs.drop_first().drop_last());
        assert(fs.drop_first().last() == fs.last());
        assert(fns_field(fs) =~= fn_field(fs[0]) + fns_field(fs.drop_first()));
    }
}

proof fn lemma_rd_fns(d: Seq<u8>, p: int, fs: Seq<BcFnV>)
    requires
        at(d, p, fns_field(fs)),
        forall|i: int| 0 <= i < fs.len() ==> (#[trigger] fs[i]).code.len() < 0x1_0000_0000,
    ensures
        rd_fns(d, p, fs.len()) == Ok::<(Seq<BcFnV>, int), DecodeError>((fs, p + fns_field(fs).len())),
    decreases fs.len(),
{
    if fs.len() > 0 {
        lemma_fns_front(fs);
        let rest = fs.drop_first();
        lemma_at_split(d, p, fn_field(fs[0]), fns_field(rest));
        lemma_rd_fn(d, p, fs[0]);
        assert forall|i: int| 0 <= i < rest.len() implies (#[trigger] rest[i]).code.len() < 0x1_0000_0000 by {
            assert(rest[i] == fs[i + 1]);
        }
        let p1 = p + fn_field(fs[0]).len();
        lemma_rd_fns(d, p1, rest);
        assert(seq![fs[0]] + rest =~= fs);
        assert(rest.len() == (fs.len() - 1) as nat);
        assert(rd_fns(d, p, fs.len()) == match rd_fns(d, p1, rest.len()) {
            Err(err) => Err(err),
            Ok((r, p2)) => Ok::<(Seq<BcFnV>, int), DecodeError>((seq![fs[0]] + r, p2)),
        });
    } else {
        assert(fs =~= Seq::<BcFnV>::empty());
    }
}

/// Decoding what [`encode`] wrote gives the module back, whenever every
/// length fits the field that stores it.
#[verifier::spinoff_prover]
#[verifier::rlimit(100)]
pub proof fn lemma_decode_encode(m: BytecodeModuleV)
    requires
        fits(m),
    ensures
        decode_spec(encode_spec(m)) == Ok::<BytecodeModuleV, DecodeError>(m),
{
    let d = encode_spec(m);
    let h = magic_bytes();
    let v = seq![0u8, 1u8];
    let src = str_field(m.source);
    let pc = le16(m.pool.len() as u16);
    let pool = entries_field(m.pool);
    let fc = le16(m.fns.len() as u16);
    let fns = fns_field(m.fns);
    let a6 = h + v + src + m.src_hash + pc + pool;
    assert(d.subrange(0, d.len() as int) =~= d);
    lemma_at_split(d, 0, a6 + fc, fns);
    lemma_at_split(d, 0, a6, fc);
    lemma_at_split(d, 0, h + v + src + m.src_hash + pc, pool);
    lemma_at_split(d, 0, h + v + src + m.src_hash, pc);
    lemma_at_split(d, 0, h + v + src, m.src_hash);
    lemma_at_split(d, 0, h + v, src);
    lemma_at_split(d, 0, h, v);
    assert(seq![0u8] + seq![1u8] =~= v);
    lemma_at_split(d, 6, seq![0u8], seq![1u8]);
    lemma_rd_bytes(d, 0, h);
    lemma_rd_u8(d, 6, 0u8);
    lemma_rd_u8(d, 7, 1u8);
    lemma_rd_str(d, 8, m.source);
    let p3: int = 8 + src.len() as int;
    lemma_rd_bytes(d, p3, m.src_hash);
    let p4: int = p3 + 32;
    lemma_rd_u16(d, p4, m.pool.len() as u16);
    assert((m.pool.len() as u16) as nat == m.pool.len());
    lemma_rd_entries(d, p4 + 2, m.pool);
    let p6: int = p4 + 2 + pool.len() as int;
    lemma_rd_u16(d, p6, m.fns.len() as u16);
    assert((m.fns.len() as u16) as nat == m.fns.len());
    lemma_rd_fns(d, p6 + 2, m.fns);
    assert(rd_bytes(d, 0, 6) == Ok::<(Seq<u8>, int), DecodeError>((h, 6)));
    assert(rd_str(d, 8) == Ok::<(Seq<char>, int), DecodeError>((m.source, p3)));
    assert(rd_bytes(d, p3, 32) == Ok::<(Seq<u8>, int), DecodeError>((m.src_hash, p4)));
    assert(rd_entries(d, p4 + 2, m.pool.len() as u16 as nat) == Ok::<(Seq<ConstValueV>, int), DecodeError>((m.pool, p6)));
    assert(rd_fns(d, p6 + 2, m.fns.len() as u16 as nat) == Ok::<(Seq<BcFnV>, int), DecodeError>((m.fns, p6 + 2 + fns.len())));
}

} // verus!
