use vstd::prelude::*;
use vstd::string::StrSliceExecFns;
use vstd::utf8::decode_utf8;
use vstd::utf8::encode_utf8;
use vstd::utf8::encode_utf8_decode_utf8;
use vstd::utf8::encode_utf8_valid_utf8;
use vstd::utf8::valid_utf8;

use crate::crypt::string_from_utf8;
use crate::crypt::copy_range;
use crate::scan::ResultKind;
use crate::scan::ResultModel;
use crate::scan::ScanResult;

verus! {

/// The largest UTF-8 encoding of a single string field a result frame will
/// hold. Three such fields plus headers stay far below the cipher's
/// plaintext limit.
pub const MAX_FIELD_LEN: usize = 0x100_0000;

/// The byte tag of a result kind.
pub open spec fn kind_byte(k: ResultKind) -> u8 {
    match k {
        ResultKind::Log => 0,
        ResultKind::Alarm => 1,
        ResultKind::Error => 2,
    }
}

/// The eight little-endian bytes of a 64-bit value.
pub open spec fn le8(n: u64) -> Seq<u8> {
    seq![
        (n & 0xff) as u8,
        ((n >> 8) & 0xff) as u8,
        ((n >> 16) & 0xff) as u8,
        ((n >> 24) & 0xff) as u8,
        ((n >> 32) & 0xff) as u8,
        ((n >> 40) & 0xff) as u8,
        ((n >> 48) & 0xff) as u8,
        ((n >> 56) & 0xff) as u8,
    ]
}

/// The 64-bit value of eight little-endian bytes.
pub open spec fn le8_val(b: Seq<u8>) -> u64
    recommends
        b.len() == 8,
{
    (b[0] as u64) | ((b[1] as u64) << 8) | ((b[2] as u64) << 16) | ((b[3] as u64) << 24) | ((
    b[4] as u64) << 32) | ((b[5] as u64) << 40) | ((b[6] as u64) << 48) | ((b[7] as u64) << 56)
}

/// Reading back the eight little-endian bytes of a value yields the value.
pub proof fn lemma_le8_roundtrip(n: u64)
    ensures
        le8_val(le8(n)) == n,
{
    assert((((n & 0xff) as u8) as u64) | ((((n >> 8) & 0xff) as u8) as u64) << 8 | ((((n >> 16)
        & 0xff) as u8) as u64) << 16 | ((((n >> 24) & 0xff) as u8) as u64) << 24 | ((((n >> 32)
        & 0xff) as u8) as u64) << 32 | ((((n >> 40) & 0xff) as u8) as u64) << 40 | ((((n >> 48)
        & 0xff) as u8) as u64) << 48 | ((((n >> 56) & 0xff) as u8) as u64) << 56 == n)
        by (bit_vector);
}

/// The encoding of an optional port: an absence byte, or a presence byte
/// followed by the port value.
pub open spec fn enc_opt_port(p: Option<u16>) -> Seq<u8> {
    match p {
        None => seq![0u8],
        Some(v) => seq![1u8] + le8(v as u64),
    }
}

/// The encoding of an optional string: an absence byte, or a presence byte
/// followed by the length and the UTF-8 bytes.
pub open spec fn enc_opt_str(o: Option<Seq<char>>) -> Seq<u8> {
    match o {
        None => seq![0u8],
        Some(s) => seq![1u8] + le8(encode_utf8(s).len() as u64) + encode_utf8(s),
    }
}

/// A string field small enough for a result frame.
pub open spec fn str_fits(o: Option<Seq<char>>) -> bool {
    match o {
        None => true,
        Some(s) => encode_utf8(s).len() <= MAX_FIELD_LEN,
    }
}

/// Every string field of the result is small enough for a frame.
pub open spec fn result_fits(m: ResultModel) -> bool {
    str_fits(m.message) && str_fits(m.host) && str_fits(m.oid)
}

/// The byte encoding of a result. The identifier is not part of it: a
/// result's identifier is its position in the log.
pub open spec fn spec_encode_result(m: ResultModel) -> Seq<u8> {
    seq![kind_byte(m.kind)] + enc_opt_port(m.port) + enc_opt_str(m.message) + enc_opt_str(m.host)
        + enc_opt_str(m.oid)
}

/// The result kind of a byte tag.
pub open spec fn dec_kind(b: u8) -> Option<ResultKind> {
    if b == 0 {
        Some(ResultKind::Log)
    } else if b == 1 {
        Some(ResultKind::Alarm)
    } else if b == 2 {
        Some(ResultKind::Error)
    } else {
        None
    }
}

/// Parses an optional port at `off`; yields the port and the offset after it.
pub open spec fn parse_port(b: Seq<u8>, off: int) -> Option<(Option<u16>, int)> {
    if 0 <= off < b.len() {
        if b[off] == 0 {
            Some((None, off + 1))
        } else if b[off] == 1 {
            if off + 9 <= b.len() {
                let v = le8_val(b.subrange(off + 1, off + 9));
                if v <= u16::MAX as u64 {
                    Some((Some(v as u16), off + 9))
                } else {
                    None
                }
            } else {
                None
            }
        } else {
            None
        }
    } else {
        None
    }
}

/// Parses an optional string at `off`; yields the characters and the offset
/// after them.
pub open spec fn parse_str(b: Seq<u8>, off: int) -> Option<(Option<Seq<char>>, int)> {
    if 0 <= off < b.len() {
        if b[off] == 0 {
            Some((None, off + 1))
        } else if b[off] == 1 {
            if off + 9 <= b.len() {
                let n = le8_val(b.subrange(off + 1, off + 9)) as int;
                if off + 9 + n <= b.len() {
                    let seg = b.subrange(off + 9, off + 9 + n);
                    if valid_utf8(seg) {
                        Some((Some(decode_utf8(seg)), off + 9 + n))
                    } else {
                        None
                    }
                } else {
                    None
                }
            } else {
                None
            }
        } else {
            None
        }
    } else {
        None
    }
}

/// The fields a result frame decodes to, in encoding order.
pub open spec fn spec_decode_result(b: Seq<u8>) -> Option<
    (ResultKind, Option<u16>, Option<Seq<char>>, Option<Seq<char>>, Option<Seq<char>>),
> {
    if b.len() >= 1 {
        match dec_kind(b[0]) {
            Some(k) => match parse_port(b, 1) {
                Some((port, o1)) => match parse_str(b, o1) {
                    Some((msg, o2)) => match parse_str(b, o2) {
                        Some((host, o3)) => match parse_str(b, o3) {
                            Some((oid, o4)) => if o4 == b.len() {
                                Some((k, port, msg, host, oid))
                            } else {
                                None
                            },
                            None => None,
                        },
                        None => None,
                    },
                    None => None,
                },
                None => None,
            },
            None => None,
        }
    } else {
        None
    }
}

/// `b` holds the bytes of `e` starting at `off`.
pub open spec fn holds_at(b: Seq<u8>, off: int, e: Seq<u8>) -> bool {
    0 <= off && off + e.len() <= b.len() && b.subrange(off, off + e.len()) == e
}

/// Parsing a port where its encoding was laid down recovers the port.
proof fn lemma_parse_port_enc(b: Seq<u8>, off: int, p: Option<u16>)
    requires
        holds_at(b, off, enc_opt_port(p)),
    ensures
        parse_port(b, off) == Some((p, off + enc_opt_port(p).len())),
{
    let e = enc_opt_port(p);
    assert forall|k: int| 0 <= k < e.len() implies b[off + k] == e[k] by {
        assert(b.subrange(off, off + e.len())[k] == b[off + k]);
    }
    assert(b[off] == e[0]);
    match p {
        None => {},
        Some(v) => {
            assert forall|i: int| 0 <= i < 8 implies #[trigger] b.subrange(off + 1, off + 9)[i]
                == le8(v as u64)[i] by {
                assert(b[off + 1 + i] == e[1 + i]);
            }
            assert(b.subrange(off + 1, off + 9) =~= le8(v as u64));
            lemma_le8_roundtrip(v as u64);
        },
    }
}

/// Parsing a string where its encoding was laid down recovers the string.
proof fn lemma_parse_str_enc(b: Seq<u8>, off: int, o: Option<Seq<char>>)
    requires
        holds_at(b, off, enc_opt_str(o)),
        str_fits(o),
    ensures
        parse_str(b, off) == Some((o, off + enc_opt_str(o).len())),
{
    let e = enc_opt_str(o);
    assert forall|k: int| 0 <= k < e.len() implies b[off + k] == e[k] by {
        assert(b.subrange(off, off + e.len())[k] == b[off + k]);
    }
    assert(b[off] == e[0]);
    match o {
        None => {},
        Some(s) => {
            let bytes = encode_utf8(s);
            let n = bytes.len() as u64;
            assert forall|i: int| 0 <= i < 8 implies #[trigger] b.subrange(off + 1, off + 9)[i]
                == le8(n)[i] by {
                assert(b[off + 1 + i] == e[1 + i]);
            }
            assert(b.subrange(off + 1, off + 9) =~= le8(n));
            lemma_le8_roundtrip(n);
            assert forall|i: int| 0 <= i < n as int implies #[trigger] b.subrange(
                off + 9,
                off + 9 + n as int,
            )[i] == bytes[i] by {
                assert(b[off + 9 + i] == e[9 + i]);
            }
            assert(b.subrange(off + 9, off + 9 + n as int) =~= bytes);
            encode_utf8_valid_utf8(s);
            encode_utf8_decode_utf8(s);
        },
    }
}

/// Decoding the encoding of a result recovers its fields.
pub proof fn lemma_result_codec_roundtrip(m: ResultModel)
    requires
        result_fits(m),
    ensures
        spec_decode_result(spec_encode_result(m)) == Some(
            (m.kind, m.port, m.message, m.host, m.oid),
        ),
{
    let b = spec_encode_result(m);
    let e0: Seq<u8> = seq![kind_byte(m.kind)];
    let e1 = enc_opt_port(m.port);
    let e2 = enc_opt_str(m.message);
    let e3 = enc_opt_str(m.host);
    let e4 = enc_opt_str(m.oid);
    assert(b[0] == kind_byte(m.kind));
    let o1 = 1 + e1.len() as int;
    let o2 = o1 + e2.len() as int;
    let o3 = o2 + e3.len() as int;
    let o4 = o3 + e4.len() as int;
    assert(b.subrange(1, o1) =~= e1);
    assert(b.subrange(o1, o2) =~= e2);
    assert(b.subrange(o2, o3) =~= e3);
    assert(b.subrange(o3, o4) =~= e4);
    lemma_parse_port_enc(b, 1, m.port);
    lemma_parse_str_enc(b, o1, m.message);
    lemma_parse_str_enc(b, o2, m.host);
    lemma_parse_str_enc(b, o3, m.oid);
    assert(o4 == b.len());
}

/// Appends the eight little-endian bytes of a value.
pub fn write_le8(v: &mut Vec<u8>, n: u64)
    ensures
        final(v)@ == old(v)@ + le8(n),
{
    proof {
        assert((n & 0xff) < 256 && ((n >> 8) & 0xff) < 256 && ((n >> 16) & 0xff) < 256 && ((n
            >> 24) & 0xff) < 256 && ((n >> 32) & 0xff) < 256 && ((n >> 40) & 0xff) < 256 && ((n
            >> 48) & 0xff) < 256 && ((n >> 56) & 0xff) < 256) by (bit_vector);
    }
    v.push((n & 0xff) as u8);
    v.push(((n >> 8) & 0xff) as u8);
    v.push(((n >> 16) & 0xff) as u8);
    v.push(((n >> 24) & 0xff) as u8);
    v.push(((n >> 32) & 0xff) as u8);
    v.push(((n >> 40) & 0xff) as u8);
    v.push(((n >> 48) & 0xff) as u8);
    v.push(((n >> 56) & 0xff) as u8);
    proof {
        assert(final(v)@ =~= old(v)@ + le8(n));
    }
}

/// Appends the encoding of an optional string field, unless the field is
/// too long for a frame.
fn write_opt_str(v: &mut Vec<u8>, o: &Option<String>) -> (ok: bool)
    ensures
        ok ==> final(v)@ == old(v)@ + enc_opt_str(o.deep_view()) && str_fits(o.deep_view()),
        !ok ==> final(v)@ == old(v)@ && !str_fits(o.deep_view()),
{
    match o {
        None => {
            v.push(0);
            proof {
                assert(final(v)@ =~= old(v)@ + enc_opt_str(None));
            }
            true
        },
        Some(s) => {
            let mut bytes = s.as_str().as_bytes_vec();
            if bytes.len() > MAX_FIELD_LEN {
                return false;
            }
            let ghost b0 = bytes@;
            v.push(1);
            write_le8(v, bytes.len() as u64);
            v.append(&mut bytes);
            proof {
                assert(final(v)@ =~= old(v)@ + (seq![1u8] + le8(b0.len() as u64) + b0));
            }
            true
        },
    }
}

/// Encodes a result into the bytes of one frame. Fails exactly when one of
/// its string fields is too long for a frame. The result's identifier is not
/// encoded: it is the result's position in the log.
pub fn encode_result(r: &ScanResult) -> (res: Option<Vec<u8>>)
    ensures
        res matches Some(v) ==> v@ == spec_encode_result(r@) && result_fits(r@),
        res is None ==> !result_fits(r@),
{
    let mut v: Vec<u8> = Vec::new();
    match r.kind {
        ResultKind::Log => v.push(0),
        ResultKind::Alarm => v.push(1),
        ResultKind::Error => v.push(2),
    }
    match r.port {
        None => v.push(0),
        Some(p) => {
            v.push(1);
            write_le8(&mut v, p as u64);
        },
    }
    proof {
        assert(v@ =~= seq![kind_byte(r@.kind)] + enc_opt_port(r@.port));
    }
    if !write_opt_str(&mut v, &r.message) {
        return None;
    }
    if !write_opt_str(&mut v, &r.host) {
        return None;
    }
    if !write_opt_str(&mut v, &r.oid) {
        return None;
    }
    proof {
        assert(v@ =~= spec_encode_result(r@));
    }
    Some(v)
}

/// Reads the eight little-endian bytes at `off`.
fn read_le8(bytes: &[u8], off: usize) -> (r: u64)
    requires
        off + 8 <= bytes@.len(),
    ensures
        r == le8_val(bytes@.subrange(off as int, off as int + 8)),
{
    let r = (bytes[off] as u64) | ((bytes[off + 1] as u64) << 8) | ((bytes[off + 2] as u64) << 16)
        | ((bytes[off + 3] as u64) << 24) | ((bytes[off + 4] as u64) << 32) | ((bytes[off
        + 5] as u64) << 40) | ((bytes[off + 6] as u64) << 48) | ((bytes[off + 7] as u64) << 56);
    proof {
        let s = bytes@.subrange(off as int, off as int + 8);
        assert(s[0] == bytes@[off as int] && s[1] == bytes@[off as int + 1] && s[2] == bytes@[
            off as int + 2] && s[3] == bytes@[off as int + 3] && s[4] == bytes@[off as int + 4]
            && s[5] == bytes@[off as int + 5] && s[6] == bytes@[off as int + 6] && s[7] == bytes@[
            off as int + 7]);
    }
    r
}

/// Reads an optional port at `off`.
fn read_port(bytes: &[u8], off: usize) -> (r: Option<(Option<u16>, usize)>)
    ensures
        match parse_port(bytes@, off as int) {
            Some(v) => r matches Some(x) && x.0 == v.0 && x.1 == v.1,
            None => r is None,
        },
{
    if off >= bytes.len() {
        return None;
    }
    let flag = bytes[off];
    if flag == 0 {
        return Some((None, off + 1));
    }
    if flag != 1 {
        return None;
    }
    if bytes.len() - off < 9 {
        return None;
    }
    let v = read_le8(bytes, off + 1);
    if v > u16::MAX as u64 {
        return None;
    }
    Some((Some(v as u16), off + 9))
}

/// Reads an optional string at `off`.
fn read_str(bytes: &[u8], off: usize) -> (r: Option<(Option<String>, usize)>)
    ensures
        match parse_str(bytes@, off as int) {
            Some(v) => r matches Some(x) && x.0.deep_view() == v.0 && x.1 == v.1,
            None => r is None,
        },
{
    if off >= bytes.len() {
        return None;
    }
    let flag = bytes[off];
    if flag == 0 {
        return Some((None, off + 1));
    }
    if flag != 1 {
        return None;
    }
    if bytes.len() - off < 9 {
        return None;
    }
    let n64 = read_le8(bytes, off + 1);
    let rem = bytes.len() - (off + 9);
    if n64 > rem as u64 {
        return None;
    }
    let n = n64 as usize;
    let seg = copy_range(bytes, off + 9, off + 9 + n);
    let ghost seg0 = seg@;
    match string_from_utf8(seg) {
        Some(s) => {
            proof {
                encode_utf8_valid_utf8(s@);
                encode_utf8_decode_utf8(s@);
            }
            Some((Some(s), off + 9 + n))
        },
        None => None,
    }
}

/// Decodes the bytes of one frame into a result carrying the given
/// identifier. Succeeds exactly on byte runs that are the encoding of a
/// result.
pub fn decode_result(bytes: &[u8], id: usize) -> (r: Option<ScanResult>)
    ensures
        match spec_decode_result(bytes@) {
            Some(f) => r matches Some(x) && x@ == (ResultModel {
                id: id as int,
                kind: f.0,
                port: f.1,
                message: f.2,
                host: f.3,
                oid: f.4,
            }),
            None => r is None,
        },
{
    if bytes.len() < 1 {
        return None;
    }
    let kb = bytes[0];
    let kind = if kb == 0 {
        ResultKind::Log
    } else if kb == 1 {
        ResultKind::Alarm
    } else if kb == 2 {
        ResultKind::Error
    } else {
        return None;
    };
    let (port, o1) = match read_port(bytes, 1) {
        Some(x) => x,
        None => {
            return None;
        },
    };
    let (message, o2) = match read_str(bytes, o1) {
        Some(x) => x,
        None => {
            return None;
        },
    };
    let (host, o3) = match read_str(bytes, o2) {
        Some(x) => x,
        None => {
            return None;
        },
    };
    let (oid, o4) = match read_str(bytes, o3) {
        Some(x) => x,
        None => {
            return None;
        },
    };
    if o4 != bytes.len() {
        return None;
    }
    Some(ScanResult { id, kind, message, host, port, oid })
}

} // verus!
