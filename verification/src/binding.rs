//! Shared wire format of the binding headers carried inside envelope payloads:
//! `[body_len:u32le][body_crc32c:u32le][body]`, where the body is a sequence of
//! little-endian integers and `[len:u16le][utf8 bytes]` strings.

use vstd::bytes::{
    spec_u16_from_le_bytes, spec_u16_to_le_bytes, spec_u32_from_le_bytes, spec_u32_to_le_bytes,
    spec_u64_from_le_bytes, spec_u64_to_le_bytes, u16_from_le_bytes, u16_to_le_bytes,
    u32_from_le_bytes, u32_to_le_bytes, u64_from_le_bytes,
};
use vstd::prelude::*;
use vstd::slice::slice_subrange;
use vstd::utf8::{decode_utf8, encode_utf8, valid_utf8};

use crate::checksum::{crc32c, crc32c_checksum};
use crate::envelope::{corrupt, corrupt_envelope};
use crate::errors::{ViError, ViErrorView};
use crate::text::{extend_bytes, utf8_str};

verus! {

/// Number of bytes in `[binding_len:u32le][binding_crc32c:u32le]`.
pub const KEY_BINDING_PREFIX_LEN: usize = 8;

// ----------------------------------------------------------------------------
// The wire format, as spec functions.

/// A length-prefixed UTF-8 string.
pub open spec fn lp_string(s: Seq<char>) -> Seq<u8> {
    spec_u16_to_le_bytes(encode_utf8(s).len() as u16) + encode_utf8(s)
}

/// Whether a string's UTF-8 bytes fit a `u16` length prefix.
pub open spec fn fits_u16(s: Seq<char>) -> bool {
    encode_utf8(s).len() <= 0xffff
}

/// The error that refuses a string too long for its length prefix.
pub open spec fn string_too_long(field: Seq<char>) -> ViErrorView {
    ViErrorView::Input {
        arg: field,
        reason: "string exceeds u16 length prefix"@,
        detail: None,
    }
}

/// A binding body framed by its length and checksum.
pub open spec fn framed(body: Seq<u8>) -> Seq<u8> {
    spec_u32_to_le_bytes(body.len() as u32) + spec_u32_to_le_bytes(crc32c_checksum(body)) + body
}

/// The body length announced by a binding prefix.
pub open spec fn frame_len(bytes: Seq<u8>) -> int {
    spec_u32_from_le_bytes(bytes.subrange(0, 4)) as int
}

/// The body that a binding prefix announces.
pub open spec fn frame_body(bytes: Seq<u8>) -> Seq<u8> {
    bytes.subrange(8, 8 + frame_len(bytes))
}

/// Checks of the binding prefix, given the checksum of the announced body:
/// the body and the end offset of the binding, or the error.
pub open spec fn unframe(envelope: Seq<char>, bytes: Seq<u8>, body_crc: u32) -> Result<
    (Seq<u8>, usize),
    ViErrorView,
> {
    if bytes.len() < 8 {
        Err(corrupt(envelope, bytes.len() as int, "binding header shorter than 8-byte prefix"@))
    } else if 8 + frame_len(bytes) > usize::MAX {
        Err(corrupt(envelope, 8, "binding header length overflows"@))
    } else if 8 + frame_len(bytes) > bytes.len() {
        Err(corrupt(envelope, 8, "binding header length overruns payload"@))
    } else if body_crc != spec_u32_from_le_bytes(bytes.subrange(4, 8)) {
        Err(corrupt(envelope, 4, "binding_crc32 mismatch"@))
    } else {
        Ok((frame_body(bytes), (8 + frame_len(bytes)) as usize))
    }
}

/// Reading `len` bytes of `body` at `off`: the bytes and the next offset.
pub open spec fn rd_bytes(envelope: Seq<char>, body: Seq<u8>, off: int, len: int, reason: Seq<char>) -> Result<
    (Seq<u8>, int),
    ViErrorView,
> {
    if off + len > usize::MAX {
        Err(corrupt(envelope, off, "binding header offset overflows"@))
    } else if off + len > body.len() {
        Err(corrupt(envelope, off, reason))
    } else {
        Ok((body.subrange(off, off + len), off + len))
    }
}

/// Reading a byte.
pub open spec fn rd_u8(envelope: Seq<char>, body: Seq<u8>, off: int) -> Result<(u8, int), ViErrorView> {
    match rd_bytes(envelope, body, off, 1, "u8 field overruns binding header"@) {
        Ok((b, o)) => Ok((b[0], o)),
        Err(e) => Err(e),
    }
}

/// Reading a little-endian `u16`.
pub open spec fn rd_u16(envelope: Seq<char>, body: Seq<u8>, off: int) -> Result<(u16, int), ViErrorView> {
    match rd_bytes(envelope, body, off, 2, "u16 field overruns binding header"@) {
        Ok((b, o)) => Ok((spec_u16_from_le_bytes(b), o)),
        Err(e) => Err(e),
    }
}

/// Reading a little-endian `u32`.
pub open spec fn rd_u32(envelope: Seq<char>, body: Seq<u8>, off: int) -> Result<(u32, int), ViErrorView> {
    match rd_bytes(envelope, body, off, 4, "u32 field overruns binding header"@) {
        Ok((b, o)) => Ok((spec_u32_from_le_bytes(b), o)),
        Err(e) => Err(e),
    }
}

/// Reading a little-endian `u64`.
pub open spec fn rd_u64(envelope: Seq<char>, body: Seq<u8>, off: int) -> Result<(u64, int), ViErrorView> {
    match rd_bytes(envelope, body, off, 8, "u64 field overruns binding header"@) {
        Ok((b, o)) => Ok((spec_u64_from_le_bytes(b), o)),
        Err(e) => Err(e),
    }
}

/// Reading a length-prefixed UTF-8 string.
pub open spec fn rd_string(envelope: Seq<char>, body: Seq<u8>, off: int) -> Result<
    (Seq<char>, int),
    ViErrorView,
> {
    match rd_u16(envelope, body, off) {
        Err(e) => Err(e),
        Ok((len, o)) => match rd_bytes(
            envelope,
            body,
            o,
            len as int,
            "length-prefixed string overruns binding header"@,
        ) {
            Err(e) => Err(e),
            Ok((b, o2)) => if valid_utf8(b) {
                Ok((decode_utf8(b), o2))
            } else {
                Err(corrupt(envelope, o, "invalid UTF-8 string"@))
            },
        },
    }
}

/// Reading `n` little-endian `u32` values one after another.
pub open spec fn rd_u32s(envelope: Seq<char>, body: Seq<u8>, off: int, n: nat) -> Result<
    (Seq<u32>, int),
    ViErrorView,
>
    decreases n,
{
    if n == 0 {
        Ok((Seq::empty(), off))
    } else {
        match rd_u32s(envelope, body, off, (n - 1) as nat) {
            Err(e) => Err(e),
            Ok((xs, o)) => match rd_u32(envelope, body, o) {
                Err(e) => Err(e),
                Ok((x, o2)) => Ok((xs.push(x), o2)),
            },
        }
    }
}

/// Reading `n` length-prefixed strings one after another.
pub open spec fn rd_strings(envelope: Seq<char>, body: Seq<u8>, off: int, n: nat) -> Result<
    (Seq<Seq<char>>, int),
    ViErrorView,
>
    decreases n,
{
    if n == 0 {
        Ok((Seq::empty(), off))
    } else {
        match rd_strings(envelope, body, off, (n - 1) as nat) {
            Err(e) => Err(e),
            Ok((ss, o)) => match rd_string(envelope, body, o) {
                Err(e) => Err(e),
                Ok((s, o2)) => Ok((ss.push(s), o2)),
            },
        }
    }
}

/// Strings one after another, each with its length prefix.
pub open spec fn lp_strings(ss: Seq<Seq<char>>) -> Seq<u8>
    decreases ss.len(),
{
    if ss.len() == 0 {
        Seq::empty()
    } else {
        lp_strings(ss.drop_last()) + lp_string(ss.last())
    }
}

/// `u32` values one after another, little-endian.
pub open spec fn le_u32s(xs: Seq<u32>) -> Seq<u8>
    decreases xs.len(),
{
    if xs.len() == 0 {
        Seq::empty()
    } else {
        le_u32s(xs.drop_last()) + spec_u32_to_le_bytes(xs.last())
    }
}

/// Whether every string fits its length prefix.
pub open spec fn all_fit_u16(ss: Seq<Seq<char>>) -> bool {
    forall|i: int| 0 <= i < ss.len() ==> fits_u16(#[trigger] ss[i])
}

/// The check that a body has been read to its end.
pub open spec fn rd_finish(envelope: Seq<char>, body: Seq<u8>, off: int) -> Result<(), ViErrorView> {
    if off == body.len() {
        Ok(())
    } else {
        Err(corrupt(envelope, off, "trailing bytes in binding header"@))
    }
}

// ----------------------------------------------------------------------------
// Facts about the wire format.

/// Reading a string back from its length-prefixed encoding.
pub proof fn lemma_rd_string(envelope: Seq<char>, pre: Seq<u8>, s: Seq<char>, post: Seq<u8>)
    requires
        fits_u16(s),
        pre.len() + lp_string(s).len() <= usize::MAX,
    ensures
        rd_string(envelope, pre + lp_string(s) + post, pre.len() as int) == Ok::<
            (Seq<char>, int),
            ViErrorView,
        >((s, (pre.len() + lp_string(s).len()) as int)),
{
    let body = pre + lp_string(s) + post;
    let u = encode_utf8(s);
    let n = u.len() as u16;
    vstd::bytes::lemma_auto_spec_u16_to_from_le_bytes();
    vstd::utf8::encode_utf8_valid_utf8(s);
    vstd::utf8::encode_utf8_decode_utf8(s);
    let off = pre.len() as int;
    assert(body.subrange(off, off + 2) =~= spec_u16_to_le_bytes(n));
    assert(body.subrange(off + 2, off + 2 + n) =~= u);
}

/// Reading a `u16` back from its encoding.
pub proof fn lemma_rd_u16(envelope: Seq<char>, pre: Seq<u8>, v: u16, post: Seq<u8>)
    requires
        pre.len() + 2 <= usize::MAX,
    ensures
        rd_u16(envelope, pre + spec_u16_to_le_bytes(v) + post, pre.len() as int) == Ok::<
            (u16, int),
            ViErrorView,
        >((v, pre.len() + 2 as int)),
{
    vstd::bytes::lemma_auto_spec_u16_to_from_le_bytes();
    let body = pre + spec_u16_to_le_bytes(v) + post;
    assert(body.subrange(pre.len() as int, pre.len() + 2 as int) =~= spec_u16_to_le_bytes(v));
}

/// Reading a `u32` back from its encoding.
pub proof fn lemma_rd_u32(envelope: Seq<char>, pre: Seq<u8>, v: u32, post: Seq<u8>)
    requires
        pre.len() + 4 <= usize::MAX,
    ensures
        rd_u32(envelope, pre + spec_u32_to_le_bytes(v) + post, pre.len() as int) == Ok::<
            (u32, int),
            ViErrorView,
        >((v, pre.len() + 4 as int)),
{
    vstd::bytes::lemma_auto_spec_u32_to_from_le_bytes();
    let body = pre + spec_u32_to_le_bytes(v) + post;
    assert(body.subrange(pre.len() as int, pre.len() + 4 as int) =~= spec_u32_to_le_bytes(v));
}

/// Reading a `u64` back from its encoding.
pub proof fn lemma_rd_u64(envelope: Seq<char>, pre: Seq<u8>, v: u64, post: Seq<u8>)
    requires
        pre.len() + 8 <= usize::MAX,
    ensures
        rd_u64(envelope, pre + spec_u64_to_le_bytes(v) + post, pre.len() as int) == Ok::<
            (u64, int),
            ViErrorView,
        >((v, pre.len() + 8 as int)),
{
    vstd::bytes::lemma_auto_spec_u64_to_from_le_bytes();
    let body = pre + spec_u64_to_le_bytes(v) + post;
    assert(body.subrange(pre.len() as int, pre.len() + 8 as int) =~= spec_u64_to_le_bytes(v));
}

/// The length of strings with their prefixes.
pub proof fn lemma_lp_strings_len(ss: Seq<Seq<char>>)
    requires
        all_fit_u16(ss),
    ensures
        lp_strings(ss).len() <= ss.len() * (2 + 0xffff),
    decreases ss.len(),
{
    vstd::bytes::lemma_auto_spec_u16_to_from_le_bytes();
    if ss.len() > 0 {
        assert(fits_u16(ss[ss.len() - 1]));
        assert(all_fit_u16(ss.drop_last())) by {
            assert forall|i: int| 0 <= i < ss.drop_last().len() implies fits_u16(
                #[trigger] ss.drop_last()[i],
            ) by {
                assert(ss.drop_last()[i] == ss[i]);
            }
        }
        lemma_lp_strings_len(ss.drop_last());
        assert(lp_string(ss.last()).len() <= 2 + 0xffff);
        assert(lp_strings(ss).len() == lp_strings(ss.drop_last()).len() + lp_string(ss.last()).len());
        assert(ss.drop_last().len() * (2 + 0xffff) + (2 + 0xffff) == ss.len() * (2 + 0xffff)) by (nonlinear_arith)
            requires ss.drop_last().len() + 1 == ss.len();
    }
}

/// Reading strings back from their length-prefixed encodings.
pub proof fn lemma_rd_strings(envelope: Seq<char>, pre: Seq<u8>, ss: Seq<Seq<char>>, post: Seq<u8>)
    requires
        all_fit_u16(ss),
        pre.len() + lp_strings(ss).len() <= usize::MAX,
    ensures
        rd_strings(envelope, pre + lp_strings(ss) + post, pre.len() as int, ss.len()) == Ok::<
            (Seq<Seq<char>>, int),
            ViErrorView,
        >((ss, (pre.len() + lp_strings(ss).len()) as int)),
    decreases ss.len(),
{
    if ss.len() == 0 {
        assert(ss =~= Seq::<Seq<char>>::empty());
    } else {
        let init = ss.drop_last();
        let last = ss.last();
        assert(fits_u16(ss[ss.len() - 1]));
        assert(all_fit_u16(init)) by {
            assert forall|i: int| 0 <= i < init.len() implies fits_u16(#[trigger] init[i]) by {
                assert(init[i] == ss[i]);
            }
        }
        let body = pre + lp_strings(ss) + post;
        assert(body =~= pre + lp_strings(init) + (lp_string(last) + post));
        lemma_rd_strings(envelope, pre, init, lp_string(last) + post);
        assert(body =~= (pre + lp_strings(init)) + lp_string(last) + post);
        lemma_rd_string(envelope, pre + lp_strings(init), last, post);
        assert(init.push(last) =~= ss);
    }
}

/// The length of little-endian `u32` values.
pub proof fn lemma_le_u32s_len(xs: Seq<u32>)
    ensures
        le_u32s(xs).len() == 4 * xs.len(),
    decreases xs.len(),
{
    vstd::bytes::lemma_auto_spec_u32_to_from_le_bytes();
    if xs.len() > 0 {
        lemma_le_u32s_len(xs.drop_last());
    }
}

/// Reading `u32` values back from their encodings.
pub proof fn lemma_rd_u32s(envelope: Seq<char>, pre: Seq<u8>, xs: Seq<u32>, post: Seq<u8>)
    requires
        pre.len() + 4 * xs.len() <= usize::MAX,
    ensures
        rd_u32s(envelope, pre + le_u32s(xs) + post, pre.len() as int, xs.len()) == Ok::<
            (Seq<u32>, int),
            ViErrorView,
        >((xs, (pre.len() + 4 * xs.len()) as int)),
    decreases xs.len(),
{
    lemma_le_u32s_len(xs);
    if xs.len() == 0 {
        assert(xs =~= Seq::<u32>::empty());
    } else {
        let init = xs.drop_last();
        let last = xs.last();
        lemma_le_u32s_len(init);
        let body = pre + le_u32s(xs) + post;
        assert(body =~= pre + le_u32s(init) + (spec_u32_to_le_bytes(last) + post));
        lemma_rd_u32s(envelope, pre, init, spec_u32_to_le_bytes(last) + post);
        assert(body =~= (pre + le_u32s(init)) + spec_u32_to_le_bytes(last) + post);
        lemma_rd_u32(envelope, pre + le_u32s(init), last, post);
        assert(init.push(last) =~= xs);
    }
}

/// Once reading the first `k` values fails, reading more fails alike.
pub proof fn lemma_rd_u32s_err(envelope: Seq<char>, body: Seq<u8>, off: int, k: nat, n: nat)
    requires
        k <= n,
        rd_u32s(envelope, body, off, k) is Err,
    ensures
        rd_u32s(envelope, body, off, n) == rd_u32s(envelope, body, off, k),
    decreases n,
{
    if k < n {
        lemma_rd_u32s_err(envelope, body, off, k, (n - 1) as nat);
    }
}

/// Once reading the first `k` strings fails, reading more fails alike.
pub proof fn lemma_rd_strings_err(envelope: Seq<char>, body: Seq<u8>, off: int, k: nat, n: nat)
    requires
        k <= n,
        rd_strings(envelope, body, off, k) is Err,
    ensures
        rd_strings(envelope, body, off, n) == rd_strings(envelope, body, off, k),
    decreases n,
{
    if k < n {
        lemma_rd_strings_err(envelope, body, off, k, (n - 1) as nat);
    }
}

/// Unframing a framed body gives the body back.
pub proof fn lemma_unframe(envelope: Seq<char>, body: Seq<u8>, rest: Seq<u8>)
    requires
        8 + body.len() <= u32::MAX,
    ensures
        unframe(envelope, framed(body) + rest, crc32c_checksum(frame_body(framed(body) + rest)))
            == Ok::<(Seq<u8>, usize), ViErrorView>((body, (8 + body.len()) as usize)),
        frame_body(framed(body) + rest) == body,
{
    vstd::bytes::lemma_auto_spec_u32_to_from_le_bytes();
    let b = framed(body) + rest;
    assert(b.subrange(0, 4) =~= spec_u32_to_le_bytes(body.len() as u32));
    assert(b.subrange(4, 8) =~= spec_u32_to_le_bytes(crc32c_checksum(body)));
    assert(frame_body(b) =~= body);
}

// ----------------------------------------------------------------------------
// What a successful read consumed.

/// A successful `u8` read consumed exactly that byte.
pub proof fn lemma_rd_u8_inverse(envelope: Seq<char>, body: Seq<u8>, off: int)
    requires
        0 <= off,
        rd_u8(envelope, body, off) is Ok,
    ensures
        ({
            let (v, o) = rd_u8(envelope, body, off)->Ok_0;
            o == off + 1 && o <= body.len() && body.subrange(off, o) == seq![v]
        }),
{
    assert(body.subrange(off, off + 1) =~= seq![body.subrange(off, off + 1)[0]]);
}

/// A successful `u16` read consumed exactly that value's encoding.
pub proof fn lemma_rd_u16_inverse(envelope: Seq<char>, body: Seq<u8>, off: int)
    requires
        0 <= off,
        rd_u16(envelope, body, off) is Ok,
    ensures
        ({
            let (v, o) = rd_u16(envelope, body, off)->Ok_0;
            o == off + 2 && o <= body.len() && body.subrange(off, o) == spec_u16_to_le_bytes(v)
        }),
{
    vstd::bytes::lemma_auto_spec_u16_to_from_le_bytes();
    assert(body.subrange(off, off + 2).len() == 2);
}

/// A successful `u32` read consumed exactly that value's encoding.
pub proof fn lemma_rd_u32_inverse(envelope: Seq<char>, body: Seq<u8>, off: int)
    requires
        0 <= off,
        rd_u32(envelope, body, off) is Ok,
    ensures
        ({
            let (v, o) = rd_u32(envelope, body, off)->Ok_0;
            o == off + 4 && o <= body.len() && body.subrange(off, o) == spec_u32_to_le_bytes(v)
        }),
{
    vstd::bytes::lemma_auto_spec_u32_to_from_le_bytes();
    assert(body.subrange(off, off + 4).len() == 4);
}

/// A successful `u64` read consumed exactly that value's encoding.
pub proof fn lemma_rd_u64_inverse(envelope: Seq<char>, body: Seq<u8>, off: int)
    requires
        0 <= off,
        rd_u64(envelope, body, off) is Ok,
    ensures
        ({
            let (v, o) = rd_u64(envelope, body, off)->Ok_0;
            o == off + 8 && o <= body.len() && body.subrange(off, o) == spec_u64_to_le_bytes(v)
        }),
{
    vstd::bytes::lemma_auto_spec_u64_to_from_le_bytes();
    assert(body.subrange(off, off + 8).len() == 8);
}

/// A successful string read consumed exactly that string's length-prefixed
/// encoding, and the string fits its prefix.
pub proof fn lemma_rd_string_inverse(envelope: Seq<char>, body: Seq<u8>, off: int)
    requires
        0 <= off,
        rd_string(envelope, body, off) is Ok,
    ensures
        ({
            let (s, o) = rd_string(envelope, body, off)->Ok_0;
            off <= o <= body.len() && body.subrange(off, o) == lp_string(s) && fits_u16(s)
        }),
{
    lemma_rd_u16_inverse(envelope, body, off);
    vstd::bytes::lemma_auto_spec_u16_to_from_le_bytes();
    let (len, o1) = rd_u16(envelope, body, off)->Ok_0;
    let b = body.subrange(o1, o1 + len);
    vstd::utf8::decode_utf8_encode_utf8(b);
    let (s, o) = rd_string(envelope, body, off)->Ok_0;
    assert(encode_utf8(s) == b);
    assert(encode_utf8(s).len() as u16 == len);
    assert(body.subrange(off, o) =~= body.subrange(off, o1) + b);
}

/// Successful reads of strings consumed exactly their encodings.
pub proof fn lemma_rd_strings_inverse(envelope: Seq<char>, body: Seq<u8>, off: int, n: nat)
    requires
        0 <= off <= body.len(),
        rd_strings(envelope, body, off, n) is Ok,
    ensures
        ({
            let (ss, o) = rd_strings(envelope, body, off, n)->Ok_0;
            &&& ss.len() == n
            &&& off <= o <= body.len()
            &&& body.subrange(off, o) == lp_strings(ss)
            &&& all_fit_u16(ss)
        }),
    decreases n,
{
    if n == 0 {
        assert(body.subrange(off, off) =~= Seq::<u8>::empty());
    } else {
        lemma_rd_strings_inverse(envelope, body, off, (n - 1) as nat);
        let (ss, o) = rd_strings(envelope, body, off, (n - 1) as nat)->Ok_0;
        lemma_rd_string_inverse(envelope, body, o);
        let (s, o2) = rd_string(envelope, body, o)->Ok_0;
        assert(ss.push(s).drop_last() =~= ss);
        assert(body.subrange(off, o2) =~= body.subrange(off, o) + body.subrange(o, o2));
        assert forall|i: int| 0 <= i < ss.push(s).len() implies fits_u16(#[trigger] ss.push(s)[i]) by {
            if i < ss.len() {
                assert(ss.push(s)[i] == ss[i]);
            }
        }
    }
}

/// Successful reads of `u32` values consumed exactly their encodings.
pub proof fn lemma_rd_u32s_inverse(envelope: Seq<char>, body: Seq<u8>, off: int, n: nat)
    requires
        0 <= off <= body.len(),
        rd_u32s(envelope, body, off, n) is Ok,
    ensures
        ({
            let (xs, o) = rd_u32s(envelope, body, off, n)->Ok_0;
            &&& xs.len() == n
            &&& off <= o <= body.len()
            &&& body.subrange(off, o) == le_u32s(xs)
        }),
    decreases n,
{
    if n == 0 {
        assert(body.subrange(off, off) =~= Seq::<u8>::empty());
    } else {
        lemma_rd_u32s_inverse(envelope, body, off, (n - 1) as nat);
        let (xs, o) = rd_u32s(envelope, body, off, (n - 1) as nat)->Ok_0;
        lemma_rd_u32_inverse(envelope, body, o);
        let (x, o2) = rd_u32(envelope, body, o)->Ok_0;
        assert(xs.push(x).drop_last() =~= xs);
        assert(body.subrange(off, o2) =~= body.subrange(off, o) + body.subrange(o, o2));
    }
}

/// A binding prefix that checks out frames the body it announces: the bytes
/// read are exactly the framed body.
pub proof fn lemma_unframe_inverse(envelope: Seq<char>, bytes: Seq<u8>)
    requires
        unframe(envelope, bytes, crc32c_checksum(frame_body(bytes))) is Ok,
    ensures
        ({
            let (body, end) = unframe(envelope, bytes, crc32c_checksum(frame_body(bytes)))->Ok_0;
            &&& end <= bytes.len()
            &&& bytes.subrange(0, end as int) == framed(body)
            &&& 8 + body.len() <= u32::MAX + 8
        }),
{
    vstd::bytes::lemma_auto_spec_u32_to_from_le_bytes();
    let body = frame_body(bytes);
    let len = frame_len(bytes);
    assert(bytes.subrange(0, 4).len() == 4);
    assert(bytes.subrange(4, 8).len() == 4);
    assert(body.len() == len);
    assert(len as u32 == spec_u32_from_le_bytes(bytes.subrange(0, 4)));
    assert(spec_u32_to_le_bytes(body.len() as u32) == bytes.subrange(0, 4));
    assert(spec_u32_to_le_bytes(crc32c_checksum(body)) == bytes.subrange(4, 8));
    assert(bytes.subrange(0, 8 + len) =~= bytes.subrange(0, 4) + bytes.subrange(4, 8) + body);
}

// ----------------------------------------------------------------------------
// Executable reading and writing.

/// Cursor over a binding body.
pub(crate) struct BindingReader<'a> {
    pub(crate) envelope: &'static str,
    pub(crate) bytes: &'a [u8],
    pub(crate) offset: usize,
}

impl<'a> BindingReader<'a> {
    pub(crate) fn new(envelope: &'static str, bytes: &'a [u8]) -> (r: BindingReader<'a>)
        ensures
            r.envelope == envelope,
            r.bytes@ == bytes@,
            r.offset == 0,
    {
        BindingReader { envelope, bytes, offset: 0 }
    }

    pub(crate) fn read_exact(&mut self, len: usize, reason: &'static str) -> (r: Result<&'a [u8], ViError>)
        ensures
            final(self).envelope == old(self).envelope,
            final(self).bytes@ == old(self).bytes@,
            match rd_bytes(old(self).envelope@, old(self).bytes@, old(self).offset as int, len as int, reason@) {
                Ok((b, o)) => r matches Ok(s) && s@ == b && final(self).offset == o,
                Err(e) => r matches Err(x) && x@ == e,
            },
    {
        let end = match self.offset.checked_add(len) {
            Some(end) => end,
            None => {
                return Err(
                    corrupt_envelope(self.envelope, self.offset, "binding header offset overflows"),
                )
            },
        };
        if end > self.bytes.len() {
            return Err(corrupt_envelope(self.envelope, self.offset, reason));
        }
        let out = slice_subrange(self.bytes, self.offset, end);
        self.offset = end;
        Ok(out)
    }

    pub(crate) fn read_u8(&mut self) -> (r: Result<u8, ViError>)
        ensures
            final(self).envelope == old(self).envelope,
            final(self).bytes@ == old(self).bytes@,
            match rd_u8(old(self).envelope@, old(self).bytes@, old(self).offset as int) {
                Ok((v, o)) => r == Ok::<u8, ViError>(v) && final(self).offset == o,
                Err(e) => r matches Err(x) && x@ == e,
            },
    {
        match self.read_exact(1, "u8 field overruns binding header") {
            Ok(b) => Ok(b[0]),
            Err(e) => Err(e),
        }
    }

    pub(crate) fn read_u16(&mut self) -> (r: Result<u16, ViError>)
        ensures
            final(self).envelope == old(self).envelope,
            final(self).bytes@ == old(self).bytes@,
            match rd_u16(old(self).envelope@, old(self).bytes@, old(self).offset as int) {
                Ok((v, o)) => r == Ok::<u16, ViError>(v) && final(self).offset == o,
                Err(e) => r matches Err(x) && x@ == e,
            },
    {
        match self.read_exact(2, "u16 field overruns binding header") {
            Ok(b) => Ok(u16_from_le_bytes(b)),
            Err(e) => Err(e),
        }
    }

    pub(crate) fn read_u32(&mut self) -> (r: Result<u32, ViError>)
        ensures
            final(self).envelope == old(self).envelope,
            final(self).bytes@ == old(self).bytes@,
            match rd_u32(old(self).envelope@, old(self).bytes@, old(self).offset as int) {
                Ok((v, o)) => r == Ok::<u32, ViError>(v) && final(self).offset == o,
                Err(e) => r matches Err(x) && x@ == e,
            },
    {
        match self.read_exact(4, "u32 field overruns binding header") {
            Ok(b) => Ok(u32_from_le_bytes(b)),
            Err(e) => Err(e),
        }
    }

    pub(crate) fn read_u64(&mut self) -> (r: Result<u64, ViError>)
        ensures
            final(self).envelope == old(self).envelope,
            final(self).bytes@ == old(self).bytes@,
            match rd_u64(old(self).envelope@, old(self).bytes@, old(self).offset as int) {
                Ok((v, o)) => r == Ok::<u64, ViError>(v) && final(self).offset == o,
                Err(e) => r matches Err(x) && x@ == e,
            },
    {
        match self.read_exact(8, "u64 field overruns binding header") {
            Ok(b) => Ok(u64_from_le_bytes(b)),
            Err(e) => Err(e),
        }
    }

    pub(crate) fn read_string(&mut self) -> (r: Result<String, ViError>)
        ensures
            final(self).envelope == old(self).envelope,
            final(self).bytes@ == old(self).bytes@,
            match rd_string(old(self).envelope@, old(self).bytes@, old(self).offset as int) {
                Ok((v, o)) => r matches Ok(s) && s@ == v && final(self).offset == o,
                Err(e) => r matches Err(x) && x@ == e,
            },
    {
        let len = match self.read_u16() {
            Ok(len) => len,
            Err(e) => return Err(e),
        };
        let string_offset = self.offset;
        let bytes = match self.read_exact(len as usize, "length-prefixed string overruns binding header") {
            Ok(b) => b,
            Err(e) => return Err(e),
        };
        match utf8_str(bytes) {
            Some(s) => Ok(s.to_owned()),
            None => Err(corrupt_envelope(self.envelope, string_offset, "invalid UTF-8 string")),
        }
    }

    pub(crate) fn finish(&self) -> (r: Result<(), ViError>)
        ensures
            crate::errors::unit_outcome(r) == rd_finish(self.envelope@, self.bytes@, self.offset as int),
    {
        if self.offset == self.bytes.len() {
            Ok(())
        } else {
            Err(corrupt_envelope(self.envelope, self.offset, "trailing bytes in binding header"))
        }
    }
}

/// Append `value` to `bytes` as `[len:u16le][utf8 bytes]`.
pub(crate) fn write_string(bytes: &mut Vec<u8>, field: &str, value: &str) -> (r: Result<(), ViError>)
    ensures
        fits_u16(value@) ==> r is Ok && final(bytes)@ == old(bytes)@ + lp_string(value@),
        !fits_u16(value@) ==> (r matches Err(e) && e@ == string_too_long(field@)),
{
    let raw = value.as_bytes();
    if raw.len() > 0xffff {
        return Err(ViError::Input {
            arg: field.to_owned(),
            reason: "string exceeds u16 length prefix".to_owned(),
            detail: None,
        });
    }
    let len = raw.len() as u16;
    let le = u16_to_le_bytes(len);
    extend_bytes(bytes, le.as_slice());
    extend_bytes(bytes, raw);
    proof {
        assert(bytes@ =~= old(bytes)@ + lp_string(value@));
    }
    Ok(())
}

/// Frame a body as `[body_len:u32le][body_crc32c:u32le][body]`.
pub(crate) fn frame(body: &Vec<u8>) -> (out: Vec<u8>)
    requires
        body@.len() <= u32::MAX,
    ensures
        out@ == framed(body@),
{
    let crc = crc32c(body.as_slice());
    let mut out: Vec<u8> = Vec::new();
    let len = u32_to_le_bytes(body.len() as u32);
    extend_bytes(&mut out, len.as_slice());
    let c = u32_to_le_bytes(crc);
    extend_bytes(&mut out, c.as_slice());
    extend_bytes(&mut out, body.as_slice());
    out
}

/// Check the prefix of a binding header given the checksum of its body;
/// on success return the body and the end offset of the binding.
pub(crate) fn check_frame<'b>(envelope: &'static str, bytes: &'b [u8], body_crc: u32) -> (r: Result<
    (&'b [u8], usize),
    ViError,
>)
    ensures
        match unframe(envelope@, bytes@, body_crc) {
            Ok((body, end)) => r matches Ok((b, e)) && b@ == body && e == end,
            Err(err) => r matches Err(x) && x@ == err,
        },
{
    if bytes.len() < KEY_BINDING_PREFIX_LEN {
        return Err(corrupt_envelope(envelope, bytes.len(), "binding header shorter than 8-byte prefix"));
    }
    let body_len = u32_from_le_bytes(slice_subrange(bytes, 0, 4)) as usize;
    let expected_crc = u32_from_le_bytes(slice_subrange(bytes, 4, 8));
    let body_end = match KEY_BINDING_PREFIX_LEN.checked_add(body_len) {
        Some(end) => end,
        None => return Err(corrupt_envelope(envelope, KEY_BINDING_PREFIX_LEN, "binding header length overflows")),
    };
    if body_end > bytes.len() {
        return Err(corrupt_envelope(envelope, KEY_BINDING_PREFIX_LEN, "binding header length overruns payload"));
    }
    if body_crc != expected_crc {
        return Err(corrupt_envelope(envelope, 4, "binding_crc32 mismatch"));
    }
    Ok((slice_subrange(bytes, KEY_BINDING_PREFIX_LEN, body_end), body_end))
}

/// The checksum of the body that a binding prefix announces, where the
/// prefix is complete and the body lies within `bytes`; zero otherwise.
pub(crate) fn announced_body_crc(bytes: &[u8]) -> (c: u32)
    ensures
        bytes@.len() >= 8 && 8 + frame_len(bytes@) <= bytes@.len() ==> c == crc32c_checksum(frame_body(bytes@)),
{
    if bytes.len() < KEY_BINDING_PREFIX_LEN {
        return 0;
    }
    let body_len = u32_from_le_bytes(slice_subrange(bytes, 0, 4)) as usize;
    if body_len > bytes.len() - KEY_BINDING_PREFIX_LEN {
        return 0;
    }
    crc32c(slice_subrange(bytes, KEY_BINDING_PREFIX_LEN, KEY_BINDING_PREFIX_LEN + body_len))
}

/// The result of `unframe` does not depend on the checksum when the prefix
/// itself is refused.
pub proof fn lemma_unframe_crc_irrelevant(envelope: Seq<char>, bytes: Seq<u8>, c1: u32, c2: u32)
    requires
        !(bytes.len() >= 8 && 8 + frame_len(bytes) <= bytes.len()),
    ensures
        unframe(envelope, bytes, c1) == unframe(envelope, bytes, c2),
{
}

} // verus!
