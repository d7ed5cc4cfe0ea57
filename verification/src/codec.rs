//! The wire codec for [`NetworkData`] envelopes.
//!
//! A compact binary layout: one tag byte per variant, little-endian integers,
//! length-prefixed byte strings, and UTF-8 text. `dec_*` functions parse a
//! prefix of the input and return the value together with the unread rest, so
//! decoding tolerates trailing bytes in a datagram buffer. Every encoder has a
//! proved round-trip lemma, culminating in [`lemma_network_data_roundtrip`].

use vstd::arithmetic::div_mod::lemma_div_denominator;
use vstd::arithmetic::div_mod::lemma_fundamental_div_mod;
use vstd::arithmetic::div_mod::lemma_multiply_divide_lt;
use vstd::prelude::*;
use vstd::utf8::decode_utf8;
use vstd::utf8::encode_utf8;
use vstd::utf8::encode_utf8_decode_utf8;
use vstd::utf8::encode_utf8_valid_utf8;
use vstd::utf8::valid_utf8;

use crate::networked_transform::QuatFixed;
use crate::networked_transform::Transform;
use crate::networked_transform::Vec3Fixed;
use crate::FilePath;
use crate::InstantiationData;
use crate::InstantiationDataView;
use crate::NetworkData;
use crate::NetworkDataView;
use crate::NetworkId;
use crate::NetworkIdentity;
use crate::NetworkIdentityView;
use crate::SteamId;

verus! {

/// Length prefixes are 64-bit: a sequence longer than this cannot be framed.
pub open spec fn max_len() -> int {
    0x1_0000_0000_0000_0000
}

// ---------------------------------------------------------------------------
// Unsigned integers, little endian
// ---------------------------------------------------------------------------

pub open spec fn enc_u8(x: u8) -> Seq<u8> {
    seq![x]
}

pub open spec fn dec_u8(s: Seq<u8>) -> Option<(u8, Seq<u8>)> {
    if s.len() >= 1 {
        Some((s[0], s.skip(1)))
    } else {
        None
    }
}

pub proof fn lemma_u8_roundtrip(x: u8, rest: Seq<u8>)
    ensures
        dec_u8(enc_u8(x) + rest) == Some((x, rest)),
{
    assert((enc_u8(x) + rest).skip(1) =~= rest);
}

pub open spec fn enc_u32(x: u32) -> Seq<u8> {
    seq![
        (x as nat % 256) as u8,
        (x as nat / 256 % 256) as u8,
        (x as nat / 65536 % 256) as u8,
        (x as nat / 16777216 % 256) as u8,
    ]
}

/// The value of the first four bytes of `s`, read little endian.
pub open spec fn le4_val(s: Seq<u8>) -> int {
    s[0] + s[1] * 256 + s[2] * 65536 + s[3] * 16777216
}

pub open spec fn dec_u32(s: Seq<u8>) -> Option<(u32, Seq<u8>)> {
    if s.len() >= 4 {
        Some((le4_val(s) as u32, s.skip(4)))
    } else {
        None
    }
}

pub proof fn lemma_u32_roundtrip(x: u32, rest: Seq<u8>)
    ensures
        dec_u32(enc_u32(x) + rest) == Some((x, rest)),
{
    let s = enc_u32(x) + rest;
    let xi = x as int;
    lemma_fundamental_div_mod(xi, 256);
    lemma_div_denominator(xi, 256, 256);
    lemma_fundamental_div_mod(xi / 256, 256);
    lemma_div_denominator(xi, 65536, 256);
    lemma_fundamental_div_mod(xi / 65536, 256);
    lemma_multiply_divide_lt(xi, 16777216, 256);
    assert(le4_val(s) == xi);
    assert(s.skip(4) =~= rest);
}

pub open spec fn enc_u64(x: u64) -> Seq<u8> {
    enc_u32((x as nat % 0x1_0000_0000) as u32) + enc_u32((x as nat / 0x1_0000_0000) as u32)
}

pub open spec fn dec_u64(s: Seq<u8>) -> Option<(u64, Seq<u8>)> {
    match dec_u32(s) {
        Some((low, s1)) => match dec_u32(s1) {
            Some((high, s2)) => Some(((low + high * 0x1_0000_0000) as u64, s2)),
            None => None,
        },
        None => None,
    }
}

pub proof fn lemma_u64_roundtrip(x: u64, rest: Seq<u8>)
    ensures
        dec_u64(enc_u64(x) + rest) == Some((x, rest)),
{
    let xi = x as int;
    let low = (x as nat % 0x1_0000_0000) as u32;
    let high = (x as nat / 0x1_0000_0000) as u32;
    lemma_multiply_divide_lt(xi, 0x1_0000_0000, 0x1_0000_0000);
    assert(enc_u64(x) + rest =~= enc_u32(low) + (enc_u32(high) + rest));
    lemma_u32_roundtrip(low, enc_u32(high) + rest);
    lemma_u32_roundtrip(high, rest);
    lemma_fundamental_div_mod(xi, 0x1_0000_0000);
    assert(low + high * 0x1_0000_0000 == xi);
}

// ---------------------------------------------------------------------------
// Signed 32-bit integers, sign byte plus magnitude
// ---------------------------------------------------------------------------

pub open spec fn abs_i32(x: i32) -> u32 {
    if x >= 0 {
        x as u32
    } else {
        (-(x as int)) as u32
    }
}

pub open spec fn enc_i32(x: i32) -> Seq<u8> {
    seq![if x < 0 { 1u8 } else { 0u8 }] + enc_u32(abs_i32(x))
}

pub open spec fn dec_i32(s: Seq<u8>) -> Option<(i32, Seq<u8>)> {
    match dec_u8(s) {
        Some((sign, s1)) => match dec_u32(s1) {
            Some((m, s2)) => {
                if sign == 0 && m <= 0x7fff_ffff {
                    Some((m as i32, s2))
                } else if sign == 1 && 1 <= m && m <= 0x8000_0000 {
                    Some(((-(m as int)) as i32, s2))
                } else {
                    None
                }
            },
            None => None,
        },
        None => None,
    }
}

pub proof fn lemma_i32_roundtrip(x: i32, rest: Seq<u8>)
    ensures
        dec_i32(enc_i32(x) + rest) == Some((x, rest)),
{
    let sign: u8 = if x < 0 { 1u8 } else { 0u8 };
    assert(enc_i32(x) + rest =~= enc_u8(sign) + (enc_u32(abs_i32(x)) + rest));
    lemma_u8_roundtrip(sign, enc_u32(abs_i32(x)) + rest);
    lemma_u32_roundtrip(abs_i32(x), rest);
}

// ---------------------------------------------------------------------------
// Length-prefixed byte strings and UTF-8 text
// ---------------------------------------------------------------------------

pub open spec fn enc_byte_seq(b: Seq<u8>) -> Seq<u8> {
    enc_u64(b.len() as u64) + b
}

pub open spec fn dec_byte_seq(s: Seq<u8>) -> Option<(Seq<u8>, Seq<u8>)> {
    match dec_u64(s) {
        Some((n, s1)) => {
            if s1.len() >= n {
                Some((s1.take(n as int), s1.skip(n as int)))
            } else {
                None
            }
        },
        None => None,
    }
}

pub proof fn lemma_byte_seq_roundtrip(b: Seq<u8>, rest: Seq<u8>)
    requires
        b.len() < max_len(),
    ensures
        dec_byte_seq(enc_byte_seq(b) + rest) == Some((b, rest)),
{
    let n = b.len() as u64;
    assert(enc_byte_seq(b) + rest =~= enc_u64(n) + (b + rest));
    lemma_u64_roundtrip(n, b + rest);
    assert((b + rest).take(n as int) =~= b);
    assert((b + rest).skip(n as int) =~= rest);
}

#[verifier::opaque]
pub open spec fn enc_string(t: Seq<char>) -> Seq<u8> {
    enc_byte_seq(encode_utf8(t))
}

#[verifier::opaque]
pub open spec fn dec_string(s: Seq<u8>) -> Option<(Seq<char>, Seq<u8>)> {
    match dec_byte_seq(s) {
        Some((b, rest)) => {
            if valid_utf8(b) {
                Some((decode_utf8(b), rest))
            } else {
                None
            }
        },
        None => None,
    }
}

pub proof fn lemma_string_roundtrip(t: Seq<char>, rest: Seq<u8>)
    requires
        encode_utf8(t).len() < max_len(),
    ensures
        dec_string(enc_string(t) + rest) == Some((t, rest)),
{
    reveal(enc_string);
    reveal(dec_string);
    lemma_byte_seq_roundtrip(encode_utf8(t), rest);
    encode_utf8_valid_utf8(t);
    encode_utf8_decode_utf8(t);
}

// ---------------------------------------------------------------------------
// Identifiers and identities
// ---------------------------------------------------------------------------

pub open spec fn enc_network_id(id: NetworkId) -> Seq<u8> {
    enc_u64(id.owner.0) + enc_u32(id.index)
}

pub open spec fn dec_network_id(s: Seq<u8>) -> Option<(NetworkId, Seq<u8>)> {
    match dec_u64(s) {
        Some((owner, s1)) => match dec_u32(s1) {
            Some((index, s2)) => Some((NetworkId { owner: SteamId(owner), index }, s2)),
            None => None,
        },
        None => None,
    }
}

pub proof fn lemma_network_id_roundtrip(id: NetworkId, rest: Seq<u8>)
    ensures
        dec_network_id(enc_network_id(id) + rest) == Some((id, rest)),
{
    assert(enc_network_id(id) + rest =~= enc_u64(id.owner.0) + (enc_u32(id.index) + rest));
    lemma_u64_roundtrip(id.owner.0, enc_u32(id.index) + rest);
    lemma_u32_roundtrip(id.index, rest);
}

#[verifier::opaque]
pub open spec fn enc_opt_network_id(o: Option<NetworkId>) -> Seq<u8> {
    match o {
        None => seq![0u8],
        Some(id) => seq![1u8] + enc_network_id(id),
    }
}

#[verifier::opaque]
pub open spec fn dec_opt_network_id(s: Seq<u8>) -> Option<(Option<NetworkId>, Seq<u8>)> {
    match dec_u8(s) {
        Some((tag, s1)) => {
            if tag == 0 {
                Some((None, s1))
            } else if tag == 1 {
                match dec_network_id(s1) {
                    Some((id, s2)) => Some((Some(id), s2)),
                    None => None,
                }
            } else {
                None
            }
        },
        None => None,
    }
}

pub proof fn lemma_opt_network_id_roundtrip(o: Option<NetworkId>, rest: Seq<u8>)
    ensures
        dec_opt_network_id(enc_opt_network_id(o) + rest) == Some((o, rest)),
{
    reveal(enc_opt_network_id);
    reveal(dec_opt_network_id);
    match o {
        None => {
            lemma_u8_roundtrip(0u8, rest);
        },
        Some(id) => {
            assert(enc_opt_network_id(o) + rest =~= enc_u8(1u8) + (enc_network_id(id) + rest));
            lemma_u8_roundtrip(1u8, enc_network_id(id) + rest);
            lemma_network_id_roundtrip(id, rest);
        },
    }
}

pub open spec fn wf_identity(v: NetworkIdentityView) -> bool {
    encode_utf8(v.instantiation_path).len() < max_len()
}

#[verifier::opaque]
pub open spec fn enc_identity(v: NetworkIdentityView) -> Seq<u8> {
    enc_network_id(v.id) + enc_opt_network_id(v.parent_id) + enc_string(v.instantiation_path)
}

#[verifier::opaque]
pub open spec fn dec_identity(s: Seq<u8>) -> Option<(NetworkIdentityView, Seq<u8>)> {
    match dec_network_id(s) {
        Some((id, s1)) => match dec_opt_network_id(s1) {
            Some((parent_id, s2)) => match dec_string(s2) {
                Some((instantiation_path, s3)) => Some(
                    (NetworkIdentityView { id, parent_id, instantiation_path }, s3),
                ),
                None => None,
            },
            None => None,
        },
        None => None,
    }
}

#[verifier::rlimit(60)]
pub proof fn lemma_identity_roundtrip(v: NetworkIdentityView, rest: Seq<u8>)
    requires
        wf_identity(v),
    ensures
        dec_identity(enc_identity(v) + rest) == Some((v, rest)),
{
    reveal(enc_identity);
    reveal(dec_identity);
    let tail2 = enc_string(v.instantiation_path) + rest;
    let tail1 = enc_opt_network_id(v.parent_id) + tail2;
    assert(enc_identity(v) + rest =~= enc_network_id(v.id) + tail1);
    lemma_network_id_roundtrip(v.id, tail1);
    lemma_opt_network_id_roundtrip(v.parent_id, tail2);
    lemma_string_roundtrip(v.instantiation_path, rest);
}

// ---------------------------------------------------------------------------
// Poses
// ---------------------------------------------------------------------------

#[verifier::opaque]
pub open spec fn enc_vec3(v: Vec3Fixed) -> Seq<u8> {
    enc_i32(v.x) + enc_i32(v.y) + enc_i32(v.z)
}

#[verifier::opaque]
pub open spec fn dec_vec3(s: Seq<u8>) -> Option<(Vec3Fixed, Seq<u8>)> {
    match dec_i32(s) {
        Some((x, s1)) => match dec_i32(s1) {
            Some((y, s2)) => match dec_i32(s2) {
                Some((z, s3)) => Some((Vec3Fixed { x, y, z }, s3)),
                None => None,
            },
            None => None,
        },
        None => None,
    }
}

pub proof fn lemma_vec3_roundtrip(v: Vec3Fixed, rest: Seq<u8>)
    ensures
        dec_vec3(enc_vec3(v) + rest) == Some((v, rest)),
{
    reveal(enc_vec3);
    reveal(dec_vec3);
    let tail2 = enc_i32(v.z) + rest;
    let tail1 = enc_i32(v.y) + tail2;
    assert(enc_vec3(v) + rest =~= enc_i32(v.x) + tail1);
    lemma_i32_roundtrip(v.x, tail1);
    lemma_i32_roundtrip(v.y, tail2);
    lemma_i32_roundtrip(v.z, rest);
}

#[verifier::opaque]
pub open spec fn enc_quat(q: QuatFixed) -> Seq<u8> {
    enc_i32(q.x) + enc_i32(q.y) + enc_i32(q.z) + enc_i32(q.w)
}

#[verifier::opaque]
pub open spec fn dec_quat(s: Seq<u8>) -> Option<(QuatFixed, Seq<u8>)> {
    match dec_i32(s) {
        Some((x, s1)) => match dec_i32(s1) {
            Some((y, s2)) => match dec_i32(s2) {
                Some((z, s3)) => match dec_i32(s3) {
                    Some((w, s4)) => Some((QuatFixed { x, y, z, w }, s4)),
                    None => None,
                },
                None => None,
            },
            None => None,
        },
        None => None,
    }
}

pub proof fn lemma_quat_roundtrip(q: QuatFixed, rest: Seq<u8>)
    ensures
        dec_quat(enc_quat(q) + rest) == Some((q, rest)),
{
    reveal(enc_quat);
    reveal(dec_quat);
    let tail3 = enc_i32(q.w) + rest;
    let tail2 = enc_i32(q.z) + tail3;
    let tail1 = enc_i32(q.y) + tail2;
    assert(enc_quat(q) + rest =~= enc_i32(q.x) + tail1);
    lemma_i32_roundtrip(q.x, tail1);
    lemma_i32_roundtrip(q.y, tail2);
    lemma_i32_roundtrip(q.z, tail3);
    lemma_i32_roundtrip(q.w, rest);
}

#[verifier::opaque]
pub open spec fn enc_transform(t: Transform) -> Seq<u8> {
    enc_vec3(t.translation) + enc_quat(t.rotation) + enc_vec3(t.scale)
}

#[verifier::opaque]
pub open spec fn dec_transform(s: Seq<u8>) -> Option<(Transform, Seq<u8>)> {
    match dec_vec3(s) {
        Some((translation, s1)) => match dec_quat(s1) {
            Some((rotation, s2)) => match dec_vec3(s2) {
                Some((scale, s3)) => Some((Transform { translation, rotation, scale }, s3)),
                None => None,
            },
            None => None,
        },
        None => None,
    }
}

pub proof fn lemma_transform_roundtrip(t: Transform, rest: Seq<u8>)
    ensures
        dec_transform(enc_transform(t) + rest) == Some((t, rest)),
{
    reveal(enc_transform);
    reveal(dec_transform);
    let tail2 = enc_vec3(t.scale) + rest;
    let tail1 = enc_quat(t.rotation) + tail2;
    assert(enc_transform(t) + rest =~= enc_vec3(t.translation) + tail1);
    lemma_vec3_roundtrip(t.translation, tail1);
    lemma_quat_roundtrip(t.rotation, tail2);
    lemma_vec3_roundtrip(t.scale, rest);
}

#[verifier::opaque]
pub open spec fn enc_opt_vec3(o: Option<Vec3Fixed>) -> Seq<u8> {
    match o {
        None => seq![0u8],
        Some(v) => seq![1u8] + enc_vec3(v),
    }
}

#[verifier::opaque]
pub open spec fn dec_opt_vec3(s: Seq<u8>) -> Option<(Option<Vec3Fixed>, Seq<u8>)> {
    match dec_u8(s) {
        Some((tag, s1)) => {
            if tag == 0 {
                Some((None, s1))
            } else if tag == 1 {
                match dec_vec3(s1) {
                    Some((v, s2)) => Some((Some(v), s2)),
                    None => None,
                }
            } else {
                None
            }
        },
        None => None,
    }
}

pub proof fn lemma_opt_vec3_roundtrip(o: Option<Vec3Fixed>, rest: Seq<u8>)
    ensures
        dec_opt_vec3(enc_opt_vec3(o) + rest) == Some((o, rest)),
{
    reveal(enc_opt_vec3);
    reveal(dec_opt_vec3);
    match o {
        None => {
            lemma_u8_roundtrip(0u8, rest);
        },
        Some(v) => {
            assert(enc_opt_vec3(o) + rest =~= enc_u8(1u8) + (enc_vec3(v) + rest));
            lemma_u8_roundtrip(1u8, enc_vec3(v) + rest);
            lemma_vec3_roundtrip(v, rest);
        },
    }
}

#[verifier::opaque]
pub open spec fn enc_opt_quat(o: Option<QuatFixed>) -> Seq<u8> {
    match o {
        None => seq![0u8],
        Some(q) => seq![1u8] + enc_quat(q),
    }
}

#[verifier::opaque]
pub open spec fn dec_opt_quat(s: Seq<u8>) -> Option<(Option<QuatFixed>, Seq<u8>)> {
    match dec_u8(s) {
        Some((tag, s1)) => {
            if tag == 0 {
                Some((None, s1))
            } else if tag == 1 {
                match dec_quat(s1) {
                    Some((q, s2)) => Some((Some(q), s2)),
                    None => None,
                }
            } else {
                None
            }
        },
        None => None,
    }
}

pub proof fn lemma_opt_quat_roundtrip(o: Option<QuatFixed>, rest: Seq<u8>)
    ensures
        dec_opt_quat(enc_opt_quat(o) + rest) == Some((o, rest)),
{
    reveal(enc_opt_quat);
    reveal(dec_opt_quat);
    match o {
        None => {
            lemma_u8_roundtrip(0u8, rest);
        },
        Some(q) => {
            assert(enc_opt_quat(o) + rest =~= enc_u8(1u8) + (enc_quat(q) + rest));
            lemma_u8_roundtrip(1u8, enc_quat(q) + rest);
            lemma_quat_roundtrip(q, rest);
        },
    }
}

// ---------------------------------------------------------------------------
// Instantiation payloads and the envelope
// ---------------------------------------------------------------------------

#[verifier::opaque]
pub open spec fn enc_instantiation(v: InstantiationDataView) -> Seq<u8> {
    enc_identity(v.network_identity) + enc_transform(v.starting_transform)
}

#[verifier::opaque]
pub open spec fn dec_instantiation(s: Seq<u8>) -> Option<(InstantiationDataView, Seq<u8>)> {
    match dec_identity(s) {
        Some((network_identity, s1)) => match dec_transform(s1) {
            Some((starting_transform, s2)) => Some(
                (InstantiationDataView { network_identity, starting_transform }, s2),
            ),
            None => None,
        },
        None => None,
    }
}

#[verifier::rlimit(60)]
pub proof fn lemma_instantiation_roundtrip(v: InstantiationDataView, rest: Seq<u8>)
    requires
        wf_identity(v.network_identity),
    ensures
        dec_instantiation(enc_instantiation(v) + rest) == Some((v, rest)),
{
    reveal(enc_instantiation);
    reveal(dec_instantiation);
    let tail1 = enc_transform(v.starting_transform) + rest;
    assert(enc_instantiation(v) + rest =~= enc_identity(v.network_identity) + tail1);
    lemma_identity_roundtrip(v.network_identity, tail1);
    lemma_transform_roundtrip(v.starting_transform, rest);
}

/// Which envelopes fit on the wire: every variable-length field must fit its
/// 64-bit length prefix. Real `Vec` and `String` values always satisfy this.
pub open spec fn wf_data(v: NetworkDataView) -> bool {
    match v {
        NetworkDataView::OtherJoined(_) => true,
        NetworkDataView::Event(bytes, _) => bytes.len() < max_len(),
        NetworkDataView::NetworkedAction(identity, _, bytes) => wf_identity(identity)
            && bytes.len() < max_len(),
        NetworkDataView::Instantiate(data) => wf_identity(data.network_identity),
        NetworkDataView::TransformUpdate(identity, _, _, _) => wf_identity(identity),
        NetworkDataView::Destroy(identity) => wf_identity(identity),
        NetworkDataView::NetworkMessage(text) => encode_utf8(text).len() < max_len(),
        NetworkDataView::DebugMessage(text) => encode_utf8(text).len() < max_len(),
    }
}

pub open spec fn enc_data(v: NetworkDataView) -> Seq<u8> {
    match v {
        NetworkDataView::OtherJoined(id) => seq![0u8] + enc_u64(id.0),
        NetworkDataView::Event(bytes, index) => seq![1u8] + enc_byte_seq(bytes) + enc_u8(index),
        NetworkDataView::NetworkedAction(identity, action, bytes) => seq![2u8] + enc_identity(
            identity,
        ) + enc_u8(action) + enc_byte_seq(bytes),
        NetworkDataView::Instantiate(data) => seq![3u8] + enc_instantiation(data),
        NetworkDataView::TransformUpdate(identity, p, r, s) => seq![4u8] + enc_identity(identity)
            + enc_opt_vec3(p) + enc_opt_quat(r) + enc_opt_vec3(s),
        NetworkDataView::Destroy(identity) => seq![5u8] + enc_identity(identity),
        NetworkDataView::NetworkMessage(text) => seq![6u8] + enc_string(text),
        NetworkDataView::DebugMessage(text) => seq![7u8] + enc_string(text),
    }
}

pub open spec fn dec_data(s: Seq<u8>) -> Option<(NetworkDataView, Seq<u8>)> {
    match dec_u8(s) {
        Some((tag, s1)) => {
            if tag == 0 {
                match dec_u64(s1) {
                    Some((id, s2)) => Some((NetworkDataView::OtherJoined(SteamId(id)), s2)),
                    None => None,
                }
            } else if tag == 1 {
                match dec_byte_seq(s1) {
                    Some((bytes, s2)) => match dec_u8(s2) {
                        Some((index, s3)) => Some((NetworkDataView::Event(bytes, index), s3)),
                        None => None,
                    },
                    None => None,
                }
            } else if tag == 2 {
                match dec_identity(s1) {
                    Some((identity, s2)) => match dec_u8(s2) {
                        Some((action, s3)) => match dec_byte_seq(s3) {
                            Some((bytes, s4)) => Some(
                                (NetworkDataView::NetworkedAction(identity, action, bytes), s4),
                            ),
                            None => None,
                        },
                        None => None,
                    },
                    None => None,
                }
            } else if tag == 3 {
                match dec_instantiation(s1) {
                    Some((data, s2)) => Some((NetworkDataView::Instantiate(data), s2)),
                    None => None,
                }
            } else if tag == 4 {
                match dec_identity(s1) {
                    Some((identity, s2)) => match dec_opt_vec3(s2) {
                        Some((p, s3)) => match dec_opt_quat(s3) {
                            Some((r, s4)) => match dec_opt_vec3(s4) {
                                Some((sc, s5)) => Some(
                                    (NetworkDataView::TransformUpdate(identity, p, r, sc), s5),
                                ),
                                None => None,
                            },
                            None => None,
                        },
                        None => None,
                    },
                    None => None,
                }
            } else if tag == 5 {
                match dec_identity(s1) {
                    Some((identity, s2)) => Some((NetworkDataView::Destroy(identity), s2)),
                    None => None,
                }
            } else if tag == 6 {
                match dec_string(s1) {
                    Some((text, s2)) => Some((NetworkDataView::NetworkMessage(text), s2)),
                    None => None,
                }
            } else if tag == 7 {
                match dec_string(s1) {
                    Some((text, s2)) => Some((NetworkDataView::DebugMessage(text), s2)),
                    None => None,
                }
            } else {
                None
            }
        },
        None => None,
    }
}

proof fn lemma_data_roundtrip_other_joined(id: SteamId, rest: Seq<u8>)
    ensures
        dec_data(enc_data(NetworkDataView::OtherJoined(id)) + rest) == Some(
            (NetworkDataView::OtherJoined(id), rest),
        ),
{
    let v = NetworkDataView::OtherJoined(id);
    assert(enc_data(v) + rest =~= enc_u8(0u8) + (enc_u64(id.0) + rest));
    lemma_u8_roundtrip(0u8, enc_u64(id.0) + rest);
    lemma_u64_roundtrip(id.0, rest);
}

proof fn lemma_data_roundtrip_event(bytes: Seq<u8>, index: u8, rest: Seq<u8>)
    requires
        bytes.len() < max_len(),
    ensures
        dec_data(enc_data(NetworkDataView::Event(bytes, index)) + rest) == Some(
            (NetworkDataView::Event(bytes, index), rest),
        ),
{
    let v = NetworkDataView::Event(bytes, index);
    let tail1 = enc_byte_seq(bytes) + (enc_u8(index) + rest);
    assert(enc_data(v) + rest =~= enc_u8(1u8) + tail1);
    lemma_u8_roundtrip(1u8, tail1);
    lemma_byte_seq_roundtrip(bytes, enc_u8(index) + rest);
    lemma_u8_roundtrip(index, rest);
}

#[verifier::rlimit(60)]
proof fn lemma_data_roundtrip_networked_action(
    identity: NetworkIdentityView,
    action: u8,
    bytes: Seq<u8>,
    rest: Seq<u8>,
)
    requires
        wf_identity(identity),
        bytes.len() < max_len(),
    ensures
        dec_data(enc_data(NetworkDataView::NetworkedAction(identity, action, bytes)) + rest)
            == Some((NetworkDataView::NetworkedAction(identity, action, bytes), rest)),
{
    let v = NetworkDataView::NetworkedAction(identity, action, bytes);
    let tail3 = enc_byte_seq(bytes) + rest;
    let tail2 = enc_u8(action) + tail3;
    let tail1 = enc_identity(identity) + tail2;
    assert(enc_data(v) + rest =~= enc_u8(2u8) + tail1);
    lemma_u8_roundtrip(2u8, tail1);
    lemma_identity_roundtrip(identity, tail2);
    lemma_u8_roundtrip(action, tail3);
    lemma_byte_seq_roundtrip(bytes, rest);
}

#[verifier::rlimit(60)]
proof fn lemma_data_roundtrip_instantiate(data: InstantiationDataView, rest: Seq<u8>)
    requires
        wf_identity(data.network_identity),
    ensures
        dec_data(enc_data(NetworkDataView::Instantiate(data)) + rest) == Some(
            (NetworkDataView::Instantiate(data), rest),
        ),
{
    let v = NetworkDataView::Instantiate(data);
    let tail1 = enc_instantiation(data) + rest;
    assert(enc_data(v) + rest =~= enc_u8(3u8) + tail1);
    lemma_u8_roundtrip(3u8, tail1);
    lemma_instantiation_roundtrip(data, rest);
}

#[verifier::rlimit(100)]
proof fn lemma_data_roundtrip_transform_update(
    identity: NetworkIdentityView,
    p: Option<Vec3Fixed>,
    r: Option<QuatFixed>,
    sc: Option<Vec3Fixed>,
    rest: Seq<u8>,
)
    requires
        wf_identity(identity),
    ensures
        dec_data(enc_data(NetworkDataView::TransformUpdate(identity, p, r, sc)) + rest) == Some(
            (NetworkDataView::TransformUpdate(identity, p, r, sc), rest),
        ),
{
    let v = NetworkDataView::TransformUpdate(identity, p, r, sc);
    let tail4 = enc_opt_vec3(sc) + rest;
    let tail3 = enc_opt_quat(r) + tail4;
    let tail2 = enc_opt_vec3(p) + tail3;
    let tail1 = enc_identity(identity) + tail2;
    assert(enc_data(v) + rest =~= enc_u8(4u8) + tail1);
    lemma_u8_roundtrip(4u8, tail1);
    lemma_identity_roundtrip(identity, tail2);
    lemma_opt_vec3_roundtrip(p, tail3);
    lemma_opt_quat_roundtrip(r, tail4);
    lemma_opt_vec3_roundtrip(sc, rest);
}

#[verifier::rlimit(60)]
proof fn lemma_data_roundtrip_destroy(identity: NetworkIdentityView, rest: Seq<u8>)
    requires
        wf_identity(identity),
    ensures
        dec_data(enc_data(NetworkDataView::Destroy(identity)) + rest) == Some(
            (NetworkDataView::Destroy(identity), rest),
        ),
{
    let v = NetworkDataView::Destroy(identity);
    let tail1 = enc_identity(identity) + rest;
    assert(enc_data(v) + rest =~= enc_u8(5u8) + tail1);
    lemma_u8_roundtrip(5u8, tail1);
    lemma_identity_roundtrip(identity, rest);
}

proof fn lemma_data_roundtrip_network_message(text: Seq<char>, rest: Seq<u8>)
    requires
        encode_utf8(text).len() < max_len(),
    ensures
        dec_data(enc_data(NetworkDataView::NetworkMessage(text)) + rest) == Some(
            (NetworkDataView::NetworkMessage(text), rest),
        ),
{
    let v = NetworkDataView::NetworkMessage(text);
    let tail1 = enc_string(text) + rest;
    assert(enc_data(v) + rest =~= enc_u8(6u8) + tail1);
    lemma_u8_roundtrip(6u8, tail1);
    lemma_string_roundtrip(text, rest);
}

proof fn lemma_data_roundtrip_debug_message(text: Seq<char>, rest: Seq<u8>)
    requires
        encode_utf8(text).len() < max_len(),
    ensures
        dec_data(enc_data(NetworkDataView::DebugMessage(text)) + rest) == Some(
            (NetworkDataView::DebugMessage(text), rest),
        ),
{
    let v = NetworkDataView::DebugMessage(text);
    let tail1 = enc_string(text) + rest;
    assert(enc_data(v) + rest =~= enc_u8(7u8) + tail1);
    lemma_u8_roundtrip(7u8, tail1);
    lemma_string_roundtrip(text, rest);
}

/// Round trip: decoding an encoded envelope yields the envelope back and
/// leaves exactly the trailing bytes unread.
pub proof fn lemma_network_data_roundtrip(v: NetworkDataView, rest: Seq<u8>)
    requires
        wf_data(v),
    ensures
        dec_data(enc_data(v) + rest) == Some((v, rest)),
{
    match v {
        NetworkDataView::OtherJoined(id) => lemma_data_roundtrip_other_joined(id, rest),
        NetworkDataView::Event(bytes, index) => lemma_data_roundtrip_event(bytes, index, rest),
        NetworkDataView::NetworkedAction(identity, action, bytes) => {
            lemma_data_roundtrip_networked_action(identity, action, bytes, rest)
        },
        NetworkDataView::Instantiate(data) => lemma_data_roundtrip_instantiate(data, rest),
        NetworkDataView::TransformUpdate(identity, p, r, sc) => {
            lemma_data_roundtrip_transform_update(identity, p, r, sc, rest)
        },
        NetworkDataView::Destroy(identity) => lemma_data_roundtrip_destroy(identity, rest),
        NetworkDataView::NetworkMessage(text) => lemma_data_roundtrip_network_message(text, rest),
        NetworkDataView::DebugMessage(text) => lemma_data_roundtrip_debug_message(text, rest),
    }
}

// ---------------------------------------------------------------------------
// Executable encoding
// ---------------------------------------------------------------------------

fn write_u8(out: &mut Vec<u8>, x: u8)
    ensures
        final(out)@ == old(out)@ + enc_u8(x),
{
    out.push(x);
    assert(out@ =~= old(out)@ + enc_u8(x));
}

fn write_u32(out: &mut Vec<u8>, x: u32)
    ensures
        final(out)@ == old(out)@ + enc_u32(x),
{
    out.push((x % 256) as u8);
    out.push(((x / 256) % 256) as u8);
    out.push(((x / 65536) % 256) as u8);
    out.push(((x / 16777216) % 256) as u8);
    assert(out@ =~= old(out)@ + enc_u32(x));
}

fn write_u64(out: &mut Vec<u8>, x: u64)
    ensures
        final(out)@ == old(out)@ + enc_u64(x),
{
    let low: u32 = (x % 0x1_0000_0000) as u32;
    let high: u32 = (x / 0x1_0000_0000) as u32;
    write_u32(out, low);
    write_u32(out, high);
    assert(out@ =~= old(out)@ + enc_u64(x));
}

fn write_i32(out: &mut Vec<u8>, x: i32)
    ensures
        final(out)@ == old(out)@ + enc_i32(x),
{
    if x >= 0 {
        out.push(0u8);
        write_u32(out, x as u32);
    } else {
        out.push(1u8);
        let m: u32 = (-(x as i64)) as u32;
        write_u32(out, m);
    }
    assert(out@ =~= old(out)@ + enc_i32(x));
}

fn write_byte_vec(out: &mut Vec<u8>, b: &Vec<u8>)
    ensures
        final(out)@ == old(out)@ + enc_byte_seq(b@),
{
    write_u64(out, b.len() as u64);
    out.extend_from_slice(b.as_slice());
    assert(out@ =~= old(out)@ + enc_byte_seq(b@));
}

fn write_string(out: &mut Vec<u8>, t: &str)
    ensures
        final(out)@ == old(out)@ + enc_string(t@),
{
    let bytes = t.as_bytes_vec();
    write_byte_vec(out, &bytes);
    proof {
        reveal(enc_string);
    }
    assert(out@ =~= old(out)@ + enc_string(t@));
}

fn write_network_id(out: &mut Vec<u8>, id: &NetworkId)
    ensures
        final(out)@ == old(out)@ + enc_network_id(*id),
{
    write_u64(out, id.owner.0);
    write_u32(out, id.index);
    assert(out@ =~= old(out)@ + enc_network_id(*id));
}

fn write_opt_network_id(out: &mut Vec<u8>, o: &Option<NetworkId>)
    ensures
        final(out)@ == old(out)@ + enc_opt_network_id(*o),
{
    proof {
        reveal(enc_opt_network_id);
    }
    match o {
        None => {
            out.push(0u8);
        },
        Some(id) => {
            out.push(1u8);
            write_network_id(out, id);
        },
    }
    assert(out@ =~= old(out)@ + enc_opt_network_id(*o));
}

fn write_identity(out: &mut Vec<u8>, identity: &NetworkIdentity)
    ensures
        final(out)@ == old(out)@ + enc_identity(identity@),
{
    proof {
        reveal(enc_identity);
    }
    write_network_id(out, &identity.id);
    write_opt_network_id(out, &identity.parent_id);
    write_string(out, identity.instantiation_path.0.as_str());
    assert(out@ =~= old(out)@ + enc_identity(identity@));
}

fn write_vec3(out: &mut Vec<u8>, v: &Vec3Fixed)
    ensures
        final(out)@ == old(out)@ + enc_vec3(*v),
{
    proof {
        reveal(enc_vec3);
    }
    write_i32(out, v.x);
    write_i32(out, v.y);
    write_i32(out, v.z);
    assert(out@ =~= old(out)@ + enc_vec3(*v));
}

fn write_quat(out: &mut Vec<u8>, q: &QuatFixed)
    ensures
        final(out)@ == old(out)@ + enc_quat(*q),
{
    proof {
        reveal(enc_quat);
    }
    write_i32(out, q.x);
    write_i32(out, q.y);
    write_i32(out, q.z);
    write_i32(out, q.w);
    assert(out@ =~= old(out)@ + enc_quat(*q));
}

fn write_transform(out: &mut Vec<u8>, t: &Transform)
    ensures
        final(out)@ == old(out)@ + enc_transform(*t),
{
    proof {
        reveal(enc_transform);
    }
    write_vec3(out, &t.translation);
    write_quat(out, &t.rotation);
    write_vec3(out, &t.scale);
    assert(out@ =~= old(out)@ + enc_transform(*t));
}

fn write_opt_vec3(out: &mut Vec<u8>, o: &Option<Vec3Fixed>)
    ensures
        final(out)@ == old(out)@ + enc_opt_vec3(*o),
{
    proof {
        reveal(enc_opt_vec3);
    }
    match o {
        None => {
            out.push(0u8);
        },
        Some(v) => {
            out.push(1u8);
            write_vec3(out, v);
        },
    }
    assert(out@ =~= old(out)@ + enc_opt_vec3(*o));
}

fn write_opt_quat(out: &mut Vec<u8>, o: &Option<QuatFixed>)
    ensures
        final(out)@ == old(out)@ + enc_opt_quat(*o),
{
    proof {
        reveal(enc_opt_quat);
    }
    match o {
        None => {
            out.push(0u8);
        },
        Some(q) => {
            out.push(1u8);
            write_quat(out, q);
        },
    }
    assert(out@ =~= old(out)@ + enc_opt_quat(*o));
}

fn write_instantiation(out: &mut Vec<u8>, data: &InstantiationData)
    ensures
        final(out)@ == old(out)@ + enc_instantiation(data@),
{
    proof {
        reveal(enc_instantiation);
    }
    write_identity(out, &data.network_identity);
    write_transform(out, &data.starting_transform);
    assert(out@ =~= old(out)@ + enc_instantiation(data@));
}

/// Serialize one envelope. Every outbound datagram passes through this once.
pub fn encode_network_data(data: &NetworkData) -> (r: Vec<u8>)
    ensures
        r@ == enc_data(data@),
{
    let mut out: Vec<u8> = Vec::new();
    match data {
        NetworkData::OtherJoined(id) => {
            out.push(0u8);
            write_u64(&mut out, id.0);
        },
        NetworkData::Event(bytes, index) => {
            out.push(1u8);
            write_byte_vec(&mut out, bytes);
            write_u8(&mut out, *index);
        },
        NetworkData::NetworkedAction(identity, action, bytes) => {
            out.push(2u8);
            write_identity(&mut out, identity);
            write_u8(&mut out, *action);
            write_byte_vec(&mut out, bytes);
        },
        NetworkData::Instantiate(data) => {
            out.push(3u8);
            write_instantiation(&mut out, data);
        },
        NetworkData::TransformUpdate(identity, p, r, s) => {
            out.push(4u8);
            write_identity(&mut out, identity);
            write_opt_vec3(&mut out, p);
            write_opt_quat(&mut out, r);
            write_opt_vec3(&mut out, s);
        },
        NetworkData::Destroy(identity) => {
            out.push(5u8);
            write_identity(&mut out, identity);
        },
        NetworkData::NetworkMessage(message) => {
            out.push(6u8);
            write_string(&mut out, message.as_str());
        },
        NetworkData::DebugMessage(message) => {
            out.push(7u8);
            write_string(&mut out, message.as_str());
        },
    }
    assert(out@ =~= enc_data(data@));
    out
}

// ---------------------------------------------------------------------------
// Executable decoding
// ---------------------------------------------------------------------------

/// Relies on `String::from_utf8`: it succeeds exactly on valid UTF-8 input
/// and yields the decoded text.
#[verifier::external_body]
fn string_from_utf8(bytes: Vec<u8>) -> (r: Option<String>)
    ensures
        r is Some <==> valid_utf8(bytes@),
        r matches Some(t) ==> t@ == decode_utf8(bytes@),
{
    String::from_utf8(bytes).ok()
}

fn read_u8(buf: &Vec<u8>, pos: usize) -> (r: Option<(u8, usize)>)
    requires
        pos <= buf.len(),
    ensures
        match r {
            Some((v, end)) => pos <= end <= buf.len() && dec_u8(buf@.skip(pos as int)) == Some(
                (v, buf@.skip(end as int)),
            ),
            None => dec_u8(buf@.skip(pos as int)) is None,
        },
{
    if pos < buf.len() {
        let v = buf[pos];
        assert(buf@.skip(pos as int).skip(1) =~= buf@.skip(pos as int + 1));
        Some((v, pos + 1))
    } else {
        None
    }
}

fn read_u32(buf: &Vec<u8>, pos: usize) -> (r: Option<(u32, usize)>)
    requires
        pos <= buf.len(),
    ensures
        match r {
            Some((v, end)) => pos <= end <= buf.len() && dec_u32(buf@.skip(pos as int)) == Some(
                (v, buf@.skip(end as int)),
            ),
            None => dec_u32(buf@.skip(pos as int)) is None,
        },
{
    if buf.len() - pos >= 4 {
        let b0 = buf[pos];
        let b1 = buf[pos + 1];
        let b2 = buf[pos + 2];
        let b3 = buf[pos + 3];
        let v: u32 = b0 as u32 + b1 as u32 * 256 + b2 as u32 * 65536 + b3 as u32 * 16777216;
        assert(buf@.skip(pos as int).skip(4) =~= buf@.skip(pos as int + 4));
        assert(le4_val(buf@.skip(pos as int)) == v);
        Some((v, pos + 4))
    } else {
        None
    }
}

fn read_u64(buf: &Vec<u8>, pos: usize) -> (r: Option<(u64, usize)>)
    requires
        pos <= buf.len(),
    ensures
        match r {
            Some((v, end)) => pos <= end <= buf.len() && dec_u64(buf@.skip(pos as int)) == Some(
                (v, buf@.skip(end as int)),
            ),
            None => dec_u64(buf@.skip(pos as int)) is None,
        },
{
    match read_u32(buf, pos) {
        Some((low, mid)) => match read_u32(buf, mid) {
            Some((high, end)) => {
                let v: u64 = low as u64 + high as u64 * 0x1_0000_0000;
                Some((v, end))
            },
            None => None,
        },
        None => None,
    }
}

fn read_i32(buf: &Vec<u8>, pos: usize) -> (r: Option<(i32, usize)>)
    requires
        pos <= buf.len(),
    ensures
        match r {
            Some((v, end)) => pos <= end <= buf.len() && dec_i32(buf@.skip(pos as int)) == Some(
                (v, buf@.skip(end as int)),
            ),
            None => dec_i32(buf@.skip(pos as int)) is None,
        },
{
    match read_u8(buf, pos) {
        Some((sign, mid)) => match read_u32(buf, mid) {
            Some((m, end)) => {
                if sign == 0 && m <= 0x7fff_ffff {
                    Some((m as i32, end))
                } else if sign == 1 && 1 <= m && m <= 0x8000_0000 {
                    let v: i32 = (-(m as i64)) as i32;
                    Some((v, end))
                } else {
                    None
                }
            },
            None => None,
        },
        None => None,
    }
}

fn read_byte_vec(buf: &Vec<u8>, pos: usize) -> (r: Option<(Vec<u8>, usize)>)
    requires
        pos <= buf.len(),
    ensures
        match r {
            Some((v, end)) => pos <= end <= buf.len() && dec_byte_seq(buf@.skip(pos as int))
                == Some((v@, buf@.skip(end as int))),
            None => dec_byte_seq(buf@.skip(pos as int)) is None,
        },
{
    match read_u64(buf, pos) {
        Some((n, mid)) => {
            if n <= (buf.len() - mid) as u64 {
                let nn = n as usize;
                let sub = vstd::slice::slice_to_vec(
                    vstd::slice::slice_subrange(buf.as_slice(), mid, mid + nn),
                );
                assert(sub@ =~= buf@.skip(mid as int).take(n as int));
                assert(buf@.skip(mid as int).skip(n as int) =~= buf@.skip(mid as int + nn));
                Some((sub, mid + nn))
            } else {
                None
            }
        },
        None => None,
    }
}

fn read_string(buf: &Vec<u8>, pos: usize) -> (r: Option<(String, usize)>)
    requires
        pos <= buf.len(),
    ensures
        match r {
            Some((t, end)) => pos <= end <= buf.len() && dec_string(buf@.skip(pos as int)) == Some(
                (t@, buf@.skip(end as int)),
            ),
            None => dec_string(buf@.skip(pos as int)) is None,
        },
{
    proof {
        reveal(dec_string);
    }
    match read_byte_vec(buf, pos) {
        Some((bytes, end)) => match string_from_utf8(bytes) {
            Some(t) => Some((t, end)),
            None => None,
        },
        None => None,
    }
}

fn read_network_id(buf: &Vec<u8>, pos: usize) -> (r: Option<(NetworkId, usize)>)
    requires
        pos <= buf.len(),
    ensures
        match r {
            Some((v, end)) => pos <= end <= buf.len() && dec_network_id(buf@.skip(pos as int))
                == Some((v, buf@.skip(end as int))),
            None => dec_network_id(buf@.skip(pos as int)) is None,
        },
{
    match read_u64(buf, pos) {
        Some((owner, mid)) => match read_u32(buf, mid) {
            Some((index, end)) => Some((NetworkId { owner: SteamId(owner), index }, end)),
            None => None,
        },
        None => None,
    }
}

fn read_opt_network_id(buf: &Vec<u8>, pos: usize) -> (r: Option<(Option<NetworkId>, usize)>)
    requires
        pos <= buf.len(),
    ensures
        match r {
            Some((v, end)) => pos <= end <= buf.len() && dec_opt_network_id(buf@.skip(pos as int))
                == Some((v, buf@.skip(end as int))),
            None => dec_opt_network_id(buf@.skip(pos as int)) is None,
        },
{
    proof {
        reveal(dec_opt_network_id);
    }
    match read_u8(buf, pos) {
        Some((tag, mid)) => {
            if tag == 0 {
                Some((None, mid))
            } else if tag == 1 {
                match read_network_id(buf, mid) {
                    Some((id, end)) => Some((Some(id), end)),
                    None => None,
                }
            } else {
                None
            }
        },
        None => None,
    }
}

fn read_identity(buf: &Vec<u8>, pos: usize) -> (r: Option<(NetworkIdentity, usize)>)
    requires
        pos <= buf.len(),
    ensures
        match r {
            Some((v, end)) => pos <= end <= buf.len() && dec_identity(buf@.skip(pos as int))
                == Some((v@, buf@.skip(end as int))),
            None => dec_identity(buf@.skip(pos as int)) is None,
        },
{
    proof {
        reveal(dec_identity);
    }
    match read_network_id(buf, pos) {
        Some((id, p1)) => match read_opt_network_id(buf, p1) {
            Some((parent_id, p2)) => match read_string(buf, p2) {
                Some((path, end)) => {
                    let identity = NetworkIdentity {
                        id,
                        parent_id,
                        instantiation_path: FilePath(path),
                    };
                    assert(dec_identity(buf@.skip(pos as int)) == Some(
                        (identity@, buf@.skip(end as int)),
                    ));
                    Some((identity, end))
                },
                None => None,
            },
            None => None,
        },
        None => None,
    }
}

fn read_vec3(buf: &Vec<u8>, pos: usize) -> (r: Option<(Vec3Fixed, usize)>)
    requires
        pos <= buf.len(),
    ensures
        match r {
            Some((v, end)) => pos <= end <= buf.len() && dec_vec3(buf@.skip(pos as int)) == Some(
                (v, buf@.skip(end as int)),
            ),
            None => dec_vec3(buf@.skip(pos as int)) is None,
        },
{
    proof {
        reveal(dec_vec3);
    }
    match read_i32(buf, pos) {
        Some((x, p1)) => match read_i32(buf, p1) {
            Some((y, p2)) => match read_i32(buf, p2) {
                Some((z, end)) => Some((Vec3Fixed { x, y, z }, end)),
                None => None,
            },
            None => None,
        },
        None => None,
    }
}

fn read_quat(buf: &Vec<u8>, pos: usize) -> (r: Option<(QuatFixed, usize)>)
    requires
        pos <= buf.len(),
    ensures
        match r {
            Some((v, end)) => pos <= end <= buf.len() && dec_quat(buf@.skip(pos as int)) == Some(
                (v, buf@.skip(end as int)),
            ),
            None => dec_quat(buf@.skip(pos as int)) is None,
        },
{
    proof {
        reveal(dec_quat);
    }
    match read_i32(buf, pos) {
        Some((x, p1)) => match read_i32(buf, p1) {
            Some((y, p2)) => match read_i32(buf, p2) {
                Some((z, p3)) => match read_i32(buf, p3) {
                    Some((w, end)) => Some((QuatFixed { x, y, z, w }, end)),
                    None => None,
                },
                None => None,
            },
            None => None,
        },
        None => None,
    }
}

fn read_transform(buf: &Vec<u8>, pos: usize) -> (r: Option<(Transform, usize)>)
    requires
        pos <= buf.len(),
    ensures
        match r {
            Some((v, end)) => pos <= end <= buf.len() && dec_transform(buf@.skip(pos as int))
                == Some((v, buf@.skip(end as int))),
            None => dec_transform(buf@.skip(pos as int)) is None,
        },
{
    proof {
        reveal(dec_transform);
    }
    match read_vec3(buf, pos) {
        Some((translation, p1)) => match read_quat(buf, p1) {
            Some((rotation, p2)) => match read_vec3(buf, p2) {
                Some((scale, end)) => Some((Transform { translation, rotation, scale }, end)),
                None => None,
            },
            None => None,
        },
        None => None,
    }
}

fn read_opt_vec3(buf: &Vec<u8>, pos: usize) -> (r: Option<(Option<Vec3Fixed>, usize)>)
    requires
        pos <= buf.len(),
    ensures
        match r {
            Some((v, end)) => pos <= end <= buf.len() && dec_opt_vec3(buf@.skip(pos as int))
                == Some((v, buf@.skip(end as int))),
            None => dec_opt_vec3(buf@.skip(pos as int)) is None,
        },
{
    proof {
        reveal(dec_opt_vec3);
    }
    match read_u8(buf, pos) {
        Some((tag, mid)) => {
            if tag == 0 {
                Some((None, mid))
            } else if tag == 1 {
                match read_vec3(buf, mid) {
                    Some((v, end)) => Some((Some(v), end)),
                    None => None,
                }
            } else {
                None
            }
        },
        None => None,
    }
}

fn read_opt_quat(buf: &Vec<u8>, pos: usize) -> (r: Option<(Option<QuatFixed>, usize)>)
    requires
        pos <= buf.len(),
    ensures
        match r {
            Some((v, end)) => pos <= end <= buf.len() && dec_opt_quat(buf@.skip(pos as int))
                == Some((v, buf@.skip(end as int))),
            None => dec_opt_quat(buf@.skip(pos as int)) is None,
        },
{
    proof {
        reveal(dec_opt_quat);
    }
    match read_u8(buf, pos) {
        Some((tag, mid)) => {
            if tag == 0 {
                Some((None, mid))
            } else if tag == 1 {
                match read_quat(buf, mid) {
                    Some((q, end)) => Some((Some(q), end)),
                    None => None,
                }
            } else {
                None
            }
        },
        None => None,
    }
}

fn read_instantiation(buf: &Vec<u8>, pos: usize) -> (r: Option<(InstantiationData, usize)>)
    requires
        pos <= buf.len(),
    ensures
        match r {
            Some((v, end)) => pos <= end <= buf.len() && dec_instantiation(buf@.skip(pos as int))
                == Some((v@, buf@.skip(end as int))),
            None => dec_instantiation(buf@.skip(pos as int)) is None,
        },
{
    proof {
        reveal(dec_instantiation);
    }
    match read_identity(buf, pos) {
        Some((network_identity, p1)) => match read_transform(buf, p1) {
            Some((starting_transform, end)) => {
                let data = InstantiationData { network_identity, starting_transform };
                assert(dec_instantiation(buf@.skip(pos as int)) == Some(
                    (data@, buf@.skip(end as int)),
                ));
                Some((data, end))
            },
            None => None,
        },
        None => None,
    }
}

/// Deserialize one envelope from the front of a datagram buffer; trailing
/// bytes are ignored. Every received datagram passes through this once, and
/// an undecodable datagram yields `None` rather than a panic.
pub fn decode_network_data(buf: &Vec<u8>) -> (r: Option<NetworkData>)
    ensures
        r is Some <==> dec_data(buf@) is Some,
        r matches Some(d) ==> dec_data(buf@) matches Some(p) && d@ == p.0,
{
    proof {
        assert(buf@.skip(0) =~= buf@);
    }
    match read_u8(buf, 0) {
        Some((tag, p0)) => {
            if tag == 0 {
                match read_u64(buf, p0) {
                    Some((id, _end)) => Some(NetworkData::OtherJoined(SteamId(id))),
                    None => None,
                }
            } else if tag == 1 {
                match read_byte_vec(buf, p0) {
                    Some((bytes, p1)) => match read_u8(buf, p1) {
                        Some((index, _end)) => Some(NetworkData::Event(bytes, index)),
                        None => None,
                    },
                    None => None,
                }
            } else if tag == 2 {
                match read_identity(buf, p0) {
                    Some((identity, p1)) => match read_u8(buf, p1) {
                        Some((action, p2)) => match read_byte_vec(buf, p2) {
                            Some((bytes, _end)) => Some(
                                NetworkData::NetworkedAction(identity, action, bytes),
                            ),
                            None => None,
                        },
                        None => None,
                    },
                    None => None,
                }
            } else if tag == 3 {
                match read_instantiation(buf, p0) {
                    Some((data, _end)) => Some(NetworkData::Instantiate(data)),
                    None => None,
                }
            } else if tag == 4 {
                match read_identity(buf, p0) {
                    Some((identity, p1)) => match read_opt_vec3(buf, p1) {
                        Some((p, p2)) => match read_opt_quat(buf, p2) {
                            Some((rot, p3)) => match read_opt_vec3(buf, p3) {
                                Some((sc, _end)) => Some(
                                    NetworkData::TransformUpdate(identity, p, rot, sc),
                                ),
                                None => None,
                            },
                            None => None,
                        },
                        None => None,
                    },
                    None => None,
                }
            } else if tag == 5 {
                match read_identity(buf, p0) {
                    Some((identity, _end)) => Some(NetworkData::Destroy(identity)),
                    None => None,
                }
            } else if tag == 6 {
                match read_string(buf, p0) {
                    Some((text, _end)) => Some(NetworkData::NetworkMessage(text)),
                    None => None,
                }
            } else if tag == 7 {
                match read_string(buf, p0) {
                    Some((text, _end)) => Some(NetworkData::DebugMessage(text)),
                    None => None,
                }
            } else {
                None
            }
        },
        None => None,
    }
}

} // verus!
