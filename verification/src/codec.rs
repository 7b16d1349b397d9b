//! The binary wire format.
//!
//! Each message crosses the socket as one framed payload: a one-byte
//! variant tag followed by the fields in declaration order. Integers are
//! little-endian and fixed-width, strings carry a byte length and UTF-8
//! bytes, lists carry a count. The format is closed: a payload with an
//! unknown tag, a short field, ill-formed UTF-8 or trailing bytes is
//! rejected as a whole, never partly applied.
//!
//! `spec_decode_request`/`spec_decode_response` are the format's meaning;
//! the executable encoder and decoder are proved to match them, and the
//! round-trip lemmas at the bottom show decoding undoes encoding.

use vstd::bytes::{
    lemma_auto_spec_u128_to_from_le_bytes, lemma_auto_spec_u64_to_from_le_bytes,
    spec_u128_from_le_bytes, spec_u128_to_le_bytes, spec_u64_from_le_bytes, spec_u64_to_le_bytes,
    u128_from_le_bytes, u128_to_le_bytes, u64_from_le_bytes, u64_to_le_bytes,
};
use vstd::prelude::*;
use vstd::slice::slice_subrange;
use vstd::utf8::{decode_utf8, encode_utf8, valid_utf8};

use crate::ids::InstallationId;
use crate::protocol::{
    profile_seq_view, Inputs, RequestView, ResponseView, ServerRequest, ServerResponse,
    UserProfile, UserProfileView,
};

verus! {

// --- primitive fields -------------------------------------------------

/// A `u64` on the wire: eight bytes, little-endian.
pub open spec fn enc_u64(x: u64) -> Seq<u8> {
    spec_u64_to_le_bytes(x)
}

/// An `i64` on the wire: its two's-complement bits as a `u64`.
pub open spec fn enc_i64(x: i64) -> Seq<u8> {
    enc_u64(x as u64)
}

/// A 128-bit installation id on the wire: sixteen bytes, little-endian.
pub open spec fn enc_u128(x: u128) -> Seq<u8> {
    spec_u128_to_le_bytes(x)
}

/// Bytes with their length in front.
pub open spec fn enc_bytes(b: Seq<u8>) -> Seq<u8> {
    enc_u64(b.len() as u64) + b
}

/// A string on the wire: its UTF-8 bytes with their length in front.
pub open spec fn enc_str(s: Seq<char>) -> Seq<u8> {
    enc_bytes(encode_utf8(s))
}

pub open spec fn dec_u64(b: Seq<u8>, pos: int) -> Option<(u64, int)> {
    if 0 <= pos && pos + 8 <= b.len() {
        Some((spec_u64_from_le_bytes(b.subrange(pos, pos + 8)), pos + 8))
    } else {
        None
    }
}

pub open spec fn dec_i64(b: Seq<u8>, pos: int) -> Option<(i64, int)> {
    match dec_u64(b, pos) {
        Some((x, p)) => Some((x as i64, p)),
        None => None,
    }
}

pub open spec fn dec_u128(b: Seq<u8>, pos: int) -> Option<(u128, int)> {
    if 0 <= pos && pos + 16 <= b.len() {
        Some((spec_u128_from_le_bytes(b.subrange(pos, pos + 16)), pos + 16))
    } else {
        None
    }
}

pub open spec fn dec_str(b: Seq<u8>, pos: int) -> Option<(Seq<char>, int)> {
    match dec_u64(b, pos) {
        None => None,
        Some((n, p)) => {
            if p + n <= b.len() {
                let bytes = b.subrange(p, p + n);
                if valid_utf8(bytes) {
                    Some((decode_utf8(bytes), p + n))
                } else {
                    None
                }
            } else {
                None
            }
        },
    }
}

/// Casting an `i64` through its bit pattern and back returns it.
proof fn lemma_i64_cast_round_trip(x: i64)
    ensures
        (x as u64) as i64 == x,
{
    assert((x as u64) as i64 == x) by (bit_vector);
}

/// What a `u64` written at `pos` reads back as.
proof fn lemma_dec_u64(b: Seq<u8>, pos: int, x: u64)
    requires
        0 <= pos,
        pos + 8 <= b.len(),
        b.subrange(pos, pos + 8) == enc_u64(x),
    ensures
        dec_u64(b, pos) == Some((x, pos + 8)),
{
    lemma_auto_spec_u64_to_from_le_bytes();
}

/// What a `u128` written at `pos` reads back as.
proof fn lemma_dec_u128(b: Seq<u8>, pos: int, x: u128)
    requires
        0 <= pos,
        pos + 16 <= b.len(),
        b.subrange(pos, pos + 16) == enc_u128(x),
    ensures
        dec_u128(b, pos) == Some((x, pos + 16)),
{
    lemma_auto_spec_u128_to_from_le_bytes();
    assert(spec_u128_to_le_bytes(x).len() == 16);
    assert(spec_u128_from_le_bytes(spec_u128_to_le_bytes(x)) == x);
}

/// Two fields written in a row are found one after the other.
proof fn lemma_parse_concat(b: Seq<u8>, pos: int, s1: Seq<u8>, s2: Seq<u8>)
    requires
        0 <= pos,
        pos + s1.len() + s2.len() <= b.len(),
        b.subrange(pos, pos + s1.len() + s2.len()) == s1 + s2,
    ensures
        b.subrange(pos, pos + s1.len()) == s1,
        b.subrange(pos + s1.len(), pos + s1.len() + s2.len()) == s2,
{
    let whole = b.subrange(pos, pos + s1.len() + s2.len());
    assert forall|j: int| 0 <= j < s1.len() implies b[pos + j] == s1[j] by {
        assert(whole[j] == b[pos + j]);
        assert((s1 + s2)[j] == s1[j]);
    }
    assert forall|j: int| 0 <= j < s2.len() implies b[pos + s1.len() + j] == s2[j] by {
        assert(whole[s1.len() + j] == b[pos + s1.len() + j]);
        assert((s1 + s2)[s1.len() + j] == s2[j]);
    }
    assert(b.subrange(pos, pos + s1.len()) =~= s1);
    assert(b.subrange(pos + s1.len(), pos + s1.len() + s2.len()) =~= s2);
}

/// What a string written at `pos` reads back as.
proof fn lemma_dec_str(b: Seq<u8>, pos: int, s: Seq<char>)
    requires
        0 <= pos,
        encode_utf8(s).len() < 0x1_0000_0000_0000_0000,
        pos + enc_str(s).len() <= b.len(),
        b.subrange(pos, pos + enc_str(s).len()) == enc_str(s),
    ensures
        dec_str(b, pos) == Some((s, pos + enc_str(s).len())),
{
    let bytes = encode_utf8(s);
    let n = bytes.len() as u64;
    lemma_auto_spec_u64_to_from_le_bytes();
    assert(enc_str(s) == enc_u64(n) + bytes);
    lemma_parse_concat(b, pos, enc_u64(n), bytes);
    lemma_dec_u64(b, pos, n);
    vstd::utf8::encode_utf8_valid_utf8(s);
    vstd::utf8::encode_utf8_decode_utf8(s);
}

// --- executable primitives --------------------------------------------

/// Appends a `u64` field.
fn write_u64(out: &mut Vec<u8>, x: u64)
    ensures
        final(out)@ == old(out)@ + enc_u64(x),
{
    let mut bytes = u64_to_le_bytes(x);
    out.append(&mut bytes);
}

/// Appends an `i64` field.
fn write_i64(out: &mut Vec<u8>, x: i64)
    ensures
        final(out)@ == old(out)@ + enc_i64(x),
{
    write_u64(out, x as u64);
}

/// Appends an installation-id field.
fn write_u128(out: &mut Vec<u8>, x: u128)
    ensures
        final(out)@ == old(out)@ + enc_u128(x),
{
    let mut bytes = u128_to_le_bytes(x);
    out.append(&mut bytes);
}

/// Appends a string field.
fn write_str(out: &mut Vec<u8>, s: &String)
    ensures
        final(out)@ == old(out)@ + enc_str(s@),
{
    let mut bytes = s.as_str().as_bytes_vec();
    write_u64(out, bytes.len() as u64);
    out.append(&mut bytes);
    proof {
        assert(out@ =~= old(out)@ + enc_str(s@));
    }
}

/// Reads a `u64` field.
fn read_u64(b: &Vec<u8>, pos: usize) -> (r: Option<(u64, usize)>)
    ensures
        match r {
            Some((x, p)) => dec_u64(b@, pos as int) == Some((x, p as int)),
            None => dec_u64(b@, pos as int) is None,
        },
{
    if pos <= b.len() && b.len() - pos >= 8 {
        let x = u64_from_le_bytes(slice_subrange(b.as_slice(), pos, pos + 8));
        Some((x, pos + 8))
    } else {
        None
    }
}

/// Reads an `i64` field.
fn read_i64(b: &Vec<u8>, pos: usize) -> (r: Option<(i64, usize)>)
    ensures
        match r {
            Some((x, p)) => dec_i64(b@, pos as int) == Some((x, p as int)),
            None => dec_i64(b@, pos as int) is None,
        },
{
    match read_u64(b, pos) {
        Some((x, p)) => Some((x as i64, p)),
        None => None,
    }
}

/// Reads an installation-id field.
fn read_u128(b: &Vec<u8>, pos: usize) -> (r: Option<(u128, usize)>)
    ensures
        match r {
            Some((x, p)) => dec_u128(b@, pos as int) == Some((x, p as int)),
            None => dec_u128(b@, pos as int) is None,
        },
{
    if pos <= b.len() && b.len() - pos >= 16 {
        let x = u128_from_le_bytes(slice_subrange(b.as_slice(), pos, pos + 16));
        Some((x, pos + 16))
    } else {
        None
    }
}

/// Turns length-checked bytes back into the string they encode.
///
/// Relies on std's `String::from_utf8`: it succeeds exactly on valid
/// UTF-8 and returns the string those bytes spell, the relation vstd's
/// own UTF-8 model states for `str::from_utf8_unchecked`.
#[verifier::external_body]
fn string_from_utf8(bytes: Vec<u8>) -> (r: Option<String>)
    ensures
        match r {
            Some(s) => valid_utf8(bytes@) && s@ == decode_utf8(bytes@),
            None => !valid_utf8(bytes@),
        },
{
    String::from_utf8(bytes).ok()
}

/// Reads a string field.
fn read_str(b: &Vec<u8>, pos: usize) -> (r: Option<(String, usize)>)
    ensures
        match r {
            Some((s, p)) => dec_str(b@, pos as int) == Some((s@, p as int)),
            None => dec_str(b@, pos as int) is None,
        },
{
    match read_u64(b, pos) {
        None => None,
        Some((n, p)) => {
            if n <= (b.len() - p) as u64 {
                let end = p + (n as usize);
                let bytes = vstd::slice::slice_to_vec(slice_subrange(b.as_slice(), p, end));
                match string_from_utf8(bytes) {
                    Some(s) => Some((s, end)),
                    None => None,
                }
            } else {
                None
            }
        },
    }
}

// --- composite fields -------------------------------------------------

/// A byte read straight off the buffer; variant and option tags.
pub open spec fn dec_u8(b: Seq<u8>, pos: int) -> Option<(u8, int)> {
    if 0 <= pos && pos < b.len() {
        Some((b[pos], pos + 1))
    } else {
        None
    }
}

pub open spec fn enc_bool(v: bool) -> Seq<u8> {
    if v {
        seq![1u8]
    } else {
        seq![0u8]
    }
}

pub open spec fn dec_bool(b: Seq<u8>, pos: int) -> Option<(bool, int)> {
    match dec_u8(b, pos) {
        Some((t, p)) => if t == 0 {
            Some((false, p))
        } else if t == 1 {
            Some((true, p))
        } else {
            None
        },
        None => None,
    }
}

pub open spec fn enc_opt_id(o: Option<InstallationId>) -> Seq<u8> {
    match o {
        None => seq![0u8],
        Some(id) => seq![1u8] + enc_u128(id.value),
    }
}

pub open spec fn dec_opt_id(b: Seq<u8>, pos: int) -> Option<(Option<InstallationId>, int)> {
    match dec_u8(b, pos) {
        Some((t, p)) => if t == 0 {
            Some((None, p))
        } else if t == 1 {
            match dec_u128(b, p) {
                Some((x, p2)) => Some((Some(InstallationId { value: x }), p2)),
                None => None,
            }
        } else {
            None
        },
        None => None,
    }
}

pub open spec fn enc_opt_i64(o: Option<i64>) -> Seq<u8> {
    match o {
        None => seq![0u8],
        Some(x) => seq![1u8] + enc_i64(x),
    }
}

pub open spec fn dec_opt_i64(b: Seq<u8>, pos: int) -> Option<(Option<i64>, int)> {
    match dec_u8(b, pos) {
        Some((t, p)) => if t == 0 {
            Some((None, p))
        } else if t == 1 {
            match dec_i64(b, p) {
                Some((x, p2)) => Some((Some(x), p2)),
                None => None,
            }
        } else {
            None
        },
        None => None,
    }
}

pub open spec fn enc_opt_str(o: Option<Seq<char>>) -> Seq<u8> {
    match o {
        None => seq![0u8],
        Some(s) => seq![1u8] + enc_str(s),
    }
}

pub open spec fn dec_opt_str(b: Seq<u8>, pos: int) -> Option<(Option<Seq<char>>, int)> {
    match dec_u8(b, pos) {
        Some((t, p)) => if t == 0 {
            Some((None, p))
        } else if t == 1 {
            match dec_str(b, p) {
                Some((s, p2)) => Some((Some(s), p2)),
                None => None,
            }
        } else {
            None
        },
        None => None,
    }
}

pub open spec fn enc_inputs(i: Inputs) -> Seq<u8> {
    enc_i64(i.horizontal_movement) + enc_bool(i.interact)
}

pub open spec fn dec_inputs(b: Seq<u8>, pos: int) -> Option<(Inputs, int)> {
    match dec_i64(b, pos) {
        Some((h, p)) => match dec_bool(b, p) {
            Some((v, p2)) => Some((Inputs { horizontal_movement: h, interact: v }, p2)),
            None => None,
        },
        None => None,
    }
}

pub open spec fn enc_opt_inputs(o: Option<Inputs>) -> Seq<u8> {
    match o {
        None => seq![0u8],
        Some(i) => seq![1u8] + enc_inputs(i),
    }
}

pub open spec fn dec_opt_inputs(b: Seq<u8>, pos: int) -> Option<(Option<Inputs>, int)> {
    match dec_u8(b, pos) {
        Some((t, p)) => if t == 0 {
            Some((None, p))
        } else if t == 1 {
            match dec_inputs(b, p) {
                Some((i, p2)) => Some((Some(i), p2)),
                None => None,
            }
        } else {
            None
        },
        None => None,
    }
}

/// A profile on the wire: its fields in declaration order.
pub open spec fn enc_profile(p: UserProfileView) -> Seq<u8> {
    enc_i64(p.id) + enc_str(p.username) + enc_i64(p.x_offset) + enc_i64(p.horizontal_input)
        + enc_opt_i64(p.last_update_timestamp)
}

pub open spec fn dec_profile(b: Seq<u8>, pos: int) -> Option<(UserProfileView, int)> {
    match dec_i64(b, pos) {
        None => None,
        Some((id, p1)) => match dec_str(b, p1) {
            None => None,
            Some((username, p2)) => match dec_i64(b, p2) {
                None => None,
                Some((x_offset, p3)) => match dec_i64(b, p3) {
                    None => None,
                    Some((horizontal_input, p4)) => match dec_opt_i64(b, p4) {
                        None => None,
                        Some((last_update_timestamp, p5)) => Some(
                            (
                                UserProfileView {
                                    id,
                                    username,
                                    x_offset,
                                    horizontal_input,
                                    last_update_timestamp,
                                },
                                p5,
                            ),
                        ),
                    },
                },
            },
        },
    }
}

/// Profiles in order, with no count in front.
pub open spec fn enc_profiles(s: Seq<UserProfileView>) -> Seq<u8>
    decreases s.len(),
{
    if s.len() == 0 {
        Seq::<u8>::empty()
    } else {
        enc_profile(s[0]) + enc_profiles(s.subrange(1, s.len() as int))
    }
}

/// A profile list on the wire: a count, then the profiles.
pub open spec fn enc_profile_list(s: Seq<UserProfileView>) -> Seq<u8> {
    enc_u64(s.len() as u64) + enc_profiles(s)
}

pub open spec fn dec_profiles(b: Seq<u8>, pos: int, n: int) -> Option<(Seq<UserProfileView>, int)>
    decreases n,
{
    if n <= 0 {
        Some((Seq::<UserProfileView>::empty(), pos))
    } else {
        match dec_profile(b, pos) {
            None => None,
            Some((p, p1)) => match dec_profiles(b, p1, n - 1) {
                None => None,
                Some((rest, p2)) => Some((seq![p] + rest, p2)),
            },
        }
    }
}

pub open spec fn dec_profile_list(b: Seq<u8>, pos: int) -> Option<(Seq<UserProfileView>, int)> {
    match dec_u64(b, pos) {
        None => None,
        Some((n, p)) => dec_profiles(b, p, n as int),
    }
}

// --- whole messages ---------------------------------------------------

/// A request payload: variant tag, then the fields.
pub open spec fn spec_encode_request(v: RequestView) -> Seq<u8> {
    match v {
        RequestView::Authenticate { version, installation_id } => seq![0u8] + enc_str(version)
            + enc_opt_id(installation_id),
        RequestView::AuthenticationUrl => seq![1u8],
        RequestView::Update { new_inputs, x_offset, timestamp } => seq![2u8] + enc_opt_inputs(
            new_inputs,
        ) + enc_i64(x_offset) + enc_i64(timestamp),
        RequestView::Pong { original_timestamp, timestamp } => seq![3u8] + enc_i64(
            original_timestamp,
        ) + enc_i64(timestamp),
    }
}

/// What a request payload means: the decoded request, or nothing for a
/// short or overlong payload, an unknown tag, or ill-formed UTF-8.
pub open spec fn spec_decode_request(b: Seq<u8>) -> Option<RequestView> {
    match dec_u8(b, 0) {
        None => None,
        Some((tag, p0)) => if tag == 0 {
            match dec_str(b, p0) {
                None => None,
                Some((version, p1)) => match dec_opt_id(b, p1) {
                    None => None,
                    Some((installation_id, p2)) => if p2 == b.len() {
                        Some(RequestView::Authenticate { version, installation_id })
                    } else {
                        None
                    },
                },
            }
        } else if tag == 1 {
            if p0 == b.len() {
                Some(RequestView::AuthenticationUrl)
            } else {
                None
            }
        } else if tag == 2 {
            match dec_opt_inputs(b, p0) {
                None => None,
                Some((new_inputs, p1)) => match dec_i64(b, p1) {
                    None => None,
                    Some((x_offset, p2)) => match dec_i64(b, p2) {
                        None => None,
                        Some((timestamp, p3)) => if p3 == b.len() {
                            Some(RequestView::Update { new_inputs, x_offset, timestamp })
                        } else {
                            None
                        },
                    },
                },
            }
        } else if tag == 3 {
            match dec_i64(b, p0) {
                None => None,
                Some((original_timestamp, p1)) => match dec_i64(b, p1) {
                    None => None,
                    Some((timestamp, p2)) => if p2 == b.len() {
                        Some(RequestView::Pong { original_timestamp, timestamp })
                    } else {
                        None
                    },
                },
            }
        } else {
            None
        },
    }
}

/// A response payload: variant tag, then the fields.
pub open spec fn spec_encode_response(v: ResponseView) -> Seq<u8> {
    match v {
        ResponseView::AdoptInstallationId { installation_id } => seq![0u8] + enc_u128(
            installation_id.value,
        ),
        ResponseView::AuthenticateAtUrl { url } => seq![1u8] + enc_str(url),
        ResponseView::Authenticated { profile } => seq![2u8] + enc_profile(profile),
        ResponseView::Error { message } => seq![3u8] + enc_opt_str(message),
        ResponseView::WorldUpdate { timestamp, profiles } => seq![4u8] + enc_i64(timestamp)
            + enc_profile_list(profiles),
        ResponseView::Ping { timestamp, average_server_timestamp_delta, average_roundtrip } => seq![
            5u8,
        ] + enc_i64(timestamp) + enc_i64(average_server_timestamp_delta) + enc_u64(
            average_roundtrip,
        ),
    }
}

/// What a response payload means, in the same closed way.
pub open spec fn spec_decode_response(b: Seq<u8>) -> Option<ResponseView> {
    match dec_u8(b, 0) {
        None => None,
        Some((tag, p0)) => if tag == 0 {
            match dec_u128(b, p0) {
                None => None,
                Some((x, p1)) => if p1 == b.len() {
                    Some(
                        ResponseView::AdoptInstallationId {
                            installation_id: InstallationId { value: x },
                        },
                    )
                } else {
                    None
                },
            }
        } else if tag == 1 {
            match dec_str(b, p0) {
                None => None,
                Some((url, p1)) => if p1 == b.len() {
                    Some(ResponseView::AuthenticateAtUrl { url })
                } else {
                    None
                },
            }
        } else if tag == 2 {
            match dec_profile(b, p0) {
                None => None,
                Some((profile, p1)) => if p1 == b.len() {
                    Some(ResponseView::Authenticated { profile })
                } else {
                    None
                },
            }
        } else if tag == 3 {
            match dec_opt_str(b, p0) {
                None => None,
                Some((message, p1)) => if p1 == b.len() {
                    Some(ResponseView::Error { message })
                } else {
                    None
                },
            }
        } else if tag == 4 {
            match dec_i64(b, p0) {
                None => None,
                Some((timestamp, p1)) => match dec_profile_list(b, p1) {
                    None => None,
                    Some((profiles, p2)) => if p2 == b.len() {
                        Some(ResponseView::WorldUpdate { timestamp, profiles })
                    } else {
                        None
                    },
                },
            }
        } else if tag == 5 {
            match dec_i64(b, p0) {
                None => None,
                Some((timestamp, p1)) => match dec_i64(b, p1) {
                    None => None,
                    Some((average_server_timestamp_delta, p2)) => match dec_u64(b, p2) {
                        None => None,
                        Some((average_roundtrip, p3)) => if p3 == b.len() {
                            Some(
                                ResponseView::Ping {
                                    timestamp,
                                    average_server_timestamp_delta,
                                    average_roundtrip,
                                },
                            )
                        } else {
                            None
                        },
                    },
                },
            }
        } else {
            None
        },
    }
}

// --- executable encoder -----------------------------------------------

/// Appends a tag or option byte.
fn write_u8(out: &mut Vec<u8>, x: u8)
    ensures
        final(out)@ == old(out)@ + seq![x],
{
    out.push(x);
    proof {
        assert(out@ =~= old(out)@ + seq![x]);
    }
}

/// Appends a bool field.
fn write_bool(out: &mut Vec<u8>, v: bool)
    ensures
        final(out)@ == old(out)@ + enc_bool(v),
{
    write_u8(out, if v { 1 } else { 0 });
}

/// Appends an optional installation id.
fn write_opt_id(out: &mut Vec<u8>, o: Option<InstallationId>)
    ensures
        final(out)@ == old(out)@ + enc_opt_id(o),
{
    match o {
        None => write_u8(out, 0),
        Some(id) => {
            write_u8(out, 1);
            write_u128(out, id.value);
            proof {
                assert(out@ =~= old(out)@ + enc_opt_id(o));
            }
        },
    }
}

/// Appends an optional timestamp.
fn write_opt_i64(out: &mut Vec<u8>, o: Option<i64>)
    ensures
        final(out)@ == old(out)@ + enc_opt_i64(o),
{
    match o {
        None => write_u8(out, 0),
        Some(x) => {
            write_u8(out, 1);
            write_i64(out, x);
            proof {
                assert(out@ =~= old(out)@ + enc_opt_i64(o));
            }
        },
    }
}

/// Appends an optional message text.
fn write_opt_str(out: &mut Vec<u8>, o: &Option<String>)
    ensures
        final(out)@ == old(out)@ + enc_opt_str(
            match o {
                Some(s) => Some(s@),
                None => None,
            },
        ),
{
    match o {
        None => write_u8(out, 0),
        Some(s) => {
            write_u8(out, 1);
            write_str(out, s);
            proof {
                assert(out@ =~= old(out)@ + enc_opt_str(Some(s@)));
            }
        },
    }
}

/// Appends an input report.
fn write_inputs(out: &mut Vec<u8>, i: Inputs)
    ensures
        final(out)@ == old(out)@ + enc_inputs(i),
{
    write_i64(out, i.horizontal_movement);
    write_bool(out, i.interact);
    proof {
        assert(out@ =~= old(out)@ + enc_inputs(i));
    }
}

/// Appends an optional input report.
fn write_opt_inputs(out: &mut Vec<u8>, o: Option<Inputs>)
    ensures
        final(out)@ == old(out)@ + enc_opt_inputs(o),
{
    match o {
        None => write_u8(out, 0),
        Some(i) => {
            write_u8(out, 1);
            write_inputs(out, i);
            proof {
                assert(out@ =~= old(out)@ + enc_opt_inputs(o));
            }
        },
    }
}

/// Appends one profile.
fn write_profile(out: &mut Vec<u8>, p: &UserProfile)
    ensures
        final(out)@ == old(out)@ + enc_profile(p@),
{
    write_i64(out, p.id);
    write_str(out, &p.username);
    write_i64(out, p.x_offset);
    write_i64(out, p.horizontal_input);
    write_opt_i64(out, p.last_update_timestamp);
    proof {
        assert(out@ =~= old(out)@ + enc_profile(p@));
    }
}

/// Splitting a profile sequence's encoding at its last element.
proof fn lemma_enc_profiles_push(s: Seq<UserProfileView>, p: UserProfileView)
    ensures
        enc_profiles(s.push(p)) == enc_profiles(s) + enc_profile(p),
    decreases s.len(),
{
    if s.len() == 0 {
        assert(s.push(p)[0] == p);
        assert(s.push(p).subrange(1, 1) =~= Seq::<UserProfileView>::empty());
        assert(enc_profiles(Seq::<UserProfileView>::empty()) == Seq::<u8>::empty());
        assert(enc_profiles(s.push(p)) == enc_profile(p) + Seq::<u8>::empty());
        assert(enc_profiles(s.push(p)) =~= enc_profiles(s) + enc_profile(p));
    } else {
        assert(s.push(p).subrange(1, s.push(p).len() as int) =~= s.subrange(
            1,
            s.len() as int,
        ).push(p));
        lemma_enc_profiles_push(s.subrange(1, s.len() as int), p);
        assert(s.push(p)[0] == s[0]);
        assert(enc_profiles(s.push(p)) == enc_profile(s[0]) + enc_profiles(
            s.subrange(1, s.len() as int).push(p),
        ));
        assert(enc_profiles(s.push(p)) == enc_profile(s[0]) + (enc_profiles(
            s.subrange(1, s.len() as int),
        ) + enc_profile(p)));
        assert(enc_profiles(s) == enc_profile(s[0]) + enc_profiles(s.subrange(1, s.len() as int)));
        assert(enc_profiles(s.push(p)) =~= enc_profiles(s) + enc_profile(p));
    }
}

/// Appends a counted profile list.
fn write_profile_list(out: &mut Vec<u8>, profiles: &Vec<UserProfile>)
    ensures
        final(out)@ == old(out)@ + enc_profile_list(profile_seq_view(profiles@)),
{
    write_u64(out, profiles.len() as u64);
    let ghost all = profile_seq_view(profiles@);
    let ghost base = out@;
    let mut i: usize = 0;
    while i < profiles.len()
        invariant
            i <= profiles@.len(),
            all == profile_seq_view(profiles@),
            all.len() == profiles@.len(),
            forall|q: int| 0 <= q < profiles@.len() ==> all[q] == #[trigger] profiles@[q]@,
            out@ == base + enc_profiles(all.take(i as int)),
        decreases profiles@.len() - i,
    {
        write_profile(out, &profiles[i]);
        proof {
            lemma_enc_profiles_push(all.take(i as int), all[i as int]);
            assert(all.take(i as int).push(all[i as int]) =~= all.take(i as int + 1));
            assert(out@ =~= base + enc_profiles(all.take(i as int + 1)));
        }
        i = i + 1;
    }
    proof {
        assert(all.take(all.len() as int) == all);
        assert(out@ =~= old(out)@ + enc_profile_list(all));
    }
}

/// Encodes one request as a payload.
pub fn encode_request(m: &ServerRequest) -> (out: Vec<u8>)
    ensures
        out@ == spec_encode_request(m@),
{
    let mut out: Vec<u8> = Vec::new();
    match m {
        ServerRequest::Authenticate { version, installation_id } => {
            write_u8(&mut out, 0);
            write_str(&mut out, version);
            write_opt_id(&mut out, *installation_id);
        },
        ServerRequest::AuthenticationUrl => {
            write_u8(&mut out, 1);
        },
        ServerRequest::Update { new_inputs, x_offset, timestamp } => {
            write_u8(&mut out, 2);
            write_opt_inputs(&mut out, *new_inputs);
            write_i64(&mut out, *x_offset);
            write_i64(&mut out, *timestamp);
        },
        ServerRequest::Pong { original_timestamp, timestamp } => {
            write_u8(&mut out, 3);
            write_i64(&mut out, *original_timestamp);
            write_i64(&mut out, *timestamp);
        },
    }
    proof {
        assert(out@ =~= spec_encode_request(m@));
    }
    out
}

/// Encodes one response as a payload.
pub fn encode_response(m: &ServerResponse) -> (out: Vec<u8>)
    ensures
        out@ == spec_encode_response(m@),
{
    let mut out: Vec<u8> = Vec::new();
    match m {
        ServerResponse::AdoptInstallationId { installation_id } => {
            write_u8(&mut out, 0);
            write_u128(&mut out, installation_id.value);
        },
        ServerResponse::AuthenticateAtUrl { url } => {
            write_u8(&mut out, 1);
            write_str(&mut out, url);
        },
        ServerResponse::Authenticated { profile } => {
            write_u8(&mut out, 2);
            write_profile(&mut out, profile);
        },
        ServerResponse::Error { message } => {
            write_u8(&mut out, 3);
            write_opt_str(&mut out, message);
        },
        ServerResponse::WorldUpdate { timestamp, profiles } => {
            write_u8(&mut out, 4);
            write_i64(&mut out, *timestamp);
            write_profile_list(&mut out, profiles);
        },
        ServerResponse::Ping { timestamp, average_server_timestamp_delta, average_roundtrip } => {
            write_u8(&mut out, 5);
            write_i64(&mut out, *timestamp);
            write_i64(&mut out, *average_server_timestamp_delta);
            write_u64(&mut out, *average_roundtrip);
        },
    }
    proof {
        assert(out@ =~= spec_encode_response(m@));
    }
    out
}

// --- executable decoder -----------------------------------------------

/// Reads a tag or option byte.
fn read_u8(b: &Vec<u8>, pos: usize) -> (r: Option<(u8, usize)>)
    ensures
        match r {
            Some((x, p)) => dec_u8(b@, pos as int) == Some((x, p as int)),
            None => dec_u8(b@, pos as int) is None,
        },
{
    if pos < b.len() {
        Some((b[pos], pos + 1))
    } else {
        None
    }
}

/// Reads a bool field.
fn read_bool(b: &Vec<u8>, pos: usize) -> (r: Option<(bool, usize)>)
    ensures
        match r {
            Some((v, p)) => dec_bool(b@, pos as int) == Some((v, p as int)),
            None => dec_bool(b@, pos as int) is None,
        },
{
    match read_u8(b, pos) {
        None => None,
        Some((t, p)) => {
            if t == 0 {
                Some((false, p))
            } else if t == 1 {
                Some((true, p))
            } else {
                None
            }
        },
    }
}

/// Reads an optional installation id.
fn read_opt_id(b: &Vec<u8>, pos: usize) -> (r: Option<(Option<InstallationId>, usize)>)
    ensures
        match r {
            Some((o, p)) => dec_opt_id(b@, pos as int) == Some((o, p as int)),
            None => dec_opt_id(b@, pos as int) is None,
        },
{
    match read_u8(b, pos) {
        None => None,
        Some((t, p)) => {
            if t == 0 {
                Some((None, p))
            } else if t == 1 {
                match read_u128(b, p) {
                    None => None,
                    Some((x, p2)) => Some((Some(InstallationId { value: x }), p2)),
                }
            } else {
                None
            }
        },
    }
}

/// Reads an optional timestamp.
fn read_opt_i64(b: &Vec<u8>, pos: usize) -> (r: Option<(Option<i64>, usize)>)
    ensures
        match r {
            Some((o, p)) => dec_opt_i64(b@, pos as int) == Some((o, p as int)),
            None => dec_opt_i64(b@, pos as int) is None,
        },
{
    match read_u8(b, pos) {
        None => None,
        Some((t, p)) => {
            if t == 0 {
                Some((None, p))
            } else if t == 1 {
                match read_i64(b, p) {
                    None => None,
                    Some((x, p2)) => Some((Some(x), p2)),
                }
            } else {
                None
            }
        },
    }
}

/// Reads an optional message text.
fn read_opt_str(b: &Vec<u8>, pos: usize) -> (r: Option<(Option<String>, usize)>)
    ensures
        match r {
            Some((o, p)) => dec_opt_str(b@, pos as int) == Some(
                (
                    match o {
                        Some(s) => Some(s@),
                        None => None,
                    },
                    p as int,
                ),
            ),
            None => dec_opt_str(b@, pos as int) is None,
        },
{
    match read_u8(b, pos) {
        None => None,
        Some((t, p)) => {
            if t == 0 {
                Some((None, p))
            } else if t == 1 {
                match read_str(b, p) {
                    None => None,
                    Some((s, p2)) => Some((Some(s), p2)),
                }
            } else {
                None
            }
        },
    }
}

/// Reads an input report.
fn read_inputs(b: &Vec<u8>, pos: usize) -> (r: Option<(Inputs, usize)>)
    ensures
        match r {
            Some((i, p)) => dec_inputs(b@, pos as int) == Some((i, p as int)),
            None => dec_inputs(b@, pos as int) is None,
        },
{
    match read_i64(b, pos) {
        None => None,
        Some((h, p)) => match read_bool(b, p) {
            None => None,
            Some((v, p2)) => Some((Inputs { horizontal_movement: h, interact: v }, p2)),
        },
    }
}

/// Reads an optional input report.
fn read_opt_inputs(b: &Vec<u8>, pos: usize) -> (r: Option<(Option<Inputs>, usize)>)
    ensures
        match r {
            Some((o, p)) => dec_opt_inputs(b@, pos as int) == Some((o, p as int)),
            None => dec_opt_inputs(b@, pos as int) is None,
        },
{
    match read_u8(b, pos) {
        None => None,
        Some((t, p)) => {
            if t == 0 {
                Some((None, p))
            } else if t == 1 {
                match read_inputs(b, p) {
                    None => None,
                    Some((i, p2)) => Some((Some(i), p2)),
                }
            } else {
                None
            }
        },
    }
}

/// Reads one profile.
fn read_profile(b: &Vec<u8>, pos: usize) -> (r: Option<(UserProfile, usize)>)
    ensures
        match r {
            Some((profile, p)) => dec_profile(b@, pos as int) == Some((profile@, p as int)),
            None => dec_profile(b@, pos as int) is None,
        },
{
    match read_i64(b, pos) {
        None => None,
        Some((id, p1)) => match read_str(b, p1) {
            None => None,
            Some((username, p2)) => match read_i64(b, p2) {
                None => None,
                Some((x_offset, p3)) => match read_i64(b, p3) {
                    None => None,
                    Some((horizontal_input, p4)) => match read_opt_i64(b, p4) {
                        None => None,
                        Some((last_update_timestamp, p5)) => Some(
                            (
                                UserProfile {
                                    id,
                                    username,
                                    x_offset,
                                    horizontal_input,
                                    last_update_timestamp,
                                },
                                p5,
                            ),
                        ),
                    },
                },
            },
        },
    }
}

/// Reads `n` profiles in a row.
fn read_profiles(b: &Vec<u8>, pos: usize, n: u64) -> (r: Option<(Vec<UserProfile>, usize)>)
    ensures
        match r {
            Some((v, p)) => dec_profiles(b@, pos as int, n as int) == Some(
                (profile_seq_view(v@), p as int),
            ),
            None => dec_profiles(b@, pos as int, n as int) is None,
        },
{
    let mut acc: Vec<UserProfile> = Vec::new();
    let mut cur: usize = pos;
    let mut remaining: u64 = n;
    while remaining > 0
        invariant
            match dec_profiles(b@, cur as int, remaining as int) {
                Some((rest, p)) => dec_profiles(b@, pos as int, n as int) == Some(
                    (profile_seq_view(acc@) + rest, p),
                ),
                None => dec_profiles(b@, pos as int, n as int) is None,
            },
        decreases remaining,
    {
        match read_profile(b, cur) {
            None => {
                return None;
            },
            Some((profile, p1)) => {
                let ghost acc0 = acc@;
                acc.push(profile);
                proof {
                    assert(profile_seq_view(acc@) =~= profile_seq_view(acc0).push(profile@));
                }
                cur = p1;
                remaining = remaining - 1;
                proof {
                    match dec_profiles(b@, cur as int, remaining as int) {
                        Some((rest, p)) => {
                            assert(profile_seq_view(acc@) + rest =~= profile_seq_view(acc0) + (seq![
                                profile@,
                            ] + rest));
                        },
                        None => {},
                    }
                }
            },
        }
    }
    proof {
        assert(dec_profiles(b@, cur as int, 0) == Some(
            (Seq::<UserProfileView>::empty(), cur as int),
        ));
        assert(profile_seq_view(acc@) + Seq::<UserProfileView>::empty() =~= profile_seq_view(
            acc@,
        ));
    }
    Some((acc, cur))
}

/// Decodes one request payload; rejects anything the format does not
/// spell out, including unknown tags and trailing bytes.
pub fn decode_request(b: &Vec<u8>) -> (r: Option<ServerRequest>)
    ensures
        match r {
            Some(m) => spec_decode_request(b@) == Some(m@),
            None => spec_decode_request(b@) is None,
        },
{
    match read_u8(b, 0) {
        None => None,
        Some((tag, p0)) => {
            if tag == 0 {
                match read_str(b, p0) {
                    None => None,
                    Some((version, p1)) => match read_opt_id(b, p1) {
                        None => None,
                        Some((installation_id, p2)) => {
                            if p2 == b.len() {
                                Some(ServerRequest::Authenticate { version, installation_id })
                            } else {
                                None
                            }
                        },
                    },
                }
            } else if tag == 1 {
                if p0 == b.len() {
                    Some(ServerRequest::AuthenticationUrl)
                } else {
                    None
                }
            } else if tag == 2 {
                match read_opt_inputs(b, p0) {
                    None => None,
                    Some((new_inputs, p1)) => match read_i64(b, p1) {
                        None => None,
                        Some((x_offset, p2)) => match read_i64(b, p2) {
                            None => None,
                            Some((timestamp, p3)) => {
                                if p3 == b.len() {
                                    Some(ServerRequest::Update { new_inputs, x_offset, timestamp })
                                } else {
                                    None
                                }
                            },
                        },
                    },
                }
            } else if tag == 3 {
                match read_i64(b, p0) {
                    None => None,
                    Some((original_timestamp, p1)) => match read_i64(b, p1) {
                        None => None,
                        Some((timestamp, p2)) => {
                            if p2 == b.len() {
                                Some(ServerRequest::Pong { original_timestamp, timestamp })
                            } else {
                                None
                            }
                        },
                    },
                }
            } else {
                None
            }
        },
    }
}

/// Decodes one response payload, in the same closed way.
pub fn decode_response(b: &Vec<u8>) -> (r: Option<ServerResponse>)
    ensures
        match r {
            Some(m) => spec_decode_response(b@) == Some(m@),
            None => spec_decode_response(b@) is None,
        },
{
    match read_u8(b, 0) {
        None => None,
        Some((tag, p0)) => {
            if tag == 0 {
                match read_u128(b, p0) {
                    None => None,
                    Some((x, p1)) => {
                        if p1 == b.len() {
                            Some(
                                ServerResponse::AdoptInstallationId {
                                    installation_id: InstallationId { value: x },
                                },
                            )
                        } else {
                            None
                        }
                    },
                }
            } else if tag == 1 {
                match read_str(b, p0) {
                    None => None,
                    Some((url, p1)) => {
                        if p1 == b.len() {
                            Some(ServerResponse::AuthenticateAtUrl { url })
                        } else {
                            None
                        }
                    },
                }
            } else if tag == 2 {
                match read_profile(b, p0) {
                    None => None,
                    Some((profile, p1)) => {
                        if p1 == b.len() {
                            Some(ServerResponse::Authenticated { profile })
                        } else {
                            None
                        }
                    },
                }
            } else if tag == 3 {
                match read_opt_str(b, p0) {
                    None => None,
                    Some((message, p1)) => {
                        if p1 == b.len() {
                            Some(ServerResponse::Error { message })
                        } else {
                            None
                        }
                    },
                }
            } else if tag == 4 {
                match read_i64(b, p0) {
                    None => None,
                    Some((timestamp, p1)) => match read_u64(b, p1) {
                        None => None,
                        Some((n, p2)) => match read_profiles(b, p2, n) {
                            None => None,
                            Some((profiles, p3)) => {
                                if p3 == b.len() {
                                    Some(ServerResponse::WorldUpdate { timestamp, profiles })
                                } else {
                                    None
                                }
                            },
                        },
                    },
                }
            } else if tag == 5 {
                match read_i64(b, p0) {
                    None => None,
                    Some((timestamp, p1)) => match read_i64(b, p1) {
                        None => None,
                        Some((average_server_timestamp_delta, p2)) => match read_u64(b, p2) {
                            None => None,
                            Some((average_roundtrip, p3)) => {
                                if p3 == b.len() {
                                    Some(
                                        ServerResponse::Ping {
                                            timestamp,
                                            average_server_timestamp_delta,
                                            average_roundtrip,
                                        },
                                    )
                                } else {
                                    None
                                }
                            },
                        },
                    },
                }
            } else {
                None
            }
        },
    }
}

// --- the format reads back what it writes -----------------------------

/// A string small enough for its byte length to fit the length field.
/// Every string held in memory satisfies this.
pub open spec fn str_wf(s: Seq<char>) -> bool {
    encode_utf8(s).len() < 0x1_0000_0000_0000_0000
}

/// A profile whose strings fit the format.
pub open spec fn profile_wire_wf(p: UserProfileView) -> bool {
    str_wf(p.username)
}

/// A request whose strings fit the format.
pub open spec fn request_wire_wf(v: RequestView) -> bool {
    match v {
        RequestView::Authenticate { version, .. } => str_wf(version),
        _ => true,
    }
}

/// A response whose strings and lists fit the format.
pub open spec fn response_wire_wf(v: ResponseView) -> bool {
    match v {
        ResponseView::AuthenticateAtUrl { url } => str_wf(url),
        ResponseView::Authenticated { profile } => profile_wire_wf(profile),
        ResponseView::Error { message } => match message {
            Some(s) => str_wf(s),
            None => true,
        },
        ResponseView::WorldUpdate { profiles, .. } => profiles.len() < 0x1_0000_0000_0000_0000
            && forall|i: int| 0 <= i < profiles.len() ==> profile_wire_wf(#[trigger] profiles[i]),
        _ => true,
    }
}

/// What a tag byte written at `pos` reads back as.
proof fn lemma_dec_u8(b: Seq<u8>, pos: int, x: u8)
    requires
        0 <= pos,
        pos + 1 <= b.len(),
        b.subrange(pos, pos + 1) == seq![x],
    ensures
        dec_u8(b, pos) == Some((x, pos + 1)),
{
    assert(b.subrange(pos, pos + 1)[0] == b[pos]);
}

/// What an `i64` written at `pos` reads back as.
proof fn lemma_dec_i64(b: Seq<u8>, pos: int, x: i64)
    requires
        0 <= pos,
        pos + 8 <= b.len(),
        b.subrange(pos, pos + 8) == enc_i64(x),
    ensures
        dec_i64(b, pos) == Some((x, pos + 8)),
{
    lemma_dec_u64(b, pos, x as u64);
    lemma_i64_cast_round_trip(x);
}

/// What an optional installation id written at `pos` reads back as.
proof fn lemma_dec_opt_id(b: Seq<u8>, pos: int, o: Option<InstallationId>)
    requires
        0 <= pos,
        pos + enc_opt_id(o).len() <= b.len(),
        b.subrange(pos, pos + enc_opt_id(o).len()) == enc_opt_id(o),
    ensures
        dec_opt_id(b, pos) == Some((o, pos + enc_opt_id(o).len())),
{
    match o {
        None => {
            assert(enc_opt_id(o).len() == 1);
            lemma_dec_u8(b, pos, 0);
        },
        Some(id) => {
            lemma_auto_spec_u128_to_from_le_bytes();
            assert(spec_u128_to_le_bytes(id.value).len() == 16);
            lemma_parse_concat(b, pos, seq![1u8], enc_u128(id.value));
            lemma_dec_u8(b, pos, 1);
            lemma_dec_u128(b, pos + 1, id.value);
        },
    }
}

/// What an optional timestamp written at `pos` reads back as.
proof fn lemma_dec_opt_i64(b: Seq<u8>, pos: int, o: Option<i64>)
    requires
        0 <= pos,
        pos + enc_opt_i64(o).len() <= b.len(),
        b.subrange(pos, pos + enc_opt_i64(o).len()) == enc_opt_i64(o),
    ensures
        dec_opt_i64(b, pos) == Some((o, pos + enc_opt_i64(o).len())),
{
    match o {
        None => {
            assert(enc_opt_i64(o).len() == 1);
            lemma_dec_u8(b, pos, 0);
        },
        Some(x) => {
            lemma_auto_spec_u64_to_from_le_bytes();
            lemma_parse_concat(b, pos, seq![1u8], enc_i64(x));
            lemma_dec_u8(b, pos, 1);
            lemma_dec_i64(b, pos + 1, x);
        },
    }
}

/// What an optional string written at `pos` reads back as.
proof fn lemma_dec_opt_str(b: Seq<u8>, pos: int, o: Option<Seq<char>>)
    requires
        0 <= pos,
        match o {
            Some(s) => str_wf(s),
            None => true,
        },
        pos + enc_opt_str(o).len() <= b.len(),
        b.subrange(pos, pos + enc_opt_str(o).len()) == enc_opt_str(o),
    ensures
        dec_opt_str(b, pos) == Some((o, pos + enc_opt_str(o).len())),
{
    match o {
        None => {
            assert(enc_opt_str(o).len() == 1);
            lemma_dec_u8(b, pos, 0);
        },
        Some(s) => {
            lemma_auto_spec_u64_to_from_le_bytes();
            lemma_parse_concat(b, pos, seq![1u8], enc_str(s));
            lemma_dec_u8(b, pos, 1);
            lemma_dec_str(b, pos + 1, s);
        },
    }
}

/// What an input report written at `pos` reads back as.
proof fn lemma_dec_inputs(b: Seq<u8>, pos: int, i: Inputs)
    requires
        0 <= pos,
        pos + enc_inputs(i).len() <= b.len(),
        b.subrange(pos, pos + enc_inputs(i).len()) == enc_inputs(i),
    ensures
        dec_inputs(b, pos) == Some((i, pos + enc_inputs(i).len())),
{
    lemma_auto_spec_u64_to_from_le_bytes();
    lemma_parse_concat(b, pos, enc_i64(i.horizontal_movement), enc_bool(i.interact));
    lemma_dec_i64(b, pos, i.horizontal_movement);
    lemma_dec_u8(b, pos + 8, if i.interact { 1u8 } else { 0u8 });
}

/// What an optional input report written at `pos` reads back as.
proof fn lemma_dec_opt_inputs(b: Seq<u8>, pos: int, o: Option<Inputs>)
    requires
        0 <= pos,
        pos + enc_opt_inputs(o).len() <= b.len(),
        b.subrange(pos, pos + enc_opt_inputs(o).len()) == enc_opt_inputs(o),
    ensures
        dec_opt_inputs(b, pos) == Some((o, pos + enc_opt_inputs(o).len())),
{
    match o {
        None => {
            assert(enc_opt_inputs(o).len() == 1);
            lemma_dec_u8(b, pos, 0);
        },
        Some(i) => {
            lemma_auto_spec_u64_to_from_le_bytes();
            lemma_parse_concat(b, pos, seq![1u8], enc_inputs(i));
            lemma_dec_u8(b, pos, 1);
            lemma_dec_inputs(b, pos + 1, i);
        },
    }
}

/// What a profile written at `pos` reads back as.
proof fn lemma_dec_profile(b: Seq<u8>, pos: int, p: UserProfileView)
    requires
        0 <= pos,
        profile_wire_wf(p),
        pos + enc_profile(p).len() <= b.len(),
        b.subrange(pos, pos + enc_profile(p).len()) == enc_profile(p),
    ensures
        dec_profile(b, pos) == Some((p, pos + enc_profile(p).len())),
{
    let e1 = enc_i64(p.id);
    let e2 = enc_str(p.username);
    let e3 = enc_i64(p.x_offset);
    let e4 = enc_i64(p.horizontal_input);
    let e5 = enc_opt_i64(p.last_update_timestamp);
    lemma_auto_spec_u64_to_from_le_bytes();
    lemma_parse_concat(b, pos, e1 + e2 + e3 + e4, e5);
    lemma_parse_concat(b, pos, e1 + e2 + e3, e4);
    lemma_parse_concat(b, pos, e1 + e2, e3);
    lemma_parse_concat(b, pos, e1, e2);
    lemma_dec_i64(b, pos, p.id);
    lemma_dec_str(b, pos + e1.len(), p.username);
    lemma_dec_i64(b, pos + e1.len() + e2.len(), p.x_offset);
    lemma_dec_i64(b, pos + e1.len() + e2.len() + e3.len(), p.horizontal_input);
    lemma_dec_opt_i64(b, pos + e1.len() + e2.len() + e3.len() + e4.len(), p.last_update_timestamp);
}

/// What a run of profiles written at `pos` reads back as.
proof fn lemma_dec_profiles(b: Seq<u8>, pos: int, s: Seq<UserProfileView>)
    requires
        0 <= pos,
        forall|i: int| 0 <= i < s.len() ==> profile_wire_wf(#[trigger] s[i]),
        pos + enc_profiles(s).len() <= b.len(),
        b.subrange(pos, pos + enc_profiles(s).len()) == enc_profiles(s),
    ensures
        dec_profiles(b, pos, s.len() as int) == Some((s, pos + enc_profiles(s).len())),
    decreases s.len(),
{
    if s.len() == 0 {
    } else {
        let rest = s.subrange(1, s.len() as int);
        lemma_parse_concat(b, pos, enc_profile(s[0]), enc_profiles(rest));
        lemma_dec_profile(b, pos, s[0]);
        assert(forall|i: int| 0 <= i < rest.len() ==> profile_wire_wf(#[trigger] rest[i])) by {
            assert(forall|i: int|
                0 <= i < rest.len() ==> rest[i] == s[i + 1] && profile_wire_wf(#[trigger] rest[i]));
        }
        lemma_dec_profiles(b, pos + enc_profile(s[0]).len(), rest);
        assert(seq![s[0]] + rest =~= s);
    }
}

/// What a counted profile list written at `pos` reads back as.
proof fn lemma_dec_profile_list(b: Seq<u8>, pos: int, s: Seq<UserProfileView>)
    requires
        0 <= pos,
        s.len() < 0x1_0000_0000_0000_0000,
        forall|i: int| 0 <= i < s.len() ==> profile_wire_wf(#[trigger] s[i]),
        pos + enc_profile_list(s).len() <= b.len(),
        b.subrange(pos, pos + enc_profile_list(s).len()) == enc_profile_list(s),
    ensures
        dec_profile_list(b, pos) == Some((s, pos + enc_profile_list(s).len())),
{
    lemma_auto_spec_u64_to_from_le_bytes();
    lemma_parse_concat(b, pos, enc_u64(s.len() as u64), enc_profiles(s));
    lemma_dec_u64(b, pos, s.len() as u64);
    lemma_dec_profiles(b, pos + 8, s);
}

/// Decoding undoes encoding: every request the client can hold comes
/// back from its own payload unchanged.
pub proof fn lemma_request_round_trip(v: RequestView)
    requires
        request_wire_wf(v),
    ensures
        spec_decode_request(spec_encode_request(v)) == Some(v),
{
    let b = spec_encode_request(v);
    assert(b.subrange(0, b.len() as int) =~= b);
    lemma_auto_spec_u64_to_from_le_bytes();
    match v {
        RequestView::Authenticate { version, installation_id } => {
            lemma_parse_concat(b, 0, seq![0u8] + enc_str(version), enc_opt_id(installation_id));
            lemma_parse_concat(b, 0, seq![0u8], enc_str(version));
            lemma_dec_u8(b, 0, 0);
            lemma_dec_str(b, 1, version);
            lemma_dec_opt_id(b, 1 + enc_str(version).len() as int, installation_id);
        },
        RequestView::AuthenticationUrl => {
            lemma_dec_u8(b, 0, 1);
        },
        RequestView::Update { new_inputs, x_offset, timestamp } => {
            lemma_parse_concat(
                b,
                0,
                seq![2u8] + enc_opt_inputs(new_inputs) + enc_i64(x_offset),
                enc_i64(timestamp),
            );
            lemma_parse_concat(b, 0, seq![2u8] + enc_opt_inputs(new_inputs), enc_i64(x_offset));
            lemma_parse_concat(b, 0, seq![2u8], enc_opt_inputs(new_inputs));
            lemma_dec_u8(b, 0, 2);
            lemma_dec_opt_inputs(b, 1, new_inputs);
            lemma_dec_i64(b, 1 + enc_opt_inputs(new_inputs).len() as int, x_offset);
            lemma_dec_i64(b, 1 + enc_opt_inputs(new_inputs).len() as int + 8, timestamp);
            lemma_auto_spec_u64_to_from_le_bytes();
        },
        RequestView::Pong { original_timestamp, timestamp } => {
            lemma_parse_concat(b, 0, seq![3u8] + enc_i64(original_timestamp), enc_i64(timestamp));
            lemma_parse_concat(b, 0, seq![3u8], enc_i64(original_timestamp));
            lemma_dec_u8(b, 0, 3);
            lemma_dec_i64(b, 1, original_timestamp);
            lemma_dec_i64(b, 9, timestamp);
            lemma_auto_spec_u64_to_from_le_bytes();
        },
    }
}

/// Decoding undoes encoding: every response the server can hold comes
/// back from its own payload unchanged.
pub proof fn lemma_response_round_trip(v: ResponseView)
    requires
        response_wire_wf(v),
    ensures
        spec_decode_response(spec_encode_response(v)) == Some(v),
{
    let b = spec_encode_response(v);
    assert(b.subrange(0, b.len() as int) =~= b);
    lemma_auto_spec_u64_to_from_le_bytes();
    match v {
        ResponseView::AdoptInstallationId { installation_id } => {
            lemma_auto_spec_u128_to_from_le_bytes();
            assert(spec_u128_to_le_bytes(installation_id.value).len() == 16);
            lemma_parse_concat(b, 0, seq![0u8], enc_u128(installation_id.value));
            lemma_dec_u8(b, 0, 0);
            lemma_dec_u128(b, 1, installation_id.value);
        },
        ResponseView::AuthenticateAtUrl { url } => {
            lemma_parse_concat(b, 0, seq![1u8], enc_str(url));
            lemma_dec_u8(b, 0, 1);
            lemma_dec_str(b, 1, url);
        },
        ResponseView::Authenticated { profile } => {
            lemma_parse_concat(b, 0, seq![2u8], enc_profile(profile));
            lemma_dec_u8(b, 0, 2);
            lemma_dec_profile(b, 1, profile);
        },
        ResponseView::Error { message } => {
            lemma_parse_concat(b, 0, seq![3u8], enc_opt_str(message));
            lemma_dec_u8(b, 0, 3);
            lemma_dec_opt_str(b, 1, message);
        },
        ResponseView::WorldUpdate { timestamp, profiles } => {
            lemma_parse_concat(
                b,
                0,
                seq![4u8] + enc_i64(timestamp),
                enc_profile_list(profiles),
            );
            lemma_parse_concat(b, 0, seq![4u8], enc_i64(timestamp));
            lemma_dec_u8(b, 0, 4);
            lemma_dec_i64(b, 1, timestamp);
            lemma_dec_profile_list(b, 9, profiles);
            lemma_auto_spec_u64_to_from_le_bytes();
        },
        ResponseView::Ping { timestamp, average_server_timestamp_delta, average_roundtrip } => {
            lemma_parse_concat(
                b,
                0,
                seq![5u8] + enc_i64(timestamp) + enc_i64(average_server_timestamp_delta),
                enc_u64(average_roundtrip),
            );
            lemma_parse_concat(
                b,
                0,
                seq![5u8] + enc_i64(timestamp),
                enc_i64(average_server_timestamp_delta),
            );
            lemma_parse_concat(b, 0, seq![5u8], enc_i64(timestamp));
            lemma_dec_u8(b, 0, 5);
            lemma_dec_i64(b, 1, timestamp);
            lemma_dec_i64(b, 9, average_server_timestamp_delta);
            lemma_dec_u64(b, 17, average_roundtrip);
            lemma_auto_spec_u64_to_from_le_bytes();
        },
    }
}

} // verus!
