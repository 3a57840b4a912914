//! Encoding of the invocation message to its byte sequence.
//!
//! The spec functions define the exact bytes field for field: an optional or
//! default-valued field contributes nothing (no null markers), a string or
//! nested message is its tag key followed by a length-prefixed payload, and
//! of the payload union exactly one variant's tag is ever emitted.  The exec
//! functions produce those bytes and are proved to.

use vstd::prelude::*;

verus! {

use vstd::arithmetic::div_mod::lemma_fundamental_div_mod;
use vstd::string::StrSliceExecFns;
use vstd::utf8::encode_utf8;

use crate::model::{
    ActorIdView, ActorSystemView, ActorView, AnyValueView, InvocationView, PayloadView,
};
use crate::protocol::{
    Actor, ActorId, ActorSystem, AnyValue, DispatchMode, InvocationRequest,
};
use crate::invocation_request::Payload;
use crate::wire::{varint_bytes, write_varint};

/// The key that introduces a field: the varint of `tag * 8 + wire_type`.
pub open spec fn field_key(tag: u64, wire: u64) -> Seq<u8> {
    varint_bytes((tag * 8 + wire) as u64)
}

/// A length-delimited payload: its byte length as a varint, then its bytes.
pub open spec fn len_delim(payload: Seq<u8>) -> Seq<u8> {
    varint_bytes(payload.len() as u64) + payload
}

/// A length-delimited field, always present.
pub open spec fn enc_bytes_field(tag: u64, payload: Seq<u8>) -> Seq<u8> {
    field_key(tag, 2) + len_delim(payload)
}

/// A string field: omitted entirely when empty, else its UTF-8 bytes as a
/// length-delimited field.
pub open spec fn enc_string_field(tag: u64, s: Seq<char>) -> Seq<u8> {
    if s.len() == 0 {
        Seq::empty()
    } else {
        enc_bytes_field(tag, encode_utf8(s))
    }
}

/// A varint field: omitted when zero.
pub open spec fn enc_varint_field(tag: u64, v: u64) -> Seq<u8> {
    if v == 0 {
        Seq::empty()
    } else {
        field_key(tag, 0) + varint_bytes(v)
    }
}

/// A bool field: omitted when false, a one-byte varint when true.
pub open spec fn enc_bool_field(tag: u64, b: bool) -> Seq<u8> {
    enc_varint_field(tag, if b { 1 } else { 0 })
}

/// The 64-bit two's-complement image of `x`, as varints carry it.
pub open spec fn u64_of_i64(x: i64) -> u64 {
    if x >= 0 {
        x as u64
    } else {
        (x + 0x1_0000_0000_0000_0000) as u64
    }
}

/// The signed value a varint's 64 bits stand for.
pub open spec fn i64_of_u64(v: u64) -> i64 {
    if v <= 0x7fff_ffff_ffff_ffff {
        v as i64
    } else {
        (v - 0x1_0000_0000_0000_0000) as i64
    }
}

/// The two mappings invert each other.
pub proof fn lemma_i64_u64_inverse(x: i64)
    ensures
        i64_of_u64(u64_of_i64(x)) == x,
{
}

/// Actor identity: name, system and parent strings at tags 1, 2 and 3.
pub open spec fn enc_actor_id(v: ActorIdView) -> Seq<u8> {
    enc_string_field(1, v.name) + enc_string_field(2, v.system) + enc_string_field(3, v.parent)
}

/// Actor system reference: its name at tag 1.
pub open spec fn enc_system(v: ActorSystemView) -> Seq<u8> {
    enc_string_field(1, v.name)
}

/// Addressed actor: its identity as a nested message at tag 1.
pub open spec fn enc_actor(v: ActorView) -> Seq<u8> {
    match v.id {
        Some(id) => enc_bytes_field(1, enc_actor_id(id)),
        None => Seq::empty(),
    }
}

/// Typed value: type tag at 1, value bytes at 2, each omitted when empty.
pub open spec fn enc_any(v: AnyValueView) -> Seq<u8> {
    enc_string_field(1, v.type_url) + (if v.value.len() == 0 {
        Seq::<u8>::empty()
    } else {
        enc_bytes_field(2, v.value)
    })
}

/// One metadata entry: key at tag 1, value at tag 2.
pub open spec fn enc_entry(k: Seq<char>, v: Seq<char>) -> Seq<u8> {
    enc_string_field(1, k) + enc_string_field(2, v)
}

/// The metadata map: one length-delimited entry record at tag 8 per pair,
/// in the order the message holds them.
pub open spec fn enc_metadata(entries: Seq<(Seq<char>, Seq<char>)>) -> Seq<u8>
    decreases entries.len(),
{
    if entries.len() == 0 {
        Seq::empty()
    } else {
        enc_bytes_field(8, enc_entry(entries[0].0, entries[0].1)) + enc_metadata(
            entries.drop_first(),
        )
    }
}

/// The whole invocation message, fields in tag order.  The payload union
/// contributes exactly one field: tag 4 for a typed value, tag 7 for the
/// no-payload marker, nothing when absent.  The fire-and-forget flag at
/// tag 5 is true exactly for `DispatchMode::FireAndForget`.
pub open spec fn enc_invocation(m: InvocationView) -> Seq<u8> {
    (match m.system {
        Some(s) => enc_bytes_field(1, enc_system(s)),
        None => Seq::empty(),
    }) + (match m.actor {
        Some(a) => enc_bytes_field(2, enc_actor(a)),
        None => Seq::empty(),
    }) + enc_string_field(3, m.command_name) + (match m.payload {
        Some(PayloadView::Value(a)) => enc_bytes_field(4, enc_any(a)),
        _ => Seq::empty(),
    }) + enc_bool_field(5, m.dispatch_mode is FireAndForget) + (match m.caller {
        Some(c) => enc_bytes_field(6, enc_actor_id(c)),
        None => Seq::empty(),
    }) + (match m.payload {
        Some(PayloadView::Noop) => enc_bytes_field(7, Seq::empty()),
        _ => Seq::empty(),
    }) + enc_metadata(m.metadata) + enc_varint_field(9, u64_of_i64(m.scheduled_to))
        + enc_bool_field(10, m.pooled)
}

/// A string whose UTF-8 bytes fit behind a length prefix: the schema's
/// 2 GiB payload cap, which any string held in memory satisfies.
pub open spec fn str_ok(s: Seq<char>) -> bool {
    encode_utf8(s).len() <= 0x7fff_ffff
}

pub open spec fn actor_id_ok(v: ActorIdView) -> bool {
    str_ok(v.name) && str_ok(v.system) && str_ok(v.parent)
}

pub open spec fn system_ok(v: ActorSystemView) -> bool {
    str_ok(v.name)
}

pub open spec fn actor_ok(v: ActorView) -> bool {
    match v.id {
        Some(id) => actor_id_ok(id),
        None => true,
    }
}

pub open spec fn any_ok(v: AnyValueView) -> bool {
    str_ok(v.type_url) && v.value.len() <= 0x7fff_ffff
}

pub open spec fn entry_ok(e: (Seq<char>, Seq<char>)) -> bool {
    str_ok(e.0) && str_ok(e.1)
}

/// A message all of whose variable-length parts fit behind their length
/// prefixes.  Every message an exec value can hold satisfies this; the
/// round-trip laws are stated under it.
pub open spec fn invocation_ok(m: InvocationView) -> bool {
    &&& match m.system {
        Some(s) => system_ok(s),
        None => true,
    }
    &&& match m.actor {
        Some(a) => actor_ok(a),
        None => true,
    }
    &&& str_ok(m.command_name)
    &&& match m.caller {
        Some(c) => actor_id_ok(c),
        None => true,
    }
    &&& match m.payload {
        Some(PayloadView::Value(a)) => any_ok(a),
        _ => true,
    }
    &&& forall|i: int| 0 <= i < m.metadata.len() ==> entry_ok(#[trigger] m.metadata[i])
}

/// Dividing by 128 scales an upper bound down by 128.
proof fn lemma_div128_bound(x: int, c: int)
    requires
        0 <= x < 128 * c,
        0 < c,
    ensures
        x / 128 < c,
{
    lemma_fundamental_div_mod(x, 128);
    if x / 128 >= c {
        vstd::arithmetic::mul::lemma_mul_inequality(c, x / 128, 128);
        assert(x >= 128 * c);
    }
}

/// A varint of a value below `128^5` takes at most five bytes.
pub proof fn lemma_varint_len5(n: u64)
    requires
        n < 0x8_0000_0000,
    ensures
        1 <= varint_bytes(n).len() <= 5,
{
    if n >= 128 {
        let n1: int = n as int / 128;
        lemma_div128_bound(n as int, 0x1000_0000);
        assert(varint_bytes(n).len() == 1 + varint_bytes((n / 128) as u64).len());
        if n1 >= 128 {
            let n2: int = n1 / 128;
            lemma_div128_bound(n1, 0x20_0000);
            assert(varint_bytes(n1 as u64).len() == 1 + varint_bytes((n1 / 128) as u64).len());
            if n2 >= 128 {
                let n3: int = n2 / 128;
                lemma_div128_bound(n2, 0x4000);
                assert(varint_bytes(n2 as u64).len() == 1 + varint_bytes(
                    (n2 / 128) as u64,
                ).len());
                if n3 >= 128 {
                    let n4: int = n3 / 128;
                    lemma_div128_bound(n3, 128);
                    assert(varint_bytes(n3 as u64).len() == 1 + varint_bytes(
                        (n3 / 128) as u64,
                    ).len());
                    assert(n4 < 128);
                    assert(varint_bytes(n4 as u64).len() == 1);
                } else {
                    assert(varint_bytes(n3 as u64).len() == 1);
                }
            } else {
                assert(varint_bytes(n2 as u64).len() == 1);
            }
        } else {
            assert(varint_bytes(n1 as u64).len() == 1);
        }
    }
}

/// The key of a small tag is a single byte.
pub proof fn lemma_field_key_len(tag: u64, wire: u64)
    requires
        tag <= 15,
        wire <= 7,
    ensures
        field_key(tag, wire).len() == 1,
{
    assert(tag * 8 + wire < 128);
}

pub proof fn lemma_enc_string_field_len(tag: u64, s: Seq<char>)
    requires
        tag <= 15,
        str_ok(s),
    ensures
        enc_string_field(tag, s).len() <= 0x8000_0008,
{
    if s.len() != 0 {
        lemma_field_key_len(tag, 2);
        lemma_varint_len5(encode_utf8(s).len() as u64);
    }
}

pub proof fn lemma_enc_actor_id_len(v: ActorIdView)
    requires
        actor_id_ok(v),
    ensures
        enc_actor_id(v).len() <= 0x1_8000_0018,
{
    lemma_enc_string_field_len(1, v.name);
    lemma_enc_string_field_len(2, v.system);
    lemma_enc_string_field_len(3, v.parent);
}

pub proof fn lemma_enc_system_len(v: ActorSystemView)
    requires
        system_ok(v),
    ensures
        enc_system(v).len() <= 0x8000_0008,
{
    lemma_enc_string_field_len(1, v.name);
}

pub proof fn lemma_enc_actor_len(v: ActorView)
    requires
        actor_ok(v),
    ensures
        enc_actor(v).len() <= 0x1_8000_0020,
{
    match v.id {
        Some(id) => {
            lemma_enc_actor_id_len(id);
            lemma_field_key_len(1, 2);
            lemma_varint_len5(enc_actor_id(id).len() as u64);
        },
        None => {},
    }
}

pub proof fn lemma_enc_any_len(v: AnyValueView)
    requires
        any_ok(v),
    ensures
        enc_any(v).len() <= 0x1_0000_0010,
{
    lemma_enc_string_field_len(1, v.type_url);
    if v.value.len() != 0 {
        lemma_field_key_len(2, 2);
        lemma_varint_len5(v.value.len() as u64);
    }
}

pub proof fn lemma_enc_entry_len(k: Seq<char>, v: Seq<char>)
    requires
        str_ok(k),
        str_ok(v),
    ensures
        enc_entry(k, v).len() <= 0x1_0000_0010,
{
    lemma_enc_string_field_len(1, k);
    lemma_enc_string_field_len(2, v);
}

/// Appends a field key.
fn write_key(out: &mut Vec<u8>, tag: u64, wire: u64)
    requires
        tag <= 15,
        wire <= 7,
    ensures
        final(out)@ == old(out)@ + field_key(tag, wire),
{
    write_varint(out, tag * 8 + wire);
}

/// Appends a length-delimited field: key, byte length, payload.
fn write_bytes_field(out: &mut Vec<u8>, tag: u64, payload: Vec<u8>)
    requires
        tag <= 15,
    ensures
        final(out)@ == old(out)@ + enc_bytes_field(tag, payload@),
{
    write_key(out, tag, 2);
    write_varint(out, payload.len() as u64);
    let mut p = payload;
    out.append(&mut p);
    proof {
        assert(final(out)@ =~= old(out)@ + enc_bytes_field(tag, payload@));
    }
}

/// Appends a string field, or nothing when the string is empty.
fn write_string_field(out: &mut Vec<u8>, tag: u64, s: &str)
    requires
        tag <= 15,
    ensures
        final(out)@ == old(out)@ + enc_string_field(tag, s@),
{
    if !s.is_empty() {
        let bytes = s.as_bytes_vec();
        write_bytes_field(out, tag, bytes);
    } else {
        proof {
            assert(final(out)@ =~= old(out)@ + enc_string_field(tag, s@));
        }
    }
}

/// Appends a varint field, or nothing when the value is zero.
fn write_varint_field(out: &mut Vec<u8>, tag: u64, v: u64)
    requires
        tag <= 15,
    ensures
        final(out)@ == old(out)@ + enc_varint_field(tag, v),
{
    if v != 0 {
        write_key(out, tag, 0);
        write_varint(out, v);
        proof {
            assert(final(out)@ =~= old(out)@ + enc_varint_field(tag, v));
        }
    } else {
        proof {
            assert(final(out)@ =~= old(out)@ + enc_varint_field(tag, v));
        }
    }
}

/// Appends a bool field, or nothing when the value is false.
fn write_bool_field(out: &mut Vec<u8>, tag: u64, b: bool)
    requires
        tag <= 15,
    ensures
        final(out)@ == old(out)@ + enc_bool_field(tag, b),
{
    write_varint_field(out, tag, if b { 1 } else { 0 });
}

/// Encodes an actor identity.
pub fn encode_actor_id(v: &ActorId) -> (r: Vec<u8>)
    ensures
        r@ == enc_actor_id(v@),
{
    let mut out: Vec<u8> = Vec::new();
    write_string_field(&mut out, 1, v.name.as_str());
    write_string_field(&mut out, 2, v.system.as_str());
    write_string_field(&mut out, 3, v.parent.as_str());
    proof {
        assert(out@ =~= enc_actor_id(v@));
    }
    out
}

/// Encodes an actor system reference; the registry is never carried.
pub fn encode_system(v: &ActorSystem) -> (r: Vec<u8>)
    requires
        v.plain(),
    ensures
        r@ == enc_system(v@),
{
    let mut out: Vec<u8> = Vec::new();
    write_string_field(&mut out, 1, v.name.as_str());
    proof {
        assert(out@ =~= enc_system(v@));
    }
    out
}

/// Encodes the addressed actor; only its identity is carried.
pub fn encode_actor(v: &Actor) -> (r: Vec<u8>)
    requires
        v.id_only(),
    ensures
        r@ == enc_actor(v@),
{
    let mut out: Vec<u8> = Vec::new();
    match &v.id {
        Some(id) => {
            let sub = encode_actor_id(id);
            write_bytes_field(&mut out, 1, sub);
        },
        None => {},
    }
    proof {
        assert(out@ =~= enc_actor(v@));
    }
    out
}

/// Encodes a typed payload value.
pub fn encode_any(v: &AnyValue) -> (r: Vec<u8>)
    ensures
        r@ == enc_any(v@),
{
    let mut out: Vec<u8> = Vec::new();
    write_string_field(&mut out, 1, v.type_url.as_str());
    if v.value.len() > 0 {
        let mut bytes: Vec<u8> = Vec::new();
        bytes.extend_from_slice(v.value.as_slice());
        proof {
            assert(bytes@ =~= v.value@);
        }
        write_bytes_field(&mut out, 2, bytes);
    }
    proof {
        assert(out@ =~= enc_any(v@));
    }
    out
}

/// Encodes one metadata entry record.
fn encode_entry(k: &str, v: &str) -> (r: Vec<u8>)
    ensures
        r@ == enc_entry(k@, v@),
{
    let mut out: Vec<u8> = Vec::new();
    write_string_field(&mut out, 1, k);
    write_string_field(&mut out, 2, v);
    proof {
        assert(out@ =~= enc_entry(k@, v@));
    }
    out
}

/// Extending a metadata prefix by one entry extends its encoding by that
/// entry's record.
proof fn lemma_enc_metadata_step(entries: Seq<(Seq<char>, Seq<char>)>, i: int)
    requires
        0 <= i < entries.len(),
    ensures
        enc_metadata(entries.take(i + 1)) == enc_metadata(entries.take(i)) + enc_bytes_field(
            8,
            enc_entry(entries[i].0, entries[i].1),
        ),
    decreases i,
{
    if i == 0 {
        assert(entries.take(1).drop_first() =~= Seq::<(Seq<char>, Seq<char>)>::empty());
        assert(entries.take(0) =~= Seq::<(Seq<char>, Seq<char>)>::empty());
        assert(enc_metadata(entries.take(1)) =~= enc_metadata(entries.take(0)) + enc_bytes_field(
            8,
            enc_entry(entries[0].0, entries[0].1),
        ));
    } else {
        let tail = entries.drop_first();
        lemma_enc_metadata_step(tail, i - 1);
        assert(entries.take(i + 1).drop_first() =~= tail.take(i));
        assert(entries.take(i).drop_first() =~= tail.take(i - 1));
        assert(entries.take(i + 1)[0] == entries[0]);
        assert(entries.take(i)[0] == entries[0]);
        assert(tail[i - 1] == entries[i]);
        assert(enc_metadata(entries.take(i + 1)) =~= enc_metadata(entries.take(i))
            + enc_bytes_field(8, enc_entry(entries[i].0, entries[i].1)));
    }
}

/// Converts to the 64-bit two's-complement image varints carry.
fn i64_to_u64(x: i64) -> (r: u64)
    ensures
        r == u64_of_i64(x),
{
    if x >= 0 {
        x as u64
    } else {
        let magnitude: u64 = if x == i64::MIN {
            0x8000_0000_0000_0000u64
        } else {
            (-x) as u64
        };
        0xffff_ffff_ffff_ffffu64 - magnitude + 1
    }
}

/// Encodes the whole invocation message.
pub fn encode_invocation(m: &InvocationRequest) -> (r: Vec<u8>)
    requires
        m.client_form(),
    ensures
        r@ == enc_invocation(m@),
{
    let mut out: Vec<u8> = Vec::new();
    match &m.system {
        Some(s) => {
            let sub = encode_system(s);
            write_bytes_field(&mut out, 1, sub);
        },
        None => {},
    }
    match &m.actor {
        Some(a) => {
            let sub = encode_actor(a);
            write_bytes_field(&mut out, 2, sub);
        },
        None => {},
    }
    write_string_field(&mut out, 3, m.command_name.as_str());
    match &m.payload {
        Some(Payload::Value(a)) => {
            let sub = encode_any(a);
            write_bytes_field(&mut out, 4, sub);
        },
        _ => {},
    }
    let fire = match m.dispatch_mode {
        DispatchMode::FireAndForget => true,
        DispatchMode::RequestReply => false,
    };
    write_bool_field(&mut out, 5, fire);
    match &m.caller {
        Some(c) => {
            let sub = encode_actor_id(c);
            write_bytes_field(&mut out, 6, sub);
        },
        None => {},
    }
    match &m.payload {
        Some(Payload::Noop(_)) => {
            write_bytes_field(&mut out, 7, Vec::new());
        },
        _ => {},
    }
    let ghost after_noop = out@;
    let n = m.metadata.len();
    let mut i: usize = 0;
    while i < n
        invariant
            i <= n,
            n == m.metadata.len(),
            out@ == after_noop + enc_metadata(m@.metadata.take(i as int)),
        decreases n - i,
    {
        let entry = &m.metadata[i];
        let sub = encode_entry(entry.0.as_str(), entry.1.as_str());
        write_bytes_field(&mut out, 8, sub);
        proof {
            lemma_enc_metadata_step(m@.metadata, i as int);
        }
        i = i + 1;
    }
    proof {
        assert(m@.metadata.take(n as int) =~= m@.metadata);
    }
    write_varint_field(&mut out, 9, i64_to_u64(m.scheduled_to));
    write_bool_field(&mut out, 10, m.pooled);
    proof {
        assert(out@ =~= enc_invocation(m@));
    }
    out
}

} // verus!
