//! The laws the codec obeys: decoding inverts encoding, unknown fields are
//! skipped, and of the payload union's two tags the last present one wins.
//!
//! The proofs peel one encoded field at a time off the front of the input:
//! each peel lemma says that decoding an encoded field followed by anything
//! continues on that remainder with the field folded into the message.

use vstd::prelude::*;

verus! {

use vstd::arithmetic::div_mod::lemma_fundamental_div_mod_converse;
use vstd::utf8::{encode_utf8, encode_utf8_decode_utf8, encode_utf8_valid_utf8};

use crate::decode::{
    dec_actor, dec_actor_id, dec_any, dec_entry, dec_invocation, dec_noop, dec_system,
    parse_field, spec_decode, FieldRec,
};
use crate::encode::{
    actor_id_ok, actor_ok, any_ok, enc_actor, enc_actor_id, enc_any, enc_bool_field,
    enc_bytes_field, enc_entry, enc_invocation, enc_metadata, enc_string_field,
    enc_varint_field, entry_ok, field_key, invocation_ok, lemma_enc_actor_id_len,
    lemma_enc_actor_len, lemma_enc_any_len, lemma_enc_entry_len, lemma_enc_system_len,
    lemma_varint_len5, enc_system, str_ok, system_ok, u64_of_i64, lemma_i64_u64_inverse,
};
use crate::model::{
    ActorIdView, ActorSystemView, ActorView, AnyValueView, InvocationView, PayloadView,
};
use crate::protocol::DispatchMode;
use crate::wire::{lemma_parse_varint_prefix, varint_bytes};

/// Skipping a concatenation's first part leaves its second.
proof fn lemma_skip_concat(a: Seq<u8>, b: Seq<u8>)
    ensures
        (a + b).skip(a.len() as int) == b,
{
    assert((a + b).skip(a.len() as int) =~= b);
}

/// Concatenation is associative.
proof fn lemma_add_assoc(a: Seq<u8>, b: Seq<u8>, c: Seq<u8>)
    ensures
        (a + b) + c == a + (b + c),
{
    assert((a + b) + c =~= a + (b + c));
}

/// A length-delimited field at the front of the input parses as one field:
/// its tag, wire type 2, its contents, consuming exactly its own bytes.
pub proof fn lemma_parse_field_lendelim(tag: u64, content: Seq<u8>, rest: Seq<u8>)
    requires
        1 <= tag <= 15,
        content.len() < 0x8_0000_0000,
    ensures
        ({
            let field = enc_bytes_field(tag, content);
            &&& 2 <= field.len()
            &&& parse_field(field + rest) == Some(
                FieldRec {
                    tag,
                    wire: 2,
                    value: 0,
                    content,
                    consumed: field.len() as int,
                },
            )
            &&& (field + rest).skip(field.len() as int) == rest
        }),
{
    let field = enc_bytes_field(tag, content);
    let k: u64 = (tag * 8 + 2) as u64;
    let lv = content.len() as u64;
    assert(k < 128);
    assert(field_key(tag, 2) =~= seq![k as u8]);
    let tail1 = varint_bytes(lv) + (content + rest);
    assert(field + rest =~= varint_bytes(k) + tail1);
    lemma_parse_varint_prefix(k, tail1);
    assert(varint_bytes(k).len() == 1);
    lemma_fundamental_div_mod_converse(k as int, 8, tag as int, 2);
    let bytes = field + rest;
    assert(bytes.skip(1) =~= tail1) by {
        lemma_skip_concat(varint_bytes(k), tail1);
    }
    lemma_parse_varint_prefix(lv, content + rest);
    lemma_varint_len5(lv);
    let vl = varint_bytes(lv).len() as int;
    assert(tail1.skip(vl) =~= content + rest) by {
        lemma_skip_concat(varint_bytes(lv), content + rest);
    }
    assert(bytes.subrange(1 + vl, 1 + vl + lv as int) =~= content);
    assert(field.len() == 1 + vl + content.len());
    lemma_skip_concat(field, rest);
}

/// A varint field at the front of the input parses as one field: its tag,
/// wire type 0, its value, consuming exactly its own bytes.
pub proof fn lemma_parse_field_varint(tag: u64, v: u64, rest: Seq<u8>)
    requires
        1 <= tag <= 15,
    ensures
        ({
            let field = field_key(tag, 0) + varint_bytes(v);
            &&& 2 <= field.len()
            &&& parse_field(field + rest) == Some(
                FieldRec {
                    tag,
                    wire: 0,
                    value: v,
                    content: Seq::empty(),
                    consumed: field.len() as int,
                },
            )
            &&& (field + rest).skip(field.len() as int) == rest
        }),
{
    let k: u64 = (tag * 8) as u64;
    assert(k < 128);
    assert(field_key(tag, 0) =~= seq![k as u8]);
    let field = field_key(tag, 0) + varint_bytes(v);
    let tail1 = varint_bytes(v) + rest;
    assert(field + rest =~= varint_bytes(k) + tail1);
    lemma_parse_varint_prefix(k, tail1);
    assert(varint_bytes(k).len() == 1);
    lemma_fundamental_div_mod_converse(k as int, 8, tag as int, 0);
    let bytes = field + rest;
    assert(bytes.skip(1) =~= tail1) by {
        lemma_skip_concat(varint_bytes(k), tail1);
    }
    lemma_parse_varint_prefix(v, rest);
    assert(field.len() == 1 + varint_bytes(v).len());
    lemma_skip_concat(field, rest);
}

/// One string field folds into an actor identity: tag 1 the name, 2 the
/// system, 3 the parent; an empty string contributes nothing.
proof fn lemma_actor_id_string_step(tag: u64, s: Seq<char>, tail: Seq<u8>, acc: ActorIdView)
    requires
        1 <= tag <= 3,
        str_ok(s),
    ensures
        dec_actor_id(enc_string_field(tag, s) + tail, acc) == dec_actor_id(
            tail,
            if s.len() == 0 {
                acc
            } else if tag == 1 {
                ActorIdView { name: s, ..acc }
            } else if tag == 2 {
                ActorIdView { system: s, ..acc }
            } else {
                ActorIdView { parent: s, ..acc }
            },
        ),
{
    if s.len() == 0 {
        assert(enc_string_field(tag, s) + tail =~= tail);
    } else {
        let content = encode_utf8(s);
        lemma_parse_field_lendelim(tag, content, tail);
        encode_utf8_valid_utf8(s);
        encode_utf8_decode_utf8(s);
    }
}

/// Decoding an encoded actor identity from a clean start yields it back,
/// and decoding continues on whatever follows.
#[verifier::rlimit(30)]
pub proof fn lemma_dec_enc_actor_id(v: ActorIdView, rest: Seq<u8>)
    requires
        actor_id_ok(v),
    ensures
        dec_actor_id(enc_actor_id(v) + rest, ActorIdView::initial()) == dec_actor_id(rest, v),
{
    let e1 = enc_string_field(1, v.name);
    let e2 = enc_string_field(2, v.system);
    let e3 = enc_string_field(3, v.parent);
    if v.name.len() == 0 {
        assert(v.name =~= Seq::<char>::empty());
    }
    if v.system.len() == 0 {
        assert(v.system =~= Seq::<char>::empty());
    }
    if v.parent.len() == 0 {
        assert(v.parent =~= Seq::<char>::empty());
    }
    assert(enc_actor_id(v) + rest =~= e1 + (e2 + (e3 + rest)));
    lemma_actor_id_string_step(1, v.name, e2 + (e3 + rest), ActorIdView::initial());
    let a1 = ActorIdView { name: v.name, system: Seq::empty(), parent: Seq::empty() };
    assert(dec_actor_id(e1 + (e2 + (e3 + rest)), ActorIdView::initial()) == dec_actor_id(
        e2 + (e3 + rest),
        a1,
    ));
    lemma_actor_id_string_step(2, v.system, e3 + rest, a1);
    let a2 = ActorIdView { name: v.name, system: v.system, parent: Seq::empty() };
    assert(dec_actor_id(e2 + (e3 + rest), a1) == dec_actor_id(e3 + rest, a2));
    lemma_actor_id_string_step(3, v.parent, rest, a2);
    assert(dec_actor_id(e3 + rest, a2) == dec_actor_id(rest, v));
}

/// The system reference's one string field folds in the same way.
proof fn lemma_system_string_step(s: Seq<char>, tail: Seq<u8>, acc: ActorSystemView)
    requires
        str_ok(s),
    ensures
        dec_system(enc_string_field(1, s) + tail, acc) == dec_system(
            tail,
            if s.len() == 0 {
                acc
            } else {
                ActorSystemView { name: s }
            },
        ),
{
    if s.len() == 0 {
        assert(enc_string_field(1, s) + tail =~= tail);
    } else {
        let content = encode_utf8(s);
        lemma_parse_field_lendelim(1, content, tail);
        encode_utf8_valid_utf8(s);
        encode_utf8_decode_utf8(s);
    }
}

/// Decoding an encoded system reference from a clean start yields it back.
pub proof fn lemma_dec_enc_system(v: ActorSystemView, rest: Seq<u8>)
    requires
        system_ok(v),
    ensures
        dec_system(enc_system(v) + rest, ActorSystemView::initial()) == dec_system(rest, v),
{
    if v.name.len() == 0 {
        assert(v.name =~= Seq::<char>::empty());
    }
    lemma_system_string_step(v.name, rest, ActorSystemView::initial());
    assert(if v.name.len() == 0 {
        ActorSystemView::initial()
    } else {
        ActorSystemView { name: v.name }
    } =~= v);
}

/// Decoding an encoded actor from a clean start yields it back.
pub proof fn lemma_dec_enc_actor(v: ActorView, rest: Seq<u8>)
    requires
        actor_ok(v),
    ensures
        dec_actor(enc_actor(v) + rest, ActorView::initial()) == dec_actor(rest, v),
{
    match v.id {
        None => {
            assert(enc_actor(v) + rest =~= rest);
            assert(ActorView::initial() =~= v);
        },
        Some(id) => {
            let content = enc_actor_id(id);
            lemma_enc_actor_id_len(id);
            lemma_parse_field_lendelim(1, content, rest);
            lemma_dec_enc_actor_id(id, Seq::empty());
            assert(content + Seq::<u8>::empty() =~= content);
            assert(dec_actor_id(content, ActorIdView::initial()) == Some(id));
        },
    }
}

/// A typed value's two fields fold in: the type tag string, then the bytes.
proof fn lemma_any_string_step(s: Seq<char>, tail: Seq<u8>, acc: AnyValueView)
    requires
        str_ok(s),
    ensures
        dec_any(enc_string_field(1, s) + tail, acc) == dec_any(
            tail,
            if s.len() == 0 {
                acc
            } else {
                AnyValueView { type_url: s, ..acc }
            },
        ),
{
    if s.len() == 0 {
        assert(enc_string_field(1, s) + tail =~= tail);
    } else {
        let content = encode_utf8(s);
        lemma_parse_field_lendelim(1, content, tail);
        encode_utf8_valid_utf8(s);
        encode_utf8_decode_utf8(s);
    }
}

/// Decoding an encoded typed value from a clean start yields it back.
pub proof fn lemma_dec_enc_any(v: AnyValueView, rest: Seq<u8>)
    requires
        any_ok(v),
    ensures
        dec_any(enc_any(v) + rest, AnyValueView::initial()) == dec_any(rest, v),
{
    let e1 = enc_string_field(1, v.type_url);
    let e2: Seq<u8> = if v.value.len() == 0 {
        Seq::empty()
    } else {
        enc_bytes_field(2, v.value)
    };
    if v.type_url.len() == 0 {
        assert(v.type_url =~= Seq::<char>::empty());
    }
    if v.value.len() == 0 {
        assert(v.value =~= Seq::<u8>::empty());
    }
    assert(enc_any(v) + rest =~= e1 + (e2 + rest));
    lemma_any_string_step(v.type_url, e2 + rest, AnyValueView::initial());
    let a1 = AnyValueView { type_url: v.type_url, value: Seq::empty() };
    assert(dec_any(e1 + (e2 + rest), AnyValueView::initial()) == dec_any(e2 + rest, a1));
    if v.value.len() == 0 {
        assert(e2 + rest =~= rest);
        assert(a1 =~= v);
    } else {
        lemma_parse_field_lendelim(2, v.value, rest);
        assert(dec_any(e2 + rest, a1) == dec_any(rest, v)) by {
            assert(AnyValueView { value: v.value, ..a1 } =~= v);
        }
    }
}

/// Decoding an encoded metadata entry record yields its key/value pair.
pub proof fn lemma_dec_enc_entry(k: Seq<char>, v: Seq<char>)
    requires
        str_ok(k),
        str_ok(v),
    ensures
        dec_entry(enc_entry(k, v), (Seq::empty(), Seq::empty())) == Some((k, v)),
{
    let e1 = enc_string_field(1, k);
    let e2 = enc_string_field(2, v);
    if k.len() == 0 {
        assert(k =~= Seq::<char>::empty());
    }
    if v.len() == 0 {
        assert(v =~= Seq::<char>::empty());
    }
    assert(enc_entry(k, v) =~= e1 + (e2 + Seq::<u8>::empty()));
    lemma_entry_string_step1(k, e2 + Seq::<u8>::empty(), (Seq::empty(), Seq::empty()));
    lemma_entry_string_step2(v, Seq::empty(), (k, Seq::empty()));
    assert(e2 + Seq::<u8>::empty() =~= e2);
    assert(dec_entry(Seq::empty(), (k, v)) == Some((k, v)));
}

proof fn lemma_entry_string_step1(s: Seq<char>, tail: Seq<u8>, acc: (Seq<char>, Seq<char>))
    requires
        str_ok(s),
    ensures
        dec_entry(enc_string_field(1, s) + tail, acc) == dec_entry(
            tail,
            if s.len() == 0 {
                acc
            } else {
                (s, acc.1)
            },
        ),
{
    if s.len() == 0 {
        assert(enc_string_field(1, s) + tail =~= tail);
    } else {
        let content = encode_utf8(s);
        lemma_parse_field_lendelim(1, content, tail);
        encode_utf8_valid_utf8(s);
        encode_utf8_decode_utf8(s);
    }
}

proof fn lemma_entry_string_step2(s: Seq<char>, tail: Seq<u8>, acc: (Seq<char>, Seq<char>))
    requires
        str_ok(s),
    ensures
        dec_entry(enc_string_field(2, s) + tail, acc) == dec_entry(
            tail,
            if s.len() == 0 {
                acc
            } else {
                (acc.0, s)
            },
        ),
{
    if s.len() == 0 {
        assert(enc_string_field(2, s) + tail =~= tail);
    } else {
        let content = encode_utf8(s);
        lemma_parse_field_lendelim(2, content, tail);
        encode_utf8_valid_utf8(s);
        encode_utf8_decode_utf8(s);
    }
}

/// A run of encoded metadata entry records folds in as exactly those
/// entries, appended in order to the ones already decoded.
proof fn lemma_dec_enc_metadata(
    entries: Seq<(Seq<char>, Seq<char>)>,
    tail: Seq<u8>,
    acc: InvocationView,
)
    requires
        forall|i: int| 0 <= i < entries.len() ==> entry_ok(#[trigger] entries[i]),
    ensures
        dec_invocation(enc_metadata(entries) + tail, acc) == dec_invocation(
            tail,
            InvocationView { metadata: acc.metadata + entries, ..acc },
        ),
    decreases entries.len(),
{
    if entries.len() == 0 {
        assert(enc_metadata(entries) + tail =~= tail);
        assert(InvocationView { metadata: acc.metadata + entries, ..acc } =~= acc);
    } else {
        let e = entries[0];
        let record = enc_entry(e.0, e.1);
        let more = enc_metadata(entries.drop_first()) + tail;
        lemma_enc_entry_len(e.0, e.1);
        assert(enc_metadata(entries) + tail =~= enc_bytes_field(8, record) + more);
        lemma_parse_field_lendelim(8, record, more);
        lemma_dec_enc_entry(e.0, e.1);
        let acc1 = InvocationView { metadata: acc.metadata.push(e), ..acc };
        assert(dec_invocation(enc_bytes_field(8, record) + more, acc) == dec_invocation(
            more,
            acc1,
        ));
        assert(forall|i: int|
            0 <= i < entries.drop_first().len() ==> entry_ok(#[trigger] entries.drop_first()[i]));
        lemma_dec_enc_metadata(entries.drop_first(), tail, acc1);
        assert(acc.metadata.push(e) + entries.drop_first() =~= acc.metadata + entries);
        assert(InvocationView { metadata: acc1.metadata + entries.drop_first(), ..acc1 }
            =~= InvocationView { metadata: acc.metadata + entries, ..acc });
    }
}
/// The optional system reference folds in at tag 1.
proof fn lemma_inv_step_system(sys: Option<ActorSystemView>, tail: Seq<u8>, acc: InvocationView)
    requires
        match sys {
            Some(s) => system_ok(s),
            None => true,
        },
    ensures
        dec_invocation(
            (match sys {
                Some(s) => enc_bytes_field(1, enc_system(s)),
                None => Seq::empty(),
            }) + tail,
            acc,
        ) == dec_invocation(
            tail,
            match sys {
                Some(s) => InvocationView { system: Some(s), ..acc },
                None => acc,
            },
        ),
{
    match sys {
        None => {
            assert(Seq::<u8>::empty() + tail =~= tail);
        },
        Some(s) => {
            lemma_enc_system_len(s);
            lemma_parse_field_lendelim(1, enc_system(s), tail);
            lemma_dec_enc_system(s, Seq::empty());
            assert(enc_system(s) + Seq::<u8>::empty() =~= enc_system(s));
            assert(dec_system(enc_system(s), ActorSystemView::initial()) == Some(s));
        },
    }
}

/// The optional addressed actor folds in at tag 2.
proof fn lemma_inv_step_actor(act: Option<ActorView>, tail: Seq<u8>, acc: InvocationView)
    requires
        match act {
            Some(a) => actor_ok(a),
            None => true,
        },
    ensures
        dec_invocation(
            (match act {
                Some(a) => enc_bytes_field(2, enc_actor(a)),
                None => Seq::empty(),
            }) + tail,
            acc,
        ) == dec_invocation(
            tail,
            match act {
                Some(a) => InvocationView { actor: Some(a), ..acc },
                None => acc,
            },
        ),
{
    match act {
        None => {
            assert(Seq::<u8>::empty() + tail =~= tail);
        },
        Some(a) => {
            lemma_enc_actor_len(a);
            lemma_parse_field_lendelim(2, enc_actor(a), tail);
            lemma_dec_enc_actor(a, Seq::empty());
            assert(enc_actor(a) + Seq::<u8>::empty() =~= enc_actor(a));
            assert(dec_actor(enc_actor(a), ActorView::initial()) == Some(a));
        },
    }
}

/// The command name folds in at tag 3.
proof fn lemma_inv_step_command(s: Seq<char>, tail: Seq<u8>, acc: InvocationView)
    requires
        str_ok(s),
    ensures
        dec_invocation(enc_string_field(3, s) + tail, acc) == dec_invocation(
            tail,
            if s.len() == 0 {
                acc
            } else {
                InvocationView { command_name: s, ..acc }
            },
        ),
{
    if s.len() == 0 {
        assert(enc_string_field(3, s) + tail =~= tail);
    } else {
        let content = encode_utf8(s);
        lemma_parse_field_lendelim(3, content, tail);
        encode_utf8_valid_utf8(s);
        encode_utf8_decode_utf8(s);
    }
}

/// A typed-value payload folds in at tag 4; the other payload forms
/// contribute nothing here.
proof fn lemma_inv_step_value(p: Option<PayloadView>, tail: Seq<u8>, acc: InvocationView)
    requires
        match p {
            Some(PayloadView::Value(a)) => any_ok(a),
            _ => true,
        },
    ensures
        dec_invocation(
            (match p {
                Some(PayloadView::Value(a)) => enc_bytes_field(4, enc_any(a)),
                _ => Seq::empty(),
            }) + tail,
            acc,
        ) == dec_invocation(
            tail,
            match p {
                Some(PayloadView::Value(a)) => InvocationView {
                    payload: Some(PayloadView::Value(a)),
                    ..acc
                },
                _ => acc,
            },
        ),
{
    match p {
        Some(PayloadView::Value(a)) => {
            lemma_enc_any_len(a);
            lemma_parse_field_lendelim(4, enc_any(a), tail);
            lemma_dec_enc_any(a, Seq::empty());
            assert(enc_any(a) + Seq::<u8>::empty() =~= enc_any(a));
            assert(dec_any(enc_any(a), AnyValueView::initial()) == Some(a));
        },
        _ => {
            assert(Seq::<u8>::empty() + tail =~= tail);
        },
    }
}

/// The fire-and-forget flag folds in at tag 5; false contributes nothing.
proof fn lemma_inv_step_mode(fire: bool, tail: Seq<u8>, acc: InvocationView)
    ensures
        dec_invocation(enc_bool_field(5, fire) + tail, acc) == dec_invocation(
            tail,
            if fire {
                InvocationView { dispatch_mode: DispatchMode::FireAndForget, ..acc }
            } else {
                acc
            },
        ),
{
    if fire {
        lemma_parse_field_varint(5, 1, tail);
    } else {
        assert(enc_bool_field(5, fire) + tail =~= tail);
    }
}

/// The optional caller identity folds in at tag 6.
proof fn lemma_inv_step_caller(c: Option<ActorIdView>, tail: Seq<u8>, acc: InvocationView)
    requires
        match c {
            Some(id) => actor_id_ok(id),
            None => true,
        },
    ensures
        dec_invocation(
            (match c {
                Some(id) => enc_bytes_field(6, enc_actor_id(id)),
                None => Seq::empty(),
            }) + tail,
            acc,
        ) == dec_invocation(
            tail,
            match c {
                Some(id) => InvocationView { caller: Some(id), ..acc },
                None => acc,
            },
        ),
{
    match c {
        None => {
            assert(Seq::<u8>::empty() + tail =~= tail);
        },
        Some(id) => {
            lemma_enc_actor_id_len(id);
            lemma_parse_field_lendelim(6, enc_actor_id(id), tail);
            lemma_dec_enc_actor_id(id, Seq::empty());
            assert(enc_actor_id(id) + Seq::<u8>::empty() =~= enc_actor_id(id));
            assert(dec_actor_id(enc_actor_id(id), ActorIdView::initial()) == Some(id));
        },
    }
}

/// The no-payload marker folds in at tag 7; the other payload forms
/// contribute nothing here.
proof fn lemma_inv_step_noop(p: Option<PayloadView>, tail: Seq<u8>, acc: InvocationView)
    ensures
        dec_invocation(
            (match p {
                Some(PayloadView::Noop) => enc_bytes_field(7, Seq::empty()),
                _ => Seq::empty(),
            }) + tail,
            acc,
        ) == dec_invocation(
            tail,
            match p {
                Some(PayloadView::Noop) => InvocationView {
                    payload: Some(PayloadView::Noop),
                    ..acc
                },
                _ => acc,
            },
        ),
{
    match p {
        Some(PayloadView::Noop) => {
            lemma_parse_field_lendelim(7, Seq::empty(), tail);
            assert(dec_noop(Seq::<u8>::empty()));
        },
        _ => {
            assert(Seq::<u8>::empty() + tail =~= tail);
        },
    }
}

/// The scheduled time folds in at tag 9; zero contributes nothing.
proof fn lemma_inv_step_scheduled(x: i64, tail: Seq<u8>, acc: InvocationView)
    ensures
        dec_invocation(enc_varint_field(9, u64_of_i64(x)) + tail, acc) == dec_invocation(
            tail,
            if x == 0 {
                acc
            } else {
                InvocationView { scheduled_to: x, ..acc }
            },
        ),
{
    if u64_of_i64(x) == 0 {
        assert(x == 0);
        assert(enc_varint_field(9, u64_of_i64(x)) + tail =~= tail);
    } else {
        lemma_parse_field_varint(9, u64_of_i64(x), tail);
        lemma_i64_u64_inverse(x);
    }
}

/// The pooled flag folds in at tag 10; false contributes nothing.
proof fn lemma_inv_step_pooled(p: bool, tail: Seq<u8>, acc: InvocationView)
    ensures
        dec_invocation(enc_bool_field(10, p) + tail, acc) == dec_invocation(
            tail,
            if p {
                InvocationView { pooled: true, ..acc }
            } else {
                acc
            },
        ),
{
    if p {
        lemma_parse_field_varint(10, 1, tail);
    } else {
        assert(enc_bool_field(10, p) + tail =~= tail);
    }
}

/// Decoding an encoded invocation message from the all-defaults start
/// yields the message back, and decoding continues on whatever follows.
#[verifier::rlimit(100)]
pub proof fn lemma_dec_enc_invocation(m: InvocationView, rest: Seq<u8>)
    requires
        invocation_ok(m),
    ensures
        dec_invocation(enc_invocation(m) + rest, InvocationView::initial()) == dec_invocation(
            rest,
            m,
        ),
{
    let s1: Seq<u8> = match m.system {
        Some(s) => enc_bytes_field(1, enc_system(s)),
        None => Seq::empty(),
    };
    let s2: Seq<u8> = match m.actor {
        Some(a) => enc_bytes_field(2, enc_actor(a)),
        None => Seq::empty(),
    };
    let s3 = enc_string_field(3, m.command_name);
    let s4: Seq<u8> = match m.payload {
        Some(PayloadView::Value(a)) => enc_bytes_field(4, enc_any(a)),
        _ => Seq::empty(),
    };
    let s5 = enc_bool_field(5, m.dispatch_mode is FireAndForget);
    let s6: Seq<u8> = match m.caller {
        Some(c) => enc_bytes_field(6, enc_actor_id(c)),
        None => Seq::empty(),
    };
    let s7: Seq<u8> = match m.payload {
        Some(PayloadView::Noop) => enc_bytes_field(7, Seq::empty()),
        _ => Seq::empty(),
    };
    let s8 = enc_metadata(m.metadata);
    let s9 = enc_varint_field(9, u64_of_i64(m.scheduled_to));
    let s10 = enc_bool_field(10, m.pooled);
    let t10 = s10 + rest;
    let t9 = s9 + t10;
    let t8 = s8 + t9;
    let t7 = s7 + t8;
    let t6 = s6 + t7;
    let t5 = s5 + t6;
    let t4 = s4 + t5;
    let t3 = s3 + t4;
    let t2 = s2 + t3;
    let t1 = s1 + t2;
    let p2 = s1 + s2;
    let p3 = p2 + s3;
    let p4 = p3 + s4;
    let p5 = p4 + s5;
    let p6 = p5 + s6;
    let p7 = p6 + s7;
    let p8 = p7 + s8;
    let p9 = p8 + s9;
    let p10 = p9 + s10;
    assert(enc_invocation(m) == p10);
    lemma_add_assoc(p9, s10, rest);
    lemma_add_assoc(p8, s9, t10);
    lemma_add_assoc(p7, s8, t9);
    lemma_add_assoc(p6, s7, t8);
    lemma_add_assoc(p5, s6, t7);
    lemma_add_assoc(p4, s5, t6);
    lemma_add_assoc(p3, s4, t5);
    lemma_add_assoc(p2, s3, t4);
    lemma_add_assoc(s1, s2, t3);
    assert(enc_invocation(m) + rest == t1);
    let a0 = InvocationView::initial();

    lemma_inv_step_system(m.system, t2, a0);
    let a1 = InvocationView { system: m.system, ..a0 };
    assert(dec_invocation(t1, a0) == dec_invocation(t2, a1)) by {
        if m.system is None {
            assert(a1 =~= a0);
        }
    }

    lemma_inv_step_actor(m.actor, t3, a1);
    let a2 = InvocationView { actor: m.actor, ..a1 };
    assert(dec_invocation(t2, a1) == dec_invocation(t3, a2)) by {
        if m.actor is None {
            assert(a2 =~= a1);
        }
    }

    lemma_inv_step_command(m.command_name, t4, a2);
    let a3 = InvocationView { command_name: m.command_name, ..a2 };
    assert(dec_invocation(t3, a2) == dec_invocation(t4, a3)) by {
        if m.command_name.len() == 0 {
            assert(m.command_name =~= Seq::<char>::empty());
            assert(a3 =~= a2);
        }
    }

    lemma_inv_step_value(m.payload, t5, a3);
    let a4 = InvocationView {
        payload: match m.payload {
            Some(PayloadView::Value(a)) => Some(PayloadView::Value(a)),
            _ => None,
        },
        ..a3
    };
    assert(dec_invocation(t4, a3) == dec_invocation(t5, a4)) by {
        match m.payload {
            Some(PayloadView::Value(_)) => {},
            _ => {
                assert(a4 =~= a3);
            },
        }
    }

    lemma_inv_step_mode(m.dispatch_mode is FireAndForget, t6, a4);
    let a5 = InvocationView { dispatch_mode: m.dispatch_mode, ..a4 };
    assert(dec_invocation(t5, a4) == dec_invocation(t6, a5)) by {
        if !(m.dispatch_mode is FireAndForget) {
            assert(a5 =~= a4);
        }
    }

    lemma_inv_step_caller(m.caller, t7, a5);
    let a6 = InvocationView { caller: m.caller, ..a5 };
    assert(dec_invocation(t6, a5) == dec_invocation(t7, a6)) by {
        if m.caller is None {
            assert(a6 =~= a5);
        }
    }

    lemma_inv_step_noop(m.payload, t8, a6);
    let a7 = InvocationView { payload: m.payload, ..a6 };
    assert(dec_invocation(t7, a6) == dec_invocation(t8, a7)) by {
        match m.payload {
            Some(PayloadView::Noop) => {},
            Some(PayloadView::Value(_)) => {
                assert(a7 =~= a6);
            },
            None => {
                assert(a7 =~= a6);
            },
        }
    }

    lemma_dec_enc_metadata(m.metadata, t9, a7);
    let a8 = InvocationView { metadata: m.metadata, ..a7 };
    assert(dec_invocation(t8, a7) == dec_invocation(t9, a8)) by {
        assert(a7.metadata + m.metadata =~= m.metadata);
        assert(InvocationView { metadata: a7.metadata + m.metadata, ..a7 } =~= a8);
    }

    lemma_inv_step_scheduled(m.scheduled_to, t10, a8);
    let a9 = InvocationView { scheduled_to: m.scheduled_to, ..a8 };
    assert(dec_invocation(t9, a8) == dec_invocation(t10, a9)) by {
        if m.scheduled_to == 0 {
            assert(a9 =~= a8);
        }
    }

    lemma_inv_step_pooled(m.pooled, rest, a9);
    let a10 = InvocationView { pooled: m.pooled, ..a9 };
    assert(dec_invocation(t10, a9) == dec_invocation(rest, a10)) by {
        if !m.pooled {
            assert(a10 =~= a9);
        }
    }

    assert(a10 =~= m);
}

/// Round-trip law: decoding an encoding yields the message back, field for
/// field, metadata entries in order included.
pub proof fn lemma_round_trip(m: InvocationView)
    requires
        invocation_ok(m),
    ensures
        spec_decode(enc_invocation(m)) == Some(m),
{
    lemma_dec_enc_invocation(m, Seq::empty());
    assert(enc_invocation(m) + Seq::<u8>::empty() =~= enc_invocation(m));
}

/// A byte sequence that is a run of well-formed fields all of whose tags
/// lie outside the invocation schema.
pub open spec fn unknown_fields(bytes: Seq<u8>) -> bool
    decreases bytes.len(),
{
    if bytes.len() == 0 {
        true
    } else {
        match parse_field(bytes) {
            None => false,
            Some(f) => {
                if f.consumed < 1 || f.consumed > bytes.len() {
                    false
                } else {
                    f.tag > 10 && unknown_fields(bytes.skip(f.consumed))
                }
            },
        }
    }
}

/// Unknown fields fold into nothing: the message is unchanged.
proof fn lemma_unknown_fields_skipped(bytes: Seq<u8>, acc: InvocationView)
    requires
        unknown_fields(bytes),
    ensures
        dec_invocation(bytes, acc) == Some(acc),
    decreases bytes.len(),
{
    if bytes.len() != 0 {
        let f = parse_field(bytes).unwrap();
        lemma_unknown_fields_skipped(bytes.skip(f.consumed), acc);
    }
}

/// Forward-compatibility law: a valid encoding followed by any run of
/// unknown fields decodes to the same message.
pub proof fn lemma_forward_compatible(m: InvocationView, extra: Seq<u8>)
    requires
        invocation_ok(m),
        unknown_fields(extra),
    ensures
        spec_decode(enc_invocation(m) + extra) == Some(m),
{
    lemma_dec_enc_invocation(m, extra);
    lemma_unknown_fields_skipped(extra, m);
}

/// Oneof law, encoder side: of the two payload segments, at tag 4 for a
/// typed value and tag 7 for the no-payload marker, at least one is always
/// empty — no message's encoding carries both variants.
pub proof fn lemma_oneof_exclusive(m: InvocationView)
    ensures
        (match m.payload {
            Some(PayloadView::Value(a)) => enc_bytes_field(4, enc_any(a)),
            _ => Seq::<u8>::empty(),
        }).len() == 0 || (match m.payload {
            Some(PayloadView::Noop) => enc_bytes_field(7, Seq::empty()),
            _ => Seq::<u8>::empty(),
        }).len() == 0,
{
}

/// Oneof law: when a hand-crafted input carries both payload tags, the
/// decoder deterministically keeps the one that comes last, in either
/// order; it never errors and never picks in an unspecified way.
pub proof fn lemma_payload_last_wins(a: AnyValueView, rest: Seq<u8>, acc: InvocationView)
    requires
        any_ok(a),
    ensures
        dec_invocation(
            enc_bytes_field(4, enc_any(a)) + (enc_bytes_field(7, Seq::empty()) + rest),
            acc,
        ) == dec_invocation(rest, InvocationView { payload: Some(PayloadView::Noop), ..acc }),
        dec_invocation(
            enc_bytes_field(7, Seq::empty()) + (enc_bytes_field(4, enc_any(a)) + rest),
            acc,
        ) == dec_invocation(
            rest,
            InvocationView { payload: Some(PayloadView::Value(a)), ..acc },
        ),
{
    lemma_enc_any_len(a);
    lemma_dec_enc_any(a, Seq::empty());
    assert(enc_any(a) + Seq::<u8>::empty() =~= enc_any(a));
    assert(dec_any(enc_any(a), AnyValueView::initial()) == Some(a));

    let noop_then_rest = enc_bytes_field(7, Seq::empty()) + rest;
    lemma_parse_field_lendelim(4, enc_any(a), noop_then_rest);
    let acc_v = InvocationView { payload: Some(PayloadView::Value(a)), ..acc };
    assert(dec_invocation(enc_bytes_field(4, enc_any(a)) + noop_then_rest, acc)
        == dec_invocation(noop_then_rest, acc_v));
    lemma_parse_field_lendelim(7, Seq::empty(), rest);
    assert(dec_noop(Seq::<u8>::empty()));
    let acc_n = InvocationView { payload: Some(PayloadView::Noop), ..acc_v };
    assert(dec_invocation(noop_then_rest, acc_v) == dec_invocation(rest, acc_n));
    assert(acc_n =~= InvocationView { payload: Some(PayloadView::Noop), ..acc });

    let value_then_rest = enc_bytes_field(4, enc_any(a)) + rest;
    lemma_parse_field_lendelim(7, Seq::empty(), value_then_rest);
    let acc_n2 = InvocationView { payload: Some(PayloadView::Noop), ..acc };
    assert(dec_invocation(enc_bytes_field(7, Seq::empty()) + value_then_rest, acc)
        == dec_invocation(value_then_rest, acc_n2));
    lemma_parse_field_lendelim(4, enc_any(a), rest);
    let acc_v2 = InvocationView { payload: Some(PayloadView::Value(a)), ..acc_n2 };
    assert(dec_invocation(value_then_rest, acc_n2) == dec_invocation(rest, acc_v2));
    assert(acc_v2 =~= InvocationView { payload: Some(PayloadView::Value(a)), ..acc });
}

} // verus!
