//! Decoding of the invocation message from a byte sequence.
//!
//! The spec functions define the decoder as a fold over the fields of the
//! input: each field either updates the message under construction (a later
//! occurrence of a tag overwrites an earlier one, so of the payload union's
//! two tags the last one present wins), is skipped when its tag is unknown
//! (forward compatibility), or makes the whole input malformed when a known
//! tag carries the wrong wire type, a length overruns the input, or a
//! string field holds invalid UTF-8.  The exec functions are proved to
//! agree exactly.

use vstd::prelude::*;

verus! {

use vstd::utf8::{decode_utf8, encode_utf8, valid_utf8};

use crate::model::{
    ActorIdView, ActorSystemView, ActorView, AnyValueView, InvocationView, PayloadView,
};
use crate::protocol::{ActorId, DispatchMode};
use crate::wire::parse_varint;

/// One field as the decoder sees it: its tag, wire type, varint value (wire
/// type 0), contents (wire types 1, 2, 5), and how many bytes it took.
pub ghost struct FieldRec {
    pub tag: u64,
    pub wire: u64,
    pub value: u64,
    pub content: Seq<u8>,
    pub consumed: int,
}

/// Reads one field from the front of `bytes`.  `None` when the key or a
/// length cannot be read, the tag is zero, a length overruns the input, or
/// the wire type is one the format does not carry (groups, or the two
/// reserved values).
pub open spec fn parse_field(bytes: Seq<u8>) -> Option<FieldRec> {
    match parse_varint(bytes) {
        None => None,
        Some((k, n)) => {
            let tag = (k / 8) as u64;
            let wire = (k % 8) as u64;
            if tag == 0 || n < 1 || n > bytes.len() {
                None
            } else if wire == 0 {
                match parse_varint(bytes.skip(n)) {
                    None => None,
                    Some((v, n2)) => {
                        if n2 < 1 || n2 > bytes.len() - n {
                            None
                        } else {
                            Some(
                                FieldRec {
                                    tag,
                                    wire,
                                    value: v,
                                    content: Seq::empty(),
                                    consumed: n + n2,
                                },
                            )
                        }
                    },
                }
            } else if wire == 1 {
                if bytes.len() - n >= 8 {
                    Some(
                        FieldRec {
                            tag,
                            wire,
                            value: 0,
                            content: bytes.subrange(n, n + 8),
                            consumed: n + 8,
                        },
                    )
                } else {
                    None
                }
            } else if wire == 5 {
                if bytes.len() - n >= 4 {
                    Some(
                        FieldRec {
                            tag,
                            wire,
                            value: 0,
                            content: bytes.subrange(n, n + 4),
                            consumed: n + 4,
                        },
                    )
                } else {
                    None
                }
            } else if wire == 2 {
                match parse_varint(bytes.skip(n)) {
                    None => None,
                    Some((len2, n2)) => {
                        if n2 < 1 || n2 > bytes.len() - n {
                            None
                        } else if len2 > bytes.len() - n - n2 {
                            None
                        } else {
                            Some(
                                FieldRec {
                                    tag,
                                    wire,
                                    value: 0,
                                    content: bytes.subrange(n + n2, n + n2 + len2),
                                    consumed: n + n2 + len2,
                                },
                            )
                        }
                    },
                }
            } else {
                None
            }
        },
    }
}

/// The empty message: no fields.
pub open spec fn dec_noop(bytes: Seq<u8>) -> bool
    decreases bytes.len(),
{
    if bytes.len() == 0 {
        true
    } else {
        match parse_field(bytes) {
            None => false,
            Some(f) => {
                if f.consumed < 1 || f.consumed > bytes.len() {
                    false
                } else {
                    dec_noop(bytes.skip(f.consumed))
                }
            },
        }
    }
}

/// Folds the fields of an actor identity into `acc`: strings at tags 1
/// (name), 2 (system) and 3 (parent).
pub open spec fn dec_actor_id(bytes: Seq<u8>, acc: ActorIdView) -> Option<ActorIdView>
    decreases bytes.len(),
{
    if bytes.len() == 0 {
        Some(acc)
    } else {
        match parse_field(bytes) {
            None => None,
            Some(f) => {
                if f.consumed < 1 || f.consumed > bytes.len() {
                    None
                } else {
                    let rest = bytes.skip(f.consumed);
                    if f.tag == 1 && f.wire == 2 {
                        if valid_utf8(f.content) {
                            dec_actor_id(rest, ActorIdView { name: decode_utf8(f.content), ..acc })
                        } else {
                            None
                        }
                    } else if f.tag == 2 && f.wire == 2 {
                        if valid_utf8(f.content) {
                            dec_actor_id(
                                rest,
                                ActorIdView { system: decode_utf8(f.content), ..acc },
                            )
                        } else {
                            None
                        }
                    } else if f.tag == 3 && f.wire == 2 {
                        if valid_utf8(f.content) {
                            dec_actor_id(
                                rest,
                                ActorIdView { parent: decode_utf8(f.content), ..acc },
                            )
                        } else {
                            None
                        }
                    } else if f.tag <= 3 {
                        None
                    } else {
                        dec_actor_id(rest, acc)
                    }
                }
            },
        }
    }
}

/// Folds the fields of an actor system reference: its name at tag 1.  The
/// registry field of the full schema is not part of this client's model
/// and is skipped like any unknown field.
pub open spec fn dec_system(bytes: Seq<u8>, acc: ActorSystemView) -> Option<ActorSystemView>
    decreases bytes.len(),
{
    if bytes.len() == 0 {
        Some(acc)
    } else {
        match parse_field(bytes) {
            None => None,
            Some(f) => {
                if f.consumed < 1 || f.consumed > bytes.len() {
                    None
                } else {
                    let rest = bytes.skip(f.consumed);
                    if f.tag == 1 && f.wire == 2 {
                        if valid_utf8(f.content) {
                            dec_system(rest, ActorSystemView { name: decode_utf8(f.content) })
                        } else {
                            None
                        }
                    } else if f.tag == 1 {
                        None
                    } else {
                        dec_system(rest, acc)
                    }
                }
            },
        }
    }
}

/// Folds the fields of the addressed actor: its identity at tag 1.  The
/// descriptor fields of the full schema are skipped like unknown fields.
pub open spec fn dec_actor(bytes: Seq<u8>, acc: ActorView) -> Option<ActorView>
    decreases bytes.len(),
{
    if bytes.len() == 0 {
        Some(acc)
    } else {
        match parse_field(bytes) {
            None => None,
            Some(f) => {
                if f.consumed < 1 || f.consumed > bytes.len() {
                    None
                } else {
                    let rest = bytes.skip(f.consumed);
                    if f.tag == 1 && f.wire == 2 {
                        match dec_actor_id(f.content, ActorIdView::initial()) {
                            Some(id) => dec_actor(rest, ActorView { id: Some(id) }),
                            None => None,
                        }
                    } else if f.tag == 1 {
                        None
                    } else {
                        dec_actor(rest, acc)
                    }
                }
            },
        }
    }
}

/// Folds the fields of a typed value: type tag string at 1, bytes at 2.
pub open spec fn dec_any(bytes: Seq<u8>, acc: AnyValueView) -> Option<AnyValueView>
    decreases bytes.len(),
{
    if bytes.len() == 0 {
        Some(acc)
    } else {
        match parse_field(bytes) {
            None => None,
            Some(f) => {
                if f.consumed < 1 || f.consumed > bytes.len() {
                    None
                } else {
                    let rest = bytes.skip(f.consumed);
                    if f.tag == 1 && f.wire == 2 {
                        if valid_utf8(f.content) {
                            dec_any(rest, AnyValueView { type_url: decode_utf8(f.content), ..acc })
                        } else {
                            None
                        }
                    } else if f.tag == 2 && f.wire == 2 {
                        dec_any(rest, AnyValueView { value: f.content, ..acc })
                    } else if f.tag <= 2 {
                        None
                    } else {
                        dec_any(rest, acc)
                    }
                }
            },
        }
    }
}

/// Folds the fields of one metadata entry: key at tag 1, value at tag 2.
pub open spec fn dec_entry(bytes: Seq<u8>, acc: (Seq<char>, Seq<char>)) -> Option<
    (Seq<char>, Seq<char>),
>
    decreases bytes.len(),
{
    if bytes.len() == 0 {
        Some(acc)
    } else {
        match parse_field(bytes) {
            None => None,
            Some(f) => {
                if f.consumed < 1 || f.consumed > bytes.len() {
                    None
                } else {
                    let rest = bytes.skip(f.consumed);
                    if f.tag == 1 && f.wire == 2 {
                        if valid_utf8(f.content) {
                            dec_entry(rest, (decode_utf8(f.content), acc.1))
                        } else {
                            None
                        }
                    } else if f.tag == 2 && f.wire == 2 {
                        if valid_utf8(f.content) {
                            dec_entry(rest, (acc.0, decode_utf8(f.content)))
                        } else {
                            None
                        }
                    } else if f.tag <= 2 {
                        None
                    } else {
                        dec_entry(rest, acc)
                    }
                }
            },
        }
    }
}

/// Folds the fields of the invocation message into `acc`.  Tags 1 to 10
/// are the schema's; any other tag is skipped.  A later occurrence of a
/// tag overwrites an earlier one, so when both payload tags 4 and 7 are
/// present the last one in the input determines the payload.
pub open spec fn dec_invocation(bytes: Seq<u8>, acc: InvocationView) -> Option<InvocationView>
    decreases bytes.len(),
{
    if bytes.len() == 0 {
        Some(acc)
    } else {
        match parse_field(bytes) {
            None => None,
            Some(f) => {
                if f.consumed < 1 || f.consumed > bytes.len() {
                    None
                } else {
                    let rest = bytes.skip(f.consumed);
                    if f.tag == 1 && f.wire == 2 {
                        match dec_system(f.content, ActorSystemView::initial()) {
                            Some(s) => dec_invocation(rest, InvocationView { system: Some(s), ..acc }),
                            None => None,
                        }
                    } else if f.tag == 2 && f.wire == 2 {
                        match dec_actor(f.content, ActorView::initial()) {
                            Some(a) => dec_invocation(rest, InvocationView { actor: Some(a), ..acc }),
                            None => None,
                        }
                    } else if f.tag == 3 && f.wire == 2 {
                        if valid_utf8(f.content) {
                            dec_invocation(
                                rest,
                                InvocationView { command_name: decode_utf8(f.content), ..acc },
                            )
                        } else {
                            None
                        }
                    } else if f.tag == 4 && f.wire == 2 {
                        match dec_any(f.content, AnyValueView::initial()) {
                            Some(a) => dec_invocation(
                                rest,
                                InvocationView { payload: Some(PayloadView::Value(a)), ..acc },
                            ),
                            None => None,
                        }
                    } else if f.tag == 5 && f.wire == 0 {
                        let mode = if f.value != 0 {
                            DispatchMode::FireAndForget
                        } else {
                            DispatchMode::RequestReply
                        };
                        dec_invocation(rest, InvocationView { dispatch_mode: mode, ..acc })
                    } else if f.tag == 6 && f.wire == 2 {
                        match dec_actor_id(f.content, ActorIdView::initial()) {
                            Some(c) => dec_invocation(rest, InvocationView { caller: Some(c), ..acc }),
                            None => None,
                        }
                    } else if f.tag == 7 && f.wire == 2 {
                        if dec_noop(f.content) {
                            dec_invocation(
                                rest,
                                InvocationView { payload: Some(PayloadView::Noop), ..acc },
                            )
                        } else {
                            None
                        }
                    } else if f.tag == 8 && f.wire == 2 {
                        match dec_entry(f.content, (Seq::empty(), Seq::empty())) {
                            Some(e) => dec_invocation(
                                rest,
                                InvocationView { metadata: acc.metadata.push(e), ..acc },
                            ),
                            None => None,
                        }
                    } else if f.tag == 9 && f.wire == 0 {
                        dec_invocation(
                            rest,
                            InvocationView {
                                scheduled_to: crate::encode::i64_of_u64(f.value),
                                ..acc
                            },
                        )
                    } else if f.tag == 10 && f.wire == 0 {
                        dec_invocation(rest, InvocationView { pooled: f.value != 0, ..acc })
                    } else if f.tag <= 10 {
                        None
                    } else {
                        dec_invocation(rest, acc)
                    }
                }
            },
        }
    }
}

/// What a byte sequence decodes to, if anything: the fold over its fields,
/// starting from the all-defaults message.
pub open spec fn spec_decode(bytes: Seq<u8>) -> Option<InvocationView> {
    dec_invocation(bytes, InvocationView::initial())
}


/// One field as the exec reader hands it on: content sits at
/// `cstart..cend` of the input, the field ends at `next`.
struct ExField {
    tag: u64,
    wire: u64,
    value: u64,
    cstart: usize,
    cend: usize,
    next: usize,
}

/// Reads one field starting at `pos`; agrees with `parse_field` on the
/// suffix there.
fn read_field(bytes: &[u8], pos: usize) -> (r: Option<ExField>)
    requires
        pos <= bytes@.len(),
    ensures
        match r {
            Some(f) => {
                &&& pos < f.next <= bytes@.len()
                &&& pos <= f.cstart <= f.cend <= f.next
                &&& parse_field(bytes@.skip(pos as int)) == Some(
                    FieldRec {
                        tag: f.tag,
                        wire: f.wire,
                        value: f.value,
                        content: bytes@.subrange(f.cstart as int, f.cend as int),
                        consumed: f.next - pos,
                    },
                )
            },
            None => parse_field(bytes@.skip(pos as int)) is None,
        },
{
    let ghost suffix = bytes@.skip(pos as int);
    let n = bytes.len();
    match crate::wire::read_varint(bytes, pos) {
        None => None,
        Some((k, p1)) => {
            let tag = k / 8;
            let wire = k % 8;
            if tag == 0 {
                return None;
            }
            assert(suffix.skip(p1 - pos) =~= bytes@.skip(p1 as int));
            if wire == 0 {
                match crate::wire::read_varint(bytes, p1) {
                    None => None,
                    Some((v, p2)) => {
                        let f = ExField { tag, wire, value: v, cstart: p2, cend: p2, next: p2 };
                        proof {
                            assert(bytes@.subrange(p2 as int, p2 as int) =~= Seq::<u8>::empty());
                        }
                        Some(f)
                    },
                }
            } else if wire == 1 {
                if n - p1 >= 8 {
                    let f = ExField { tag, wire, value: 0, cstart: p1, cend: p1 + 8, next: p1 + 8 };
                    proof {
                        assert(bytes@.subrange(p1 as int, p1 as int + 8) =~= suffix.subrange(
                            p1 - pos,
                            p1 - pos + 8,
                        ));
                    }
                    Some(f)
                } else {
                    None
                }
            } else if wire == 5 {
                if n - p1 >= 4 {
                    let f = ExField { tag, wire, value: 0, cstart: p1, cend: p1 + 4, next: p1 + 4 };
                    proof {
                        assert(bytes@.subrange(p1 as int, p1 as int + 4) =~= suffix.subrange(
                            p1 - pos,
                            p1 - pos + 4,
                        ));
                    }
                    Some(f)
                } else {
                    None
                }
            } else if wire == 2 {
                match crate::wire::read_varint(bytes, p1) {
                    None => None,
                    Some((len2, p2)) => {
                        let rem = n - p2;
                        if len2 <= rem as u64 {
                            let l = len2 as usize;
                            let f = ExField {
                                tag,
                                wire,
                                value: 0,
                                cstart: p2,
                                cend: p2 + l,
                                next: p2 + l,
                            };
                            proof {
                                assert(bytes@.subrange(p2 as int, p2 as int + l as int)
                                    =~= suffix.subrange(p2 - pos, p2 - pos + len2 as int));
                            }
                            Some(f)
                        } else {
                            None
                        }
                    },
                }
            } else {
                None
            }
        },
    }
}

/// Relies on `String::from_utf8`: yields the string whose UTF-8 encoding
/// is exactly the given bytes, or nothing when they are not valid UTF-8.
#[verifier::external_body]
fn string_from_utf8(bytes: Vec<u8>) -> (r: Option<String>)
    ensures
        match r {
            Some(s) => encode_utf8(s@) == bytes@,
            None => !valid_utf8(bytes@),
        },
{
    match String::from_utf8(bytes) {
        Ok(s) => Some(s),
        Err(_) => None,
    }
}

/// Decodes the bytes at `start..end` as a UTF-8 string.
fn utf8_string_of(bytes: &[u8], start: usize, end: usize) -> (r: Option<String>)
    requires
        start <= end <= bytes@.len(),
    ensures
        match r {
            Some(s) => valid_utf8(bytes@.subrange(start as int, end as int)) && s@ == decode_utf8(
                bytes@.subrange(start as int, end as int),
            ),
            None => !valid_utf8(bytes@.subrange(start as int, end as int)),
        },
{
    let sl = vstd::slice::slice_subrange(bytes, start, end);
    let v = vstd::slice::slice_to_vec(sl);
    match string_from_utf8(v) {
        Some(s) => {
            proof {
                vstd::utf8::encode_utf8_valid_utf8(s@);
                vstd::utf8::encode_utf8_decode_utf8(s@);
            }
            Some(s)
        },
        None => None,
    }
}

/// Checks that the bytes are a run of well-formed fields, as the empty
/// message's contents must be.
fn check_noop(bytes: &[u8]) -> (r: bool)
    ensures
        r == dec_noop(bytes@),
{
    let n = bytes.len();
    let mut pos: usize = 0;
    proof {
        assert(bytes@.skip(0) =~= bytes@);
    }
    while pos < n
        invariant
            pos <= n,
            n == bytes@.len(),
            dec_noop(bytes@.skip(pos as int)) == dec_noop(bytes@),
        decreases n - pos,
    {
        match read_field(bytes, pos) {
            None => {
                return false;
            },
            Some(f) => {
                proof {
                    assert(bytes@.skip(pos as int).skip(f.next - pos) =~= bytes@.skip(
                        f.next as int,
                    ));
                }
                pos = f.next;
            },
        }
    }
    proof {
        assert(bytes@.skip(pos as int) =~= Seq::<u8>::empty());
    }
    true
}

/// Decodes an actor identity from the contents of its field.
pub fn decode_actor_id(bytes: &[u8]) -> (r: Option<ActorId>)
    ensures
        match r {
            Some(v) => dec_actor_id(bytes@, ActorIdView::initial()) == Some(v@),
            None => dec_actor_id(bytes@, ActorIdView::initial()) is None,
        },
{
    let n = bytes.len();
    let mut acc = ActorId::empty();
    let mut pos: usize = 0;
    proof {
        assert(bytes@.skip(0) =~= bytes@);
    }
    while pos < n
        invariant
            pos <= n,
            n == bytes@.len(),
            dec_actor_id(bytes@.skip(pos as int), acc@) == dec_actor_id(
                bytes@,
                ActorIdView::initial(),
            ),
        decreases n - pos,
    {
        match read_field(bytes, pos) {
            None => {
                return None;
            },
            Some(f) => {
                proof {
                    assert(bytes@.skip(pos as int).skip(f.next - pos) =~= bytes@.skip(
                        f.next as int,
                    ));
                }
                if f.tag == 1 && f.wire == 2 {
                    match utf8_string_of(bytes, f.cstart, f.cend) {
                        Some(s) => {
                            acc.name = s;
                            pos = f.next;
                        },
                        None => {
                            return None;
                        },
                    }
                } else if f.tag == 2 && f.wire == 2 {
                    match utf8_string_of(bytes, f.cstart, f.cend) {
                        Some(s) => {
                            acc.system = s;
                            pos = f.next;
                        },
                        None => {
                            return None;
                        },
                    }
                } else if f.tag == 3 && f.wire == 2 {
                    match utf8_string_of(bytes, f.cstart, f.cend) {
                        Some(s) => {
                            acc.parent = s;
                            pos = f.next;
                        },
                        None => {
                            return None;
                        },
                    }
                } else if f.tag <= 3 {
                    return None;
                } else {
                    pos = f.next;
                }
            },
        }
    }
    proof {
        assert(bytes@.skip(pos as int) =~= Seq::<u8>::empty());
    }
    Some(acc)
}

/// Decodes an actor system reference from the contents of its field; the
/// result never carries a registry.
pub fn decode_system(bytes: &[u8]) -> (r: Option<crate::protocol::ActorSystem>)
    ensures
        match r {
            Some(v) => dec_system(bytes@, ActorSystemView::initial()) == Some(v@) && v.plain(),
            None => dec_system(bytes@, ActorSystemView::initial()) is None,
        },
{
    let n = bytes.len();
    let mut acc = crate::protocol::ActorSystem::empty();
    let mut pos: usize = 0;
    proof {
        assert(bytes@.skip(0) =~= bytes@);
    }
    while pos < n
        invariant
            pos <= n,
            n == bytes@.len(),
            acc.plain(),
            dec_system(bytes@.skip(pos as int), acc@) == dec_system(
                bytes@,
                ActorSystemView::initial(),
            ),
        decreases n - pos,
    {
        match read_field(bytes, pos) {
            None => {
                return None;
            },
            Some(f) => {
                proof {
                    assert(bytes@.skip(pos as int).skip(f.next - pos) =~= bytes@.skip(
                        f.next as int,
                    ));
                }
                if f.tag == 1 && f.wire == 2 {
                    match utf8_string_of(bytes, f.cstart, f.cend) {
                        Some(s) => {
                            acc.name = s;
                            pos = f.next;
                        },
                        None => {
                            return None;
                        },
                    }
                } else if f.tag == 1 {
                    return None;
                } else {
                    pos = f.next;
                }
            },
        }
    }
    proof {
        assert(bytes@.skip(pos as int) =~= Seq::<u8>::empty());
    }
    Some(acc)
}

/// Decodes the addressed actor from the contents of its field; only the
/// identity is carried, so the result holds nothing else.
pub fn decode_actor(bytes: &[u8]) -> (r: Option<crate::protocol::Actor>)
    ensures
        match r {
            Some(v) => dec_actor(bytes@, ActorView::initial()) == Some(v@) && v.id_only(),
            None => dec_actor(bytes@, ActorView::initial()) is None,
        },
{
    let n = bytes.len();
    let mut acc = crate::protocol::Actor::empty();
    let mut pos: usize = 0;
    proof {
        assert(bytes@.skip(0) =~= bytes@);
    }
    while pos < n
        invariant
            pos <= n,
            n == bytes@.len(),
            acc.id_only(),
            dec_actor(bytes@.skip(pos as int), acc@) == dec_actor(bytes@, ActorView::initial()),
        decreases n - pos,
    {
        match read_field(bytes, pos) {
            None => {
                return None;
            },
            Some(f) => {
                proof {
                    assert(bytes@.skip(pos as int).skip(f.next - pos) =~= bytes@.skip(
                        f.next as int,
                    ));
                }
                if f.tag == 1 && f.wire == 2 {
                    let content = vstd::slice::slice_subrange(bytes, f.cstart, f.cend);
                    match decode_actor_id(content) {
                        Some(id) => {
                            acc.id = Some(id);
                            pos = f.next;
                        },
                        None => {
                            return None;
                        },
                    }
                } else if f.tag == 1 {
                    return None;
                } else {
                    pos = f.next;
                }
            },
        }
    }
    proof {
        assert(bytes@.skip(pos as int) =~= Seq::<u8>::empty());
    }
    Some(acc)
}

/// Decodes a typed value from the contents of its field.
pub fn decode_any(bytes: &[u8]) -> (r: Option<crate::protocol::AnyValue>)
    ensures
        match r {
            Some(v) => dec_any(bytes@, AnyValueView::initial()) == Some(v@),
            None => dec_any(bytes@, AnyValueView::initial()) is None,
        },
{
    let n = bytes.len();
    let mut acc = crate::protocol::AnyValue::empty();
    let mut pos: usize = 0;
    proof {
        assert(bytes@.skip(0) =~= bytes@);
    }
    while pos < n
        invariant
            pos <= n,
            n == bytes@.len(),
            dec_any(bytes@.skip(pos as int), acc@) == dec_any(bytes@, AnyValueView::initial()),
        decreases n - pos,
    {
        match read_field(bytes, pos) {
            None => {
                return None;
            },
            Some(f) => {
                proof {
                    assert(bytes@.skip(pos as int).skip(f.next - pos) =~= bytes@.skip(
                        f.next as int,
                    ));
                }
                if f.tag == 1 && f.wire == 2 {
                    match utf8_string_of(bytes, f.cstart, f.cend) {
                        Some(s) => {
                            acc.type_url = s;
                            pos = f.next;
                        },
                        None => {
                            return None;
                        },
                    }
                } else if f.tag == 2 && f.wire == 2 {
                    let content = vstd::slice::slice_subrange(bytes, f.cstart, f.cend);
                    acc.value = vstd::slice::slice_to_vec(content);
                    pos = f.next;
                } else if f.tag <= 2 {
                    return None;
                } else {
                    pos = f.next;
                }
            },
        }
    }
    proof {
        assert(bytes@.skip(pos as int) =~= Seq::<u8>::empty());
    }
    Some(acc)
}

/// Decodes one metadata entry record into its key/value pair.
pub fn decode_entry(bytes: &[u8]) -> (r: Option<(String, String)>)
    ensures
        match r {
            Some(e) => dec_entry(bytes@, (Seq::empty(), Seq::empty())) == Some((e.0@, e.1@)),
            None => dec_entry(bytes@, (Seq::empty(), Seq::empty())) is None,
        },
{
    let n = bytes.len();
    let mut key = String::new();
    let mut value = String::new();
    let mut pos: usize = 0;
    proof {
        assert(bytes@.skip(0) =~= bytes@);
    }
    while pos < n
        invariant
            pos <= n,
            n == bytes@.len(),
            dec_entry(bytes@.skip(pos as int), (key@, value@)) == dec_entry(
                bytes@,
                (Seq::empty(), Seq::empty()),
            ),
        decreases n - pos,
    {
        match read_field(bytes, pos) {
            None => {
                return None;
            },
            Some(f) => {
                proof {
                    assert(bytes@.skip(pos as int).skip(f.next - pos) =~= bytes@.skip(
                        f.next as int,
                    ));
                }
                if f.tag == 1 && f.wire == 2 {
                    match utf8_string_of(bytes, f.cstart, f.cend) {
                        Some(s) => {
                            key = s;
                            pos = f.next;
                        },
                        None => {
                            return None;
                        },
                    }
                } else if f.tag == 2 && f.wire == 2 {
                    match utf8_string_of(bytes, f.cstart, f.cend) {
                        Some(s) => {
                            value = s;
                            pos = f.next;
                        },
                        None => {
                            return None;
                        },
                    }
                } else if f.tag <= 2 {
                    return None;
                } else {
                    pos = f.next;
                }
            },
        }
    }
    proof {
        assert(bytes@.skip(pos as int) =~= Seq::<u8>::empty());
    }
    Some((key, value))
}

/// Converts a varint's 64 bits to the signed value they stand for.
fn u64_to_i64(v: u64) -> (r: i64)
    ensures
        r == crate::encode::i64_of_u64(v),
{
    if v <= 0x7fff_ffff_ffff_ffffu64 {
        v as i64
    } else {
        let d: u64 = 0xffff_ffff_ffff_ffffu64 - v;
        -(d as i64) - 1
    }
}

/// Decodes a whole invocation message.  Succeeds exactly on the inputs the
/// spec decoder accepts; everything else is a malformed message.
pub fn decode_invocation(bytes: &[u8]) -> (r: Result<
    crate::protocol::InvocationRequest,
    crate::errors::ActivatorError,
>)
    ensures
        match r {
            Ok(m) => spec_decode(bytes@) == Some(m@) && m.client_form(),
            Err(e) => spec_decode(bytes@) is None && e == crate::errors::ActivatorError::MalformedMessage,
        },
{
    let n = bytes.len();
    let mut acc = crate::protocol::InvocationRequest::empty();
    let mut pos: usize = 0;
    proof {
        assert(bytes@.skip(0) =~= bytes@);
    }
    while pos < n
        invariant
            pos <= n,
            n == bytes@.len(),
            acc.client_form(),
            dec_invocation(bytes@.skip(pos as int), acc@) == spec_decode(bytes@),
        decreases n - pos,
    {
        match read_field(bytes, pos) {
            None => {
                return Err(crate::errors::ActivatorError::MalformedMessage);
            },
            Some(f) => {
                proof {
                    assert(bytes@.skip(pos as int).skip(f.next - pos) =~= bytes@.skip(
                        f.next as int,
                    ));
                }
                if f.tag == 1 && f.wire == 2 {
                    let content = vstd::slice::slice_subrange(bytes, f.cstart, f.cend);
                    match decode_system(content) {
                        Some(s) => {
                            acc.system = Some(s);
                            pos = f.next;
                        },
                        None => {
                            return Err(crate::errors::ActivatorError::MalformedMessage);
                        },
                    }
                } else if f.tag == 2 && f.wire == 2 {
                    let content = vstd::slice::slice_subrange(bytes, f.cstart, f.cend);
                    match decode_actor(content) {
                        Some(a) => {
                            acc.actor = Some(a);
                            pos = f.next;
                        },
                        None => {
                            return Err(crate::errors::ActivatorError::MalformedMessage);
                        },
                    }
                } else if f.tag == 3 && f.wire == 2 {
                    match utf8_string_of(bytes, f.cstart, f.cend) {
                        Some(s) => {
                            acc.command_name = s;
                            pos = f.next;
                        },
                        None => {
                            return Err(crate::errors::ActivatorError::MalformedMessage);
                        },
                    }
                } else if f.tag == 4 && f.wire == 2 {
                    let content = vstd::slice::slice_subrange(bytes, f.cstart, f.cend);
                    match decode_any(content) {
                        Some(a) => {
                            acc.payload = Some(crate::invocation_request::Payload::Value(a));
                            pos = f.next;
                        },
                        None => {
                            return Err(crate::errors::ActivatorError::MalformedMessage);
                        },
                    }
                } else if f.tag == 5 && f.wire == 0 {
                    acc.dispatch_mode = if f.value != 0 {
                        DispatchMode::FireAndForget
                    } else {
                        DispatchMode::RequestReply
                    };
                    pos = f.next;
                } else if f.tag == 6 && f.wire == 2 {
                    let content = vstd::slice::slice_subrange(bytes, f.cstart, f.cend);
                    match decode_actor_id(content) {
                        Some(c) => {
                            acc.caller = Some(c);
                            pos = f.next;
                        },
                        None => {
                            return Err(crate::errors::ActivatorError::MalformedMessage);
                        },
                    }
                } else if f.tag == 7 && f.wire == 2 {
                    let content = vstd::slice::slice_subrange(bytes, f.cstart, f.cend);
                    if check_noop(content) {
                        acc.payload = Some(
                            crate::invocation_request::Payload::Noop(crate::protocol::Noop {}),
                        );
                        pos = f.next;
                    } else {
                        return Err(crate::errors::ActivatorError::MalformedMessage);
                    }
                } else if f.tag == 8 && f.wire == 2 {
                    let content = vstd::slice::slice_subrange(bytes, f.cstart, f.cend);
                    match decode_entry(content) {
                        Some(e) => {
                            let ghost before = acc@.metadata;
                            let ghost entry_view = (e.0@, e.1@);
                            acc.metadata.push(e);
                            proof {
                                assert(acc@.metadata =~= before.push(entry_view));
                            }
                            pos = f.next;
                        },
                        None => {
                            return Err(crate::errors::ActivatorError::MalformedMessage);
                        },
                    }
                } else if f.tag == 9 && f.wire == 0 {
                    acc.scheduled_to = u64_to_i64(f.value);
                    pos = f.next;
                } else if f.tag == 10 && f.wire == 0 {
                    acc.pooled = f.value != 0;
                    pos = f.next;
                } else if f.tag <= 10 {
                    return Err(crate::errors::ActivatorError::MalformedMessage);
                } else {
                    pos = f.next;
                }
            },
        }
    }
    proof {
        assert(bytes@.skip(pos as int) =~= Seq::<u8>::empty());
    }
    Ok(acc)
}

} // verus!
