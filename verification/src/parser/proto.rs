//! Decoder for the protobuf encoding of an incoming record.
//!
//! Wire format:
//! ```text
//! [0x0A][0x20][32 bytes namespace]
//! [0x12][0x20][32 bytes key]
//! [0x1A][0x20][32 bytes value]
//! [0x20][varint timestamp]
//! ```
//! Fields may come in any order and may repeat (the last one wins).
//! Other fields are skipped by wire type: varints (type 0) and
//! length-delimited fields with a one-byte length (type 2).

use vstd::prelude::*;

use crate::bytes::zero32;
use crate::types::IncomingRecord;

verus! {

/// The field a length error refers to.
#[derive(Clone, Copy, Debug, PartialEq, Eq)]
pub enum FieldId {
    Namespace,
    Key,
    Value,
    Unknown,
}

/// Why a message could not be decoded.
#[derive(Clone, Copy, Debug, PartialEq, Eq)]
pub enum ParseError {
    /// The message ends where a field's length byte should stand.
    TruncatedLength(FieldId),
    /// A 32-byte field declares another length, or its bytes run past the end.
    /// Carries the declared length.
    InvalidLength(FieldId, u8),
    /// An unknown field uses a wire type other than varint or length-delimited.
    UnsupportedWireType(u8),
    /// The message ends inside a varint.
    TruncatedVarint,
    /// A varint continues past its tenth byte.
    VarintTooLarge,
}

/// Tag of the namespace field (field 1, wire type 2).
pub const TAG_NAMESPACE: u8 = 0x0A;
/// Tag of the key field (field 2, wire type 2).
pub const TAG_KEY: u8 = 0x12;
/// Tag of the value field (field 3, wire type 2).
pub const TAG_VALUE: u8 = 0x1A;
/// Tag of the timestamp field (field 4, wire type 0).
pub const TAG_TIMESTAMP: u8 = 0x20;

/// The fields of a record as sequences, as decoding fills them in.
pub struct ProtoFields {
    pub namespace: Seq<u8>,
    pub key: Seq<u8>,
    pub value: Seq<u8>,
    pub timestamp: u64,
}

/// The fields before any byte is read.
pub open spec fn initial_fields() -> ProtoFields {
    ProtoFields { namespace: zero32(), key: zero32(), value: zero32(), timestamp: 0 }
}

/// The low seven bits of `b`, placed at bit `shift` of a 64-bit word.
pub open spec fn varint_group(b: u8, shift: nat) -> u64 {
    ((b & 0x7f) as u64) << (shift as u64)
}

/// Decodes a little-endian base-128 varint whose bytes start at `i`, with
/// `shift` bits already read into `acc`. On success gives the value and the
/// index just past its last byte.
pub open spec fn varint_from(data: Seq<u8>, i: nat, shift: nat, acc: u64) -> Result<
    (u64, nat),
    ParseError,
>
    decreases data.len() - i,
{
    if i >= data.len() {
        Err(ParseError::TruncatedVarint)
    } else {
        let b = data[i as int];
        let acc2 = acc | varint_group(b, shift);
        if b & 0x80 == 0 {
            Ok((acc2, i + 1))
        } else if shift + 7 > 63 {
            Err(ParseError::VarintTooLarge)
        } else {
            varint_from(data, i + 1, shift + 7, acc2)
        }
    }
}

/// A successful varint ends after the byte it starts at.
pub proof fn lemma_varint_progress(data: Seq<u8>, i: nat, shift: nat, acc: u64)
    ensures
        varint_from(data, i, shift, acc) matches Ok((_, end)) ==> i < end <= data.len(),
    decreases data.len() - i,
{
    if i < data.len() {
        let b = data[i as int];
        let acc2 = acc | varint_group(b, shift);
        if b & 0x80 != 0 && shift + 7 <= 63 {
            lemma_varint_progress(data, i + 1, shift + 7, acc2);
        }
    }
}

/// The field that a length-delimited tag of the record stands for.
pub open spec fn field_of_tag(tag: u8) -> FieldId {
    if tag == TAG_NAMESPACE {
        FieldId::Namespace
    } else if tag == TAG_KEY {
        FieldId::Key
    } else {
        FieldId::Value
    }
}

/// `st` with the 32-byte field named by `tag` set to `bytes`.
pub open spec fn set_field(st: ProtoFields, tag: u8, bytes: Seq<u8>) -> ProtoFields {
    if tag == TAG_NAMESPACE {
        ProtoFields { namespace: bytes, ..st }
    } else if tag == TAG_KEY {
        ProtoFields { key: bytes, ..st }
    } else {
        ProtoFields { value: bytes, ..st }
    }
}

/// Decodes the fields of `data` from index `off` on, starting from `st`.
pub open spec fn parse_from(data: Seq<u8>, off: nat, st: ProtoFields) -> Result<
    ProtoFields,
    ParseError,
>
    decreases data.len() - off,
{
    if off >= data.len() {
        Ok(st)
    } else {
        let tag = data[off as int];
        let o = off + 1;
        if tag == TAG_NAMESPACE || tag == TAG_KEY || tag == TAG_VALUE {
            if o >= data.len() {
                Err(ParseError::TruncatedLength(field_of_tag(tag)))
            } else {
                let len = data[o as int];
                let start = o + 1;
                if len != 32 || start + 32 > data.len() {
                    Err(ParseError::InvalidLength(field_of_tag(tag), len))
                } else {
                    parse_from(
                        data,
                        start + 32,
                        set_field(st, tag, data.subrange(start as int, start + 32 as int)),
                    )
                }
            }
        } else if tag == TAG_TIMESTAMP {
            proof {
                lemma_varint_progress(data, o, 0, 0);
            }
            match varint_from(data, o, 0, 0) {
                Err(e) => Err(e),
                Ok((v, end)) => parse_from(data, end, ProtoFields { timestamp: v, ..st }),
            }
        } else {
            let wire_type = tag & 0x07;
            if wire_type == 0 {
                proof {
                    lemma_varint_progress(data, o, 0, 0);
                }
                match varint_from(data, o, 0, 0) {
                    Err(e) => Err(e),
                    Ok((_v, end)) => parse_from(data, end, st),
                }
            } else if wire_type == 2 {
                if o >= data.len() {
                    Err(ParseError::TruncatedLength(FieldId::Unknown))
                } else {
                    let next = o + 1 + data[o as int];
                    if next >= data.len() {
                        Ok(st)
                    } else {
                        parse_from(data, next as nat, st)
                    }
                }
            } else {
                Err(ParseError::UnsupportedWireType(wire_type))
            }
        }
    }
}

/// Decodes a whole message.
pub open spec fn spec_parse(data: Seq<u8>) -> Result<ProtoFields, ParseError> {
    parse_from(data, 0, initial_fields())
}

/// The varint bytes of `v`: seven bits at a time, least significant first,
/// with the high bit set on every byte but the last.
pub open spec fn varint_bytes(v: u64) -> Seq<u8>
    decreases v,
{
    if v < 128 {
        seq![v as u8]
    } else {
        seq![(v % 128 + 128) as u8] + varint_bytes(v / 128)
    }
}

/// A message in the documented wire format: namespace, key and value as
/// 32-byte length-delimited fields, then the timestamp as a varint.
pub open spec fn canonical_message(f: ProtoFields) -> Seq<u8> {
    seq![TAG_NAMESPACE, 32u8] + f.namespace + seq![TAG_KEY, 32u8] + f.key + seq![TAG_VALUE, 32u8]
        + f.value + seq![TAG_TIMESTAMP] + varint_bytes(f.timestamp)
}

/// The low group and the rest of a value, shifted into place, make the
/// shifted value.
proof fn lemma_varint_split(v: u64, s: u64)
    requires
        s <= 56,
    ensures
        ((v % 128) << s) | ((v / 128) << (s + 7)) == v << s,
        ((v << s) >> s == v) ==> (((v / 128) << (s + 7)) >> (s + 7) == v / 128),
{
    assert(((v % 128) << s) | ((v / 128) << (s + 7)) == v << s) by (bit_vector)
        requires
            s <= 56,
    ;
    assert(((v << s) >> s == v) ==> (((v / 128) << (s + 7)) >> (s + 7) == v / 128)) by (bit_vector)
        requires
            s <= 56,
    ;
}

/// A value of at least 128 that survives a shift by `s` leaves room for
/// seven more bits.
proof fn lemma_varint_room(v: u64, s: u64)
    requires
        s <= 63,
        v >= 128,
        (v << s) >> s == v,
    ensures
        s <= 56,
{
    assert(s > 56 ==> (v << s) >> s != v) by (bit_vector)
        requires
            s <= 63,
            v >= 128,
    ;
}

/// The bytes of a varint byte below 128 and of one with the high bit set.
proof fn lemma_varint_byte(v: u64)
    ensures
        v < 128 ==> ((v as u8) & 0x80 == 0 && ((v as u8) & 0x7f) as u64 == v),
        ((v % 128 + 128) as u8) & 0x80 != 0,
        (((v % 128 + 128) as u8) & 0x7f) as u64 == v % 128,
{
    assert(v < 128 ==> ((v as u8) & 0x80 == 0 && ((v as u8) & 0x7f) as u64 == v)) by (bit_vector);
    assert(((v % 128 + 128) as u8) & 0x80 != 0) by (bit_vector);
    assert((((v % 128 + 128) as u8) & 0x7f) as u64 == v % 128) by (bit_vector);
}

/// Decoding the varint bytes of `v` from bit `s` on, with `acc` read so
/// far, adds `v` shifted by `s` and ends just past them.
proof fn lemma_varint_decodes(data: Seq<u8>, i: nat, s: nat, acc: u64, v: u64)
    requires
        s <= 63,
        i + varint_bytes(v).len() <= data.len(),
        data.subrange(i as int, (i + varint_bytes(v).len()) as int) == varint_bytes(v),
        (v << (s as u64)) >> (s as u64) == v,
    ensures
        varint_from(data, i, s, acc) == Ok::<(u64, nat), ParseError>(
            (acc | (v << (s as u64)), i + varint_bytes(v).len()),
        ),
    decreases v,
{
    let bytes = varint_bytes(v);
    assert(data[i as int] == bytes[0]);
    lemma_varint_byte(v);
    if v < 128 {
        assert(bytes.len() == 1);
    } else {
        lemma_varint_room(v, s as u64);
        lemma_varint_split(v, s as u64);
        let rest = varint_bytes(v / 128);
        assert(bytes.len() == 1 + rest.len());
        assert(data.subrange((i + 1) as int, (i + 1 + rest.len()) as int) =~= rest) by {
            assert forall|j: int| 0 <= j < rest.len() implies data.subrange(
                (i + 1) as int,
                (i + 1 + rest.len()) as int,
            )[j] == rest[j] by {
                assert(data.subrange(i as int, (i + bytes.len()) as int)[j + 1] == bytes[j + 1]);
            }
        }
        let acc2 = acc | varint_group(bytes[0], s);
        assert(acc2 == acc | ((v % 128) << (s as u64)));
        lemma_varint_decodes(data, i + 1, s + 7, acc2, v / 128);
        let s1: u64 = s as u64;
        let s2: u64 = (s + 7) as u64;
        assert(s2 == s1 + 7);
        assert((acc | ((v % 128) << s1)) | ((v / 128) << s2) == acc | (v << s1)) by (bit_vector)
            requires
                ((v % 128) << s1) | ((v / 128) << s2) == v << s1,
        ;
    }
}

/// A message in the documented wire format decodes to exactly its fields.
pub proof fn law_parse_canonical_message(f: ProtoFields)
    requires
        f.namespace.len() == 32,
        f.key.len() == 32,
        f.value.len() == 32,
    ensures
        spec_parse(canonical_message(f)) == Ok::<ProtoFields, ParseError>(f),
{
    let data = canonical_message(f);
    let vb = varint_bytes(f.timestamp);
    assert(data.len() == 103 + vb.len());
    assert(data[0] == TAG_NAMESPACE && data[1] == 32);
    assert(data.subrange(2, 34) =~= f.namespace);
    assert(data[34] == TAG_KEY && data[35] == 32);
    assert(data.subrange(36, 68) =~= f.key);
    assert(data[68] == TAG_VALUE && data[69] == 32);
    assert(data.subrange(70, 102) =~= f.value);
    assert(data[102] == TAG_TIMESTAMP);
    assert(data.subrange(103, (103 + vb.len()) as int) =~= vb);
    let ts = f.timestamp;
    assert((ts << 0u64) >> 0u64 == ts) by (bit_vector);
    lemma_varint_decodes(data, 103, 0, 0, ts);
    assert(0u64 | (ts << 0u64) == ts) by (bit_vector);
    let st1 = set_field(initial_fields(), TAG_NAMESPACE, f.namespace);
    let st2 = set_field(st1, TAG_KEY, f.key);
    let st3 = set_field(st2, TAG_VALUE, f.value);
    assert(parse_from(data, 0, initial_fields()) == parse_from(data, 34, st1));
    assert(parse_from(data, 34, st1) == parse_from(data, 68, st2));
    assert(parse_from(data, 68, st2) == parse_from(data, 102, st3));
    assert(parse_from(data, 103 + vb.len(), ProtoFields { timestamp: f.timestamp, ..st3 }) == Ok::<
        ProtoFields,
        ParseError,
    >(ProtoFields { timestamp: f.timestamp, ..st3 }));
}

/// A varint read inside `data` where the bytes `e` stand, from position
/// `i`, decodes as it does in `e` alone, and ends at the matching position.
proof fn lemma_varint_in_place(data: Seq<u8>, i: nat, e: Seq<u8>, j: nat, s: nat, acc: u64)
    requires
        i + e.len() <= data.len(),
        data.subrange(i as int, i as int + e.len()) == e,
    ensures
        varint_from(e, j, s, acc) matches Ok((v, end)) ==> varint_from(data, i + j, s, acc)
            == Ok::<(u64, nat), ParseError>((v, i + end)),
    decreases e.len() - j,
{
    if j < e.len() {
        assert(data[i as int + j] == data.subrange(i as int, i as int + e.len())[j as int]);
        let b = e[j as int];
        let acc2 = acc | varint_group(b, s);
        if b & 0x80 != 0 && s + 7 <= 63 {
            lemma_varint_in_place(data, i, e, j + 1, s + 7, acc2);
            assert(i + (j + 1) == (i + j) + 1);
        }
    }
}

/// Whether `ts` is a varint, ended by a byte without the high bit, that
/// decodes to `t`: decoding it uses every one of its bytes (at most ten)
/// and gives `t`.
pub open spec fn varint_encodes(ts: Seq<u8>, t: u64) -> bool {
    varint_from(ts, 0, 0, 0) == Ok::<(u64, nat), ParseError>((t, ts.len()))
}

/// The encoding of one field of `f`: 0 the namespace, 1 the key, 2 the
/// value, 3 the timestamp, whose varint bytes are `ts`.
pub open spec fn field_encoding(f: ProtoFields, ts: Seq<u8>, which: nat) -> Seq<u8> {
    if which == 0 {
        seq![TAG_NAMESPACE, 32u8] + f.namespace
    } else if which == 1 {
        seq![TAG_KEY, 32u8] + f.key
    } else if which == 2 {
        seq![TAG_VALUE, 32u8] + f.value
    } else {
        seq![TAG_TIMESTAMP] + ts
    }
}

/// `st` with field `which` (numbered as in `field_encoding`) taken from `f`.
pub open spec fn take_field(st: ProtoFields, f: ProtoFields, which: nat) -> ProtoFields {
    if which == 0 {
        ProtoFields { namespace: f.namespace, ..st }
    } else if which == 1 {
        ProtoFields { key: f.key, ..st }
    } else if which == 2 {
        ProtoFields { value: f.value, ..st }
    } else {
        ProtoFields { timestamp: f.timestamp, ..st }
    }
}

/// The fields of `f` encoded one after another in the order `order`, the
/// timestamp's varint bytes being `ts`.
pub open spec fn message_in_order(f: ProtoFields, ts: Seq<u8>, order: Seq<nat>) -> Seq<u8>
    decreases order.len(),
{
    if order.len() == 0 {
        Seq::empty()
    } else {
        field_encoding(f, ts, order[0]) + message_in_order(f, ts, order.drop_first())
    }
}

/// `st` with the fields of `order` taken from `f`, in order.
pub open spec fn take_fields(st: ProtoFields, f: ProtoFields, order: Seq<nat>) -> ProtoFields
    decreases order.len(),
{
    if order.len() == 0 {
        st
    } else {
        take_fields(take_field(st, f, order[0]), f, order.drop_first())
    }
}

/// Decoding one encoded field at `off` takes that field from `f`.
proof fn lemma_parse_one_field(
    data: Seq<u8>,
    off: nat,
    st: ProtoFields,
    f: ProtoFields,
    ts: Seq<u8>,
    which: nat,
)
    requires
        varint_encodes(ts, f.timestamp),
        f.namespace.len() == 32,
        f.key.len() == 32,
        f.value.len() == 32,
        off + field_encoding(f, ts, which).len() <= data.len(),
        data.subrange(off as int, off as int + field_encoding(f, ts, which).len()) == field_encoding(f, ts, which),
    ensures
        parse_from(data, off, st) == parse_from(
            data,
            off + field_encoding(f, ts, which).len(),
            take_field(st, f, which),
        ),
{
    let enc = field_encoding(f, ts, which);
    assert(data[off as int] == enc[0]);
    if which <= 2 {
        let body = if which == 0 {
            f.namespace
        } else if which == 1 {
            f.key
        } else {
            f.value
        };
        assert(data[off as int + 1] == enc[1]);
        assert(data.subrange(off as int + 2, off as int + 34) =~= body) by {
            assert forall|j: int| 0 <= j < 32 implies data.subrange(off as int + 2, off as int + 34)[j] == body[j] by {
                assert(data.subrange(off as int, off as int + enc.len())[j + 2] == enc[j + 2]);
            }
        }
    } else {
        assert(data.subrange(off as int + 1, off as int + 1 + ts.len()) =~= ts) by {
            assert forall|j: int| 0 <= j < ts.len() implies data.subrange(off as int + 1, off as int + 1 + ts.len())[j]
                == ts[j] by {
                assert(data.subrange(off as int, off as int + enc.len())[j + 1] == enc[j + 1]);
            }
        }
        lemma_varint_in_place(data, (off + 1) as nat, ts, 0, 0, 0);
    }
}

/// Decoding the encoded fields of `order` that fill `data` from `off` to its
/// end takes those fields from `f`, in order.
proof fn lemma_parse_fields(
    data: Seq<u8>,
    off: nat,
    st: ProtoFields,
    f: ProtoFields,
    ts: Seq<u8>,
    order: Seq<nat>,
)
    requires
        varint_encodes(ts, f.timestamp),
        f.namespace.len() == 32,
        f.key.len() == 32,
        f.value.len() == 32,
        off <= data.len(),
        data.subrange(off as int, data.len() as int) == message_in_order(f, ts, order),
    ensures
        parse_from(data, off, st) == Ok::<ProtoFields, ParseError>(take_fields(st, f, order)),
    decreases order.len(),
{
    if order.len() == 0 {
        assert(data.subrange(off as int, data.len() as int).len() == 0);
    } else {
        let enc = field_encoding(f, ts, order[0]);
        let rest = message_in_order(f, ts, order.drop_first());
        let whole = data.subrange(off as int, data.len() as int);
        assert(whole == enc + rest);
        assert(data.subrange(off as int, off as int + enc.len()) =~= enc) by {
            assert forall|j: int| 0 <= j < enc.len() implies data.subrange(off as int, off as int + enc.len())[j]
                == enc[j] by {
                assert(whole[j] == (enc + rest)[j]);
            }
        }
        lemma_parse_one_field(data, off, st, f, ts, order[0]);
        assert(data.subrange(off as int + enc.len(), data.len() as int) =~= rest) by {
            assert forall|j: int| 0 <= j < rest.len() implies data.subrange(
                off as int + enc.len(),
                data.len() as int,
            )[j] == rest[j] by {
                assert(whole[j + enc.len()] == (enc + rest)[j + enc.len()]);
            }
        }
        lemma_parse_fields(
            data,
            (off + enc.len()) as nat,
            take_field(st, f, order[0]),
            f,
            ts,
            order.drop_first(),
        );
    }
}

/// Each field of the result of `take_fields` comes from `f` when `order`
/// names it, and from `st` otherwise.
proof fn lemma_take_fields(st: ProtoFields, f: ProtoFields, order: Seq<nat>)
    ensures
        take_fields(st, f, order).namespace == (if order.contains(0) {
            f.namespace
        } else {
            st.namespace
        }),
        take_fields(st, f, order).key == (if order.contains(1) {
            f.key
        } else {
            st.key
        }),
        take_fields(st, f, order).value == (if order.contains(2) {
            f.value
        } else {
            st.value
        }),
        (forall|j: int| 0 <= j < order.len() ==> order[j] <= 3) ==> take_fields(st, f, order).timestamp
            == (if order.contains(3) {
            f.timestamp
        } else {
            st.timestamp
        }),
    decreases order.len(),
{
    if order.len() > 0 {
        let rest = order.drop_first();
        lemma_take_fields(take_field(st, f, order[0]), f, rest);
        assert forall|w: nat| order.contains(w) <==> (order[0] == w || rest.contains(w)) by {
            if order.contains(w) {
                let j = choose|j: int| 0 <= j < order.len() && order[j] == w;
                if j > 0 {
                    assert(rest[j - 1] == w);
                }
            }
            if rest.contains(w) {
                let j = choose|j: int| 0 <= j < rest.len() && rest[j] == w;
                assert(order[j + 1] == w);
            }
        }
        if forall|j: int| 0 <= j < order.len() ==> order[j] <= 3 {
            assert forall|j: int| 0 <= j < rest.len() implies rest[j] <= 3 by {
                assert(rest[j] == order[j + 1]);
            }
        }
    }
}

/// A message that holds each of the four fields once, in any order, with
/// the timestamp written as any varint that ends within its ten bytes and
/// decodes to it (the shortest one among them), decodes to exactly those fields.
pub proof fn law_parse_fields_in_any_order(f: ProtoFields, ts: Seq<u8>, order: Seq<nat>)
    requires
        f.namespace.len() == 32,
        f.key.len() == 32,
        f.value.len() == 32,
        varint_encodes(ts, f.timestamp),
        order.len() == 4,
        forall|j: int| 0 <= j < 4 ==> order[j] <= 3,
        forall|w: nat| w <= 3 ==> order.contains(w),
    ensures
        spec_parse(message_in_order(f, ts, order)) == Ok::<ProtoFields, ParseError>(f),
{
    let data = message_in_order(f, ts, order);
    assert(data.subrange(0, data.len() as int) =~= data);
    lemma_parse_fields(data, 0, initial_fields(), f, ts, order);
    lemma_take_fields(initial_fields(), f, order);
    assert(order.contains(0) && order.contains(1) && order.contains(2) && order.contains(3));
}

/// The shortest varint of `t` is one that `law_parse_fields_in_any_order` accepts.
pub proof fn law_shortest_varint_encodes(t: u64)
    ensures
        varint_encodes(varint_bytes(t), t),
{
    let e = varint_bytes(t);
    assert(e.subrange(0, e.len() as int) =~= e);
    assert((t << 0u64) >> 0u64 == t) by (bit_vector);
    lemma_varint_decodes(e, 0, 0, 0, t);
    assert(0u64 | (t << 0u64) == t) by (bit_vector);
}

/// Decodes a varint from `data` starting at index `start`; on success gives the
/// value and the index just past the varint.
fn decode_varint_at(data: &[u8], start: usize) -> (res: Result<(u64, usize), ParseError>)
    requires
        start <= data@.len(),
    ensures
        match (res, varint_from(data@, start as nat, 0, 0)) {
            (Ok((v, end)), Ok((sv, send))) => v == sv && end == send,
            (Err(e), Err(se)) => e == se,
            _ => false,
        },
{
    let mut result: u64 = 0;
    let mut shift: u64 = 0;
    let mut offset: usize = start;
    loop
        invariant
            start <= offset <= data@.len(),
            shift <= 63,
            varint_from(data@, start as nat, 0, 0) == varint_from(
                data@,
                offset as nat,
                shift as nat,
                result,
            ),
        decreases data@.len() - offset,
    {
        if offset >= data.len() {
            return Err(ParseError::TruncatedVarint);
        }
        let byte = data[offset];
        offset += 1;
        result = result | (((byte & 0x7F) as u64) << shift);
        if byte & 0x80 == 0 {
            return Ok((result, offset));
        }
        if shift + 7 > 63 {
            return Err(ParseError::VarintTooLarge);
        }
        shift += 7;
    }
}

/// Decodes a varint from the start of `data`, returning the value and the
/// number of bytes it took.
pub fn decode_varint(data: &[u8]) -> (res: Result<(u64, usize), ParseError>)
    ensures
        match (res, varint_from(data@, 0, 0, 0)) {
            (Ok((v, n)), Ok((sv, send))) => v == sv && n == send,
            (Err(e), Err(se)) => e == se,
            _ => false,
        },
{
    decode_varint_at(data, 0)
}

/// The 32 bytes of `data` that start at `start`.
fn copy32(data: &[u8], start: usize) -> (r: [u8; 32])
    requires
        start + 32 <= data@.len(),
    ensures
        r@ == data@.subrange(start as int, start + 32),
{
    let mut out = [0u8; 32];
    let mut i: usize = 0;
    while i < 32
        invariant
            i <= 32,
            start + 32 <= data@.len(),
            data@.len() == data.len(),
            out@.len() == 32,
            forall|j: int| 0 <= j < i ==> out@[j] == data@[start + j],
        decreases 32 - i,
    {
        out[i] = data[start + i];
        i += 1;
    }
    assert(out@ =~= data@.subrange(start as int, start + 32));
    out
}

/// The decoded fields of `r`, as sequences.
pub open spec fn record_fields(r: IncomingRecord) -> ProtoFields {
    ProtoFields { namespace: r.namespace@, key: r.key@, value: r.value@, timestamp: r.timestamp }
}

/// Parses a protobuf-encoded incoming record.
///
/// Succeeds exactly when `spec_parse` does, and then gives back its fields;
/// fields that the message lacks are zero.
pub fn parse_proto_message(data: &[u8]) -> (res: Result<IncomingRecord, ParseError>)
    ensures
        match (res, spec_parse(data@)) {
            (Ok(r), Ok(f)) => record_fields(r) == f,
            (Err(e), Err(se)) => e == se,
            _ => false,
        },
{
    let mut offset: usize = 0;
    let mut namespace = [0u8; 32];
    let mut key = [0u8; 32];
    let mut value = [0u8; 32];
    let mut timestamp: u64 = 0;
    proof {
        assert(namespace@ =~= zero32());
        assert(key@ =~= zero32());
        assert(value@ =~= zero32());
    }

    while offset < data.len()
        invariant
            offset <= data@.len(),
            spec_parse(data@) == parse_from(
                data@,
                offset as nat,
                ProtoFields {
                    namespace: namespace@,
                    key: key@,
                    value: value@,
                    timestamp: timestamp,
                },
            ),
        decreases data@.len() - offset,
    {
        let ghost st = ProtoFields {
            namespace: namespace@,
            key: key@,
            value: value@,
            timestamp: timestamp,
        };
        let tag = data[offset];
        offset += 1;
        if tag == TAG_NAMESPACE || tag == TAG_KEY || tag == TAG_VALUE {
            let field = if tag == TAG_NAMESPACE {
                FieldId::Namespace
            } else if tag == TAG_KEY {
                FieldId::Key
            } else {
                FieldId::Value
            };
            if offset >= data.len() {
                return Err(ParseError::TruncatedLength(field));
            }
            let len = data[offset];
            offset += 1;
            if len != 32 || 32 > data.len() - offset {
                return Err(ParseError::InvalidLength(field, len));
            }
            let bytes = copy32(data, offset);
            if tag == TAG_NAMESPACE {
                namespace = bytes;
            } else if tag == TAG_KEY {
                key = bytes;
            } else {
                value = bytes;
            }
            offset += 32;
        } else if tag == TAG_TIMESTAMP {
            proof {
                lemma_varint_progress(data@, offset as nat, 0, 0);
            }
            match decode_varint_at(data, offset) {
                Ok((ts, end)) => {
                    timestamp = ts;
                    offset = end;
                },
                Err(e) => {
                    return Err(e);
                },
            }
        } else {
            let wire_type = tag & 0x07;
            if wire_type == 0 {
                proof {
                    lemma_varint_progress(data@, offset as nat, 0, 0);
                }
                match decode_varint_at(data, offset) {
                    Ok((_ts, end)) => {
                        offset = end;
                    },
                    Err(e) => {
                        return Err(e);
                    },
                }
            } else if wire_type == 2 {
                if offset >= data.len() {
                    return Err(ParseError::TruncatedLength(FieldId::Unknown));
                }
                let len = data[offset] as usize;
                if len >= data.len() - offset {
                    // The skipped field runs to or past the end of the message.
                    offset = data.len();
                } else {
                    offset = offset + 1 + len;
                }
            } else {
                return Err(ParseError::UnsupportedWireType(wire_type));
            }
        }
    }
    Ok(IncomingRecord { namespace, key, value, timestamp })
}

} // verus!
