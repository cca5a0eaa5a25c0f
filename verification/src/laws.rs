use crate::actions::{Action, ActionKind, ActionModel};
use crate::bytes::{be16, i128_bytes, lemma_be16_round_trip, lemma_i128_round_trip, I128_WIDTH};
use crate::entity::{Entity, EntityModel};
use crate::error::Error;
use crate::grammar::{
    action_remainder, declared_len, decode, decode_action, decode_entity, decode_items,
    decode_payload, decode_session, entity_remainder, frame, remainder, session_remainder,
    target_of, Frame,
};
use crate::reader::{checked, FromField};
use crate::serde::{lemma_item_fits, AsValue};
use crate::session::{Session, SessionModel};
use crate::tag::FieldType;
use crate::wire::{
    action_payload, action_values, actions_payload, concat, encoding, encodings,
    entities_payload, entity_payload, entity_values, fits, lemma_concat_first,
    lemma_list_payload, payload, record, session_payload, target_text, Value, HEADER_LEN,
    MAX_PAYLOAD,
};
use vstd::prelude::*;
use vstd::utf8::{encode_utf8_decode_utf8, encode_utf8_valid_utf8};

verus! {

/// Whether an action is spelled in the one way that reading gives back: an action without a
/// target has no target, not an empty one.
pub open spec fn canonical_action(a: ActionModel) -> bool {
    a.target matches Some(name) ==> name.len() > 0
}

/// Whether every action inside a value is spelled in the one way that reading gives back.
pub open spec fn canonical(v: Value) -> bool
    decreases v,
{
    match v {
        Value::Action(a) => canonical_action(a),
        Value::Session(s) => forall|i: int|
            0 <= i < s.actions.len() ==> canonical_action(#[trigger] s.actions[i]),
        Value::Vec(items) => forall|i: int|
            0 <= i < items.len() ==> canonical(#[trigger] items[i]),
        _ => true,
    }
}

/// Whether the record of `v` is read back as `v`, whatever follows it.
pub open spec fn reads_back(v: Value) -> bool {
    forall|rest: Seq<u8>| #[trigger] decode(encoding(v) + rest) == Ok::<Value, Error>(v)
}

proof fn lemma_assoc(a: Seq<u8>, b: Seq<u8>, c: Seq<u8>)
    ensures
        (a + b) + c == a + (b + c),
{
    assert((a + b) + c =~= a + (b + c));
}

proof fn lemma_right_unit(a: Seq<u8>)
    ensures
        a + Seq::<u8>::empty() == a,
{
    assert(a + Seq::<u8>::empty() =~= a);
}

/// Reading the record of a value that is read back, with anything after it, gives the value
/// and leaves what was after it.
proof fn lemma_read_one(v: Value, rest: Seq<u8>)
    requires
        fits(v),
        reads_back(v),
    ensures
        decode(encoding(v) + rest) == Ok::<Value, Error>(v),
        remainder(encoding(v) + rest) == rest,
{
    lemma_frame_of_record(v.shape(), payload(v), rest);
}

/// A record is taken apart into the shape and the payload it was made of, and what follows it
/// is left.
pub proof fn lemma_frame_of_record(shape: FieldType, payload: Seq<u8>, rest: Seq<u8>)
    requires
        payload.len() <= MAX_PAYLOAD,
    ensures
        frame(record(shape, payload) + rest) == Ok::<Frame, Error>(Frame { shape, payload }),
        remainder(record(shape, payload) + rest) == rest,
{
    reveal(frame);
    reveal(remainder);
    let bytes = record(shape, payload) + rest;
    shape.tag_is_stable();
    lemma_be16_round_trip(payload.len());
    assert(bytes[0] == shape.spec_tag());
    assert(bytes[1] == be16(payload.len())[0]);
    assert(bytes[2] == be16(payload.len())[1]);
    assert(declared_len(bytes) == payload.len());
    assert(bytes.subrange(HEADER_LEN as int, HEADER_LEN + payload.len()) =~= payload);
    assert(bytes.skip(HEADER_LEN + payload.len()) =~= rest);
}

/// A value that can be written and whose payload is read back as the value, is read back
/// from its record.
proof fn lemma_reads_back_from_payload(v: Value)
    requires
        fits(v),
        decode_payload(v.shape(), payload(v)) == Ok::<Value, Error>(v),
    ensures
        reads_back(v),
{
    assert forall|rest: Seq<u8>| #[trigger]
        decode(encoding(v) + rest) == Ok::<Value, Error>(v) by {
        lemma_frame_of_record(v.shape(), payload(v), rest);
    }
}

/// A text that can be written is read back.
pub proof fn lemma_text_reads_back(text: Seq<char>)
    requires
        fits(Value::Str(text)),
    ensures
        reads_back(Value::Str(text)),
{
    encode_utf8_valid_utf8(text);
    encode_utf8_decode_utf8(text);
    lemma_reads_back_from_payload(Value::Str(text));
}

/// An integer is read back.
pub proof fn lemma_i128_reads_back(x: i128)
    ensures
        fits(Value::I128(x)),
        reads_back(Value::I128(x)),
{
    lemma_i128_round_trip(x);
    assert(i128_bytes(x).take(I128_WIDTH as int) =~= i128_bytes(x));
    lemma_reads_back_from_payload(Value::I128(x));
}

/// A byte is read back.
pub proof fn lemma_byte_reads_back(b: u8)
    ensures
        fits(Value::Byte(b)),
        reads_back(Value::Byte(b)),
{
    lemma_reads_back_from_payload(Value::Byte(b));
}

/// A boolean is read back.
pub proof fn lemma_bool_reads_back(b: bool)
    ensures
        fits(Value::Bool(b)),
        reads_back(Value::Bool(b)),
{
    lemma_reads_back_from_payload(Value::Bool(b));
}

/// The kind of an action is read back.
pub proof fn lemma_kind_reads_back(kind: ActionKind)
    ensures
        fits(Value::ActionKind(kind)),
        reads_back(Value::ActionKind(kind)),
{
    kind.byte_is_stable();
    lemma_reads_back_from_payload(Value::ActionKind(kind));
}

/// The fields of an entity are read back as the entity, and what follows them is left.
pub proof fn lemma_entity_fields(e: EntityModel, rest: Seq<u8>)
    requires
        fits(Value::Entity(e)),
    ensures
        decode_entity(entity_payload(e) + rest) == Ok::<EntityModel, Error>(e),
        entity_remainder(entity_payload(e) + rest) == rest,
{
    let name = Value::Str(e.name);
    let health = Value::Byte(e.health);
    let flag = Value::Bool(e.flag);
    let third = encoding(flag) + rest;
    let second = encoding(health) + third;
    assert(entity_payload(e) + rest == encoding(name) + second) by {
        lemma_assoc(encoding(name) + encoding(health), encoding(flag), rest);
        lemma_assoc(encoding(name), encoding(health), third);
    }
    lemma_text_reads_back(e.name);
    lemma_byte_reads_back(e.health);
    lemma_bool_reads_back(e.flag);
    lemma_read_one(name, second);
    lemma_read_one(health, third);
    lemma_read_one(flag, rest);
}

/// An entity that can be written is read back.
pub proof fn lemma_entity_reads_back(e: EntityModel)
    requires
        fits(Value::Entity(e)),
    ensures
        reads_back(Value::Entity(e)),
{
    lemma_entity_fields(e, Seq::empty());
    lemma_right_unit(entity_payload(e));
    lemma_reads_back_from_payload(Value::Entity(e));
}

/// The fields of an action are read back as the action, and what follows them is left.
pub proof fn lemma_action_fields(a: ActionModel, rest: Seq<u8>)
    requires
        fits(Value::Action(a)),
        canonical_action(a),
    ensures
        decode_action(action_payload(a) + rest) == Ok::<ActionModel, Error>(a),
        action_remainder(action_payload(a) + rest) == rest,
{
    let start = Value::I128(a.start);
    let entity = Value::Str(a.entity);
    let kind = Value::ActionKind(a.kind);
    let target = Value::Str(target_text(a.target));
    let fourth = encoding(target) + rest;
    let third = encoding(kind) + fourth;
    let second = encoding(entity) + third;
    assert(action_payload(a) + rest == encoding(start) + second) by {
        lemma_assoc(
            encoding(start) + encoding(entity) + encoding(kind),
            encoding(target),
            rest,
        );
        lemma_assoc(encoding(start) + encoding(entity), encoding(kind), fourth);
        lemma_assoc(encoding(start), encoding(entity), third);
    }
    lemma_i128_reads_back(a.start);
    lemma_text_reads_back(a.entity);
    lemma_kind_reads_back(a.kind);
    lemma_text_reads_back(target_text(a.target));
    lemma_read_one(start, second);
    lemma_read_one(entity, third);
    lemma_read_one(kind, fourth);
    lemma_read_one(target, rest);
    assert(target_of(target_text(a.target)) == a.target);
}

/// An action that can be written and is spelled in the one way is read back.
pub proof fn lemma_action_reads_back(a: ActionModel)
    requires
        fits(Value::Action(a)),
        canonical_action(a),
    ensures
        reads_back(Value::Action(a)),
{
    lemma_action_fields(a, Seq::empty());
    lemma_right_unit(action_payload(a));
    lemma_reads_back_from_payload(Value::Action(a));
}

/// The records of values that are each read back are read back as the sequence of the values.
pub proof fn lemma_items_read_back(items: Seq<Value>)
    requires
        forall|i: int| 0 <= i < items.len() ==> fits(#[trigger] items[i]) && reads_back(items[i]),
    ensures
        decode_items(concat(encodings(items))) == Ok::<Seq<Value>, Error>(items),
    decreases items.len(),
{
    let parts = encodings(items);
    if items.len() == 0 {
        assert(items =~= Seq::<Value>::empty());
    } else {
        let tail = items.skip(1);
        let bytes = concat(parts);
        let after = concat(encodings(tail));
        lemma_concat_first(parts);
        assert(parts.skip(1) =~= encodings(tail));
        assert(bytes == encoding(items[0]) + after);
        assert(fits(items[0]) && reads_back(items[0]));
        lemma_frame_of_record(items[0].shape(), payload(items[0]), after);
        assert(decode(encoding(items[0]) + after) == Ok::<Value, Error>(items[0]));
        assert forall|i: int| 0 <= i < tail.len() implies fits(#[trigger] tail[i]) && reads_back(
            tail[i],
        ) by {
            assert(tail[i] == items[i + 1]);
        }
        lemma_items_read_back(tail);
        assert(seq![items[0]] + tail =~= items);
    }
}

/// A sequence that can be written, of values that are each read back, is read back.
pub proof fn lemma_vec_reads_back(items: Seq<Value>)
    requires
        fits(Value::Vec(items)),
        forall|i: int| 0 <= i < items.len() ==> reads_back(#[trigger] items[i]),
    ensures
        reads_back(Value::Vec(items)),
{
    assert forall|i: int| 0 <= i < items.len() implies fits(#[trigger] items[i]) && reads_back(
        items[i],
    ) by {
        lemma_item_fits(items, i);
    }
    lemma_items_read_back(items);
    lemma_list_payload(items);
    lemma_reads_back_from_payload(Value::Vec(items));
}

/// A sequence of entities that can be written is read back.
pub proof fn lemma_entities_read_back(entities: Seq<EntityModel>)
    requires
        entities_payload(entities).len() <= MAX_PAYLOAD,
    ensures
        fits(Value::Vec(entity_values(entities))),
        encoding(Value::Vec(entity_values(entities))) == record(
            FieldType::Vec,
            entities_payload(entities),
        ),
        reads_back(Value::Vec(entity_values(entities))),
{
    let items = entity_values(entities);
    lemma_list_payload(items);
    assert(encodings(items) =~= entities.map_values(
        |e: EntityModel| record(FieldType::Entity, entity_payload(e)),
    ));
    assert forall|i: int| 0 <= i < items.len() implies reads_back(#[trigger] items[i]) by {
        lemma_item_fits(items, i);
        lemma_entity_reads_back(entities[i]);
    }
    lemma_vec_reads_back(items);
}

/// A sequence of actions that can be written, each spelled in the one way, is read back.
pub proof fn lemma_actions_read_back(actions: Seq<ActionModel>)
    requires
        actions_payload(actions).len() <= MAX_PAYLOAD,
        forall|i: int| 0 <= i < actions.len() ==> canonical_action(#[trigger] actions[i]),
    ensures
        fits(Value::Vec(action_values(actions))),
        encoding(Value::Vec(action_values(actions))) == record(
            FieldType::Vec,
            actions_payload(actions),
        ),
        reads_back(Value::Vec(action_values(actions))),
{
    let items = action_values(actions);
    lemma_list_payload(items);
    assert(encodings(items) =~= actions.map_values(
        |a: ActionModel| record(FieldType::Action, action_payload(a)),
    ));
    assert forall|i: int| 0 <= i < items.len() implies reads_back(#[trigger] items[i]) by {
        lemma_item_fits(items, i);
        lemma_action_reads_back(actions[i]);
    }
    lemma_vec_reads_back(items);
}

/// The fields of a session are read back as the session, and what follows them is left.
pub proof fn lemma_session_fields(s: SessionModel, rest: Seq<u8>)
    requires
        fits(Value::Session(s)),
        canonical(Value::Session(s)),
    ensures
        decode_session(session_payload(s) + rest) == Ok::<SessionModel, Error>(s),
        session_remainder(session_payload(s) + rest) == rest,
{
    let party = Value::Vec(entity_values(s.party));
    let opponents = Value::Vec(entity_values(s.opponents));
    let actions = Value::Vec(action_values(s.actions));
    lemma_entities_read_back(s.party);
    lemma_entities_read_back(s.opponents);
    lemma_actions_read_back(s.actions);
    let third = encoding(actions) + rest;
    let second = encoding(opponents) + third;
    assert(session_payload(s) + rest == encoding(party) + second) by {
        lemma_assoc(encoding(party) + encoding(opponents), encoding(actions), rest);
        lemma_assoc(encoding(party), encoding(opponents), third);
    }
    lemma_read_one(party, second);
    lemma_read_one(opponents, third);
    lemma_read_one(actions, rest);
    assert(entity_values(s.party).map_values(|v: Value| v->Entity_0) =~= s.party);
    assert(entity_values(s.opponents).map_values(|v: Value| v->Entity_0) =~= s.opponents);
    assert(action_values(s.actions).map_values(|v: Value| v->Action_0) =~= s.actions);
}

/// A session that can be written, with actions spelled in the one way, is read back.
pub proof fn lemma_session_reads_back(s: SessionModel)
    requires
        fits(Value::Session(s)),
        canonical(Value::Session(s)),
    ensures
        reads_back(Value::Session(s)),
{
    lemma_session_fields(s, Seq::empty());
    lemma_right_unit(session_payload(s));
    lemma_reads_back_from_payload(Value::Session(s));
}

/// Reading gives back what was written: the record of any value that can be written, with its
/// actions spelled in the one way, is read back as that value, whatever follows the record.
pub proof fn lemma_round_trip(v: Value)
    requires
        fits(v),
        canonical(v),
    ensures
        reads_back(v),
    decreases v,
{
    match v {
        Value::Str(text) => lemma_text_reads_back(text),
        Value::Byte(b) => lemma_byte_reads_back(b),
        Value::Bool(b) => lemma_bool_reads_back(b),
        Value::I128(x) => lemma_i128_reads_back(x),
        Value::Action(a) => lemma_action_reads_back(a),
        Value::ActionKind(kind) => lemma_kind_reads_back(kind),
        Value::Entity(e) => lemma_entity_reads_back(e),
        Value::Session(s) => lemma_session_reads_back(s),
        Value::Vec(items) => {
            assert forall|i: int| 0 <= i < items.len() implies reads_back(#[trigger] items[i]) by {
                lemma_item_fits(items, i);
                lemma_round_trip(items[i]);
            }
            lemma_vec_reads_back(items);
        },
    }
}

/// Reading what was written for an entity gives the entity back, and leaves what came after
/// it.
pub proof fn round_trip_entity(entity: Entity, rest: Seq<u8>)
    requires
        fits(entity.value()),
    ensures
        checked::<Entity>(decode(encoding(entity.value()))) == Ok::<Value, Error>(entity.value()),
        checked::<Entity>(decode(encoding(entity.value()) + rest)) == Ok::<Value, Error>(
            entity.value(),
        ),
        remainder(encoding(entity.value()) + rest) == rest,
{
    let v = entity.value();
    lemma_entity_reads_back(entity@);
    lemma_read_one(v, rest);
    lemma_read_one(v, Seq::empty());
    lemma_right_unit(encoding(v));
}

/// Reading what was written for an action gives the action back, and leaves what came after
/// it. An action with an empty target is left out: it is written as an action without a
/// target, and read back as one.
pub proof fn round_trip_action(action: Action, rest: Seq<u8>)
    requires
        fits(action.value()),
        canonical_action(action@),
    ensures
        checked::<Action>(decode(encoding(action.value()))) == Ok::<Value, Error>(action.value()),
        checked::<Action>(decode(encoding(action.value()) + rest)) == Ok::<Value, Error>(
            action.value(),
        ),
        remainder(encoding(action.value()) + rest) == rest,
{
    let v = action.value();
    lemma_action_reads_back(action@);
    lemma_read_one(v, rest);
    lemma_read_one(v, Seq::empty());
    lemma_right_unit(encoding(v));
}

/// Reading what was written for a session gives the session back, its three sequences in
/// order, and leaves what came after it. Sessions that hold an action with an empty target are
/// left out.
pub proof fn round_trip_session(session: Session, rest: Seq<u8>)
    requires
        fits(session.value()),
        canonical(session.value()),
    ensures
        checked::<Session>(decode(encoding(session.value()))) == Ok::<Value, Error>(
            session.value(),
        ),
        checked::<Session>(decode(encoding(session.value()) + rest)) == Ok::<Value, Error>(
            session.value(),
        ),
        remainder(encoding(session.value()) + rest) == rest,
{
    let v = session.value();
    lemma_session_reads_back(session@);
    lemma_read_one(v, rest);
    lemma_read_one(v, Seq::empty());
    lemma_right_unit(encoding(v));
}

/// Bytes that start with a byte which is no tag are refused with `InvalidFieldType`, and no
/// byte after the first is read.
pub proof fn unknown_tag_is_refused(bytes: Seq<u8>)
    requires
        bytes.len() > 0,
        FieldType::spec_from_tag(bytes[0]) is None,
    ensures
        decode(bytes) == Err::<Value, Error>(Error::InvalidFieldType),
        remainder(bytes) == bytes.skip(1),
{
    reveal(frame);
    reveal(remainder);
}

/// A record that declares more payload than there are bytes left is refused with
/// `TruncatedPayload`, and no byte after the header is read.
pub proof fn truncated_payload_is_refused(bytes: Seq<u8>)
    requires
        bytes.len() >= HEADER_LEN,
        FieldType::spec_from_tag(bytes[0]) is Some,
        declared_len(bytes) > bytes.len() - HEADER_LEN,
    ensures
        decode(bytes) == Err::<Value, Error>(Error::TruncatedPayload),
        remainder(bytes) == bytes.skip(HEADER_LEN as int),
{
    reveal(frame);
    reveal(remainder);
}

/// The empty sequence is written as a record without payload, and read back as the empty
/// sequence, of whatever type its items would be.
pub proof fn empty_sequence_round_trip<T: FromField>(rest: Seq<u8>)
    ensures
        fits(Value::Vec(Seq::empty())),
        encoding(Value::Vec(Seq::empty())) == seq![FieldType::Vec.spec_tag(), 0u8, 0u8],
        checked::<Vec<T>>(decode(encoding(Value::Vec(Seq::empty())) + rest)) == Ok::<Value, Error>(
            Value::Vec(Seq::empty()),
        ),
{
    let none = Seq::<Value>::empty();
    lemma_list_payload(none);
    assert(encodings(none) =~= Seq::<Seq<u8>>::empty());
    assert(encoding(Value::Vec(none)) =~= seq![FieldType::Vec.spec_tag(), 0u8, 0u8]);
    lemma_vec_reads_back(none);
    lemma_read_one(Value::Vec(none), rest);
}

/// A record is read from its own bytes alone: the header and as many bytes as it declares.
/// Whatever its payload holds, reading it passes over exactly these bytes, and what comes after
/// them changes nothing of the value read.
pub proof fn record_is_self_contained(bytes: Seq<u8>, extra: Seq<u8>)
    requires
        frame(bytes) is Ok,
    ensures
        remainder(bytes) == bytes.skip(HEADER_LEN + declared_len(bytes)),
        decode(bytes) == decode(bytes.take(HEADER_LEN + declared_len(bytes))),
        decode(bytes + extra) == decode(bytes),
        remainder(bytes + extra) == remainder(bytes) + extra,
{
    reveal(frame);
    reveal(remainder);
    let len = HEADER_LEN + declared_len(bytes);
    let exact = bytes.take(len);
    let more = bytes + extra;
    assert(exact.subrange(HEADER_LEN as int, len) =~= bytes.subrange(HEADER_LEN as int, len));
    assert(more.subrange(HEADER_LEN as int, len) =~= bytes.subrange(HEADER_LEN as int, len));
    assert(more.skip(len) =~= bytes.skip(len) + extra);
}

/// A payload that holds the record of one value is read as a sequence of exactly that value.
pub proof fn single_child_is_one_item(v: Value)
    requires
        fits(Value::Vec(seq![v])),
        canonical(v),
    ensures
        decode_items(encoding(v)) == Ok::<Seq<Value>, Error>(seq![v]),
        decode(encoding(Value::Vec(seq![v]))) == Ok::<Value, Error>(Value::Vec(seq![v])),
{
    let one = seq![v];
    lemma_item_fits(one, 0);
    lemma_round_trip(v);
    assert(encodings(one) =~= seq![encoding(v)]);
    lemma_concat_first(encodings(one));
    assert(encodings(one).skip(1) =~= Seq::<Seq<u8>>::empty());
    lemma_right_unit(encoding(v));
    lemma_items_read_back(one);
    lemma_vec_reads_back(one);
    lemma_read_one(Value::Vec(one), Seq::empty());
    lemma_right_unit(encoding(Value::Vec(one)));
}

} // verus!
