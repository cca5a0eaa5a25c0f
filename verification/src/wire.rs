use crate::actions::{ActionKind, ActionModel};
use crate::bytes::{be16, i128_bytes};
use crate::entity::EntityModel;
use crate::session::SessionModel;
use crate::tag::FieldType;
use vstd::prelude::*;
use vstd::utf8::encode_utf8;

verus! {

/// The longest payload that the two-byte length of a record can declare.
pub const MAX_PAYLOAD: usize = 65535;

/// The bytes before the payload of a record: one for the tag, two for the length.
pub const HEADER_LEN: usize = 3;

/// Anything that a record can hold.
pub enum Value {
    Str(Seq<char>),
    Byte(u8),
    Bool(bool),
    I128(i128),
    Action(ActionModel),
    ActionKind(ActionKind),
    Entity(EntityModel),
    Session(SessionModel),
    Vec(Seq<Value>),
}

impl Value {
    /// The shape of the record that holds this value.
    pub open spec fn shape(self) -> FieldType {
        match self {
            Value::Str(_) => FieldType::Str,
            Value::Byte(_) => FieldType::Byte,
            Value::Bool(_) => FieldType::Bool,
            Value::I128(_) => FieldType::I128,
            Value::Action(_) => FieldType::Action,
            Value::ActionKind(_) => FieldType::ActionKind,
            Value::Entity(_) => FieldType::Entity,
            Value::Session(_) => FieldType::Session,
            Value::Vec(_) => FieldType::Vec,
        }
    }
}

/// All the parts, one after the other.
pub open spec fn concat(parts: Seq<Seq<u8>>) -> Seq<u8>
    decreases parts.len(),
{
    if parts.len() == 0 {
        Seq::empty()
    } else {
        concat(parts.drop_last()) + parts.last()
    }
}

/// A record: the tag, the length of the payload in two bytes, the payload.
pub open spec fn record(shape: FieldType, payload: Seq<u8>) -> Seq<u8> {
    seq![shape.spec_tag()] + be16(payload.len()) + payload
}

/// The byte that stands for a boolean.
pub open spec fn bool_byte(b: bool) -> u8 {
    if b {
        1
    } else {
        0
    }
}

/// The text written for the target of an action: empty where there is none.
pub open spec fn target_text(target: Option<Seq<char>>) -> Seq<char> {
    match target {
        Some(name) => name,
        None => Seq::empty(),
    }
}

/// The fields of an entity, in order: name, health, flag.
pub open spec fn entity_payload(e: EntityModel) -> Seq<u8> {
    record(FieldType::Str, encode_utf8(e.name)) + record(FieldType::Byte, seq![e.health]) + record(
        FieldType::Bool,
        seq![bool_byte(e.flag)],
    )
}

/// The fields of an action, in order: start, entity, kind, target.
pub open spec fn action_payload(a: ActionModel) -> Seq<u8> {
    record(FieldType::I128, i128_bytes(a.start)) + record(FieldType::Str, encode_utf8(a.entity))
        + record(FieldType::ActionKind, seq![a.kind.spec_byte()]) + record(
        FieldType::Str,
        encode_utf8(target_text(a.target)),
    )
}

/// The entities as values.
pub open spec fn entity_values(entities: Seq<EntityModel>) -> Seq<Value> {
    entities.map_values(|e: EntityModel| Value::Entity(e))
}

/// The actions as values.
pub open spec fn action_values(actions: Seq<ActionModel>) -> Seq<Value> {
    actions.map_values(|a: ActionModel| Value::Action(a))
}

/// The records of the entities, one after the other.
pub open spec fn entities_payload(entities: Seq<EntityModel>) -> Seq<u8> {
    concat(entities.map_values(|e: EntityModel| record(FieldType::Entity, entity_payload(e))))
}

/// The records of the actions, one after the other.
pub open spec fn actions_payload(actions: Seq<ActionModel>) -> Seq<u8> {
    concat(actions.map_values(|a: ActionModel| record(FieldType::Action, action_payload(a))))
}

/// The fields of a session, in order: party, opponents, actions, each a sequence.
pub open spec fn session_payload(s: SessionModel) -> Seq<u8> {
    record(FieldType::Vec, entities_payload(s.party)) + record(
        FieldType::Vec,
        entities_payload(s.opponents),
    ) + record(FieldType::Vec, actions_payload(s.actions))
}

/// The payload of the record that holds `v`.
pub open spec fn payload(v: Value) -> Seq<u8>
    decreases v,
{
    match v {
        Value::Str(text) => encode_utf8(text),
        Value::Byte(b) => seq![b],
        Value::Bool(b) => seq![bool_byte(b)],
        Value::I128(x) => i128_bytes(x),
        Value::Action(a) => action_payload(a),
        Value::ActionKind(kind) => seq![kind.spec_byte()],
        Value::Entity(e) => entity_payload(e),
        Value::Session(s) => session_payload(s),
        Value::Vec(items) => concat(item_records(items)),
    }
}

/// The records of the items of a sequence, each in its place.
pub open spec fn item_records(items: Seq<Value>) -> Seq<Seq<u8>>
    decreases items,
{
    Seq::new(
        items.len(),
        |i: int|
            if 0 <= i < items.len() {
                record(items[i].shape(), payload(items[i]))
            } else {
                Seq::empty()
            },
    )
}

/// The record that holds `v`.
pub open spec fn encoding(v: Value) -> Seq<u8> {
    record(v.shape(), payload(v))
}

/// The records of the values, each in its place.
pub open spec fn encodings(items: Seq<Value>) -> Seq<Seq<u8>> {
    items.map_values(|v: Value| encoding(v))
}

/// Whether `v` can be written: its payload is no longer than a length field can say. The
/// payloads of the records inside it are shorter still.
pub open spec fn fits(v: Value) -> bool {
    payload(v).len() <= MAX_PAYLOAD
}

/// Whether `whole` starts with `front`.
pub open spec fn starts_with(whole: Seq<u8>, front: Seq<u8>) -> bool {
    front.len() <= whole.len() && whole.take(front.len() as int) == front
}

/// What is appended to leaves what was there at the front.
pub proof fn lemma_starts_with_add(front: Seq<u8>, more: Seq<u8>)
    ensures
        starts_with(front + more, front),
{
    assert((front + more).take(front.len() as int) =~= front);
}

/// What starts with a sequence starts with each front of that sequence.
pub proof fn lemma_starts_with_trans(whole: Seq<u8>, middle: Seq<u8>, front: Seq<u8>)
    requires
        starts_with(whole, middle),
        starts_with(middle, front),
    ensures
        starts_with(whole, front),
{
    assert(whole.take(front.len() as int) =~= whole.take(middle.len() as int).take(
        front.len() as int,
    ));
}

/// A buffer in which a record was opened and children were written still starts with what
/// was there before.
pub proof fn lemma_open_starts_with(before: Seq<u8>, shape: FieldType, children: Seq<u8>)
    ensures
        starts_with(before + seq![shape.spec_tag(), 0u8, 0u8] + children, before),
{
    lemma_starts_with_add(before, seq![shape.spec_tag(), 0u8, 0u8] + children);
    assert(before + seq![shape.spec_tag(), 0u8, 0u8] + children =~= before + (seq![
        shape.spec_tag(),
        0u8,
        0u8,
    ] + children));
}

/// The payload of a sequence is the records of its items, one after the other.
pub proof fn lemma_list_payload(items: Seq<Value>)
    ensures
        payload(Value::Vec(items)) == concat(encodings(items)),
{
    assert(item_records(items) =~= encodings(items));
}

pub proof fn lemma_concat_push(parts: Seq<Seq<u8>>, part: Seq<u8>)
    ensures
        concat(parts.push(part)) == concat(parts) + part,
{
    assert(parts.push(part).drop_last() =~= parts);
}

pub proof fn lemma_concat_add(front: Seq<Seq<u8>>, back: Seq<Seq<u8>>)
    ensures
        concat(front + back) == concat(front) + concat(back),
    decreases back.len(),
{
    if back.len() == 0 {
        assert(front + back =~= front);
        assert(concat(front) + concat(back) =~= concat(front));
    } else {
        lemma_concat_add(front, back.drop_last());
        assert((front + back).drop_last() =~= front + back.drop_last());
        assert(concat(front) + (concat(back.drop_last()) + back.last()) =~= (concat(front) + concat(
            back.drop_last(),
        )) + back.last());
    }
}

/// Splitting off the first part.
pub proof fn lemma_concat_first(parts: Seq<Seq<u8>>)
    requires
        parts.len() > 0,
    ensures
        concat(parts) == parts[0] + concat(parts.skip(1)),
{
    lemma_concat_add(seq![parts[0]], parts.skip(1));
    assert(seq![parts[0]] + parts.skip(1) =~= parts);
    assert(seq![parts[0]].drop_last() =~= Seq::<Seq<u8>>::empty());
    assert(concat(Seq::<Seq<u8>>::empty()) =~= Seq::<u8>::empty());
    assert(concat(seq![parts[0]]) =~= parts[0]);
}

/// Each part is no longer than the whole.
pub proof fn lemma_concat_len(parts: Seq<Seq<u8>>, i: int)
    requires
        0 <= i < parts.len(),
    ensures
        parts[i].len() <= concat(parts).len(),
    decreases parts.len(),
{
    if i < parts.len() - 1 {
        lemma_concat_len(parts.drop_last(), i);
    }
}

/// The payload that `close` leaves behind: a header whose length was left open, patched once
/// the children are known, is the record of the children.
pub proof fn lemma_patched_header(
    before: Seq<u8>,
    shape: FieldType,
    children: Seq<u8>,
    buffer: Seq<u8>,
)
    requires
        buffer == before + seq![shape.spec_tag(), 0u8, 0u8] + children,
    ensures
        buffer.update(before.len() as int + 1, be16(children.len())[0]).update(
            before.len() as int + 2,
            be16(children.len())[1],
        ) == before + record(shape, children),
{
    assert(buffer.update(before.len() as int + 1, be16(children.len())[0]).update(
        before.len() as int + 2,
        be16(children.len())[1],
    ) =~= before + record(shape, children));
}

} // verus!
