use crate::actions::{ActionKind, ActionModel};
use crate::bytes::{be16_value, i128_value, I128_WIDTH};
use crate::entity::EntityModel;
use crate::error::Error;
use crate::session::SessionModel;
use crate::tag::FieldType;
use crate::wire::{Value, HEADER_LEN};
use vstd::prelude::*;
use vstd::utf8::{decode_utf8, valid_utf8};

verus! {

/// A record taken apart: its shape and its payload.
pub struct Frame {
    pub shape: FieldType,
    pub payload: Seq<u8>,
}

/// The length that the header at the start of `bytes` declares.
pub open spec fn declared_len(bytes: Seq<u8>) -> nat
    recommends
        bytes.len() >= HEADER_LEN,
{
    be16_value(bytes[1], bytes[2])
}

/// The first record of `bytes`, taken apart. The tag is read first, then the length; the
/// payload is cut out only where as many bytes as the length declares are there.
#[verifier::opaque]
pub open spec fn frame(bytes: Seq<u8>) -> Result<Frame, Error> {
    if bytes.len() == 0 {
        Err(Error::MissingFieldType)
    } else if FieldType::spec_from_tag(bytes[0]) is None {
        Err(Error::InvalidFieldType)
    } else if bytes.len() < HEADER_LEN {
        Err(Error::MissingFieldLen)
    } else if bytes.len() - HEADER_LEN < declared_len(bytes) {
        Err(Error::TruncatedPayload)
    } else {
        Ok(
            Frame {
                shape: FieldType::spec_from_tag(bytes[0])->0,
                payload: bytes.subrange(HEADER_LEN as int, HEADER_LEN + declared_len(bytes)),
            },
        )
    }
}

/// What is left of `bytes` once its first record was read, or once reading it has failed: a
/// tag that was read stays read, a length too, and a payload is passed over as a whole or not
/// at all.
#[verifier::opaque]
pub open spec fn remainder(bytes: Seq<u8>) -> Seq<u8> {
    if bytes.len() == 0 {
        bytes
    } else if FieldType::spec_from_tag(bytes[0]) is None || bytes.len() < HEADER_LEN {
        bytes.skip(1)
    } else if bytes.len() - HEADER_LEN < declared_len(bytes) {
        bytes.skip(HEADER_LEN as int)
    } else {
        bytes.skip(HEADER_LEN + declared_len(bytes))
    }
}

/// A record is longer than its payload by the header, and reading a record never makes the
/// input longer.
pub proof fn lemma_frame_bounds(bytes: Seq<u8>)
    ensures
        remainder(bytes).len() <= bytes.len(),
        frame(bytes) matches Ok(f) ==> {
            &&& bytes.len() >= HEADER_LEN
            &&& FieldType::spec_from_tag(bytes[0]) == Some(f.shape)
            &&& f.payload == bytes.subrange(HEADER_LEN as int, HEADER_LEN + declared_len(bytes))
            &&& f.payload.len() + HEADER_LEN <= bytes.len()
            &&& remainder(bytes) == bytes.skip(HEADER_LEN + f.payload.len())
        },
{
    reveal(frame);
    reveal(remainder);
}

/// The value of the first record of `bytes`.
pub open spec fn decode(bytes: Seq<u8>) -> Result<Value, Error>
    decreases bytes.len(), 0nat,
{
    match frame(bytes) {
        Err(e) => Err(e),
        Ok(f) => {
            proof {
                lemma_frame_bounds(bytes);
            }
            decode_payload(f.shape, f.payload)
        },
    }
}

/// The value that a payload stands for in a record of the given shape. A composite is read
/// from its own payload alone.
pub open spec fn decode_payload(shape: FieldType, payload: Seq<u8>) -> Result<Value, Error>
    decreases payload.len(), 5nat,
{
    match shape {
        FieldType::Str => if valid_utf8(payload) {
            Ok(Value::Str(decode_utf8(payload)))
        } else {
            Err(Error::Utf8)
        },
        FieldType::I128 => if payload.len() < I128_WIDTH {
            Err(Error::TruncatedPayload)
        } else {
            Ok(Value::I128(i128_value(payload.take(I128_WIDTH as int))))
        },
        FieldType::Byte => if payload.len() < 1 {
            Err(Error::TruncatedPayload)
        } else {
            Ok(Value::Byte(payload[0]))
        },
        FieldType::Bool => if payload.len() < 1 {
            Err(Error::TruncatedPayload)
        } else {
            Ok(Value::Bool(payload[0] == 1))
        },
        FieldType::ActionKind => if payload.len() < 1 {
            Err(Error::TruncatedPayload)
        } else {
            match ActionKind::spec_from_byte(payload[0]) {
                Some(kind) => Ok(Value::ActionKind(kind)),
                None => Err(Error::InvalidFieldType),
            }
        },
        FieldType::Action => match decode_action(payload) {
            Ok(a) => Ok(Value::Action(a)),
            Err(e) => Err(e),
        },
        FieldType::Entity => match decode_entity(payload) {
            Ok(e) => Ok(Value::Entity(e)),
            Err(e) => Err(e),
        },
        FieldType::Session => match decode_session(payload) {
            Ok(s) => Ok(Value::Session(s)),
            Err(e) => Err(e),
        },
        FieldType::Vec => match decode_items(payload) {
            Ok(items) => Ok(Value::Vec(items)),
            Err(e) => Err(e),
        },
    }
}

/// The values of all the records of `bytes`, in order. There is no count: the records go on
/// until no byte is left, and one that cannot be read fails the whole.
pub open spec fn decode_items(bytes: Seq<u8>) -> Result<Seq<Value>, Error>
    decreases bytes.len(), 4nat,
{
    if bytes.len() == 0 {
        Ok(Seq::empty())
    } else {
        match frame(bytes) {
            Err(e) => Err(e),
            Ok(_) => match decode(bytes) {
                Err(e) => Err(e),
                Ok(first) => {
                    proof {
                        lemma_frame_bounds(bytes);
                    }
                    match decode_items(remainder(bytes)) {
                        Err(e) => Err(e),
                        Ok(others) => Ok(seq![first] + others),
                    }
                },
            },
        }
    }
}

/// The text of the first record of `bytes`, which must be a text.
pub open spec fn decode_text(bytes: Seq<u8>) -> Result<Seq<char>, Error>
    decreases bytes.len(), 1nat,
{
    match decode(bytes) {
        Ok(Value::Str(text)) => Ok(text),
        Ok(_) => Err(Error::InvalidFieldType),
        Err(e) => Err(e),
    }
}

/// The integer of the first record of `bytes`, which must be an integer.
pub open spec fn decode_i128(bytes: Seq<u8>) -> Result<i128, Error>
    decreases bytes.len(), 1nat,
{
    match decode(bytes) {
        Ok(Value::I128(x)) => Ok(x),
        Ok(_) => Err(Error::InvalidFieldType),
        Err(e) => Err(e),
    }
}

/// The byte of the first record of `bytes`, which must be a byte.
pub open spec fn decode_byte(bytes: Seq<u8>) -> Result<u8, Error>
    decreases bytes.len(), 1nat,
{
    match decode(bytes) {
        Ok(Value::Byte(b)) => Ok(b),
        Ok(_) => Err(Error::InvalidFieldType),
        Err(e) => Err(e),
    }
}

/// The boolean of the first record of `bytes`, which must be a boolean.
pub open spec fn decode_bool(bytes: Seq<u8>) -> Result<bool, Error>
    decreases bytes.len(), 1nat,
{
    match decode(bytes) {
        Ok(Value::Bool(b)) => Ok(b),
        Ok(_) => Err(Error::InvalidFieldType),
        Err(e) => Err(e),
    }
}

/// The kind of the first record of `bytes`, which must be the kind of an action.
pub open spec fn decode_kind(bytes: Seq<u8>) -> Result<ActionKind, Error>
    decreases bytes.len(), 1nat,
{
    match decode(bytes) {
        Ok(Value::ActionKind(kind)) => Ok(kind),
        Ok(_) => Err(Error::InvalidFieldType),
        Err(e) => Err(e),
    }
}

/// Whether every item is an entity.
pub open spec fn all_entities(items: Seq<Value>) -> bool {
    forall|i: int| 0 <= i < items.len() ==> items[i] is Entity
}

/// Whether every item is an action.
pub open spec fn all_actions(items: Seq<Value>) -> bool {
    forall|i: int| 0 <= i < items.len() ==> items[i] is Action
}

/// The entities of the first record of `bytes`, which must be a sequence of entities.
pub open spec fn decode_entities(bytes: Seq<u8>) -> Result<Seq<EntityModel>, Error>
    decreases bytes.len(), 1nat,
{
    match decode(bytes) {
        Ok(Value::Vec(items)) => if all_entities(items) {
            Ok(items.map_values(|v: Value| v->Entity_0))
        } else {
            Err(Error::InvalidFieldType)
        },
        Ok(_) => Err(Error::InvalidFieldType),
        Err(e) => Err(e),
    }
}

/// The actions of the first record of `bytes`, which must be a sequence of actions.
pub open spec fn decode_actions(bytes: Seq<u8>) -> Result<Seq<ActionModel>, Error>
    decreases bytes.len(), 1nat,
{
    match decode(bytes) {
        Ok(Value::Vec(items)) => if all_actions(items) {
            Ok(items.map_values(|v: Value| v->Action_0))
        } else {
            Err(Error::InvalidFieldType)
        },
        Ok(_) => Err(Error::InvalidFieldType),
        Err(e) => Err(e),
    }
}

/// The target that a text stands for: none where the text is empty.
pub open spec fn target_of(text: Seq<char>) -> Option<Seq<char>> {
    if text.len() == 0 {
        None
    } else {
        Some(text)
    }
}

/// The entity whose fields are the first three records of `bytes`: name, health, flag.
pub open spec fn decode_entity(bytes: Seq<u8>) -> Result<EntityModel, Error>
    decreases bytes.len(), 4nat,
{
    let second = remainder(bytes);
    let third = remainder(second);
    proof {
        lemma_frame_bounds(bytes);
        lemma_frame_bounds(second);
    }
    match decode_text(bytes) {
        Err(e) => Err(e),
        Ok(name) => match decode_byte(second) {
            Err(e) => Err(e),
            Ok(health) => match decode_bool(third) {
                Err(e) => Err(e),
                Ok(flag) => Ok(EntityModel { name, health, flag }),
            },
        },
    }
}

/// Where a reader stands once it has read an entity from `bytes`, or failed to.
pub open spec fn entity_remainder(bytes: Seq<u8>) -> Seq<u8> {
    let second = remainder(bytes);
    let third = remainder(second);
    if decode_text(bytes) is Err {
        second
    } else if decode_byte(second) is Err {
        third
    } else {
        remainder(third)
    }
}

/// The action whose fields are the first four records of `bytes`: start, entity, kind,
/// target.
pub open spec fn decode_action(bytes: Seq<u8>) -> Result<ActionModel, Error>
    decreases bytes.len(), 4nat,
{
    let second = remainder(bytes);
    let third = remainder(second);
    let fourth = remainder(third);
    proof {
        lemma_frame_bounds(bytes);
        lemma_frame_bounds(second);
        lemma_frame_bounds(third);
    }
    match decode_i128(bytes) {
        Err(e) => Err(e),
        Ok(start) => match decode_text(second) {
            Err(e) => Err(e),
            Ok(entity) => match decode_kind(third) {
                Err(e) => Err(e),
                Ok(kind) => match decode_text(fourth) {
                    Err(e) => Err(e),
                    Ok(target) => Ok(
                        ActionModel { start, entity, kind, target: target_of(target) },
                    ),
                },
            },
        },
    }
}

/// Where a reader stands once it has read an action from `bytes`, or failed to.
pub open spec fn action_remainder(bytes: Seq<u8>) -> Seq<u8> {
    let second = remainder(bytes);
    let third = remainder(second);
    let fourth = remainder(third);
    if decode_i128(bytes) is Err {
        second
    } else if decode_text(second) is Err {
        third
    } else if decode_kind(third) is Err {
        fourth
    } else {
        remainder(fourth)
    }
}

/// The session whose fields are the first three records of `bytes`: party, opponents,
/// actions.
pub open spec fn decode_session(bytes: Seq<u8>) -> Result<SessionModel, Error>
    decreases bytes.len(), 4nat,
{
    let second = remainder(bytes);
    let third = remainder(second);
    proof {
        lemma_frame_bounds(bytes);
        lemma_frame_bounds(second);
    }
    match decode_entities(bytes) {
        Err(e) => Err(e),
        Ok(party) => match decode_entities(second) {
            Err(e) => Err(e),
            Ok(opponents) => match decode_actions(third) {
                Err(e) => Err(e),
                Ok(actions) => Ok(SessionModel { party, opponents, actions }),
            },
        },
    }
}

/// Where a reader stands once it has read a session from `bytes`, or failed to.
pub open spec fn session_remainder(bytes: Seq<u8>) -> Seq<u8> {
    let second = remainder(bytes);
    let third = remainder(second);
    if decode_entities(bytes) is Err {
        second
    } else if decode_entities(second) is Err {
        third
    } else {
        remainder(third)
    }
}

/// Reading a record never makes the input longer, and a record that was read took at least
/// its header.
pub proof fn lemma_remainder_len(bytes: Seq<u8>)
    ensures
        remainder(bytes).len() <= bytes.len(),
        frame(bytes) is Ok ==> remainder(bytes).len() + HEADER_LEN <= bytes.len(),
        decode(bytes) is Ok ==> frame(bytes) is Ok,
{
    lemma_frame_bounds(bytes);
}

} // verus!
