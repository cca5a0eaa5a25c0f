use crate::error::Error;
use crate::grammar::{decode_entity, entity_remainder};
use crate::reader::{Deserialize, FieldReader};
use crate::serde::{AsValue, FieldType, Serialize, Serializer};
use crate::wire::{entity_payload, lemma_open_starts_with, lemma_patched_header, Value};
use vstd::prelude::*;

verus! {

/// A participant of a session.
#[derive(Debug, PartialEq, Eq)]
pub struct Entity {
    pub name: String,
    pub health: u8,
    pub field_c: bool,
}

/// What an [`Entity`] stands for: its name as a sequence of characters, its health and its flag.
pub struct EntityModel {
    pub name: Seq<char>,
    pub health: u8,
    pub flag: bool,
}

impl View for Entity {
    type V = EntityModel;

    open spec fn view(&self) -> EntityModel {
        EntityModel { name: self.name@, health: self.health, flag: self.field_c }
    }
}

impl Clone for Entity {
    fn clone(&self) -> (copy: Entity)
        ensures
            copy@ == self@,
    {
        Entity { name: self.name.clone(), health: self.health, field_c: self.field_c }
    }
}

impl Entity {
    /// A fresh entity: five points of health, flag down.
    pub fn new(name: String) -> (entity: Entity)
        ensures
            entity@ == (EntityModel { name: name@, health: 5, flag: false }),
    {
        Entity { name, health: 5, field_c: false }
    }
}

impl AsValue for Entity {
    open spec fn value(&self) -> Value {
        Value::Entity(self@)
    }
}

impl Serialize for Entity {
    /// Writes an entity: a record whose payload holds the name, the health and the flag.
    fn serialize(&self, buf: &mut Serializer) -> (written: Result<usize, Error>) {
        let open = buf.unknown_size(FieldType::Entity);
        let mut size: usize = match buf.put_text(self.name.as_str()) {
            Ok(n) => n,
            Err(e) => {
                proof {
                    lemma_open_starts_with(old(buf)@, FieldType::Entity, Seq::empty());
                    assert(buf@ =~= old(buf)@ + seq![FieldType::Entity.spec_tag(), 0u8, 0u8]
                        + Seq::<u8>::empty());
                }
                return Err(e);
            },
        };
        size += buf.put_byte(self.health);
        size += buf.put_bool(self.field_c);
        proof {
            assert(buf@ =~= old(buf)@ + seq![FieldType::Entity.spec_tag(), 0u8, 0u8]
                + entity_payload(self@));
            lemma_patched_header(old(buf)@, FieldType::Entity, entity_payload(self@), buf@);
            lemma_open_starts_with(old(buf)@, FieldType::Entity, entity_payload(self@));
        }
        open.close(buf, size)
    }
}

impl Deserialize for Entity {
    open spec fn expected() -> Option<FieldType> {
        Some(FieldType::Entity)
    }

    open spec fn parse(bytes: Seq<u8>) -> Result<Value, Error> {
        match decode_entity(bytes) {
            Ok(e) => Ok(Value::Entity(e)),
            Err(e) => Err(e),
        }
    }

    open spec fn rest(bytes: Seq<u8>) -> Seq<u8> {
        entity_remainder(bytes)
    }

    /// Reads the fields of an entity, in order: name, health, flag.
    fn deserialize(reader: &mut FieldReader<'_>) -> (read: Result<Self, Error>)
        decreases old(reader)@.len(), 3nat,
    {
        match reader.ensure_type(FieldType::Entity) {
            Ok(_) => {},
            Err(e) => {
                return Err(e);
            },
        }
        let name: String = match reader.read_field() {
            Ok(name) => name,
            Err(e) => {
                return Err(e);
            },
        };
        let health: u8 = match reader.read_field() {
            Ok(health) => health,
            Err(e) => {
                return Err(e);
            },
        };
        let field_c: bool = match reader.read_field() {
            Ok(flag) => flag,
            Err(e) => {
                return Err(e);
            },
        };
        Ok(Entity { name, health, field_c })
    }
}

} // verus!
