use crate::clock::ClockReading;
use crate::entity::Entity;
use crate::error::Error;
use crate::grammar::{action_remainder, decode_action};
use crate::reader::{Deserialize, FieldReader};
use crate::serde::{AsValue, FieldType, Serialize, Serializer};
use crate::wire::{
    action_payload, encoding, lemma_open_starts_with, lemma_patched_header, target_text, Value,
};
use vstd::prelude::*;
use vstd::string::StringExecFns;

verus! {

/// What an action does.
#[derive(Debug, Eq, PartialEq, Clone, Copy, Structural)]
pub enum ActionKind {
    Fight,
    Love,
    Neutral,
    Spawn,
    Die,
    ElectroCute,
}

impl ActionKind {
    /// The byte that stands for this kind on the wire.
    pub open spec fn spec_byte(self) -> u8 {
        match self {
            ActionKind::Fight => 0,
            ActionKind::Love => 1,
            ActionKind::Neutral => 2,
            ActionKind::Spawn => 3,
            ActionKind::Die => 4,
            ActionKind::ElectroCute => 5,
        }
    }

    /// The kind that a byte stands for, where it stands for one.
    pub open spec fn spec_from_byte(byte: u8) -> Option<ActionKind> {
        if byte == 0 {
            Some(ActionKind::Fight)
        } else if byte == 1 {
            Some(ActionKind::Love)
        } else if byte == 2 {
            Some(ActionKind::Neutral)
        } else if byte == 3 {
            Some(ActionKind::Spawn)
        } else if byte == 4 {
            Some(ActionKind::Die)
        } else if byte == 5 {
            Some(ActionKind::ElectroCute)
        } else {
            None
        }
    }

    /// The byte written for this kind.
    #[verifier::when_used_as_spec(spec_byte)]
    pub fn byte(self) -> (byte: u8)
        ensures
            byte == self.spec_byte(),
    {
        match self {
            ActionKind::Fight => 0,
            ActionKind::Love => 1,
            ActionKind::Neutral => 2,
            ActionKind::Spawn => 3,
            ActionKind::Die => 4,
            ActionKind::ElectroCute => 5,
        }
    }

    /// Looks a byte up. A byte out of range gives `None`.
    #[verifier::when_used_as_spec(spec_from_byte)]
    pub fn from_byte(byte: u8) -> (kind: Option<ActionKind>)
        ensures
            kind == Self::spec_from_byte(byte),
    {
        match byte {
            0 => Some(ActionKind::Fight),
            1 => Some(ActionKind::Love),
            2 => Some(ActionKind::Neutral),
            3 => Some(ActionKind::Spawn),
            4 => Some(ActionKind::Die),
            5 => Some(ActionKind::ElectroCute),
            _ => None,
        }
    }

    /// Looking up the byte of a kind gives the kind back.
    pub proof fn byte_is_stable(self)
        ensures
            Self::spec_from_byte(self.spec_byte()) == Some(self),
    {
    }
}

/// Something that one entity did, perhaps to another.
#[derive(Debug, PartialEq, Eq)]
pub struct Action {
    /// Milliseconds since the epoch; negative for a clock reading before it.
    pub start: i128,
    /// The name of the entity that acts.
    pub entity: String,
    pub kind: ActionKind,
    /// The name of the entity acted upon, if there is one.
    pub target: Option<String>,
}

/// What an [`Action`] stands for.
pub struct ActionModel {
    pub start: i128,
    pub entity: Seq<char>,
    pub kind: ActionKind,
    pub target: Option<Seq<char>>,
}

impl View for Action {
    type V = ActionModel;

    open spec fn view(&self) -> ActionModel {
        ActionModel {
            start: self.start,
            entity: self.entity@,
            kind: self.kind,
            target: match self.target {
                Some(name) => Some(name@),
                None => None,
            },
        }
    }
}

impl Clone for Action {
    fn clone(&self) -> (copy: Action)
        ensures
            copy@ == self@,
    {
        Action {
            start: self.start,
            entity: self.entity.clone(),
            kind: self.kind,
            target: match &self.target {
                Some(name) => Some(name.clone()),
                None => None,
            },
        }
    }
}

/// The time at which an action starts now: the system clock, in milliseconds since the epoch.
fn start() -> i128 {
    ClockReading::now().timestamp()
}

impl Action {
    /// What `entity` does to `target` at the time `start`.
    pub fn interact_at(start: i128, kind: ActionKind, entity: &Entity, target: &Entity) -> (action:
        Action)
        ensures
            action@ == (ActionModel {
                start,
                entity: entity@.name,
                kind,
                target: Some(target@.name),
            }),
    {
        Action {
            start,
            kind,
            entity: entity.name.clone(),
            target: Some(target.name.clone()),
        }
    }

    /// What `entity` does to `target` now. The start is whatever the system clock reads.
    pub fn interact(kind: ActionKind, entity: &Entity, target: &Entity) -> (action: Result<
        Action,
        Error,
    >)
        ensures
            action matches Ok(a) && a@.entity == entity@.name && a@.kind == kind && a@.target
                == Some(target@.name),
    {
        Ok(Action::interact_at(start(), kind, entity, target))
    }

    /// Carries the action out on `entity` and gives the line that tells the user of it. Only
    /// fighting is known.
    pub fn exec(&mut self, entity: &mut Entity) -> (line: String)
        ensures
            *final(self) == *old(self),
            *final(entity) == *old(entity),
            line@ == if old(self).kind == ActionKind::Fight {
                "You're fighting "@ + old(entity)@.name
            } else {
                "Typed unknown action you have"@
            },
    {
        match self.kind {
            ActionKind::Fight => "You're fighting ".to_owned().concat(entity.name.as_str()),
            _ => "Typed unknown action you have".to_owned(),
        }
    }

    /// The entry of `entity` into the game at the time `start`.
    pub fn spawn_at(start: i128, entity: String) -> (action: Action)
        ensures
            action@ == (ActionModel {
                start,
                entity: entity@,
                kind: ActionKind::Spawn,
                target: None,
            }),
    {
        Action { start, entity, target: None, kind: ActionKind::Spawn }
    }

    /// The entry of `entity` into the game now. The start is whatever the system clock reads.
    pub fn spawn(entity: String) -> (action: Action)
        ensures
            action@.entity == entity@,
            action@.kind == ActionKind::Spawn,
            action@.target is None,
    {
        Action::spawn_at(start(), entity)
    }
}

impl AsValue for Action {
    open spec fn value(&self) -> Value {
        Value::Action(self@)
    }
}

impl Serialize for Action {
    /// Writes an action: a record whose payload holds the start, the acting entity, the kind
    /// and the target. An action without a target has the empty text in its place.
    fn serialize(&self, buf: &mut Serializer) -> (written: Result<usize, Error>) {
        let open = buf.unknown_size(FieldType::Action);
        let mut size: usize = buf.put_i128(self.start);
        match buf.put_text(self.entity.as_str()) {
            Ok(n) => {
                size += n;
            },
            Err(e) => {
                proof {
                    lemma_open_starts_with(
                        old(buf)@,
                        FieldType::Action,
                        encoding(Value::I128(self.start)),
                    );
                }
                return Err(e);
            },
        }
        size += buf.put_kind(self.kind);
        let target: &str = match &self.target {
            Some(name) => name.as_str(),
            None => "",
        };
        proof {
            reveal_strlit("");
            assert(target@ =~= target_text(self@.target));
        }
        match buf.put_text(target) {
            Ok(n) => {
                size += n;
            },
            Err(e) => {
                proof {
                    let written = encoding(Value::I128(self.start)) + encoding(
                        Value::Str(self.entity@),
                    ) + encoding(Value::ActionKind(self.kind));
                    lemma_open_starts_with(old(buf)@, FieldType::Action, written);
                    assert(buf@ =~= old(buf)@ + seq![FieldType::Action.spec_tag(), 0u8, 0u8]
                        + written);
                }
                return Err(e);
            },
        }
        proof {
            assert(buf@ =~= old(buf)@ + seq![FieldType::Action.spec_tag(), 0u8, 0u8]
                + action_payload(self@));
            lemma_patched_header(old(buf)@, FieldType::Action, action_payload(self@), buf@);
            lemma_open_starts_with(old(buf)@, FieldType::Action, action_payload(self@));
        }
        open.close(buf, size)
    }
}

impl Deserialize for Action {
    open spec fn expected() -> Option<FieldType> {
        Some(FieldType::Action)
    }

    open spec fn parse(bytes: Seq<u8>) -> Result<Value, Error> {
        match decode_action(bytes) {
            Ok(a) => Ok(Value::Action(a)),
            Err(e) => Err(e),
        }
    }

    open spec fn rest(bytes: Seq<u8>) -> Seq<u8> {
        action_remainder(bytes)
    }

    /// Reads the fields of an action, in order: start, entity, kind, target. An empty target
    /// text stands for no target.
    fn deserialize(reader: &mut FieldReader<'_>) -> (read: Result<Self, Error>)
        decreases old(reader)@.len(), 3nat,
    {
        match reader.ensure_type(FieldType::Action) {
            Ok(_) => {},
            Err(e) => {
                return Err(e);
            },
        }
        let start: i128 = match reader.read_field() {
            Ok(start) => start,
            Err(e) => {
                return Err(e);
            },
        };
        let entity: String = match reader.read_field() {
            Ok(entity) => entity,
            Err(e) => {
                return Err(e);
            },
        };
        let kind: ActionKind = match reader.read_field() {
            Ok(kind) => kind,
            Err(e) => {
                return Err(e);
            },
        };
        let target: String = match reader.read_field() {
            Ok(target) => target,
            Err(e) => {
                return Err(e);
            },
        };
        let target: Option<String> = if target.as_str().is_empty() {
            None
        } else {
            Some(target)
        };
        Ok(Action { start, entity, kind, target })
    }
}

} // verus!
