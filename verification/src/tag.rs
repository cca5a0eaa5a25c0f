use vstd::prelude::*;

verus! {

/// The shape of a wire record. Each shape has one tag byte, which never changes once data has
/// been written with it.
#[derive(Debug, PartialEq, Eq, Clone, Copy, Structural)]
pub enum FieldType {
    Str,
    I128,
    Byte,
    Bool,
    Action,
    ActionKind,
    Entity,
    Session,
    Vec,
}

impl FieldType {
    /// The tag byte of this shape.
    pub open spec fn spec_tag(self) -> u8 {
        match self {
            FieldType::Str => 1,
            FieldType::I128 => 2,
            FieldType::Byte => 3,
            FieldType::Bool => 4,
            FieldType::Action => 5,
            FieldType::ActionKind => 6,
            FieldType::Entity => 7,
            FieldType::Session => 8,
            FieldType::Vec => 9,
        }
    }

    /// The shape that a tag byte stands for, where it stands for one.
    pub open spec fn spec_from_tag(byte: u8) -> Option<FieldType> {
        if byte == 1 {
            Some(FieldType::Str)
        } else if byte == 2 {
            Some(FieldType::I128)
        } else if byte == 3 {
            Some(FieldType::Byte)
        } else if byte == 4 {
            Some(FieldType::Bool)
        } else if byte == 5 {
            Some(FieldType::Action)
        } else if byte == 6 {
            Some(FieldType::ActionKind)
        } else if byte == 7 {
            Some(FieldType::Entity)
        } else if byte == 8 {
            Some(FieldType::Session)
        } else if byte == 9 {
            Some(FieldType::Vec)
        } else {
            None
        }
    }

    /// The tag byte written for this shape.
    #[verifier::when_used_as_spec(spec_tag)]
    pub fn tag(self) -> (byte: u8)
        ensures
            byte == self.spec_tag(),
    {
        match self {
            FieldType::Str => 1,
            FieldType::I128 => 2,
            FieldType::Byte => 3,
            FieldType::Bool => 4,
            FieldType::Action => 5,
            FieldType::ActionKind => 6,
            FieldType::Entity => 7,
            FieldType::Session => 8,
            FieldType::Vec => 9,
        }
    }

    /// Looks a tag byte up. A byte that is no tag gives `None`: no byte is taken on trust.
    #[verifier::when_used_as_spec(spec_from_tag)]
    pub fn from_tag(byte: u8) -> (shape: Option<FieldType>)
        ensures
            shape == Self::spec_from_tag(byte),
    {
        match byte {
            1 => Some(FieldType::Str),
            2 => Some(FieldType::I128),
            3 => Some(FieldType::Byte),
            4 => Some(FieldType::Bool),
            5 => Some(FieldType::Action),
            6 => Some(FieldType::ActionKind),
            7 => Some(FieldType::Entity),
            8 => Some(FieldType::Session),
            9 => Some(FieldType::Vec),
            _ => None,
        }
    }

    /// A tag byte is at least 1, and looking it up gives the shape back.
    pub proof fn tag_is_stable(self)
        ensures
            self.spec_tag() >= 1,
            Self::spec_from_tag(self.spec_tag()) == Some(self),
    {
    }

    /// A byte that is looked up with success is the tag of the shape found.
    pub proof fn from_tag_is_exact(byte: u8)
        ensures
            Self::spec_from_tag(byte) matches Some(shape) ==> shape.spec_tag() == byte,
            Self::spec_from_tag(byte) is None <==> byte == 0 || byte > 9,
    {
    }
}

} // verus!
