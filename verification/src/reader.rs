use crate::actions::{Action, ActionKind};
use crate::bytes::{be16_value, i128_from_be_bytes, i128_value, I128_WIDTH};
use crate::entity::Entity;
use crate::error::Error;
use crate::grammar::{
    declared_len, decode, decode_items, decode_payload, frame, lemma_frame_bounds,
    lemma_remainder_len, remainder,
};
use crate::serde::{field_values, values_of, AsValue, Field};
use crate::session::Session;
use crate::tag::FieldType;
use crate::text::text_from_utf8;
use crate::wire::{Value, HEADER_LEN};
use vstd::prelude::*;

verus! {

/// A type whose values can be taken out of a [`Field`]. This is the one place where a decoded
/// value is held against the type that the caller expects.
pub trait FromField: AsValue + Sized {
    /// Whether a value is of this type.
    spec fn accepts(v: Value) -> bool;

    /// Takes the value out of `field`, or fails with `InvalidFieldType` where the field holds
    /// something else.
    fn from_field(field: Field) -> (taken: Result<Self, Error>)
        ensures
            match taken {
                Ok(x) => Self::accepts(field@) && x.value() == field@,
                Err(e) => !Self::accepts(field@) && e == Error::InvalidFieldType,
            },
    ;
}

/// A type whose values can be read from the payload of a record.
pub trait Deserialize: AsValue + Sized {
    /// The shape of the record that holds values of this type, where the type insists on it.
    spec fn expected() -> Option<FieldType>;

    /// The value that a payload stands for.
    spec fn parse(bytes: Seq<u8>) -> Result<Value, Error>;

    /// What is left of a payload once a value was read from it, or once reading has failed.
    spec fn rest(bytes: Seq<u8>) -> Seq<u8>;

    /// Reads a value from the reader, which stands at the start of a payload. A reader that is
    /// scoped to a record of another shape than the expected one is refused before anything is
    /// read.
    fn deserialize(reader: &mut FieldReader<'_>) -> (read: Result<Self, Error>)
        ensures
            final(reader).scope() == old(reader).scope(),
            if conflicts(old(reader).scope(), Self::expected()) {
                &&& read matches Err(e) && e == Error::InvalidFieldType
                &&& final(reader)@ == old(reader)@
            } else {
                &&& agrees(read, Self::parse(old(reader)@))
                &&& final(reader)@ == Self::rest(old(reader)@)
            },
    ;
}

/// Whether a reader scoped to `scope` must refuse to read a record expected to be `expected`.
pub open spec fn conflicts(scope: Option<FieldType>, expected: Option<FieldType>) -> bool {
    scope is Some && expected is Some && scope != expected
}

/// Whether what was read is what the grammar says: the same error, or a value that stands for
/// the same.
pub open spec fn agrees<T: AsValue>(read: Result<T, Error>, said: Result<Value, Error>) -> bool {
    match (read, said) {
        (Ok(x), Ok(v)) => x.value() == v,
        (Err(e), Err(f)) => e == f,
        _ => false,
    }
}

/// What is left of a decoded value once it is held against the type `T`.
pub open spec fn checked<T: FromField>(decoded: Result<Value, Error>) -> Result<Value, Error> {
    match decoded {
        Ok(v) => if T::accepts(v) {
            Ok(v)
        } else {
            Err(Error::InvalidFieldType)
        },
        Err(e) => Err(e),
    }
}

/// The values of all the records of `bytes`, each held against the type `T`.
pub open spec fn decode_list<T: FromField>(bytes: Seq<u8>) -> Result<Seq<Value>, Error>
    decreases bytes.len(),
{
    if bytes.len() == 0 {
        Ok(Seq::empty())
    } else {
        match frame(bytes) {
            Err(e) => Err(e),
            Ok(_) => match checked::<T>(decode(bytes)) {
                Err(e) => Err(e),
                Ok(first) => {
                    proof {
                        lemma_frame_bounds(bytes);
                    }
                    match decode_list::<T>(remainder(bytes)) {
                        Err(e) => Err(e),
                        Ok(others) => Ok(seq![first] + others),
                    }
                },
            },
        }
    }
}

/// Where a reader stands once it has read all the records of `bytes`, or failed at one.
pub open spec fn list_remainder<T: FromField>(bytes: Seq<u8>) -> Seq<u8>
    decreases bytes.len(),
{
    if bytes.len() == 0 {
        bytes
    } else if frame(bytes) is Err || checked::<T>(decode(bytes)) is Err {
        remainder(bytes)
    } else {
        proof {
            lemma_frame_bounds(bytes);
        }
        list_remainder::<T>(remainder(bytes))
    }
}

/// The values `front` before those of `back`, where there are any.
pub open spec fn prepend(front: Seq<Value>, back: Result<Seq<Value>, Error>) -> Result<
    Seq<Value>,
    Error,
> {
    match back {
        Ok(values) => Ok(front + values),
        Err(e) => Err(e),
    }
}

/// The value of the first record of `bytes`, held against the type `T`.
pub fn deserialize<T: FromField>(bytes: &[u8]) -> (read: Result<T, Error>)
    ensures
        agrees(read, checked::<T>(decode(bytes@))),
{
    let mut reader = FieldReader::new(bytes);
    reader.read_field()
}

/// A cursor over bytes that are never changed. Reading moves it forward.
pub struct FieldReader<'a> {
    buffer: &'a [u8],
    field_type: Option<FieldType>,
}

impl<'a> View for FieldReader<'a> {
    type V = Seq<u8>;

    /// The bytes not yet read.
    closed spec fn view(&self) -> Seq<u8> {
        self.buffer@
    }
}

impl<'a> FieldReader<'a> {
    /// The shape of the record in whose payload the reader stands, where it is known.
    pub closed spec fn scope(&self) -> Option<FieldType> {
        self.field_type
    }

    /// A reader at the start of `buffer`, with nothing known of what holds the bytes.
    pub fn new(buffer: &'a [u8]) -> (reader: Self)
        ensures
            reader@ == buffer@,
            reader.scope() is None,
    {
        FieldReader { buffer, field_type: None }
    }

    /// A reader over the payload of a record of the given shape. It can read these bytes and
    /// no others.
    pub fn scoped(buffer: &'a [u8], field_type: FieldType) -> (reader: Self)
        ensures
            reader@ == buffer@,
            reader.scope() == Some(field_type),
    {
        FieldReader { buffer, field_type: Some(field_type) }
    }

    /// Whether every byte was read.
    pub fn is_empty(&self) -> (empty: bool)
        ensures
            empty <==> self@.len() == 0,
    {
        self.buffer.len() == 0
    }

    /// Checks, before anything is read, that the reader does not stand in a record of another
    /// shape than `field_type`.
    pub fn ensure_type(&self, field_type: FieldType) -> (ensured: Result<(), Error>)
        ensures
            match ensured {
                Ok(_) => !conflicts(self.scope(), Some(field_type)),
                Err(e) => conflicts(self.scope(), Some(field_type)) && e == Error::InvalidFieldType,
            },
    {
        match self.field_type {
            Some(scope) => if scope == field_type {
                Ok(())
            } else {
                Err(Error::InvalidFieldType)
            },
            None => Ok(()),
        }
    }

    /// Reads a tag: one byte, which must be a known tag. The byte is passed over either way.
    pub fn field_type(&mut self) -> (shape: Result<FieldType, Error>)
        ensures
            final(self).scope() == old(self).scope(),
            old(self)@.len() == 0 ==> shape == Err::<FieldType, Error>(Error::MissingFieldType)
                && final(self)@ == old(self)@,
            old(self)@.len() > 0 ==> final(self)@ == old(self)@.skip(1) && match shape {
                Ok(t) => FieldType::spec_from_tag(old(self)@[0]) == Some(t),
                Err(e) => FieldType::spec_from_tag(old(self)@[0]) is None && e
                    == Error::InvalidFieldType,
            },
    {
        if self.buffer.len() == 0 {
            return Err(Error::MissingFieldType);
        }
        let buffer: &[u8] = self.buffer;
        let byte: u8 = buffer[0];
        self.buffer = &buffer[1..buffer.len()];
        match FieldType::from_tag(byte) {
            Some(shape) => Ok(shape),
            None => Err(Error::InvalidFieldType),
        }
    }

    /// Reads a length: two bytes, most significant first. Where fewer than two are left,
    /// nothing is read.
    pub fn len(&mut self) -> (len: Result<usize, Error>)
        ensures
            final(self).scope() == old(self).scope(),
            old(self)@.len() < 2 ==> len == Err::<usize, Error>(Error::MissingFieldLen)
                && final(self)@ == old(self)@,
            old(self)@.len() >= 2 ==> final(self)@ == old(self)@.skip(2) && len is Ok
                && len->Ok_0 == be16_value(old(self)@[0], old(self)@[1]),
    {
        if self.buffer.len() < 2 {
            return Err(Error::MissingFieldLen);
        }
        let buffer: &[u8] = self.buffer;
        let high: usize = buffer[0] as usize;
        let low: usize = buffer[1] as usize;
        self.buffer = &buffer[2..buffer.len()];
        Ok(high * 256 + low)
    }

    /// Reads the header of a record and cuts its payload out. The length is held against
    /// the bytes that are left before anything is cut.
    fn read_frame(&mut self) -> (read: Result<(FieldType, &'a [u8]), Error>)
        ensures
            final(self).scope() == old(self).scope(),
            final(self)@ == remainder(old(self)@),
            match (read, frame(old(self)@)) {
                (Ok((shape, payload)), Ok(f)) => shape == f.shape && payload@ == f.payload,
                (Err(e), Err(f)) => e == f,
                _ => false,
            },
    {
        proof {
            reveal(frame);
            reveal(remainder);
        }
        let shape: FieldType = match self.field_type() {
            Ok(shape) => shape,
            Err(e) => {
                return Err(e);
            },
        };
        let len: usize = match self.len() {
            Ok(len) => len,
            Err(e) => {
                return Err(e);
            },
        };
        let buffer: &[u8] = self.buffer;
        if buffer.len() < len {
            return Err(Error::TruncatedPayload);
        }
        let bytes: &[u8] = &buffer[0..len];
        self.buffer = &buffer[len..buffer.len()];
        proof {
            let all = old(self)@;
            assert(all.skip(1).skip(2) =~= all.skip(3));
            assert(bytes@ =~= all.subrange(HEADER_LEN as int, HEADER_LEN + declared_len(all)));
            assert(self.buffer@ =~= all.skip(HEADER_LEN + declared_len(all)));
        }
        Ok((shape, bytes))
    }

    /// The value that `bytes` stand for as the payload of a record of the given shape. A
    /// composite is read by a reader of its own, which sees the payload and nothing after it.
    fn read_payload(shape: FieldType, bytes: &[u8]) -> (read: Result<Field, Error>)
        ensures
            agrees(read, decode_payload(shape, bytes@)),
        decreases bytes@.len(), 5nat,
    {
        match shape {
            FieldType::Str => match text_from_utf8(bytes) {
                Ok(text) => Ok(Field::Str(text)),
                Err(e) => Err(e),
            },
            FieldType::Bool => if bytes.len() < 1 {
                Err(Error::TruncatedPayload)
            } else {
                Ok(Field::Bool(bytes[0] == 1))
            },
            FieldType::Byte => if bytes.len() < 1 {
                Err(Error::TruncatedPayload)
            } else {
                Ok(Field::Byte(bytes[0]))
            },
            FieldType::Action => {
                let mut child = FieldReader::scoped(bytes, FieldType::Action);
                match Action::deserialize(&mut child) {
                    Ok(action) => Ok(Field::Action(action)),
                    Err(e) => Err(e),
                }
            },
            FieldType::Entity => {
                let mut child = FieldReader::scoped(bytes, FieldType::Entity);
                match Entity::deserialize(&mut child) {
                    Ok(entity) => Ok(Field::Entity(entity)),
                    Err(e) => Err(e),
                }
            },
            FieldType::Session => {
                let mut child = FieldReader::scoped(bytes, FieldType::Session);
                match Session::deserialize(&mut child) {
                    Ok(session) => Ok(Field::Session(session)),
                    Err(e) => Err(e),
                }
            },
            FieldType::I128 => if bytes.len() < I128_WIDTH {
                Err(Error::TruncatedPayload)
            } else {
                Ok(Field::I128(Self::read_be_i128(bytes)))
            },
            FieldType::ActionKind => if bytes.len() < 1 {
                Err(Error::TruncatedPayload)
            } else {
                match ActionKind::from_byte(bytes[0]) {
                    Some(kind) => Ok(Field::ActionKind(kind)),
                    None => Err(Error::InvalidFieldType),
                }
            },
            FieldType::Vec => {
                let mut child = FieldReader::scoped(bytes, FieldType::Vec);
                match child.read_items() {
                    Ok(items) => Ok(Field::Vec(items)),
                    Err(e) => Err(e),
                }
            },
        }
    }

    /// Reads one record and gives its value.
    fn read_value(&mut self) -> (read: Result<Field, Error>)
        ensures
            final(self).scope() == old(self).scope(),
            final(self)@ == remainder(old(self)@),
            final(self)@.len() <= old(self)@.len(),
            agrees(read, decode(old(self)@)),
        decreases old(self)@.len(), 0nat,
    {
        proof {
            lemma_frame_bounds(old(self)@);
        }
        match self.read_frame() {
            Ok((shape, bytes)) => Self::read_payload(shape, bytes),
            Err(e) => Err(e),
        }
    }

    /// Reads records until no byte is left.
    fn read_items(&mut self) -> (read: Result<Vec<Field>, Error>)
        ensures
            final(self).scope() == old(self).scope(),
            match (read, decode_items(old(self)@)) {
                (Ok(items), Ok(values)) => field_values(items@) == values,
                (Err(e), Err(f)) => e == f,
                _ => false,
            },
        decreases old(self)@.len(), 4nat,
    {
        let mut items: Vec<Field> = Vec::new();
        while self.buffer.len() > 0
            invariant
                self.scope() == old(self).scope(),
                self@.len() <= old(self)@.len(),
                prepend(field_values(items@), decode_items(self@)) == decode_items(old(self)@),
            decreases self@.len(),
        {
            let ghost before = self@;
            let ghost values = field_values(items@);
            proof {
                lemma_remainder_len(before);
            }
            match self.read_value() {
                Ok(item) => {
                    items.push(item);
                    proof {
                        assert(field_values(items@) =~= values.push(item@));
                        match decode_items(self@) {
                            Ok(others) => {
                                assert(values + (seq![item@] + others) =~= values.push(item@)
                                    + others);
                            },
                            Err(_) => {},
                        }
                    }
                },
                Err(e) => {
                    return Err(e);
                },
            }
        }
        proof {
            assert(field_values(items@) + Seq::<Value>::empty() =~= field_values(items@));
        }
        Ok(items)
    }

    /// Reads one record and takes from it a value of the type `T`. What was decoded is held
    /// against `T` last of all: a value of another type fails with `InvalidFieldType`.
    pub fn read_field<T: FromField>(&mut self) -> (read: Result<T, Error>)
        ensures
            final(self).scope() == old(self).scope(),
            final(self)@ == remainder(old(self)@),
            final(self)@.len() <= old(self)@.len(),
            agrees(read, checked::<T>(decode(old(self)@))),
        decreases old(self)@.len(), 2nat,
    {
        match self.read_value() {
            Ok(field) => T::from_field(field),
            Err(e) => Err(e),
        }
    }

    /// The `i128` that the first sixteen bytes of `input` stand for, most significant first.
    pub fn read_be_i128(input: &[u8]) -> (x: i128)
        requires
            input@.len() >= I128_WIDTH,
        ensures
            x == i128_value(input@.take(I128_WIDTH as int)),
    {
        i128_from_be_bytes(input)
    }
}

impl AsValue for i128 {
    open spec fn value(&self) -> Value {
        Value::I128(*self)
    }
}

impl AsValue for u8 {
    open spec fn value(&self) -> Value {
        Value::Byte(*self)
    }
}

impl AsValue for bool {
    open spec fn value(&self) -> Value {
        Value::Bool(*self)
    }
}

impl AsValue for String {
    open spec fn value(&self) -> Value {
        Value::Str(self@)
    }
}

impl AsValue for ActionKind {
    open spec fn value(&self) -> Value {
        Value::ActionKind(*self)
    }
}

impl FromField for i128 {
    open spec fn accepts(v: Value) -> bool {
        v is I128
    }

    fn from_field(field: Field) -> (taken: Result<Self, Error>) {
        match field {
            Field::I128(x) => Ok(x),
            _ => Err(Error::InvalidFieldType),
        }
    }
}

impl FromField for u8 {
    open spec fn accepts(v: Value) -> bool {
        v is Byte
    }

    fn from_field(field: Field) -> (taken: Result<Self, Error>) {
        match field {
            Field::Byte(b) => Ok(b),
            _ => Err(Error::InvalidFieldType),
        }
    }
}

impl FromField for bool {
    open spec fn accepts(v: Value) -> bool {
        v is Bool
    }

    fn from_field(field: Field) -> (taken: Result<Self, Error>) {
        match field {
            Field::Bool(b) => Ok(b),
            _ => Err(Error::InvalidFieldType),
        }
    }
}

impl FromField for String {
    open spec fn accepts(v: Value) -> bool {
        v is Str
    }

    fn from_field(field: Field) -> (taken: Result<Self, Error>) {
        match field {
            Field::Str(text) => Ok(text),
            _ => Err(Error::InvalidFieldType),
        }
    }
}

impl FromField for ActionKind {
    open spec fn accepts(v: Value) -> bool {
        v is ActionKind
    }

    fn from_field(field: Field) -> (taken: Result<Self, Error>) {
        match field {
            Field::ActionKind(kind) => Ok(kind),
            _ => Err(Error::InvalidFieldType),
        }
    }
}

impl FromField for Action {
    open spec fn accepts(v: Value) -> bool {
        v is Action
    }

    fn from_field(field: Field) -> (taken: Result<Self, Error>) {
        match field {
            Field::Action(action) => Ok(action),
            _ => Err(Error::InvalidFieldType),
        }
    }
}

impl FromField for Entity {
    open spec fn accepts(v: Value) -> bool {
        v is Entity
    }

    fn from_field(field: Field) -> (taken: Result<Self, Error>) {
        match field {
            Field::Entity(entity) => Ok(entity),
            _ => Err(Error::InvalidFieldType),
        }
    }
}

impl FromField for Session {
    open spec fn accepts(v: Value) -> bool {
        v is Session
    }

    fn from_field(field: Field) -> (taken: Result<Self, Error>) {
        match field {
            Field::Session(session) => Ok(session),
            _ => Err(Error::InvalidFieldType),
        }
    }
}

impl FromField for Field {
    /// A field is taken as it is.
    open spec fn accepts(v: Value) -> bool {
        true
    }

    fn from_field(field: Field) -> (taken: Result<Self, Error>) {
        Ok(field)
    }
}

impl<T: FromField> FromField for Vec<T> {
    /// A sequence is of this type where each of its items is of the type `T`.
    open spec fn accepts(v: Value) -> bool {
        v matches Value::Vec(items) && forall|i: int|
            0 <= i < items.len() ==> T::accepts(#[trigger] items[i])
    }

    fn from_field(field: Field) -> (taken: Result<Self, Error>) {
        match field {
            Field::Vec(fields) => {
                let ghost all = fields@;
                let ghost values = field_values(all);
                let mut items: Vec<T> = Vec::new();
                for item in it: fields
                    invariant
                        it.seq() == all,
                        values == field_values(all),
                        field@ == Value::Vec(values),
                        items.len() == it.index(),
                        forall|j: int|
                            0 <= j < items@.len() ==> T::accepts(#[trigger] values[j])
                                && items@[j].value() == values[j],
                {
                    match T::from_field(item) {
                        Ok(taken) => {
                            items.push(taken);
                        },
                        Err(e) => {
                            assert(0 <= it.index() < values.len());
                            assert(!T::accepts(values[it.index() as int]));
                            assert(field@->Vec_0 == values);
                            return Err(e);
                        },
                    }
                }
                assert(values_of(items@) =~= values);
                Ok(items)
            },
            _ => Err(Error::InvalidFieldType),
        }
    }
}

impl<T: FromField> Deserialize for Vec<T> {
    open spec fn expected() -> Option<FieldType> {
        None
    }

    open spec fn parse(bytes: Seq<u8>) -> Result<Value, Error> {
        match decode_list::<T>(bytes) {
            Ok(items) => Ok(Value::Vec(items)),
            Err(e) => Err(e),
        }
    }

    open spec fn rest(bytes: Seq<u8>) -> Seq<u8> {
        list_remainder::<T>(bytes)
    }

    /// Reads a sequence: one record after the other until no byte is left. There is no
    /// count, so a record that cannot be read fails the whole sequence.
    fn deserialize(reader: &mut FieldReader<'_>) -> (read: Result<Self, Error>) {
        let mut items: Vec<T> = Vec::new();
        while !reader.is_empty()
            invariant
                reader.scope() == old(reader).scope(),
                prepend(values_of(items@), decode_list::<T>(reader@)) == decode_list::<T>(
                    old(reader)@,
                ),
                list_remainder::<T>(reader@) == list_remainder::<T>(old(reader)@),
            decreases reader@.len(),
        {
            let ghost before = reader@;
            let ghost values = values_of(items@);
            proof {
                lemma_remainder_len(before);
            }
            match reader.read_field::<T>() {
                Ok(item) => {
                    items.push(item);
                    proof {
                        assert(values_of(items@) =~= values.push(item.value()));
                        match decode_list::<T>(reader@) {
                            Ok(others) => {
                                assert(values + (seq![item.value()] + others) =~= values.push(
                                    item.value(),
                                ) + others);
                            },
                            Err(_) => {},
                        }
                    }
                },
                Err(e) => {
                    return Err(e);
                },
            }
        }
        proof {
            assert(values_of(items@) + Seq::<Value>::empty() =~= values_of(items@));
        }
        Ok(items)
    }
}

} // verus!
