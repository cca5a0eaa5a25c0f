use crate::actions::{Action, ActionKind};
use crate::bytes::{be16, i128_to_be_bytes, lemma_be_bytes_len, unsigned_of, I128_WIDTH};
use crate::entity::Entity;
use crate::error::Error;
use crate::session::Session;
use crate::wire::{
    concat, encoding, encodings, fits, lemma_concat_len, lemma_concat_push, lemma_list_payload,
    lemma_open_starts_with, lemma_patched_header, lemma_starts_with_add,
    lemma_starts_with_trans, starts_with, Value, HEADER_LEN, MAX_PAYLOAD,
};
use vstd::prelude::*;

pub use crate::reader::{deserialize, Deserialize, FieldReader, FromField};
pub use crate::tag::FieldType;

verus! {

/// A type whose values stand for a [`Value`].
pub trait AsValue {
    /// The value that `self` stands for.
    spec fn value(&self) -> Value;
}

/// A type whose values can be written as a record.
pub trait Serialize: AsValue {
    /// Appends the record of `self` to `buf` and returns its length in bytes. Fails where the
    /// payload is longer than a length field can say; what was in the buffer is then still at
    /// its front, and what follows it is of no use.
    fn serialize(&self, buf: &mut Serializer) -> (written: Result<usize, Error>)
        ensures
            match written {
                Ok(n) => {
                    &&& fits(self.value())
                    &&& n == encoding(self.value()).len()
                    &&& final(buf)@ == old(buf)@ + encoding(self.value())
                },
                Err(e) => {
                    &&& !fits(self.value())
                    &&& e == Error::PayloadTooLong
                    &&& starts_with(final(buf)@, old(buf)@)
                },
            },
    ;
}

/// The record of `value`, or `PayloadTooLong` where it has none.
pub fn serialize<T: Serialize>(value: &T) -> (bytes: Result<Vec<u8>, Error>)
    ensures
        match bytes {
            Ok(b) => fits(value.value()) && b@ == encoding(value.value()),
            Err(e) => !fits(value.value()) && e == Error::PayloadTooLong,
        },
{
    let mut serializer = Serializer::default();
    match value.serialize(&mut serializer) {
        Ok(_) => Ok(serializer.0),
        Err(e) => Err(e),
    }
}

/// An output buffer that only grows at its end.
pub struct Serializer(Vec<u8>);

impl View for Serializer {
    type V = Seq<u8>;

    closed spec fn view(&self) -> Seq<u8> {
        self.0@
    }
}

impl Default for Serializer {
    fn default() -> (serializer: Serializer)
        ensures
            serializer@ == Seq::<u8>::empty(),
    {
        Serializer(Vec::new())
    }
}

/// A record whose header is written and whose length is still open. Closing it uses it up, so
/// that each opened record is closed once.
pub struct Composite {
    start: usize,
}

impl Composite {
    /// Where the record starts in the buffer: the place of its tag.
    pub closed spec fn start(&self) -> int {
        self.start as int
    }

    /// Writes `size` into the length field of the record, once all its children are written,
    /// and returns the length of the whole record. Where `size` is more than a length field can
    /// say, fails and leaves the buffer as it is.
    pub fn close(self, buf: &mut Serializer, size: usize) -> (written: Result<usize, Error>)
        requires
            self.start() + HEADER_LEN <= old(buf)@.len(),
        ensures
            size <= MAX_PAYLOAD ==> written == Ok::<usize, Error>((size + HEADER_LEN) as usize)
                && final(buf)@ == old(buf)@.update(
                self.start() + 1,
                be16(size as nat)[0],
            ).update(self.start() + 2, be16(size as nat)[1]),
            size > MAX_PAYLOAD ==> written == Err::<usize, Error>(Error::PayloadTooLong)
                && final(buf)@ == old(buf)@,
    {
        if size > MAX_PAYLOAD {
            return Err(Error::PayloadTooLong);
        }
        assert(buf.0@.len() == buf.0.len());
        buf.0[self.start + 1] = (size / 256) as u8;
        buf.0[self.start + 2] = (size % 256) as u8;
        Ok(size + HEADER_LEN)
    }
}

impl Serializer {
    /// The bytes written so far.
    pub fn into_bytes(self) -> (bytes: Vec<u8>)
        ensures
            bytes@ == self@,
    {
        self.0
    }

    /// Writes the tag of a record and leaves its length open: the two length bytes are zero
    /// until the record is closed.
    pub fn unknown_size(&mut self, field_type: FieldType) -> (open: Composite)
        ensures
            final(self)@ == old(self)@ + seq![field_type.spec_tag(), 0u8, 0u8],
            open.start() == old(self)@.len(),
    {
        let start: usize = self.0.len();
        self.0.push(field_type.tag());
        self.0.push(0);
        self.0.push(0);
        assert(self.0@ =~= old(self).0@ + seq![field_type.spec_tag(), 0u8, 0u8]);
        Composite { start }
    }

    /// Writes the header of a record whose payload has `size` bytes, and returns the length of
    /// the header. Where `size` is more than a length field can say, fails and writes nothing.
    pub fn known_size(&mut self, field_type: FieldType, size: usize) -> (written: Result<
        usize,
        Error,
    >)
        ensures
            size <= MAX_PAYLOAD ==> written == Ok::<usize, Error>(HEADER_LEN) && final(self)@
                == old(self)@ + seq![field_type.spec_tag()] + be16(size as nat),
            size > MAX_PAYLOAD ==> written == Err::<usize, Error>(Error::PayloadTooLong)
                && final(self)@ == old(self)@,
    {
        if size > MAX_PAYLOAD {
            return Err(Error::PayloadTooLong);
        }
        self.header(field_type, size);
        Ok(HEADER_LEN)
    }

    /// Writes the header of a record whose payload has `size` bytes.
    fn header(&mut self, field_type: FieldType, size: usize)
        requires
            size <= MAX_PAYLOAD,
        ensures
            final(self)@ == old(self)@ + seq![field_type.spec_tag()] + be16(size as nat),
    {
        self.0.push(field_type.tag());
        self.0.push((size / 256) as u8);
        self.0.push((size % 256) as u8);
        assert(self.0@ =~= old(self).0@ + seq![field_type.spec_tag()] + be16(size as nat));
    }

    /// Writes a text record. Fails where the text takes more bytes than a length field can say.
    pub fn put_text(&mut self, text: &str) -> (written: Result<usize, Error>)
        ensures
            match written {
                Ok(n) => {
                    &&& fits(Value::Str(text@))
                    &&& n == encoding(Value::Str(text@)).len()
                    &&& final(self)@ == old(self)@ + encoding(Value::Str(text@))
                },
                Err(e) => {
                    &&& !fits(Value::Str(text@))
                    &&& e == Error::PayloadTooLong
                    &&& final(self)@ == old(self)@
                },
            },
    {
        let bytes = text.as_bytes();
        if bytes.len() > MAX_PAYLOAD {
            return Err(Error::PayloadTooLong);
        }
        self.header(FieldType::Str, bytes.len());
        self.0.extend_from_slice(bytes);
        assert(self.0@ =~= old(self).0@ + encoding(Value::Str(text@)));
        Ok(bytes.len() + HEADER_LEN)
    }

    /// Writes the record of a 128-bit integer: sixteen bytes, most significant first.
    pub fn put_i128(&mut self, x: i128) -> (written: usize)
        ensures
            fits(Value::I128(x)),
            written == encoding(Value::I128(x)).len(),
            final(self)@ == old(self)@ + encoding(Value::I128(x)),
    {
        let bytes = i128_to_be_bytes(x);
        proof {
            lemma_be_bytes_len(unsigned_of(x), I128_WIDTH as nat);
        }
        self.header(FieldType::I128, I128_WIDTH);
        self.0.extend_from_slice(bytes.as_slice());
        assert(self.0@ =~= old(self).0@ + encoding(Value::I128(x)));
        I128_WIDTH + HEADER_LEN
    }

    /// Writes the record of a byte.
    pub fn put_byte(&mut self, b: u8) -> (written: usize)
        ensures
            fits(Value::Byte(b)),
            written == encoding(Value::Byte(b)).len(),
            final(self)@ == old(self)@ + encoding(Value::Byte(b)),
    {
        self.header(FieldType::Byte, 1);
        self.0.push(b);
        assert(self.0@ =~= old(self).0@ + encoding(Value::Byte(b)));
        1 + HEADER_LEN
    }

    /// Writes the record of a boolean: one byte, 1 for true and 0 for false.
    pub fn put_bool(&mut self, b: bool) -> (written: usize)
        ensures
            fits(Value::Bool(b)),
            written == encoding(Value::Bool(b)).len(),
            final(self)@ == old(self)@ + encoding(Value::Bool(b)),
    {
        self.header(FieldType::Bool, 1);
        self.0.push(if b { 1 } else { 0 });
        assert(self.0@ =~= old(self).0@ + encoding(Value::Bool(b)));
        1 + HEADER_LEN
    }

    /// Writes the record of the kind of an action: one byte.
    pub fn put_kind(&mut self, kind: ActionKind) -> (written: usize)
        ensures
            fits(Value::ActionKind(kind)),
            written == encoding(Value::ActionKind(kind)).len(),
            final(self)@ == old(self)@ + encoding(Value::ActionKind(kind)),
    {
        self.header(FieldType::ActionKind, 1);
        self.0.push(kind.byte());
        assert(self.0@ =~= old(self).0@ + encoding(Value::ActionKind(kind)));
        1 + HEADER_LEN
    }
}

/// Any value that a record can hold, as it is held in memory.
#[derive(Debug, PartialEq)]
pub enum Field {
    Str(String),
    Byte(u8),
    Bool(bool),
    I128(i128),
    Action(Action),
    ActionKind(ActionKind),
    Entity(Entity),
    Session(Session),
    Vec(Vec<Field>),
}

impl View for Field {
    type V = Value;

    open spec fn view(&self) -> Value
        decreases self,
    {
        match self {
            Field::Str(text) => Value::Str(text@),
            Field::Byte(b) => Value::Byte(*b),
            Field::Bool(b) => Value::Bool(*b),
            Field::I128(x) => Value::I128(*x),
            Field::Action(action) => Value::Action(action@),
            Field::ActionKind(kind) => Value::ActionKind(*kind),
            Field::Entity(entity) => Value::Entity(entity@),
            Field::Session(session) => Value::Session(session@),
            Field::Vec(items) => Value::Vec(field_values(items@)),
        }
    }
}

impl Clone for Field {
    fn clone(&self) -> (copy: Field)
        ensures
            copy@ == self@,
        decreases self,
    {
        match self {
            Field::Str(text) => Field::Str(text.clone()),
            Field::Byte(b) => Field::Byte(*b),
            Field::Bool(b) => Field::Bool(*b),
            Field::I128(x) => Field::I128(*x),
            Field::Action(action) => Field::Action(action.clone()),
            Field::ActionKind(kind) => Field::ActionKind(*kind),
            Field::Entity(entity) => Field::Entity(entity.clone()),
            Field::Session(session) => Field::Session(session.clone()),
            Field::Vec(items) => {
                let mut copies: Vec<Field> = Vec::new();
                let mut i: usize = 0;
                while i < items.len()
                    invariant
                        i <= items.len(),
                        self is Vec,
                        self->Vec_0 == *items,
                        copies.len() == i,
                        forall|j: int| 0 <= j < i ==> (#[trigger] copies@[j])@ == items@[j]@,
                    decreases items.len() - i,
                {
                    copies.push(items[i].clone());
                    i += 1;
                }
                assert(field_values(copies@) =~= field_values(items@));
                Field::Vec(copies)
            },
        }
    }
}

/// The values that the fields stand for, each in its place.
pub open spec fn field_values(fields: Seq<Field>) -> Seq<Value>
    decreases fields,
{
    Seq::new(
        fields.len(),
        |i: int|
            if 0 <= i < fields.len() {
                fields[i].view()
            } else {
                Value::Byte(0)
            },
    )
}

/// The values that the items stand for, each in its place.
pub open spec fn values_of<T: AsValue>(items: Seq<T>) -> Seq<Value> {
    items.map_values(|t: T| t.value())
}

/// A sequence that can be written holds only items that can be written.
pub proof fn lemma_item_fits(items: Seq<Value>, i: int)
    requires
        0 <= i < items.len(),
        fits(Value::Vec(items)),
    ensures
        fits(items[i]),
{
    lemma_list_payload(items);
    lemma_concat_len(encodings(items), i);
}

/// Writing one more record extends the records written so far.
pub proof fn lemma_encodings_step(items: Seq<Value>, i: int)
    requires
        0 <= i < items.len(),
    ensures
        concat(encodings(items.take(i + 1))) == concat(encodings(items.take(i))) + encoding(
            items[i],
        ),
{
    assert(encodings(items.take(i + 1)) =~= encodings(items.take(i)).push(encoding(items[i])));
    lemma_concat_push(encodings(items.take(i)), encoding(items[i]));
}

impl AsValue for Field {
    open spec fn value(&self) -> Value {
        self@
    }
}

impl Serialize for Field {
    fn serialize(&self, buf: &mut Serializer) -> (written: Result<usize, Error>)
        decreases self,
    {
        match self {
            Field::Str(text) => {
                proof {
                    lemma_starts_with_add(buf@, Seq::empty());
                    assert(buf@ + Seq::<u8>::empty() =~= buf@);
                }
                buf.put_text(text.as_str())
            },
            Field::I128(x) => Ok(buf.put_i128(*x)),
            Field::Byte(b) => Ok(buf.put_byte(*b)),
            Field::Bool(b) => Ok(buf.put_bool(*b)),
            Field::Action(action) => action.serialize(buf),
            Field::Entity(entity) => entity.serialize(buf),
            Field::Session(session) => session.serialize(buf),
            Field::ActionKind(kind) => Ok(buf.put_kind(*kind)),
            Field::Vec(values) => {
                let ghost items = field_values(values@);
                proof {
                    lemma_list_payload(items);
                }
                let open = buf.unknown_size(FieldType::Vec);
                let mut size: usize = 0;
                let mut i: usize = 0;
                while i < values.len()
                    invariant
                        i <= values.len(),
                        items == field_values(values@),
                        self is Vec,
                        self->Vec_0 == *values,
                        buf@ == old(buf)@ + seq![FieldType::Vec.spec_tag(), 0u8, 0u8] + concat(
                            encodings(items.take(i as int)),
                        ),
                        size == concat(encodings(items.take(i as int))).len(),
                    decreases values.len() - i,
                {
                    proof {
                        lemma_encodings_step(items, i as int);
                    }
                    let ghost before = buf@;
                    match values[i].serialize(buf) {
                        Ok(n) => {
                            assert(buf@ =~= old(buf)@ + seq![
                                FieldType::Vec.spec_tag(),
                                0u8,
                                0u8,
                            ] + concat(encodings(items.take(i as int + 1))));
                            assert(buf.0@.len() == buf.0.len());
                            size += n;
                        },
                        Err(e) => {
                            proof {
                                if fits(Value::Vec(items)) {
                                    lemma_item_fits(items, i as int);
                                }
                                lemma_starts_with_add(
                                    old(buf)@,
                                    seq![FieldType::Vec.spec_tag(), 0u8, 0u8] + concat(
                                        encodings(items.take(i as int)),
                                    ),
                                );
                                assert(before == old(buf)@ + (seq![
                                    FieldType::Vec.spec_tag(),
                                    0u8,
                                    0u8,
                                ] + concat(encodings(items.take(i as int))))) by {
                                    assert(before =~= old(buf)@ + (seq![
                                        FieldType::Vec.spec_tag(),
                                        0u8,
                                        0u8,
                                    ] + concat(encodings(items.take(i as int)))));
                                }
                                lemma_starts_with_trans(buf@, before, old(buf)@);
                            }
                            return Err(e);
                        },
                    }
                    i += 1;
                }
                proof {
                    assert(items.take(i as int) =~= items);
                    lemma_patched_header(
                        old(buf)@,
                        FieldType::Vec,
                        concat(encodings(items)),
                        buf@,
                    );
                    lemma_open_starts_with(old(buf)@, FieldType::Vec, concat(encodings(items)));
                }
                open.close(buf, size)
            },
        }
    }
}

impl<T: AsValue> AsValue for Vec<T> {
    open spec fn value(&self) -> Value {
        Value::Vec(values_of(self@))
    }
}

impl<T: Serialize> Serialize for Vec<T> {
    /// Writes a sequence: a record whose payload is the records of the items, in order.
    fn serialize(&self, buf: &mut Serializer) -> (written: Result<usize, Error>) {
        let ghost items = values_of(self@);
        proof {
            lemma_list_payload(items);
        }
        let open = buf.unknown_size(FieldType::Vec);
        let mut size: usize = 0;
        let mut i: usize = 0;
        while i < self.len()
            invariant
                i <= self.len(),
                items == values_of(self@),
                buf@ == old(buf)@ + seq![FieldType::Vec.spec_tag(), 0u8, 0u8] + concat(
                    encodings(items.take(i as int)),
                ),
                size == concat(encodings(items.take(i as int))).len(),
            decreases self.len() - i,
        {
            proof {
                lemma_encodings_step(items, i as int);
            }
            let ghost before = buf@;
            match self[i].serialize(buf) {
                Ok(n) => {
                    assert(buf@ =~= old(buf)@ + seq![FieldType::Vec.spec_tag(), 0u8, 0u8] + concat(
                        encodings(items.take(i as int + 1)),
                    ));
                    assert(buf.0@.len() == buf.0.len());
                    size += n;
                },
                Err(e) => {
                    proof {
                        if fits(Value::Vec(items)) {
                            lemma_item_fits(items, i as int);
                        }
                        lemma_starts_with_add(
                            old(buf)@,
                            seq![FieldType::Vec.spec_tag(), 0u8, 0u8] + concat(
                                encodings(items.take(i as int)),
                            ),
                        );
                        assert(before =~= old(buf)@ + (seq![FieldType::Vec.spec_tag(), 0u8, 0u8]
                            + concat(encodings(items.take(i as int)))));
                        lemma_starts_with_trans(buf@, before, old(buf)@);
                    }
                    return Err(e);
                },
            }
            i += 1;
        }
        proof {
            assert(items.take(i as int) =~= items);
            lemma_patched_header(old(buf)@, FieldType::Vec, concat(encodings(items)), buf@);
            lemma_open_starts_with(old(buf)@, FieldType::Vec, concat(encodings(items)));
        }
        open.close(buf, size)
    }
}

} // verus!
