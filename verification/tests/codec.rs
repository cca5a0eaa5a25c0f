use session_codec::actions::{Action, ActionKind};
use session_codec::error::Error;
use session_codec::serde::{
    deserialize, serialize, Deserialize, Field, FieldReader, FieldType, FromField, Serialize,
    Serializer,
};
use session_codec::session::Session;
use session_codec::Entity;

fn florp() -> Entity {
    Entity {
        name: "florp".to_string(),
        health: 69,
        field_c: true,
    }
}

#[test]
fn entity_bytes_are_exact() {
    let bytes = serialize(&florp()).unwrap();
    assert_eq!(
        bytes,
        vec![7, 0, 16, 1, 0, 5, b'f', b'l', b'o', b'r', b'p', 3, 0, 1, 69, 4, 0, 1, 1]
    );
}

#[test]
fn entity_decodes_to_the_same_triple() {
    let bytes = serialize(&florp()).unwrap();
    let back: Entity = deserialize(&bytes).unwrap();
    assert_eq!(back.name, "florp");
    assert_eq!(back.health, 69);
    assert!(back.field_c);
}

#[test]
fn action_with_target_round_trips() {
    let action = Action {
        start: 1234,
        entity: "Gilgamesh".to_string(),
        kind: ActionKind::Fight,
        target: Some("Tommy".to_string()),
    };
    let bytes = serialize(&action).unwrap();
    let back: Action = deserialize(&bytes).unwrap();
    assert_eq!(back.target, Some("Tommy".to_string()));
    assert_eq!(back, action);
}

#[test]
fn action_without_target_round_trips_to_no_target() {
    let action = Action {
        start: 1234,
        entity: "Gilgamesh".to_string(),
        kind: ActionKind::Fight,
        target: None,
    };
    let bytes = serialize(&action).unwrap();
    let back: Action = deserialize(&bytes).unwrap();
    assert_eq!(back.target, None);
    assert_eq!(back, action);
}

#[test]
fn empty_target_is_read_as_no_target() {
    let action = Action {
        start: -7,
        entity: "Enkidu".to_string(),
        kind: ActionKind::Love,
        target: Some(String::new()),
    };
    let bytes = serialize(&action).unwrap();
    let back: Action = deserialize(&bytes).unwrap();
    assert_eq!(back.target, None);
    assert_eq!(back.start, -7);
}

#[test]
fn action_bytes_are_exact() {
    let action = Action {
        start: 1234,
        entity: "G".to_string(),
        kind: ActionKind::ElectroCute,
        target: None,
    };
    let mut expected = vec![5, 0, 30, 2, 0, 16];
    expected.extend_from_slice(&[0u8; 14]);
    expected.extend_from_slice(&[0x04, 0xd2]);
    expected.extend_from_slice(&[1, 0, 1, b'G', 6, 0, 1, 5, 1, 0, 0]);
    assert_eq!(serialize(&action).unwrap(), expected);
}

#[test]
fn session_with_an_empty_sequence_round_trips() {
    let entity = florp();
    let session = Session {
        party: vec![entity.clone()],
        opponents: vec![],
        actions: vec![Action::spawn_at(99, entity.name.clone())],
    };
    let bytes = serialize(&session).unwrap();
    let back: Session = deserialize(&bytes).unwrap();
    assert_eq!(back.party, vec![entity]);
    assert!(back.opponents.is_empty());
    assert_eq!(back.actions.len(), 1);
    assert_eq!(back.actions[0].kind, ActionKind::Spawn);
    assert_eq!(back.actions[0].start, 99);
    assert_eq!(back, session);
}

#[test]
fn session_keeps_the_order_of_its_sequences() {
    let session = Session {
        party: vec![Entity::new("a".to_string()), Entity::new("b".to_string())],
        opponents: vec![Entity::new("c".to_string())],
        actions: vec![
            Action::spawn_at(1, "a".to_string()),
            Action::spawn_at(2, "b".to_string()),
            Action::interact_at(
                3,
                ActionKind::Fight,
                &Entity::new("a".to_string()),
                &Entity::new("c".to_string()),
            ),
        ],
    };
    let bytes = serialize(&session).unwrap();
    let back: Session = deserialize(&bytes).unwrap();
    assert_eq!(back.party[0].name, "a");
    assert_eq!(back.party[1].name, "b");
    assert_eq!(back.opponents[0].name, "c");
    assert_eq!(back.actions[2].target, Some("c".to_string()));
    assert_eq!(back, session);
}

#[test]
fn a_lone_tag_lacks_its_length() {
    let read: Result<Entity, Error> = deserialize(&[7]);
    assert_eq!(read, Err(Error::MissingFieldLen));
    let read: Result<Field, Error> = deserialize(&[1, 0]);
    assert_eq!(read, Err(Error::MissingFieldLen));
}

#[test]
fn a_length_beyond_the_buffer_is_truncated() {
    let read: Result<Field, Error> = deserialize(&[1, 0, 100, b'h', b'e', b'l', b'l', b'o']);
    assert_eq!(read, Err(Error::TruncatedPayload));
}

#[test]
fn nothing_to_read_lacks_its_tag() {
    let read: Result<Field, Error> = deserialize(&[]);
    assert_eq!(read, Err(Error::MissingFieldType));
}

#[test]
fn an_unknown_tag_is_refused_at_once() {
    for tag in [0u8, 10, 11, 200, 255] {
        let bytes = [tag, 0, 1, 5];
        let mut reader = FieldReader::new(&bytes);
        let read: Result<Field, Error> = reader.read_field();
        assert_eq!(read, Err(Error::InvalidFieldType));
        // only the tag was read: the three bytes after it are still to come
        assert_eq!(reader.len(), Ok(1));
        assert!(!reader.is_empty());
    }
}

#[test]
fn the_empty_sequence_round_trips() {
    let none: Vec<Entity> = Vec::new();
    let bytes = serialize(&none).unwrap();
    assert_eq!(bytes, vec![9, 0, 0]);
    let back: Vec<Entity> = deserialize(&bytes).unwrap();
    assert!(back.is_empty());
    let back: Field = deserialize(&bytes).unwrap();
    assert_eq!(back, Field::Vec(vec![]));
}

#[test]
fn a_single_child_is_one_element() {
    let bytes = [9, 0, 4, 3, 0, 1, 7];
    let back: Vec<u8> = deserialize(&bytes).unwrap();
    assert_eq!(back, vec![7]);
}

#[test]
fn a_child_cannot_read_past_its_parent() {
    // the sequence declares four bytes of payload; its child declares two bytes of its own
    // payload, of which the parent holds only one; the byte after the parent is not the child's
    let bytes = [9, 0, 4, 3, 0, 2, 7, 200];
    let mut reader = FieldReader::new(&bytes);
    let read: Result<Vec<u8>, Error> = reader.read_field();
    assert_eq!(read, Err(Error::TruncatedPayload));
    // the parent was passed over as a whole: the one byte after it is left
    assert!(!reader.is_empty());
    assert_eq!(reader.field_type(), Err(Error::InvalidFieldType));
    assert!(reader.is_empty());
}

#[test]
fn what_follows_a_record_changes_nothing() {
    let mut bytes = serialize(&florp()).unwrap();
    let alone: Entity = deserialize(&bytes).unwrap();
    bytes.extend_from_slice(&[255, 255, 255]);
    let followed: Entity = deserialize(&bytes).unwrap();
    assert_eq!(alone, followed);
}

#[test]
fn the_cursor_moves_by_the_declared_length() {
    let bytes = [3, 0, 2, 10, 11, 3, 0, 1, 20, 4, 0, 1, 1];
    let mut reader = FieldReader::new(&bytes);
    let first: u8 = reader.read_field().unwrap();
    let second: u8 = reader.read_field().unwrap();
    let third: bool = reader.read_field().unwrap();
    assert_eq!((first, second, third), (10, 20, true));
    assert!(reader.is_empty());
}

#[test]
fn a_value_of_another_type_is_refused() {
    let bytes = serialize(&florp()).unwrap();
    assert_eq!(deserialize::<Action>(&bytes), Err(Error::InvalidFieldType));
    assert_eq!(deserialize::<Session>(&bytes), Err(Error::InvalidFieldType));
    assert_eq!(deserialize::<String>(&bytes), Err(Error::InvalidFieldType));
    assert_eq!(deserialize::<i128>(&bytes), Err(Error::InvalidFieldType));
    assert_eq!(deserialize::<u8>(&bytes), Err(Error::InvalidFieldType));
    assert_eq!(deserialize::<bool>(&bytes), Err(Error::InvalidFieldType));
    assert_eq!(deserialize::<ActionKind>(&bytes), Err(Error::InvalidFieldType));
    assert_eq!(deserialize::<Vec<Entity>>(&bytes), Err(Error::InvalidFieldType));
    let list = serialize(&vec![florp()]).unwrap();
    assert_eq!(deserialize::<Vec<Action>>(&list), Err(Error::InvalidFieldType));
    assert_eq!(deserialize::<Vec<Entity>>(&list), Ok(vec![florp()]));
}

#[test]
fn an_action_kind_out_of_range_is_refused() {
    assert_eq!(deserialize::<ActionKind>(&[6, 0, 1, 5]), Ok(ActionKind::ElectroCute));
    assert_eq!(deserialize::<ActionKind>(&[6, 0, 1, 6]), Err(Error::InvalidFieldType));
    assert_eq!(deserialize::<Field>(&[6, 0, 1, 255]), Err(Error::InvalidFieldType));
}

#[test]
fn a_scalar_with_too_few_bytes_is_truncated() {
    assert_eq!(deserialize::<u8>(&[3, 0, 0]), Err(Error::TruncatedPayload));
    assert_eq!(deserialize::<bool>(&[4, 0, 0]), Err(Error::TruncatedPayload));
    assert_eq!(deserialize::<ActionKind>(&[6, 0, 0]), Err(Error::TruncatedPayload));
    let mut short = vec![2, 0, 15];
    short.extend_from_slice(&[0u8; 15]);
    assert_eq!(deserialize::<i128>(&short), Err(Error::TruncatedPayload));
}

#[test]
fn booleans_are_true_only_for_one() {
    assert_eq!(deserialize::<bool>(&[4, 0, 1, 1]), Ok(true));
    assert_eq!(deserialize::<bool>(&[4, 0, 1, 0]), Ok(false));
    assert_eq!(deserialize::<bool>(&[4, 0, 1, 2]), Ok(false));
    assert_eq!(serialize(&Field::Bool(true)), Ok(vec![4, 0, 1, 1]));
    assert_eq!(serialize(&Field::Bool(false)), Ok(vec![4, 0, 1, 0]));
}

#[test]
fn integers_are_sixteen_bytes_most_significant_first() {
    let mut expected = vec![2, 0, 16];
    expected.extend_from_slice(&1234i128.to_be_bytes());
    assert_eq!(serialize(&Field::I128(1234)), Ok(expected));
    for x in [0i128, 1, -1, 255, 256, -256, 1234, i128::MAX, i128::MIN, -170141183460469231731687303715884105727] {
        let bytes = serialize(&Field::I128(x)).unwrap();
        assert_eq!(&bytes[3..], &x.to_be_bytes());
        assert_eq!(deserialize::<i128>(&bytes), Ok(x));
        assert_eq!(FieldReader::read_be_i128(&bytes[3..]), x);
    }
}

#[test]
fn text_is_utf8() {
    let text = "h\u{e9}llo \u{2665}".to_string();
    let bytes = serialize(&Field::Str(text.clone())).unwrap();
    assert_eq!(&bytes[3..], text.as_bytes());
    assert_eq!(bytes[2] as usize, text.len());
    assert_eq!(deserialize::<String>(&bytes), Ok(text));
}

#[test]
fn text_that_is_not_utf8_is_refused() {
    assert_eq!(deserialize::<String>(&[1, 0, 2, 0xc3, 0x28]), Err(Error::Utf8));
    assert_eq!(deserialize::<Field>(&[1, 0, 1, 0xff]), Err(Error::Utf8));
    // inside an entity too
    assert_eq!(
        deserialize::<Entity>(&[7, 0, 4, 1, 0, 1, 0x80]),
        Err(Error::Utf8)
    );
}

#[test]
fn a_payload_too_long_is_refused() {
    let longest = "x".repeat(65535);
    let bytes = serialize(&Field::Str(longest.clone())).unwrap();
    assert_eq!(bytes.len(), 65538);
    assert_eq!(&bytes[..3], &[1, 255, 255]);
    assert_eq!(deserialize::<String>(&bytes), Ok(longest));
    let too_long = "x".repeat(65536);
    assert_eq!(serialize(&Field::Str(too_long.clone())), Err(Error::PayloadTooLong));
    let entity = Entity::new(too_long);
    assert_eq!(serialize(&entity), Err(Error::PayloadTooLong));
    // each part fits, the whole does not
    let entity = Entity::new("y".repeat(65530));
    assert_eq!(serialize(&entity), Err(Error::PayloadTooLong));
    let many = vec![Entity::new("z".repeat(30000)), Entity::new("z".repeat(30000)), Entity::new("z".repeat(30000))];
    assert_eq!(serialize(&many), Err(Error::PayloadTooLong));
}

#[test]
fn headers_are_written_as_asked() {
    let mut buf = Serializer::default();
    assert_eq!(buf.known_size(FieldType::Str, 258), Ok(3));
    assert_eq!(buf.known_size(FieldType::Vec, 65535), Ok(3));
    assert_eq!(buf.known_size(FieldType::Vec, 65536), Err(Error::PayloadTooLong));
    assert_eq!(buf.into_bytes(), vec![1, 1, 2, 9, 255, 255]);
}

#[test]
fn an_open_record_is_patched_when_closed() {
    let mut buf = Serializer::default();
    let outer = buf.unknown_size(FieldType::Vec);
    let inner = buf.unknown_size(FieldType::Entity);
    let mut size = buf.put_text("ab").unwrap();
    size += buf.put_byte(1);
    size += buf.put_bool(false);
    let inner_len = inner.close(&mut buf, size).unwrap();
    assert_eq!(inner_len, 16);
    let sibling = buf.put_kind(ActionKind::Die);
    assert_eq!(outer.close(&mut buf, inner_len + sibling), Ok(23));
    assert_eq!(
        buf.into_bytes(),
        vec![9, 0, 20, 7, 0, 13, 1, 0, 2, b'a', b'b', 3, 0, 1, 1, 4, 0, 1, 0, 6, 0, 1, 4]
    );
}

#[test]
fn closing_with_a_size_too_large_fails_and_leaves_the_buffer() {
    let mut buf = Serializer::default();
    let open = buf.unknown_size(FieldType::Vec);
    assert_eq!(open.close(&mut buf, 65536), Err(Error::PayloadTooLong));
    assert_eq!(buf.into_bytes(), vec![9, 0, 0]);
}

#[test]
fn nested_sequences_round_trip() {
    let value = Field::Vec(vec![
        Field::Vec(vec![Field::Byte(1), Field::Str("two".to_string())]),
        Field::Vec(vec![]),
        Field::Entity(florp()),
        Field::I128(-3),
        Field::ActionKind(ActionKind::Neutral),
        Field::Bool(true),
    ]);
    let bytes = serialize(&value).unwrap();
    let back: Field = deserialize(&bytes).unwrap();
    assert_eq!(back, value);
    assert_eq!(back.clone(), value);
}

#[test]
fn fields_are_written_like_what_they_hold() {
    let entity = florp();
    assert_eq!(serialize(&Field::Entity(entity.clone())), serialize(&entity));
    let action = Action::spawn_at(5, "x".to_string());
    assert_eq!(serialize(&Field::Action(action.clone())), serialize(&action));
    let session = Session::new_at(5, entity.clone());
    assert_eq!(serialize(&Field::Session(session.clone())), serialize(&session));
    let list = vec![entity.clone(), entity.clone()];
    assert_eq!(
        serialize(&Field::Vec(vec![Field::Entity(entity.clone()), Field::Entity(entity)])),
        serialize(&list)
    );
}

#[test]
fn serialize_returns_the_number_of_bytes_written() {
    let mut buf = Serializer::default();
    let written = florp().serialize(&mut buf).unwrap();
    assert_eq!(written, 19);
    let written = vec![florp(), florp()].serialize(&mut buf).unwrap();
    assert_eq!(written, 3 + 19 + 19);
    assert_eq!(buf.into_bytes().len(), 19 + 41);
}

#[test]
fn a_sequence_is_read_until_the_bytes_end() {
    let payload = [3, 0, 1, 1, 3, 0, 1, 2, 3, 0, 1, 3];
    let mut reader = FieldReader::new(&payload);
    let items: Vec<u8> = Deserialize::deserialize(&mut reader).unwrap();
    assert_eq!(items, vec![1, 2, 3]);
    assert!(reader.is_empty());
    // a last record that is cut short fails the whole sequence
    let mut reader = FieldReader::new(&payload[..11]);
    let items: Result<Vec<u8>, Error> = Deserialize::deserialize(&mut reader);
    assert_eq!(items, Err(Error::TruncatedPayload));
    let mut reader = FieldReader::new(&payload[..9]);
    let items: Result<Vec<u8>, Error> = Deserialize::deserialize(&mut reader);
    assert_eq!(items, Err(Error::MissingFieldLen));
    // an item of another type too
    let mixed = [3, 0, 1, 1, 4, 0, 1, 1];
    let mut reader = FieldReader::new(&mixed);
    let items: Result<Vec<u8>, Error> = Deserialize::deserialize(&mut reader);
    assert_eq!(items, Err(Error::InvalidFieldType));
}

#[test]
fn a_reader_scoped_to_another_shape_is_refused() {
    let bytes = serialize(&florp()).unwrap();
    let mut reader = FieldReader::scoped(&bytes[3..], FieldType::Action);
    assert_eq!(reader.ensure_type(FieldType::Entity), Err(Error::InvalidFieldType));
    assert_eq!(reader.ensure_type(FieldType::Action), Ok(()));
    assert_eq!(Entity::deserialize(&mut reader), Err(Error::InvalidFieldType));
    let mut reader = FieldReader::scoped(&bytes[3..], FieldType::Entity);
    assert_eq!(Entity::deserialize(&mut reader), Ok(florp()));
    let reader = FieldReader::new(&bytes);
    assert_eq!(reader.ensure_type(FieldType::Session), Ok(()));
}

#[test]
fn fields_are_read_in_their_fixed_order() {
    // health before name: the first field is not a text
    let swapped = [7, 0, 10, 3, 0, 1, 69, 1, 0, 3, b'a', b'b', b'c'];
    assert_eq!(deserialize::<Entity>(&swapped), Err(Error::InvalidFieldType));
    // a field too few
    let short = [7, 0, 8, 1, 0, 1, b'a', 3, 0, 1, 69];
    assert_eq!(deserialize::<Entity>(&short), Err(Error::MissingFieldType));
}

#[test]
fn tags_are_stable() {
    let shapes = [
        (FieldType::Str, 1u8),
        (FieldType::I128, 2),
        (FieldType::Byte, 3),
        (FieldType::Bool, 4),
        (FieldType::Action, 5),
        (FieldType::ActionKind, 6),
        (FieldType::Entity, 7),
        (FieldType::Session, 8),
        (FieldType::Vec, 9),
    ];
    for (shape, tag) in shapes {
        assert_eq!(shape.tag(), tag);
        assert_eq!(FieldType::from_tag(tag), Some(shape));
    }
    assert_eq!(FieldType::from_tag(0), None);
    assert_eq!(FieldType::from_tag(10), None);
}

#[test]
fn action_kinds_have_their_bytes() {
    let kinds = [
        (ActionKind::Fight, 0u8),
        (ActionKind::Love, 1),
        (ActionKind::Neutral, 2),
        (ActionKind::Spawn, 3),
        (ActionKind::Die, 4),
        (ActionKind::ElectroCute, 5),
    ];
    for (kind, byte) in kinds {
        assert_eq!(kind.byte(), byte);
        assert_eq!(ActionKind::from_byte(byte), Some(kind));
    }
    assert_eq!(ActionKind::from_byte(6), None);
}

#[test]
fn a_field_is_taken_as_the_type_asked_for() {
    assert_eq!(u8::from_field(Field::Byte(3)), Ok(3));
    assert_eq!(u8::from_field(Field::Bool(true)), Err(Error::InvalidFieldType));
    assert_eq!(String::from_field(Field::Str("a".to_string())), Ok("a".to_string()));
    assert_eq!(
        Vec::<u8>::from_field(Field::Vec(vec![Field::Byte(1), Field::Byte(2)])),
        Ok(vec![1, 2])
    );
    assert_eq!(
        Vec::<u8>::from_field(Field::Vec(vec![Field::Byte(1), Field::Bool(false)])),
        Err(Error::InvalidFieldType)
    );
    assert_eq!(Field::from_field(Field::Byte(1)), Ok(Field::Byte(1)));
}
