use session_codec::actions::{Action, ActionKind};
use session_codec::error::Error;
use session_codec::serde::{serialize, Deserialize, FieldReader};
use session_codec::session::Session;
use session_codec::Entity;

fn deserialize<T: Deserialize>(bytes: &[u8]) -> Result<T, Error> {
    let mut reader = FieldReader::new(&bytes[3..]);
    T::deserialize(&mut reader)
}

#[test]
fn session_round_trip() {
    let session = Session {
        actions: vec![
            Action::spawn("Toerktumlare".to_string()),
            Action {
                kind: ActionKind::Fight,
                entity: "Gilgamesh".to_string(),
                start: 1234,
                target: Some("Tommy".to_string()),
            },
        ],
        party: vec![Entity {
            name: "florp".to_string(),
            field_c: true,
            health: 69,
        }],
        ..Default::default()
    };

    let serialized = serialize(&session).unwrap();
    let actual = deserialize::<Session>(&serialized).unwrap();

    assert_eq!(actual, session);
}

#[test]
fn action_round_trip() {
    let expected = Action::spawn("".to_string());
    let serialized = serialize(&expected).unwrap();
    let actual = deserialize::<Action>(&serialized).unwrap();

    assert_eq!(actual, expected);
}

#[test]
fn entity_round_trip() {
    let expected = Entity {
        name: "florp".to_string(),
        health: 69,
        field_c: true,
    };
    let serialized = serialize(&expected).unwrap();
    println!("BYTES: {serialized:?}");
    let actual = deserialize::<Entity>(&serialized).unwrap();

    assert_eq!(actual, expected);
}
