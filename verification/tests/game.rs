use session_codec::actions::{Action, ActionKind};
use session_codec::args::{action_kind_named, parse_action_kind, same_text, Args, Help};
use session_codec::clock::ClockReading;
use session_codec::error::Error;
use session_codec::serde::serialize;
use session_codec::session::{Session, NO_LUCK};
use session_codec::strings::{draw, rand, weigh, Boolean, Rng, TheRealBooleanBuilder, MAX_DEPTH};
use session_codec::table::{health_bar, table_row};
use session_codec::try_catch::{Exception, TryCatch};
use session_codec::Entity;

fn words(line: &[&str]) -> Vec<String> {
    line.iter().map(|w| w.to_string()).collect()
}

#[test]
fn a_new_entity_has_five_health() {
    let entity = Entity::new("florp".to_string());
    assert_eq!(entity.name, "florp");
    assert_eq!(entity.health, 5);
    assert!(!entity.field_c);
}

#[test]
fn a_spawn_has_no_target() {
    let action = Action::spawn("florp".to_string());
    assert_eq!(action.entity, "florp");
    assert_eq!(action.kind, ActionKind::Spawn);
    assert_eq!(action.target, None);
    // the system clock reads a time after the year 2020
    assert!(action.start > 1_577_836_800_000);
    assert!(action.start < 1_000_000_000_000_000);
}

#[test]
fn an_interaction_names_both_sides() {
    let hero = Entity::new("Gilgamesh".to_string());
    let foe = Entity::new("Humbaba".to_string());
    let action = Action::interact(ActionKind::Fight, &hero, &foe).unwrap();
    assert_eq!(action.entity, "Gilgamesh");
    assert_eq!(action.target, Some("Humbaba".to_string()));
    assert_eq!(action.kind, ActionKind::Fight);
    let action = Action::interact_at(-5, ActionKind::Love, &foe, &hero);
    assert_eq!(
        action,
        Action {
            start: -5,
            entity: "Humbaba".to_string(),
            kind: ActionKind::Love,
            target: Some("Gilgamesh".to_string()),
        }
    );
}

#[test]
fn only_fighting_is_carried_out() {
    let mut foe = Entity::new("Humbaba".to_string());
    let mut fight = Action::spawn_at(1, "Gilgamesh".to_string());
    fight.kind = ActionKind::Fight;
    assert_eq!(fight.exec(&mut foe), "You're fighting Humbaba");
    let mut other = Action::spawn_at(1, "Gilgamesh".to_string());
    assert_eq!(other.exec(&mut foe), "Typed unknown action you have");
    assert_eq!(foe, Entity::new("Humbaba".to_string()));
}

#[test]
fn clock_readings_are_signed_milliseconds() {
    let after = ClockReading { before_epoch: false, millis: 1234 };
    assert_eq!(after.timestamp(), 1234);
    let before = ClockReading { before_epoch: true, millis: 1234 };
    assert_eq!(before.timestamp(), -1234);
    let zero = ClockReading { before_epoch: true, millis: 0 };
    assert_eq!(zero.timestamp(), 0);
    let largest = ClockReading { before_epoch: false, millis: i128::MAX as u128 };
    assert_eq!(largest.timestamp(), i128::MAX);
    let wrapped = ClockReading { before_epoch: false, millis: u128::MAX };
    assert_eq!(wrapped.timestamp(), -1);
    let wrapped = ClockReading { before_epoch: true, millis: u128::MAX };
    assert_eq!(wrapped.timestamp(), 1);
    let edge = ClockReading { before_epoch: true, millis: 1u128 << 127 };
    assert_eq!(edge.timestamp(), i128::MIN);
    assert!(!ClockReading::now().before_epoch);
}

#[test]
fn a_new_session_holds_its_founder_and_the_spawn() {
    let session = Session::new(Entity::new("florp".to_string())).unwrap();
    assert_eq!(session.party, vec![Entity::new("florp".to_string())]);
    assert!(session.opponents.is_empty());
    assert_eq!(session.actions.len(), 1);
    assert_eq!(session.actions[0].entity, "florp");
    assert_eq!(session.actions[0].kind, ActionKind::Spawn);
    assert_eq!(session.actions[0].target, None);
    let session = Session::new_at(7, Entity::new("florp".to_string()));
    assert_eq!(session.actions, vec![Action::spawn_at(7, "florp".to_string())]);
    assert_eq!(Session::default().party.len(), 0);
}

#[test]
fn a_session_is_stored_under_the_name_of_its_first() {
    let session = Session::new_at(7, Entity::new("florp".to_string()));
    let (path, bytes) = session.save().unwrap();
    assert_eq!(path, "sessions/florp.the_most_powerful.lol");
    assert_eq!(bytes, serialize(&session).unwrap());
    assert_eq!(Session::path("x"), "sessions/x.the_most_powerful.lol");
    let too_long = Session::new_at(7, Entity::new("x".repeat(70000)));
    assert_eq!(too_long.save(), Err(Error::PayloadTooLong));
}

#[test]
fn a_session_is_loaded_with_luck_only() {
    let session = Session::new_at(7, Entity::new("florp".to_string()));
    let (_, bytes) = session.save().unwrap();
    assert_eq!(Session::load(Boolean::Luck(false), &bytes), Ok(session.clone()));
    assert_eq!(Session::load(Boolean::Luck(true), &bytes), Ok(session));
    for luck in [Boolean::Maybe, Boolean::Probably, Boolean::Eh] {
        assert_eq!(Session::load(luck, &bytes), Err(Error::InvalidArgs(NO_LUCK)));
    }
    assert_eq!(Session::load(Boolean::Luck(true), &[]), Err(Error::NoSession));
    assert_eq!(Session::load(Boolean::Luck(true), &[8]), Err(Error::MissingFieldLen));
    assert_eq!(Session::load(Boolean::Luck(true), &[8, 0, 9]), Err(Error::TruncatedPayload));
    let entity = serialize(&Entity::new("florp".to_string())).unwrap();
    assert_eq!(Session::load(Boolean::Luck(true), &entity), Err(Error::InvalidFieldType));
    assert!(NO_LUCK.contains("Lorem chad ipsum"));
    assert!(NO_LUCK.trim_end().ends_with("Segmentation fault"));
}

#[test]
fn a_session_is_shown_as_two_tables() {
    let session = Session {
        party: vec![
            Entity { name: "florp".to_string(), health: 3, field_c: false },
            Entity { name: "a name that is far too long".to_string(), health: 20, field_c: false },
        ],
        opponents: vec![Entity { name: "Humbaba".to_string(), health: 0, field_c: true }],
        actions: vec![],
    };
    let expected = format!(
        "Oponents:\n=========\n{:15}  \n{:15}  \n\n\n\nParty:\n=========\n{:15}  {:15}  \n{:15}  {:15}  \n",
        "Humbaba",
        "",
        "florp",
        "a name that is ",
        "\u{2665}\u{2665}\u{2665}",
        "\u{2665}".repeat(15),
    );
    assert_eq!(session.to_string(), expected);
}

#[test]
fn rows_cut_and_fill_their_cells() {
    let mut out = String::from(">");
    table_row(&mut out, 4, &["ab".to_string(), "abcdef".to_string(), String::new()]);
    assert_eq!(out, ">ab    abcdef        \n");
    let mut out = String::new();
    table_row(&mut out, 15, &[]);
    assert_eq!(out, "\n");
    let mut out = String::new();
    table_row(&mut out, 20, &["1234567890123456789".to_string()]);
    assert_eq!(out, "123456789012345       \n");
    assert_eq!(health_bar(0), "");
    assert_eq!(health_bar(2), "\u{2665}\u{2665}");
    assert_eq!(health_bar(255).chars().count(), 255);
}

#[test]
fn the_builder_gives_luck_to_few() {
    assert_eq!(TheRealBooleanBuilder::new(true, true, 0, 130).build(), Boolean::Luck(true));
    assert_eq!(TheRealBooleanBuilder::new(true, true, 0, 146).build(), Boolean::Luck(true));
    assert_eq!(TheRealBooleanBuilder::new(true, true, 0, 128).build(), Boolean::Luck(false));
    assert_eq!(TheRealBooleanBuilder::new(true, true, 0, 131).build(), Boolean::Luck(false));
    assert_eq!(TheRealBooleanBuilder::new(true, true, 0, 148).build(), Boolean::Luck(false));
    assert_eq!(TheRealBooleanBuilder::new(false, true, 0, 130).build(), Boolean::Luck(false));
    assert_eq!(TheRealBooleanBuilder::new(true, false, 0, 130).build(), Boolean::Luck(false));
    // of the spring only the lowest byte counts
    assert_eq!(TheRealBooleanBuilder::new(true, true, 0, 130 + 256).build(), Boolean::Luck(true));
    assert_eq!(TheRealBooleanBuilder::new(true, true, 0, 130 - 256).build(), Boolean::Luck(true));
    assert_eq!(TheRealBooleanBuilder::new(true, true, 0, i32::MIN).build(), Boolean::Luck(false));
    assert_eq!(Boolean::builder().build(), Boolean::Luck(false));
    assert_eq!(Boolean::get_data_from_config(), Boolean::Luck(false));
}

#[test]
fn only_good_luck_is_plainly_true() {
    assert!(Boolean::Luck(true).to_regular_old_boring_pre_2024_bool());
    assert!(!Boolean::Luck(false).to_regular_old_boring_pre_2024_bool());
    assert!(!Boolean::Maybe.to_regular_old_boring_pre_2024_bool());
    assert!(!Boolean::Probably.to_regular_old_boring_pre_2024_bool());
    assert!(!Boolean::Eh.to_regular_old_boring_pre_2024_bool());
    assert_eq!(Boolean::Eh.to_string(), "?");
}

#[test]
fn two_draws_are_weighed() {
    assert_eq!(weigh(Boolean::Eh, Boolean::Luck(false)), Boolean::Probably);
    assert_eq!(weigh(Boolean::Eh, Boolean::Luck(true)), Boolean::Eh);
    assert_eq!(weigh(Boolean::Probably, Boolean::Luck(true)), Boolean::Maybe);
    assert_eq!(weigh(Boolean::Probably, Boolean::Luck(false)), Boolean::Maybe);
    assert_eq!(weigh(Boolean::Probably, Boolean::Eh), Boolean::Maybe);
    assert_eq!(weigh(Boolean::Probably, Boolean::Maybe), Boolean::Eh);
    assert_eq!(weigh(Boolean::Maybe, Boolean::Luck(false)), Boolean::Eh);
    assert_eq!(weigh(Boolean::Luck(false), Boolean::Luck(false)), Boolean::Eh);
}

#[test]
fn an_even_seed_draws_bad_luck() {
    assert_eq!(Rng::with_seed(2).rand(), Ok(Boolean::Luck(false)));
    assert_eq!(Rng::with_seed(0).rand(), Ok(Boolean::Luck(false)));
    let drawn = Rng::with_seed(3).rand().unwrap();
    assert!(!matches!(drawn, Boolean::Luck(_)));
    let drawn = rand().unwrap();
    assert_ne!(drawn, Boolean::Luck(true));
    let drawn = Rng::new().unwrap().rand().unwrap();
    assert_ne!(drawn, Boolean::Luck(true));
}

#[test]
fn a_reading_of_the_clock_is_drawn_from() {
    let even = || ClockReading { before_epoch: false, millis: 10 };
    let odd = || ClockReading { before_epoch: false, millis: 11 };
    let early = || ClockReading { before_epoch: true, millis: 10 };
    assert_eq!(draw(even(), None, 0), Ok(Boolean::Luck(false)));
    assert_eq!(draw(even(), None, MAX_DEPTH), Ok(Boolean::Luck(false)));
    assert_eq!(draw(even(), None, MAX_DEPTH + 1), Ok(Boolean::Maybe));
    assert_eq!(draw(early(), None, MAX_DEPTH + 1), Ok(Boolean::Maybe));
    assert_eq!(draw(early(), None, 0), Err(Error::SystemTime));
    assert_eq!(draw(early(), Some(2), 0), Err(Error::SystemTime));
    // the seed goes before the reading
    assert_eq!(draw(odd(), Some(2), 0), Ok(Boolean::Luck(false)));
    assert_eq!(draw(even(), Some(3), MAX_DEPTH), Ok(Boolean::Eh));
    assert_eq!(draw(odd(), None, MAX_DEPTH), Ok(Boolean::Eh));
    let drawn = draw(odd(), None, MAX_DEPTH - 1).unwrap();
    assert!(!matches!(drawn, Boolean::Luck(_)));
}

#[test]
fn a_source_is_made_of_a_reading() {
    let made = Rng::from_reading(ClockReading { before_epoch: false, millis: 10 }).unwrap();
    assert_eq!(made.rand(), Ok(Boolean::Luck(false)));
    let early = Rng::from_reading(ClockReading { before_epoch: true, millis: 10 });
    assert!(matches!(early, Err(Error::SystemTime)));
}

#[test]
fn actions_are_named_in_any_case() {
    assert_eq!(parse_action_kind("fight"), Ok(ActionKind::Fight));
    assert_eq!(parse_action_kind("FiGhT"), Ok(ActionKind::Fight));
    assert_eq!(parse_action_kind("LOVE"), Ok(ActionKind::Love));
    assert_eq!(parse_action_kind("ElectroCute"), Ok(ActionKind::ElectroCute));
    assert_eq!(parse_action_kind("Neutral"), Ok(ActionKind::Neutral));
    assert_eq!(parse_action_kind("spawn"), Err(Error::InvalidActionType));
    assert_eq!(parse_action_kind("die"), Err(Error::InvalidActionType));
    assert_eq!(parse_action_kind(""), Err(Error::InvalidActionType));
    assert_eq!(action_kind_named("fight"), Ok(ActionKind::Fight));
    assert_eq!(action_kind_named("Fight"), Err(Error::InvalidActionType));
    assert!(same_text("a", "a"));
    assert!(!same_text("a", "A"));
}

#[test]
fn command_lines_are_understood() {
    assert_eq!(Args::parse(&words(&[])), Ok(Args::Help(Help::General)));
    assert_eq!(Args::parse(&words(&["new", "florp"])), Ok(Args::New("florp".to_string())));
    assert_eq!(Args::parse(&words(&["new"])), Err(Error::InvalidArgs("")));
    assert_eq!(Args::parse(&words(&["load", "florp", "more"])), Ok(Args::Load("florp".to_string())));
    assert_eq!(Args::parse(&words(&["load"])), Err(Error::InvalidArgs("")));
    assert_eq!(Args::parse(&words(&["lucky"])), Ok(Args::FeelingLucky));
    assert_eq!(Args::parse(&words(&["--help"])), Ok(Args::Help(Help::General)));
    assert_eq!(Args::parse(&words(&["NEW", "florp"])), Ok(Args::Help(Help::General)));
    assert_eq!(Args::parse(&words(&["action", "-h"])), Ok(Args::Help(Help::Action)));
    assert_eq!(Args::parse(&words(&["action", "--help", "x"])), Ok(Args::Help(Help::Action)));
    assert_eq!(Args::parse(&words(&["action"])), Err(Error::InvalidArgs("action ")));
    assert_eq!(Args::parse(&words(&["action", "fight"])), Err(Error::InvalidArgs("action ")));
    assert_eq!(Args::parse(&words(&["action", "dance"])), Err(Error::InvalidArgs("action ")));
    assert_eq!(
        Args::parse(&words(&["action", "dance", "Humbaba"])),
        Err(Error::InvalidActionType)
    );
    assert_eq!(
        Args::parse(&words(&["action", "Fight", "Humbaba"])),
        Ok(Args::Action(ActionKind::Fight, "Humbaba".to_string(), 0))
    );
    assert_eq!(
        Args::parse(&words(&["action", "love", "Humbaba", "--override-my-fate=2112"])),
        Ok(Args::Action(ActionKind::Love, "Humbaba".to_string(), 2112))
    );
    assert_eq!(
        Args::parse(&words(&["action", "love", "Humbaba", "--override-my-fate=2113"])),
        Ok(Args::Action(ActionKind::Love, "Humbaba".to_string(), 0))
    );
}

#[test]
fn help_is_at_hand() {
    assert!(Help::General.text().starts_with("HELP!\n-----\n-h, --help        | Show this help\n"));
    assert!(Help::General.text().ends_with("lucky            | Feeling lucky?"));
    assert!(Help::Action.text().starts_with("HELP for action!\n"));
    assert!(Help::Action.text().ends_with("action <verb> <target> --override-my-fate=<int>\n"));
}

#[test]
fn errors_tell_what_went_wrong() {
    assert_eq!(
        Error::InvalidArgs("action ").to_string(),
        "invalid argument\n try action --help, but no one will hear you scream in userland"
    );
    assert_eq!(Error::InvalidActionType.to_string(), "invalid action type");
    assert_eq!(Error::InvalidFieldType.to_string(), "invalid field type");
    assert_eq!(Error::MissingFieldLen.to_string(), "missing field length");
    assert_eq!(Error::MissingFieldType.to_string(), "missing field type");
    assert_eq!(Error::TruncatedPayload.to_string(), "truncated payload");
    assert_eq!(Error::PayloadTooLong.to_string(), "payload too long");
    assert_eq!(
        Error::NoSession.to_string(),
        "404: your session is in another castle, or you havn't created it yet"
    );
    assert_eq!(Error::Utf8.to_string(), "invalid utf-8 sequence");
    assert_eq!(Error::SystemTime.to_string(), "the system clock is set before the epoch");
    let exception = Exception { kind: "RIP Bozo", message: "You're not feeling lucky".to_string() };
    assert_eq!(exception.to_string(), "RIP Bozo Exception: You're not feeling lucky");
    assert_eq!(
        Error::from(exception.clone()).to_string(),
        "RIP Bozo Exception: You're not feeling lucky"
    );
    assert_eq!(Error::from(exception.clone()), Error::Exception(exception));
}

#[test]
fn a_failure_is_handed_to_the_handler() {
    let fine = TryCatch::new(|| Ok::<u8, Exception>(3), |raised: Exception| Err(raised));
    assert_eq!(fine.do_try(), Ok(()));
    let caught = TryCatch::new(
        || Err::<u8, Exception>(Exception { kind: "a", message: "b".to_string() }),
        |_raised: Exception| Ok(()),
    );
    assert_eq!(caught.do_try(), Ok(()));
    let passed_on = TryCatch::new(
        || Err::<(), Exception>(Exception { kind: "a", message: "b".to_string() }),
        |raised: Exception| Err(Exception { kind: "c", message: raised.message }),
    );
    assert_eq!(passed_on.do_try(), Err(Exception { kind: "c", message: "b".to_string() }));
    let boxed = TryCatch::new(
        Box::new(|| Ok::<(), Exception>(())),
        Box::new(|raised: Exception| Err::<(), Exception>(raised)),
    );
    assert_eq!(boxed.do_try(), Ok(()));
}
