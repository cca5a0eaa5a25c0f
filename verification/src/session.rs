use crate::actions::{Action, ActionKind, ActionModel};
use crate::entity::{Entity, EntityModel};
use crate::error::Error;
use crate::grammar::{decode, decode_session, session_remainder};
use crate::reader::{agrees, checked, deserialize, Deserialize, FieldReader};
use crate::serde::{serialize, values_of, AsValue, FieldType, Serialize, Serializer};
use crate::strings::Boolean;
use crate::table::{health_bar, hearts, row, table_row, CELL_CHARS};
use vstd::string::StringExecFns;
use crate::wire::{
    action_values, actions_payload, encoding, encodings, entities_payload, entity_values, fits,
    lemma_list_payload, lemma_open_starts_with, lemma_patched_header, lemma_starts_with_add,
    lemma_starts_with_trans, record, session_payload, Value,
};
use vstd::prelude::*;

verus! {

/// A game in progress: the player's party, the opponents, and what has happened so far.
#[derive(Debug, PartialEq)]
pub struct Session {
    pub party: Vec<Entity>,
    pub opponents: Vec<Entity>,
    pub actions: Vec<Action>,
}

/// What a [`Session`] stands for: three sequences, each in order.
pub struct SessionModel {
    pub party: Seq<EntityModel>,
    pub opponents: Seq<EntityModel>,
    pub actions: Seq<ActionModel>,
}

impl View for Session {
    type V = SessionModel;

    open spec fn view(&self) -> SessionModel {
        SessionModel {
            party: self.party@.map_values(|e: Entity| e@),
            opponents: self.opponents@.map_values(|e: Entity| e@),
            actions: self.actions@.map_values(|a: Action| a@),
        }
    }
}

/// A copy of the entities, each in its place.
fn clone_entities(entities: &Vec<Entity>) -> (copies: Vec<Entity>)
    ensures
        copies@.map_values(|e: Entity| e@) == entities@.map_values(|e: Entity| e@),
{
    let mut copies: Vec<Entity> = Vec::new();
    let mut i: usize = 0;
    while i < entities.len()
        invariant
            i <= entities.len(),
            copies.len() == i,
            forall|j: int| 0 <= j < i ==> (#[trigger] copies@[j])@ == entities@[j]@,
        decreases entities.len() - i,
    {
        copies.push(entities[i].clone());
        i += 1;
    }
    assert(copies@.map_values(|e: Entity| e@) =~= entities@.map_values(|e: Entity| e@));
    copies
}

/// A copy of the actions, each in its place.
fn clone_actions(actions: &Vec<Action>) -> (copies: Vec<Action>)
    ensures
        copies@.map_values(|a: Action| a@) == actions@.map_values(|a: Action| a@),
{
    let mut copies: Vec<Action> = Vec::new();
    let mut i: usize = 0;
    while i < actions.len()
        invariant
            i <= actions.len(),
            copies.len() == i,
            forall|j: int| 0 <= j < i ==> (#[trigger] copies@[j])@ == actions@[j]@,
        decreases actions.len() - i,
    {
        copies.push(actions[i].clone());
        i += 1;
    }
    assert(copies@.map_values(|a: Action| a@) =~= actions@.map_values(|a: Action| a@));
    copies
}

impl Clone for Session {
    fn clone(&self) -> (copy: Session)
        ensures
            copy@ == self@,
    {
        Session {
            party: clone_entities(&self.party),
            opponents: clone_entities(&self.opponents),
            actions: clone_actions(&self.actions),
        }
    }
}

impl Default for Session {
    /// A session in which nobody takes part and nothing has happened.
    fn default() -> (session: Session)
        ensures
            session@.party.len() == 0,
            session@.opponents.len() == 0,
            session@.actions.len() == 0,
    {
        Session { party: Vec::new(), opponents: Vec::new(), actions: Vec::new() }
    }
}

/// The directory in which sessions are stored.
pub const DIRNAME: &'static str = "sessions";

/// What the user is told where luck is not on their side.
pub const NO_LUCK: &'static str = "


            Lorem chad ipsum dolor sit amet, consectetur adipiscing elit, sed do eiusmod tempor incididunt ut labore et dolore magna aliqua. At urna condimentum mattis pellentesque id nibh tortor id aliquet. Convallis convallis tellus id interdum velit laoreet id donec. Magnis dis parturient montes nascetur ridiculus mus. Posuere ac ut consequat semper viverra nam. A iaculis at erat pellentesque adipiscing commodo. Ut porttitor leo a diam sollicitudin tempor id. Dolor purus non enim praesent elementum facilisis leo vel. Neque egestas congue quisque egestas. Diam volutpat commodo sed egestas egestas fringilla phasellus faucibus. Eget arcu dictum varius duis at consectetur lorem. Magna fermentum iaculis eu non diam phasellus vestibulum. Dictumst quisque sagittis purus sit amet volutpat consequat. Id donec ultrices tincidunt arcu. Ut tristique et egestas quis ipsum suspendisse ultrices gravida. Non quam lacus suspendisse faucibus interdum posuere lorem. Tristique nulla aliquet enim tortor. Commodo elit at imperdiet dui accumsan. Duis at consectetur lorem donec.
            Enim praesent elementum facilisis leo vel fringilla est. At varius vel pharetra vel turpis nunc eget. Lectus magna fringilla urna porttitor. Egestas congue quisque egestas diam in arcu. Velit aliquet sagittis id consectetur purus ut faucibus pulvinar. Non tellus orci ac auctor. At risus viverra adipiscing at in tellus integer. Phasellus egestas tellus rutrum tellus pellentesque. Eget sit amet tellus cras adipiscing enim. Et egestas quis ipsum suspendisse. Scelerisque in dictum non consectetur a erat nam at.
            Donec ultrices tincidunt arcu non sodales. Diam phasellus vestibulum lorem sed risus ultricies. Nunc congue nisi vitae suscipit tellus mauris. Elementum nisi quis eleifend quam adipiscing vitae proin sagittis. Platea dictumst quisque sagittis purus sit amet. Sit amet nisl purus in mollis. Praesent semper feugiat nibh sed pulvinar. Tortor condimentum lacinia quis vel eros donec. Condimentum lacinia quis vel eros. Fames ac turpis egestas integer eget aliquet nibh praesent tristique.
            Vel quam elementum pulvinar etiam non. Duis ut diam quam nulla porttitor massa id neque. Lacinia at quis risus sed vulputate odio ut enim. Dui sapien eget mi proin sed libero enim sed faucibus. Et pharetra pharetra massa massa ultricies. Senectus et netus et malesuada. In tellus integer feugiat scelerisque. Senectus et netus et malesuada fames ac turpis egestas maecenas. Ut tortor pretium viverra suspendisse. Lobortis feugiat vivamus at augue eget arcu dictum. Ut enim blandit volutpat maecenas volutpat blandit aliquam etiam. Vestibulum sed arcu non odio euismod. Cursus mattis molestie a iaculis. Porttitor rhoncus dolor purus non. Tempus quam pellentesque nec nam aliquam sem et tortor. Euismod elementum nisi quis eleifend quam.
            Gravida cum sociis natoque penatibus et magnis dis. Laoreet non curabitur gravida arcu. Viverra suspendisse potenti nullam ac tortor vitae purus faucibus ornare. Commodo elit at imperdiet dui accumsan sit amet nulla facilisi. Ipsum a arcu cursus vitae. Felis eget velit aliquet sagittis id consectetur. Lectus nulla at volutpat diam ut venenatis tellus. Nisl vel pretium lectus quam id. Sapien pellentesque habitant morbi tristique senectus. Diam sit amet nisl suscipit. Ante metus dictum at tempor commodo ullamcorper a. Neque laoreet suspendisse interdum consectetur libero. Pellentesque dignissim enim sit amet venenatis urna cursus eget nunc. Blandit volutpat maecenas volutpat blandit aliquam etiam. Id interdum velit laoreet id donec ultrices tincidunt. Turpis in eu mi bibendum neque egestas congue quisque.
            Tellus pellentesque eu tincidunt tortor aliquam nulla facilisi cras fermentum. Enim facilisis gravida neque convallis a cras. Vitae aliquet nec ullamcorper sit amet risus. Duis at tellus at urna condimentum mattis pellentesque. Cras pulvinar mattis nunc sed. Ac turpis egestas sed tempus urna et pharetra pharetra massa. Ultrices eros in cursus turpis massa tincidunt dui. Massa sed elementum tempus egestas sed. Nisi scelerisque eu ultrices vitae auctor eu augue. Id neque aliquam vestibulum morbi. Sapien pellentesque habitant morbi tristique senectus et netus et. Tellus in metus vulputate eu. Feugiat in fermentum posuere urna nec tincidunt praesent. Gravida quis blandit turpis cursus. Scelerisque fermentum dui faucibus in ornare quam.
            Sit amet dictum sit amet. Porta lorem mollis aliquam ut porttitor leo. Sit amet consectetur adipiscing elit duis tristique sollicitudin nibh sit. Felis bibendum ut tristique et. In hendrerit gravida rutrum quisque non. Ullamcorper velit sed ullamcorper morbi tincidunt ornare. Commodo quis imperdiet massa tincidunt. Faucibus turpis in eu mi bibendum neque egestas congue quisque. Integer enim neque volutpat ac tincidunt. Euismod quis viverra nibh cras pulvinar mattis. Facilisis magna etiam tempor orci eu. Senectus et netus et malesuada fames ac turpis egestas integer. Mi ipsum faucibus vitae aliquet nec. Ullamcorper morbi tincidunt ornare massa eget egestas purus viverra accumsan. Placerat orci nulla pellentesque dignissim enim sit amet venenatis.
            Amet massa vitae tortor condimentum lacinia quis vel eros. Tellus in hac habitasse platea dictumst vestibulum. Quisque egestas diam in arcu cursus. Sit amet consectetur adipiscing elit pellentesque habitant morbi tristique senectus. Eleifend donec pretium vulputate sapien nec sagittis aliquam malesuada bibendum. Sit amet consectetur adipiscing elit pellentesque habitant morbi tristique senectus. Ut ornare lectus sit amet est placerat in egestas erat. Consectetur purus ut faucibus pulvinar elementum. Senectus et netus et malesuada fames ac turpis. Proin libero nunc consequat interdum varius sit amet mattis. Aliquet bibendum enim facilisis gravida neque convallis a cras. Sapien eget mi proin sed libero enim sed faucibus. Mi bibendum neque egestas congue. Molestie at elementum eu facilisis sed odio morbi quis commodo. Nibh tortor id aliquet lectus proin nibh. Varius quam quisque id diam vel.


            Caught exception: map::at, trace:
            0# get_data_from_config(std::string_view) at /home/U/basic.cpp:420
            1# bar(std::string_view) at /home/U/basic.cpp:69
            2# main at /home/U/basic.cpp:17



            Segmentation fault 
            ";

/// The names of the entities, each in its place.
pub open spec fn names(entities: Seq<EntityModel>) -> Seq<Seq<char>> {
    entities.map_values(|e: EntityModel| e.name)
}

/// The health of the entities in hearts, each in its place.
pub open spec fn health_bars(entities: Seq<EntityModel>) -> Seq<Seq<char>> {
    entities.map_values(|e: EntityModel| hearts(e.health as nat))
}

/// The two rows of a table of entities: their names, and their health in hearts.
pub open spec fn table(entities: Seq<EntityModel>) -> Seq<char> {
    row(names(entities), CELL_CHARS as nat) + row(health_bars(entities), CELL_CHARS as nat)
}

/// A session as it is shown to the user: the opponents, then the party.
pub open spec fn rendered(s: SessionModel) -> Seq<char> {
    "Oponents:\n=========\n"@ + table(s.opponents) + "\n\n\n"@ + "Party:\n=========\n"@
        + table(s.party)
}

/// Appends the two rows of a table of entities.
fn render_table(out: &mut String, entities: &Vec<Entity>)
    ensures
        final(out)@ == old(out)@ + table(entities@.map_values(|e: Entity| e@)),
{
    let ghost models = entities@.map_values(|e: Entity| e@);
    let mut shown_names: Vec<String> = Vec::new();
    let mut shown_health: Vec<String> = Vec::new();
    let mut i: usize = 0;
    while i < entities.len()
        invariant
            i <= entities.len(),
            models == entities@.map_values(|e: Entity| e@),
            shown_names.len() == i,
            shown_health.len() == i,
            forall|j: int| 0 <= j < i ==> (#[trigger] shown_names@[j])@ == models[j].name,
            forall|j: int|
                0 <= j < i ==> (#[trigger] shown_health@[j])@ == hearts(models[j].health as nat),
        decreases entities.len() - i,
    {
        shown_names.push(entities[i].name.clone());
        shown_health.push(health_bar(entities[i].health));
        i += 1;
    }
    assert(shown_names@.map_values(|t: String| t@) =~= names(models));
    assert(shown_health@.map_values(|t: String| t@) =~= health_bars(models));
    table_row(out, CELL_CHARS, shown_names.as_slice());
    table_row(out, CELL_CHARS, shown_health.as_slice());
    assert(out@ =~= old(out)@ + table(models));
}

impl Session {
    /// Renders the session as it is shown to the user.
    pub fn to_string(&self) -> (out: String)
        ensures
            out@ == rendered(self@),
    {
        let mut out: String = "Oponents:\n=========\n".to_owned();
        render_table(&mut out, &self.opponents);
        out.append("\n\n\n");
        out.append("Party:\n=========\n");
        render_table(&mut out, &self.party);
        assert(out@ =~= rendered(self@));
        out
    }

    /// The path of the file in which the session of the given name is stored.
    pub fn path(name: &str) -> (path: String)
        ensures
            path@ == DIRNAME@ + "/"@ + name@ + ".the_most_powerful.lol"@,
    {
        DIRNAME.to_owned().concat("/").concat(name).concat(".the_most_powerful.lol")
    }

    /// Reads a session from what is stored of it. Without luck nothing is read, and the user
    /// is told at length. Where nothing is stored there is no session. Else the stored bytes
    /// must hold the record of a session.
    pub fn load(luck: Boolean, stored: &[u8]) -> (loaded: Result<Session, Error>)
        ensures
            luck !is Luck ==> (loaded matches Err(e) && e == Error::InvalidArgs(NO_LUCK)),
            luck is Luck && stored@.len() == 0 ==> (loaded matches Err(e) && e
                == Error::NoSession),
            luck is Luck && stored@.len() > 0 ==> agrees(
                loaded,
                checked::<Session>(decode(stored@)),
            ),
    {
        if !matches!(luck, Boolean::Luck(_)) {
            return Err(Error::InvalidArgs(NO_LUCK));
        }
        if stored.len() == 0 {
            return Err(Error::NoSession);
        }
        deserialize(stored)
    }

    /// What is to be stored of a session, and where: the path of its file, which goes by the
    /// name of the first of the party, and the record of the session.
    pub fn save(&self) -> (saved: Result<(String, Vec<u8>), Error>)
        requires
            self.party.len() > 0,
        ensures
            match saved {
                Ok((path, bytes)) => {
                    &&& fits(self.value())
                    &&& path@ == DIRNAME@ + "/"@ + self@.party[0].name
                        + ".the_most_powerful.lol"@
                    &&& bytes@ == encoding(self.value())
                },
                Err(e) => !fits(self.value()) && e == Error::PayloadTooLong,
            },
    {
        let path = Session::path(self.party[0].name.as_str());
        match serialize(self) {
            Ok(bytes) => Ok((path, bytes)),
            Err(e) => Err(e),
        }
    }

    /// A session that `entity` starts at the time `start`: the party is the entity alone, and
    /// the one action is its entry into the game.
    pub fn new_at(start: i128, entity: Entity) -> (session: Session)
        ensures
            session@.party == seq![entity@],
            session@.opponents == Seq::<EntityModel>::empty(),
            session@.actions == seq![
                ActionModel {
                    start,
                    entity: entity@.name,
                    kind: ActionKind::Spawn,
                    target: None,
                },
            ],
    {
        let spawn = Action::spawn_at(start, entity.name.clone());
        let mut actions: Vec<Action> = Vec::new();
        actions.push(spawn);
        let mut party: Vec<Entity> = Vec::new();
        party.push(entity);
        let session = Session { actions, party, opponents: Vec::new() };
        assert(session@.party =~= seq![entity@]);
        assert(session@.opponents =~= Seq::<EntityModel>::empty());
        assert(session@.actions =~= seq![spawn@]);
        session
    }

    /// A session that `entity` starts now: the party is the entity alone, and the one action
    /// is its entry into the game, at whatever time the system clock reads.
    pub fn new(entity: Entity) -> (session: Result<Session, Error>)
        ensures
            session matches Ok(s) && s@.party == seq![entity@] && s@.opponents.len() == 0
                && s@.actions.len() == 1 && s@.actions[0].entity == entity@.name
                && s@.actions[0].kind == ActionKind::Spawn && s@.actions[0].target is None,
    {
        let spawn = Action::spawn(entity.name.clone());
        let mut actions: Vec<Action> = Vec::new();
        actions.push(spawn);
        let mut party: Vec<Entity> = Vec::new();
        party.push(entity);
        let session = Session { actions, party, opponents: Vec::new() };
        assert(session@.party =~= seq![entity@]);
        assert(session@.actions =~= seq![spawn@]);
        Ok(session)
    }
}

impl AsValue for Session {
    open spec fn value(&self) -> Value {
        Value::Session(self@)
    }
}

/// A sequence of entities is written as the sequence of the values they stand for.
pub proof fn lemma_entities_encoding(entities: Seq<Entity>)
    ensures
        values_of(entities) == entity_values(entities.map_values(|e: Entity| e@)),
        encoding(Value::Vec(values_of(entities))) == record(
            FieldType::Vec,
            entities_payload(entities.map_values(|e: Entity| e@)),
        ),
{
    let models = entities.map_values(|e: Entity| e@);
    assert(values_of(entities) =~= entity_values(models));
    lemma_list_payload(entity_values(models));
    assert(encodings(entity_values(models)) =~= models.map_values(
        |e: crate::entity::EntityModel| record(FieldType::Entity, crate::wire::entity_payload(e)),
    ));
}

/// A sequence of actions is written as the sequence of the values they stand for.
pub proof fn lemma_actions_encoding(actions: Seq<Action>)
    ensures
        values_of(actions) == action_values(actions.map_values(|a: Action| a@)),
        encoding(Value::Vec(values_of(actions))) == record(
            FieldType::Vec,
            actions_payload(actions.map_values(|a: Action| a@)),
        ),
{
    let models = actions.map_values(|a: Action| a@);
    assert(values_of(actions) =~= action_values(models));
    lemma_list_payload(action_values(models));
    assert(encodings(action_values(models)) =~= models.map_values(
        |a: ActionModel| record(FieldType::Action, crate::wire::action_payload(a)),
    ));
}

impl Serialize for Session {
    /// Writes a session: a record whose payload holds three sequences, the party, the
    /// opponents and the actions.
    fn serialize(&self, buf: &mut Serializer) -> (written: Result<usize, Error>) {
        proof {
            lemma_entities_encoding(self.party@);
            lemma_entities_encoding(self.opponents@);
            lemma_actions_encoding(self.actions@);
        }
        let open = buf.unknown_size(FieldType::Session);
        let ghost opened = buf@;
        proof {
            lemma_starts_with_add(old(buf)@, seq![FieldType::Session.spec_tag(), 0u8, 0u8]);
        }
        let mut size: usize = match self.party.serialize(buf) {
            Ok(n) => n,
            Err(e) => {
                proof {
                    lemma_starts_with_trans(buf@, opened, old(buf)@);
                }
                return Err(e);
            },
        };
        let ghost first = buf@;
        proof {
            lemma_starts_with_add(opened, encoding(self.party.value()));
            lemma_starts_with_trans(first, opened, old(buf)@);
        }
        match self.opponents.serialize(buf) {
            Ok(n) => {
                size += n;
            },
            Err(e) => {
                proof {
                    lemma_starts_with_trans(buf@, first, old(buf)@);
                }
                return Err(e);
            },
        }
        let ghost second = buf@;
        proof {
            lemma_starts_with_add(first, encoding(self.opponents.value()));
            lemma_starts_with_trans(second, first, old(buf)@);
        }
        match self.actions.serialize(buf) {
            Ok(n) => {
                size += n;
            },
            Err(e) => {
                proof {
                    lemma_starts_with_trans(buf@, second, old(buf)@);
                }
                return Err(e);
            },
        }
        proof {
            assert(buf@ =~= old(buf)@ + seq![FieldType::Session.spec_tag(), 0u8, 0u8]
                + session_payload(self@));
            lemma_patched_header(old(buf)@, FieldType::Session, session_payload(self@), buf@);
            lemma_open_starts_with(old(buf)@, FieldType::Session, session_payload(self@));
        }
        open.close(buf, size)
    }
}

impl Deserialize for Session {
    open spec fn expected() -> Option<FieldType> {
        None
    }

    open spec fn parse(bytes: Seq<u8>) -> Result<Value, Error> {
        match decode_session(bytes) {
            Ok(s) => Ok(Value::Session(s)),
            Err(e) => Err(e),
        }
    }

    open spec fn rest(bytes: Seq<u8>) -> Seq<u8> {
        session_remainder(bytes)
    }

    /// Reads the fields of a session, in order: party, opponents, actions.
    fn deserialize(reader: &mut FieldReader<'_>) -> (read: Result<Self, Error>)
        decreases old(reader)@.len(), 3nat,
    {
        let party: Vec<Entity> = match reader.read_field() {
            Ok(party) => party,
            Err(e) => {
                return Err(e);
            },
        };
        let opponents: Vec<Entity> = match reader.read_field() {
            Ok(opponents) => opponents,
            Err(e) => {
                return Err(e);
            },
        };
        let actions: Vec<Action> = match reader.read_field() {
            Ok(actions) => actions,
            Err(e) => {
                return Err(e);
            },
        };
        proof {
            assert(party@.map_values(|e: Entity| e@) =~= values_of(party@).map_values(
                |v: Value| v->Entity_0,
            ));
            assert(opponents@.map_values(|e: Entity| e@) =~= values_of(opponents@).map_values(
                |v: Value| v->Entity_0,
            ));
            assert(actions@.map_values(|a: Action| a@) =~= values_of(actions@).map_values(
                |v: Value| v->Action_0,
            ));
        }
        Ok(Session { party, opponents, actions })
    }
}

} // verus!
