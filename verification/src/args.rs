use crate::actions::ActionKind;
use crate::error::Error;
use vstd::prelude::*;

verus! {

/// What the command line asks for.
#[derive(Debug, Clone, PartialEq, Eq)]
pub enum Args {
    /// An action, the name of its target, and the fate that overrides the draw.
    Action(ActionKind, String, usize),
    New(String),
    Load(String),
    Help(Help),
    FeelingLucky,
}

/// Which help is asked for.
#[derive(Debug, Clone, Copy, PartialEq, Eq, Structural)]
pub enum Help {
    General,
    Action,
}

/// What an [`Args`] stands for.
pub enum ArgsModel {
    Action(ActionKind, Seq<char>, usize),
    New(Seq<char>),
    Load(Seq<char>),
    Help(Help),
    FeelingLucky,
}

impl View for Args {
    type V = ArgsModel;

    open spec fn view(&self) -> ArgsModel {
        match self {
            Args::Action(kind, target, fate) => ArgsModel::Action(*kind, target@, *fate),
            Args::New(name) => ArgsModel::New(name@),
            Args::Load(name) => ArgsModel::Load(name@),
            Args::Help(help) => ArgsModel::Help(*help),
            Args::FeelingLucky => ArgsModel::FeelingLucky,
        }
    }
}

impl Help {
    /// The help text, without the line break that ends it when printed.
    pub fn text(&self) -> (text: &'static str)
        ensures
            text@ == match self {
                Help::General => GENERAL_HELP@,
                Help::Action => ACTION_HELP@,
            },
    {
        match self {
            Help::General => GENERAL_HELP,
            Help::Action => ACTION_HELP,
        }
    }
}

/// The help on the program as a whole.
pub const GENERAL_HELP: &'static str = "\
HELP!
-----
-h, --help        | Show this help
new <name>        | Create a new session
load <name>       | Load a session
action <action>   | Act upon a session
lucky            | Feeling lucky?";

/// The help on the actions.
pub const ACTION_HELP: &'static str = "\
HELP for action!
----------------
action -h, --help | Show this help
action fight <target>
action love <target> 
action electrocute <target>
action neutral <target>
action <verb> <target> --override-my-fate=<int>
";

/// The fate that the one accepted override asks for.
pub const OVERRIDDEN_FATE: usize = 2112;

/// The lower-case form of a text, as `str::to_lowercase` gives it.
pub uninterp spec fn lowercase(text: Seq<char>) -> Seq<char>;

/// `str::to_lowercase` gives the lower-case form of a text. Which form that is, Unicode says;
/// here it only has a name.
#[verifier::external_body]
fn to_lowercase(text: &str) -> (lower: String)
    ensures
        lower@ == lowercase(text@),
{
    text.to_lowercase()
}

/// Whether two texts are the same.
pub fn same_text(left: &str, right: &str) -> (same: bool)
    ensures
        same == (left@ == right@),
{
    let left: String = left.to_owned();
    let right: String = right.to_owned();
    left == right
}

/// The kind of action that a lower-case word names on the command line. Spawning and dying
/// cannot be asked for.
pub open spec fn kind_named(word: Seq<char>) -> Result<ActionKind, Error> {
    if word == "fight"@ {
        Ok(ActionKind::Fight)
    } else if word == "love"@ {
        Ok(ActionKind::Love)
    } else if word == "electrocute"@ {
        Ok(ActionKind::ElectroCute)
    } else if word == "neutral"@ {
        Ok(ActionKind::Neutral)
    } else {
        Err(Error::InvalidActionType)
    }
}

/// The kind of action that a lower-case word names, or `InvalidActionType`.
pub fn action_kind_named(word: &str) -> (kind: Result<ActionKind, Error>)
    ensures
        kind == kind_named(word@),
{
    if same_text(word, "fight") {
        Ok(ActionKind::Fight)
    } else if same_text(word, "love") {
        Ok(ActionKind::Love)
    } else if same_text(word, "electrocute") {
        Ok(ActionKind::ElectroCute)
    } else if same_text(word, "neutral") {
        Ok(ActionKind::Neutral)
    } else {
        Err(Error::InvalidActionType)
    }
}

/// The kind of action that a word names, in whatever case it is written.
pub fn parse_action_kind(action: &str) -> (kind: Result<ActionKind, Error>)
    ensures
        kind == kind_named(lowercase(action@)),
{
    let lower: String = to_lowercase(action);
    action_kind_named(lower.as_str())
}

/// The fate that the word after the target asks for: the one accepted override, or none.
pub open spec fn fate_of(args: Seq<Seq<char>>) -> usize {
    if args.len() >= 4 && args[3] == "--override-my-fate=2112"@ {
        OVERRIDDEN_FATE
    } else {
        0
    }
}

/// What the words of a command line ask for, the name of the program left out.
pub open spec fn parsed(args: Seq<Seq<char>>) -> Result<ArgsModel, Error> {
    if args.len() == 0 {
        Ok(ArgsModel::Help(Help::General))
    } else if args[0] == "new"@ {
        if args.len() < 2 {
            Err(Error::InvalidArgs(""))
        } else {
            Ok(ArgsModel::New(args[1]))
        }
    } else if args[0] == "load"@ {
        if args.len() < 2 {
            Err(Error::InvalidArgs(""))
        } else {
            Ok(ArgsModel::Load(args[1]))
        }
    } else if args[0] == "action"@ {
        if args.len() >= 2 && (args[1] == "-h"@ || args[1] == "--help"@) {
            Ok(ArgsModel::Help(Help::Action))
        } else if args.len() < 3 {
            Err(Error::InvalidArgs("action "))
        } else {
            match kind_named(lowercase(args[1])) {
                Ok(kind) => Ok(ArgsModel::Action(kind, args[2], fate_of(args))),
                Err(e) => Err(e),
            }
        }
    } else if args[0] == "lucky"@ {
        Ok(ArgsModel::FeelingLucky)
    } else {
        Ok(ArgsModel::Help(Help::General))
    }
}

/// The texts of the words, each in its place.
pub open spec fn words(args: Seq<String>) -> Seq<Seq<char>> {
    args.map_values(|word: String| word@)
}

impl Args {
    /// Reads the words of a command line, the name of the program left out. A command line
    /// that lacks a word fails with `InvalidArgs`, an action that does not exist with
    /// `InvalidActionType`; anything else that is not understood asks for help.
    pub fn parse(args: &[String]) -> (asked: Result<Args, Error>)
        ensures
            match (asked, parsed(words(args@))) {
                (Ok(a), Ok(m)) => a@ == m,
                (Err(e), Err(f)) => e == f,
                _ => false,
            },
    {
        if args.len() == 0 {
            return Ok(Args::Help(Help::General));
        }
        let first: &str = args[0].as_str();
        if same_text(first, "new") {
            if args.len() < 2 {
                return Err(Error::InvalidArgs(""));
            }
            Ok(Args::New(args[1].clone()))
        } else if same_text(first, "load") {
            if args.len() < 2 {
                return Err(Error::InvalidArgs(""));
            }
            Ok(Args::Load(args[1].clone()))
        } else if same_text(first, "action") {
            if args.len() >= 2 && (same_text(args[1].as_str(), "-h") || same_text(
                args[1].as_str(),
                "--help",
            )) {
                return Ok(Args::Help(Help::Action));
            }
            if args.len() < 3 {
                return Err(Error::InvalidArgs("action "));
            }
            let fate: usize = if args.len() >= 4 && same_text(
                args[3].as_str(),
                "--override-my-fate=2112",
            ) {
                OVERRIDDEN_FATE
            } else {
                0
            };
            match parse_action_kind(args[1].as_str()) {
                Ok(kind) => Ok(Args::Action(kind, args[2].clone(), fate)),
                Err(e) => Err(e),
            }
        } else if same_text(first, "lucky") {
            Ok(Args::FeelingLucky)
        } else {
            Ok(Args::Help(Help::General))
        }
    }
}

} // verus!
