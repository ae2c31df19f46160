//! The command lines of the replay tools.
use crate::base::order::texts;
use crate::base::text::{
    fault_text, fault_words, join, number_in, parse_u64, same_text,
};
use crate::replay::player::ReplaySpeed;
use vstd::prelude::*;
use vstd::string::StringExecFns;

verus! {

/// Where the canonical session lies.
pub const DEFAULT_DIR: &'static str = "tests/fixtures/replay/canonical";

/// The canonical session.
pub const DEFAULT_SESSION_ID: u64 = 20251130;

/// Number of records in the canonical session.
pub const DEFAULT_RECORD_COUNT: u64 = 64;

/// Seed of a regression run.
pub const DEFAULT_SEED: u64 = 0xDEAD_BEEF_CAFE_BABE;

/// What the inspection tool is asked to do. Without a directory, the configured
/// one is meant.
#[derive(Clone, Debug, PartialEq, Eq)]
pub enum Args {
    List { dir: Option<String> },
    Info { dir: Option<String>, session_id: u64 },
    Dump { dir: Option<String>, session_id: u64 },
    Play { dir: Option<String>, session_id: u64, speed: ReplaySpeed },
    Help,
}

/// What a command line asks for.
pub enum ArgsModel {
    List { dir: Option<Seq<char>> },
    Info { dir: Option<Seq<char>>, session_id: u64 },
    Dump { dir: Option<Seq<char>>, session_id: u64 },
    Play { dir: Option<Seq<char>>, session_id: u64, speed: ReplaySpeed },
    Help,
}

/// The characters of a text that may be missing.
pub open spec fn text_in(text: Option<String>) -> Option<Seq<char>> {
    match text {
        Some(t) => Some(t@),
        None => None,
    }
}

impl View for Args {
    type V = ArgsModel;

    open spec fn view(&self) -> ArgsModel {
        match self {
            Args::List { dir } => ArgsModel::List { dir: text_in(*dir) },
            Args::Info { dir, session_id } => ArgsModel::Info {
                dir: text_in(*dir),
                session_id: *session_id,
            },
            Args::Dump { dir, session_id } => ArgsModel::Dump {
                dir: text_in(*dir),
                session_id: *session_id,
            },
            Args::Play { dir, session_id, speed } => ArgsModel::Play {
                dir: text_in(*dir),
                session_id: *session_id,
                speed: *speed,
            },
            Args::Help => ArgsModel::Help,
        }
    }
}

/// Whether a word asks for help.
pub open spec fn asks_for_help(word: Seq<char>) -> bool {
    word == "-h"@ || word == "--help"@
}

/// The parts of a command line.
pub enum Parts {
    Help,
    /// The last word is `--dir`.
    MissingDir,
    Parsed { dir: Option<Seq<char>>, positional: Seq<Seq<char>> },
}

/// The parts of a command line, read from the left after the parts given. The last
/// directory counts.
pub open spec fn parts_of(
    words: Seq<Seq<char>>,
    dir: Option<Seq<char>>,
    positional: Seq<Seq<char>>,
) -> Parts
    decreases words.len(),
{
    if words.len() == 0 {
        Parts::Parsed { dir, positional }
    } else if words[0] == "--dir"@ {
        if words.len() == 1 {
            Parts::MissingDir
        } else {
            parts_of(words.skip(2), Some(words[1]), positional)
        }
    } else if asks_for_help(words[0]) {
        Parts::Help
    } else {
        parts_of(words.skip(1), dir, positional.push(words[0]))
    }
}

/// The session that a command names, or the complaint about it.
pub open spec fn session_of(positional: Seq<Seq<char>>) -> Result<u64, Seq<char>> {
    if positional.len() < 2 {
        Err(positional[0] + " requires <session_id>"@)
    } else {
        match number_in(positional[1]) {
            Ok(n) => Ok(n as u64),
            Err(fault) => Err("invalid session_id: "@ + fault_words(fault)),
        }
    }
}

/// The speed that a command asks for.
pub open spec fn speed_of(positional: Seq<Seq<char>>) -> ReplaySpeed {
    if positional.len() >= 3 && positional[2] == "x10"@ {
        ReplaySpeed::X10
    } else if positional.len() >= 3 && positional[2] == "max"@ {
        ReplaySpeed::Max
    } else {
        ReplaySpeed::X1
    }
}

/// What a command asks for, or the complaint about it.
pub open spec fn command_of(dir: Option<Seq<char>>, positional: Seq<Seq<char>>) -> Result<
    ArgsModel,
    Seq<char>,
> {
    if positional.len() == 0 {
        Err("missing command (try `hedge-replay --help`)"@)
    } else if positional[0] == "list"@ {
        Ok(ArgsModel::List { dir })
    } else if positional[0] == "info"@ {
        match session_of(positional) {
            Ok(session_id) => Ok(ArgsModel::Info { dir, session_id }),
            Err(e) => Err(e),
        }
    } else if positional[0] == "dump"@ {
        match session_of(positional) {
            Ok(session_id) => Ok(ArgsModel::Dump { dir, session_id }),
            Err(e) => Err(e),
        }
    } else if positional[0] == "play"@ {
        match session_of(positional) {
            Ok(session_id) => Ok(
                ArgsModel::Play { dir, session_id, speed: speed_of(positional) },
            ),
            Err(e) => Err(e),
        }
    } else {
        Err("unknown command: "@ + positional[0])
    }
}

/// What a command line asks for, or the complaint about it.
pub open spec fn request_of(words: Seq<Seq<char>>) -> Result<ArgsModel, Seq<char>> {
    match parts_of(words, None, Seq::empty()) {
        Parts::Help => Ok(ArgsModel::Help),
        Parts::MissingDir => Err("--dir requires a value"@),
        Parts::Parsed { dir, positional } => command_of(dir, positional),
    }
}

/// Read the session that a command names.
fn parse_session(positional: &Vec<String>) -> (session: Result<u64, String>)
    requires
        positional@.len() >= 1,
    ensures
        match session {
            Ok(id) => session_of(texts(positional@)) == Ok::<u64, Seq<char>>(id),
            Err(e) => session_of(texts(positional@)) == Err::<u64, Seq<char>>(e@),
        },
{
    if positional.len() < 2 {
        return Err(join(positional[0].as_str(), " requires <session_id>"));
    }
    match parse_u64(positional[1].as_str()) {
        Ok(id) => Ok(id),
        Err(fault) => Err(join("invalid session_id: ", fault_text(fault))),
    }
}

/// Read the speed that a command asks for.
fn parse_speed(positional: &Vec<String>) -> (speed: ReplaySpeed)
    ensures
        speed == speed_of(texts(positional@)),
{
    if positional.len() >= 3 && same_text(positional[2].as_str(), "x10") {
        ReplaySpeed::X10
    } else if positional.len() >= 3 && same_text(positional[2].as_str(), "max") {
        ReplaySpeed::Max
    } else {
        ReplaySpeed::X1
    }
}

/// Read a command and its arguments.
fn parse_command(dir: Option<String>, positional: &Vec<String>) -> (args: Result<Args, String>)
    ensures
        match args {
            Ok(a) => command_of(text_in(dir), texts(positional@)) == Ok::<
                ArgsModel,
                Seq<char>,
            >(a@),
            Err(e) => command_of(text_in(dir), texts(positional@)) == Err::<
                ArgsModel,
                Seq<char>,
            >(e@),
        },
{
    if positional.len() == 0 {
        return Err(String::from_str("missing command (try `hedge-replay --help`)"));
    }
    let command = positional[0].as_str();
    assert(texts(positional@)[0] == command@);
    if same_text(command, "list") {
        Ok(Args::List { dir })
    } else if same_text(command, "info") {
        match parse_session(positional) {
            Ok(session_id) => Ok(Args::Info { dir, session_id }),
            Err(e) => Err(e),
        }
    } else if same_text(command, "dump") {
        match parse_session(positional) {
            Ok(session_id) => Ok(Args::Dump { dir, session_id }),
            Err(e) => Err(e),
        }
    } else if same_text(command, "play") {
        match parse_session(positional) {
            Ok(session_id) => Ok(Args::Play { dir, session_id, speed: parse_speed(positional) }),
            Err(e) => Err(e),
        }
    } else {
        Err(join("unknown command: ", command))
    }
}

/// Read the command line of the inspection tool, without the program's name.
pub fn parse_args(argv: &Vec<String>) -> (args: Result<Args, String>)
    ensures
        match args {
            Ok(a) => request_of(texts(argv@)) == Ok::<ArgsModel, Seq<char>>(a@),
            Err(e) => request_of(texts(argv@)) == Err::<ArgsModel, Seq<char>>(e@),
        },
{
    let ghost words = texts(argv@);
    let mut dir: Option<String> = None;
    let mut positional: Vec<String> = Vec::new();
    let mut i: usize = 0;
    assert(words.skip(0) =~= words);
    assert(texts(positional@) =~= Seq::empty());
    while i < argv.len()
        invariant
            i <= argv@.len(),
            words == texts(argv@),
            parts_of(words, None, Seq::empty()) == parts_of(
                words.skip(i as int),
                text_in(dir),
                texts(positional@),
            ),
        decreases argv@.len() - i,
    {
        let word = argv[i].as_str();
        assert(words.skip(i as int)[0] == word@);
        if same_text(word, "--dir") {
            if i + 1 >= argv.len() {
                return Err(String::from_str("--dir requires a value"));
            }
            assert(words.skip(i as int)[1] == argv@[i + 1]@);
            assert(words.skip(i as int).skip(2) =~= words.skip(i + 2));
            dir = Some(String::from_str(argv[i + 1].as_str()));
            i = i + 2;
        } else if same_text(word, "-h") || same_text(word, "--help") {
            return Ok(Args::Help);
        } else {
            assert(words.skip(i as int).skip(1) =~= words.skip(i + 1));
            let ghost before = texts(positional@);
            positional.push(String::from_str(word));
            assert(texts(positional@) =~= before.push(word@));
            i = i + 1;
        }
    }
    assert(words.skip(i as int).len() == 0);
    parse_command(dir, &positional)
}

/// What a tool with three flags is asked: a path, a session and one more number.
#[derive(Clone, Debug, PartialEq, Eq)]
pub struct Flags {
    pub path: String,
    pub session_id: u64,
    pub number: u64,
}

/// What the flags say.
pub struct FlagsModel {
    pub path: Seq<char>,
    pub session_id: u64,
    pub number: u64,
}

impl View for Flags {
    type V = FlagsModel;

    open spec fn view(&self) -> FlagsModel {
        FlagsModel { path: self.path@, session_id: self.session_id, number: self.number }
    }
}

/// What a command line of flags asks for. `Ok(None)` asks for help. Words are read
/// from the left, the last value of a flag counts, and what `now` holds stands
/// where a flag is missing.
pub open spec fn flags_in(
    words: Seq<Seq<char>>,
    path_flag: Seq<char>,
    number_flag: Seq<char>,
    now: FlagsModel,
) -> Result<Option<FlagsModel>, Seq<char>>
    decreases words.len(),
{
    if words.len() == 0 {
        Ok(Some(now))
    } else if words[0] == path_flag {
        if words.len() == 1 {
            Err(path_flag + " requires a value"@)
        } else {
            flags_in(
                words.skip(2),
                path_flag,
                number_flag,
                FlagsModel { path: words[1], ..now },
            )
        }
    } else if words[0] == "--session-id"@ || words[0] == number_flag {
        if words.len() == 1 {
            Err(words[0] + " requires a value"@)
        } else {
            match number_in(words[1]) {
                Err(fault) => Err("invalid "@ + words[0] + ": "@ + fault_words(fault)),
                Ok(n) => flags_in(
                    words.skip(2),
                    path_flag,
                    number_flag,
                    if words[0] == "--session-id"@ {
                        FlagsModel { session_id: n as u64, ..now }
                    } else {
                        FlagsModel { number: n as u64, ..now }
                    },
                ),
            }
        }
    } else if asks_for_help(words[0]) {
        Ok(None)
    } else {
        Err("unknown argument: "@ + words[0])
    }
}

/// What was read of flags.
pub open spec fn flags_read(flags: Result<Option<Flags>, String>) -> Result<
    Option<FlagsModel>,
    Seq<char>,
> {
    match flags {
        Ok(Some(f)) => Ok(Some(f@)),
        Ok(None) => Ok(None),
        Err(e) => Err(e@),
    }
}

/// Read a command line of flags.
fn parse_flags(
    argv: &Vec<String>,
    path_flag: &str,
    number_flag: &str,
    defaults: Flags,
) -> (flags: Result<Option<Flags>, String>)
    ensures
        flags_read(flags) == flags_in(texts(argv@), path_flag@, number_flag@, defaults@),
{
    let ghost words = texts(argv@);
    let mut now = defaults;
    let mut i: usize = 0;
    assert(words.skip(0) =~= words);
    while i < argv.len()
        invariant
            i <= argv@.len(),
            words == texts(argv@),
            flags_in(words, path_flag@, number_flag@, defaults@) == flags_in(
                words.skip(i as int),
                path_flag@,
                number_flag@,
                now@,
            ),
        decreases argv@.len() - i,
    {
        let word = argv[i].as_str();
        assert(words.skip(i as int)[0] == word@);
        if same_text(word, path_flag) {
            if i + 1 >= argv.len() {
                return Err(join(path_flag, " requires a value"));
            }
            assert(words.skip(i as int)[1] == argv@[i + 1]@);
            assert(words.skip(i as int).skip(2) =~= words.skip(i + 2));
            now.path = String::from_str(argv[i + 1].as_str());
            i = i + 2;
        } else if same_text(word, "--session-id") || same_text(word, number_flag) {
            if i + 1 >= argv.len() {
                return Err(join(word, " requires a value"));
            }
            assert(words.skip(i as int)[1] == argv@[i + 1]@);
            assert(words.skip(i as int).skip(2) =~= words.skip(i + 2));
            match parse_u64(argv[i + 1].as_str()) {
                Err(fault) => {
                    let mut e = join("invalid ", word);
                    e.append(": ");
                    e.append(fault_text(fault));
                    return Err(e);
                },
                Ok(n) => {
                    if same_text(word, "--session-id") {
                        now.session_id = n;
                    } else {
                        now.number = n;
                    }
                },
            }
            i = i + 2;
        } else if same_text(word, "-h") || same_text(word, "--help") {
            return Ok(None);
        } else {
            return Err(join("unknown argument: ", word));
        }
    }
    assert(words.skip(i as int).len() == 0);
    Ok(Some(now))
}

/// Read the command line of the tool that writes the canonical session: where to,
/// which session, and how many records.
pub fn parse_canonical_args(argv: &Vec<String>) -> (flags: Result<Option<Flags>, String>)
    ensures
        flags_read(flags) == flags_in(
            texts(argv@),
            "--out"@,
            "--records"@,
            FlagsModel {
                path: DEFAULT_DIR@,
                session_id: DEFAULT_SESSION_ID,
                number: DEFAULT_RECORD_COUNT,
            },
        ),
{
    let defaults = Flags {
        path: String::from_str(DEFAULT_DIR),
        session_id: DEFAULT_SESSION_ID,
        number: DEFAULT_RECORD_COUNT,
    };
    parse_flags(argv, "--out", "--records", defaults)
}

/// Read the command line of the regression tool: where the sessions lie, which
/// session, and the seed.
pub fn parse_regression_args(argv: &Vec<String>) -> (flags: Result<Option<Flags>, String>)
    ensures
        flags_read(flags) == flags_in(
            texts(argv@),
            "--dir"@,
            "--seed"@,
            FlagsModel {
                path: DEFAULT_DIR@,
                session_id: DEFAULT_SESSION_ID,
                number: DEFAULT_SEED,
            },
        ),
{
    let defaults = Flags {
        path: String::from_str(DEFAULT_DIR),
        session_id: DEFAULT_SESSION_ID,
        number: DEFAULT_SEED,
    };
    parse_flags(argv, "--dir", "--seed", defaults)
}

} // verus!
