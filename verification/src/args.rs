//! The settings that a run is started with.

use vstd::prelude::*;
use vstd::string::StringExecFns;

verus! {

/// How much of the diagnostics is reported.
#[derive(Clone, Copy, Debug, PartialEq, Eq, Structural)]
pub enum LogLevel {
    Off,
    Error,
    Warn,
    Info,
    Debug,
}

/// The settings of one run.
pub struct Args {
    /// The level from which diagnostics are reported.
    pub log_level: LogLevel,
    /// Where the mapping table is read from, if anywhere.
    pub config_path: Option<String>,
    /// Whether runs of equal neighbouring glyphs are collapsed in a label.
    pub deduplicate: bool,
}

/// The characters of a path that may be absent.
pub open spec fn path_view(path: Option<String>) -> Option<Seq<char>> {
    match path {
        Some(path) => Some(path@),
        None => None,
    }
}

/// The mathematical value of [`Args`].
pub struct ArgsView {
    pub log_level: LogLevel,
    pub config_path: Option<Seq<char>>,
    pub deduplicate: bool,
}

impl View for Args {
    type V = ArgsView;

    open spec fn view(&self) -> ArgsView {
        ArgsView {
            log_level: self.log_level,
            config_path: path_view(self.config_path),
            deduplicate: self.deduplicate,
        }
    }
}

/// Why a command line is turned down.
pub enum CliError {
    /// The log-level flag stands last, without a level behind it.
    MissingLogLevel,
    /// The word behind the log-level flag names no level.
    InvalidLogLevel(String),
    /// The config flag stands last, without a path behind it.
    MissingConfigPath,
    /// The word is no option of the program.
    UnknownOption(String),
}

/// The mathematical value of a [`CliError`].
pub enum CliErrorView {
    MissingLogLevel,
    InvalidLogLevel(Seq<char>),
    MissingConfigPath,
    UnknownOption(Seq<char>),
}

impl View for CliError {
    type V = CliErrorView;

    open spec fn view(&self) -> CliErrorView {
        match self {
            CliError::MissingLogLevel => CliErrorView::MissingLogLevel,
            CliError::InvalidLogLevel(word) => CliErrorView::InvalidLogLevel(word@),
            CliError::MissingConfigPath => CliErrorView::MissingConfigPath,
            CliError::UnknownOption(word) => CliErrorView::UnknownOption(word@),
        }
    }
}

/// What a command line asks for.
pub enum Invocation {
    /// Run with these settings.
    Run(Args),
    /// Show the description of the program and leave.
    Help,
    /// Show the version and leave.
    Version,
    /// Nothing that can be done: the command line is in error.
    Invalid(CliError),
}

/// The mathematical value of an [`Invocation`].
pub enum InvocationView {
    Run(ArgsView),
    Help,
    Version,
    Invalid(CliErrorView),
}

impl View for Invocation {
    type V = InvocationView;

    open spec fn view(&self) -> InvocationView {
        match self {
            Invocation::Run(args) => InvocationView::Run(args@),
            Invocation::Help => InvocationView::Help,
            Invocation::Version => InvocationView::Version,
            Invocation::Invalid(error) => InvocationView::Invalid(error@),
        }
    }
}

/// A command line, read.
///
/// Reading stops at the first word that ends it: a help or version flag, or
/// an error. `config_paths` holds the operand of every config flag met up to
/// there, in order. Reading takes each of them for an existing file; whoever
/// acts on `invocation` has to look first, and to turn the command line down
/// at the first path that is none.
pub struct Parsed {
    pub invocation: Invocation,
    pub config_paths: Vec<String>,
}

/// The mathematical value of [`Parsed`].
pub struct ParsedView {
    pub invocation: InvocationView,
    pub config_paths: Seq<Seq<char>>,
}

impl View for Parsed {
    type V = ParsedView;

    open spec fn view(&self) -> ParsedView {
        ParsedView { invocation: self.invocation@, config_paths: self.config_paths.deep_view() }
    }
}

/// The level that a word names, if it names one.
pub open spec fn level_named(word: Seq<char>) -> Option<LogLevel> {
    if word == "error"@ {
        Some(LogLevel::Error)
    } else if word == "warn"@ {
        Some(LogLevel::Warn)
    } else if word == "info"@ {
        Some(LogLevel::Info)
    } else if word == "debug"@ {
        Some(LogLevel::Debug)
    } else if word == "off"@ {
        Some(LogLevel::Off)
    } else {
        None
    }
}

/// The settings of a run that is started without any flag.
pub open spec fn default_args(default_config_path: Option<Seq<char>>) -> ArgsView {
    ArgsView { log_level: LogLevel::Warn, config_path: default_config_path, deduplicate: false }
}

/// What the words of `argv` from position `at` on make of the settings
/// `so_far` and the config paths `paths` gathered before them.
pub open spec fn read_from(
    argv: Seq<Seq<char>>,
    at: int,
    so_far: ArgsView,
    paths: Seq<Seq<char>>,
) -> ParsedView
    decreases argv.len() - at,
{
    if at < 0 || at >= argv.len() {
        ParsedView { invocation: InvocationView::Run(so_far), config_paths: paths }
    } else {
        let word = argv[at];
        if word == "-h"@ || word == "--help"@ {
            ParsedView { invocation: InvocationView::Help, config_paths: paths }
        } else if word == "-v"@ || word == "--version"@ {
            ParsedView { invocation: InvocationView::Version, config_paths: paths }
        } else if word == "-l"@ || word == "--log-level"@ {
            if at + 1 >= argv.len() {
                ParsedView {
                    invocation: InvocationView::Invalid(CliErrorView::MissingLogLevel),
                    config_paths: paths,
                }
            } else {
                match level_named(argv[at + 1]) {
                    Some(level) => read_from(
                        argv,
                        at + 2,
                        ArgsView {
                            log_level: level,
                            config_path: so_far.config_path,
                            deduplicate: so_far.deduplicate,
                        },
                        paths,
                    ),
                    None => ParsedView {
                        invocation: InvocationView::Invalid(
                            CliErrorView::InvalidLogLevel(argv[at + 1]),
                        ),
                        config_paths: paths,
                    },
                }
            }
        } else if word == "-c"@ || word == "--config"@ {
            if at + 1 >= argv.len() {
                ParsedView {
                    invocation: InvocationView::Invalid(CliErrorView::MissingConfigPath),
                    config_paths: paths,
                }
            } else {
                read_from(
                    argv,
                    at + 2,
                    ArgsView {
                        log_level: so_far.log_level,
                        config_path: Some(argv[at + 1]),
                        deduplicate: so_far.deduplicate,
                    },
                    paths.push(argv[at + 1]),
                )
            }
        } else if word == "-d"@ || word == "--deduplicate"@ {
            read_from(
                argv,
                at + 1,
                ArgsView {
                    log_level: so_far.log_level,
                    config_path: so_far.config_path,
                    deduplicate: true,
                },
                paths,
            )
        } else {
            ParsedView {
                invocation: InvocationView::Invalid(CliErrorView::UnknownOption(word)),
                config_paths: paths,
            }
        }
    }
}

/// What a whole command line asks for.
pub open spec fn read(argv: Seq<Seq<char>>, default_config_path: Option<Seq<char>>) -> ParsedView {
    read_from(argv, 0, default_args(default_config_path), Seq::empty())
}

/// A command line without words runs with the default settings.
pub proof fn lemma_no_words_run_defaults(default_config_path: Option<Seq<char>>)
    ensures
        read(Seq::empty(), default_config_path) == (ParsedView {
            invocation: InvocationView::Run(default_args(default_config_path)),
            config_paths: Seq::empty(),
        }),
{
}

fn is_word(arg: &String, word: &str) -> (same: bool)
    ensures
        same == (arg@ == word@),
{
    let word = String::from_str(word);
    *arg == word
}

/// The level that `word` names, if it names one.
pub fn parse_level(word: &String) -> (level: Option<LogLevel>)
    ensures
        level == level_named(word@),
{
    if is_word(word, "error") {
        Some(LogLevel::Error)
    } else if is_word(word, "warn") {
        Some(LogLevel::Warn)
    } else if is_word(word, "info") {
        Some(LogLevel::Info)
    } else if is_word(word, "debug") {
        Some(LogLevel::Debug)
    } else if is_word(word, "off") {
        Some(LogLevel::Off)
    } else {
        None
    }
}

impl Args {
    /// Reads the words of a command line, the program's own name left out.
    ///
    /// The words are read from left to right, each flag overriding what was
    /// set before it, and reading stops at the first word that asks for help
    /// or the version or is in error. `default_config_path` is the path that
    /// stands where no config flag is given.
    pub fn from_cli(argv: &Vec<String>, default_config_path: Option<String>) -> (parsed: Parsed)
        ensures
            parsed@ == read(argv.deep_view(), path_view(default_config_path)),
    {
        let ghost whole = read(argv.deep_view(), path_view(default_config_path));
        let mut args = Args {
            log_level: LogLevel::Warn,
            config_path: default_config_path,
            deduplicate: false,
        };
        let mut paths: Vec<String> = Vec::new();
        let mut i: usize = 0;
        assert(paths.deep_view() == Seq::<Seq<char>>::empty());
        while i < argv.len()
            invariant
                i <= argv.len(),
                whole == read(argv.deep_view(), path_view(default_config_path)),
                whole == read_from(argv.deep_view(), i as int, args@, paths.deep_view()),
            decreases argv.len() - i,
        {
            let word = &argv[i];
            let ghost old_paths = paths.deep_view();
            assert(argv.deep_view()[i as int] == word@);
            if is_word(word, "-h") || is_word(word, "--help") {
                return Parsed { invocation: Invocation::Help, config_paths: paths };
            } else if is_word(word, "-v") || is_word(word, "--version") {
                return Parsed { invocation: Invocation::Version, config_paths: paths };
            } else if is_word(word, "-l") || is_word(word, "--log-level") {
                if i + 1 >= argv.len() {
                    return Parsed {
                        invocation: Invocation::Invalid(CliError::MissingLogLevel),
                        config_paths: paths,
                    };
                }
                let operand = &argv[i + 1];
                assert(argv.deep_view()[i + 1] == operand@);
                match parse_level(operand) {
                    Some(level) => {
                        args.log_level = level;
                    },
                    None => {
                        return Parsed {
                            invocation: Invocation::Invalid(
                                CliError::InvalidLogLevel(operand.clone()),
                            ),
                            config_paths: paths,
                        };
                    },
                }
                i += 2;
            } else if is_word(word, "-c") || is_word(word, "--config") {
                if i + 1 >= argv.len() {
                    return Parsed {
                        invocation: Invocation::Invalid(CliError::MissingConfigPath),
                        config_paths: paths,
                    };
                }
                let operand = &argv[i + 1];
                assert(argv.deep_view()[i + 1] == operand@);
                args.config_path = Some(operand.clone());
                paths.push(operand.clone());
                assert(paths.deep_view() == old_paths.push(operand@));
                i += 2;
            } else if is_word(word, "-d") || is_word(word, "--deduplicate") {
                args.deduplicate = true;
                i += 1;
            } else {
                return Parsed {
                    invocation: Invocation::Invalid(CliError::UnknownOption(word.clone())),
                    config_paths: paths,
                };
            }
        }
        Parsed { invocation: Invocation::Run(args), config_paths: paths }
    }
}

} // verus!
