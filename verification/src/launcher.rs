//! What the command line asks for, and how the launched command is called.

use vstd::prelude::*;
use vstd::string::*;

use crate::json::{json_of, json_text};
use crate::keys::{KeySource, SourceModel};
use crate::text::{option_view, same_text, string_views};

verus! {

/// What the program is told to do.
#[derive(Clone, Copy, Debug, PartialEq, Eq, Structural)]
pub enum Operation {
    /// Run Codex behind a proxy.
    Launch,
    /// Make a proxy ready and tell its address.
    Url,
    /// Show the running proxies.
    List,
    /// Stop the proxy of a key.
    Stop,
    /// Stop the proxies that are not in use.
    Prune,
    /// Keep a key under a user's name.
    Register,
    /// Forget a user's key.
    Unregister,
    /// Seal the keys that are kept in the clear.
    EncryptKeys,
    /// Export a key to a shell.
    Env,
}

/// The operation that a word stands for.
pub open spec fn operation_of(word: Seq<char>) -> Option<Operation> {
    if word == "launch"@ {
        Some(Operation::Launch)
    } else if word == "url"@ {
        Some(Operation::Url)
    } else if word == "list"@ {
        Some(Operation::List)
    } else if word == "stop"@ {
        Some(Operation::Stop)
    } else if word == "prune"@ {
        Some(Operation::Prune)
    } else if word == "register"@ {
        Some(Operation::Register)
    } else if word == "unregister"@ {
        Some(Operation::Unregister)
    } else if word == "encrypt-keys"@ {
        Some(Operation::EncryptKeys)
    } else if word == "env"@ {
        Some(Operation::Env)
    } else {
        None
    }
}

fn read_operation(word: &str) -> (r: Option<Operation>)
    ensures
        r == operation_of(word@),
{
    if same_text(word, "launch") {
        Some(Operation::Launch)
    } else if same_text(word, "url") {
        Some(Operation::Url)
    } else if same_text(word, "list") {
        Some(Operation::List)
    } else if same_text(word, "stop") {
        Some(Operation::Stop)
    } else if same_text(word, "prune") {
        Some(Operation::Prune)
    } else if same_text(word, "register") {
        Some(Operation::Register)
    } else if same_text(word, "unregister") {
        Some(Operation::Unregister)
    } else if same_text(word, "encrypt-keys") {
        Some(Operation::EncryptKeys)
    } else if same_text(word, "env") {
        Some(Operation::Env)
    } else {
        None
    }
}

/// An option of the launcher.
#[derive(Clone, Copy, Debug, PartialEq, Eq, Structural)]
pub enum LaunchOption {
    /// The configuration file.
    Config,
    /// The key is in a file.
    KeyFile,
    /// The key is in an environment variable.
    KeyEnv,
    /// The user types the key.
    AskKey,
    /// The key comes on standard input.
    KeyStdin,
    /// Do nothing, only show.
    DryRun,
    /// Register over an old key.
    Replace,
    /// The key is registered.
    User,
    /// What follows is for Codex.
    Rest,
}

/// The option that an argument is.
pub open spec fn option_of(argument: Seq<char>) -> Option<LaunchOption> {
    if argument == "--"@ {
        Some(LaunchOption::Rest)
    } else if argument == "--config"@ || argument == "-c"@ {
        Some(LaunchOption::Config)
    } else if argument == "--key-file"@ {
        Some(LaunchOption::KeyFile)
    } else if argument == "--key-env"@ {
        Some(LaunchOption::KeyEnv)
    } else if argument == "--ask-key"@ {
        Some(LaunchOption::AskKey)
    } else if argument == "--key-stdin"@ {
        Some(LaunchOption::KeyStdin)
    } else if argument == "--dry-run"@ {
        Some(LaunchOption::DryRun)
    } else if argument == "--replace"@ {
        Some(LaunchOption::Replace)
    } else if argument == "--user"@ || argument == "-u"@ {
        Some(LaunchOption::User)
    } else {
        None
    }
}

fn read_option(argument: &str) -> (r: Option<LaunchOption>)
    ensures
        r == option_of(argument@),
{
    if same_text(argument, "--") {
        Some(LaunchOption::Rest)
    } else if same_text(argument, "--config") || same_text(argument, "-c") {
        Some(LaunchOption::Config)
    } else if same_text(argument, "--key-file") {
        Some(LaunchOption::KeyFile)
    } else if same_text(argument, "--key-env") {
        Some(LaunchOption::KeyEnv)
    } else if same_text(argument, "--ask-key") {
        Some(LaunchOption::AskKey)
    } else if same_text(argument, "--key-stdin") {
        Some(LaunchOption::KeyStdin)
    } else if same_text(argument, "--dry-run") {
        Some(LaunchOption::DryRun)
    } else if same_text(argument, "--replace") {
        Some(LaunchOption::Replace)
    } else if same_text(argument, "--user") || same_text(argument, "-u") {
        Some(LaunchOption::User)
    } else {
        None
    }
}

/// Why a command line is not understood.
#[derive(Clone, Copy, Debug, PartialEq, Eq, Structural)]
pub enum LauncherError {
    /// The home directory is not known.
    NoHome,
    /// `register` comes without a user name.
    RegisterNeedsName,
    /// `unregister` comes without a user name.
    UnregisterNeedsName,
    /// The option for the configuration comes last.
    ConfigNeedsPath,
    /// There are two key sources.
    TwoSources,
    /// The option for a key comes last.
    KeyNeedsValue,
    /// There are two users.
    TwoUsers,
    /// The option for the user comes last.
    UserNeedsName,
    /// The argument with this number is no option.
    UnknownOption(usize),
    /// `--dry-run` does not go with the operation.
    DryRunMisplaced,
    /// `--replace` does not go with the operation.
    ReplaceMisplaced,
    /// `--user` does not go with the operation or with another key source.
    UserMisplaced,
    /// Codex is not run.
    CodexArgumentsMisplaced,
    /// The operation takes no key.
    KeyMisplaced,
}

impl LauncherError {
    /// What the error says about the arguments.
    pub open spec fn text(self, arguments: Seq<Seq<char>>) -> Seq<char> {
        match self {
            LauncherError::NoHome => "HOME is not set; use --config PATH"@,
            LauncherError::RegisterNeedsName => "register requires a user name"@,
            LauncherError::UnregisterNeedsName => "unregister requires a user name"@,
            LauncherError::ConfigNeedsPath => "--config requires a path"@,
            LauncherError::TwoSources => "choose only one key source"@,
            LauncherError::KeyNeedsValue => "key option needs a value"@,
            LauncherError::TwoUsers => "choose only one user"@,
            LauncherError::UserNeedsName => "--user requires a name"@,
            LauncherError::UnknownOption(i) => "unknown launcher option: "@ + arguments[i as int],
            LauncherError::DryRunMisplaced => "--dry-run is only valid for prune"@,
            LauncherError::ReplaceMisplaced => "--replace is only valid for register"@,
            LauncherError::UserMisplaced =>
                "--user is a key source for launch/url/stop; do not combine it with other key sources"@,
            LauncherError::CodexArgumentsMisplaced =>
                "Codex arguments are only valid for launch"@,
            LauncherError::KeyMisplaced => "list/prune do not accept a key"@,
        }
    }

    /// What the error says about the arguments.
    pub fn message(&self, arguments: &[String]) -> (r: String)
        requires
            self matches LauncherError::UnknownOption(i) ==> i < arguments@.len(),
        ensures
            r@ == self.text(string_views(arguments@)),
    {
        let text = match self {
            LauncherError::NoHome => "HOME is not set; use --config PATH",
            LauncherError::RegisterNeedsName => "register requires a user name",
            LauncherError::UnregisterNeedsName => "unregister requires a user name",
            LauncherError::ConfigNeedsPath => "--config requires a path",
            LauncherError::TwoSources => "choose only one key source",
            LauncherError::KeyNeedsValue => "key option needs a value",
            LauncherError::TwoUsers => "choose only one user",
            LauncherError::UserNeedsName => "--user requires a name",
            LauncherError::UnknownOption(i) => {
                let mut r = "unknown launcher option: ".to_owned();
                r.append(arguments[*i].as_str());
                return r;
            },
            LauncherError::DryRunMisplaced => "--dry-run is only valid for prune",
            LauncherError::ReplaceMisplaced => "--replace is only valid for register",
            LauncherError::UserMisplaced =>
                "--user is a key source for launch/url/stop; do not combine it with other key sources",
            LauncherError::CodexArgumentsMisplaced => "Codex arguments are only valid for launch",
            LauncherError::KeyMisplaced => "list/prune do not accept a key",
        };
        text.to_owned()
    }
}

/// What the options say.
pub struct Choices {
    /// The configuration file.
    pub config: Option<Seq<char>>,
    /// Where the key is.
    pub source: Option<SourceModel>,
    /// Do nothing, only show.
    pub dry_run: bool,
    /// Register over an old key.
    pub replace: bool,
    /// Whose key it is.
    pub user: Option<Seq<char>>,
    /// What is for Codex, if anything is set apart.
    pub rest: Option<Seq<Seq<char>>>,
}

/// No choice at all.
pub open spec fn no_choices() -> Choices {
    Choices {
        config: None,
        source: None,
        dry_run: false,
        replace: false,
        user: None,
        rest: None,
    }
}

/// Whether a value follows an option.
pub open spec fn takes_value(option: LaunchOption) -> bool {
    match option {
        LaunchOption::Config | LaunchOption::KeyFile | LaunchOption::KeyEnv | LaunchOption::User =>
            true,
        _ => false,
    }
}

/// Whether an option says where the key is.
pub open spec fn tells_source(option: LaunchOption) -> bool {
    match option {
        LaunchOption::KeyFile | LaunchOption::KeyEnv | LaunchOption::AskKey
        | LaunchOption::KeyStdin => true,
        _ => false,
    }
}

/// What is wrong with an option, if anything is.
pub open spec fn option_fault(option: LaunchOption, has_value: bool, choices: Choices) -> Option<
    LauncherError,
> {
    if tells_source(option) && choices.source is Some {
        Some(LauncherError::TwoSources)
    } else if option == LaunchOption::User && choices.user is Some {
        Some(LauncherError::TwoUsers)
    } else if takes_value(option) && !has_value {
        Some(
            match option {
                LaunchOption::Config => LauncherError::ConfigNeedsPath,
                LaunchOption::User => LauncherError::UserNeedsName,
                _ => LauncherError::KeyNeedsValue,
            },
        )
    } else {
        None
    }
}

/// The choices with one more option.
pub open spec fn with_option(option: LaunchOption, value: Seq<char>, choices: Choices) -> Choices {
    match option {
        LaunchOption::Config => Choices { config: Some(value), ..choices },
        LaunchOption::KeyFile => Choices { source: Some(SourceModel::File(value)), ..choices },
        LaunchOption::KeyEnv => Choices { source: Some(SourceModel::Variable(value)), ..choices },
        LaunchOption::AskKey => Choices { source: Some(SourceModel::Ask), ..choices },
        LaunchOption::KeyStdin => Choices { source: Some(SourceModel::Stdin), ..choices },
        LaunchOption::DryRun => Choices { dry_run: true, ..choices },
        LaunchOption::Replace => Choices { replace: true, ..choices },
        LaunchOption::User => Choices { user: Some(value), ..choices },
        LaunchOption::Rest => choices,
    }
}

/// How many arguments an option takes up.
pub open spec fn width(option: LaunchOption) -> nat {
    if takes_value(option) {
        2
    } else {
        1
    }
}

/// What the arguments from number `from` on add to `choices`. What follows two
/// dashes is for Codex.
pub open spec fn choices_of(arguments: Seq<Seq<char>>, from: nat, choices: Choices) -> Result<
    Choices,
    LauncherError,
>
    decreases arguments.len() - from,
{
    if from >= arguments.len() {
        Ok(choices)
    } else {
        match option_of(arguments[from as int]) {
            None => Err(LauncherError::UnknownOption(from as usize)),
            Some(LaunchOption::Rest) => Ok(
                Choices { rest: Some(arguments.skip(from + 1int)), ..choices },
            ),
            Some(option) => match option_fault(option, from + 1 < arguments.len(), choices) {
                Some(fault) => Err(fault),
                None => choices_of(
                    arguments,
                    from + width(option),
                    with_option(option, arguments[from + 1int], choices),
                ),
            },
        }
    }
}

/// Whose key is used.
#[derive(Debug)]
pub enum KeyChoice {
    /// The one that a user registered.
    Registered(String),
    /// The one that a source gives, or else the account-wide one.
    Given(Option<KeySource>),
}

/// Whose key is used, as characters.
pub enum KeyChoiceModel {
    /// The one that a user registered.
    Registered(Seq<char>),
    /// The one that a source gives, or else the account-wide one.
    Given(Option<SourceModel>),
}

/// A key source, if there is one, as characters.
pub open spec fn source_view(source: Option<KeySource>) -> Option<SourceModel> {
    match source {
        Some(s) => Some(s@),
        None => None,
    }
}

impl View for KeyChoice {
    type V = KeyChoiceModel;

    open spec fn view(&self) -> KeyChoiceModel {
        match self {
            KeyChoice::Registered(name) => KeyChoiceModel::Registered(name@),
            KeyChoice::Given(source) => KeyChoiceModel::Given(source_view(*source)),
        }
    }
}

/// What is to be done.
#[derive(Debug)]
pub enum Plan {
    /// Nothing of the launcher: the proxy runs by itself.
    Standalone,
    /// Run Codex behind a proxy. Without a configuration it is the default one.
    Launch {
        /// The configuration file.
        config: Option<String>,
        /// Whose key is used.
        key: KeyChoice,
        /// What is handed to Codex.
        codex_args: Vec<String>,
    },
    /// Make a proxy ready and tell its address.
    Url {
        /// The configuration file.
        config: Option<String>,
        /// Whose key is used.
        key: KeyChoice,
    },
    /// Stop the proxy of a key.
    Stop {
        /// The configuration file.
        config: Option<String>,
        /// Whose key is used.
        key: KeyChoice,
    },
    /// Show the running proxies.
    List,
    /// Stop the proxies that are not in use.
    Prune {
        /// Do nothing, only show.
        dry_run: bool,
    },
    /// Keep a key under a user's name.
    Register {
        /// The user.
        name: String,
        /// Where the key is.
        source: Option<KeySource>,
        /// Register over an old key.
        replace: bool,
    },
    /// Forget a user's key.
    Unregister {
        /// The user.
        name: String,
    },
    /// Seal the keys that are kept in the clear.
    EncryptKeys,
    /// Export a key to a shell.
    Env {
        /// The further arguments.
        arguments: Vec<String>,
    },
}

/// What is to be done, as characters.
pub enum PlanModel {
    /// Nothing of the launcher.
    Standalone,
    /// Run Codex behind a proxy.
    Launch {
        /// The configuration file.
        config: Option<Seq<char>>,
        /// Whose key is used.
        key: KeyChoiceModel,
        /// What is handed to Codex.
        codex_args: Seq<Seq<char>>,
    },
    /// Make a proxy ready and tell its address.
    Url {
        /// The configuration file.
        config: Option<Seq<char>>,
        /// Whose key is used.
        key: KeyChoiceModel,
    },
    /// Stop the proxy of a key.
    Stop {
        /// The configuration file.
        config: Option<Seq<char>>,
        /// Whose key is used.
        key: KeyChoiceModel,
    },
    /// Show the running proxies.
    List,
    /// Stop the proxies that are not in use.
    Prune {
        /// Do nothing, only show.
        dry_run: bool,
    },
    /// Keep a key under a user's name.
    Register {
        /// The user.
        name: Seq<char>,
        /// Where the key is.
        source: Option<SourceModel>,
        /// Register over an old key.
        replace: bool,
    },
    /// Forget a user's key.
    Unregister {
        /// The user.
        name: Seq<char>,
    },
    /// Seal the keys that are kept in the clear.
    EncryptKeys,
    /// Export a key to a shell.
    Env {
        /// The further arguments.
        arguments: Seq<Seq<char>>,
    },
}

impl View for Plan {
    type V = PlanModel;

    open spec fn view(&self) -> PlanModel {
        match self {
            Plan::Standalone => PlanModel::Standalone,
            Plan::Launch { config, key, codex_args } => PlanModel::Launch {
                config: option_view(*config),
                key: key@,
                codex_args: string_views(codex_args@),
            },
            Plan::Url { config, key } => PlanModel::Url { config: option_view(*config), key: key@ },
            Plan::Stop { config, key } => PlanModel::Stop { config: option_view(*config), key: key@ },
            Plan::List => PlanModel::List,
            Plan::Prune { dry_run } => PlanModel::Prune { dry_run: *dry_run },
            Plan::Register { name, source, replace } => PlanModel::Register {
                name: name@,
                source: source_view(*source),
                replace: *replace,
            },
            Plan::Unregister { name } => PlanModel::Unregister { name: name@ },
            Plan::EncryptKeys => PlanModel::EncryptKeys,
            Plan::Env { arguments } => PlanModel::Env { arguments: string_views(arguments@) },
        }
    }
}

/// What is handed to Codex.
pub open spec fn codex_args_of(choices: Choices) -> Seq<Seq<char>> {
    match choices.rest {
        Some(rest) => rest,
        None => Seq::empty(),
    }
}

/// Whose key is used.
pub open spec fn key_choice_of(choices: Choices) -> KeyChoiceModel {
    match choices.user {
        Some(name) => KeyChoiceModel::Registered(name),
        None => KeyChoiceModel::Given(choices.source),
    }
}

/// What options that go with the operation make of it.
pub open spec fn chosen_plan(operation: Operation, name: Seq<char>, choices: Choices) -> Result<
    PlanModel,
    LauncherError,
> {
    if choices.dry_run && operation != Operation::Prune {
        Err(LauncherError::DryRunMisplaced)
    } else if choices.replace && operation != Operation::Register {
        Err(LauncherError::ReplaceMisplaced)
    } else if choices.user is Some && (choices.source is Some || operation == Operation::Register
        || operation == Operation::List || operation == Operation::Prune) {
        Err(LauncherError::UserMisplaced)
    } else if codex_args_of(choices).len() > 0 && operation != Operation::Launch {
        Err(LauncherError::CodexArgumentsMisplaced)
    } else {
        match operation {
            Operation::Register => Ok(
                PlanModel::Register { name, source: choices.source, replace: choices.replace },
            ),
            Operation::List => if choices.source is Some {
                Err(LauncherError::KeyMisplaced)
            } else {
                Ok(PlanModel::List)
            },
            Operation::Prune => if choices.source is Some {
                Err(LauncherError::KeyMisplaced)
            } else {
                Ok(PlanModel::Prune { dry_run: choices.dry_run })
            },
            Operation::Stop => Ok(
                PlanModel::Stop { config: choices.config, key: key_choice_of(choices) },
            ),
            Operation::Url => Ok(
                PlanModel::Url { config: choices.config, key: key_choice_of(choices) },
            ),
            _ => Ok(
                PlanModel::Launch {
                    config: choices.config,
                    key: key_choice_of(choices),
                    codex_args: codex_args_of(choices),
                },
            ),
        }
    }
}

/// What a command line asks for. Of several faults the one that stands first
/// here counts. Operations that take options work in the home directory: without
/// one none is planned, whatever configuration is named.
pub open spec fn plan_of(arguments: Seq<Seq<char>>, home_known: bool) -> Result<
    PlanModel,
    LauncherError,
> {
    let operation = if arguments.len() > 0 {
        operation_of(arguments[0])
    } else {
        None
    };
    match operation {
        None => Ok(PlanModel::Standalone),
        Some(Operation::Env) => Ok(PlanModel::Env { arguments: arguments.skip(1) }),
        Some(Operation::EncryptKeys) => if arguments.len() > 1 {
            Err(LauncherError::UnknownOption(1))
        } else {
            Ok(PlanModel::EncryptKeys)
        },
        Some(Operation::Unregister) => if arguments.len() < 2 {
            Err(LauncherError::UnregisterNeedsName)
        } else if arguments.len() > 2 {
            Err(LauncherError::UnknownOption(2))
        } else {
            Ok(PlanModel::Unregister { name: arguments[1] })
        },
        Some(Operation::Register) => if !home_known {
            Err(LauncherError::NoHome)
        } else if arguments.len() < 2 {
            Err(LauncherError::RegisterNeedsName)
        } else {
            match choices_of(arguments, 2, no_choices()) {
                Ok(choices) => chosen_plan(Operation::Register, arguments[1], choices),
                Err(e) => Err(e),
            }
        },
        Some(operation) => if !home_known {
            Err(LauncherError::NoHome)
        } else {
            match choices_of(arguments, 1, no_choices()) {
                Ok(choices) => chosen_plan(operation, Seq::empty(), choices),
                Err(e) => Err(e),
            }
        },
    }
}

struct Read {
    config: Option<String>,
    source: Option<KeySource>,
    dry_run: bool,
    replace: bool,
    user: Option<String>,
    rest: Option<Vec<String>>,
}

impl View for Read {
    type V = Choices;

    closed spec fn view(&self) -> Choices {
        Choices {
            config: option_view(self.config),
            source: source_view(self.source),
            dry_run: self.dry_run,
            replace: self.replace,
            user: option_view(self.user),
            rest: match self.rest {
                Some(rest) => Some(string_views(rest@)),
                None => None,
            },
        }
    }
}

fn copies_from(arguments: &[String], from: usize) -> (r: Vec<String>)
    requires
        from <= arguments@.len(),
    ensures
        string_views(r@) == string_views(arguments@).skip(from as int),
{
    let mut r: Vec<String> = Vec::new();
    let mut i: usize = from;
    while i < arguments.len()
        invariant
            from <= i <= arguments.len(),
            string_views(r@) == string_views(arguments@).subrange(from as int, i as int),
        decreases arguments.len() - i,
    {
        let ghost before = r@;
        r.push(arguments[i].clone());
        i = i + 1;
        proof {
            assert(string_views(r@) =~= string_views(before).push(arguments@[i - 1]@));
            assert(string_views(arguments@).subrange(from as int, i as int)
                =~= string_views(arguments@).subrange(from as int, i - 1).push(arguments@[i - 1]@));
        }
    }
    assert(string_views(arguments@).subrange(from as int, arguments.len() as int)
        =~= string_views(arguments@).skip(from as int));
    r
}

fn read_choices(arguments: &[String], from: usize) -> (r: Result<Read, LauncherError>)
    requires
        from <= arguments@.len(),
    ensures
        match r {
            Ok(read) => choices_of(string_views(arguments@), from as nat, no_choices()) == Ok::<
                Choices,
                LauncherError,
            >(read@),
            Err(e) => choices_of(string_views(arguments@), from as nat, no_choices()) == Err::<
                Choices,
                LauncherError,
            >(e),
        },
{
    let mut read = Read {
        config: None,
        source: None,
        dry_run: false,
        replace: false,
        user: None,
        rest: None,
    };
    let ghost all = string_views(arguments@);
    let ghost whole = choices_of(all, from as nat, no_choices());
    assert(read@ == no_choices());
    let mut i: usize = from;
    while i < arguments.len()
        invariant
            i <= arguments.len(),
            all == string_views(arguments@),
            whole == choices_of(all, from as nat, no_choices()),
            whole == choices_of(all, i as nat, read@),
        decreases arguments.len() - i,
    {
        assert(all[i as int] == arguments@[i as int]@);
        let option = match read_option(arguments[i].as_str()) {
            Some(option) => option,
            None => return Err(LauncherError::UnknownOption(i)),
        };
        let there = arguments.len() - i > 1;
        assert(there ==> all[i + 1] == arguments@[i + 1]@);
        match option {
            LaunchOption::Rest => {
                read.rest = Some(copies_from(arguments, i + 1));
                return Ok(read);
            },
            LaunchOption::Config => {
                if !there {
                    return Err(LauncherError::ConfigNeedsPath);
                }
                read.config = Some(arguments[i + 1].clone());
                i = i + 2;
            },
            LaunchOption::KeyFile | LaunchOption::KeyEnv => {
                if read.source.is_some() {
                    return Err(LauncherError::TwoSources);
                }
                if !there {
                    return Err(LauncherError::KeyNeedsValue);
                }
                let value = arguments[i + 1].clone();
                read.source = Some(
                    match option {
                        LaunchOption::KeyFile => KeySource::File(value),
                        _ => KeySource::Variable(value),
                    },
                );
                i = i + 2;
            },
            LaunchOption::AskKey | LaunchOption::KeyStdin => {
                if read.source.is_some() {
                    return Err(LauncherError::TwoSources);
                }
                read.source = Some(
                    match option {
                        LaunchOption::AskKey => KeySource::Ask,
                        _ => KeySource::Stdin,
                    },
                );
                i = i + 1;
            },
            LaunchOption::DryRun => {
                read.dry_run = true;
                i = i + 1;
            },
            LaunchOption::Replace => {
                read.replace = true;
                i = i + 1;
            },
            LaunchOption::User => {
                if read.user.is_some() {
                    return Err(LauncherError::TwoUsers);
                }
                if !there {
                    return Err(LauncherError::UserNeedsName);
                }
                read.user = Some(arguments[i + 1].clone());
                i = i + 2;
            },
        }
    }
    Ok(read)
}

fn key_choice(user: Option<String>, source: Option<KeySource>) -> (r: KeyChoice)
    ensures
        r@ == (match option_view(user) {
            Some(name) => KeyChoiceModel::Registered(name),
            None => KeyChoiceModel::Given(source_view(source)),
        }),
{
    match user {
        Some(name) => KeyChoice::Registered(name),
        None => KeyChoice::Given(source),
    }
}

fn choose_plan(operation: Operation, name: String, read: Read) -> (r: Result<Plan, LauncherError>)
    ensures
        match r {
            Ok(plan) => chosen_plan(operation, name@, read@) == Ok::<PlanModel, LauncherError>(
                plan@,
            ),
            Err(e) => chosen_plan(operation, name@, read@) == Err::<PlanModel, LauncherError>(e),
        },
{
    if read.dry_run && operation != Operation::Prune {
        return Err(LauncherError::DryRunMisplaced);
    }
    if read.replace && operation != Operation::Register {
        return Err(LauncherError::ReplaceMisplaced);
    }
    if read.user.is_some() && (read.source.is_some() || operation == Operation::Register
        || operation == Operation::List || operation == Operation::Prune) {
        return Err(LauncherError::UserMisplaced);
    }
    let codex_args = match read.rest {
        Some(rest) => rest,
        None => Vec::new(),
    };
    assert(string_views(codex_args@) =~= codex_args_of(read@));
    if codex_args.len() > 0 && operation != Operation::Launch {
        return Err(LauncherError::CodexArgumentsMisplaced);
    }
    match operation {
        Operation::Register => Ok(
            Plan::Register { name, source: read.source, replace: read.replace },
        ),
        Operation::List => if read.source.is_some() {
            Err(LauncherError::KeyMisplaced)
        } else {
            Ok(Plan::List)
        },
        Operation::Prune => if read.source.is_some() {
            Err(LauncherError::KeyMisplaced)
        } else {
            Ok(Plan::Prune { dry_run: read.dry_run })
        },
        Operation::Stop => Ok(
            Plan::Stop { config: read.config, key: key_choice(read.user, read.source) },
        ),
        Operation::Url => Ok(
            Plan::Url { config: read.config, key: key_choice(read.user, read.source) },
        ),
        _ => Ok(
            Plan::Launch {
                config: read.config,
                key: key_choice(read.user, read.source),
                codex_args,
            },
        ),
    }
}

/// Reads a command line, without the name of the program.
pub fn dispatch(arguments: &[String], home_known: bool) -> (r: Result<Plan, LauncherError>)
    ensures
        match r {
            Ok(plan) => plan_of(string_views(arguments@), home_known) == Ok::<
                PlanModel,
                LauncherError,
            >(plan@),
            Err(e) => plan_of(string_views(arguments@), home_known) == Err::<
                PlanModel,
                LauncherError,
            >(e),
        },
        r matches Err(LauncherError::UnknownOption(i)) ==> i < arguments@.len(),
{
    let ghost all = string_views(arguments@);
    if arguments.len() == 0 {
        return Ok(Plan::Standalone);
    }
    assert(all[0] == arguments@[0]@);
    let operation = match read_operation(arguments[0].as_str()) {
        Some(operation) => operation,
        None => return Ok(Plan::Standalone),
    };
    match operation {
        Operation::Env => return Ok(Plan::Env { arguments: copies_from(arguments, 1) }),
        Operation::EncryptKeys => {
            if arguments.len() > 1 {
                return Err(LauncherError::UnknownOption(1));
            }
            return Ok(Plan::EncryptKeys);
        },
        Operation::Unregister => {
            if arguments.len() < 2 {
                return Err(LauncherError::UnregisterNeedsName);
            }
            if arguments.len() > 2 {
                return Err(LauncherError::UnknownOption(2));
            }
            return Ok(Plan::Unregister { name: arguments[1].clone() });
        },
        _ => {},
    }
    if !home_known {
        return Err(LauncherError::NoHome);
    }
    if operation == Operation::Register {
        if arguments.len() < 2 {
            return Err(LauncherError::RegisterNeedsName);
        }
        proof {
            lemma_unknown_option_is_there(all, 2, no_choices());
        }
        let read = read_choices(arguments, 2)?;
        choose_plan(operation, arguments[1].clone(), read)
    } else {
        proof {
            lemma_unknown_option_is_there(all, 1, no_choices());
        }
        let read = read_choices(arguments, 1)?;
        let none = String::new();
        assert(none@ =~= Seq::<char>::empty());
        choose_plan(operation, none, read)
    }
}

proof fn lemma_unknown_option_is_there(arguments: Seq<Seq<char>>, from: nat, choices: Choices)
    requires
        arguments.len() <= usize::MAX,
    ensures
        choices_of(arguments, from, choices) matches Err(LauncherError::UnknownOption(i)) ==> i
            < arguments.len(),
    decreases arguments.len() - from,
{
    if from < arguments.len() {
        match option_of(arguments[from as int]) {
            None | Some(LaunchOption::Rest) => {},
            Some(option) => if option_fault(option, from + 1 < arguments.len(), choices) is None {
                lemma_unknown_option_is_there(
                    arguments,
                    from + width(option),
                    with_option(option, arguments[from + 1int], choices),
                );
            },
        }
    }
}

proof fn lemma_only_the_rest_counts(
    arguments: Seq<Seq<char>>,
    others: Seq<Seq<char>>,
    from: nat,
    choices: Choices,
)
    requires
        arguments.len() == others.len(),
        forall|i: int| from <= i < arguments.len() ==> arguments[i] == others[i],
    ensures
        choices_of(arguments, from, choices) == choices_of(others, from, choices),
    decreases arguments.len() - from,
{
    if from < arguments.len() {
        assert(arguments[from as int] == others[from as int]);
        match option_of(arguments[from as int]) {
            None => {},
            Some(LaunchOption::Rest) => {
                assert(arguments.skip(from + 1int) =~= others.skip(from + 1int));
            },
            Some(option) => {
                if option_fault(option, from + 1 < arguments.len(), choices) is None {
                    if from + 1 < arguments.len() {
                        assert(arguments[from + 1int] == others[from + 1int]);
                    }
                    let next = with_option(option, arguments[from + 1int], choices);
                    assert(next == with_option(option, others[from + 1int], choices));
                    lemma_only_the_rest_counts(arguments, others, from + width(option), next);
                }
            },
        }
    }
}

/// Whether argument number `at` is read as an option by whoever reads the
/// arguments from number `from` on.
pub open spec fn is_read_as_option(arguments: Seq<Seq<char>>, from: nat, at: nat) -> bool
    decreases at - from,
{
    if at >= arguments.len() || at < from {
        false
    } else if at == from {
        true
    } else {
        match option_of(arguments[from as int]) {
            None | Some(LaunchOption::Rest) => false,
            Some(option) => from + width(option) <= at && is_read_as_option(
                arguments,
                from + width(option),
                at,
            ),
        }
    }
}

proof fn lemma_user_options()
    ensures
        option_of("-u"@) == Some(LaunchOption::User),
        option_of("--user"@) == Some(LaunchOption::User),
{
    reveal_strlit("-u");
    reveal_strlit("--user");
    reveal_strlit("--");
    reveal_strlit("-c");
    reveal_strlit("--config");
    reveal_strlit("--key-file");
    reveal_strlit("--key-env");
    reveal_strlit("--ask-key");
    reveal_strlit("--key-stdin");
    reveal_strlit("--dry-run");
    reveal_strlit("--replace");
    assert("-u"@[1] != "--"@[1]);
    assert("-u"@[1] != "-c"@[1]);
    assert("--user"@.len() == 6 && "--"@.len() == 2 && "-c"@.len() == 2);
    assert("--config"@.len() == 8 && "--key-file"@.len() == 10 && "--key-env"@.len() == 9);
    assert("--ask-key"@.len() == 9 && "--key-stdin"@.len() == 11);
    assert("--dry-run"@.len() == 9 && "--replace"@.len() == 9);
}

proof fn lemma_short_user_option(
    arguments: Seq<Seq<char>>,
    from: nat,
    at: nat,
    choices: Choices,
)
    requires
        is_read_as_option(arguments, from, at),
        arguments[at as int] == "-u"@,
    ensures
        choices_of(arguments, from, choices) == choices_of(
            arguments.update(at as int, "--user"@),
            from,
            choices,
        ),
    decreases at - from,
{
    let others = arguments.update(at as int, "--user"@);
    lemma_user_options();
    if at == from {
        assert(others[from as int] == "--user"@);
        if from + 1 < arguments.len() {
            assert(arguments[from + 1int] == others[from + 1int]);
            lemma_only_the_rest_counts(
                arguments,
                others,
                from + 2,
                with_option(LaunchOption::User, arguments[from + 1int], choices),
            );
        }
    } else {
        assert(others[from as int] == arguments[from as int]);
        match option_of(arguments[from as int]) {
            None | Some(LaunchOption::Rest) => {},
            Some(option) => {
                if option_fault(option, from + 1 < arguments.len(), choices) is None {
                    if takes_value(option) {
                        assert(others[from + 1int] == arguments[from + 1int]);
                    }
                    let next = with_option(option, arguments[from + 1int], choices);
                    assert(next == with_option(option, others[from + 1int], choices));
                    lemma_short_user_option(arguments, from + width(option), at, next);
                }
            },
        }
    }
}

/// The number of the first argument that is an option, where an operation takes
/// any.
pub open spec fn first_option(operation: Operation) -> Option<nat> {
    match operation {
        Operation::Register => Some(2),
        Operation::Unregister | Operation::EncryptKeys | Operation::Env => None,
        _ => Some(1),
    }
}

/// The short and the long option for the user mean the same, wherever they
/// stand.
pub proof fn law_short_user_option(arguments: Seq<Seq<char>>, at: nat, home_known: bool)
    requires
        arguments.len() > 0,
        operation_of(arguments[0]) matches Some(operation) && (first_option(
            operation,
        ) matches Some(from) && is_read_as_option(arguments, from, at)),
        arguments[at as int] == "-u"@,
    ensures
        plan_of(arguments, home_known) == plan_of(
            arguments.update(at as int, "--user"@),
            home_known,
        ),
{
    let from = first_option(operation_of(arguments[0])->0)->0;
    let others = arguments.update(at as int, "--user"@);
    assert(from <= at < arguments.len());
    assert(others[0] == arguments[0]);
    if from == 2 {
        assert(others[1] == arguments[1]);
    }
    lemma_short_user_option(arguments, from, at, no_choices());
}

proof fn lemma_rest_is_not_read(
    head: Seq<Seq<char>>,
    rest: Seq<Seq<char>>,
    from: nat,
    choices: Choices,
)
    requires
        from <= head.len(),
        choices.rest is None,
        choices_of(head, from, choices) matches Ok(read) && read.rest is None,
    ensures
        choices_of(head + seq!["--"@] + rest, from, choices) == Ok::<Choices, LauncherError>(
            Choices { rest: Some(rest), ..choices_of(head, from, choices)->Ok_0 },
        ),
    decreases head.len() - from,
{
    let all = head + seq!["--"@] + rest;
    if from == head.len() {
        assert(all[from as int] == "--"@);
        assert(all.skip(from + 1int) =~= rest);
    } else {
        assert(all[from as int] == head[from as int]);
        match option_of(head[from as int]) {
            None | Some(LaunchOption::Rest) => {},
            Some(option) => {
                let next = with_option(option, head[from + 1int], choices);
                if from + 1 < head.len() {
                    assert(all[from + 1int] == head[from + 1int]);
                }
                assert(option_fault(option, from + 1 < head.len(), choices) is None);
                assert(next == with_option(option, all[from + 1int], choices));
                assert(next.rest is None);
                lemma_rest_is_not_read(head, rest, from + width(option), next);
            },
        }
    }
}

/// What stands behind two dashes goes to Codex as it is, whatever it is; the
/// options before it mean what they mean without it.
pub proof fn law_codex_arguments_pass_unread(head: Seq<Seq<char>>, rest: Seq<Seq<char>>)
    requires
        head.len() > 0,
        head[0] == "launch"@,
        choices_of(head, 1, no_choices()) matches Ok(read) && read.rest is None,
        plan_of(head, true) is Ok,
    ensures
        plan_of(head, true)->Ok_0 is Launch,
        plan_of(head + seq!["--"@] + rest, true) == Ok::<PlanModel, LauncherError>(
            PlanModel::Launch {
                config: plan_of(head, true)->Ok_0->Launch_config,
                key: plan_of(head, true)->Ok_0->Launch_key,
                codex_args: rest,
            },
        ),
{
    let all = head + seq!["--"@] + rest;
    assert(all[0] == head[0]);
    lemma_rest_is_not_read(head, rest, 1, no_choices());
}

/// A key comes from one place only: whoever names a user names no other source.
pub proof fn law_one_key_source(operation: Operation, name: Seq<char>, choices: Choices)
    ensures
        choices.user is Some && choices.source is Some ==> chosen_plan(operation, name, choices)
            is Err,
{
}

/// The variable that Codex finds the key in.
pub fn key_variable() -> (r: &'static str)
    ensures
        r@ == "CODEX_RATE_PROXY_API_KEY"@,
{
    "CODEX_RATE_PROXY_API_KEY"
}

/// A setting of the provider.
pub open spec fn provider_setting(provider: Seq<char>, setting: Seq<char>) -> Seq<char> {
    "model_providers."@ + provider + setting
}

/// What Codex is called with: the provider and the address of the proxy, no
/// retries of its own, and then the arguments of the user.
pub open spec fn codex_call(provider: Seq<char>, url: Seq<char>, codex_args: Seq<Seq<char>>) -> Seq<
    Seq<char>,
> {
    seq![
        "-c"@,
        "model_provider="@ + json_of(provider),
        "-c"@,
        provider_setting(provider, ".base_url="@) + json_of(url),
        "-c"@,
        provider_setting(provider, ".env_key=\"CODEX_RATE_PROXY_API_KEY\""@),
        "-c"@,
        provider_setting(provider, ".requires_openai_auth=false"@),
        "-c"@,
        provider_setting(provider, ".request_max_retries=0"@),
        "-c"@,
        provider_setting(provider, ".stream_max_retries=0"@),
        "-c"@,
        provider_setting(provider, ".supports_websockets=false"@),
    ] + codex_args
}

fn push_override(call: &mut Vec<String>, text: String)
    ensures
        string_views(final(call)@) == string_views(old(call)@).push("-c"@).push(text@),
{
    let ghost before = call@;
    call.push("-c".to_owned());
    call.push(text);
    assert(string_views(call@) =~= string_views(before).push("-c"@).push(text@));
}

fn about_provider(provider: &str, setting: &str) -> (r: String)
    ensures
        r@ == provider_setting(provider@, setting@),
{
    let mut r = "model_providers.".to_owned();
    r.append(provider);
    r.append(setting);
    r
}

/// Writes what Codex is called with.
pub fn codex_arguments(provider: &str, url: &str, codex_args: &[String]) -> (r: Vec<String>)
    ensures
        string_views(r@) == codex_call(provider@, url@, string_views(codex_args@)),
{
    let mut call: Vec<String> = Vec::new();
    let mut text = "model_provider=".to_owned();
    text.append(json_text(provider).unwrap().as_str());
    push_override(&mut call, text);
    let mut text = about_provider(provider, ".base_url=");
    text.append(json_text(url).unwrap().as_str());
    push_override(&mut call, text);
    push_override(
        &mut call,
        about_provider(provider, ".env_key=\"CODEX_RATE_PROXY_API_KEY\""),
    );
    push_override(&mut call, about_provider(provider, ".requires_openai_auth=false"));
    push_override(&mut call, about_provider(provider, ".request_max_retries=0"));
    push_override(&mut call, about_provider(provider, ".stream_max_retries=0"));
    push_override(&mut call, about_provider(provider, ".supports_websockets=false"));
    let ghost ours = string_views(call@);
    let ghost given = string_views(codex_args@);
    assert(ours =~= codex_call(provider@, url@, given).take(14));
    let mut i: usize = 0;
    assert(given.take(0) =~= Seq::empty());
    while i < codex_args.len()
        invariant
            i <= codex_args.len(),
            given == string_views(codex_args@),
            string_views(call@) == ours + given.take(i as int),
        decreases codex_args.len() - i,
    {
        let ghost before = call@;
        call.push(codex_args[i].clone());
        i = i + 1;
        proof {
            assert(string_views(call@) =~= string_views(before).push(given[i - 1]));
            assert(given.take(i as int) =~= given.take(i - 1).push(given[i - 1]));
            assert(string_views(call@) =~= ours + given.take(i as int));
        }
    }
    assert(given.take(codex_args.len() as int) =~= given);
    assert(string_views(call@) =~= codex_call(provider@, url@, given));
    call
}

/// What Codex reaches without a proxy: what was said before, and this machine.
pub open spec fn bypass_of(upper: Option<Seq<char>>, lower: Option<Seq<char>>) -> Seq<char> {
    let said = match upper {
        Some(text) => text,
        None => match lower {
            Some(text) => text,
            None => Seq::empty(),
        },
    };
    said + ",127.0.0.1,localhost"@
}

/// Says what Codex reaches without a proxy, given what `NO_PROXY` and
/// `no_proxy` say.
pub fn proxy_bypass(upper: Option<String>, lower: Option<String>) -> (r: String)
    ensures
        r@ == bypass_of(option_view(upper), option_view(lower)),
{
    let mut r = match upper {
        Some(text) => text,
        None => match lower {
            Some(text) => text,
            None => String::new(),
        },
    };
    assert(upper is None && lower is None ==> r@ =~= Seq::<char>::empty());
    r.append(",127.0.0.1,localhost");
    r
}

/// What the program exits with after Codex: its code, or 128 and the number of
/// the signal that ended it.
pub fn exit_code(code: Option<i32>, signal: Option<i32>) -> (r: i32)
    requires
        signal matches Some(n) ==> n <= i32::MAX - 128,
    ensures
        r == (match code {
            Some(c) => c as int,
            None => match signal {
                Some(n) => 128 + n,
                None => 129,
            },
        }),
{
    match code {
        Some(c) => c,
        None => match signal {
            Some(n) => 128 + n,
            None => 129,
        },
    }
}

/// Why the proxy does not start by itself.
#[derive(Clone, Copy, Debug, PartialEq, Eq, Structural)]
pub enum ArgumentError {
    /// The option for the configuration comes last.
    ConfigNeedsPath,
    /// The argument with this number is unknown.
    Unknown(usize),
    /// No configuration is named, and the home directory, where it would be
    /// looked for, is not known.
    NoHome,
}

impl ArgumentError {
    /// What the error says about the arguments.
    pub open spec fn text(self, arguments: Seq<Seq<char>>) -> Seq<char> {
        match self {
            ArgumentError::ConfigNeedsPath => "--config requires a file path"@,
            ArgumentError::Unknown(i) => "unknown argument: "@ + arguments[i as int],
            ArgumentError::NoHome => "HOME is not set; use --config PATH"@,
        }
    }

    /// What the error says about the arguments.
    pub fn message(&self, arguments: &[String]) -> (r: String)
        requires
            self matches ArgumentError::Unknown(i) ==> i < arguments@.len(),
        ensures
            r@ == self.text(string_views(arguments@)),
    {
        match self {
            ArgumentError::ConfigNeedsPath => "--config requires a file path".to_owned(),
            ArgumentError::Unknown(i) => {
                let mut r = "unknown argument: ".to_owned();
                r.append(arguments[*i].as_str());
                r
            },
            ArgumentError::NoHome => "HOME is not set; use --config PATH".to_owned(),
        }
    }
}

/// How the proxy starts by itself.
#[derive(Debug)]
pub enum Start {
    /// It tells how it is used.
    Help,
    /// It runs. Without a configuration it is the default one.
    Run(Option<String>),
}

/// How the proxy starts by itself, as characters.
pub enum StartModel {
    /// It tells how it is used.
    Help,
    /// It runs.
    Run(Option<Seq<char>>),
}

impl View for Start {
    type V = StartModel;

    open spec fn view(&self) -> StartModel {
        match self {
            Start::Help => StartModel::Help,
            Start::Run(config) => StartModel::Run(option_view(*config)),
        }
    }
}

/// How the proxy starts by itself, by the arguments from number `from` on.
pub open spec fn start_of(
    arguments: Seq<Seq<char>>,
    from: nat,
    config: Option<Seq<char>>,
    home_known: bool,
) -> Result<StartModel, ArgumentError>
    decreases arguments.len() - from,
{
    if from >= arguments.len() {
        if home_known || config is Some {
            Ok(StartModel::Run(config))
        } else {
            Err(ArgumentError::NoHome)
        }
    } else if arguments[from as int] == "-c"@ || arguments[from as int] == "--config"@ {
        if from + 1 < arguments.len() {
            start_of(arguments, from + 2, Some(arguments[from + 1int]), home_known)
        } else {
            Err(ArgumentError::ConfigNeedsPath)
        }
    } else if arguments[from as int] == "-h"@ || arguments[from as int] == "--help"@ {
        Ok(StartModel::Help)
    } else {
        Err(ArgumentError::Unknown(from as usize))
    }
}

/// Reads the command line of the proxy that runs by itself.
pub fn parse_args(arguments: &[String], home_known: bool) -> (r: Result<Start, ArgumentError>)
    ensures
        match r {
            Ok(start) => start_of(string_views(arguments@), 0, None, home_known) == Ok::<
                StartModel,
                ArgumentError,
            >(start@),
            Err(e) => start_of(string_views(arguments@), 0, None, home_known) == Err::<
                StartModel,
                ArgumentError,
            >(e),
        },
        r matches Err(ArgumentError::Unknown(i)) ==> i < arguments@.len(),
{
    let ghost all = string_views(arguments@);
    let mut config: Option<String> = None;
    let mut i: usize = 0;
    while i < arguments.len()
        invariant
            i <= arguments.len(),
            all == string_views(arguments@),
            start_of(all, 0, None, home_known) == start_of(
                all,
                i as nat,
                option_view(config),
                home_known,
            ),
        decreases arguments.len() - i,
    {
        let argument = arguments[i].as_str();
        assert(all[i as int] == argument@);
        if same_text(argument, "-c") || same_text(argument, "--config") {
            if arguments.len() - i < 2 {
                return Err(ArgumentError::ConfigNeedsPath);
            }
            assert(all[i + 1] == arguments@[i + 1]@);
            config = Some(arguments[i + 1].clone());
            i = i + 2;
        } else if same_text(argument, "-h") || same_text(argument, "--help") {
            return Ok(Start::Help);
        } else {
            return Err(ArgumentError::Unknown(i));
        }
    }
    if home_known || config.is_some() {
        Ok(Start::Run(config))
    } else {
        Err(ArgumentError::NoHome)
    }
}

/// How the proxy that runs by itself is used.
pub fn usage() -> (r: &'static str)
    ensures
        r@ == "codex-rate-proxy\n\nUsage: codex-rate-proxy [--config PATH]\n\nDefault config: ~/.config/codex-rate-proxy/config.ini"@,
{
    "codex-rate-proxy\n\nUsage: codex-rate-proxy [--config PATH]\n\nDefault config: ~/.config/codex-rate-proxy/config.ini"
}

proof fn lemma_options_are_told_apart()
    ensures
        option_of("--"@) == Some(LaunchOption::Rest),
        option_of("--config"@) == Some(LaunchOption::Config),
        option_of("-c"@) == Some(LaunchOption::Config),
        option_of("--key-file"@) == Some(LaunchOption::KeyFile),
        option_of("--key-env"@) == Some(LaunchOption::KeyEnv),
        option_of("--ask-key"@) == Some(LaunchOption::AskKey),
        option_of("--key-stdin"@) == Some(LaunchOption::KeyStdin),
        option_of("--dry-run"@) == Some(LaunchOption::DryRun),
        option_of("--replace"@) == Some(LaunchOption::Replace),
        option_of("--user"@) == Some(LaunchOption::User),
        option_of("-u"@) == Some(LaunchOption::User),
{
    lemma_user_options();
    reveal_strlit("--");
    reveal_strlit("-c");
    reveal_strlit("--config");
    reveal_strlit("--key-file");
    reveal_strlit("--key-env");
    reveal_strlit("--ask-key");
    reveal_strlit("--key-stdin");
    reveal_strlit("--dry-run");
    reveal_strlit("--replace");
    assert("--"@[1] != "-c"@[1]);
    assert("--"@.len() == 2 && "-c"@.len() == 2 && "--config"@.len() == 8);
    assert("--key-file"@.len() == 10 && "--key-env"@.len() == 9 && "--key-stdin"@.len() == 11);
    assert("--ask-key"@.len() == 9 && "--dry-run"@.len() == 9 && "--replace"@.len() == 9);
    assert("--key-env"@[2] == 'k' && "--ask-key"@[2] == 'a' && "--dry-run"@[2] == 'd'
        && "--replace"@[2] == 'r');
}

/// An option that names a value takes the argument behind it, as it is, and leaves
/// what the other options said alone. A configuration may be named again, and then
/// the later one counts; a user may not.
pub proof fn law_valued_options_take_the_next_argument(
    arguments: Seq<Seq<char>>,
    from: nat,
    choices: Choices,
)
    requires
        from < arguments.len(),
    ensures
        ({
            let word = arguments[from as int];
            let value = arguments[from + 1int];
            let last = from + 1 >= arguments.len();
            let read = choices_of(arguments, from, choices);
            &&& word == "--config"@ || word == "-c"@ ==> read == (if last {
                Err(LauncherError::ConfigNeedsPath)
            } else {
                choices_of(arguments, from + 2, Choices { config: Some(value), ..choices })
            })
            &&& word == "--user"@ || word == "-u"@ ==> read == (if choices.user is Some {
                Err(LauncherError::TwoUsers)
            } else if last {
                Err(LauncherError::UserNeedsName)
            } else {
                choices_of(arguments, from + 2, Choices { user: Some(value), ..choices })
            })
            &&& word == "--key-file"@ ==> read == (if choices.source is Some {
                Err(LauncherError::TwoSources)
            } else if last {
                Err(LauncherError::KeyNeedsValue)
            } else {
                choices_of(
                    arguments,
                    from + 2,
                    Choices { source: Some(SourceModel::File(value)), ..choices },
                )
            })
            &&& word == "--key-env"@ ==> read == (if choices.source is Some {
                Err(LauncherError::TwoSources)
            } else if last {
                Err(LauncherError::KeyNeedsValue)
            } else {
                choices_of(
                    arguments,
                    from + 2,
                    Choices { source: Some(SourceModel::Variable(value)), ..choices },
                )
            })
        }),
{
    lemma_options_are_told_apart();
}

/// An option without a value takes up one argument. A second source of the key is
/// refused, a flag that is there twice is not. Two dashes end the options, and an
/// argument that is none is refused by its number.
pub proof fn law_plain_options_stand_alone(
    arguments: Seq<Seq<char>>,
    from: nat,
    choices: Choices,
)
    requires
        from < arguments.len(),
    ensures
        ({
            let word = arguments[from as int];
            let read = choices_of(arguments, from, choices);
            &&& word == "--ask-key"@ ==> read == (if choices.source is Some {
                Err(LauncherError::TwoSources)
            } else {
                choices_of(
                    arguments,
                    from + 1,
                    Choices { source: Some(SourceModel::Ask), ..choices },
                )
            })
            &&& word == "--key-stdin"@ ==> read == (if choices.source is Some {
                Err(LauncherError::TwoSources)
            } else {
                choices_of(
                    arguments,
                    from + 1,
                    Choices { source: Some(SourceModel::Stdin), ..choices },
                )
            })
            &&& word == "--dry-run"@ ==> read == choices_of(
                arguments,
                from + 1,
                Choices { dry_run: true, ..choices },
            )
            &&& word == "--replace"@ ==> read == choices_of(
                arguments,
                from + 1,
                Choices { replace: true, ..choices },
            )
            &&& word == "--"@ ==> read == Ok::<Choices, LauncherError>(
                Choices {
                    rest: Some(arguments.subrange(from + 1int, arguments.len() as int)),
                    ..choices
                },
            )
            &&& word != "--ask-key"@ && word != "--key-stdin"@ && word != "--dry-run"@ && word
                != "--replace"@ && word != "--"@ && word != "--config"@ && word != "-c"@ && word
                != "--user"@ && word != "-u"@ && word != "--key-file"@ && word != "--key-env"@
                ==> read == Err::<Choices, LauncherError>(
                LauncherError::UnknownOption(from as usize),
            )
        }),
        choices_of(arguments, arguments.len(), choices) == Ok::<Choices, LauncherError>(choices),
{
    lemma_options_are_told_apart();
    assert(arguments.skip(from + 1int) =~= arguments.subrange(
        from + 1int,
        arguments.len() as int,
    ));
}

/// What is chosen comes into the plan unchanged: the configuration, the key of the
/// user who is named or else from the source that is, and for Codex its arguments.
pub proof fn law_plans_keep_what_was_chosen(name: Seq<char>, choices: Choices)
    requires
        !choices.dry_run,
        !choices.replace,
        choices.user is None || choices.source is None,
        choices.rest matches Some(rest) ==> rest.len() == 0,
    ensures
        ({
            let key = if choices.user is Some {
                KeyChoiceModel::Registered(choices.user->0)
            } else {
                KeyChoiceModel::Given(choices.source)
            };
            &&& chosen_plan(Operation::Url, name, choices) == Ok::<PlanModel, LauncherError>(
                PlanModel::Url { config: choices.config, key },
            )
            &&& chosen_plan(Operation::Stop, name, choices) == Ok::<PlanModel, LauncherError>(
                PlanModel::Stop { config: choices.config, key },
            )
            &&& chosen_plan(Operation::Launch, name, choices) == Ok::<PlanModel, LauncherError>(
                PlanModel::Launch { config: choices.config, key, codex_args: Seq::empty() },
            )
            &&& choices.user is None && choices.source is None ==> chosen_plan(
                Operation::List,
                name,
                choices,
            ) == Ok::<PlanModel, LauncherError>(PlanModel::List)
        }),
        forall|rest: Seq<Seq<char>>| #[trigger]
            chosen_plan(Operation::Launch, name, Choices { rest: Some(rest), ..choices }) == Ok::<
                PlanModel,
                LauncherError,
            >(
                PlanModel::Launch {
                    config: choices.config,
                    key: (if choices.user is Some {
                        KeyChoiceModel::Registered(choices.user->0)
                    } else {
                        KeyChoiceModel::Given(choices.source)
                    }),
                    codex_args: rest,
                },
            ),
{
    match choices.rest {
        Some(rest) => {
            assert(rest =~= Seq::empty());
        },
        None => {},
    }
}

/// A registration keeps the name, the source and whether an old key is replaced;
/// pruning keeps whether it is for show.
pub proof fn law_registering_and_pruning_keep_what_was_chosen(
    name: Seq<char>,
    source: Option<SourceModel>,
    replace: bool,
    dry_run: bool,
    config: Option<Seq<char>>,
    rest: Option<Seq<Seq<char>>>,
)
    requires
        rest matches Some(arguments) ==> arguments.len() == 0,
    ensures
        chosen_plan(
            Operation::Register,
            name,
            Choices { config, source, dry_run: false, replace, user: None, rest },
        ) == Ok::<PlanModel, LauncherError>(PlanModel::Register { name, source, replace }),
        chosen_plan(
            Operation::Prune,
            name,
            Choices { config, source: None, dry_run, replace: false, user: None, rest },
        ) == Ok::<PlanModel, LauncherError>(PlanModel::Prune { dry_run }),
{
}

/// An option where it has no meaning is refused: a dry run but for pruning, a
/// replacement but for registering, a key or a user where none is needed, and
/// arguments for Codex but for launching it.
pub proof fn law_misplaced_options_are_refused(
    operation: Operation,
    name: Seq<char>,
    choices: Choices,
)
    ensures
        ({
            let plan = chosen_plan(operation, name, choices);
            let dry = choices.dry_run && operation != Operation::Prune;
            let replacing = choices.replace && operation != Operation::Register;
            let keyless = operation == Operation::List || operation == Operation::Prune;
            let user = choices.user is Some && (choices.source is Some || operation
                == Operation::Register || keyless);
            let extra = (choices.rest matches Some(rest) && rest.len() > 0) && operation
                != Operation::Launch;
            let key = choices.source is Some && keyless;
            &&& plan == Err::<PlanModel, LauncherError>(LauncherError::DryRunMisplaced) <==> dry
            &&& plan == Err::<PlanModel, LauncherError>(LauncherError::ReplaceMisplaced) <==> !dry
                && replacing
            &&& plan == Err::<PlanModel, LauncherError>(LauncherError::UserMisplaced) <==> !dry
                && !replacing && user
            &&& plan == Err::<PlanModel, LauncherError>(LauncherError::CodexArgumentsMisplaced)
                <==> !dry && !replacing && !user && extra
            &&& plan == Err::<PlanModel, LauncherError>(LauncherError::KeyMisplaced) <==> !dry
                && !replacing && !user && !extra && key
            &&& plan is Ok <==> !dry && !replacing && !user && !extra && !key
        }),
{
}

proof fn lemma_words_are_told_apart()
    ensures
        operation_of("launch"@) == Some(Operation::Launch),
        operation_of("url"@) == Some(Operation::Url),
        operation_of("list"@) == Some(Operation::List),
        operation_of("stop"@) == Some(Operation::Stop),
        operation_of("prune"@) == Some(Operation::Prune),
        operation_of("register"@) == Some(Operation::Register),
        operation_of("unregister"@) == Some(Operation::Unregister),
        operation_of("encrypt-keys"@) == Some(Operation::EncryptKeys),
        operation_of("env"@) == Some(Operation::Env),
{
    reveal_strlit("launch");
    reveal_strlit("url");
    reveal_strlit("list");
    reveal_strlit("stop");
    reveal_strlit("prune");
    reveal_strlit("register");
    reveal_strlit("unregister");
    reveal_strlit("encrypt-keys");
    reveal_strlit("env");
    assert("launch"@.len() == 6 && "url"@.len() == 3 && "list"@.len() == 4 && "stop"@.len() == 4);
    assert("prune"@.len() == 5 && "register"@.len() == 8 && "unregister"@.len() == 10);
    assert("encrypt-keys"@.len() == 12 && "env"@.len() == 3);
    assert("list"@[0] != "stop"@[0] && "url"@[0] != "env"@[0]);
}

/// A command line whose first word is no operation, or that is empty, starts the
/// proxy by itself, whatever else stands there. What follows `env` is handed on
/// unread. `encrypt-keys` takes nothing, and `unregister` one name.
pub proof fn law_first_words_decide(arguments: Seq<Seq<char>>, home_known: bool)
    ensures
        arguments.len() == 0 ==> plan_of(arguments, home_known) == Ok::<PlanModel, LauncherError>(
            PlanModel::Standalone,
        ),
        arguments.len() > 0 ==> {
            let word = arguments[0];
            let plan = plan_of(arguments, home_known);
            &&& word != "launch"@ && word != "url"@ && word != "list"@ && word != "stop"@ && word
                != "prune"@ && word != "register"@ && word != "unregister"@ && word
                != "encrypt-keys"@ && word != "env"@ ==> plan == Ok::<PlanModel, LauncherError>(
                PlanModel::Standalone,
            )
            &&& word == "env"@ ==> plan == Ok::<PlanModel, LauncherError>(
                PlanModel::Env { arguments: arguments.subrange(1, arguments.len() as int) },
            )
            &&& word == "encrypt-keys"@ ==> (plan == Ok::<PlanModel, LauncherError>(
                PlanModel::EncryptKeys,
            ) <==> arguments.len() == 1) && (arguments.len() > 1 ==> plan == Err::<
                PlanModel,
                LauncherError,
            >(LauncherError::UnknownOption(1)))
            &&& word == "unregister"@ && arguments.len() == 2 ==> plan == Ok::<
                PlanModel,
                LauncherError,
            >(PlanModel::Unregister { name: arguments[1] })
            &&& word == "unregister"@ && arguments.len() < 2 ==> plan == Err::<
                PlanModel,
                LauncherError,
            >(LauncherError::UnregisterNeedsName)
            &&& word == "unregister"@ && arguments.len() > 2 ==> plan == Err::<
                PlanModel,
                LauncherError,
            >(LauncherError::UnknownOption(2))
        },
{
    lemma_words_are_told_apart();
    if arguments.len() > 0 {
        assert(arguments.skip(1) =~= arguments.subrange(1, arguments.len() as int));
    }
}

/// Each of the other words leads to its own operation, by the options behind it;
/// `register` has a name between. Without a home directory none of them is planned.
pub proof fn law_words_lead_to_their_operations(arguments: Seq<Seq<char>>)
    requires
        arguments.len() > 0,
    ensures
        ({
            let word = arguments[0];
            let plan = plan_of(arguments, true);
            let lost = plan_of(arguments, false);
            let none = Seq::<char>::empty();
            &&& word == "launch"@ || word == "url"@ || word == "list"@ || word == "stop"@ || word
                == "prune"@ || word == "register"@ ==> lost == Err::<PlanModel, LauncherError>(
                LauncherError::NoHome,
            )
            &&& choices_of(arguments, 1, no_choices()) matches Ok(choices) ==> {
                &&& word == "launch"@ ==> plan == chosen_plan(Operation::Launch, none, choices)
                &&& word == "url"@ ==> plan == chosen_plan(Operation::Url, none, choices)
                &&& word == "list"@ ==> plan == chosen_plan(Operation::List, none, choices)
                &&& word == "stop"@ ==> plan == chosen_plan(Operation::Stop, none, choices)
                &&& word == "prune"@ ==> plan == chosen_plan(Operation::Prune, none, choices)
            }
            &&& choices_of(arguments, 1, no_choices()) matches Err(e) ==> (word == "launch"@ || word
                == "url"@ || word == "list"@ || word == "stop"@ || word == "prune"@ ==> plan
                == Err::<PlanModel, LauncherError>(e))
            &&& word == "register"@ && arguments.len() < 2 ==> plan == Err::<
                PlanModel,
                LauncherError,
            >(LauncherError::RegisterNeedsName)
            &&& word == "register"@ && arguments.len() >= 2 ==> match choices_of(
                arguments,
                2,
                no_choices(),
            ) {
                Ok(choices) => plan == chosen_plan(Operation::Register, arguments[1], choices),
                Err(e) => plan == Err::<PlanModel, LauncherError>(e),
            }
        }),
{
    lemma_words_are_told_apart();
}

/// Nothing is chosen before an option says so.
pub proof fn law_nothing_is_chosen_at_first()
    ensures
        no_choices().config is None,
        no_choices().source is None,
        no_choices().user is None,
        no_choices().rest is None,
        !no_choices().dry_run,
        !no_choices().replace,
{
}

/// A launch with everything named is planned as named.
pub proof fn law_launches_are_planned_as_named(
    config: Seq<char>,
    user: Seq<char>,
    rest: Seq<Seq<char>>,
)
    ensures
        plan_of(
            seq!["launch"@, "--config"@, config, "--user"@, user, "--"@] + rest,
            true,
        ) == Ok::<PlanModel, LauncherError>(
            PlanModel::Launch {
                config: Some(config),
                key: KeyChoiceModel::Registered(user),
                codex_args: rest,
            },
        ),
        plan_of(
            seq!["launch"@, "--user"@, user, "--config"@, config, "--"@] + rest,
            true,
        ) == Ok::<PlanModel, LauncherError>(
            PlanModel::Launch {
                config: Some(config),
                key: KeyChoiceModel::Registered(user),
                codex_args: rest,
            },
        ),
{
    lemma_words_are_told_apart();
    lemma_options_are_told_apart();
    reveal_with_fuel(choices_of, 4);
    let a = seq!["launch"@, "--config"@, config, "--user"@, user, "--"@] + rest;
    assert(a[0] == "launch"@ && a[1] == "--config"@ && a[2] == config && a[3] == "--user"@ && a[4]
        == user && a[5] == "--"@);
    assert(a.skip(6) =~= rest);
    let b = seq!["launch"@, "--user"@, user, "--config"@, config, "--"@] + rest;
    assert(b[0] == "launch"@ && b[1] == "--user"@ && b[2] == user && b[3] == "--config"@ && b[4]
        == config && b[5] == "--"@);
    assert(b.skip(6) =~= rest);
}

/// Codex gets all arguments of the user behind fourteen of its own, which are seven
/// settings with `-c` before each: they name the provider and the address of the
/// proxy, and depend on nothing else.
pub proof fn law_codex_gets_every_argument(
    provider: Seq<char>,
    url: Seq<char>,
    codex_args: Seq<Seq<char>>,
    i: int,
)
    ensures
        ({
            let call = codex_call(provider, url, codex_args);
            let about = "model_providers."@ + provider;
            &&& call.len() == 14 + codex_args.len()
            &&& 0 <= i < codex_args.len() ==> call[14 + i] == codex_args[i]
            &&& 0 <= i < 7 ==> call[2 * i] == "-c"@
            &&& call[1] == "model_provider="@ + json_of(provider)
            &&& call[3] == about + ".base_url="@ + json_of(url)
            &&& call[5] == about + ".env_key=\"CODEX_RATE_PROXY_API_KEY\""@
            &&& call[7] == about + ".requires_openai_auth=false"@
            &&& call[9] == about + ".request_max_retries=0"@
            &&& call[11] == about + ".stream_max_retries=0"@
            &&& call[13] == about + ".supports_websockets=false"@
        }),
{
    let call = codex_call(provider, url, codex_args);
    if 0 <= i < 7 {
        assert(i == 0 || i == 1 || i == 2 || i == 3 || i == 4 || i == 5 || i == 6);
    }
}

/// What was to be reached without a proxy still is, by the variable in capitals if
/// it is there and by the other one if not, and this machine is added to it.
pub proof fn law_bypasses_are_kept(said: Seq<char>, lower: Option<Seq<char>>)
    ensures
        bypass_of(Some(said), lower) == said + ",127.0.0.1,localhost"@,
        bypass_of(None, Some(said)) == said + ",127.0.0.1,localhost"@,
        bypass_of(None, None) == ",127.0.0.1,localhost"@,
{
    assert(Seq::<char>::empty() + ",127.0.0.1,localhost"@ =~= ",127.0.0.1,localhost"@);
}

/// The proxy that runs by itself takes the configuration that is named last,
/// and the one of the home directory where none is named. Help is given as soon as
/// it is asked for; anything else is refused by its number.
pub proof fn law_start_arguments_are_read_one_by_one(
    arguments: Seq<Seq<char>>,
    from: nat,
    config: Option<Seq<char>>,
    home_known: bool,
)
    ensures
        from >= arguments.len() && home_known ==> start_of(arguments, from, config, home_known)
            == Ok::<StartModel, ArgumentError>(StartModel::Run(config)),
        from >= arguments.len() && config is Some ==> start_of(
            arguments,
            from,
            config,
            home_known,
        ) == Ok::<StartModel, ArgumentError>(StartModel::Run(config)),
        from >= arguments.len() && config is None && !home_known ==> start_of(
            arguments,
            from,
            config,
            home_known,
        ) == Err::<StartModel, ArgumentError>(ArgumentError::NoHome),
        from < arguments.len() ==> {
            let word = arguments[from as int];
            let start = start_of(arguments, from, config, home_known);
            &&& (word == "-c"@ || word == "--config"@) && from + 1 < arguments.len() ==> start
                == start_of(arguments, from + 2, Some(arguments[from + 1int]), home_known)
            &&& (word == "-c"@ || word == "--config"@) && from + 1 >= arguments.len() ==> start
                == Err::<StartModel, ArgumentError>(ArgumentError::ConfigNeedsPath)
            &&& word == "-h"@ || word == "--help"@ ==> start == Ok::<StartModel, ArgumentError>(
                StartModel::Help,
            )
            &&& word != "-c"@ && word != "--config"@ && word != "-h"@ && word != "--help"@
                ==> start == Err::<StartModel, ArgumentError>(
                ArgumentError::Unknown(from as usize),
            )
        },
{
    reveal_strlit("-c");
    reveal_strlit("--config");
    reveal_strlit("-h");
    reveal_strlit("--help");
    assert("-c"@.len() == 2 && "--config"@.len() == 8 && "-h"@.len() == 2 && "--help"@.len() == 6);
    assert("-c"@[1] != "-h"@[1]);
}

/// An error about an argument shows that argument, whichever it is.
pub proof fn law_errors_show_the_argument(arguments: Seq<Seq<char>>, i: usize)
    requires
        i < arguments.len(),
    ensures
        LauncherError::UnknownOption(i).text(arguments) == "unknown launcher option: "@
            + arguments[i as int],
        ArgumentError::Unknown(i).text(arguments) == "unknown argument: "@ + arguments[i as int],
{
}

} // verus!
