//! Shell commands that set a variable to a registered key.

use vstd::prelude::*;
use vstd::string::*;
use vstd::utf8::encode_utf8;

use crate::digits::{octal, octal_of};
use crate::text::{chars_of, same_text, string_views};

verus! {

/// An option of the command that exports a key.
#[derive(Clone, Copy, Debug, PartialEq, Eq, Structural)]
pub enum EnvOption {
    /// Whose key it is.
    User,
    /// The shell that runs the command.
    Shell,
    /// The variable that is set.
    Variable,
}

/// The option that an argument is.
pub open spec fn option_of(argument: Seq<char>) -> Option<EnvOption> {
    if argument == "-u"@ || argument == "--user"@ {
        Some(EnvOption::User)
    } else if argument == "--shell"@ {
        Some(EnvOption::Shell)
    } else if argument == "--var"@ {
        Some(EnvOption::Variable)
    } else {
        None
    }
}

fn read_option(argument: &str) -> (r: Option<EnvOption>)
    ensures
        r == option_of(argument@),
{
    if same_text(argument, "-u") || same_text(argument, "--user") {
        Some(EnvOption::User)
    } else if same_text(argument, "--shell") {
        Some(EnvOption::Shell)
    } else if same_text(argument, "--var") {
        Some(EnvOption::Variable)
    } else {
        None
    }
}

/// Whether an argument asks for help.
pub open spec fn asks_help(argument: Seq<char>) -> bool {
    argument == "-h"@ || argument == "--help"@
}

/// Why no key is exported.
#[derive(Clone, Copy, Debug, PartialEq, Eq, Structural)]
pub enum EnvError {
    /// An argument is no option.
    Unknown,
    /// An option is there twice.
    Duplicate,
    /// An option comes last and has no value.
    NoValue,
    /// No user is named.
    NoUser,
    /// No shell is named.
    NoShell,
    /// The shell is not one of those that are known.
    UnsupportedShell,
    /// The variable has no proper name.
    InvalidVariable,
    /// The key would be seen on the terminal.
    Terminal,
}

impl EnvError {
    /// What the error says.
    pub open spec fn text(self) -> Seq<char> {
        match self {
            EnvError::Unknown => "unknown env option; use env --help"@,
            EnvError::Duplicate => "duplicate env option"@,
            EnvError::NoValue => "env option requires a value"@,
            EnvError::NoUser => "env requires --user NAME or -u NAME"@,
            EnvError::NoShell => "env requires --shell bash|csh|tcsh"@,
            EnvError::UnsupportedShell => "unsupported shell; use bash, csh or tcsh"@,
            EnvError::InvalidVariable =>
                "--var must be a shell identifier: letters, digits, underscore; no leading digit"@,
            EnvError::Terminal =>
                "refusing to print a credential to the terminal; use shell evaluation (see README)"@,
        }
    }

    /// What the error says.
    pub fn message(&self) -> (r: String)
        ensures
            r@ == self.text(),
    {
        let text = match self {
            EnvError::Unknown => "unknown env option; use env --help",
            EnvError::Duplicate => "duplicate env option",
            EnvError::NoValue => "env option requires a value",
            EnvError::NoUser => "env requires --user NAME or -u NAME",
            EnvError::NoShell => "env requires --shell bash|csh|tcsh",
            EnvError::UnsupportedShell => "unsupported shell; use bash, csh or tcsh",
            EnvError::InvalidVariable =>
                "--var must be a shell identifier: letters, digits, underscore; no leading digit",
            EnvError::Terminal =>
                "refusing to print a credential to the terminal; use shell evaluation (see README)",
        };
        text.to_owned()
    }
}

/// The values of the options, as far as they are there.
pub struct EnvChoices {
    /// Whose key it is.
    pub user: Option<Seq<char>>,
    /// The shell that runs the command.
    pub shell: Option<Seq<char>>,
    /// The variable that is set.
    pub variable: Option<Seq<char>>,
}

impl EnvChoices {
    /// The value of an option.
    pub open spec fn value(self, option: EnvOption) -> Option<Seq<char>> {
        match option {
            EnvOption::User => self.user,
            EnvOption::Shell => self.shell,
            EnvOption::Variable => self.variable,
        }
    }

    /// The choices with a value for one more option.
    pub open spec fn with(self, option: EnvOption, value: Seq<char>) -> EnvChoices {
        match option {
            EnvOption::User => EnvChoices { user: Some(value), ..self },
            EnvOption::Shell => EnvChoices { shell: Some(value), ..self },
            EnvOption::Variable => EnvChoices { variable: Some(value), ..self },
        }
    }
}

/// What the arguments from number `from` on add to `choices`; nothing at all, if
/// help is asked for.
pub open spec fn env_choices(arguments: Seq<Seq<char>>, from: nat, choices: EnvChoices) -> Result<
    Option<EnvChoices>,
    EnvError,
>
    decreases arguments.len() - from,
{
    if from >= arguments.len() {
        Ok(Some(choices))
    } else {
        match option_of(arguments[from as int]) {
            None => if asks_help(arguments[from as int]) && arguments.len() == 1 {
                Ok(None)
            } else {
                Err(EnvError::Unknown)
            },
            Some(option) => if choices.value(option) is Some {
                Err(EnvError::Duplicate)
            } else if from + 1 >= arguments.len() {
                Err(EnvError::NoValue)
            } else {
                env_choices(arguments, from + 2, choices.with(option, arguments[from + 1int]))
            },
        }
    }
}

/// Whether a text can name a variable of a shell: letters, digits and
/// underscores, but no digit first.
pub open spec fn is_variable_name(name: Seq<char>) -> bool {
    &&& name.len() > 0
    &&& !('0' <= name[0] <= '9')
    &&& forall|i: int| 0 <= i < name.len() ==> is_variable_char(#[trigger] name[i])
}

/// Whether a character may stand in the name of a variable.
pub open spec fn is_variable_char(c: char) -> bool {
    'a' <= c <= 'z' || 'A' <= c <= 'Z' || '0' <= c <= '9' || c == '_'
}

fn valid_variable(name: &str) -> (r: bool)
    ensures
        r == is_variable_name(name@),
{
    let v = chars_of(name);
    if v.len() == 0 || ('0' <= v[0] && v[0] <= '9') {
        return false;
    }
    let mut i: usize = 0;
    while i < v.len()
        invariant
            v@ == name@,
            i <= v.len(),
            forall|j: int| 0 <= j < i ==> is_variable_char(#[trigger] name@[j]),
        decreases v.len() - i,
    {
        let c = v[i];
        if !(('a' <= c && c <= 'z') || ('A' <= c && c <= 'Z') || ('0' <= c && c <= '9') || c
            == '_') {
            assert(!is_variable_char(name@[i as int]));
            return false;
        }
        i = i + 1;
    }
    true
}

/// Whether a shell is known.
pub open spec fn is_shell(shell: Seq<char>) -> bool {
    shell == "bash"@ || shell == "csh"@ || shell == "tcsh"@
}

/// What is exported, and how.
#[derive(Debug)]
pub struct Export {
    /// Whose key it is.
    pub user: String,
    /// The shell that runs the command.
    pub shell: String,
    /// The variable that is set.
    pub variable: String,
}

/// What is exported, as characters.
pub struct ExportModel {
    /// Whose key it is.
    pub user: Seq<char>,
    /// The shell that runs the command.
    pub shell: Seq<char>,
    /// The variable that is set.
    pub variable: Seq<char>,
}

impl View for Export {
    type V = ExportModel;

    open spec fn view(&self) -> ExportModel {
        ExportModel { user: self.user@, shell: self.shell@, variable: self.variable@ }
    }
}

/// What the options together ask for. A key never goes to a terminal.
pub open spec fn export_of(choices: EnvChoices, to_terminal: bool) -> Result<
    ExportModel,
    EnvError,
> {
    let variable = match choices.variable {
        Some(name) => name,
        None => "OPENAI_API_KEY"@,
    };
    if choices.user is None {
        Err(EnvError::NoUser)
    } else if choices.shell is None {
        Err(EnvError::NoShell)
    } else if !is_shell(choices.shell->0) {
        Err(EnvError::UnsupportedShell)
    } else if !is_variable_name(variable) {
        Err(EnvError::InvalidVariable)
    } else if to_terminal {
        Err(EnvError::Terminal)
    } else {
        Ok(ExportModel { user: choices.user->0, shell: choices.shell->0, variable })
    }
}

/// What the arguments ask for; nothing to export, if that is help.
pub open spec fn env_request(arguments: Seq<Seq<char>>, to_terminal: bool) -> Result<
    Option<ExportModel>,
    EnvError,
> {
    match env_choices(arguments, 0, EnvChoices { user: None, shell: None, variable: None }) {
        Err(e) => Err(e),
        Ok(None) => Ok(None),
        Ok(Some(choices)) => match export_of(choices, to_terminal) {
            Ok(export) => Ok(Some(export)),
            Err(e) => Err(e),
        },
    }
}

/// The help text.
pub fn env_help() -> (r: &'static str)
    ensures
        r@ == "Usage: codex-rate-proxy env -u NAME --shell bash|csh|tcsh [--var OPENAI_API_KEY]\nOutputs a secret-bearing shell command; use only through shell evaluation, never logs."@,
{
    "Usage: codex-rate-proxy env -u NAME --shell bash|csh|tcsh [--var OPENAI_API_KEY]\nOutputs a secret-bearing shell command; use only through shell evaluation, never logs."
}

spec fn text_option(text: Option<&str>) -> Option<Seq<char>> {
    match text {
        Some(t) => Some(t@),
        None => None,
    }
}

/// Reads the arguments of the command that exports a key. `None` asks for help.
pub fn run(arguments: &[String], to_terminal: bool) -> (r: Result<Option<Export>, EnvError>)
    ensures
        match r {
            Ok(Some(export)) => env_request(string_views(arguments@), to_terminal) == Ok::<
                Option<ExportModel>,
                EnvError,
            >(Some(export@)),
            Ok(None) => env_request(string_views(arguments@), to_terminal) == Ok::<
                Option<ExportModel>,
                EnvError,
            >(None),
            Err(e) => env_request(string_views(arguments@), to_terminal) == Err::<
                Option<ExportModel>,
                EnvError,
            >(e),
        },
{
    let mut user: Option<&str> = None;
    let mut shell: Option<&str> = None;
    let mut variable: Option<&str> = None;
    let mut i: usize = 0;
    let ghost all = string_views(arguments@);
    let ghost nothing = EnvChoices { user: None, shell: None, variable: None };
    while i < arguments.len()
        invariant
            i <= arguments.len(),
            all == string_views(arguments@),
            nothing == (EnvChoices { user: None, shell: None, variable: None }),
            env_choices(all, 0, nothing) == env_choices(
                all,
                i as nat,
                EnvChoices {
                    user: text_option(user),
                    shell: text_option(shell),
                    variable: text_option(variable),
                },
            ),
        decreases arguments.len() - i,
    {
        let argument = arguments[i].as_str();
        assert(all[i as int] == argument@);
        let option = match read_option(argument) {
            Some(option) => option,
            None => {
                if arguments.len() == 1 && (same_text(argument, "-h") || same_text(
                    argument,
                    "--help",
                )) {
                    return Ok(None);
                }
                return Err(EnvError::Unknown);
            },
        };
        let there = match option {
            EnvOption::User => user.is_some(),
            EnvOption::Shell => shell.is_some(),
            EnvOption::Variable => variable.is_some(),
        };
        if there {
            return Err(EnvError::Duplicate);
        }
        if i + 1 >= arguments.len() {
            return Err(EnvError::NoValue);
        }
        let value = arguments[i + 1].as_str();
        assert(all[i + 1] == value@);
        match option {
            EnvOption::User => {
                user = Some(value);
            },
            EnvOption::Shell => {
                shell = Some(value);
            },
            EnvOption::Variable => {
                variable = Some(value);
            },
        }
        i = i + 2;
    }
    let user = match user {
        Some(user) => user,
        None => return Err(EnvError::NoUser),
    };
    let shell = match shell {
        Some(shell) => shell,
        None => return Err(EnvError::NoShell),
    };
    if !(same_text(shell, "bash") || same_text(shell, "csh") || same_text(shell, "tcsh")) {
        return Err(EnvError::UnsupportedShell);
    }
    let variable = match variable {
        Some(variable) => variable,
        None => "OPENAI_API_KEY",
    };
    if !valid_variable(variable) {
        return Err(EnvError::InvalidVariable);
    }
    if to_terminal {
        return Err(EnvError::Terminal);
    }
    Ok(
        Some(
            Export {
                user: user.to_owned(),
                shell: shell.to_owned(),
                variable: variable.to_owned(),
            },
        ),
    )
}

/// The command that sets a variable to a key. Only octal escapes stand for the
/// key.
pub open spec fn command_of(shell: Seq<char>, variable: Seq<char>, key: Seq<char>) -> Seq<char> {
    let escaped = octal_of(encode_utf8(key));
    if shell == "bash"@ {
        "export "@ + variable + "=$'"@ + escaped + "'\n"@
    } else {
        "setenv "@ + variable + " \"`/usr/bin/printf '"@ + escaped + "'`\"\n"@
    }
}

/// Writes the command that sets a variable to a key.
pub fn shell_command(shell: &str, variable: &str, key: &str) -> (r: String)
    ensures
        r@ == command_of(shell@, variable@, key@),
{
    let escaped = octal(key.as_bytes());
    if same_text(shell, "bash") {
        let mut r = "export ".to_owned();
        r.append(variable);
        r.append("=$'");
        r.append(escaped.as_str());
        r.append("'\n");
        r
    } else {
        let mut r = "setenv ".to_owned();
        r.append(variable);
        r.append(" \"`/usr/bin/printf '");
        r.append(escaped.as_str());
        r.append("'`\"\n");
        r
    }
}

/// Nothing that a shell could take for something else stands for a key:
/// backslashes and octal digits only.
pub proof fn law_escapes_are_harmless(bytes: Seq<u8>, i: int)
    requires
        0 <= i < octal_of(bytes).len(),
    ensures
        octal_of(bytes)[i] == '\\' || '0' <= octal_of(bytes)[i] <= '7',
{
    lemma_octal_digit(bytes[i / 4]);
}

proof fn lemma_octal_digit(b: u8)
    ensures
        '0' <= crate::digits::digit(b as int / 64) <= '3',
        '0' <= crate::digits::digit((b as int / 8) % 8) <= '7',
        '0' <= crate::digits::digit(b as int % 8) <= '7',
        crate::digits::digit(b as int / 64) as int == b as int / 64 + 48,
        crate::digits::digit((b as int / 8) % 8) as int == (b as int / 8) % 8 + 48,
        crate::digits::digit(b as int % 8) as int == b as int % 8 + 48,
{
}

/// The number that an octal digit stands for.
pub open spec fn octal_value(c: char) -> int {
    c as int - 48
}

/// The shell gets the key back: each escape is the number of one byte of the
/// key, in order.
pub proof fn law_escapes_stand_for_the_key(bytes: Seq<u8>, i: int)
    requires
        0 <= i < bytes.len(),
    ensures
        ({
            let text = octal_of(bytes);
            &&& text.len() == 4 * bytes.len()
            &&& text[4 * i] == '\\'
            &&& 64 * octal_value(text[4 * i + 1]) + 8 * octal_value(text[4 * i + 2]) + octal_value(
                text[4 * i + 3],
            ) == bytes[i]
        }),
{
    lemma_octal_digit(bytes[i]);
    assert((4 * i) / 4 == i && (4 * i) % 4 == 0);
    assert((4 * i + 1) / 4 == i && (4 * i + 1) % 4 == 1);
    assert((4 * i + 2) / 4 == i && (4 * i + 2) % 4 == 2);
    assert((4 * i + 3) / 4 == i && (4 * i + 3) % 4 == 3);
}

proof fn lemma_env_options()
    ensures
        option_of("-u"@) == Some(EnvOption::User),
        option_of("--user"@) == Some(EnvOption::User),
        option_of("--shell"@) == Some(EnvOption::Shell),
        option_of("--var"@) == Some(EnvOption::Variable),
{
    reveal_strlit("-u");
    reveal_strlit("--user");
    reveal_strlit("--shell");
    reveal_strlit("--var");
    assert("-u"@.len() == 2 && "--user"@.len() == 6 && "--shell"@.len() == 7 && "--var"@.len()
        == 5);
}

/// An option and the argument behind it are read together: the value is that
/// argument, as it is, and the other options keep theirs. An option that is there
/// already is refused, and so is one that nothing follows.
pub proof fn law_env_options_are_read_one_by_one(
    arguments: Seq<Seq<char>>,
    from: nat,
    choices: EnvChoices,
)
    requires
        from < arguments.len(),
    ensures
        ({
            let word = arguments[from as int];
            let value = arguments[from + 1int];
            let read = env_choices(arguments, from, choices);
            let last = from + 1 >= arguments.len();
            &&& word == "--user"@ || word == "-u"@ ==> read == (if choices.user is Some {
                Err(EnvError::Duplicate)
            } else if last {
                Err(EnvError::NoValue)
            } else {
                env_choices(
                    arguments,
                    from + 2,
                    EnvChoices {
                        user: Some(value),
                        shell: choices.shell,
                        variable: choices.variable,
                    },
                )
            })
            &&& word == "--shell"@ ==> read == (if choices.shell is Some {
                Err(EnvError::Duplicate)
            } else if last {
                Err(EnvError::NoValue)
            } else {
                env_choices(
                    arguments,
                    from + 2,
                    EnvChoices {
                        user: choices.user,
                        shell: Some(value),
                        variable: choices.variable,
                    },
                )
            })
            &&& word == "--var"@ ==> read == (if choices.variable is Some {
                Err(EnvError::Duplicate)
            } else if last {
                Err(EnvError::NoValue)
            } else {
                env_choices(
                    arguments,
                    from + 2,
                    EnvChoices {
                        user: choices.user,
                        shell: choices.shell,
                        variable: Some(value),
                    },
                )
            })
            &&& word != "--user"@ && word != "-u"@ && word != "--shell"@ && word != "--var"@
                ==> read == (if arguments.len() == 1 && (word == "-h"@ || word == "--help"@) {
                Ok::<Option<EnvChoices>, EnvError>(None)
            } else {
                Err(EnvError::Unknown)
            })
        }),
{
    lemma_env_options();
}

/// What is asked for is exported, in whatever order the options stand: the key of
/// that user, for that shell, in that variable; without one in `OPENAI_API_KEY`.
pub proof fn law_exports_are_what_is_asked(
    user: Seq<char>,
    shell: Seq<char>,
    variable: Seq<char>,
)
    requires
        shell == "bash"@ || shell == "csh"@ || shell == "tcsh"@,
        is_variable_name(variable),
    ensures
        ({
            let export = Ok::<Option<ExportModel>, EnvError>(
                Some(ExportModel { user, shell, variable }),
            );
            let u = seq!["--user"@, user];
            let s = seq!["--shell"@, shell];
            let v = seq!["--var"@, variable];
            &&& env_request(u + s + v, false) == export
            &&& env_request(v + s + u, false) == export
            &&& env_request(s + u + v, false) == export
            &&& env_request(u + s + v, true) == Err::<Option<ExportModel>, EnvError>(
                EnvError::Terminal,
            )
            &&& env_request(u + s, false) == Ok::<Option<ExportModel>, EnvError>(
                Some(ExportModel { user, shell, variable: "OPENAI_API_KEY"@ }),
            )
        }),
{
    let u = seq!["--user"@, user];
    let s = seq!["--shell"@, shell];
    let v = seq!["--var"@, variable];
    lemma_env_options();
    reveal_with_fuel(env_choices, 4);
    let a = u + s + v;
    assert(a[0] == "--user"@ && a[1] == user && a[2] == "--shell"@ && a[3] == shell && a[4]
        == "--var"@ && a[5] == variable);
    let b = v + s + u;
    assert(b[4] == "--user"@ && b[5] == user && b[2] == "--shell"@ && b[3] == shell && b[0]
        == "--var"@ && b[1] == variable);
    let c = s + u + v;
    assert(c[2] == "--user"@ && c[3] == user && c[0] == "--shell"@ && c[1] == shell && c[4]
        == "--var"@ && c[5] == variable);
    let d = u + s;
    assert(d[0] == "--user"@ && d[1] == user && d[2] == "--shell"@ && d[3] == shell);
    reveal_strlit("OPENAI_API_KEY");
    assert("OPENAI_API_KEY"@ =~= seq![
        'O', 'P', 'E', 'N', 'A', 'I', '_', 'A', 'P', 'I', '_', 'K', 'E', 'Y',
    ]);
    assert(is_variable_name("OPENAI_API_KEY"@));
}

/// What the options lack or have wrong is refused: a user and a shell must be
/// named, the shell must be one of three, the variable must be a name, and the key
/// must not go to a terminal. Otherwise what was chosen is exported.
pub proof fn law_incomplete_exports_are_refused(choices: EnvChoices, to_terminal: bool)
    ensures
        ({
            let export = export_of(choices, to_terminal);
            let known = choices.shell == Some("bash"@) || choices.shell == Some("csh"@)
                || choices.shell == Some("tcsh"@);
            let named = choices.variable matches Some(name) ==> is_variable_name(name);
            &&& export == Err::<ExportModel, EnvError>(EnvError::NoUser) <==> choices.user is None
            &&& export == Err::<ExportModel, EnvError>(EnvError::NoShell) <==> choices.user is Some
                && choices.shell is None
            &&& export == Err::<ExportModel, EnvError>(EnvError::UnsupportedShell)
                <==> choices.user is Some && choices.shell is Some && !known
            &&& export == Err::<ExportModel, EnvError>(EnvError::InvalidVariable) <==> choices.user
                is Some && known && !named
            &&& export == Err::<ExportModel, EnvError>(EnvError::Terminal) <==> choices.user is Some
                && known && named && to_terminal
            &&& export matches Ok(asked) ==> {
                &&& choices.user == Some(asked.user)
                &&& choices.shell == Some(asked.shell)
                &&& choices.variable matches Some(name) ==> asked.variable == name
                &&& choices.variable is None ==> asked.variable == "OPENAI_API_KEY"@
            }
        }),
{
    reveal_strlit("OPENAI_API_KEY");
    assert("OPENAI_API_KEY"@ =~= seq![
        'O', 'P', 'E', 'N', 'A', 'I', '_', 'A', 'P', 'I', '_', 'K', 'E', 'Y',
    ]);
    assert(is_variable_name("OPENAI_API_KEY"@));
}

/// A name of a variable goes on with a letter, a digit or an underscore and
/// nothing else, and begins with no digit.
pub proof fn law_variable_names_are_plain(name: Seq<char>, c: char)
    ensures
        ({
            let letter = ('a' <= c && c <= 'z') || ('A' <= c && c <= 'Z') || c == '_';
            let digit = '0' <= c && c <= '9';
            &&& !is_variable_name(Seq::empty())
            &&& is_variable_name(seq![c]) <==> letter
            &&& is_variable_name(name) ==> (is_variable_name(name.push(c)) <==> letter || digit)
        }),
{
    assert(seq![c][0] == c);
    assert(name.push(c)[name.len() as int] == c);
    if is_variable_name(name) {
        assert(name.push(c)[0] == name[0]);
        assert forall|i: int| 0 <= i < name.len() implies is_variable_char(
            #[trigger] name.push(c)[i],
        ) by {
            assert(name.push(c)[i] == name[i]);
        }
    }
}

/// The command begins with what the shell sets variables by and the variable as it
/// was named, and the escapes of the whole key stand between quotes; nothing of
/// the key stands elsewhere.
pub proof fn law_commands_set_the_variable(shell: Seq<char>, variable: Seq<char>, key: Seq<char>)
    ensures
        ({
            let command = command_of(shell, variable, key);
            let escapes = octal_of(encode_utf8(key));
            &&& shell == "bash"@ ==> command == "export "@ + (variable + ("=$'"@ + (escapes
                + "'\n"@)))
            &&& shell == "csh"@ || shell == "tcsh"@ ==> command == "setenv "@ + (variable
                + (" \"`/usr/bin/printf '"@ + (escapes + "'`\"\n"@)))
        }),
{
    reveal_strlit("bash");
    reveal_strlit("csh");
    reveal_strlit("tcsh");
    assert("bash"@.len() == 4 && "csh"@.len() == 3 && "tcsh"@.len() == 4);
    assert("bash"@[0] != "tcsh"@[0]);
    let escapes = octal_of(encode_utf8(key));
    assert("export "@ + variable + "=$'"@ + escapes + "'\n"@ =~= "export "@ + (variable + ("=$'"@
        + (escapes + "'\n"@))));
    assert("setenv "@ + variable + " \"`/usr/bin/printf '"@ + escapes + "'`\"\n"@ =~= "setenv "@
        + (variable + (" \"`/usr/bin/printf '"@ + (escapes + "'`\"\n"@))));
}

} // verus!
