//! The command-line grammar and the dispatcher: four subcommands, three of
//! which take one required argument, and the step from a subcommand name and
//! an optional argument to a closed set of invocations.

use crate::text::same_text;
use vstd::prelude::*;

verus! {

/// The four subcommands.
#[derive(Clone, Copy, Debug, PartialEq, Eq, Structural)]
pub enum Subcommand {
    UrlEncode,
    UrlDecode,
    Timestamp,
    AddCompletion,
}

/// One run of the tool: a subcommand together with the argument it needs.
#[derive(Debug, PartialEq, Eq)]
pub enum Invocation {
    /// `urlencode <input>`
    UrlEncode(String),
    /// `urldecode <input>`
    UrlDecode(String),
    /// `timestamp <timestamp>`
    Timestamp(String),
    /// `add-completion`
    AddCompletion,
}

/// Why a command line is no invocation.
#[derive(Clone, Copy, Debug, PartialEq, Eq, Structural)]
pub enum ArgError {
    /// No subcommand was given.
    MissingSubcommand,
    /// The name is none of the four subcommands.
    UnknownSubcommand,
    /// The subcommand needs an argument and none was given.
    MissingArgument,
    /// The subcommand takes no argument and one was given.
    UnexpectedArgument,
}

/// A positional argument of a subcommand.
#[derive(Clone, Copy, Debug, PartialEq, Eq)]
pub struct ArgSpec {
    pub name: &'static str,
    pub help: &'static str,
    /// The subcommand cannot be run without the argument.
    pub required: bool,
}

/// A subcommand of the grammar, with its argument if it takes one.
#[derive(Clone, Copy, Debug, PartialEq, Eq)]
pub struct SubcommandSpec {
    pub name: &'static str,
    pub about: &'static str,
    pub arg: Option<ArgSpec>,
}

/// The command-line grammar of the tool.
#[derive(Debug, PartialEq, Eq)]
pub struct CliSpec {
    pub name: &'static str,
    pub version: &'static str,
    pub author: &'static str,
    pub about: &'static str,
    /// A command line without a subcommand is refused.
    pub subcommand_required: bool,
    /// A command line without any argument is answered with the usage text.
    pub arg_required_else_help: bool,
    pub subcommands: Vec<SubcommandSpec>,
}

/// The subcommand that goes by `name`, if any does.
pub open spec fn subcommand_named(name: Seq<char>) -> Option<Subcommand> {
    if name == "urlencode"@ {
        Some(Subcommand::UrlEncode)
    } else if name == "urldecode"@ {
        Some(Subcommand::UrlDecode)
    } else if name == "timestamp"@ {
        Some(Subcommand::Timestamp)
    } else if name == "add-completion"@ {
        Some(Subcommand::AddCompletion)
    } else {
        None
    }
}

/// Whether a subcommand takes its one argument: all do but `add-completion`.
pub open spec fn takes_argument(subcommand: Subcommand) -> bool {
    subcommand != Subcommand::AddCompletion
}

/// `spec` describes a subcommand with one required argument.
pub open spec fn describes_with_argument(
    spec: SubcommandSpec,
    name: Seq<char>,
    about: Seq<char>,
    arg_name: Seq<char>,
    arg_help: Seq<char>,
) -> bool {
    &&& spec.name@ == name
    &&& spec.about@ == about
    &&& spec.arg matches Some(arg)
    &&& arg.name@ == arg_name
    &&& arg.help@ == arg_help
    &&& arg.required
}

/// `cli` is the grammar of the tool: a subcommand is required, and the four
/// subcommands stand in order, each with its description and its argument.
pub open spec fn is_tool_grammar(cli: CliSpec) -> bool {
    &&& cli.name@ == "my_dev_tool"@
    &&& cli.version@ == "1.0"@
    &&& cli.author@ == "tommy <mcg91881127@163.com>"@
    &&& cli.about@ == "Developer's tool for urlencode and time format!"@
    &&& cli.subcommand_required
    &&& cli.arg_required_else_help
    &&& cli.subcommands@.len() == 4
    &&& describes_with_argument(
        cli.subcommands@[0],
        "urlencode"@,
        "URL-encode a string"@,
        "input"@,
        "String to encode"@,
    )
    &&& describes_with_argument(
        cli.subcommands@[1],
        "urldecode"@,
        "URL-decode a string"@,
        "input"@,
        "String to decode"@,
    )
    &&& describes_with_argument(
        cli.subcommands@[2],
        "timestamp"@,
        "Convert a UNIX timestamp to local datetime"@,
        "timestamp"@,
        "UNIX timestamp"@,
    )
    &&& cli.subcommands@[3].name@ == "add-completion"@
    &&& cli.subcommands@[3].about@ == "Generates completion scripts for your shell"@
    &&& cli.subcommands@[3].arg is None
}

impl Invocation {
    /// The subcommand of this invocation.
    pub open spec fn subcommand_spec(self) -> Subcommand {
        match self {
            Invocation::UrlEncode(_) => Subcommand::UrlEncode,
            Invocation::UrlDecode(_) => Subcommand::UrlDecode,
            Invocation::Timestamp(_) => Subcommand::Timestamp,
            Invocation::AddCompletion => Subcommand::AddCompletion,
        }
    }

    /// The argument of this invocation, if its subcommand takes one.
    pub open spec fn argument_spec(self) -> Option<Seq<char>> {
        match self {
            Invocation::UrlEncode(input) => Some(input@),
            Invocation::UrlDecode(input) => Some(input@),
            Invocation::Timestamp(timestamp) => Some(timestamp@),
            Invocation::AddCompletion => None,
        }
    }

    /// The subcommand of this invocation.
    pub fn subcommand(&self) -> (subcommand: Subcommand)
        ensures
            subcommand == self.subcommand_spec(),
    {
        match self {
            Invocation::UrlEncode(_) => Subcommand::UrlEncode,
            Invocation::UrlDecode(_) => Subcommand::UrlDecode,
            Invocation::Timestamp(_) => Subcommand::Timestamp,
            Invocation::AddCompletion => Subcommand::AddCompletion,
        }
    }
}

impl Subcommand {
    /// The subcommand that goes by `name`, if any does.
    pub fn from_name(name: &str) -> (subcommand: Option<Subcommand>)
        ensures
            subcommand == subcommand_named(name@),
    {
        if same_text(name, "urlencode") {
            Some(Subcommand::UrlEncode)
        } else if same_text(name, "urldecode") {
            Some(Subcommand::UrlDecode)
        } else if same_text(name, "timestamp") {
            Some(Subcommand::Timestamp)
        } else if same_text(name, "add-completion") {
            Some(Subcommand::AddCompletion)
        } else {
            None
        }
    }

    /// The name that the subcommand goes by on the command line.
    pub fn name(&self) -> (name: &'static str)
        ensures
            name@ == match *self {
                Subcommand::UrlEncode => "urlencode"@,
                Subcommand::UrlDecode => "urldecode"@,
                Subcommand::Timestamp => "timestamp"@,
                Subcommand::AddCompletion => "add-completion"@,
            },
    {
        match self {
            Subcommand::UrlEncode => "urlencode",
            Subcommand::UrlDecode => "urldecode",
            Subcommand::Timestamp => "timestamp",
            Subcommand::AddCompletion => "add-completion",
        }
    }
}

/// The grammar of the tool.
pub fn build_cli() -> (cli: CliSpec)
    ensures
        is_tool_grammar(cli),
{
    let mut subcommands: Vec<SubcommandSpec> = Vec::new();
    subcommands.push(
        SubcommandSpec {
            name: "urlencode",
            about: "URL-encode a string",
            arg: Some(ArgSpec { name: "input", help: "String to encode", required: true }),
        },
    );
    subcommands.push(
        SubcommandSpec {
            name: "urldecode",
            about: "URL-decode a string",
            arg: Some(ArgSpec { name: "input", help: "String to decode", required: true }),
        },
    );
    subcommands.push(
        SubcommandSpec {
            name: "timestamp",
            about: "Convert a UNIX timestamp to local datetime",
            arg: Some(ArgSpec { name: "timestamp", help: "UNIX timestamp", required: true }),
        },
    );
    subcommands.push(
        SubcommandSpec {
            name: "add-completion",
            about: "Generates completion scripts for your shell",
            arg: None,
        },
    );
    CliSpec {
        name: "my_dev_tool",
        version: "1.0",
        author: "tommy <mcg91881127@163.com>",
        about: "Developer's tool for urlencode and time format!",
        subcommand_required: true,
        arg_required_else_help: true,
        subcommands,
    }
}

/// Turns a subcommand name and an argument, either of which may be absent,
/// into an invocation. Each error comes on exactly the inputs that its
/// variant names: no name, a name that is no subcommand, a subcommand
/// without the argument it needs, `add-completion` with an argument.
pub fn dispatch(name: Option<&str>, argument: Option<String>) -> (dispatched: Result<
    Invocation,
    ArgError,
>)
    ensures
        match dispatched {
            Ok(invocation) => name matches Some(given) && subcommand_named(given@) == Some(
                invocation.subcommand_spec(),
            ) && invocation.argument_spec() == match argument {
                Some(text) => Some(text@),
                None => None,
            },
            Err(ArgError::MissingSubcommand) => name is None,
            Err(ArgError::UnknownSubcommand) => name matches Some(given) && subcommand_named(
                given@,
            ) is None,
            Err(ArgError::MissingArgument) => name matches Some(given) && subcommand_named(
                given@,
            ) matches Some(subcommand) && takes_argument(subcommand) && argument is None,
            Err(ArgError::UnexpectedArgument) => name matches Some(given) && subcommand_named(
                given@,
            ) == Some(Subcommand::AddCompletion) && argument is Some,
        },
{
    let given = match name {
        Some(given) => given,
        None => { return Err(ArgError::MissingSubcommand); },
    };
    let subcommand = match Subcommand::from_name(given) {
        Some(subcommand) => subcommand,
        None => { return Err(ArgError::UnknownSubcommand); },
    };
    match subcommand {
        Subcommand::AddCompletion => match argument {
            Some(_) => Err(ArgError::UnexpectedArgument),
            None => Ok(Invocation::AddCompletion),
        },
        Subcommand::UrlEncode => match argument {
            Some(input) => Ok(Invocation::UrlEncode(input)),
            None => Err(ArgError::MissingArgument),
        },
        Subcommand::UrlDecode => match argument {
            Some(input) => Ok(Invocation::UrlDecode(input)),
            None => Err(ArgError::MissingArgument),
        },
        Subcommand::Timestamp => match argument {
            Some(timestamp) => Ok(Invocation::Timestamp(timestamp)),
            None => Err(ArgError::MissingArgument),
        },
    }
}

impl ArgError {
    /// A sentence for the user that says what the command line lacks.
    pub fn message(&self) -> (message: &'static str)
        ensures
            message@ == match *self {
                ArgError::MissingSubcommand => "a subcommand is required"@,
                ArgError::UnknownSubcommand => "unrecognized subcommand"@,
                ArgError::MissingArgument => "the subcommand requires an argument"@,
                ArgError::UnexpectedArgument => "the subcommand takes no argument"@,
            },
    {
        match self {
            ArgError::MissingSubcommand => "a subcommand is required",
            ArgError::UnknownSubcommand => "unrecognized subcommand",
            ArgError::MissingArgument => "the subcommand requires an argument",
            ArgError::UnexpectedArgument => "the subcommand takes no argument",
        }
    }
}

/// The dispatcher and the grammar agree: a name is a subcommand to the
/// dispatcher exactly when the grammar lists it, and the dispatcher asks for
/// an argument exactly when the grammar gives that subcommand one, which is
/// then required.
pub proof fn lemma_dispatch_matches_grammar(cli: CliSpec, name: Seq<char>)
    requires
        is_tool_grammar(cli),
    ensures
        subcommand_named(name) is Some <==> exists|i: int|
            0 <= i < cli.subcommands@.len() && (#[trigger] cli.subcommands@[i]).name@ == name,
        forall|i: int|
            0 <= i < cli.subcommands@.len() && (#[trigger] cli.subcommands@[i]).name@ == name
                ==> (takes_argument(subcommand_named(name)->0) <==> cli.subcommands@[i].arg
                is Some) && (cli.subcommands@[i].arg matches Some(arg) ==> arg.required),
{
    reveal_strlit("urlencode");
    reveal_strlit("urldecode");
    reveal_strlit("timestamp");
    reveal_strlit("add-completion");
    let listed = cli.subcommands@;
    assert("urlencode"@[3] != "urldecode"@[3]);
    assert("urlencode"@[0] != "timestamp"@[0]);
    assert("urldecode"@[0] != "timestamp"@[0]);
    assert("add-completion"@.len() != "urlencode"@.len());
    if name == "urlencode"@ {
        assert(listed[0].name@ == name);
    } else if name == "urldecode"@ {
        assert(listed[1].name@ == name);
    } else if name == "timestamp"@ {
        assert(listed[2].name@ == name);
    } else if name == "add-completion"@ {
        assert(listed[3].name@ == name);
    }
}

} // verus!
