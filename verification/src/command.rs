//! The command registry: the closed set of named transformations, their
//! declaration order, their external names and the kind of input each needs.

use vstd::prelude::*;
use crate::strutil::str_eq;

verus! {

/// The closed set of commands the engine can run. The set is fixed at build
/// time; iteration order over it is the declaration order below.
#[derive(Clone, Copy, Debug, PartialEq, Eq, Structural)]
pub enum Command {
    ConfigEspanso,
    BinaryDecode,
    BinaryEncode,
    FormatJson,
    Ip,
    Password,
    RedditTop,
    Spongebob,
    Timestamp,
    Uuid4,
    Uuid7,
}

/// Where the text a command consumes comes from, if anywhere.
#[derive(Clone, Copy, Debug, PartialEq, Eq, Structural)]
pub enum InputKind {
    /// The command runs without any supplied text.
    NoInput,
    /// The command transforms the current clipboard contents.
    Clipboard,
    /// The command consumes the body of one HTTP GET.
    Network,
    /// The command consumes the running executable's resolved path.
    ExecPath,
}

impl Command {
    /// The external name of this command, as written on the command line and
    /// in rendered snippet bindings.
    pub open spec fn spec_name(self) -> Seq<char> {
        match self {
            Command::ConfigEspanso => "config-espanso"@,
            Command::BinaryDecode => "binary-decode"@,
            Command::BinaryEncode => "binary-encode"@,
            Command::FormatJson => "format-json"@,
            Command::Ip => "ip"@,
            Command::Password => "password"@,
            Command::RedditTop => "reddit-top"@,
            Command::Spongebob => "spongebob"@,
            Command::Timestamp => "timestamp"@,
            Command::Uuid4 => "uuid4"@,
            Command::Uuid7 => "uuid7"@,
        }
    }

    /// The external name of this command.
    pub fn name(&self) -> (r: &'static str)
        ensures
            r@ == self.spec_name(),
    {
        match self {
            Command::ConfigEspanso => "config-espanso",
            Command::BinaryDecode => "binary-decode",
            Command::BinaryEncode => "binary-encode",
            Command::FormatJson => "format-json",
            Command::Ip => "ip",
            Command::Password => "password",
            Command::RedditTop => "reddit-top",
            Command::Spongebob => "spongebob",
            Command::Timestamp => "timestamp",
            Command::Uuid4 => "uuid4",
            Command::Uuid7 => "uuid7",
        }
    }

    /// The kind of input this command's transformation consumes.
    pub open spec fn spec_input_kind(self) -> InputKind {
        match self {
            Command::ConfigEspanso => InputKind::ExecPath,
            Command::BinaryDecode => InputKind::Clipboard,
            Command::BinaryEncode => InputKind::Clipboard,
            Command::FormatJson => InputKind::Clipboard,
            Command::Ip => InputKind::Network,
            Command::Password => InputKind::Clipboard,
            Command::RedditTop => InputKind::Clipboard,
            Command::Spongebob => InputKind::Clipboard,
            Command::Timestamp => InputKind::NoInput,
            Command::Uuid4 => InputKind::NoInput,
            Command::Uuid7 => InputKind::NoInput,
        }
    }

    /// The kind of input this command's transformation consumes.
    pub fn input_kind(&self) -> (r: InputKind)
        ensures
            r == self.spec_input_kind(),
    {
        match self {
            Command::ConfigEspanso => InputKind::ExecPath,
            Command::BinaryDecode => InputKind::Clipboard,
            Command::BinaryEncode => InputKind::Clipboard,
            Command::FormatJson => InputKind::Clipboard,
            Command::Ip => InputKind::Network,
            Command::Password => InputKind::Clipboard,
            Command::RedditTop => InputKind::Clipboard,
            Command::Spongebob => InputKind::Clipboard,
            Command::Timestamp => InputKind::NoInput,
            Command::Uuid4 => InputKind::NoInput,
            Command::Uuid7 => InputKind::NoInput,
        }
    }
}

/// The registry's contents in declaration order.
pub open spec fn spec_all_commands() -> Seq<Command> {
    seq![
        Command::ConfigEspanso,
        Command::BinaryDecode,
        Command::BinaryEncode,
        Command::FormatJson,
        Command::Ip,
        Command::Password,
        Command::RedditTop,
        Command::Spongebob,
        Command::Timestamp,
        Command::Uuid4,
        Command::Uuid7,
    ]
}

/// Every registered command, in declaration order. The snippet emitter and
/// any enumeration of the registry rely on this order being stable.
pub fn all_commands() -> (r: Vec<Command>)
    ensures
        r@ == spec_all_commands(),
{
    let r: Vec<Command> = vec![
        Command::ConfigEspanso,
        Command::BinaryDecode,
        Command::BinaryEncode,
        Command::FormatJson,
        Command::Ip,
        Command::Password,
        Command::RedditTop,
        Command::Spongebob,
        Command::Timestamp,
        Command::Uuid4,
        Command::Uuid7,
    ];
    assert(r@ =~= spec_all_commands());
    r
}

/// The command a given external name resolves to, if any: the first command
/// in declaration order whose name equals the query.
pub open spec fn spec_lookup(s: Seq<char>) -> Option<Command> {
    if s == Command::ConfigEspanso.spec_name() {
        Some(Command::ConfigEspanso)
    } else if s == Command::BinaryDecode.spec_name() {
        Some(Command::BinaryDecode)
    } else if s == Command::BinaryEncode.spec_name() {
        Some(Command::BinaryEncode)
    } else if s == Command::FormatJson.spec_name() {
        Some(Command::FormatJson)
    } else if s == Command::Ip.spec_name() {
        Some(Command::Ip)
    } else if s == Command::Password.spec_name() {
        Some(Command::Password)
    } else if s == Command::RedditTop.spec_name() {
        Some(Command::RedditTop)
    } else if s == Command::Spongebob.spec_name() {
        Some(Command::Spongebob)
    } else if s == Command::Timestamp.spec_name() {
        Some(Command::Timestamp)
    } else if s == Command::Uuid4.spec_name() {
        Some(Command::Uuid4)
    } else if s == Command::Uuid7.spec_name() {
        Some(Command::Uuid7)
    } else {
        None
    }
}

/// Resolve an external command name in the registry.
pub fn lookup(name: &str) -> (r: Option<Command>)
    ensures
        r == spec_lookup(name@),
{
    if str_eq(name, "config-espanso") {
        Some(Command::ConfigEspanso)
    } else if str_eq(name, "binary-decode") {
        Some(Command::BinaryDecode)
    } else if str_eq(name, "binary-encode") {
        Some(Command::BinaryEncode)
    } else if str_eq(name, "format-json") {
        Some(Command::FormatJson)
    } else if str_eq(name, "ip") {
        Some(Command::Ip)
    } else if str_eq(name, "password") {
        Some(Command::Password)
    } else if str_eq(name, "reddit-top") {
        Some(Command::RedditTop)
    } else if str_eq(name, "spongebob") {
        Some(Command::Spongebob)
    } else if str_eq(name, "timestamp") {
        Some(Command::Timestamp)
    } else if str_eq(name, "uuid4") {
        Some(Command::Uuid4)
    } else if str_eq(name, "uuid7") {
        Some(Command::Uuid7)
    } else {
        None
    }
}

} // verus!
