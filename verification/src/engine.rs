//! Engines and their commands: a named external program, its set of uniquely
//! named commands, template validation, and resolution of the exact process
//! invocation for a command and a query.

use vstd::prelude::*;
use vstd::utf8::{decode_utf8, valid_utf8};

use crate::template;
use crate::template::{contains_placeholder, replace_placeholder, split_spaces};

verus! {

/// Errors of the engine layer.
#[derive(PartialEq, Eq, Structural, Debug)]
pub enum EngineError {
    /// Adding a command whose name an engine already holds.
    CommandExists,
    /// An argument template without the query placeholder.
    InvalidArgs,
    /// An invalid engine path.
    InvalidEnginePath,
    /// The external program could not be started or run to completion.
    ExecutionFailed,
    /// A command name the engine does not know.
    UnknownCommand,
    /// The external program produced output that is not text.
    UnknownError,
}

/// The text of each engine error, as `EngineError::describe` returns it.
pub open spec fn engine_error_text(e: EngineError) -> Seq<char> {
    match e {
        EngineError::CommandExists => "Command exists already"@,
        EngineError::InvalidArgs => "Invalid arguments has provided"@,
        EngineError::InvalidEnginePath => "Invalid engine path has provided"@,
        EngineError::ExecutionFailed => "Failed to execute command"@,
        EngineError::UnknownCommand => "Unknown command has given"@,
        EngineError::UnknownError => "Unknown error"@,
    }
}

impl EngineError {
    /// A human-readable description of the error.
    pub fn describe(&self) -> (r: &'static str)
        ensures
            r@ == engine_error_text(*self),
    {
        match *self {
            EngineError::CommandExists => "Command exists already",
            EngineError::InvalidArgs => "Invalid arguments has provided",
            EngineError::InvalidEnginePath => "Invalid engine path has provided",
            EngineError::ExecutionFailed => "Failed to execute command",
            EngineError::UnknownCommand => "Unknown command has given",
            EngineError::UnknownError => "Unknown error",
        }
    }
}

/// The mathematical value of a [`Command`].
pub struct CommandModel {
    pub name: Seq<char>,
    pub args: Seq<char>,
    pub description: Option<Seq<char>>,
}

impl CommandModel {
    /// A command is well formed when its template contains the placeholder.
    pub open spec fn wf(self) -> bool {
        contains_placeholder(self.args)
    }
}

/// A named argument template of an engine. Invariant: the template contains
/// the query placeholder at least once; violating templates are rejected at
/// construction and never stored.
#[derive(Clone, Debug)]
pub struct Command {
    name: String,
    args: String,
    description: Option<String>,
}

impl View for Command {
    type V = CommandModel;

    closed spec fn view(&self) -> CommandModel {
        CommandModel {
            name: self.name@,
            args: self.args@,
            description: self.description.deep_view(),
        }
    }
}

impl DeepView for Command {
    type V = CommandModel;

    open spec fn deep_view(&self) -> CommandModel {
        self.view()
    }
}

impl Command {
    /// True when the stored template contains the placeholder.
    pub open spec fn wf(&self) -> bool {
        self@.wf()
    }

    /// Builds a command; the template must contain the placeholder, any other
    /// template is rejected with `InvalidArgs` and nothing is stored.
    pub fn new(name: &str, args: &str, description: Option<&str>) -> (r: Result<
        Command,
        EngineError,
    >)
        ensures
            match r {
                Ok(c) => contains_placeholder(args@) && c.wf() && c@ == (CommandModel {
                    name: name@,
                    args: args@,
                    description: description.deep_view(),
                }),
                Err(e) => !contains_placeholder(args@) && e == EngineError::InvalidArgs,
            },
    {
        if !template::has_placeholder(args) {
            Err(EngineError::InvalidArgs)
        } else {
            Ok(
                Command {
                    name: name.to_owned(),
                    args: args.to_owned(),
                    description: match description {
                        Some(d) => Some(d.to_owned()),
                        None => None,
                    },
                },
            )
        }
    }

    /// Renders the template: every occurrence of the placeholder is replaced
    /// by `query`, verbatim; nothing else changes.
    pub fn parse_args(&self, query: &str) -> (r: String)
        ensures
            r@ == replace_placeholder(self@.args, query@),
    {
        template::render(self.args.as_str(), query)
    }

    /// The command's description, if it has one.
    pub fn get_description(&self) -> (r: Option<&String>)
        ensures
            r.deep_view() == self@.description,
    {
        self.description.as_ref()
    }

    /// The command's name.
    pub fn get_name(&self) -> (r: &str)
        ensures
            r@ == self@.name,
    {
        self.name.as_str()
    }
}

/// The mathematical value of an [`Engine`].
pub struct EngineModel {
    pub name: Seq<char>,
    pub path: Seq<char>,
    pub commands: Seq<CommandModel>,
    pub prefix: Option<Seq<char>>,
    pub description: Option<Seq<char>>,
}

impl EngineModel {
    /// An engine is well formed when its commands are well formed and their
    /// names are pairwise distinct.
    pub open spec fn wf(self) -> bool {
        &&& forall|i: int| 0 <= i < self.commands.len() ==> (#[trigger] self.commands[i]).wf()
        &&& forall|i: int, j: int|
            0 <= i < j < self.commands.len() ==> (#[trigger] self.commands[i]).name != (
            #[trigger] self.commands[j]).name
    }

    /// True when some command of the engine has the given name.
    pub open spec fn has_command(self, name: Seq<char>) -> bool {
        exists|i: int| 0 <= i < self.commands.len() && (#[trigger] self.commands[i]).name == name
    }
}

/// The first command with the given name, as `Iterator::find` picks it.
pub open spec fn find_command(cmds: Seq<CommandModel>, name: Seq<char>) -> Option<CommandModel>
    decreases cmds.len(),
{
    if cmds.len() == 0 {
        None
    } else if cmds[0].name == name {
        Some(cmds[0])
    } else {
        find_command(cmds.drop_first(), name)
    }
}

/// Relates `find_command` to a scan that found no match before index `i`.
proof fn lemma_find_command_scan(cmds: Seq<CommandModel>, name: Seq<char>, i: int)
    requires
        0 <= i <= cmds.len(),
        forall|j: int| 0 <= j < i ==> (#[trigger] cmds[j]).name != name,
    ensures
        i == cmds.len() ==> find_command(cmds, name) is None,
        i < cmds.len() && cmds[i].name == name ==> find_command(cmds, name) == Some(cmds[i]),
    decreases i,
{
    if i == 0 {
    } else {
        let t = cmds.drop_first();
        assert(forall|j: int| 0 <= j < i - 1 ==> (#[trigger] t[j]).name != name);
        lemma_find_command_scan(t, name, i - 1);
        assert(cmds[0].name != name);
        if i < cmds.len() && cmds[i].name == name {
            assert(t[i - 1] == cmds[i]);
        }
    }
}

/// The mathematical value of an [`Invocation`].
pub struct InvocationModel {
    pub program: Seq<char>,
    pub args: Seq<Seq<char>>,
}

/// A fully resolved external process invocation: the program to run and its
/// argument list, in order.
#[derive(Clone, Debug)]
pub struct Invocation {
    pub program: String,
    pub args: Vec<String>,
}

impl View for Invocation {
    type V = InvocationModel;

    open spec fn view(&self) -> InvocationModel {
        InvocationModel { program: self.program@, args: self.args.deep_view() }
    }
}

/// The invocation that engine `e` resolves for command `c` and query `q`: the
/// rendered template is split on single spaces into tokens; with a prefix the
/// program is the prefix and the engine path is the first argument, otherwise
/// the program is the path and the tokens stand alone.
pub open spec fn invocation_for(e: EngineModel, c: CommandModel, q: Seq<char>) -> InvocationModel {
    let tokens = split_spaces(replace_placeholder(c.args, q));
    match e.prefix {
        Some(p) => InvocationModel { program: p, args: seq![e.path] + tokens },
        None => InvocationModel { program: e.path, args: tokens },
    }
}

/// A named external program together with its set of uniquely named commands.
/// Invariant: command names are pairwise distinct, enforced by rejecting
/// duplicate inserts.
#[derive(Debug)]
pub struct Engine {
    name: String,
    path: String,
    commands: Vec<Command>,
    prefix: Option<String>,
    description: Option<String>,
}

impl View for Engine {
    type V = EngineModel;

    closed spec fn view(&self) -> EngineModel {
        EngineModel {
            name: self.name@,
            path: self.path@,
            commands: self.commands.deep_view(),
            prefix: self.prefix.deep_view(),
            description: self.description.deep_view(),
        }
    }
}

impl DeepView for Engine {
    type V = EngineModel;

    open spec fn deep_view(&self) -> EngineModel {
        self.view()
    }
}

impl Engine {
    /// Well-formedness of the engine's commands and their names.
    pub open spec fn wf(&self) -> bool {
        self@.wf()
    }

    /// Builds an engine with no commands yet.
    pub fn new(name: &str, path: &str, prefix: Option<&str>, description: Option<&str>) -> (r:
        Engine)
        ensures
            r.wf(),
            r@ == (EngineModel {
                name: name@,
                path: path@,
                commands: Seq::<CommandModel>::empty(),
                prefix: prefix.deep_view(),
                description: description.deep_view(),
            }),
    {
        let r = Engine {
            name: name.to_owned(),
            path: path.to_owned(),
            commands: Vec::new(),
            prefix: match prefix {
                Some(p) => Some(p.to_owned()),
                None => None,
            },
            description: match description {
                Some(d) => Some(d.to_owned()),
                None => None,
            },
        };
        proof {
            assert(r.commands.deep_view() =~= Seq::<CommandModel>::empty());
        }
        r
    }

    /// The engine's name.
    pub fn get_name(&self) -> (r: &str)
        ensures
            r@ == self@.name,
    {
        self.name.as_str()
    }

    /// The engine's description, if it has one.
    pub fn get_description(&self) -> (r: Option<&String>)
        ensures
            r.deep_view() == self@.description,
    {
        self.description.as_ref()
    }

    /// The name and description of every command, in the order the commands
    /// were added; a snapshot that shares nothing with the engine's state.
    pub fn list_commands(&self) -> (r: Vec<(String, Option<String>)>)
        ensures
            r.deep_view().len() == self@.commands.len(),
            forall|i: int|
                0 <= i < self@.commands.len() ==> #[trigger] r.deep_view()[i] == (
                self@.commands[i].name, self@.commands[i].description),
    {
        let mut r: Vec<(String, Option<String>)> = Vec::new();
        let n = self.commands.len();
        let mut i: usize = 0;
        while i < n
            invariant
                n == self.commands.len(),
                i <= n,
                r.deep_view().len() == i,
                forall|j: int|
                    0 <= j < i ==> #[trigger] r.deep_view()[j] == (
                    self.commands.deep_view()[j].name, self.commands.deep_view()[j].description),
            decreases n - i,
        {
            let c = &self.commands[i];
            let name = c.name.clone();
            let description = match c.description.as_ref() {
                Some(d) => Some(d.clone()),
                None => None,
            };
            let ghost dv = r.deep_view();
            proof {
                assert(name@ == self.commands.deep_view()[i as int].name);
                assert(description.deep_view() == self.commands.deep_view()[i as int].description);
            }
            r.push((name, description));
            proof {
                assert(r.deep_view() =~= dv + seq![(name@, description.deep_view())]);
            }
            i += 1;
        }
        r
    }

    // Whether a command with the given name exists already.
    fn is_command_exists(&self, name: &str) -> (r: bool)
        ensures
            r == self@.has_command(name@),
    {
        let n = self.commands.len();
        let mut i: usize = 0;
        while i < n
            invariant
                n == self.commands.len(),
                i <= n,
                forall|j: int|
                    0 <= j < i ==> (#[trigger] self.commands.deep_view()[j]).name != name@,
            decreases n - i,
        {
            if template::str_eq(self.commands[i].name.as_str(), name) {
                assert(self.commands.deep_view()[i as int].name == name@);
                return true;
            }
            i += 1;
        }
        false
    }

    /// Creates a command and adds it to the engine. Fails with
    /// `CommandExists`, changing nothing, when a command with that name is
    /// already present; fails with `InvalidArgs`, changing nothing, when the
    /// template lacks the placeholder.
    pub fn new_command(&mut self, name: &str, args: &str, description: Option<&str>) -> (r: Result<
        (),
        EngineError,
    >)
        requires
            old(self).wf(),
        ensures
            final(self).wf(),
            match r {
                Ok(()) => !old(self)@.has_command(name@) && contains_placeholder(args@)
                    && final(self)@ == (EngineModel {
                    commands: old(self)@.commands + seq![
                        CommandModel {
                            name: name@,
                            args: args@,
                            description: description.deep_view(),
                        },
                    ],
                    ..old(self)@
                }),
                Err(EngineError::CommandExists) => old(self)@.has_command(name@) && *final(self)
                    == *old(self),
                Err(EngineError::InvalidArgs) => !old(self)@.has_command(name@)
                    && !contains_placeholder(args@) && *final(self) == *old(self),
                Err(_) => false,
            },
    {
        if self.is_command_exists(name) {
            return Err(EngineError::CommandExists);
        }
        match Command::new(name, args, description) {
            Ok(command) => {
                let ghost cs = self.commands.deep_view();
                self.commands.push(command);
                proof {
                    assert(self.commands.deep_view() =~= cs + seq![command@]);
                }
                Ok(())
            },
            Err(err) => Err(err),
        }
    }

    /// Adds a given command to the engine. Fails with `CommandExists`,
    /// changing nothing, when a command with that name is already present.
    pub fn add_command(&mut self, command: Command) -> (r: Result<(), EngineError>)
        requires
            old(self).wf(),
            command.wf(),
        ensures
            final(self).wf(),
            match r {
                Ok(()) => !old(self)@.has_command(command@.name) && final(self)@ == (EngineModel {
                    commands: old(self)@.commands + seq![command@],
                    ..old(self)@
                }),
                Err(EngineError::CommandExists) => old(self)@.has_command(command@.name)
                    && *final(self) == *old(self),
                Err(_) => false,
            },
    {
        if self.is_command_exists(command.get_name()) {
            return Err(EngineError::CommandExists);
        }
        let ghost cs = self.commands.deep_view();
        let ghost cv = command@;
        self.commands.push(command);
        proof {
            assert(self.commands.deep_view() =~= cs + seq![cv]);
        }
        Ok(())
    }

    /// The first command with the given name, if the engine has one.
    pub fn find_command_ref(&self, name: &str) -> (r: Option<&Command>)
        ensures
            match r {
                Some(c) => find_command(self@.commands, name@) == Some(c@),
                None => find_command(self@.commands, name@) is None && !self@.has_command(name@),
            },
    {
        let n = self.commands.len();
        let mut i: usize = 0;
        while i < n
            invariant
                n == self.commands.len(),
                i <= n,
                forall|j: int|
                    0 <= j < i ==> (#[trigger] self.commands.deep_view()[j]).name != name@,
            decreases n - i,
        {
            if template::str_eq(self.commands[i].name.as_str(), name) {
                proof {
                    lemma_find_command_scan(self.commands.deep_view(), name@, i as int);
                }
                return Some(&self.commands[i]);
            }
            i += 1;
        }
        proof {
            lemma_find_command_scan(self.commands.deep_view(), name@, n as int);
        }
        None
    }

    /// Resolves the invocation for a command and a query: looks the command
    /// up (first match, `UnknownCommand` when absent), renders its template
    /// with the query, splits the rendered string on single spaces, and
    /// builds the program and argument list around the optional prefix.
    pub fn execute(&self, command_name: &str, query: &str) -> (r: Result<Invocation, EngineError>)
        ensures
            match r {
                Ok(inv) => find_command(self@.commands, command_name@) matches Some(c) && inv@
                    == invocation_for(self@, c, query@),
                Err(e) => e == EngineError::UnknownCommand && find_command(
                    self@.commands,
                    command_name@,
                ) is None && !self@.has_command(command_name@),
            },
    {
        let n = self.commands.len();
        let mut i: usize = 0;
        while i < n
            invariant
                n == self.commands.len(),
                i <= n,
                forall|j: int|
                    0 <= j < i ==> (#[trigger] self.commands.deep_view()[j]).name
                        != command_name@,
            decreases n - i,
        {
            if template::str_eq(self.commands[i].name.as_str(), command_name) {
                proof {
                    lemma_find_command_scan(self.commands.deep_view(), command_name@, i as int);
                }
                let command = &self.commands[i];
                let rendered = command.parse_args(query);
                let tokens = template::split_on_spaces(rendered.as_str());
                let r = match self.prefix.as_ref() {
                    Some(p) => {
                        let mut args: Vec<String> = Vec::new();
                        args.push(self.path.clone());
                        let mut tokens = tokens;
                        let ghost tv = tokens.deep_view();
                        args.append(&mut tokens);
                        proof {
                            assert(args.deep_view() =~= seq![self.path@] + tv);
                        }
                        Invocation { program: p.clone(), args }
                    },
                    None => Invocation { program: self.path.clone(), args: tokens },
                };
                return Ok(r);
            }
            i += 1;
        }
        proof {
            lemma_find_command_scan(self.commands.deep_view(), command_name@, n as int);
        }
        Err(EngineError::UnknownCommand)
    }
}

/// Relies on `String::from_utf8`: returns the decoded string exactly when the
/// bytes are valid UTF-8, and nothing otherwise.
#[verifier::external_body]
fn bytes_to_string(bytes: Vec<u8>) -> (r: Option<String>)
    ensures
        match r {
            Some(s) => valid_utf8(bytes@) && s@ == decode_utf8(bytes@),
            None => !valid_utf8(bytes@),
        },
{
    match String::from_utf8(bytes) {
        Ok(s) => Some(s),
        Err(_) => None,
    }
}

/// Interprets what came back from running an invocation: `None` (the process
/// could not be started or run to completion) is `ExecutionFailed`; captured
/// standard output is returned decoded as text, unmodified, or `UnknownError`
/// when it is not valid UTF-8. Exit code and standard error are ignored by
/// design.
pub fn interpret_output(output: Option<Vec<u8>>) -> (r: Result<String, EngineError>)
    ensures
        match output {
            None => r == Err::<String, EngineError>(EngineError::ExecutionFailed),
            Some(bytes) => match r {
                Ok(s) => valid_utf8(bytes@) && s@ == decode_utf8(bytes@),
                Err(e) => e == EngineError::UnknownError && !valid_utf8(bytes@),
            },
        },
{
    match output {
        None => Err(EngineError::ExecutionFailed),
        Some(bytes) => match bytes_to_string(bytes) {
            Some(s) => Ok(s),
            None => Err(EngineError::UnknownError),
        },
    }
}

} // verus!
