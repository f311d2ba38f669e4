//! The engine registry: owns the collection of engines, keeps their names
//! unique, and delegates execution and command listing to the matching
//! engine.

use vstd::prelude::*;

use crate::engine::{
    engine_error_text, find_command, invocation_for, CommandModel, Engine, EngineError,
    EngineModel, Invocation,
};
use crate::template::contains_placeholder;

verus! {

/// A command entry of an engine descriptor, as plain values: the name, the
/// argument template, an optional description.
pub struct CommandDescriptor {
    pub name: String,
    pub args: String,
    pub description: Option<String>,
}

impl DeepView for CommandDescriptor {
    type V = CommandModel;

    open spec fn deep_view(&self) -> CommandModel {
        CommandModel {
            name: self.name@,
            args: self.args@,
            description: self.description.deep_view(),
        }
    }
}

/// An engine descriptor, as the configuration collaborator hands it over:
/// plain values only, not yet validated.
pub struct EngineDescriptor {
    pub name: String,
    pub path: String,
    pub prefix: Option<String>,
    pub description: Option<String>,
    pub commands: Vec<CommandDescriptor>,
}

impl View for EngineDescriptor {
    type V = EngineModel;

    open spec fn view(&self) -> EngineModel {
        EngineModel {
            name: self.name@,
            path: self.path@,
            commands: self.commands.deep_view(),
            prefix: self.prefix.deep_view(),
            description: self.description.deep_view(),
        }
    }
}

/// Adds the given commands to an engine, in order, exactly as repeated
/// `Engine::new_command` calls would: the first duplicate name or template
/// without the placeholder stops the fold with that error.
pub open spec fn add_commands(e: EngineModel, cs: Seq<CommandModel>) -> Result<
    EngineModel,
    EngineError,
>
    decreases cs.len(),
{
    if cs.len() == 0 {
        Ok(e)
    } else if e.has_command(cs[0].name) {
        Err(EngineError::CommandExists)
    } else if !contains_placeholder(cs[0].args) {
        Err(EngineError::InvalidArgs)
    } else {
        add_commands(EngineModel { commands: e.commands + seq![cs[0]], ..e }, cs.drop_first())
    }
}

/// Builds an engine from a descriptor: every command template must contain
/// the placeholder and the command names must be pairwise distinct, else the
/// first offence is reported as `InvalidConfig` with the engine error's text.
pub fn build_engine(descriptor: &EngineDescriptor) -> (r: Result<Engine, Error>)
    ensures
        match r {
            Ok(en) => en.wf() && add_commands(
                EngineModel { commands: Seq::<CommandModel>::empty(), ..descriptor@ },
                descriptor@.commands,
            ) == Ok::<EngineModel, EngineError>(en@),
            Err(Error::InvalidConfig(d)) => add_commands(
                EngineModel { commands: Seq::<CommandModel>::empty(), ..descriptor@ },
                descriptor@.commands,
            ) matches Err(ee) && d@ == engine_error_text(ee),
            Err(_) => false,
        },
{
    let prefix: Option<&str> = match descriptor.prefix.as_ref() {
        Some(p) => Some(p.as_str()),
        None => None,
    };
    let description: Option<&str> = match descriptor.description.as_ref() {
        Some(d) => Some(d.as_str()),
        None => None,
    };
    let mut engine = Engine::new(
        descriptor.name.as_str(),
        descriptor.path.as_str(),
        prefix,
        description,
    );
    let ghost base = engine@;
    let ghost cs = descriptor.commands.deep_view();
    let n = descriptor.commands.len();
    let mut k: usize = 0;
    proof {
        assert(base == EngineModel { commands: Seq::<CommandModel>::empty(), ..descriptor@ });
        assert(cs.subrange(0, n as int) =~= cs);
    }
    while k < n
        invariant
            n == descriptor.commands.len(),
            k <= n,
            cs == descriptor.commands.deep_view(),
            base == (EngineModel { commands: Seq::<CommandModel>::empty(), ..descriptor@ }),
            engine.wf(),
            add_commands(base, cs) == add_commands(engine@, cs.subrange(k as int, n as int)),
        decreases n - k,
    {
        let c = &descriptor.commands[k];
        let desc: Option<&str> = match c.description.as_ref() {
            Some(d) => Some(d.as_str()),
            None => None,
        };
        proof {
            let suffix = cs.subrange(k as int, n as int);
            assert(suffix[0] == cs[k as int]);
            assert(suffix.drop_first() =~= cs.subrange(k + 1, n as int));
        }
        let ghost before = engine@;
        match engine.new_command(c.name.as_str(), c.args.as_str(), desc) {
            Ok(()) => {
                proof {
                    let suffix = cs.subrange(k as int, n as int);
                    assert(engine@.commands =~= before.commands + seq![suffix[0]]);
                    assert(engine@ == EngineModel {
                        commands: before.commands + seq![suffix[0]],
                        ..before
                    });
                    assert(add_commands(before, suffix) == add_commands(
                        engine@,
                        cs.subrange(k + 1, n as int),
                    ));
                }
            },
            Err(e) => {
                proof {
                    let suffix = cs.subrange(k as int, n as int);
                    assert(add_commands(before, suffix) == Err::<EngineModel, EngineError>(e));
                }
                return Err(Error::InvalidConfig(e.describe().to_owned()));
            },
        }
        k += 1;
    }
    proof {
        assert(cs.subrange(n as int, n as int) =~= Seq::<CommandModel>::empty());
    }
    Ok(engine)
}

/// Errors of the registry layer.
#[derive(Debug, PartialEq)]
pub enum Error {
    /// Adding an engine whose name the registry already holds.
    EngineExists,
    /// An engine name the registry does not know.
    UnknownEngine,
    /// Any failure that an engine reports is collapsed to this variant at the
    /// registry boundary.
    UnkownCommand,
    /// A descriptor that does not describe a valid engine, with a detail text.
    InvalidConfig(String),
}

/// Every failure of an engine is collapsed to `UnkownCommand` at the registry
/// boundary; the distinction between the engine's error kinds is lost here by
/// design, and this mapping is the single place that loses it.
pub fn collapse_engine_error(e: EngineError) -> (r: Error)
    ensures
        r == Error::UnkownCommand,
{
    match e {
        _ => Error::UnkownCommand,
    }
}

/// The first engine with the given name, as a linear scan finds it.
pub open spec fn find_engine(es: Seq<EngineModel>, name: Seq<char>) -> Option<EngineModel>
    decreases es.len(),
{
    if es.len() == 0 {
        None
    } else if es[0].name == name {
        Some(es[0])
    } else {
        find_engine(es.drop_first(), name)
    }
}

/// The engines with the first one of the given name removed; without one of
/// that name, the sequence itself.
pub open spec fn remove_engine_model(es: Seq<EngineModel>, name: Seq<char>) -> Seq<EngineModel>
    decreases es.len(),
{
    if es.len() == 0 {
        es
    } else if es[0].name == name {
        es.drop_first()
    } else {
        seq![es[0]] + remove_engine_model(es.drop_first(), name)
    }
}

/// Relates `find_engine` to a scan that found no match before index `i`.
proof fn lemma_find_engine_scan(es: Seq<EngineModel>, name: Seq<char>, i: int)
    requires
        0 <= i <= es.len(),
        forall|j: int| 0 <= j < i ==> (#[trigger] es[j]).name != name,
    ensures
        i == es.len() ==> find_engine(es, name) is None,
        i < es.len() && es[i].name == name ==> find_engine(es, name) == Some(es[i]),
    decreases i,
{
    if i > 0 {
        let t = es.drop_first();
        assert(forall|j: int| 0 <= j < i - 1 ==> (#[trigger] t[j]).name != name);
        lemma_find_engine_scan(t, name, i - 1);
        if i < es.len() && es[i].name == name {
            assert(t[i - 1] == es[i]);
        }
    }
}

/// Relates `remove_engine_model` to a scan that found no match before `i`.
proof fn lemma_remove_engine_scan(es: Seq<EngineModel>, name: Seq<char>, i: int)
    requires
        0 <= i <= es.len(),
        forall|j: int| 0 <= j < i ==> (#[trigger] es[j]).name != name,
    ensures
        i == es.len() ==> remove_engine_model(es, name) == es,
        i < es.len() && es[i].name == name ==> remove_engine_model(es, name) == es.subrange(0, i)
            + es.subrange(i + 1, es.len() as int),
    decreases i,
{
    if i == 0 {
        if es.len() > 0 && es[0].name == name {
            assert(remove_engine_model(es, name) =~= es.subrange(0, 0) + es.subrange(
                1,
                es.len() as int,
            ));
        } else if es.len() == 0 {
            assert(remove_engine_model(es, name) =~= es);
        }
    } else {
        let t = es.drop_first();
        assert(forall|j: int| 0 <= j < i - 1 ==> (#[trigger] t[j]).name != name);
        lemma_remove_engine_scan(t, name, i - 1);
        if i == es.len() {
            assert(seq![es[0]] + t =~= es);
        } else if es[i].name == name {
            assert(t[i - 1] == es[i]);
            assert(t.subrange(0, i - 1) =~= es.subrange(1, i));
            assert(t.subrange(i, t.len() as int) =~= es.subrange(i + 1, es.len() as int));
            assert(seq![es[0]] + (t.subrange(0, i - 1) + t.subrange(i, t.len() as int))
                =~= es.subrange(0, i) + es.subrange(i + 1, es.len() as int));
        }
    }
}

/// A registry of engines with pairwise distinct names.
#[derive(Debug)]
pub struct EnginesManager {
    engines: Vec<Engine>,
}

impl View for EnginesManager {
    type V = Seq<EngineModel>;

    closed spec fn view(&self) -> Seq<EngineModel> {
        self.engines.deep_view()
    }
}

impl EnginesManager {
    /// Engines are well formed and their names are pairwise distinct.
    pub open spec fn wf(&self) -> bool {
        &&& forall|i: int| 0 <= i < self@.len() ==> (#[trigger] self@[i]).wf()
        &&& forall|i: int, j: int|
            0 <= i < j < self@.len() ==> (#[trigger] self@[i]).name != (#[trigger] self@[j]).name
    }

    /// True when some engine of the registry has the given name.
    pub open spec fn has_engine(&self, name: Seq<char>) -> bool {
        exists|i: int| 0 <= i < self@.len() && (#[trigger] self@[i]).name == name
    }

    /// An empty registry.
    pub fn init() -> (r: EnginesManager)
        ensures
            r.wf(),
            r@ == Seq::<EngineModel>::empty(),
    {
        let r = EnginesManager { engines: Vec::new() };
        proof {
            assert(r.engines.deep_view() =~= Seq::<EngineModel>::empty());
        }
        r
    }

    // Whether an engine with the given name exists already, and the index of
    // the first one.
    fn find_engine_index(&self, name: &str) -> (r: Option<usize>)
        ensures
            match r {
                Some(i) => i < self@.len() && self@[i as int].name == name@ && find_engine(
                    self@,
                    name@,
                ) == Some(self@[i as int]),
                None => !self.has_engine(name@) && find_engine(self@, name@) is None,
            },
    {
        let n = self.engines.len();
        let mut i: usize = 0;
        while i < n
            invariant
                n == self.engines.len(),
                i <= n,
                forall|j: int| 0 <= j < i ==> (#[trigger] self@[j]).name != name@,
            decreases n - i,
        {
            if crate::template::str_eq(self.engines[i].get_name(), name) {
                proof {
                    lemma_find_engine_scan(self@, name@, i as int);
                }
                return Some(i);
            }
            i += 1;
        }
        proof {
            lemma_find_engine_scan(self@, name@, n as int);
        }
        None
    }

    /// Adds a new engine built from its parts. Fails with `EngineExists`,
    /// changing nothing, when an engine with that name is already present.
    pub fn add_engine(
        &mut self,
        name: &str,
        path: &str,
        prefix: Option<&str>,
        description: Option<&str>,
    ) -> (r: Result<(), Error>)
        requires
            old(self).wf(),
        ensures
            final(self).wf(),
            match r {
                Ok(()) => !old(self).has_engine(name@) && final(self)@ == old(self)@ + seq![
                    EngineModel {
                        name: name@,
                        path: path@,
                        commands: Seq::<CommandModel>::empty(),
                        prefix: prefix.deep_view(),
                        description: description.deep_view(),
                    },
                ],
                Err(Error::EngineExists) => old(self).has_engine(name@) && *final(self) == *old(
                    self,
                ),
                Err(_) => false,
            },
    {
        if self.find_engine_index(name).is_some() {
            return Err(Error::EngineExists);
        }
        let engine = Engine::new(name, path, prefix, description);
        let ghost es = self.engines.deep_view();
        let ghost ev = engine@;
        self.engines.push(engine);
        proof {
            assert(self.engines.deep_view() =~= es + seq![ev]);
        }
        Ok(())
    }

    /// Adds an engine that was already built, typically from a descriptor.
    /// This call only validates name uniqueness and inserts: it fails with
    /// `EngineExists`, changing nothing, when an engine with that name is
    /// already present.
    pub fn add_engine_from_descriptor(&mut self, engine: Engine) -> (r: Result<(), Error>)
        requires
            old(self).wf(),
            engine.wf(),
        ensures
            final(self).wf(),
            match r {
                Ok(()) => !old(self).has_engine(engine@.name) && final(self)@ == old(self)@
                    + seq![engine@],
                Err(Error::EngineExists) => old(self).has_engine(engine@.name) && *final(self)
                    == *old(self),
                Err(_) => false,
            },
    {
        if self.find_engine_index(engine.get_name()).is_some() {
            return Err(Error::EngineExists);
        }
        let ghost es = self.engines.deep_view();
        let ghost ev = engine@;
        self.engines.push(engine);
        proof {
            assert(self.engines.deep_view() =~= es + seq![ev]);
        }
        Ok(())
    }

    /// The names and descriptions of the commands of the named engine, or
    /// `UnknownEngine` when the registry has no engine of that name.
    pub fn list_engine_commands(&self, engine: &str) -> (r: Result<
        Vec<(String, Option<String>)>,
        Error,
    >)
        ensures
            match r {
                Ok(v) => find_engine(self@, engine@) matches Some(e) && v.deep_view().len()
                    == e.commands.len() && (forall|i: int|
                    0 <= i < e.commands.len() ==> #[trigger] v.deep_view()[i] == (
                    e.commands[i].name, e.commands[i].description)),
                Err(e) => e == Error::UnknownEngine && find_engine(self@, engine@) is None
                    && !self.has_engine(engine@),
            },
    {
        match self.find_engine_index(engine) {
            Some(i) => Ok(self.engines[i].list_commands()),
            None => Err(Error::UnknownEngine),
        }
    }

    /// Resolves the invocation of an engine's command for a query: fails with
    /// `UnknownEngine` when the registry has no engine of that name; every
    /// failure that the engine itself reports is collapsed to
    /// `UnkownCommand`.
    pub fn execute(&self, engine: &str, command: &str, query: &str) -> (r: Result<
        Invocation,
        Error,
    >)
        ensures
            match r {
                Ok(inv) => find_engine(self@, engine@) matches Some(e) && find_command(
                    e.commands,
                    command@,
                ) matches Some(c) && inv@ == invocation_for(e, c, query@),
                Err(Error::UnknownEngine) => find_engine(self@, engine@) is None
                    && !self.has_engine(engine@),
                Err(Error::UnkownCommand) => find_engine(self@, engine@) matches Some(e)
                    && find_command(e.commands, command@) is None && !e.has_command(command@),
                Err(_) => false,
            },
    {
        match self.find_engine_index(engine) {
            Some(i) => match self.engines[i].execute(command, query) {
                Ok(inv) => Ok(inv),
                Err(e) => Err(collapse_engine_error(e)),
            },
            None => Err(Error::UnknownEngine),
        }
    }

    /// Removes the engine with the given name; does nothing when the registry
    /// has no engine of that name.
    pub fn remove_engine(&mut self, engine_name: &str)
        requires
            old(self).wf(),
        ensures
            final(self).wf(),
            final(self)@ == remove_engine_model(old(self)@, engine_name@),
    {
        let n = self.engines.len();
        let mut i: usize = 0;
        while i < n
            invariant
                n == self.engines.len(),
                i <= n,
                self@ == old(self)@,
                self.wf(),
                forall|j: int| 0 <= j < i ==> (#[trigger] self@[j]).name != engine_name@,
            decreases n - i,
        {
            if crate::template::str_eq(self.engines[i].get_name(), engine_name) {
                proof {
                    lemma_remove_engine_scan(self@, engine_name@, i as int);
                }
                let ghost es = self.engines.deep_view();
                self.engines.remove(i);
                proof {
                    let fs = self.engines.deep_view();
                    assert(fs =~= es.subrange(0, i as int) + es.subrange(i + 1, es.len() as int));
                    assert forall|a: int| 0 <= a < fs.len() implies (#[trigger] fs[a]).wf() by {
                        if a < i {
                            assert(fs[a] == es[a]);
                        } else {
                            assert(fs[a] == es[a + 1]);
                        }
                    }
                    assert forall|a: int, b: int|
                        0 <= a < b < fs.len() implies (#[trigger] fs[a]).name != (
                    #[trigger] fs[b]).name by {
                        let a0 = if a < i {
                            a
                        } else {
                            a + 1
                        };
                        let b0 = if b < i {
                            b
                        } else {
                            b + 1
                        };
                        assert(fs[a] == es[a0]);
                        assert(fs[b] == es[b0]);
                    }
                }
                return ;
            }
            i += 1;
        }
        proof {
            lemma_remove_engine_scan(self@, engine_name@, n as int);
        }
    }

    /// The names of all engines, in registry order.
    pub fn list_engines(&self) -> (r: Vec<String>)
        ensures
            r.deep_view().len() == self@.len(),
            forall|i: int| 0 <= i < self@.len() ==> #[trigger] r.deep_view()[i] == self@[i].name,
    {
        let n = self.engines.len();
        let mut r: Vec<String> = Vec::new();
        let mut i: usize = 0;
        while i < n
            invariant
                n == self.engines.len(),
                i <= n,
                r.deep_view().len() == i,
                forall|j: int| 0 <= j < i ==> #[trigger] r.deep_view()[j] == self@[j].name,
            decreases n - i,
        {
            let name = self.engines[i].get_name().to_owned();
            let ghost dv = r.deep_view();
            r.push(name);
            proof {
                assert(r.deep_view() =~= dv + seq![name@]);
            }
            i += 1;
        }
        r
    }

    /// The description of the named engine, or `UnknownEngine` when the
    /// registry has no engine of that name.
    pub fn get_engine_description(&self, engine: &str) -> (r: Result<Option<String>, Error>)
        ensures
            match r {
                Ok(d) => find_engine(self@, engine@) matches Some(e) && d.deep_view()
                    == e.description,
                Err(e) => e == Error::UnknownEngine && find_engine(self@, engine@) is None
                    && !self.has_engine(engine@),
            },
    {
        match self.find_engine_index(engine) {
            Some(i) => match self.engines[i].get_description() {
                Some(d) => Ok(Some(d.clone())),
                None => Ok(None),
            },
            None => Err(Error::UnknownEngine),
        }
    }

    /// The description of a command of the named engine: `UnknownEngine` when
    /// the registry has no engine of that name, `UnkownCommand` when that
    /// engine has no command of the given name.
    pub fn get_command_description(&self, engine: &str, command: &str) -> (r: Result<
        Option<String>,
        Error,
    >)
        ensures
            match r {
                Ok(d) => find_engine(self@, engine@) matches Some(e) && find_command(
                    e.commands,
                    command@,
                ) matches Some(c) && d.deep_view() == c.description,
                Err(Error::UnknownEngine) => find_engine(self@, engine@) is None
                    && !self.has_engine(engine@),
                Err(Error::UnkownCommand) => find_engine(self@, engine@) matches Some(e)
                    && find_command(e.commands, command@) is None && !e.has_command(command@),
                Err(_) => false,
            },
    {
        match self.find_engine_index(engine) {
            Some(i) => match self.engines[i].find_command_ref(command) {
                Some(c) => match c.get_description() {
                    Some(d) => Ok(Some(d.clone())),
                    None => Ok(None),
                },
                None => Err(Error::UnkownCommand),
            },
            None => Err(Error::UnknownEngine),
        }
    }
}

} // verus!
