//! The dispatcher's decisions: what one consumed job turns into — an
//! immediate respond, or one independent run per named engine — and how an
//! execution's outcome is wrapped as the respond a worker posts back.
//! Consuming jobs, spawning workers and running processes is the caller's
//! loop; each decision here is a pure step.

use vstd::prelude::*;

use crate::mailbox::{Job, JobModel, Respond, RespondModel};
use crate::manager::{Error, EnginesManager};

verus! {

/// The text that a registry error carries into a respond.
pub open spec fn registry_error_text(e: Error) -> Seq<char> {
    match e {
        Error::EngineExists => "Engine exists already"@,
        Error::UnknownEngine => "Unknown engine has given"@,
        Error::UnkownCommand => "Unknown command has given"@,
        Error::InvalidConfig(d) => d@,
    }
}

impl Error {
    /// A human-readable description of the error.
    pub fn describe(&self) -> (r: String)
        ensures
            r@ == registry_error_text(*self),
    {
        match self {
            Error::EngineExists => String::from_str("Engine exists already"),
            Error::UnknownEngine => String::from_str("Unknown engine has given"),
            Error::UnkownCommand => String::from_str("Unknown command has given"),
            Error::InvalidConfig(d) => d.clone(),
        }
    }
}

/// One pending engine run: which engine to execute and with which query.
#[derive(Clone, Debug)]
pub struct RunRequest {
    pub engine: String,
    pub query: String,
}

/// The mathematical value of a [`RunRequest`].
pub struct RunRequestModel {
    pub engine: Seq<char>,
    pub query: Seq<char>,
}

impl View for RunRequest {
    type V = RunRequestModel;

    open spec fn view(&self) -> RunRequestModel {
        RunRequestModel { engine: self.engine@, query: self.query@ }
    }
}

impl DeepView for RunRequest {
    type V = RunRequestModel;

    open spec fn deep_view(&self) -> RunRequestModel {
        self.view()
    }
}

/// The given names joined by a comma and a space.
pub open spec fn joined_names(names: Seq<Seq<char>>) -> Seq<char>
    decreases names.len(),
{
    if names.len() == 0 {
        Seq::<char>::empty()
    } else if names.len() == 1 {
        names[0]
    } else {
        names[0] + ", "@ + joined_names(names.drop_first())
    }
}

/// Joining one more name appends a separator and the name.
proof fn lemma_joined_names_push(names: Seq<Seq<char>>, x: Seq<char>)
    ensures
        names.len() == 0 ==> joined_names(names.push(x)) == x,
        names.len() > 0 ==> joined_names(names.push(x)) == joined_names(names) + ", "@ + x,
    decreases names.len(),
{
    let p = names.push(x);
    if names.len() == 0 {
        assert(p.len() == 1);
        assert(p[0] == x);
    } else if names.len() == 1 {
        assert(p.len() == 2);
        assert(p.drop_first() =~= seq![x]);
        assert(joined_names(seq![x]) == x);
        assert(joined_names(p) == names[0] + ", "@ + x);
    } else {
        lemma_joined_names_push(names.drop_first(), x);
        assert(p.drop_first() =~= names.drop_first().push(x));
        assert(joined_names(p) == names[0] + ", "@ + (joined_names(names.drop_first()) + ", "@
            + x));
        assert(names[0] + ", "@ + (joined_names(names.drop_first()) + ", "@ + x) =~= (names[0]
            + ", "@ + joined_names(names.drop_first())) + ", "@ + x);
    }
}

/// The names of the registry's engines, in registry order.
pub open spec fn engine_names(manager: &EnginesManager) -> Seq<Seq<char>> {
    manager@.map_values(|e: crate::engine::EngineModel| e.name)
}

/// The respond to a `ListEngines` job: one message holding the engine names,
/// joined by a comma and a space.
pub fn list_engines_message(manager: &EnginesManager) -> (r: Respond)
    ensures
        r@ == RespondModel::Message(joined_names(engine_names(manager))),
{
    let names = manager.list_engines();
    let mut out = String::new();
    let n = names.len();
    let mut i: usize = 0;
    proof {
        assert(names.deep_view() =~= engine_names(manager));
        assert(names.deep_view().subrange(0, 0) =~= Seq::<Seq<char>>::empty());
    }
    while i < n
        invariant
            n == names@.len(),
            i <= n,
            names.deep_view() == engine_names(manager),
            out@ == joined_names(names.deep_view().subrange(0, i as int)),
        decreases n - i,
    {
        proof {
            lemma_joined_names_push(names.deep_view().subrange(0, i as int), names.deep_view()[i as int]);
            assert(names.deep_view().subrange(0, i as int).push(names.deep_view()[i as int])
                =~= names.deep_view().subrange(0, i + 1));
        }
        if i > 0 {
            out.append(", ");
        }
        out.append(names[i].as_str());
        i += 1;
    }
    proof {
        assert(names.deep_view().subrange(0, n as int) =~= names.deep_view());
    }
    Respond::Message(out)
}

/// What one job turns into: a `ListEngines` job becomes the one listing
/// respond; a `RunEninges` job becomes one independent run request per named
/// engine, each carrying the job's query.
pub open spec fn dispatch_step(manager: &EnginesManager, job: JobModel) -> (
    Seq<RespondModel>,
    Seq<RunRequestModel>,
) {
    match job {
        JobModel::ListEngines => (
            seq![RespondModel::Message(joined_names(engine_names(manager)))],
            Seq::<RunRequestModel>::empty(),
        ),
        JobModel::RunEninges { engines_list, query } => (
            Seq::<RespondModel>::empty(),
            engines_list.map_values(|n: Seq<char>| RunRequestModel { engine: n, query: query }),
        ),
    }
}

/// Decides one consumed job: returns the responds to enqueue at once and the
/// engine runs to schedule as independent background work. The call itself
/// cannot fail once the job is accepted.
pub fn dispatch_job(manager: &EnginesManager, job: &Job) -> (r: (Vec<Respond>, Vec<RunRequest>))
    ensures
        r.0.deep_view() == dispatch_step(manager, job@).0,
        r.1.deep_view() == dispatch_step(manager, job@).1,
{
    match job {
        Job::ListEngines => {
            let msg = list_engines_message(manager);
            let mut responds: Vec<Respond> = Vec::new();
            let ghost mv = msg@;
            responds.push(msg);
            let runs: Vec<RunRequest> = Vec::new();
            proof {
                assert(responds.deep_view() =~= seq![mv]);
                assert(runs.deep_view() =~= Seq::<RunRequestModel>::empty());
            }
            (responds, runs)
        },
        Job::RunEninges { engines_list, query } => {
            let mut runs: Vec<RunRequest> = Vec::new();
            let n = engines_list.len();
            let mut i: usize = 0;
            while i < n
                invariant
                    n == engines_list@.len(),
                    i <= n,
                    runs.deep_view() =~= engines_list.deep_view().subrange(0, i as int)
                        .map_values(|m: Seq<char>| RunRequestModel { engine: m, query: query@ }),
                decreases n - i,
            {
                let req = RunRequest { engine: engines_list[i].clone(), query: query.clone() };
                let ghost dv = runs.deep_view();
                runs.push(req);
                proof {
                    assert(runs.deep_view() =~= dv + seq![req@]);
                    assert(runs.deep_view() =~= engines_list.deep_view().subrange(0, i + 1)
                        .map_values(
                        |m: Seq<char>| RunRequestModel { engine: m, query: query@ },
                    ));
                }
                i += 1;
            }
            let responds: Vec<Respond> = Vec::new();
            proof {
                assert(engines_list.deep_view().subrange(0, n as int)
                    =~= engines_list.deep_view());
                assert(responds.deep_view() =~= Seq::<RespondModel>::empty());
            }
            (responds, runs)
        },
    }
}

/// Wraps one engine execution's outcome as the respond its worker posts:
/// captured output becomes an `EngineResult` for that engine, a failure
/// becomes an `Error` respond carrying the failure's text.
pub fn wrap_outcome(engine: &str, outcome: Result<String, Error>) -> (r: Respond)
    ensures
        match outcome {
            Ok(output) => r@ == RespondModel::EngineResult { engine: engine@, output: output@ },
            Err(e) => r@ == RespondModel::Error(registry_error_text(e)),
        },
{
    match outcome {
        Ok(output) => Respond::EngineResult { engine: engine.to_owned(), output },
        Err(e) => Respond::Error(e.describe()),
    }
}

} // verus!
