//! The message exchange: a mailbox of three independent queues (inbound
//! jobs, outbound responds, outbound logs) and an advisory pending flag.
//! Every operation is a single read-modify-write of one instance; sharing and
//! locking are the caller's concern, so under a lock each operation is atomic
//! and two sends never interleave.

use vstd::prelude::*;

verus! {

/// A unit of requested work.
#[derive(Clone, Debug)]
pub enum Job {
    /// List the registered engines.
    ListEngines,
    /// Run the named engines on the query.
    RunEninges { engines_list: Vec<String>, query: String },
}

/// The mathematical value of a [`Job`].
pub enum JobModel {
    ListEngines,
    RunEninges { engines_list: Seq<Seq<char>>, query: Seq<char> },
}

impl View for Job {
    type V = JobModel;

    open spec fn view(&self) -> JobModel {
        match self {
            Job::ListEngines => JobModel::ListEngines,
            Job::RunEninges { engines_list, query } => JobModel::RunEninges {
                engines_list: engines_list.deep_view(),
                query: query@,
            },
        }
    }
}

impl DeepView for Job {
    type V = JobModel;

    open spec fn deep_view(&self) -> JobModel {
        self.view()
    }
}

/// A diagnostic message, independent of the job and respond flow.
#[derive(Clone, Debug)]
pub enum Log {
    Error(String),
    Warning(String),
    Info(String),
}

/// The mathematical value of a [`Log`].
pub enum LogModel {
    Error(Seq<char>),
    Warning(Seq<char>),
    Info(Seq<char>),
}

impl View for Log {
    type V = LogModel;

    open spec fn view(&self) -> LogModel {
        match self {
            Log::Error(s) => LogModel::Error(s@),
            Log::Warning(s) => LogModel::Warning(s@),
            Log::Info(s) => LogModel::Info(s@),
        }
    }
}

impl DeepView for Log {
    type V = LogModel;

    open spec fn deep_view(&self) -> LogModel {
        self.view()
    }
}

/// A unit of result data produced in answer to a job.
#[derive(Clone, Debug)]
pub enum Respond {
    /// One engine's captured output.
    EngineResult { engine: String, output: String },
    /// A plain informational message.
    Message(String),
    /// A failure, as text.
    Error(String),
}

/// The mathematical value of a [`Respond`].
pub enum RespondModel {
    EngineResult { engine: Seq<char>, output: Seq<char> },
    Message(Seq<char>),
    Error(Seq<char>),
}

impl View for Respond {
    type V = RespondModel;

    open spec fn view(&self) -> RespondModel {
        match self {
            Respond::EngineResult { engine, output } => RespondModel::EngineResult {
                engine: engine@,
                output: output@,
            },
            Respond::Message(s) => RespondModel::Message(s@),
            Respond::Error(s) => RespondModel::Error(s@),
        }
    }
}

impl DeepView for Respond {
    type V = RespondModel;

    open spec fn deep_view(&self) -> RespondModel {
        self.view()
    }
}

/// The mathematical value of a [`MessagesBox`]: the three queues in
/// insertion order and the pending flag.
#[verifier::ext_equal]
pub struct MailboxModel {
    pub jobs: Seq<JobModel>,
    pub responds: Seq<RespondModel>,
    pub logs: Seq<LogModel>,
    pub pending: bool,
}

/// The model of a freshly initialised mailbox: empty queues, not pending.
pub open spec fn mailbox_init() -> MailboxModel {
    MailboxModel {
        jobs: Seq::<JobModel>::empty(),
        responds: Seq::<RespondModel>::empty(),
        logs: Seq::<LogModel>::empty(),
        pending: false,
    }
}

/// Sending jobs appends them, in order, and raises the pending flag.
pub open spec fn send_jobs_step(m: MailboxModel, jobs: Seq<JobModel>) -> MailboxModel {
    MailboxModel { jobs: m.jobs + jobs, pending: true, ..m }
}

/// Receiving jobs hands out the whole queue, in insertion order, and leaves
/// it empty; the other queues and the flag do not move.
pub open spec fn receive_jobs_step(m: MailboxModel) -> (MailboxModel, Seq<JobModel>) {
    (MailboxModel { jobs: Seq::<JobModel>::empty(), ..m }, m.jobs)
}

/// Sending responds appends them, in order, and raises the pending flag.
pub open spec fn send_responds_step(m: MailboxModel, responds: Seq<RespondModel>) -> MailboxModel {
    MailboxModel { responds: m.responds + responds, pending: true, ..m }
}

/// Receiving responds hands out the whole queue, in insertion order, and
/// leaves it empty; the other queues and the flag do not move.
pub open spec fn receive_responds_step(m: MailboxModel) -> (MailboxModel, Seq<RespondModel>) {
    (MailboxModel { responds: Seq::<RespondModel>::empty(), ..m }, m.responds)
}

/// Sending a log appends it; the pending flag does not move.
pub open spec fn send_log_step(m: MailboxModel, log: LogModel) -> MailboxModel {
    MailboxModel { logs: m.logs + seq![log], ..m }
}

/// Finishing lowers the pending flag unconditionally and clears nothing.
pub open spec fn finish_step(m: MailboxModel) -> MailboxModel {
    MailboxModel { pending: false, ..m }
}

/// A mailbox of inbound jobs, outbound responds and outbound logs, with an
/// advisory pending flag. The flag is raised by job and respond sends and
/// lowered only by `finish`; it is not a precise emptiness test, so readers
/// must still check the individual queues.
#[derive(Debug)]
pub struct MessagesBox {
    jobs: Vec<Job>,
    responds: Vec<Respond>,
    logs: Vec<Log>,
    pending: bool,
}

impl View for MessagesBox {
    type V = MailboxModel;

    closed spec fn view(&self) -> MailboxModel {
        MailboxModel {
            jobs: self.jobs.deep_view(),
            responds: self.responds.deep_view(),
            logs: self.logs.deep_view(),
            pending: self.pending,
        }
    }
}

impl MessagesBox {
    /// A fresh mailbox: all queues empty, not pending.
    pub fn init() -> (r: MessagesBox)
        ensures
            r@ == mailbox_init(),
    {
        let r = MessagesBox { jobs: Vec::new(), responds: Vec::new(), logs: Vec::new(), pending: false };
        proof {
            assert(r@ =~~= mailbox_init());
        }
        r
    }

    /// Appends the given jobs, in order, and raises the pending flag.
    pub fn send_jobs(&mut self, jobs: Vec<Job>)
        ensures
            final(self)@ == send_jobs_step(old(self)@, jobs.deep_view()),
    {
        let ghost pre = self.jobs.deep_view();
        let ghost jv = jobs.deep_view();
        let mut jobs = jobs;
        self.jobs.append(&mut jobs);
        self.pending = true;
        proof {
            assert(self.jobs.deep_view() =~= pre + jv);
        }
    }

    /// Hands out all queued jobs, in insertion order; the queue is empty
    /// immediately after.
    pub fn recieve_jobs(&mut self) -> (r: Vec<Job>)
        ensures
            final(self)@ == receive_jobs_step(old(self)@).0,
            r.deep_view() == receive_jobs_step(old(self)@).1,
    {
        let mut out: Vec<Job> = Vec::new();
        core::mem::swap(&mut out, &mut self.jobs);
        proof {
            assert(self.jobs.deep_view() =~= Seq::<JobModel>::empty());
        }
        out
    }

    /// Appends the given responds, in order, and raises the pending flag.
    pub fn send_responds(&mut self, responds: Vec<Respond>)
        ensures
            final(self)@ == send_responds_step(old(self)@, responds.deep_view()),
    {
        let ghost pre = self.responds.deep_view();
        let ghost rv = responds.deep_view();
        let mut responds = responds;
        self.responds.append(&mut responds);
        self.pending = true;
        proof {
            assert(self.responds.deep_view() =~= pre + rv);
        }
    }

    /// Hands out all queued responds, in insertion order; the queue is empty
    /// immediately after.
    pub fn recieve_responds(&mut self) -> (r: Vec<Respond>)
        ensures
            final(self)@ == receive_responds_step(old(self)@).0,
            r.deep_view() == receive_responds_step(old(self)@).1,
    {
        let mut out: Vec<Respond> = Vec::new();
        core::mem::swap(&mut out, &mut self.responds);
        proof {
            assert(self.responds.deep_view() =~= Seq::<RespondModel>::empty());
        }
        out
    }

    /// Appends one log entry; the pending flag does not move.
    pub fn send_log(&mut self, log: Log)
        ensures
            final(self)@ == send_log_step(old(self)@, log@),
    {
        let ghost pre = self.logs.deep_view();
        let ghost lv = log@;
        self.logs.push(log);
        proof {
            assert(self.logs.deep_view() =~= pre + seq![lv]);
        }
    }

    /// Declares that no more work is coming: lowers the pending flag and
    /// clears no queue.
    pub fn finish(&mut self)
        ensures
            final(self)@ == finish_step(old(self)@),
    {
        self.pending = false;
    }

    /// The current value of the pending flag.
    pub fn is_pending(&self) -> (r: bool)
        ensures
            r == self@.pending,
    {
        self.pending
    }
}

/// The mailbox after a sequence of `send_jobs` calls, applied in order.
pub open spec fn apply_send_jobs(m: MailboxModel, batches: Seq<Seq<JobModel>>) -> MailboxModel
    decreases batches.len(),
{
    if batches.len() == 0 {
        m
    } else {
        apply_send_jobs(send_jobs_step(m, batches[0]), batches.drop_first())
    }
}

/// After any sequence of `send_jobs` calls, the jobs queue holds exactly
/// their jobs, concatenated in send order behind what was queued before.
pub proof fn lemma_apply_send_jobs(m: MailboxModel, batches: Seq<Seq<JobModel>>)
    ensures
        apply_send_jobs(m, batches).jobs == m.jobs + batches.flatten(),
    decreases batches.len(),
{
    if batches.len() == 0 {
        assert(apply_send_jobs(m, batches).jobs =~= m.jobs + batches.flatten());
    } else {
        lemma_apply_send_jobs(send_jobs_step(m, batches[0]), batches.drop_first());
        assert(m.jobs + batches[0] + batches.drop_first().flatten() =~= m.jobs
            + batches.flatten());
    }
}

/// Draining twice: after any sequence of prior `send_jobs` calls of which at
/// least one sent a job, `recieve_jobs` returns all sent jobs, in send
/// order and so non-empty, and an immediately following second
/// `recieve_jobs` returns an empty result.
pub proof fn lemma_receive_jobs_drains(batches: Seq<Seq<JobModel>>)
    requires
        exists|i: int| 0 <= i < batches.len() && batches[i].len() > 0,
    ensures
        ({
            let m = apply_send_jobs(mailbox_init(), batches);
            let (m1, first) = receive_jobs_step(m);
            let (m2, second) = receive_jobs_step(m1);
            first =~= batches.flatten() && first.len() > 0 && second.len() == 0
        }),
{
    let m = apply_send_jobs(mailbox_init(), batches);
    lemma_apply_send_jobs(mailbox_init(), batches);
    let i = choose|i: int| 0 <= i < batches.len() && batches[i].len() > 0;
    batches.lemma_flatten_length_ge_single_element_length(i);
    batches.lemma_flatten_and_flatten_alt_are_equivalent();
    assert(m.jobs.len() > 0);
}

/// The mailbox after each of a row of producers sent one respond, in the
/// order in which the mailbox's exclusive access serialised them.
pub open spec fn apply_single_sends(m: MailboxModel, msgs: Seq<RespondModel>) -> MailboxModel
    decreases msgs.len(),
{
    if msgs.len() == 0 {
        m
    } else {
        apply_single_sends(send_responds_step(m, seq![msgs[0]]), msgs.drop_first())
    }
}

/// Independent producers, one respond each: whatever order the mailbox's
/// exclusive access serialises the sends in, a single following
/// `recieve_responds` returns exactly one respond per producer, with none
/// lost and none duplicated; only the order across producers is the
/// serialisation order and no other guarantee.
pub proof fn lemma_concurrent_sends_deliver_all(m0: MailboxModel, msgs: Seq<RespondModel>)
    requires
        m0.responds.len() == 0,
    ensures
        ({
            let m = apply_single_sends(m0, msgs);
            let (m1, received) = receive_responds_step(m);
            received.len() == msgs.len() && received.to_multiset() == msgs.to_multiset()
        }),
{
    lemma_apply_single_sends(m0, msgs);
    let m = apply_single_sends(m0, msgs);
    assert(m.responds =~= msgs);
}

/// After a row of single-respond sends, the responds queue holds exactly
/// those responds, in serialisation order, behind what was queued before.
pub proof fn lemma_apply_single_sends(m: MailboxModel, msgs: Seq<RespondModel>)
    ensures
        apply_single_sends(m, msgs).responds == m.responds + msgs,
    decreases msgs.len(),
{
    if msgs.len() == 0 {
        assert(apply_single_sends(m, msgs).responds =~= m.responds + msgs);
    } else {
        lemma_apply_single_sends(send_responds_step(m, seq![msgs[0]]), msgs.drop_first());
        assert(m.responds + seq![msgs[0]] + msgs.drop_first() =~= m.responds + msgs);
    }
}

} // verus!
