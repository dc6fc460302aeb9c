//! The per-job state machine of the task runner.
//!
//! Every job is one (account, action) pairing with a fixed interval. A tick
//! dispatches the job's body only when the job is idle; a tick that arrives
//! while a previous execution is still in flight is dropped, not queued, so
//! no two executions of the same job ever overlap.

use vstd::prelude::*;

verus! {

/// Interval of the check-in job, in seconds (twelve hours).
pub const CHECK_IN_INTERVAL_SECS: u64 = 43200;

/// Interval of the claim job (mining claim, premium picks, quests), in
/// seconds (six hours).
pub const CLAIM_INTERVAL_SECS: u64 = 21600;

/// Interval of the conversion job, in seconds (two minutes).
pub const CONVERT_INTERVAL_SECS: u64 = 120;

/// The fixed set of recurring actions run for every account.
#[derive(Clone, Copy, PartialEq, Eq, Structural, Debug)]
pub enum JobAction {
    CheckIn,
    Claim,
    Convert,
}

/// The descriptor a job is bound to at registration time; never changed
/// afterwards.
pub struct ScheduledJob {
    pub account: String,
    pub action: JobAction,
    pub interval_secs: u64,
}

/// The dispatch state of one job: whether an execution is in flight, and how
/// many executions were dispatched and finished so far.
#[derive(Clone, Copy, PartialEq, Eq, Structural, Debug)]
pub struct JobState {
    pub running: bool,
    pub runs_started: u64,
    pub runs_completed: u64,
}

impl JobState {
    /// Every reachable state: at most one execution is unfinished, and the
    /// flag records exactly whether one is.
    pub open spec fn wf(self) -> bool {
        &&& self.runs_completed <= self.runs_started <= self.runs_completed + 1
        &&& (self.running <==> self.runs_started == self.runs_completed + 1)
    }

    /// How many executions of this job are in flight.
    pub open spec fn in_flight(self) -> int {
        self.runs_started - self.runs_completed
    }
}

/// The scheduler: a fixed set of jobs, each with its descriptor and its
/// dispatch state.
pub struct Scheduler {
    pub jobs: Vec<ScheduledJob>,
    pub states: Vec<JobState>,
}

/// A tick of job `i` dispatches its body exactly when no execution of that
/// job is in flight.
pub open spec fn tick_dispatches(s: Scheduler, i: int) -> bool {
    !s.states@[i].running
}

impl Scheduler {
    pub open spec fn wf(self) -> bool {
        &&& self.states@.len() == self.jobs@.len()
        &&& forall|i: int|
            0 <= i < self.states@.len() ==> (#[trigger] self.states@[i]).wf()
    }

    pub fn new() -> (s: Self)
        ensures
            s.wf(),
            s.jobs@.len() == 0,
    {
        Scheduler { jobs: Vec::new(), states: Vec::new() }
    }

    /// Registers one recurring job, idle and never yet run. No existing job
    /// is touched.
    pub fn register(&mut self, account: String, action: JobAction, interval_secs: u64)
        requires
            old(self).wf(),
        ensures
            final(self).wf(),
            final(self).jobs@ == old(self).jobs@.push(
                (ScheduledJob { account, action, interval_secs }),
            ),
            final(self).states@ == old(self).states@.push(
                (JobState { running: false, runs_started: 0, runs_completed: 0 }),
            ),
    {
        self.jobs.push(ScheduledJob { account, action, interval_secs });
        self.states.push(JobState { running: false, runs_started: 0, runs_completed: 0 });
    }

    pub fn job_count(&self) -> (n: usize)
        ensures
            n == self.jobs@.len(),
    {
        self.jobs.len()
    }

    /// A timer tick for job `i`. If the job is idle, its body is dispatched
    /// and the job is marked running; if an execution is still in flight,
    /// the tick is dropped and nothing changes — the tick is not queued.
    pub fn tick(&mut self, i: usize) -> (dispatched: bool)
        requires
            old(self).wf(),
            i < old(self).states@.len(),
            old(self).states@[i as int].runs_started < u64::MAX,
        ensures
            final(self).wf(),
            dispatched == tick_dispatches(*old(self), i as int),
            final(self).jobs@ == old(self).jobs@,
            final(self).states@.len() == old(self).states@.len(),
            forall|j: int|
                0 <= j < old(self).states@.len() && j != i ==> final(self).states@[j] == old(
                    self,
                ).states@[j],
            !dispatched ==> final(self).states@ == old(self).states@,
            dispatched ==> final(self).states@[i as int] == (JobState {
                running: true,
                runs_started: (old(self).states@[i as int].runs_started + 1) as u64,
                runs_completed: old(self).states@[i as int].runs_completed,
            }),
    {
        let st = self.states[i];
        if st.running {
            proof {
                assert(final(self).states@ =~= old(self).states@);
            }
            false
        } else {
            self.states.set(
                i,
                JobState {
                    running: true,
                    runs_started: st.runs_started + 1,
                    runs_completed: st.runs_completed,
                },
            );
            true
        }
    }

    /// The body of job `i` finished, successfully or not: the job returns to
    /// idle and stays eligible for its next tick. No other job is touched.
    pub fn complete(&mut self, i: usize)
        requires
            old(self).wf(),
            i < old(self).states@.len(),
            old(self).states@[i as int].running,
        ensures
            final(self).wf(),
            final(self).jobs@ == old(self).jobs@,
            final(self).states@.len() == old(self).states@.len(),
            forall|j: int|
                0 <= j < old(self).states@.len() && j != i ==> final(self).states@[j] == old(
                    self,
                ).states@[j],
            final(self).states@[i as int] == (JobState {
                running: false,
                runs_started: old(self).states@[i as int].runs_started,
                runs_completed: old(self).states@[i as int].runs_started,
            }),
    {
        let st = self.states[i];
        self.states.set(
            i,
            JobState { running: false, runs_started: st.runs_started, runs_completed: st.runs_started },
        );
    }
}

/// What a job descriptor says, with the account name as a character
/// sequence.
pub struct JobView {
    pub account: Seq<char>,
    pub action: JobAction,
    pub interval_secs: u64,
}

impl View for ScheduledJob {
    type V = JobView;

    open spec fn view(&self) -> JobView {
        JobView { account: self.account@, action: self.action, interval_secs: self.interval_secs }
    }
}

/// One account after the startup authentication phase: its name, and the
/// session token if one was persisted or login resolved one — `None` when
/// login failed for it.
pub struct StartupEntry {
    pub name: String,
    pub token: Option<String>,
}

/// The jobs registered for one account: the three recurring actions when a
/// token is at hand, none when the account's login failed. A function of
/// that account's entry alone.
pub open spec fn jobs_of_entry(e: StartupEntry) -> Seq<JobView> {
    if e.token is Some {
        seq![
            (JobView {
                account: e.name@,
                action: JobAction::CheckIn,
                interval_secs: CHECK_IN_INTERVAL_SECS,
            }),
            (JobView {
                account: e.name@,
                action: JobAction::Claim,
                interval_secs: CLAIM_INTERVAL_SECS,
            }),
            (JobView {
                account: e.name@,
                action: JobAction::Convert,
                interval_secs: CONVERT_INTERVAL_SECS,
            }),
        ]
    } else {
        Seq::empty()
    }
}

/// The whole startup plan: each account's jobs in turn, accounts in
/// registry order.
pub open spec fn spec_startup_jobs(entries: Seq<StartupEntry>) -> Seq<JobView>
    decreases entries.len(),
{
    if entries.len() == 0 {
        Seq::empty()
    } else {
        jobs_of_entry(entries.first()) + spec_startup_jobs(entries.drop_first())
    }
}

/// Where account `k`'s block starts in the startup plan.
pub open spec fn spec_startup_offset(entries: Seq<StartupEntry>, k: int) -> int
    decreases k,
{
    if k <= 0 || entries.len() == 0 {
        0
    } else {
        jobs_of_entry(entries.first()).len() + spec_startup_offset(entries.drop_first(), k - 1)
    }
}

proof fn lemma_startup_take_step(entries: Seq<StartupEntry>, i: int)
    requires
        0 <= i < entries.len(),
    ensures
        spec_startup_jobs(entries.take(i + 1)) == spec_startup_jobs(entries.take(i))
            + jobs_of_entry(entries[i]),
    decreases i,
{
    if i == 0 {
        assert(entries.take(1).drop_first() =~= entries.take(0));
        assert(spec_startup_jobs(entries.take(0)) =~= Seq::<JobView>::empty());
        assert(spec_startup_jobs(entries.take(1)) =~= jobs_of_entry(entries[0]));
        assert(spec_startup_jobs(entries.take(0)) + jobs_of_entry(entries[0]) =~= jobs_of_entry(
            entries[0],
        ));
    } else {
        lemma_startup_take_step(entries.drop_first(), i - 1);
        assert(entries.take(i + 1).drop_first() =~= entries.drop_first().take(i));
        assert(entries.take(i).drop_first() =~= entries.drop_first().take(i - 1));
        assert(entries.take(i + 1).first() == entries.first());
        assert(entries.take(i).first() == entries.first());
        assert(entries.drop_first()[i - 1] == entries[i]);
        assert(spec_startup_jobs(entries.take(i + 1)) =~= spec_startup_jobs(entries.take(i))
            + jobs_of_entry(entries[i]));
    }
}

/// Builds the startup plan: for every account whose token is at hand, its
/// three recurring jobs; accounts whose login failed contribute nothing and
/// block nothing.
pub fn plan_startup_jobs(entries: &Vec<StartupEntry>) -> (jobs: Vec<ScheduledJob>)
    ensures
        jobs@.map_values(|j: ScheduledJob| j@) == spec_startup_jobs(entries@),
{
    let mut jobs: Vec<ScheduledJob> = Vec::new();
    let n = entries.len();
    let mut i: usize = 0;
    while i < n
        invariant
            i <= n,
            n == entries@.len(),
            jobs@.map_values(|j: ScheduledJob| j@) == spec_startup_jobs(entries@.take(i as int)),
        decreases n - i,
    {
        proof {
            lemma_startup_take_step(entries@, i as int);
        }
        let e = &entries[i];
        if e.token.is_some() {
            let name = &e.name;
            jobs.push(
                ScheduledJob {
                    account: name.clone(),
                    action: JobAction::CheckIn,
                    interval_secs: CHECK_IN_INTERVAL_SECS,
                },
            );
            jobs.push(
                ScheduledJob {
                    account: name.clone(),
                    action: JobAction::Claim,
                    interval_secs: CLAIM_INTERVAL_SECS,
                },
            );
            jobs.push(
                ScheduledJob {
                    account: name.clone(),
                    action: JobAction::Convert,
                    interval_secs: CONVERT_INTERVAL_SECS,
                },
            );
        }
        proof {
            assert(jobs@.map_values(|j: ScheduledJob| j@) =~= spec_startup_jobs(
                entries@.take(i as int + 1),
            ));
        }
        i = i + 1;
    }
    proof {
        assert(entries@.take(n as int) =~= entries@);
    }
    jobs
}

/// One account's failed login never keeps another account's jobs out of the
/// plan: account `k`'s block of the startup plan is `jobs_of_entry` of its
/// own entry — a function of that entry alone, whatever stands at every
/// other position, and in particular whether any other account's login
/// failed.
pub proof fn lemma_login_isolation(entries: Seq<StartupEntry>, k: int)
    requires
        0 <= k < entries.len(),
    ensures
        0 <= spec_startup_offset(entries, k),
        spec_startup_offset(entries, k) + jobs_of_entry(entries[k]).len() <= spec_startup_jobs(
            entries,
        ).len(),
        spec_startup_jobs(entries).subrange(
            spec_startup_offset(entries, k),
            spec_startup_offset(entries, k) + jobs_of_entry(entries[k]).len(),
        ) == jobs_of_entry(entries[k]),
    decreases k,
{
    let head = jobs_of_entry(entries.first());
    let rest = spec_startup_jobs(entries.drop_first());
    assert(spec_startup_jobs(entries) == head + rest);
    if k == 0 {
        assert((head + rest).subrange(0, head.len() as int) =~= head);
    } else {
        lemma_login_isolation(entries.drop_first(), k - 1);
        let off = spec_startup_offset(entries.drop_first(), k - 1);
        let blk = jobs_of_entry(entries.drop_first()[k - 1]);
        assert(entries.drop_first()[k - 1] == entries[k]);
        assert(spec_startup_offset(entries, k) == head.len() + off);
        assert((head + rest).subrange(
            head.len() + off,
            head.len() + off + blk.len(),
        ) =~= rest.subrange(off, off + blk.len()));
    }
}

/// At most one execution of a given job is in flight at any instant, in
/// every reachable scheduler state.
pub proof fn lemma_at_most_one_in_flight(s: Scheduler, i: int)
    requires
        s.wf(),
        0 <= i < s.states@.len(),
    ensures
        0 <= s.states@[i].in_flight() <= 1,
{
}

/// A tick that arrives while an execution of the same job is in flight
/// dispatches nothing: the overlapping tick is skipped, never run in
/// parallel and never queued.
pub proof fn lemma_overlapping_tick_skipped(s: Scheduler, i: int)
    requires
        s.wf(),
        0 <= i < s.states@.len(),
        s.states@[i].in_flight() == 1,
    ensures
        !tick_dispatches(s, i),
{
}

} // verus!
