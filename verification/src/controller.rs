//! The admission-controlled verification engine.
//!
//! A [`Controller`] owns a byte budget and the set of in-flight jobs.  A job
//! is admitted only while the running total of declared sizes stays within
//! the budget; a file larger than the whole budget is rejected outright.
//! Each admitted job is identified by a fresh ticket and is drained exactly
//! once: draining subtracts the job's declared size, reports the verdict
//! line, and yields the release hook's argument vector.  Draining happens in
//! whatever order jobs complete, never by submission order.

use crate::release::parse_release;
use crate::release::release_argv;
use crate::release::split_ws;
use crate::text::read_failure_message;
use crate::text::report_line;
use vstd::prelude::*;

verus! {

/// One in-flight verification: the path, the expected digest (lowercase
/// hex) and the file size declared at submission time.  The size entered
/// the running total when the job was admitted and leaves it exactly once,
/// when the job is drained.
pub struct PendingJob {
    pub ticket: u64,
    pub path: String,
    pub expected: String,
    pub declared_size: u64,
}

/// The mathematical content of a [`PendingJob`].
pub struct JobView {
    pub ticket: u64,
    pub path: Seq<char>,
    pub expected: Seq<char>,
    pub size: u64,
}

impl View for PendingJob {
    type V = JobView;

    open spec fn view(&self) -> JobView {
        JobView {
            ticket: self.ticket,
            path: self.path@,
            expected: self.expected@,
            size: self.declared_size,
        }
    }
}

/// The sum of the declared sizes of a sequence of jobs.
pub open spec fn sum_sizes(s: Seq<JobView>) -> int
    decreases s.len(),
{
    if s.len() == 0 {
        0
    } else {
        sum_sizes(s.drop_last()) + s.last().size
    }
}

proof fn lemma_sum_nonneg(s: Seq<JobView>)
    ensures
        sum_sizes(s) >= 0,
    decreases s.len(),
{
    if s.len() > 0 {
        lemma_sum_nonneg(s.drop_last());
    }
}

proof fn lemma_sum_push(s: Seq<JobView>, j: JobView)
    ensures
        sum_sizes(s.push(j)) == sum_sizes(s) + j.size,
{
    assert(s.push(j).drop_last() =~= s);
}

proof fn lemma_sum_remove(s: Seq<JobView>, i: int)
    requires
        0 <= i < s.len(),
    ensures
        sum_sizes(s.remove(i)) == sum_sizes(s) - s[i].size,
    decreases s.len(),
{
    if i == s.len() - 1 {
        assert(s.remove(i) =~= s.drop_last());
    } else {
        lemma_sum_remove(s.drop_last(), i);
        assert(s.remove(i).drop_last() =~= s.drop_last().remove(i));
        assert(s.remove(i).last() == s.last());
    }
}

/// What `try_submit` answers when it does not reject the file: the job was
/// admitted under the returned ticket, or admitting it now would overrun
/// the budget and the caller must first drain a completion.
#[derive(PartialEq, Eq, Structural, Debug, Clone, Copy)]
pub enum Admission {
    Admitted(u64),
    MustWait,
}

/// The one error the engine itself raises: a single file's declared size
/// exceeds the whole budget, so it can never be admitted.
#[derive(PartialEq, Eq, Structural, Debug, Clone, Copy)]
pub enum SubmitError {
    SizeExceeded,
}

/// How a verification task ended: a digest verdict, or an I/O failure with
/// its error text.
pub enum TaskOutcome {
    Matched,
    Mismatched,
    Failed(String),
}

/// What a drain step tells the caller to do, after the accounting has
/// already been settled.  The release hook's argument vector is present
/// whenever a hook is configured, on verdicts and on failures alike.
pub enum DrainStep {
    Report { path: String, line: String, release_argv: Option<Vec<String>> },
    Abort { path: String, error: String, release_argv: Option<Vec<String>> },
}

/// The admission-controlled engine.
pub struct Controller {
    max_bytes: u64,
    in_flight_bytes: u64,
    next_ticket: u64,
    pending: Vec<PendingJob>,
    release: Vec<String>,
}

impl Controller {
    /// The configured byte budget.
    pub closed spec fn budget(self) -> u64 {
        self.max_bytes
    }

    /// The running total of declared sizes over the in-flight jobs.
    pub closed spec fn in_flight(self) -> u64 {
        self.in_flight_bytes
    }

    /// The in-flight jobs, in admission order.
    pub closed spec fn jobs(self) -> Seq<JobView> {
        self.pending@.map_values(|p: PendingJob| p@)
    }

    /// The tokens of the configured release command.
    pub closed spec fn release_tokens(self) -> Seq<Seq<char>> {
        self.release.deep_view()
    }

    /// The ticket the next admitted job will get.
    pub closed spec fn ticket_counter(self) -> u64 {
        self.next_ticket
    }

    /// The engine's invariant: the running total is exactly the sum of the
    /// in-flight declared sizes, it never exceeds the budget, no in-flight
    /// file is larger than the budget, and tickets are distinct and below
    /// the counter.
    pub closed spec fn wf(self) -> bool {
        &&& self.in_flight_bytes as int == sum_sizes(self.jobs())
        &&& self.in_flight_bytes <= self.max_bytes
        &&& forall|i: int|
            0 <= i < self.jobs().len() ==> (#[trigger] self.jobs()[i]).size <= self.max_bytes
        &&& forall|i: int|
            0 <= i < self.jobs().len() ==> (#[trigger] self.jobs()[i]).ticket < self.next_ticket
        &&& forall|i: int, j: int|
            0 <= i < j < self.jobs().len() ==> (#[trigger] self.jobs()[i]).ticket != (
            #[trigger] self.jobs()[j]).ticket
    }

    /// Whether a ticket belongs to an in-flight job.
    pub open spec fn has_job(self, ticket: u64) -> bool {
        exists|i: int| 0 <= i < self.jobs().len() && (#[trigger] self.jobs()[i]).ticket == ticket
    }

    /// The position of an in-flight ticket's job.
    pub open spec fn job_index(self, ticket: u64) -> int {
        choose|i: int| 0 <= i < self.jobs().len() && (#[trigger] self.jobs()[i]).ticket == ticket
    }

    /// A fresh engine: the given budget, nothing in flight, and the release
    /// command tokenized by whitespace (absent or empty means no hook).
    pub fn new(max_bytes: u64, release_cmd: Option<&str>) -> (c: Controller)
        ensures
            c.wf(),
            c.budget() == max_bytes,
            c.in_flight() == 0,
            c.jobs() == Seq::<JobView>::empty(),
            c.ticket_counter() == 0,
            match release_cmd {
                None => c.release_tokens() == Seq::<Seq<char>>::empty(),
                Some(cmd) => c.release_tokens() == split_ws(cmd@),
            },
    {
        let release: Vec<String> = match release_cmd {
            None => Vec::new(),
            Some(cmd) => parse_release(cmd),
        };
        let c = Controller {
            max_bytes,
            in_flight_bytes: 0,
            next_ticket: 0,
            pending: Vec::new(),
            release,
        };
        proof {
            assert(c.jobs() =~= Seq::<JobView>::empty());
            if release_cmd is None {
                assert(c.release_tokens() =~= Seq::<Seq<char>>::empty());
            }
        }
        c
    }

    /// The running total, observable for tests and callers.
    pub fn in_flight_bytes(&self) -> (r: u64)
        ensures
            r == self.in_flight(),
    {
        self.in_flight_bytes
    }

    /// How many jobs are in flight.
    pub fn pending_count(&self) -> (r: usize)
        ensures
            r == self.jobs().len(),
    {
        self.pending.len()
    }

    /// Whether another job can still get a fresh ticket.  The counter only
    /// grows; a caller checks this before submitting.
    pub fn can_issue_ticket(&self) -> (r: bool)
        ensures
            r == (self.ticket_counter() < u64::MAX),
    {
        self.next_ticket < u64::MAX
    }

    /// Offers one job for admission.  A file whose declared size exceeds
    /// the budget is rejected outright, with nothing admitted and nothing
    /// changed.  Otherwise the job is admitted as soon as the running total
    /// allows it; until then the caller is told to drain a completion and
    /// try again, with nothing changed.
    pub fn try_submit(&mut self, path: &str, expected: &str, declared_size: u64) -> (r: Result<
        Admission,
        SubmitError,
    >)
        requires
            old(self).wf(),
            old(self).ticket_counter() < u64::MAX,
        ensures
            final(self).wf(),
            final(self).budget() == old(self).budget(),
            final(self).release_tokens() == old(self).release_tokens(),
            declared_size > old(self).budget() ==> r == Err::<Admission, SubmitError>(
                SubmitError::SizeExceeded,
            ) && *final(self) == *old(self),
            declared_size <= old(self).budget() && old(self).in_flight() + declared_size > old(
                self,
            ).budget() ==> r == Ok::<Admission, SubmitError>(Admission::MustWait) && *final(self)
                == *old(self),
            declared_size <= old(self).budget() && old(self).in_flight() + declared_size <= old(
                self,
            ).budget() ==> {
                &&& r == Ok::<Admission, SubmitError>(
                    Admission::Admitted(old(self).ticket_counter()),
                )
                &&& final(self).jobs() == old(self).jobs().push(
                    JobView {
                        ticket: old(self).ticket_counter(),
                        path: path@,
                        expected: expected@,
                        size: declared_size,
                    },
                )
                &&& final(self).in_flight() == old(self).in_flight() + declared_size
                &&& final(self).ticket_counter() == old(self).ticket_counter() + 1
            },
    {
        if declared_size > self.max_bytes {
            return Err(SubmitError::SizeExceeded);
        }
        if declared_size > self.max_bytes - self.in_flight_bytes {
            return Ok(Admission::MustWait);
        }
        let ticket = self.next_ticket;
        let job = PendingJob {
            ticket,
            path: path.to_owned(),
            expected: expected.to_owned(),
            declared_size,
        };
        let ghost pre = self.jobs();
        let ghost jv = job@;
        self.next_ticket = ticket + 1;
        self.pending.push(job);
        self.in_flight_bytes = self.in_flight_bytes + declared_size;
        proof {
            assert(self.jobs() =~= pre.push(jv));
            lemma_sum_push(pre, jv);
        }
        Ok(Admission::Admitted(ticket))
    }

    /// Consumes the completion of the in-flight job with the given ticket.
    /// The accounting is settled unconditionally and exactly once: the
    /// job's declared size leaves the running total and its ticket leaves
    /// the in-flight set, whatever the outcome was.  On a verdict the step
    /// carries the report line; on an I/O failure it carries the error to
    /// propagate.  Either way it carries the release hook's argument vector
    /// when a hook is configured.  A ticket not in flight (already drained,
    /// or never issued) changes nothing and yields no step.
    pub fn on_complete(&mut self, ticket: u64, outcome: TaskOutcome) -> (r: Option<DrainStep>)
        requires
            old(self).wf(),
        ensures
            final(self).wf(),
            final(self).budget() == old(self).budget(),
            final(self).release_tokens() == old(self).release_tokens(),
            final(self).ticket_counter() == old(self).ticket_counter(),
            !old(self).has_job(ticket) ==> r is None && *final(self) == *old(self),
            old(self).has_job(ticket) ==> {
                let i = old(self).job_index(ticket);
                let job = old(self).jobs()[i];
                &&& final(self).jobs() == old(self).jobs().remove(i)
                &&& final(self).in_flight() == old(self).in_flight() - job.size
                &&& !final(self).has_job(ticket)
                &&& (outcome matches TaskOutcome::Matched ==> (r matches Some(
                    DrainStep::Report { path, line, release_argv },
                ) && path@ == job.path && line@ == job.path + " OK"@ && argv_fits(
                    release_argv,
                    old(self).release_tokens(),
                    job.path,
                )))
                &&& (outcome matches TaskOutcome::Mismatched ==> (r matches Some(
                    DrainStep::Report { path, line, release_argv },
                ) && path@ == job.path && line@ == job.path + " FAIL"@ && argv_fits(
                    release_argv,
                    old(self).release_tokens(),
                    job.path,
                )))
                &&& (outcome matches TaskOutcome::Failed(cause) ==> (r matches Some(
                    DrainStep::Abort { path, error, release_argv },
                ) && path@ == job.path && error@ == "failed reading "@ + job.path + ": "@ + cause@
                    && argv_fits(release_argv, old(self).release_tokens(), job.path)))
            },
    {
        let i = match find_ticket(&self.pending, ticket) {
            Some(i) => i,
            None => {
                proof {
                    assert(!self.has_job(ticket));
                }
                return None;
            },
        };
        proof {
            assert(self.jobs()[i as int].ticket == ticket);
            assert(self.has_job(ticket));
            let c = self.job_index(ticket);
            assert(0 <= c < self.jobs().len() && self.jobs()[c].ticket == ticket);
            if c != i as int {
                assert(self.jobs()[c].ticket != self.jobs()[i as int].ticket);
            }
        }
        let ghost pre = *self;
        let job = self.pending.remove(i);
        proof {
            assert(self.jobs() =~= pre.jobs().remove(i as int));
            lemma_sum_remove(pre.jobs(), i as int);
            lemma_sum_nonneg(self.jobs());
        }
        self.in_flight_bytes = self.in_flight_bytes - job.declared_size;
        proof {
            assert forall|k: int| 0 <= k < self.jobs().len() implies (
            #[trigger] self.jobs()[k]).ticket != ticket by {
                if k < i as int {
                    assert(self.jobs()[k] == pre.jobs()[k]);
                } else {
                    assert(self.jobs()[k] == pre.jobs()[k + 1]);
                }
            }
        }
        let argv = release_argv(&self.release, job.path.as_str());
        let r = match outcome {
            TaskOutcome::Matched => DrainStep::Report {
                line: report_line(job.path.as_str(), true),
                path: job.path,
                release_argv: argv,
            },
            TaskOutcome::Mismatched => DrainStep::Report {
                line: report_line(job.path.as_str(), false),
                path: job.path,
                release_argv: argv,
            },
            TaskOutcome::Failed(cause) => DrainStep::Abort {
                error: read_failure_message(job.path.as_str(), cause.as_str()),
                path: job.path,
                release_argv: argv,
            },
        };
        Some(r)
    }
}

fn find_ticket(pending: &Vec<PendingJob>, ticket: u64) -> (r: Option<usize>)
    ensures
        match r {
            Some(i) => i < pending@.len() && pending@[i as int]@.ticket == ticket,
            None => forall|k: int|
                0 <= k < pending@.len() ==> (#[trigger] pending@[k]@).ticket != ticket,
        },
{
    let mut i: usize = 0;
    while i < pending.len()
        invariant
            i <= pending@.len(),
            forall|k: int| 0 <= k < i ==> (#[trigger] pending@[k]@).ticket != ticket,
        decreases pending@.len() - i,
    {
        if pending[i].ticket == ticket {
            return Some(i);
        }
        i = i + 1;
    }
    None
}

/// The release hook's argument vector is present exactly when a hook is
/// configured, and then holds the configured tokens with the path appended.
pub open spec fn argv_fits(
    argv: Option<Vec<String>>,
    tokens: Seq<Seq<char>>,
    path: Seq<char>,
) -> bool {
    if tokens.len() == 0 {
        argv is None
    } else {
        argv matches Some(v) && v.deep_view() == tokens + seq![path]
    }
}

/// The budget is never overrun: under the engine's invariant the running
/// total of declared sizes is bounded by the configured budget, at every
/// observable instant.
pub proof fn lemma_budget_never_exceeded(c: Controller)
    requires
        c.wf(),
    ensures
        c.in_flight() <= c.budget(),
{
}

/// Conservation of accounting: the running total always equals the sum of
/// the declared sizes of the jobs admitted but not yet drained, so every
/// admitted size is subtracted exactly once.
pub proof fn lemma_accounting_balanced(c: Controller)
    requires
        c.wf(),
    ensures
        c.in_flight() as int == sum_sizes(c.jobs()),
{
}

/// No leak: once every admitted job has been drained, the running total is
/// back to zero.
pub proof fn lemma_idle_means_zero(c: Controller)
    requires
        c.wf(),
        c.jobs().len() == 0,
    ensures
        c.in_flight() == 0,
{
}

/// Waiting can always make progress: when a file that fits the budget on
/// its own must wait, something is in flight, so there is a completion to
/// drain.
pub proof fn lemma_wait_has_something_to_drain(c: Controller, declared_size: u64)
    requires
        c.wf(),
        declared_size <= c.budget(),
        c.in_flight() + declared_size > c.budget(),
    ensures
        c.jobs().len() > 0,
{
    if c.jobs().len() == 0 {
        lemma_idle_means_zero(c);
    }
}

} // verus!
