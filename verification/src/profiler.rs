//! A CPU profiler shared by several users: the first start switches it on,
//! the last stop switches it off.
//!
//! Sampling is done by pprof. This module counts the users, decides when the
//! sampler is made and dropped, and hands out what has been sampled.

use vstd::prelude::*;

verus! {

/// The sampler of pprof: it samples while it lives. Nothing is known of
/// what is inside.
#[verifier::external_type_specification]
#[verifier::external_body]
pub struct ExProfilerGuard<'a>(pprof::ProfilerGuard<'a>);

/// A report of pprof: the samples taken up to some moment. Nothing is known
/// of what is inside.
#[verifier::external_type_specification]
#[verifier::external_body]
pub struct ExReport(pprof::Report);

/// The largest number of users at a time.
pub const MAX_USERS: u8 = 127;

/// The samples taken per second.
pub const FREQUENCY: i32 = 100;

/// A profiler that runs: its sampler and the number of its users.
pub struct Running {
    pub sampler: pprof::ProfilerGuard<'static>,
    pub users: u8,
}

/// The profiler and the number of its users.
pub struct Profiler {
    guard: Option<pprof::ProfilerGuard<'static>>,
    users: u8,
}

impl View for Profiler {
    type V = Option<Running>;

    /// The sampler and the number of users while the profiler runs, `None`
    /// while it does not.
    closed spec fn view(&self) -> Option<Running> {
        match self.guard {
            Some(sampler) => Some(Running { sampler, users: self.users }),
            None => None,
        }
    }
}

/// The state and the answer after a start. `made` is the sampler that was
/// made for the start, if one was: it matters only while none runs, and its
/// user is then the first. A running profiler keeps its sampler and takes
/// one more user, unless it has `MAX_USERS` already: then nothing changes.
pub open spec fn after_start(state: Option<Running>, made: Option<pprof::ProfilerGuard<'static>>)
    -> (Option<Running>, bool) {
    match state {
        None => match made {
            Some(sampler) => (Some(Running { sampler, users: 1 }), true),
            None => (None, false),
        },
        Some(running) => if running.users < MAX_USERS {
            (Some(Running { users: (running.users + 1) as u8, ..running }), true)
        } else {
            (Some(running), false)
        },
    }
}

/// The state after a stop: the same sampler with one user fewer, and no
/// sampler at all once the last user has left.
pub open spec fn after_stop(state: Option<Running>) -> Option<Running> {
    match state {
        None => None,
        Some(running) => if running.users <= 1 {
            None
        } else {
            Some(Running { users: (running.users - 1) as u8, ..running })
        },
    }
}

/// The number of users of a state.
pub open spec fn users_of(state: Option<Running>) -> Option<u8> {
    match state {
        Some(running) => Some(running.users),
        None => None,
    }
}

/// `ProfilerGuard::new` of pprof: a sampler running at `frequency` samples a
/// second, or `None` where none could be made. The outside function divides
/// by the frequency, so it must not be zero.
#[verifier::external_body]
fn new_guard(frequency: i32) -> (r: Option<pprof::ProfilerGuard<'static>>)
    requires
        frequency > 0,
{
    pprof::ProfilerGuard::new(frequency).ok()
}

/// `ProfilerGuard::report` and `ReportBuilder::build` of pprof: what has
/// been sampled so far, or `None` where no report could be built.
#[verifier::external_body]
fn build_report(guard: &pprof::ProfilerGuard<'static>) -> (r: Option<pprof::Report>) {
    guard.report().build().ok()
}

/// Whether a report of pprof holds no sample: `is_empty` of its `data`.
#[verifier::external_body]
fn report_is_empty(report: &pprof::Report) -> (r: bool) {
    report.data.is_empty()
}

impl Profiler {
    #[verifier::type_invariant]
    spec fn inv(self) -> bool {
        self.guard is Some ==> 1 <= self.users <= MAX_USERS
    }

    /// A profiler that does not run.
    pub fn new() -> (r: Profiler)
        ensures
            r@ is None,
    {
        Profiler { guard: None, users: 0 }
    }

    /// The number of users; `None` while the profiler does not run.
    pub fn users(&self) -> (r: Option<u8>)
        ensures
            r == users_of(self@),
            r matches Some(n) ==> 1 <= n <= MAX_USERS,
    {
        proof {
            use_type_invariant(self);
        }
        if self.guard.is_some() {
            Some(self.users)
        } else {
            None
        }
    }

    /// Gives a profiler that does not run its first user, where a sampler
    /// was made for it: that sampler is then the profiler's.
    pub fn install(&mut self, guard: Option<pprof::ProfilerGuard<'static>>) -> (r: bool)
        requires
            old(self)@ is None,
        ensures
            r == (guard is Some),
            (final(self)@, r) == after_start(None, guard),
    {
        let made = guard.is_some();
        self.users = if made {
            1
        } else {
            0
        };
        self.guard = guard;
        made
    }
}

/// Adds a user. While the profiler does not run, a sampler is made and, if
/// that works, the user is its first. While it runs, it keeps its sampler,
/// and the user is taken unless there are `MAX_USERS` already. The answer
/// says whether the user was taken.
pub fn start_profiler(profiler: &mut Profiler) -> (r: bool)
    ensures
        old(profiler)@ is Some ==> (final(profiler)@, r) == after_start(old(profiler)@, None),
        old(profiler)@ is None ==> (if r {
            users_of(final(profiler)@) == Some(1u8)
        } else {
            final(profiler)@ is None
        }),
{
    proof {
        use_type_invariant(&*profiler);
    }
    if profiler.guard.is_some() {
        if profiler.users < MAX_USERS {
            profiler.users = profiler.users + 1;
            true
        } else {
            false
        }
    } else {
        profiler.install(new_guard(FREQUENCY))
    }
}

/// Takes a user away. While users are left the sampler stays the one that
/// was there. With the last user the sampler is dropped, and the profiler no
/// longer runs. A profiler that does not run stays as it is.
pub fn stop_profiler(profiler: &mut Profiler)
    ensures
        final(profiler)@ == after_stop(old(profiler)@),
{
    proof {
        use_type_invariant(&*profiler);
    }
    if profiler.guard.is_some() {
        if profiler.users > 1 {
            profiler.users = profiler.users - 1;
        } else {
            profiler.guard = None;
        }
    }
}

/// What is drawn of a report, given whether it holds no sample: the report
/// itself, unless it holds none.
pub fn worth_drawing(report: pprof::Report, empty: bool) -> (r: Option<pprof::Report>)
    ensures
        r == (if empty {
            None
        } else {
            Some(report)
        }),
{
    if empty {
        None
    } else {
        Some(report)
    }
}

/// The report to draw a flame graph of: what has been sampled so far. There
/// is none while the profiler does not run; while it runs there is none
/// either where no report can be built or where the report holds no sample.
pub fn gen_flame_graph(profiler: &Profiler) -> (r: Option<pprof::Report>)
    ensures
        profiler@ is None ==> r is None,
{
    match &profiler.guard {
        Some(guard) => match build_report(guard) {
            Some(report) => {
                let empty = report_is_empty(&report);
                worth_drawing(report, empty)
            },
            None => None,
        },
        None => None,
    }
}

} // verus!
