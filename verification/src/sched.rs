//! Scheduling: cron expression validity and next-match computation are
//! delegated to the cron crate behind trusted wrappers; the run loop's
//! decisions and its serialized-run bookkeeping are verified.

use vstd::prelude::*;
use vstd::seq_lib::*;

verus! {

/// Whether the cron crate accepts `expr` as a schedule expression.
pub uninterp spec fn cron_valid(expr: Seq<char>) -> bool;

/// Whitespace as cron's expression parser skips it around a number.
pub open spec fn is_cron_space(c: char) -> bool {
    c == ' ' || c == '\t' || c == '\n' || c == '\r'
}

/// The text reads as a run of zero digits and then no further digit: a
/// step value of zero.
pub open spec fn zero_digits_then_break(s: Seq<char>) -> bool
    decreases s.len(),
{
    if s.len() == 0 {
        true
    } else if s[0] == '0' {
        zero_digits_then_break(s.skip(1))
    } else {
        !('0' <= s[0] <= '9')
    }
}

/// The text reads, after optional whitespace, as a zero step value.
pub open spec fn zero_step_value(s: Seq<char>) -> bool
    decreases s.len(),
{
    if s.len() == 0 {
        false
    } else if is_cron_space(s[0]) {
        zero_step_value(s.skip(1))
    } else if s[0] == '0' {
        zero_digits_then_break(s.skip(1))
    } else {
        false
    }
}

/// The expression holds a period specifier with step zero (`0/0`, with
/// optional whitespace and leading zeros): cron's parser computes the
/// period's ordinals while parsing and panics on a zero step, so such
/// an expression must be rejected before the parser sees it.
pub open spec fn has_zero_step(s: Seq<char>) -> bool
    decreases s.len(),
{
    if s.len() == 0 {
        false
    } else if s[0] == '/' && zero_step_value(s.skip(1)) {
        true
    } else {
        has_zero_step(s.skip(1))
    }
}

/// Decide `zero_digits_then_break` for the text from position `i` on.
fn zero_digits_then_break_at(s: &str, i: usize) -> (r: bool)
    requires
        i <= s@.len(),
    ensures
        r == zero_digits_then_break(s@.skip(i as int)),
    decreases s@.len() - i,
{
    let n = s.unicode_len();
    if i == n {
        proof {
            assert(s@.skip(i as int) =~= Seq::<char>::empty());
        }
        return true;
    }
    let c = s.get_char(i);
    proof {
        assert(s@.skip(i as int)[0] == s@[i as int]);
        assert_seqs_equal!(s@.skip(i as int).skip(1) == s@.skip(i + 1));
    }
    if c == '0' {
        zero_digits_then_break_at(s, i + 1)
    } else {
        !('0' <= c && c <= '9')
    }
}

/// Decide `zero_step_value` for the text from position `i` on.
fn zero_step_value_at(s: &str, i: usize) -> (r: bool)
    requires
        i <= s@.len(),
    ensures
        r == zero_step_value(s@.skip(i as int)),
    decreases s@.len() - i,
{
    let n = s.unicode_len();
    if i == n {
        proof {
            assert(s@.skip(i as int) =~= Seq::<char>::empty());
        }
        return false;
    }
    let c = s.get_char(i);
    proof {
        assert(s@.skip(i as int)[0] == s@[i as int]);
        assert_seqs_equal!(s@.skip(i as int).skip(1) == s@.skip(i + 1));
    }
    if c == ' ' || c == '\t' || c == '\n' || c == '\r' {
        zero_step_value_at(s, i + 1)
    } else if c == '0' {
        zero_digits_then_break_at(s, i + 1)
    } else {
        false
    }
}

/// Decide whether the expression holds a period specifier with step
/// zero, which cron's parser cannot take.
pub fn detect_zero_step(s: &str) -> (r: bool)
    ensures
        r == has_zero_step(s@),
{
    let n = s.unicode_len();
    let mut i: usize = 0;
    proof {
        assert_seqs_equal!(s@.skip(0) == s@);
    }
    while i < n
        invariant
            s@.len() == n,
            0 <= i <= n,
            has_zero_step(s@) == has_zero_step(s@.skip(i as int)),
        decreases n - i,
    {
        proof {
            assert(s@.skip(i as int)[0] == s@[i as int]);
            assert_seqs_equal!(s@.skip(i as int).skip(1) == s@.skip(i + 1));
        }
        if s.get_char(i) == '/' {
            if zero_step_value_at(s, i + 1) {
                return true;
            }
        }
        i += 1;
    }
    proof {
        assert(s@.skip(n as int) =~= Seq::<char>::empty());
    }
    false
}

/// The first matching instant (seconds since the Unix epoch) of a valid
/// schedule expression strictly after `now`, or `None` when the
/// schedule never matches again. A pure function of its arguments, so
/// the computed next run time is deterministic.
pub uninterp spec fn cron_next(expr: Seq<char>, now: i64) -> Option<i64>;

/// Latest instant the scheduler accepts, the start of year 10000: far
/// past the cron crate's own search horizon and well inside the range
/// its date arithmetic handles without panicking.
pub const MAX_INSTANT: i64 = 253402300800;

/// Relies on cron's `Schedule::from_str` (re-exported by
/// job_scheduler): it accepts or rejects an expression as a pure
/// function of the string alone. On a period specifier with step zero
/// the parser panics instead of rejecting, so the precondition keeps
/// such expressions out.
#[verifier::external_body]
fn cron_parse_ok(expr: &str) -> (r: bool)
    requires
        !has_zero_step(expr@),
    ensures
        r == cron_valid(expr@),
{
    <job_scheduler::Schedule as std::str::FromStr>::from_str(expr).is_ok()
}

/// Relies on cron's `Schedule::after` (re-exported by job_scheduler),
/// which searches forward starting one second past the given instant:
/// the first match is a pure function of the expression and the
/// instant, and strictly later than the instant. The expression is
/// re-parsed here with `Schedule::from_str`, which accepts it by the
/// precondition.
#[verifier::external_body]
fn cron_next_after(expr: &str, now: i64) -> (r: Option<i64>)
    requires
        !has_zero_step(expr@),
        cron_valid(expr@),
        0 <= now < MAX_INSTANT,
    ensures
        r == cron_next(expr@, now),
        r matches Some(t) ==> now < t,
{
    let schedule = match <job_scheduler::Schedule as std::str::FromStr>::from_str(expr) {
        Ok(s) => s,
        Err(_) => return None,
    };
    let after = match chrono::TimeZone::timestamp_opt(&chrono::Utc, now, 0) {
        chrono::LocalResult::Single(dt) => dt,
        _ => return None,
    };
    schedule.after(&after).next().map(|dt| dt.timestamp())
}

/// The scheduling loop's state: the accepted expression and, once
/// computed, the next instant a run is due. Runs are serialized: the
/// driving loop polls, executes one complete orchestration run, then
/// reports the run complete, so no second run can start meanwhile, and
/// due instants that passed during a run are absorbed, never queued.
pub struct Scheduler {
    expr: String,
    next_due: Option<i64>,
}

impl Scheduler {
    /// A scheduler holds only an expression the cron crate accepted,
    /// with no zero-step period the parser would choke on.
    #[verifier::type_invariant]
    spec fn wf(self) -> bool {
        !has_zero_step(self.expr@) && cron_valid(self.expr@)
    }

    /// The schedule expression driving this scheduler.
    pub closed spec fn expr_model(self) -> Seq<char> {
        self.expr@
    }

    /// The next instant a run is due, when one is known.
    pub closed spec fn due(self) -> Option<i64> {
        self.next_due
    }

    /// Parse the expression at startup and compute the first due
    /// instant. An expression with a zero-step period or one the cron
    /// crate rejects yields nothing: the one fatal configuration error.
    pub fn start(expr: &str, now: i64) -> (r: Option<Scheduler>)
        requires
            0 <= now < MAX_INSTANT,
        ensures
            r is Some <==> !has_zero_step(expr@) && cron_valid(expr@),
            r matches Some(s) ==> s.expr_model() == expr@ && s.due() == cron_next(expr@, now),
            r matches Some(s) ==> (s.due() matches Some(d) ==> now < d),
    {
        if detect_zero_step(expr) {
            return None;
        }
        if cron_parse_ok(expr) {
            let due = cron_next_after(expr, now);
            Some(Scheduler { expr: expr.to_owned(), next_due: due })
        } else {
            None
        }
    }

    /// The next instant a run is due, for reporting.
    pub fn next_due(&self) -> (d: Option<i64>)
        ensures
            d == self.due(),
    {
        self.next_due
    }

    /// Decide whether a run is due now: exactly when a due instant is
    /// known and has arrived. Polling never changes the schedule, so
    /// ticks while a run is in flight cannot queue further runs.
    pub fn poll(&self, now: i64) -> (run: bool)
        ensures
            run == (self.due() matches Some(d) && now >= d),
    {
        match self.next_due {
            Option::Some(d) => now >= d,
            Option::None => false,
        }
    }

    /// Record one run complete at instant `now` and recompute the next
    /// due instant from the completion time: deterministic for a fixed
    /// expression and instant, strictly after `now`, so every matching
    /// instant missed during the run is absorbed.
    pub fn complete_run(&mut self, now: i64) -> (next: Option<i64>)
        requires
            0 <= now < MAX_INSTANT,
        ensures
            final(self).expr_model() == old(self).expr_model(),
            final(self).due() == cron_next(old(self).expr_model(), now),
            next == final(self).due(),
            final(self).due() matches Some(d) ==> now < d,
    {
        proof {
            use_type_invariant(&*self);
        }
        let next = cron_next_after(self.expr.as_str(), now);
        self.next_due = next;
        next
    }
}

} // verus!
