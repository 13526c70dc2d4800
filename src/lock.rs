//! The session lock: its age and the admission decision.
use vstd::prelude::*;
use crate::clock::{parse_utc, parsed_utc, utc_now};
use crate::text::{chars_of, string_of, trim, trim_range};

verus! {

/// What the admission protocol finds about the session lock.
#[derive(Debug, PartialEq, Eq, Structural, Clone, Copy)]
pub enum LockState {
    /// No readable lock: the session may start.
    Absent,
    /// A lock no older than the timeout: another session runs.
    Active,
    /// A lock older than the timeout: it is cleared and the session starts.
    Stale,
}

pub open spec fn classify_spec(age: Option<i64>, timeout: i64) -> LockState {
    match age {
        None => LockState::Absent,
        Some(a) => if a <= timeout {
            LockState::Active
        } else {
            LockState::Stale
        },
    }
}

/// Classify a lock by its age in minutes; a lock exactly as old as the
/// timeout is still active.
pub fn classify_lock(age: Option<i64>, timeout: i64) -> (r: LockState)
    ensures
        r == classify_spec(age, timeout),
{
    match age {
        None => LockState::Absent,
        Some(a) => if a <= timeout {
            LockState::Active
        } else {
            LockState::Stale
        },
    }
}

/// A point in time: whole seconds since the Unix epoch and the nanoseconds
/// past them.
#[derive(Debug, PartialEq, Eq, Structural, Clone, Copy)]
pub struct UtcInstant {
    pub secs: i64,
    pub nanos: u32,
}

pub const NANOS_PER_SEC: i128 = 1_000_000_000;

/// Integer division rounding toward zero.
pub open spec fn div_toward_zero(a: int, b: int) -> int {
    if a >= 0 {
        a / b
    } else {
        -((-a) / b)
    }
}

/// Whole minutes from `then` to `now`, rounding toward zero (negative when
/// `then` lies ahead).
pub open spec fn age_minutes(now_secs: int, now_nanos: int, then_secs: int, then_nanos: int) -> int {
    let nanos = (now_secs - then_secs) * NANOS_PER_SEC + (now_nanos - then_nanos);
    div_toward_zero(div_toward_zero(nanos, NANOS_PER_SEC as int), 60)
}

pub fn lock_age_minutes(now: UtcInstant, then: UtcInstant) -> (r: i64)
    ensures
        r == age_minutes(now.secs as int, now.nanos as int, then.secs as int, then.nanos as int),
{
    let d: i128 = (now.secs as i128 - then.secs as i128) * NANOS_PER_SEC + (now.nanos as i128
        - then.nanos as i128);
    let secs: i128 = if d >= 0 {
        d / NANOS_PER_SEC
    } else {
        -((-d) / NANOS_PER_SEC)
    };
    let mins: i128 = if secs >= 0 {
        secs / 60
    } else {
        -((-secs) / 60)
    };
    assert(-0x1_0000_0000_0000_0000 * NANOS_PER_SEC - 5 * NANOS_PER_SEC <= d <= 0x1_0000_0000_0000_0000
        * NANOS_PER_SEC + 5 * NANOS_PER_SEC);
    assert(-0x1_0000_0000_0000_0001 - 5 <= secs <= 0x1_0000_0000_0000_0001 + 5) by (nonlinear_arith)
        requires
            secs == div_toward_zero(d as int, NANOS_PER_SEC as int),
            -0x1_0000_0000_0000_0000 * NANOS_PER_SEC - 5 * NANOS_PER_SEC <= d
                <= 0x1_0000_0000_0000_0000 * NANOS_PER_SEC + 5 * NANOS_PER_SEC,
    ;
    mins as i64
}

/// A lock written at `then` and read `minutes` whole minutes and `extra`
/// seconds later is `minutes` old: active up to the timeout, that minute
/// included, and stale after it.
pub proof fn lemma_lock_boundary(then_secs: int, nanos: int, minutes: int, extra: int, timeout: i64)
    requires
        0 <= minutes,
        0 <= extra < 60,
        minutes <= i64::MAX,
    ensures
        age_minutes(then_secs + 60 * minutes + extra, nanos, then_secs, nanos) == minutes,
        classify_spec(Some(minutes as i64), timeout) == (if minutes <= timeout {
            LockState::Active
        } else {
            LockState::Stale
        }),
{
    let s = 60 * minutes + extra;
    assert((then_secs + s - then_secs) * NANOS_PER_SEC + (nanos - nanos) == s * NANOS_PER_SEC);
    assert(s * 1_000_000_000 / 1_000_000_000 == s) by (nonlinear_arith)
        requires
            s >= 0,
    ;
    assert((60 * minutes + extra) / 60 == minutes) by (nonlinear_arith)
        requires
            0 <= minutes,
            0 <= extra < 60,
    ;
}


/// `s` without leading and trailing whitespace.
pub fn trimmed(s: &str) -> (r: String)
    ensures
        r@ == trim(s@),
{
    let v = chars_of(s);
    let (a, b) = trim_range(&v, 0, v.len());
    assert(v@.subrange(0, v.len() as int) =~= v@);
    string_of(&v, a, b)
}

/// `a` is the age, against some reading of the clock, of a lock holding `text`.
pub open spec fn age_from_some_clock(a: i64, text: Seq<char>) -> bool {
    match parsed_utc(trim(text)) {
        Some(then) => exists|now_secs: int, now_nanos: int|
            a == #[trigger] age_minutes(now_secs, now_nanos, then.0 as int, then.1 as int),
        None => false,
    }
}

/// Age in minutes of a lock whose file holds `content`, measured against the
/// clock now; `None` when there is no lock or its timestamp does not parse.
pub fn read_lock_age(content: Option<&str>) -> (r: Option<i64>)
    ensures
        r is Some <==> (content is Some && parsed_utc(trim(content->0@)) is Some),
        r is Some ==> age_from_some_clock(r->0, content->0@),
{
    match content {
        None => None,
        Some(c) => {
            let t = trimmed(c);
            match parse_utc(t.as_str()) {
                None => None,
                Some(then) => {
                    let now = utc_now();
                    let a = lock_age_minutes(now, then);
                    assert(parsed_utc(trim(c@)) == Some((then.secs, then.nanos)));
                    assert(a == age_minutes(
                        now.secs as int,
                        now.nanos as int,
                        then.secs as int,
                        then.nanos as int,
                    ));
                    assert(age_from_some_clock(a, c@)) by {
                        let pv = parsed_utc(trim(c@))->0;
                        assert(pv.0 == then.secs && pv.1 == then.nanos);
                        assert(a == age_minutes(now.secs as int, now.nanos as int, pv.0 as int, pv.1 as int));
                    }
                    Some(a)
                },
            }
        },
    }
}

} // verus!
