use vstd::prelude::*;

verus! {

/// The latest instant handled, 9999-12-31T23:59:59.999Z, in milliseconds.
pub const MAX_TIME_MS: i64 = 253_402_300_799_999;

/// Whether the cron crate accepts `expr` as a schedule expression.
pub uninterp spec fn cron_accepts(expr: Seq<char>) -> bool;

/// The first instant, in milliseconds, at which the cron expression `expr` fires
/// strictly after `after_ms`, if it parses and fires again at all.
pub uninterp spec fn cron_next(expr: Seq<char>, after_ms: i64) -> Option<i64>;

/// Relies on `cron::Schedule::from_str`: whether a cron expression (seconds field
/// first) parses depends on the text alone.
#[verifier::external_body]
pub(crate) fn cron_parses(expr: &str) -> (r: bool)
    ensures
        r == cron_accepts(expr@),
{
    <cron::Schedule as std::str::FromStr>::from_str(expr).is_ok()
}

/// Relies on `cron::Schedule::from_str`, `Schedule::after` and the first item of
/// its iterator: the first whole second, in UTC, that the expression matches
/// strictly after `after_ms`; none when it does not parse or never fires again.
#[verifier::external_body]
pub(crate) fn next_occurrence(expr: &str, after_ms: i64) -> (r: Option<i64>)
    requires
        -MAX_TIME_MS <= after_ms <= MAX_TIME_MS,
    ensures
        r == cron_next(expr@, after_ms),
        r matches Some(t) ==> t > after_ms,
{
    let schedule = <cron::Schedule as std::str::FromStr>::from_str(expr).ok()?;
    let after = chrono::DateTime::from_timestamp_millis(after_ms)?;
    schedule.after(&after).next().map(|t| t.timestamp_millis())
}

/// The instants at which `expr` fires strictly after `after` and before `end`,
/// found one occurrence after the other (the search stops at the end of year 9999).
pub open spec fn cron_runs(expr: Seq<char>, after: i64, end: i64) -> Seq<i64>
    decreases end - after,
{
    if after >= end || after > MAX_TIME_MS || after < -MAX_TIME_MS {
        seq![]
    } else {
        match cron_next(expr, after) {
            Some(t) => if after < t && t < end {
                seq![t] + cron_runs(expr, t, end)
            } else {
                seq![]
            },
            None => seq![],
        }
    }
}

/// The instants of `cron_runs` lie strictly between `after` and `end`, in
/// increasing order.
pub proof fn lemma_cron_runs(expr: Seq<char>, after: i64, end: i64)
    ensures
        forall|i: int|
            0 <= i < cron_runs(expr, after, end).len() ==> after < #[trigger] cron_runs(
                expr,
                after,
                end,
            )[i] < end,
        forall|i: int, j: int|
            0 <= i < j < cron_runs(expr, after, end).len() ==> cron_runs(expr, after, end)[i]
                < cron_runs(expr, after, end)[j],
    decreases end - after,
{
    if !(after >= end || after > MAX_TIME_MS || after < -MAX_TIME_MS) {
        if let Some(t) = cron_next(expr, after) {
            if after < t && t < end {
                lemma_cron_runs(expr, t, end);
                let rest = cron_runs(expr, t, end);
                let all = cron_runs(expr, after, end);
                assert(all == seq![t] + rest);
                assert forall|i: int| 0 <= i < all.len() implies after < #[trigger] all[i] < end by {
                    if i > 0 {
                        assert(all[i] == rest[i - 1]);
                    }
                }
                assert forall|i: int, j: int| 0 <= i < j < all.len() implies all[i] < all[j] by {
                    assert(all[j] == rest[j - 1]);
                    if i > 0 {
                        assert(all[i] == rest[i - 1]);
                    }
                }
            }
        }
    }
}

} // verus!
