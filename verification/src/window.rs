//! The search window of an incremental sync, and the query that asks the
//! mail provider for it.

use vstd::prelude::*;
use crate::text::{decimal, decimal_string, join_strings, joined, views};

verus! {

/// Milliseconds in one day.
pub const DAY_MS: i64 = 86_400_000;

/// The window, in days, of a user that was never synced.
pub const FIRST_WINDOW_DAYS: u64 = 7;

/// Milliseconds from the watermark `last_synced` to `now`; none where the
/// watermark lies in the future.
pub open spec fn elapsed_ms(now: int, last_synced: int) -> int {
    if now > last_synced {
        now - last_synced
    } else {
        0
    }
}

/// Number of days, rounded up and at least one, that separate the watermark
/// `last_synced` from `now`.
pub open spec fn window_days(now: int, last_synced: int) -> int {
    let days = (elapsed_ms(now, last_synced) + DAY_MS - 1) / (DAY_MS as int);
    if days < 1 {
        1
    } else {
        days
    }
}

/// The window of a user, in days: a week where there is no watermark yet.
pub open spec fn window_of(now: int, last_synced: Option<i64>) -> int {
    match last_synced {
        Some(last) => window_days(now, last as int),
        None => FIRST_WINDOW_DAYS as int,
    }
}

/// The clause that restricts a search to senders among `issuers`.
pub open spec fn sender_clause(issuers: Seq<Seq<char>>) -> Seq<char> {
    "from:("@ + joined(issuers, " OR "@) + ")"@
}

/// The clause that restricts a search to the last `days` days.
pub open spec fn recency_clause(days: int) -> Seq<char> {
    "newer_than:"@ + decimal(days as nat) + "d"@
}

/// The clauses of the search for a window of `days` days and senders among
/// `issuers`: category, senders, recency.
pub open spec fn query_clauses(issuers: Seq<Seq<char>>, days: int) -> Seq<Seq<char>> {
    seq!["category:primary"@, sender_clause(issuers), recency_clause(days)]
}

/// The window is the least number of days, one or more, that reaches back to
/// the watermark: it covers the time elapsed, and a day less would not,
/// unless it is the single day that every window has.
pub proof fn lemma_window_rounds_up(now: int, last_synced: int)
    ensures
        window_days(now, last_synced) >= 1,
        window_days(now, last_synced) * DAY_MS >= elapsed_ms(now, last_synced),
        window_days(now, last_synced) > 1 ==> (window_days(now, last_synced) - 1) * DAY_MS
            < elapsed_ms(now, last_synced),
{
    let e = elapsed_ms(now, last_synced);
    let d = DAY_MS as int;
    let q = (e + d - 1) / d;
    assert(q * d <= e + d - 1 < q * d + d) by (nonlinear_arith)
        requires
            q == (e + d - 1) / d,
            d > 0,
    ;
    assert((q - 1) * d == q * d - d) by (nonlinear_arith);
}

/// Computes `window_days` for two millisecond timestamps.
pub fn window_day_count(now: i64, last_synced: i64) -> (days: u64)
    ensures
        days == window_days(now as int, last_synced as int),
        days >= 1,
{
    let wide_now: i128 = now as i128;
    let wide_last: i128 = last_synced as i128;
    let elapsed: i128 = if wide_now > wide_last {
        wide_now - wide_last
    } else {
        0
    };
    let days: i128 = (elapsed + (DAY_MS as i128) - 1) / (DAY_MS as i128);
    if days < 1 {
        1
    } else {
        days as u64
    }
}

/// The window of a user whose watermark is `last_synced`, as `now` stands.
pub fn window_for(now: i64, last_synced: Option<i64>) -> (days: u64)
    ensures
        days == window_of(now as int, last_synced),
        days >= 1,
{
    match last_synced {
        Some(last) => window_day_count(now, last),
        None => FIRST_WINDOW_DAYS,
    }
}

/// Writes the clauses of the search for a window of `days` days and senders
/// among `issuers`.
pub fn clauses_for(issuers: &Vec<String>, days: u64) -> (clauses: Vec<String>)
    ensures
        views(clauses@) == query_clauses(views(issuers@), days as int),
{
    let mut senders: String = String::from_str("from:(");
    let list: String = join_strings(issuers, " OR ");
    senders.append(list.as_str());
    senders.append(")");
    let mut recency: String = String::from_str("newer_than:");
    let numeral: String = decimal_string(days);
    recency.append(numeral.as_str());
    recency.append("d");
    let mut clauses: Vec<String> = Vec::new();
    clauses.push(String::from_str("category:primary"));
    clauses.push(senders);
    clauses.push(recency);
    proof {
        assert(views(clauses@) == query_clauses(views(issuers@), days as int));
    }
    clauses
}

} // verus!
