//! Rate limiting of runtime error reports: per plugin and globally, within a
//! sliding ten-second window.

use crate::plugin_validation::{record_input_error, validate_record_input};
use crate::text::same_text;
use crate::trusted::{duration_nanos, instant_elapsed, instant_now};
use std::time::Instant;
use vstd::prelude::*;

verus! {

/// Length of a rate window, in nanoseconds of monotonic time.
pub const RUNTIME_REPORT_WINDOW_NANOS: u128 = 10_000_000_000;

/// Reports one plugin may make within its window.
pub const MAX_RUNTIME_REPORTS: u32 = 8;

/// Reports all plugins together may make within their windows.
pub const MAX_RUNTIME_REPORTS_GLOBAL: u32 = 64;

/// Plugins followed at once.
pub const MAX_RUNTIME_REPORTERS: usize = 128;

/// The window of one plugin: when it opened and how many reports it holds.
pub struct RuntimeRate {
    pub window_started: u128,
    pub count: u32,
}

/// A followed plugin as `(id, window start, count)`.
pub open spec fn rate_views(rates: Seq<(String, RuntimeRate)>) -> Seq<(Seq<char>, u128, u32)> {
    rates.map_values(|r: (String, RuntimeRate)| (r.0@, r.1.window_started, r.1.count))
}

/// A window that opened at `started` is still open at monotonic reading
/// `now` (a reading before `started` counts as no time passed).
pub open spec fn window_open(started: u128, now: u128) -> bool {
    now < started || now - started < RUNTIME_REPORT_WINDOW_NANOS
}

/// The followed plugins whose windows are still open at `now`, in order.
pub open spec fn open_windows(rates: Seq<(Seq<char>, u128, u32)>, now: u128) -> Seq<
    (Seq<char>, u128, u32),
>
    decreases rates.len(),
{
    if rates.len() == 0 {
        seq![]
    } else {
        let rest = open_windows(rates.drop_last(), now);
        if window_open(rates.last().1, now) {
            rest.push(rates.last())
        } else {
            rest
        }
    }
}

/// The reports counted across all followed plugins.
pub open spec fn total_reports(rates: Seq<(Seq<char>, u128, u32)>) -> nat
    decreases rates.len(),
{
    if rates.len() == 0 {
        0
    } else {
        total_reports(rates.drop_last()) + rates.last().2 as nat
    }
}

/// Whether `id` is followed.
pub open spec fn tracks(rates: Seq<(Seq<char>, u128, u32)>, id: Seq<char>) -> bool {
    exists|i: int| 0 <= i < rates.len() && #[trigger] rates[i].0 == id
}

/// The position of a followed id.
pub open spec fn reporter_position(rates: Seq<(Seq<char>, u128, u32)>, id: Seq<char>) -> int {
    choose|i: int| 0 <= i < rates.len() && #[trigger] rates[i].0 == id
}

/// A well-formed limiter: each plugin once, each count between one and the
/// per-plugin limit, and the global limit respected.
pub open spec fn rates_wf(rates: Seq<(Seq<char>, u128, u32)>) -> bool {
    &&& rates.len() <= MAX_RUNTIME_REPORTERS
    &&& forall|i: int, j: int| 0 <= i < j < rates.len() ==> #[trigger] rates[i].0 != #[trigger] rates[j].0
    &&& forall|i: int| 0 <= i < rates.len() ==> 1 <= #[trigger] rates[i].2 <= MAX_RUNTIME_REPORTS
    &&& total_reports(rates) <= MAX_RUNTIME_REPORTS_GLOBAL
}

/// Error text when the global or the per-plugin limit is reached.
pub open spec fn too_many_reports_message() -> Seq<char> {
    "PLUGIN_ERROR_RATE_LIMITED: too many runtime reports"@
}

/// Error text when too many plugins are followed.
pub open spec fn too_many_reporters_message() -> Seq<char> {
    "PLUGIN_ERROR_RATE_LIMITED: too many runtime reporters"@
}

/// The error a report from `id` at `now` meets, if any.
pub open spec fn report_error(rates: Seq<(Seq<char>, u128, u32)>, id: Seq<char>, now: u128) -> Option<
    Seq<char>,
> {
    let open = open_windows(rates, now);
    if total_reports(open) >= MAX_RUNTIME_REPORTS_GLOBAL {
        Some(too_many_reports_message())
    } else if tracks(open, id) {
        if open[reporter_position(open, id)].2 >= MAX_RUNTIME_REPORTS {
            Some(too_many_reports_message())
        } else {
            None
        }
    } else if open.len() >= MAX_RUNTIME_REPORTERS {
        Some(too_many_reporters_message())
    } else {
        None
    }
}

/// The followed plugins after a report from `id` at `now`: the open windows,
/// with the report counted when it is allowed (in its plugin's window, or in a
/// new window opened at `now`).
pub open spec fn rates_after(rates: Seq<(Seq<char>, u128, u32)>, id: Seq<char>, now: u128) -> Seq<
    (Seq<char>, u128, u32),
> {
    let open = open_windows(rates, now);
    if report_error(rates, id, now) is Some {
        open
    } else if tracks(open, id) {
        let i = reporter_position(open, id);
        open.update(i, (id, open[i].1, (open[i].2 + 1) as u32))
    } else {
        open.push((id, now, 1u32))
    }
}

/// Open windows are followed plugins, and keep a well-formed limiter well formed.
pub proof fn lemma_open_windows(rates: Seq<(Seq<char>, u128, u32)>, now: u128)
    ensures
        open_windows(rates, now).len() <= rates.len(),
        total_reports(open_windows(rates, now)) <= total_reports(rates),
        forall|j: int|
            0 <= j < open_windows(rates, now).len() ==> rates.contains(
                #[trigger] open_windows(rates, now)[j],
            ),
        rates_wf(rates) ==> rates_wf(open_windows(rates, now)),
    decreases rates.len(),
{
    if rates.len() > 0 {
        let prefix = rates.drop_last();
        lemma_open_windows(prefix, now);
        let rest = open_windows(prefix, now);
        let open = open_windows(rates, now);
        if window_open(rates.last().1, now) {
            assert(open.drop_last() =~= rest);
        }
        assert forall|j: int| 0 <= j < open.len() implies rates.contains(#[trigger] open[j]) by {
            if j < rest.len() {
                assert(open[j] == rest[j]);
                assert(prefix.contains(rest[j]));
                let k = choose|k: int| 0 <= k < prefix.len() && prefix[k] == rest[j];
                assert(rates[k] == open[j]);
            } else {
                assert(rates[rates.len() - 1] == open[j]);
            }
        }
        if rates_wf(rates) {
            assert(rates_wf(prefix)) by {
                assert forall|i: int, j: int| 0 <= i < j < prefix.len() implies #[trigger] prefix[i].0
                    != #[trigger] prefix[j].0 by {
                    assert(prefix[i] == rates[i] && prefix[j] == rates[j]);
                }
                assert forall|i: int| 0 <= i < prefix.len() implies 1 <= #[trigger] prefix[i].2
                    <= MAX_RUNTIME_REPORTS by {
                    assert(prefix[i] == rates[i]);
                }
            }
            if window_open(rates.last().1, now) {
                assert forall|i: int, j: int| 0 <= i < j < open.len() implies #[trigger] open[i].0
                    != #[trigger] open[j].0 by {
                    if j == open.len() - 1 {
                        assert(open[i] == rest[i]);
                        let k = choose|k: int| 0 <= k < prefix.len() && prefix[k] == rest[i];
                        assert(rates[k] == open[i]);
                        assert(rates[rates.len() - 1] == open[j]);
                    } else {
                        assert(open[i] == rest[i] && open[j] == rest[j]);
                    }
                }
                assert forall|i: int| 0 <= i < open.len() implies 1 <= #[trigger] open[i].2
                    <= MAX_RUNTIME_REPORTS by {
                    if i < rest.len() {
                        assert(open[i] == rest[i]);
                    }
                }
            }
        }
    }
}

/// Counting one more report at position `i` adds one to the total.
pub proof fn lemma_total_update(rates: Seq<(Seq<char>, u128, u32)>, i: int, entry: (Seq<char>, u128, u32))
    requires
        0 <= i < rates.len(),
        entry.2 == rates[i].2 + 1,
    ensures
        total_reports(rates.update(i, entry)) == total_reports(rates) + 1,
    decreases rates.len(),
{
    let next = rates.update(i, entry);
    if i == rates.len() - 1 {
        assert(next.drop_last() =~= rates.drop_last());
    } else {
        lemma_total_update(rates.drop_last(), i, entry);
        assert(next.drop_last() =~= rates.drop_last().update(i, entry));
    }
}

/// Keeps the followed plugins whose windows are open at `now`.
fn open_rates(rates: &Vec<(String, RuntimeRate)>, now: u128) -> (kept: Vec<(String, RuntimeRate)>)
    ensures
        rate_views(kept@) == open_windows(rate_views(rates@), now),
{
    let ghost before = rate_views(rates@);
    let mut kept: Vec<(String, RuntimeRate)> = Vec::new();
    let mut i: usize = 0;
    while i < rates.len()
        invariant
            0 <= i <= rates@.len(),
            before == rate_views(rates@),
            rate_views(kept@) == open_windows(before.take(i as int), now),
        decreases rates@.len() - i,
    {
        let entry = &rates[i];
        assert(before.take(i + 1).drop_last() =~= before.take(i as int));
        assert(before.take(i + 1).last() == (entry.0@, entry.1.window_started, entry.1.count));
        let started = entry.1.window_started;
        if now < started || now - started < RUNTIME_REPORT_WINDOW_NANOS {
            let ghost k = rate_views(kept@);
            kept.push(
                (entry.0.clone(), RuntimeRate { window_started: started, count: entry.1.count }),
            );
            assert(rate_views(kept@) =~= k.push((entry.0@, started, entry.1.count)));
        }
        i = i + 1;
    }
    assert(before.take(rates@.len() as int) =~= before);
    kept
}

/// The reports counted across a well-formed list of followed plugins.
fn reports_total(rates: &Vec<(String, RuntimeRate)>) -> (total: u64)
    requires
        rates_wf(rate_views(rates@)),
    ensures
        total == total_reports(rate_views(rates@)),
{
    let ghost all = rate_views(rates@);
    let mut total: u64 = 0;
    let mut j: usize = 0;
    while j < rates.len()
        invariant
            0 <= j <= rates@.len(),
            all == rate_views(rates@),
            rates_wf(all),
            total == total_reports(all.take(j as int)),
        decreases rates@.len() - j,
    {
        assert(all.take(j + 1).drop_last() =~= all.take(j as int));
        assert(all.take(j + 1).last() == all[j as int]);
        proof {
            lemma_total_prefix(all, j + 1);
        }
        total = total + rates[j].1.count as u64;
        j = j + 1;
    }
    assert(all.take(rates@.len() as int) =~= all);
    total
}

/// Where `id` stands among the followed plugins, if it is followed.
fn find_reporter(rates: &Vec<(String, RuntimeRate)>, id: &str) -> (r: Option<usize>)
    ensures
        match r {
            Some(k) => k < rates@.len() && rate_views(rates@)[k as int].0 == id@,
            None => !tracks(rate_views(rates@), id@),
        },
{
    let ghost all = rate_views(rates@);
    let mut k: usize = 0;
    while k < rates.len()
        invariant
            0 <= k <= rates@.len(),
            all == rate_views(rates@),
            forall|m: int| 0 <= m < k ==> all[m].0 != id@,
        decreases rates@.len() - k,
    {
        if same_text(rates[k].0.as_str(), id) {
            return Some(k);
        }
        k = k + 1;
    }
    None
}

/// Runtime report limiter.
pub struct RuntimeRateLimiter {
    rates: Vec<(String, RuntimeRate)>,
    epoch: Instant,
}

impl RuntimeRateLimiter {
    #[verifier::type_invariant]
    spec fn well_formed(self) -> bool {
        rates_wf(rate_views(self.rates@))
    }

    /// The followed plugins.
    pub closed spec fn reporters(self) -> Seq<(Seq<char>, u128, u32)> {
        rate_views(self.rates@)
    }

    /// A limiter following nothing, whose monotonic readings count from now.
    pub fn new() -> (limiter: Self)
        ensures
            limiter.reporters() == Seq::<(Seq<char>, u128, u32)>::empty(),
    {
        let limiter = RuntimeRateLimiter { rates: Vec::new(), epoch: instant_now() };
        assert(limiter.reporters() =~= Seq::<(Seq<char>, u128, u32)>::empty());
        limiter
    }

    /// Decides a report from `id` at monotonic reading `now` (nanoseconds
    /// since the limiter was created), counting it when it is allowed.
    pub fn allow_at(&mut self, id: &str, now: u128) -> (r: Result<(), String>)
        ensures
            match r {
                Ok(()) => report_error(old(self).reporters(), id@, now) is None,
                Err(e) => report_error(old(self).reporters(), id@, now) == Some(e@),
            },
            final(self).reporters() == rates_after(old(self).reporters(), id@, now),
            rates_wf(final(self).reporters()),
    {
        proof {
            use_type_invariant(&*self);
            lemma_open_windows(self.reporters(), now);
        }
        let ghost open = open_windows(self.reporters(), now);
        let mut kept = open_rates(&self.rates, now);
        if reports_total(&kept) >= MAX_RUNTIME_REPORTS_GLOBAL as u64 {
            self.rates = kept;
            return Err(String::from_str("PLUGIN_ERROR_RATE_LIMITED: too many runtime reports"));
        }
        match find_reporter(&kept, id) {
            Some(k) => {
                assert(open[k as int].0 == id@);
                assert(tracks(open, id@));
                let ghost p = reporter_position(open, id@);
                assert(p == k) by {
                    assert(open[p].0 == open[k as int].0);
                }
                let count = kept[k].1.count;
                if count >= MAX_RUNTIME_REPORTS {
                    self.rates = kept;
                    return Err(
                        String::from_str("PLUGIN_ERROR_RATE_LIMITED: too many runtime reports"),
                    );
                }
                let started = kept[k].1.window_started;
                let ghost entry = (id@, started, (count + 1) as u32);
                proof {
                    lemma_total_update(open, k as int, entry);
                }
                kept.set(
                    k,
                    (String::from_str(id), RuntimeRate { window_started: started, count: count + 1 }),
                );
                assert(rate_views(kept@) =~= open.update(k as int, entry));
                assert(rates_wf(rate_views(kept@))) by {
                    let after = rate_views(kept@);
                    assert forall|a: int, b: int| 0 <= a < b < after.len() implies #[trigger] after[a].0
                        != #[trigger] after[b].0 by {
                        assert(after[a].0 == open[a].0 && after[b].0 == open[b].0);
                    }
                    assert forall|a: int| 0 <= a < after.len() implies 1 <= #[trigger] after[a].2
                        <= MAX_RUNTIME_REPORTS by {
                        if a != k {
                            assert(after[a] == open[a]);
                        }
                    }
                }
                self.rates = kept;
                Ok(())
            },
            None => {
                if kept.len() >= MAX_RUNTIME_REPORTERS {
                    self.rates = kept;
                    return Err(
                        String::from_str("PLUGIN_ERROR_RATE_LIMITED: too many runtime reporters"),
                    );
                }
                let ghost entry = (id@, now, 1u32);
                kept.push((String::from_str(id), RuntimeRate { window_started: now, count: 1 }));
                assert(rate_views(kept@) =~= open.push(entry));
                assert(rates_wf(rate_views(kept@))) by {
                    let after = rate_views(kept@);
                    assert(after.drop_last() =~= open);
                    assert forall|a: int, b: int| 0 <= a < b < after.len() implies #[trigger] after[a].0
                        != #[trigger] after[b].0 by {
                        assert(after[a] == open[a]);
                        if b < open.len() {
                            assert(after[b] == open[b]);
                        }
                    }
                    assert forall|a: int| 0 <= a < after.len() implies 1 <= #[trigger] after[a].2
                        <= MAX_RUNTIME_REPORTS by {
                        if a < open.len() {
                            assert(after[a] == open[a]);
                        }
                    }
                }
                self.rates = kept;
                Ok(())
            },
        }
    }

    /// Decides a report from `id` now, counting it when it is allowed.
    pub fn allow_runtime_report(&mut self, id: &str) -> (r: Result<(), String>)
        ensures
            exists|now: u128|
                {
                    &&& match r {
                        Ok(()) => report_error(old(self).reporters(), id@, now) is None,
                        Err(e) => report_error(old(self).reporters(), id@, now) == Some(e@),
                    }
                    &&& final(self).reporters() == rates_after(old(self).reporters(), id@, now)
                },
            rates_wf(final(self).reporters()),
    {
        let now = duration_nanos(&instant_elapsed(&self.epoch));
        self.allow_at(id, now)
    }
}

/// The total of a prefix never exceeds the total.
pub proof fn lemma_total_prefix(rates: Seq<(Seq<char>, u128, u32)>, n: int)
    requires
        0 <= n <= rates.len(),
    ensures
        total_reports(rates.take(n)) <= total_reports(rates),
    decreases rates.len(),
{
    if n < rates.len() {
        lemma_total_prefix(rates.drop_last(), n);
        assert(rates.drop_last().take(n) =~= rates.take(n));
    } else {
        assert(rates.take(n) =~= rates);
    }
}

/// Each allowed report is counted exactly once and a refused one not at all:
/// after a report the total over open windows is the total before plus one
/// if it was allowed, unchanged if it was refused.
pub proof fn lemma_report_counted_once(rates: Seq<(Seq<char>, u128, u32)>, id: Seq<char>, now: u128)
    ensures
        report_error(rates, id, now) is None ==> total_reports(rates_after(rates, id, now))
            == total_reports(open_windows(rates, now)) + 1,
        report_error(rates, id, now) is Some ==> total_reports(rates_after(rates, id, now))
            == total_reports(open_windows(rates, now)),
{
    let open = open_windows(rates, now);
    if report_error(rates, id, now) is None && tracks(open, id) {
        let i = reporter_position(open, id);
        lemma_total_update(open, i, (id, open[i].1, (open[i].2 + 1) as u32));
    } else if report_error(rates, id, now) is None {
        assert(open.push((id, now, 1u32)).drop_last() =~= open);
    }
}

/// A plugin that has used up its reports in its open window is refused, and
/// so is every plugin once the global limit is used up.
pub proof fn lemma_limits_refuse(rates: Seq<(Seq<char>, u128, u32)>, id: Seq<char>, now: u128)
    ensures
        total_reports(open_windows(rates, now)) >= MAX_RUNTIME_REPORTS_GLOBAL ==> report_error(
            rates,
            id,
            now,
        ) == Some(too_many_reports_message()),
        (forall|i: int|
            0 <= i < open_windows(rates, now).len() && #[trigger] open_windows(rates, now)[i].0
                == id ==> open_windows(rates, now)[i].2 >= MAX_RUNTIME_REPORTS) && tracks(
            open_windows(rates, now),
            id,
        ) ==> report_error(rates, id, now) == Some(too_many_reports_message()),
{
    let open = open_windows(rates, now);
    if tracks(open, id) {
        let i = reporter_position(open, id);
        assert(open[i].0 == id);
    }
}

/// The limits refuse only what they name: a plugin with an open window is
/// allowed while its own window holds fewer than `MAX_RUNTIME_REPORTS`
/// reports and all open windows together fewer than
/// `MAX_RUNTIME_REPORTS_GLOBAL`, whatever the other plugins hold; a plugin
/// without an open window is allowed while fewer than `MAX_RUNTIME_REPORTERS`
/// windows are open and the global total is below its limit. An allowed
/// report is counted.
pub proof fn lemma_limits_allow(rates: Seq<(Seq<char>, u128, u32)>, id: Seq<char>, now: u128)
    requires
        rates_wf(rates),
    ensures
        ({
            let open = open_windows(rates, now);
            &&& (exists|i: int|
                0 <= i < open.len() && #[trigger] open[i].0 == id && open[i].2
                    < MAX_RUNTIME_REPORTS) && total_reports(open) < MAX_RUNTIME_REPORTS_GLOBAL
                ==> report_error(rates, id, now) is None
            &&& (forall|i: int| 0 <= i < open.len() ==> #[trigger] open[i].0 != id) && open.len()
                < MAX_RUNTIME_REPORTERS && total_reports(open) < MAX_RUNTIME_REPORTS_GLOBAL
                ==> report_error(rates, id, now) is None
            &&& report_error(rates, id, now) is None ==> total_reports(rates_after(rates, id, now))
                == total_reports(open) + 1
        }),
{
    lemma_open_windows(rates, now);
    lemma_report_counted_once(rates, id, now);
    let open = open_windows(rates, now);
    if exists|i: int|
        0 <= i < open.len() && #[trigger] open[i].0 == id && open[i].2 < MAX_RUNTIME_REPORTS {
        let i = choose|i: int|
            0 <= i < open.len() && #[trigger] open[i].0 == id && open[i].2 < MAX_RUNTIME_REPORTS;
        assert(tracks(open, id));
        let p = reporter_position(open, id);
        assert(open[p].0 == open[i].0);
        assert(p == i);
    }
    if forall|i: int| 0 <= i < open.len() ==> #[trigger] open[i].0 != id {
        if tracks(open, id) {
            let p = reporter_position(open, id);
            assert(open[p].0 != id);
        }
    }
}

/// Error text for a runtime report from a plugin that is not installed.
pub open spec fn unknown_id_message() -> Seq<char> {
    "PLUGIN_ERROR_UNKNOWN_ID: plugin is not installed"@
}

/// Decides whether a runtime error report may be recorded, in order: the
/// report must be valid (as a `runtime` report), its plugin installed
/// (`installed`, as the caller found), and the limiter must allow it. Only a
/// valid report from an installed plugin uses up quota.
pub fn admit_runtime_report(
    limiter: &mut RuntimeRateLimiter,
    id: &str,
    message: &str,
    installed: bool,
) -> (r: Result<(), String>)
    ensures
        record_input_error(id@, "runtime"@, message@) is Some ==> r is Err && Some(r->Err_0@)
            == record_input_error(id@, "runtime"@, message@) && final(limiter).reporters() == old(
            limiter,
        ).reporters(),
        record_input_error(id@, "runtime"@, message@) is None && !installed ==> r is Err
            && r->Err_0@ == unknown_id_message() && final(limiter).reporters() == old(
            limiter,
        ).reporters(),
        record_input_error(id@, "runtime"@, message@) is None && installed ==> exists|now: u128|
            {
                &&& match r {
                    Ok(()) => report_error(old(limiter).reporters(), id@, now) is None,
                    Err(e) => report_error(old(limiter).reporters(), id@, now) == Some(e@),
                }
                &&& final(limiter).reporters() == rates_after(old(limiter).reporters(), id@, now)
            },
        rates_wf(final(limiter).reporters()),
{
    proof {
        use_type_invariant(&*limiter);
    }
    validate_record_input(id, "runtime", message)?;
    if !installed {
        return Err(String::from_str("PLUGIN_ERROR_UNKNOWN_ID: plugin is not installed"));
    }
    limiter.allow_runtime_report(id)
}

/// Within one window a plugin is allowed at most `MAX_RUNTIME_REPORTS`
/// reports: an allowed report from a plugin with an open window counts one
/// more in that same window (its start unchanged), one from a plugin without
/// an open window opens a window at `now` holding one report, and a plugin
/// whose window holds `MAX_RUNTIME_REPORTS` is refused until it closes.
pub proof fn lemma_per_window_limit(rates: Seq<(Seq<char>, u128, u32)>, id: Seq<char>, now: u128)
    requires
        rates_wf(rates),
    ensures
        ({
            let open = open_windows(rates, now);
            let after = rates_after(rates, id, now);
            &&& report_error(rates, id, now) is None && tracks(open, id) ==> {
                let i = reporter_position(open, id);
                &&& after[i].0 == id
                &&& after[i].1 == open[i].1
                &&& after[i].2 == open[i].2 + 1
                &&& after[i].2 <= MAX_RUNTIME_REPORTS
            }
            &&& report_error(rates, id, now) is None && !tracks(open, id) ==> after.last() == (
                id,
                now,
                1u32,
            )
            &&& tracks(open, id) && open[reporter_position(open, id)].2 >= MAX_RUNTIME_REPORTS
                ==> report_error(rates, id, now) is Some
        }),
{
    lemma_open_windows(rates, now);
}

} // verus!
