//! The decisions behind the widget's commands: what the app state is, which
//! mode a stored profile is in, what a refresh records, what the cached
//! dashboard shows, what the tray menu does and what happens at start-up.
use vstd::prelude::*;
use crate::error::{error_of, AppError, AppErrorView, AppResult};
use crate::openrouter::models::ActivityRow;
use crate::openrouter::standard::{
    amount_or, copy_text, row_date, row_date_text, AccountSummary, DailyUsagePoint, DashboardData,
    HistorySummary, PrimaryMetric, UsageSummary,
};
use crate::text::{concat, text_eq};

verus! {

/// Whether the widget is set up, and for which key.
pub struct AppState {
    pub configured: bool,
    pub key_mode: Option<String>,
    pub key_label: Option<String>,
}

/// The app state for an active credential profile (id, mode, fingerprint,
/// label): configured, in the profile's mode, with its label.
pub fn configured_state(profile: (i64, String, String, Option<String>)) -> (r: AppState)
    ensures
        r.configured,
        r.key_mode.deep_view() == Some(profile.1@),
        r.key_label.deep_view() == profile.3.deep_view(),
{
    let (_id, mode, _fingerprint, label) = profile;
    AppState { configured: true, key_mode: Some(mode), key_label: label }
}

/// The app state without an active profile: configured exactly when a key is
/// stored, with no mode or label.
pub fn unconfigured_state(has_stored_key: bool) -> (r: AppState)
    ensures
        r.configured == has_stored_key,
        r.key_mode is None,
        r.key_label is None,
{
    AppState { configured: has_stored_key, key_mode: None, key_label: None }
}

/// The two kinds of OpenRouter key the widget works with.
#[derive(Clone, Copy, Debug, PartialEq, Eq, Structural)]
pub enum KeyMode {
    Standard,
    Management,
}

/// The mode a mode name selects, if any.
pub open spec fn mode_named(name: Seq<char>) -> Option<KeyMode> {
    if name == "standard"@ {
        Some(KeyMode::Standard)
    } else if name == "management"@ {
        Some(KeyMode::Management)
    } else {
        None
    }
}

/// The mode that a user selected for a new key; any other name is refused.
pub fn selected_mode(selected: &str) -> (r: AppResult<KeyMode>)
    ensures
        mode_named(selected@) matches Some(m) ==> r == Ok::<KeyMode, AppError>(m),
        mode_named(selected@) is None ==> error_of(r) == Some(
            AppErrorView::InvalidInput(
                "Invalid mode: "@ + selected@ + ". Must be 'standard' or 'management'."@,
            ),
        ),
{
    if text_eq(selected, "standard") {
        Ok(KeyMode::Standard)
    } else if text_eq(selected, "management") {
        Ok(KeyMode::Management)
    } else {
        let mut m = concat("Invalid mode: ", selected);
        m.append(". Must be 'standard' or 'management'.");
        Err(AppError::InvalidInput(m))
    }
}

/// The mode of a stored credential profile; an unknown name is a storage fault.
pub fn profile_mode(mode: &str) -> (r: AppResult<KeyMode>)
    ensures
        mode_named(mode@) matches Some(m) ==> r == Ok::<KeyMode, AppError>(m),
        mode_named(mode@) is None ==> error_of(r) == Some(
            AppErrorView::StorageError("Unknown credential mode: "@ + mode@),
        ),
{
    if text_eq(mode, "standard") {
        Ok(KeyMode::Standard)
    } else if text_eq(mode, "management") {
        Ok(KeyMode::Management)
    } else {
        Err(AppError::StorageError(concat("Unknown credential mode: ", mode)))
    }
}

/// The values a refresh records as a snapshot.
pub struct SnapshotRecord<A> {
    pub total_credits: Option<A>,
    pub total_usage: Option<A>,
    pub credits_remaining: Option<A>,
    pub key_limit: Option<A>,
    pub key_limit_remaining: Option<A>,
    pub usage_daily: Option<A>,
    pub usage_weekly: Option<A>,
    pub usage_monthly: Option<A>,
    pub usage_all_time: Option<A>,
    pub byok_usage_daily: Option<A>,
    pub request_succeeded: bool,
}

/// `s` is the snapshot of the refreshed dashboard `d`: the account's credits
/// where there is an account part, its usage periods, no key limits, a success.
pub open spec fn is_snapshot_of<A>(s: SnapshotRecord<A>, d: DashboardData<A>) -> bool {
    &&& s.total_credits == match d.account {
        Some(a) => a.total_credits,
        None => None,
    }
    &&& s.total_usage == match d.account {
        Some(a) => a.total_usage,
        None => None,
    }
    &&& s.credits_remaining == match d.account {
        Some(a) => a.remaining_credits,
        None => None,
    }
    &&& s.key_limit is None
    &&& s.key_limit_remaining is None
    &&& s.usage_daily == d.usage.today
    &&& s.usage_weekly == d.usage.week
    &&& s.usage_monthly == d.usage.month
    &&& s.usage_all_time == d.usage.total
    &&& s.byok_usage_daily == d.usage.byok_today
    &&& s.request_succeeded
}

/// The snapshot a refreshed dashboard gives.
pub fn snapshot_of<A: Copy>(d: &DashboardData<A>) -> (r: SnapshotRecord<A>)
    ensures
        is_snapshot_of(r, *d),
{
    let (total_credits, total_usage, credits_remaining) = match &d.account {
        Some(a) => (a.total_credits, a.total_usage, a.remaining_credits),
        None => (None, None, None),
    };
    SnapshotRecord {
        total_credits,
        total_usage,
        credits_remaining,
        key_limit: None,
        key_limit_remaining: None,
        usage_daily: d.usage.today,
        usage_weekly: d.usage.week,
        usage_monthly: d.usage.month,
        usage_all_time: d.usage.total,
        byok_usage_daily: d.usage.byok_today,
        request_succeeded: true,
    }
}


/// One row of the daily usage table that a refresh writes.
pub struct DailyUsageWrite<A> {
    pub date_utc: String,
    pub usage: A,
    pub byok_usage: A,
    pub prompt_tokens: i64,
    pub completion_tokens: i64,
    pub reasoning_tokens: i64,
    pub requests: i64,
    pub source: String,
    pub finality: String,
}

/// Where a mode's daily usage comes from, and how final it is.
pub open spec fn usage_source(mode: KeyMode) -> (Seq<char>, Seq<char>) {
    match mode {
        KeyMode::Management => ("openrouter_activity"@, "authoritative"@),
        KeyMode::Standard => ("standard_key_snapshot"@, "last_seen"@),
    }
}

/// Some point of the history is for the given day.
pub open spec fn history_has_day<A>(points: Seq<DailyUsagePoint<A>>, day: Seq<char>) -> bool {
    exists|i: int| 0 <= i < points.len() && (#[trigger] points[i]).date_utc@ == day
}

/// Whether a refresh in this mode adds a row for today from the usage
/// summary: for a standard key that reports today's usage while its history
/// has no point for today.
pub open spec fn adds_today<A>(mode: KeyMode, d: DashboardData<A>, today: Seq<char>) -> bool {
    mode == KeyMode::Standard && d.usage.today is Some && !history_has_day(d.history.latest@, today)
}

fn source_of(mode: KeyMode) -> (r: (String, String))
    ensures
        r.0@ == usage_source(mode).0,
        r.1@ == usage_source(mode).1,
{
    match mode {
        KeyMode::Management => (String::from_str("openrouter_activity"), String::from_str("authoritative")),
        KeyMode::Standard => (String::from_str("standard_key_snapshot"), String::from_str("last_seen")),
    }
}

/// `r` is what a refresh in mode `mode` of dashboard `d` writes to the daily
/// usage table on day `today`, with `zero` for an unknown BYOK amount: one row
/// per history point, marked with the mode's source and finality, and, where
/// [`adds_today`] holds, a row for today with today's usage, today's BYOK
/// usage (`zero` where unknown) and no token or request counts.
pub open spec fn is_daily_usage_writes<A>(
    r: Seq<DailyUsageWrite<A>>,
    mode: KeyMode,
    d: DashboardData<A>,
    today: Seq<char>,
    zero: A,
) -> bool {
    &&& r.len() == d.history.latest@.len() + if adds_today(mode, d, today) {
        1int
    } else {
        0
    }
    &&& forall|i: int|
        #![trigger r[i]]
        0 <= i < d.history.latest@.len() ==> {
            let p = d.history.latest@[i];
            let w = r[i];
            &&& w.date_utc@ == p.date_utc@
            &&& w.usage == p.usage
            &&& w.byok_usage == p.byok_usage
            &&& w.prompt_tokens == p.prompt_tokens
            &&& w.completion_tokens == p.completion_tokens
            &&& w.reasoning_tokens == p.reasoning_tokens
            &&& w.requests == p.requests
            &&& w.source@ == usage_source(mode).0
            &&& w.finality@ == usage_source(mode).1
        }
    &&& adds_today(mode, d, today) ==> {
        let w = r[d.history.latest@.len() as int];
        &&& w.date_utc@ == today
        &&& w.usage == d.usage.today->0
        &&& w.byok_usage == amount_or(d.usage.byok_today, zero)
        &&& w.prompt_tokens == 0
        &&& w.completion_tokens == 0
        &&& w.reasoning_tokens == 0
        &&& w.requests == 0
        &&& w.source@ == "standard_key_snapshot"@
        &&& w.finality@ == "last_seen"@
    }
}

/// The daily usage rows a refresh writes: one per history point, marked with
/// the mode's source and finality, and, where [`adds_today`] holds, a row for
/// today (`today`, a UTC date) with today's usage, today's BYOK usage (`zero`
/// where unknown) and no token or request counts.
pub fn daily_usage_writes<A: Copy>(mode: KeyMode, d: &DashboardData<A>, today: &str, zero: A) -> (r:
    Vec<DailyUsageWrite<A>>)
    ensures
        is_daily_usage_writes(r@, mode, *d, today@, zero),
{
    let points = &d.history.latest;
    let n = points.len();
    let mut writes: Vec<DailyUsageWrite<A>> = Vec::new();
    let mut has_today = false;
    let mut k: usize = 0;
    while k < n
        invariant
            n == points@.len(),
            points == &d.history.latest,
            k <= n,
            writes@.len() == k,
            has_today == history_has_day(points@.take(k as int), today@),
            forall|i: int|
                #![trigger writes@[i]]
                0 <= i < k ==> {
                    let p = points@[i];
                    let w = writes@[i];
                    &&& w.date_utc@ == p.date_utc@
                    &&& w.usage == p.usage
                    &&& w.byok_usage == p.byok_usage
                    &&& w.prompt_tokens == p.prompt_tokens
                    &&& w.completion_tokens == p.completion_tokens
                    &&& w.reasoning_tokens == p.reasoning_tokens
                    &&& w.requests == p.requests
                    &&& w.source@ == usage_source(mode).0
                    &&& w.finality@ == usage_source(mode).1
                },
        decreases n - k,
    {
        let p = &points[k];
        let (source, finality) = source_of(mode);
        writes.push(
            DailyUsageWrite {
                date_utc: p.date_utc.clone(),
                usage: p.usage,
                byok_usage: p.byok_usage,
                prompt_tokens: p.prompt_tokens,
                completion_tokens: p.completion_tokens,
                reasoning_tokens: p.reasoning_tokens,
                requests: p.requests,
                source,
                finality,
            },
        );
        let same = text_eq(p.date_utc.as_str(), today);
        proof {
            let before = points@.take(k as int);
            let after = points@.take(k + 1);
            assert(after =~= before.push(points@[k as int]));
            if same {
                assert(after[k as int] == points@[k as int]);
            }
            if history_has_day(after, today@) && !same {
                let i = choose|i: int| 0 <= i < after.len() && (#[trigger] after[i]).date_utc@ == today@;
                assert(before[i] == after[i]);
            }
            if history_has_day(before, today@) {
                let i = choose|i: int| 0 <= i < before.len() && (#[trigger] before[i]).date_utc@ == today@;
                assert(after[i] == before[i]);
            }
        }
        has_today = has_today || same;
        k = k + 1;
    }
    assert(points@.take(n as int) =~= points@);
    if mode == KeyMode::Standard && !has_today {
        if let Some(t) = d.usage.today {
            let byok = match d.usage.byok_today {
                Some(b) => b,
                None => zero,
            };
            writes.push(
                DailyUsageWrite {
                    date_utc: String::from_str(today),
                    usage: t,
                    byok_usage: byok,
                    prompt_tokens: 0,
                    completion_tokens: 0,
                    reasoning_tokens: 0,
                    requests: 0,
                    source: String::from_str("standard_key_snapshot"),
                    finality: String::from_str("last_seen"),
                },
            );
        }
    }
    writes
}

/// The rows of one day, by position, in row order.
pub open spec fn positions_on<A>(rows: Seq<ActivityRow<A>>, day: Seq<char>, n: int) -> Seq<usize>
    decreases n,
{
    if n <= 0 {
        Seq::empty()
    } else if row_date(rows[n - 1]) == day {
        positions_on(rows, day, n - 1).push((n - 1) as usize)
    } else {
        positions_on(rows, day, n - 1)
    }
}

proof fn lemma_positions_empty<A>(rows: Seq<ActivityRow<A>>, day: Seq<char>, n: int)
    requires
        forall|k: int| 0 <= k < n ==> row_date(#[trigger] rows[k]) != day,
    ensures
        positions_on(rows, day, n) == Seq::<usize>::empty(),
    decreases n,
{
    if n > 0 {
        lemma_positions_empty(rows, day, n - 1);
    }
}

/// Some group is for day `d`.
pub open spec fn has_group_for(groups: Seq<(String, Vec<usize>)>, d: Seq<char>) -> bool {
    exists|i: int| 0 <= i < groups.len() && (#[trigger] groups[i]).0@ == d
}

fn find_group(groups: &Vec<(String, Vec<usize>)>, date: &str) -> (r: Option<usize>)
    ensures
        r matches Some(g) ==> g < groups@.len() && groups@[g as int].0@ == date@,
        r is None ==> forall|i: int| 0 <= i < groups@.len() ==> (#[trigger] groups@[i]).0@ != date@,
{
    let mut g: usize = 0;
    while g < groups.len()
        invariant
            g <= groups@.len(),
            forall|i: int| 0 <= i < g ==> (#[trigger] groups@[i]).0@ != date@,
        decreases groups@.len() - g,
    {
        if text_eq(groups[g].0.as_str(), date) {
            return Some(g);
        }
        g = g + 1;
    }
    None
}

/// The positions of the rows of the day that first occurs at position `k`.
fn members_from<A>(rows: &[ActivityRow<A>], k: usize, date: &str) -> (r: Vec<usize>)
    requires
        k < rows@.len(),
        row_date(rows@[k as int]) == date@,
        forall|q: int| 0 <= q < k ==> row_date(#[trigger] rows@[q]) != date@,
    ensures
        r@ == positions_on(rows@, date@, rows@.len() as int),
        r@.len() > 0,
{
    proof {
        lemma_positions_empty(rows@, date@, k as int);
    }
    let n = rows.len();
    let mut members: Vec<usize> = Vec::new();
    let mut j: usize = k;
    while j < n
        invariant
            n == rows@.len(),
            k <= j <= n,
            k < n,
            row_date(rows@[k as int]) == date@,
            members@ == positions_on(rows@, date@, j as int),
            j > k ==> members@.len() > 0,
        decreases n - j,
    {
        let here = row_date_text(&rows[j]);
        if text_eq(here.as_str(), date) {
            members.push(j);
        }
        j = j + 1;
    }
    members
}

/// Groups activity rows by day: one group per day that occurs, in the order
/// of first occurrence, each listing the positions of that day's rows in row
/// order.
pub fn group_rows_by_date<A>(rows: &[ActivityRow<A>]) -> (r: Vec<(String, Vec<usize>)>)
    ensures
        forall|i: int, j: int| 0 <= i < j < r@.len() ==> r@[i].0@ != r@[j].0@,
        forall|i: int|
            #![trigger r@[i]]
            0 <= i < r@.len() ==> r@[i].1@ == positions_on(rows@, r@[i].0@, rows@.len() as int)
                && r@[i].1@.len() > 0,
        forall|k: int| 0 <= k < rows@.len() ==> has_group_for(r@, row_date(#[trigger] rows@[k])),
{
    let n = rows.len();
    let mut groups: Vec<(String, Vec<usize>)> = Vec::new();
    let mut k: usize = 0;
    while k < n
        invariant
            n == rows@.len(),
            k <= n,
            forall|i: int, j: int| 0 <= i < j < groups@.len() ==> groups@[i].0@ != groups@[j].0@,
            forall|i: int|
                #![trigger groups@[i]]
                0 <= i < groups@.len() ==> groups@[i].1@ == positions_on(
                    rows@,
                    groups@[i].0@,
                    n as int,
                ) && groups@[i].1@.len() > 0,
            forall|q: int| 0 <= q < k ==> has_group_for(groups@, row_date(#[trigger] rows@[q])),
        decreases n - k,
    {
        let date = row_date_text(&rows[k]);
        match find_group(&groups, date.as_str()) {
            Some(g) => {
                proof {
                    assert forall|q: int| 0 <= q < k + 1 implies has_group_for(
                        groups@,
                        row_date(#[trigger] rows@[q]),
                    ) by {
                        if q == k {
                            assert(groups@[g as int].0@ == row_date(rows@[q]));
                        }
                    }
                }
            },
            None => {
                proof {
                    assert forall|q: int| 0 <= q < k implies row_date(#[trigger] rows@[q]) != date@ by {
                        let i = choose|i: int|
                            0 <= i < groups@.len() && (#[trigger] groups@[i]).0@ == row_date(rows@[q]);
                    }
                }
                let members = members_from(rows, k, date.as_str());
                let ghost old_groups = groups@;
                groups.push((date, members));
                proof {
                    assert forall|i: int| 0 <= i < old_groups.len() implies groups@[i] == old_groups[i] by {}
                    assert forall|q: int| 0 <= q < k + 1 implies has_group_for(
                        groups@,
                        row_date(#[trigger] rows@[q]),
                    ) by {
                        if q == k {
                            assert(groups@[old_groups.len() as int].0@ == row_date(rows@[q]));
                        } else {
                            let i = choose|i: int|
                                0 <= i < old_groups.len() && (#[trigger] old_groups[i]).0@ == row_date(
                                    rows@[q],
                                );
                            assert(groups@[i] == old_groups[i]);
                        }
                    }
                }
            },
        }
        k = k + 1;
    }
    groups
}

/// The retention window for snapshots, in days, where retention is limited
/// (a positive setting); the setting is narrowed to `i32` by truncation.
pub fn retention_window(history_retention_days: i64) -> (r: Option<i32>)
    ensures
        r == if history_retention_days > 0 {
            Some(history_retention_days as i32)
        } else {
            None::<i32>
        },
{
    if history_retention_days > 0 {
        Some(history_retention_days as i32)
    } else {
        None
    }
}


/// The last stored snapshot, as the cached dashboard reads it.
pub struct CachedSnapshot<A> {
    pub tracking_date_utc: Option<String>,
    pub total_credits: Option<A>,
    pub total_usage: Option<A>,
    pub credits_remaining: Option<A>,
    pub key_limit: Option<A>,
    pub key_limit_remaining: Option<A>,
    pub usage_daily: Option<A>,
    pub usage_weekly: Option<A>,
    pub usage_monthly: Option<A>,
    pub usage_all_time: Option<A>,
    pub byok_usage_daily: Option<A>,
}

/// `d` is the dashboard shown from the stored snapshot `s` for a profile in
/// mode `mode` with the daily history `points`: the snapshot's values, marked
/// as cached, with the history attached; the headline is the remaining
/// credits for a management key and today's usage otherwise.
pub open spec fn is_cached_dashboard<A>(
    d: DashboardData<A>,
    mode: Seq<char>,
    points: Seq<DailyUsagePoint<A>>,
    s: CachedSnapshot<A>,
) -> bool {
    let management = mode == "management"@;
    &&& d.mode@ == mode
    &&& d.status@ == "cached"@
    &&& d.primary_metric.label@ == if management {
        "Credits remaining"@
    } else {
        "Key usage (today)"@
    }
    &&& d.primary_metric.value == if management {
        s.credits_remaining
    } else {
        s.usage_daily
    }
    &&& !d.primary_metric.unlimited
    &&& d.usage.today == s.usage_daily
    &&& d.usage.week == s.usage_weekly
    &&& d.usage.month == s.usage_monthly
    &&& d.usage.total == s.usage_all_time
    &&& d.usage.byok_today == s.byok_usage_daily
    &&& if management {
        d.account matches Some(a) && a.total_credits == s.total_credits && a.total_usage
            == s.total_usage && a.remaining_credits == s.credits_remaining
    } else {
        d.account is None
    }
    &&& d.keys is None
    &&& d.limit == s.key_limit
    &&& d.limit_remaining == s.key_limit_remaining
    &&& d.history.timezone@ == "UTC"@
    &&& !d.history.today_is_provisional
    &&& d.history.available_days == points.len()
    &&& d.history.latest@ == points
    &&& d.refreshed_at@ == match s.tracking_date_utc {
        Some(t) => t@,
        None => Seq::empty(),
    }
    &&& d.data_source@ == "cache"@
}

/// The dashboard shown from stored data, for a profile in mode `mode` with
/// its recent daily history: none without a stored snapshot.
pub fn cached_dashboard<A: Copy>(
    mode: String,
    points: Vec<DailyUsagePoint<A>>,
    snapshot: Option<CachedSnapshot<A>>,
) -> (r: Option<DashboardData<A>>)
    requires
        points@.len() <= i64::MAX,
    ensures
        snapshot is None ==> r is None,
        snapshot matches Some(s) ==> r matches Some(d) && is_cached_dashboard(
            d,
            mode@,
            points@,
            s,
        ),
{
    let s = match snapshot {
        Some(s) => s,
        None => return None,
    };
    let management = text_eq(mode.as_str(), "management");
    let (label, value) = if management {
        (String::from_str("Credits remaining"), s.credits_remaining)
    } else {
        (String::from_str("Key usage (today)"), s.usage_daily)
    };
    let refreshed_at = match s.tracking_date_utc {
        Some(t) => t,
        None => String::new(),
    };
    let days = points.len() as i64;
    Some(
        DashboardData {
            mode,
            status: String::from_str("cached"),
            primary_metric: PrimaryMetric { label, value, unlimited: false },
            usage: UsageSummary {
                today: s.usage_daily,
                week: s.usage_weekly,
                month: s.usage_monthly,
                total: s.usage_all_time,
                byok_today: s.byok_usage_daily,
            },
            account: if management {
                Some(
                    AccountSummary {
                        total_credits: s.total_credits,
                        total_usage: s.total_usage,
                        remaining_credits: s.credits_remaining,
                    },
                )
            } else {
                None
            },
            keys: None,
            limit: s.key_limit,
            limit_remaining: s.key_limit_remaining,
            history: HistorySummary {
                timezone: String::from_str("UTC"),
                today_is_provisional: false,
                available_days: days,
                latest: points,
            },
            refreshed_at,
            data_source: String::from_str("cache"),
        },
    )
}

/// The stored form of a snapshot, as the cached dashboard reads it back,
/// recorded on the given day.
pub open spec fn stored_snapshot<A>(s: SnapshotRecord<A>, tracking_date_utc: Option<String>) -> CachedSnapshot<A> {
    CachedSnapshot {
        tracking_date_utc,
        total_credits: s.total_credits,
        total_usage: s.total_usage,
        credits_remaining: s.credits_remaining,
        key_limit: s.key_limit,
        key_limit_remaining: s.key_limit_remaining,
        usage_daily: s.usage_daily,
        usage_weekly: s.usage_weekly,
        usage_monthly: s.usage_monthly,
        usage_all_time: s.usage_all_time,
        byok_usage_daily: s.byok_usage_daily,
    }
}

/// What the cache gives back of a refresh: the dashboard shown from the
/// stored snapshot of a refreshed dashboard has the same mode, the same usage
/// figures and the same refresh time; for a management key it has the same
/// account part, and its headline is the remaining credits, which is the
/// refreshed management dashboard's headline too.
pub proof fn lemma_cache_gives_back_refresh<A>(
    live: DashboardData<A>,
    s: SnapshotRecord<A>,
    points: Seq<DailyUsagePoint<A>>,
    cached: DashboardData<A>,
)
    requires
        is_snapshot_of(s, live),
        is_cached_dashboard(cached, live.mode@, points, stored_snapshot(s, Some(live.refreshed_at))),
    ensures
        cached.mode@ == live.mode@,
        cached.usage == live.usage,
        cached.refreshed_at@ == live.refreshed_at@,
        live.mode@ == "management"@ && live.account is Some ==> cached.account == live.account
            && cached.primary_metric.value == live.account->0.remaining_credits,
{
}

/// What a tray menu entry does.
#[derive(Clone, Copy, Debug, PartialEq, Eq, Structural)]
pub enum TrayAction {
    OpenWidget,
    Refresh,
    ToggleAlwaysOnTop,
    OpenSettings,
    Quit,
    Nothing,
}

/// The action of the tray menu entry with the given id.
pub open spec fn tray_action_of(id: Seq<char>) -> TrayAction {
    if id == "open_widget"@ {
        TrayAction::OpenWidget
    } else if id == "refresh"@ {
        TrayAction::Refresh
    } else if id == "always_on_top"@ {
        TrayAction::ToggleAlwaysOnTop
    } else if id == "settings"@ {
        TrayAction::OpenSettings
    } else if id == "quit"@ {
        TrayAction::Quit
    } else {
        TrayAction::Nothing
    }
}

/// The action of the tray menu entry with the given id.
pub fn tray_action(id: &str) -> (r: TrayAction)
    ensures
        r == tray_action_of(id@),
{
    if text_eq(id, "open_widget") {
        TrayAction::OpenWidget
    } else if text_eq(id, "refresh") {
        TrayAction::Refresh
    } else if text_eq(id, "always_on_top") {
        TrayAction::ToggleAlwaysOnTop
    } else if text_eq(id, "settings") {
        TrayAction::OpenSettings
    } else if text_eq(id, "quit") {
        TrayAction::Quit
    } else {
        TrayAction::Nothing
    }
}

/// How the main window is set up at start-up.
pub struct StartupPlan {
    pub enable_autostart: bool,
    pub reset_taskbar_setting: bool,
    pub always_on_top: bool,
    pub skip_taskbar: bool,
    pub show_window: bool,
}

/// The start-up set-up for the saved settings: autostart as chosen; a saved
/// "show in taskbar" is switched off (and saved); the window stays on top as
/// chosen and is kept out of the taskbar; it is shown and focused unless the
/// widget starts minimized, in which case it starts in the tray only.
pub fn startup_plan(
    launch_at_startup: bool,
    always_on_top: bool,
    show_in_taskbar: bool,
    start_minimized: bool,
) -> (r: StartupPlan)
    ensures
        r.enable_autostart == launch_at_startup,
        r.reset_taskbar_setting == show_in_taskbar,
        r.always_on_top == always_on_top,
        r.skip_taskbar,
        r.show_window == !start_minimized,
{
    let shown = if show_in_taskbar {
        false
    } else {
        show_in_taskbar
    };
    StartupPlan {
        enable_autostart: launch_at_startup,
        reset_taskbar_setting: show_in_taskbar,
        always_on_top,
        skip_taskbar: !shown,
        show_window: !start_minimized,
    }
}

/// How many whole days must pass between automatic update checks.
pub const UPDATE_CHECK_INTERVAL_DAYS: i64 = 15;

/// Whether an automatic update check is due after the given number of whole
/// days since the last one.
pub fn update_check_due_after(elapsed_days: i64) -> (r: bool)
    ensures
        r == (elapsed_days >= UPDATE_CHECK_INTERVAL_DAYS),
{
    elapsed_days >= UPDATE_CHECK_INTERVAL_DAYS
}


/// Whether `chrono::DateTime::parse_from_rfc3339` accepts a text.
pub uninterp spec fn rfc3339_valid(text: Seq<char>) -> bool;

/// What chrono gives as the whole days from the instant of the RFC 3339 text
/// `from` to that of `to` (`signed_duration_since`, then `num_days`, which
/// counts whole days towards zero); `None` where either text is refused.
pub uninterp spec fn rfc3339_whole_days(from: Seq<char>, to: Seq<char>) -> Option<i64>;

/// Calls `chrono::DateTime::parse_from_rfc3339` on both texts and, where both
/// parse, `signed_duration_since` and `num_days` on the two instants. Claimed:
/// the result is [`rfc3339_whole_days`] of the texts, and a result comes
/// exactly where both parses succeed (`rfc3339_valid`).
#[verifier::external_body]
fn days_between_rfc3339(from: &str, to: &str) -> (r: Option<i64>)
    ensures
        r == rfc3339_whole_days(from@, to@),
        r is Some <==> (rfc3339_valid(from@) && rfc3339_valid(to@)),
{
    match (chrono::DateTime::parse_from_rfc3339(from), chrono::DateTime::parse_from_rfc3339(to)) {
        (Ok(earlier), Ok(later)) => Some(later.signed_duration_since(earlier).num_days()),
        _ => None,
    }
}

/// Whether an automatic update check is due at `now` (RFC 3339 text, read
/// from the clock by the caller), given when the last one happened (RFC 3339
/// text, if any): always where there was none or a time cannot be read;
/// otherwise when at least [`UPDATE_CHECK_INTERVAL_DAYS`] whole days have
/// passed since then.
pub fn update_check_due(last_check_at: Option<&str>, now: &str) -> (r: bool)
    ensures
        r == match last_check_at {
            None => true,
            Some(t) => match rfc3339_whole_days(t@, now@) {
                None => true,
                Some(days) => days >= UPDATE_CHECK_INTERVAL_DAYS,
            },
        },
        last_check_at matches Some(t) && !rfc3339_valid(t@) ==> r,
{
    match last_check_at {
        None => true,
        Some(t) => match days_between_rfc3339(t, now) {
            None => true,
            Some(days) => update_check_due_after(days),
        },
    }
}

/// A refresh of a standard key that reports today's usage records today:
/// where no history point is dated today, the rows written are the history's
/// rows followed by one row dated today with today's usage, today's BYOK
/// usage (`zero` where unknown) and no counts; where a point is dated today,
/// only the history's rows are written.
pub proof fn lemma_standard_refresh_records_today<A>(
    r: Seq<DailyUsageWrite<A>>,
    d: DashboardData<A>,
    today: Seq<char>,
    zero: A,
)
    requires
        is_daily_usage_writes(r, KeyMode::Standard, d, today, zero),
        d.usage.today is Some,
    ensures
        (forall|i: int|
            0 <= i < d.history.latest@.len() ==> (#[trigger] d.history.latest@[i]).date_utc@ != today)
            ==> {
            let w = r[d.history.latest@.len() as int];
            &&& r.len() == d.history.latest@.len() + 1
            &&& w.date_utc@ == today
            &&& w.usage == d.usage.today->0
            &&& w.byok_usage == match d.usage.byok_today {
                Some(b) => b,
                None => zero,
            }
            &&& w.prompt_tokens == 0 && w.completion_tokens == 0
            &&& w.reasoning_tokens == 0 && w.requests == 0
        },
        (exists|i: int|
            0 <= i < d.history.latest@.len() && (#[trigger] d.history.latest@[i]).date_utc@ == today)
            ==> r.len() == d.history.latest@.len(),
        forall|i: int|
            0 <= i < d.history.latest@.len() ==> (#[trigger] r[i]).date_utc@
                == d.history.latest@[i].date_utc@ && r[i].usage == d.history.latest@[i].usage,
{
    if exists|i: int|
        0 <= i < d.history.latest@.len() && (#[trigger] d.history.latest@[i]).date_utc@ == today {
        assert(history_has_day(d.history.latest@, today));
    }
    if forall|i: int|
        0 <= i < d.history.latest@.len() ==> (#[trigger] d.history.latest@[i]).date_utc@ != today {
        assert(!history_has_day(d.history.latest@, today));
    }
}

/// A refresh of a management key writes exactly the history's rows, never a
/// row of its own for today.
pub proof fn lemma_management_refresh_writes_history<A>(
    r: Seq<DailyUsageWrite<A>>,
    d: DashboardData<A>,
    today: Seq<char>,
    zero: A,
)
    requires
        is_daily_usage_writes(r, KeyMode::Management, d, today, zero),
    ensures
        r.len() == d.history.latest@.len(),
        forall|i: int|
            0 <= i < r.len() ==> (#[trigger] r[i]).date_utc@ == d.history.latest@[i].date_utc@
                && r[i].usage == d.history.latest@[i].usage,
{
}

} // verus!
