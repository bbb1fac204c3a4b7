//! The dashboard: its parts, how a key's data fills it, and the daily usage
//! history built from activity rows.
use vstd::prelude::*;
use crate::error::{error_of, AppError, AppErrorView, AppResult};
use crate::openrouter::models::{count_or_zero, text_or_empty, ActivityRow, CurrentKeyData};
use crate::text::{lemma_text_less_total, lemma_text_less_trans, text_eq, text_less, text_lt};
use vstd::std_specs::convert::FromSpec;
use vstd::std_specs::ops::AddSpec;

verus! {

/// The headline number of the dashboard.
pub struct PrimaryMetric<A> {
    pub label: String,
    pub value: Option<A>,
    pub unlimited: bool,
}

/// Usage over several periods.
pub struct UsageSummary<A> {
    pub today: Option<A>,
    pub week: Option<A>,
    pub month: Option<A>,
    pub total: Option<A>,
    pub byok_today: Option<A>,
}

/// The account's credits (management keys only).
pub struct AccountSummary<A> {
    pub total_credits: Option<A>,
    pub total_usage: Option<A>,
    pub remaining_credits: Option<A>,
}

/// Counts of the account's keys (management keys only).
pub struct KeysSummary {
    pub total: i64,
    pub active: i64,
    pub disabled: i64,
    pub near_limit: i64,
}

/// The daily history shown beside the dashboard.
pub struct HistorySummary<A> {
    pub timezone: String,
    pub today_is_provisional: bool,
    pub available_days: i64,
    pub latest: Vec<DailyUsagePoint<A>>,
}

/// Everything the widget shows.
pub struct DashboardData<A> {
    pub mode: String,
    pub status: String,
    pub primary_metric: PrimaryMetric<A>,
    pub usage: UsageSummary<A>,
    pub account: Option<AccountSummary<A>>,
    pub keys: Option<KeysSummary>,
    pub limit: Option<A>,
    pub limit_remaining: Option<A>,
    pub history: HistorySummary<A>,
    pub refreshed_at: String,
    pub data_source: String,
}

/// Usage on one day.
pub struct DailyUsagePoint<A> {
    pub date_utc: String,
    pub usage: A,
    pub byok_usage: A,
    pub prompt_tokens: i64,
    pub completion_tokens: i64,
    pub reasoning_tokens: i64,
    pub requests: i64,
}

/// The answer to validating a key for a mode.
pub struct ValidationResult {
    pub valid: bool,
    pub error: Option<String>,
    pub mode: Option<String>,
    pub label: Option<String>,
}

/// The headline that a key's data gives in a mode: label, value, unlimited.
pub open spec fn primary_metric_of<A>(data: CurrentKeyData<A>, mode: Seq<char>) -> (
    Seq<char>,
    Option<A>,
    bool,
) {
    if mode == "management"@ {
        ("Credits remaining"@, data.usage, false)
    } else if data.limit is None {
        ("Key usage (today)"@, data.usage_daily, false)
    } else {
        ("Key limit remaining"@, data.limit_remaining, false)
    }
}

/// The dashboard that a key's data gives in a mode, refreshed at the given
/// time: headline by [`primary_metric_of`], usage periods from the key data,
/// an account part (usage only) in management mode, no keys part, an empty
/// UTC history.
pub open spec fn is_key_dashboard<A>(
    d: DashboardData<A>,
    data: CurrentKeyData<A>,
    mode: Seq<char>,
    refreshed_at: Seq<char>,
) -> bool {
    let (label, value, unlimited) = primary_metric_of(data, mode);
    &&& d.mode@ == mode
    &&& d.status@ == "live"@
    &&& d.primary_metric.label@ == label
    &&& d.primary_metric.value == value
    &&& d.primary_metric.unlimited == unlimited
    &&& d.usage.today == data.usage_daily
    &&& d.usage.week == data.usage_weekly
    &&& d.usage.month == data.usage_monthly
    &&& d.usage.total == data.usage
    &&& d.usage.byok_today == data.byok_usage_daily
    &&& if mode == "management"@ {
        d.account matches Some(a) && a.total_credits is None && a.total_usage == data.usage
            && a.remaining_credits is None
    } else {
        d.account is None
    }
    &&& d.keys is None
    &&& d.limit == data.limit
    &&& d.limit_remaining == data.limit_remaining
    &&& d.history.timezone@ == "UTC"@
    &&& !d.history.today_is_provisional
    &&& d.history.available_days == 0
    &&& d.history.latest@.len() == 0
    &&& d.refreshed_at@ == refreshed_at
    &&& d.data_source@ == "network"@
}

/// The dashboard that a key's data gives in a mode, refreshed at the given time.
pub fn dashboard_from_key_data<A: Copy>(
    data: &CurrentKeyData<A>,
    mode: &str,
    refreshed_at: String,
) -> (r: DashboardData<A>)
    ensures
        is_key_dashboard(r, *data, mode@, refreshed_at@),
{
    let management = text_eq(mode, "management");
    let (primary_label, primary_value, unlimited) = if management {
        (String::from_str("Credits remaining"), data.usage, false)
    } else if data.limit.is_none() {
        (String::from_str("Key usage (today)"), data.usage_daily, false)
    } else {
        (String::from_str("Key limit remaining"), data.limit_remaining, false)
    };
    DashboardData {
        mode: String::from_str(mode),
        status: String::from_str("live"),
        primary_metric: PrimaryMetric { label: primary_label, value: primary_value, unlimited },
        usage: UsageSummary {
            today: data.usage_daily,
            week: data.usage_weekly,
            month: data.usage_monthly,
            total: data.usage,
            byok_today: data.byok_usage_daily,
        },
        account: if management {
            Some(
                AccountSummary { total_credits: None, total_usage: data.usage, remaining_credits: None },
            )
        } else {
            None
        },
        keys: None,
        limit: data.limit,
        limit_remaining: data.limit_remaining,
        history: HistorySummary {
            timezone: String::from_str("UTC"),
            today_is_provisional: false,
            available_days: 0,
            latest: Vec::new(),
        },
        refreshed_at,
        data_source: String::from_str("network"),
    }
}

/// Calls `chrono::Utc::now().to_rfc3339()`. Nothing is claimed of the result:
/// it depends on the clock.
#[verifier::external_body]
pub(crate) fn now_rfc3339() -> String {
    chrono::Utc::now().to_rfc3339()
}

/// The dashboard that a key's data gives in a mode, refreshed now. Everything
/// but the refresh time is as [`dashboard_from_key_data`] states.
pub fn key_data_to_dashboard<A: Copy>(data: &CurrentKeyData<A>, mode: &str) -> (r: DashboardData<A>)
    ensures
        is_key_dashboard(r, *data, mode@, r.refreshed_at@),
{
    let now = now_rfc3339();
    dashboard_from_key_data(data, mode, now)
}


/// The day an activity row belongs to; rows without a date share the empty day.
pub open spec fn row_date<A>(row: ActivityRow<A>) -> Seq<char> {
    text_or_empty(row.date)
}

/// A row's prompt tokens, zero where absent.
pub open spec fn prompt_field<A>() -> spec_fn(ActivityRow<A>) -> int {
    |r: ActivityRow<A>| count_or_zero(r.prompt_tokens)
}

/// A row's completion tokens, zero where absent.
pub open spec fn completion_field<A>() -> spec_fn(ActivityRow<A>) -> int {
    |r: ActivityRow<A>| count_or_zero(r.completion_tokens)
}

/// A row's reasoning tokens, zero where absent.
pub open spec fn reasoning_field<A>() -> spec_fn(ActivityRow<A>) -> int {
    |r: ActivityRow<A>| count_or_zero(r.reasoning_tokens)
}

/// A row's request count, zero where absent.
pub open spec fn requests_field<A>() -> spec_fn(ActivityRow<A>) -> int {
    |r: ActivityRow<A>| count_or_zero(r.requests)
}

/// The sum of a count over the rows of one day.
pub open spec fn sum_for_date<A>(
    rows: Seq<ActivityRow<A>>,
    date: Seq<char>,
    f: spec_fn(ActivityRow<A>) -> int,
) -> int
    decreases rows.len(),
{
    if rows.len() == 0 {
        0
    } else {
        sum_for_date(rows.drop_last(), date, f) + if row_date(rows.last()) == date {
            f(rows.last())
        } else {
            0
        }
    }
}

/// Every running total of a count for any one day, taken in row order, fits
/// in an `i64` (the sums are built that way).
pub open spec fn running_sums_fit<A>(rows: Seq<ActivityRow<A>>, f: spec_fn(ActivityRow<A>) -> int) -> bool {
    forall|k: int, d: Seq<char>|
        0 <= k <= rows.len() ==> i64::MIN <= #[trigger] sum_for_date(rows.take(k), d, f)
            <= i64::MAX
}

/// The four counts of the rows can be summed per day without overflow.
pub open spec fn activity_sums_fit<A>(rows: Seq<ActivityRow<A>>) -> bool {
    &&& running_sums_fit(rows, prompt_field())
    &&& running_sums_fit(rows, completion_field())
    &&& running_sums_fit(rows, reasoning_field())
    &&& running_sums_fit(rows, requests_field())
}

/// Some row belongs to day `d`.
pub open spec fn date_occurs<A>(rows: Seq<ActivityRow<A>>, d: Seq<char>) -> bool {
    exists|k: int| 0 <= k < rows.len() && row_date(#[trigger] rows[k]) == d
}

/// Some point is for day `d`.
pub open spec fn has_point_on<A>(points: Seq<DailyUsagePoint<A>>, d: Seq<char>) -> bool {
    exists|i: int| 0 <= i < points.len() && (#[trigger] points[i]).date_utc@ == d
}

/// `points` is the daily history of `rows`: one point per day that occurs in
/// the rows and no other, in increasing date order, each holding that day's
/// token and request totals.
pub open spec fn is_daily_history<A>(points: Seq<DailyUsagePoint<A>>, rows: Seq<ActivityRow<A>>) -> bool {
    &&& forall|i: int, j: int|
        0 <= i < j < points.len() ==> text_less(points[i].date_utc@, points[j].date_utc@)
    &&& forall|i: int| 0 <= i < points.len() ==> date_occurs(rows, #[trigger] points[i].date_utc@)
    &&& forall|k: int| 0 <= k < rows.len() ==> has_point_on(points, row_date(#[trigger] rows[k]))
    &&& forall|i: int|
        #![trigger points[i]]
        0 <= i < points.len() ==> {
            &&& points[i].prompt_tokens == sum_for_date(rows, points[i].date_utc@, prompt_field())
            &&& points[i].completion_tokens == sum_for_date(
                rows,
                points[i].date_utc@,
                completion_field(),
            )
            &&& points[i].reasoning_tokens == sum_for_date(
                rows,
                points[i].date_utc@,
                reasoning_field(),
            )
            &&& points[i].requests == sum_for_date(rows, points[i].date_utc@, requests_field())
        }
}

/// A money amount of a row, `zero` where absent.
pub open spec fn amount_or<A>(a: Option<A>, zero: A) -> A {
    match a {
        Some(v) => v,
        None => zero,
    }
}

/// A row's usage (`byok` false) or BYOK inference usage (`byok` true).
pub open spec fn row_amount<A>(row: ActivityRow<A>, byok: bool) -> Option<A> {
    if byok {
        row.byok_usage_inference
    } else {
        row.usage
    }
}

/// The usage (or BYOK usage) of one day: starting from `zero`, the amounts of
/// that day's rows added on with `A`'s `+` in row order, a missing amount
/// counting as `zero`.
pub open spec fn amount_total<A: core::ops::Add<Output = A>>(
    rows: Seq<ActivityRow<A>>,
    date: Seq<char>,
    byok: bool,
    zero: A,
) -> A
    decreases rows.len(),
{
    if rows.len() == 0 {
        zero
    } else {
        let acc = amount_total(rows.drop_last(), date, byok, zero);
        if row_date(rows.last()) == date {
            acc.add_spec(amount_or(row_amount(rows.last(), byok), zero))
        } else {
            acc
        }
    }
}

/// Each point's usage and BYOK usage are its day's totals from `zero`.
pub open spec fn daily_amounts<A: core::ops::Add<Output = A>>(
    points: Seq<DailyUsagePoint<A>>,
    rows: Seq<ActivityRow<A>>,
    zero: A,
) -> bool {
    forall|i: int|
        #![trigger points[i]]
        0 <= i < points.len() ==> {
            &&& points[i].usage == amount_total(rows, points[i].date_utc@, false, zero)
            &&& points[i].byok_usage == amount_total(rows, points[i].date_utc@, true, zero)
        }
}

proof fn lemma_amount_push<A: core::ops::Add<Output = A>>(
    rows: Seq<ActivityRow<A>>,
    row: ActivityRow<A>,
    d: Seq<char>,
    byok: bool,
    zero: A,
)
    ensures
        amount_total(rows.push(row), d, byok, zero) == if row_date(row) == d {
            amount_total(rows, d, byok, zero).add_spec(amount_or(row_amount(row, byok), zero))
        } else {
            amount_total(rows, d, byok, zero)
        },
{
    assert(rows.push(row).drop_last() =~= rows);
}

proof fn lemma_amount_absent<A: core::ops::Add<Output = A>>(
    rows: Seq<ActivityRow<A>>,
    d: Seq<char>,
    byok: bool,
    zero: A,
)
    requires
        forall|k: int| 0 <= k < rows.len() ==> row_date(#[trigger] rows[k]) != d,
    ensures
        amount_total(rows, d, byok, zero) == zero,
    decreases rows.len(),
{
    if rows.len() > 0 {
        lemma_amount_absent(rows.drop_last(), d, byok, zero);
    }
}

/// `points` is the daily history of `rows` with every day's usage and BYOK
/// usage added up from zero (`A::from_spec(0)`).
pub open spec fn aggregates_to<A: core::ops::Add<Output = A> + From<u8>>(
    points: Seq<DailyUsagePoint<A>>,
    rows: Seq<ActivityRow<A>>,
) -> bool {
    &&& is_daily_history(points, rows)
    &&& daily_amounts(points, rows, <A as FromSpec<u8>>::from_spec(0u8))
}

/// The count selected by `w` (prompt, completion, reasoning, requests).
spec fn count_field<A>(w: int) -> spec_fn(ActivityRow<A>) -> int {
    if w == 0 {
        prompt_field()
    } else if w == 1 {
        completion_field()
    } else if w == 2 {
        reasoning_field()
    } else {
        requests_field()
    }
}

/// A point's count selected by `w`.
spec fn point_count<A>(p: DailyUsagePoint<A>, w: int) -> int {
    if w == 0 {
        p.prompt_tokens as int
    } else if w == 1 {
        p.completion_tokens as int
    } else if w == 2 {
        p.reasoning_tokens as int
    } else {
        p.requests as int
    }
}

#[verifier::opaque]
spec fn dates_increasing<A>(points: Seq<DailyUsagePoint<A>>) -> bool {
    forall|i: int, j: int|
        0 <= i < j < points.len() ==> text_less(points[i].date_utc@, points[j].date_utc@)
}

#[verifier::opaque]
spec fn dates_from_rows<A>(points: Seq<DailyUsagePoint<A>>, rows: Seq<ActivityRow<A>>) -> bool {
    forall|i: int|
        #![trigger points[i]]
        0 <= i < points.len() ==> exists|k: int|
            #![trigger rows[k]]
            0 <= k < rows.len() && row_date(rows[k]) == points[i].date_utc@
}

#[verifier::opaque]
spec fn rows_have_points<A>(points: Seq<DailyUsagePoint<A>>, rows: Seq<ActivityRow<A>>) -> bool {
    forall|k: int|
        #![trigger rows[k]]
        0 <= k < rows.len() ==> exists|i: int|
            #![trigger points[i]]
            0 <= i < points.len() && points[i].date_utc@ == row_date(rows[k])
}

#[verifier::opaque]
spec fn sums_match<A>(points: Seq<DailyUsagePoint<A>>, rows: Seq<ActivityRow<A>>) -> bool {
    forall|i: int, w: int|
        #![trigger point_count(points[i], w)]
        0 <= i < points.len() && 0 <= w < 4 ==> point_count(points[i], w) == sum_for_date(
            rows,
            points[i].date_utc@,
            count_field(w),
        )
}

spec fn history_parts<A>(points: Seq<DailyUsagePoint<A>>, rows: Seq<ActivityRow<A>>) -> bool {
    &&& dates_increasing(points)
    &&& dates_from_rows(points, rows)
    &&& rows_have_points(points, rows)
    &&& sums_match(points, rows)
}

proof fn lemma_history_parts<A>(points: Seq<DailyUsagePoint<A>>, rows: Seq<ActivityRow<A>>)
    requires
        history_parts(points, rows),
    ensures
        is_daily_history(points, rows),
{
    assert forall|i: int| #![trigger points[i]] 0 <= i < points.len() implies {
        &&& points[i].prompt_tokens == sum_for_date(rows, points[i].date_utc@, prompt_field())
        &&& points[i].completion_tokens == sum_for_date(rows, points[i].date_utc@, completion_field())
        &&& points[i].reasoning_tokens == sum_for_date(rows, points[i].date_utc@, reasoning_field())
        &&& points[i].requests == sum_for_date(rows, points[i].date_utc@, requests_field())
    } by {
        reveal(sums_match);
        assert(point_count(points[i], 0) == sum_for_date(rows, points[i].date_utc@, count_field(0)));
        assert(point_count(points[i], 1) == sum_for_date(rows, points[i].date_utc@, count_field(1)));
        assert(point_count(points[i], 2) == sum_for_date(rows, points[i].date_utc@, count_field(2)));
        assert(point_count(points[i], 3) == sum_for_date(rows, points[i].date_utc@, count_field(3)));
    }
    assert(forall|i: int, j: int|
        0 <= i < j < points.len() ==> text_less(points[i].date_utc@, points[j].date_utc@)) by {
        reveal(dates_increasing);
    }
    assert(forall|i: int| 0 <= i < points.len() ==> date_occurs(rows, #[trigger] points[i].date_utc@)) by {
        reveal(dates_from_rows);
    }
    assert(forall|k: int| 0 <= k < rows.len() ==> has_point_on(points, row_date(#[trigger] rows[k]))) by {
        reveal(rows_have_points);
    }
}

proof fn lemma_empty_history<A>(rows: Seq<ActivityRow<A>>)
    requires
        rows.len() == 0,
    ensures
        history_parts(Seq::<DailyUsagePoint<A>>::empty(), rows),
{
    reveal(dates_increasing);
    reveal(dates_from_rows);
    reveal(rows_have_points);
    reveal(sums_match);
}

proof fn lemma_sum_push<A>(
    rows: Seq<ActivityRow<A>>,
    row: ActivityRow<A>,
    d: Seq<char>,
    f: spec_fn(ActivityRow<A>) -> int,
)
    ensures
        sum_for_date(rows.push(row), d, f) == sum_for_date(rows, d, f) + if row_date(row) == d {
            f(row)
        } else {
            0
        },
{
    assert(rows.push(row).drop_last() =~= rows);
}

proof fn lemma_sum_absent<A>(rows: Seq<ActivityRow<A>>, d: Seq<char>, f: spec_fn(ActivityRow<A>) -> int)
    requires
        forall|k: int| 0 <= k < rows.len() ==> row_date(#[trigger] rows[k]) != d,
    ensures
        sum_for_date(rows, d, f) == 0,
    decreases rows.len(),
{
    if rows.len() > 0 {
        lemma_sum_absent(rows.drop_last(), d, f);
    }
}

/// Points of an increasing history other than the one at `i` have other dates.
proof fn lemma_distinct_dates<A>(points: Seq<DailyUsagePoint<A>>, i: int, j: int)
    requires
        dates_increasing(points),
        0 <= i < points.len(),
        0 <= j < points.len(),
        i != j,
    ensures
        points[i].date_utc@ != points[j].date_utc@,
{
    reveal(dates_increasing);
    if i < j {
        lemma_text_less_total(points[i].date_utc@, points[j].date_utc@);
    } else {
        lemma_text_less_total(points[j].date_utc@, points[i].date_utc@);
    }
}

/// The history after adding a row to the point of its day.
#[verifier::spinoff_prover]
proof fn lemma_update_history<A>(
    old_points: Seq<DailyUsagePoint<A>>,
    new_points: Seq<DailyUsagePoint<A>>,
    rows: Seq<ActivityRow<A>>,
    row: ActivityRow<A>,
    i: int,
)
    requires
        history_parts(old_points, rows),
        0 <= i < old_points.len(),
        new_points.len() == old_points.len(),
        forall|j: int| 0 <= j < old_points.len() && j != i ==> new_points[j] == old_points[j],
        new_points[i].date_utc@ == old_points[i].date_utc@,
        old_points[i].date_utc@ == row_date(row),
        forall|w: int|
            #![trigger point_count(new_points[i], w)]
            0 <= w < 4 ==> point_count(new_points[i], w) == point_count(old_points[i], w) + (
            count_field(w))(row),
    ensures
        history_parts(new_points, rows.push(row)),
{
    let new_rows = rows.push(row);
    let d = row_date(row);
    assert(new_rows[rows.len() as int] == row);
    assert forall|k: int| 0 <= k < rows.len() implies new_rows[k] == rows[k] by {}
    assert(dates_increasing(new_points)) by {
        reveal(dates_increasing);
        assert forall|x: int, y: int| 0 <= x < y < new_points.len() implies text_less(
            new_points[x].date_utc@,
            new_points[y].date_utc@,
        ) by {
            assert(new_points[x].date_utc@ == old_points[x].date_utc@);
            assert(new_points[y].date_utc@ == old_points[y].date_utc@);
        }
    }
    assert(dates_from_rows(new_points, new_rows)) by {
        reveal(dates_from_rows);
        assert forall|ii: int|
            #![trigger new_points[ii]]
            0 <= ii < new_points.len() implies exists|k: int|
                #![trigger new_rows[k]]
                0 <= k < new_rows.len() && row_date(new_rows[k]) == new_points[ii].date_utc@ by {
            assert(old_points[ii].date_utc@ == new_points[ii].date_utc@);
            let k = choose|k: int|
                #![trigger rows[k]]
                0 <= k < rows.len() && row_date(rows[k]) == old_points[ii].date_utc@;
            assert(new_rows[k] == rows[k]);
        }
    }
    assert(rows_have_points(new_points, new_rows)) by {
        reveal(rows_have_points);
        assert forall|k: int|
            #![trigger new_rows[k]]
            0 <= k < new_rows.len() implies exists|ii: int|
                #![trigger new_points[ii]]
                0 <= ii < new_points.len() && new_points[ii].date_utc@ == row_date(new_rows[k]) by {
            if k == rows.len() {
                assert(new_points[i].date_utc@ == row_date(new_rows[k]));
            } else {
                assert(rows[k] == new_rows[k]);
                let ii = choose|ii: int|
                    #![trigger old_points[ii]]
                    0 <= ii < old_points.len() && old_points[ii].date_utc@ == row_date(rows[k]);
                assert(new_points[ii].date_utc@ == old_points[ii].date_utc@);
            }
        }
    }
    assert(sums_match(new_points, new_rows)) by {
        reveal(sums_match);
        assert forall|j: int, w: int|
            #![trigger point_count(new_points[j], w)]
            0 <= j < new_points.len() && 0 <= w < 4 implies point_count(new_points[j], w)
                == sum_for_date(new_rows, new_points[j].date_utc@, count_field(w)) by {
            lemma_sum_push(rows, row, new_points[j].date_utc@, count_field(w));
            assert(point_count(old_points[j], w) == sum_for_date(
                rows,
                old_points[j].date_utc@,
                count_field(w),
            ));
            if j != i {
                lemma_distinct_dates(old_points, i, j);
            }
        }
    }
}

/// The history after putting a new point for a row's day at position `i`.
#[verifier::spinoff_prover]
#[verifier::rlimit(60)]
proof fn lemma_insert_history<A>(
    old_points: Seq<DailyUsagePoint<A>>,
    rows: Seq<ActivityRow<A>>,
    row: ActivityRow<A>,
    i: int,
    fresh: DailyUsagePoint<A>,
)
    requires
        history_parts(old_points, rows),
        0 <= i <= old_points.len(),
        forall|j: int| 0 <= j < i ==> text_less(#[trigger] old_points[j].date_utc@, row_date(row)),
        i < old_points.len() ==> text_less(row_date(row), old_points[i].date_utc@),
        fresh.date_utc@ == row_date(row),
        forall|w: int| 0 <= w < 4 ==> #[trigger] point_count(fresh, w) == (count_field(w))(row),
    ensures
        history_parts(old_points.insert(i, fresh), rows.push(row)),
{
    let new_rows = rows.push(row);
    let new_points = old_points.insert(i, fresh);
    let d = row_date(row);
    old_points.insert_ensures(i, fresh);
    assert(new_rows[rows.len() as int] == row);
    assert forall|k: int| 0 <= k < rows.len() implies new_rows[k] == rows[k] by {}
    assert forall|j: int| 0 <= j < old_points.len() implies old_points[j].date_utc@ != d by {
        reveal(dates_increasing);
        if j < i {
            lemma_text_less_total(old_points[j].date_utc@, d);
        } else {
            if j > i {
                lemma_text_less_trans(d, old_points[i].date_utc@, old_points[j].date_utc@);
            }
            lemma_text_less_total(d, old_points[j].date_utc@);
        }
    }
    assert forall|k: int| 0 <= k < rows.len() implies row_date(#[trigger] rows[k]) != d by {
        reveal(rows_have_points);
        let ii = choose|ii: int|
            #![trigger old_points[ii]]
            0 <= ii < old_points.len() && old_points[ii].date_utc@ == row_date(rows[k]);
    }
    assert forall|ii: int| 0 <= ii < new_points.len() && ii != i implies #[trigger] new_points[ii]
        == old_points[if ii < i {
        ii
    } else {
        ii - 1
    }] by {}
    assert(dates_increasing(new_points)) by {
        reveal(dates_increasing);
        assert forall|x: int, y: int| 0 <= x < y < new_points.len() implies text_less(
            new_points[x].date_utc@,
            new_points[y].date_utc@,
        ) by {
            if y < i {
            } else if y == i {
            } else if x < i {
                if y - 1 > i {
                    lemma_text_less_trans(d, old_points[i].date_utc@, new_points[y].date_utc@);
                }
                lemma_text_less_trans(new_points[x].date_utc@, d, new_points[y].date_utc@);
            } else if x == i {
                if y - 1 > i {
                    lemma_text_less_trans(d, old_points[i].date_utc@, new_points[y].date_utc@);
                }
            } else {
            }
        }
    }
    assert(dates_from_rows(new_points, new_rows)) by {
        reveal(dates_from_rows);
        assert forall|ii: int|
            #![trigger new_points[ii]]
            0 <= ii < new_points.len() implies exists|k: int|
                #![trigger new_rows[k]]
                0 <= k < new_rows.len() && row_date(new_rows[k]) == new_points[ii].date_utc@ by {
            if ii == i {
                assert(row_date(new_rows[rows.len() as int]) == new_points[ii].date_utc@);
            } else {
                let oi = if ii < i {
                    ii
                } else {
                    ii - 1
                };
                assert(new_points[ii] == old_points[oi]);
                let k = choose|k: int|
                    #![trigger rows[k]]
                    0 <= k < rows.len() && row_date(rows[k]) == old_points[oi].date_utc@;
                assert(new_rows[k] == rows[k]);
            }
        }
    }
    assert(rows_have_points(new_points, new_rows)) by {
        reveal(rows_have_points);
        assert forall|k: int|
            #![trigger new_rows[k]]
            0 <= k < new_rows.len() implies exists|ii: int|
                #![trigger new_points[ii]]
                0 <= ii < new_points.len() && new_points[ii].date_utc@ == row_date(new_rows[k]) by {
            if k == rows.len() {
                assert(new_points[i].date_utc@ == row_date(new_rows[k]));
            } else {
                assert(rows[k] == new_rows[k]);
                let ii = choose|ii: int|
                    #![trigger old_points[ii]]
                    0 <= ii < old_points.len() && old_points[ii].date_utc@ == row_date(rows[k]);
                if ii < i {
                    assert(new_points[ii].date_utc@ == row_date(new_rows[k]));
                } else {
                    assert(new_points[ii + 1].date_utc@ == row_date(new_rows[k]));
                }
            }
        }
    }
    assert(sums_match(new_points, new_rows)) by {
        reveal(sums_match);
        assert forall|j: int, w: int|
            #![trigger point_count(new_points[j], w)]
            0 <= j < new_points.len() && 0 <= w < 4 implies point_count(new_points[j], w)
                == sum_for_date(new_rows, new_points[j].date_utc@, count_field(w)) by {
            lemma_sum_push(rows, row, new_points[j].date_utc@, count_field(w));
            if j == i {
                lemma_sum_absent(rows, d, count_field(w));
            } else {
                let oj = if j < i {
                    j
                } else {
                    j - 1
                };
                assert(new_points[j] == old_points[oj]);
                assert(point_count(old_points[oj], w) == sum_for_date(
                    rows,
                    old_points[oj].date_utc@,
                    count_field(w),
                ));
            }
        }
    }
}

/// The day amounts after adding a row's amounts to the point of its day.
proof fn lemma_update_amounts<A: core::ops::Add<Output = A>>(
    old_points: Seq<DailyUsagePoint<A>>,
    new_points: Seq<DailyUsagePoint<A>>,
    rows: Seq<ActivityRow<A>>,
    row: ActivityRow<A>,
    i: int,
    zero: A,
)
    requires
        history_parts(old_points, rows),
        daily_amounts(old_points, rows, zero),
        0 <= i < old_points.len(),
        new_points.len() == old_points.len(),
        forall|j: int| 0 <= j < old_points.len() && j != i ==> new_points[j] == old_points[j],
        new_points[i].date_utc@ == old_points[i].date_utc@,
        old_points[i].date_utc@ == row_date(row),
        new_points[i].usage == old_points[i].usage.add_spec(amount_or(row.usage, zero)),
        new_points[i].byok_usage == old_points[i].byok_usage.add_spec(
            amount_or(row.byok_usage_inference, zero),
        ),
    ensures
        daily_amounts(new_points, rows.push(row), zero),
{
    assert forall|j: int| #![trigger new_points[j]] 0 <= j < new_points.len() implies {
        &&& new_points[j].usage == amount_total(rows.push(row), new_points[j].date_utc@, false, zero)
        &&& new_points[j].byok_usage == amount_total(rows.push(row), new_points[j].date_utc@, true, zero)
    } by {
        lemma_amount_push(rows, row, new_points[j].date_utc@, false, zero);
        lemma_amount_push(rows, row, new_points[j].date_utc@, true, zero);
        assert(old_points[j].usage == amount_total(rows, old_points[j].date_utc@, false, zero));
        if j != i {
            lemma_distinct_dates(old_points, i, j);
        }
    }
}

/// The day amounts after putting a new point for a row's day at position `i`.
#[verifier::spinoff_prover]
proof fn lemma_insert_amounts<A: core::ops::Add<Output = A>>(
    old_points: Seq<DailyUsagePoint<A>>,
    rows: Seq<ActivityRow<A>>,
    row: ActivityRow<A>,
    i: int,
    fresh: DailyUsagePoint<A>,
    zero: A,
)
    requires
        history_parts(old_points, rows),
        daily_amounts(old_points, rows, zero),
        0 <= i <= old_points.len(),
        forall|j: int| 0 <= j < i ==> text_less(#[trigger] old_points[j].date_utc@, row_date(row)),
        i < old_points.len() ==> text_less(row_date(row), old_points[i].date_utc@),
        fresh.date_utc@ == row_date(row),
        fresh.usage == zero.add_spec(amount_or(row.usage, zero)),
        fresh.byok_usage == zero.add_spec(amount_or(row.byok_usage_inference, zero)),
    ensures
        daily_amounts(old_points.insert(i, fresh), rows.push(row), zero),
{
    let new_points = old_points.insert(i, fresh);
    let d = row_date(row);
    old_points.insert_ensures(i, fresh);
    assert forall|j: int| 0 <= j < old_points.len() implies old_points[j].date_utc@ != d by {
        reveal(dates_increasing);
        if j < i {
            lemma_text_less_total(old_points[j].date_utc@, d);
        } else {
            if j > i {
                lemma_text_less_trans(d, old_points[i].date_utc@, old_points[j].date_utc@);
            }
            lemma_text_less_total(d, old_points[j].date_utc@);
        }
    }
    assert forall|k: int| 0 <= k < rows.len() implies row_date(#[trigger] rows[k]) != d by {
        reveal(rows_have_points);
        let ii = choose|ii: int|
            #![trigger old_points[ii]]
            0 <= ii < old_points.len() && old_points[ii].date_utc@ == row_date(rows[k]);
    }
    assert forall|j: int| #![trigger new_points[j]] 0 <= j < new_points.len() implies {
        &&& new_points[j].usage == amount_total(rows.push(row), new_points[j].date_utc@, false, zero)
        &&& new_points[j].byok_usage == amount_total(rows.push(row), new_points[j].date_utc@, true, zero)
    } by {
        lemma_amount_push(rows, row, new_points[j].date_utc@, false, zero);
        lemma_amount_push(rows, row, new_points[j].date_utc@, true, zero);
        if j == i {
            lemma_amount_absent(rows, d, false, zero);
            lemma_amount_absent(rows, d, true, zero);
        } else {
            let oj = if j < i {
                j
            } else {
                j - 1
            };
            assert(new_points[j] == old_points[oj]);
            assert(old_points[oj].usage == amount_total(rows, old_points[oj].date_utc@, false, zero));
        }
    }
}

/// The day of an activity row as text (empty where the row has no date).
pub fn row_date_text<A>(row: &ActivityRow<A>) -> (r: String)
    ensures
        r@ == row_date(*row),
{
    match &row.date {
        Some(d) => d.clone(),
        None => String::new(),
    }
}

fn count_value(n: Option<i64>) -> (r: i64)
    ensures
        r == count_or_zero(n),
{
    match n {
        Some(v) => v,
        None => 0,
    }
}

fn amount_value<A: Copy>(a: Option<A>, zero: A) -> (r: A)
    ensures
        r == amount_or(a, zero),
{
    match a {
        Some(v) => v,
        None => zero,
    }
}

/// The place of a date among points sorted by date: every point before it has
/// an earlier date, the point at it (if any) does not.
fn find_slot<A>(points: &Vec<DailyUsagePoint<A>>, date: &str) -> (r: usize)
    ensures
        r <= points@.len(),
        forall|j: int| 0 <= j < r ==> text_less(#[trigger] points@[j].date_utc@, date@),
        r < points@.len() ==> !text_less(points@[r as int].date_utc@, date@),
{
    let n = points.len();
    let mut i: usize = 0;
    while i < n
        invariant
            n == points@.len(),
            i <= n,
            forall|j: int| 0 <= j < i ==> text_less(#[trigger] points@[j].date_utc@, date@),
        decreases n - i,
    {
        if !text_lt(points[i].date_utc.as_str(), date) {
            return i;
        }
        i = i + 1;
    }
    i
}

/// Adds one activity row to a daily history; false, leaving the history in
/// an unspecified state, where a day total would leave the `i64` range.
fn add_row<A: Copy + core::ops::Add<Output = A>>(
    points: &mut Vec<DailyUsagePoint<A>>,
    row: &ActivityRow<A>,
    zero: A,
    Ghost(rows): Ghost<Seq<ActivityRow<A>>>,
) -> (r: bool)
    requires
        history_parts(old(points)@, rows),
        forall|a: A, b: A| #[trigger] a.add_req(b),
    ensures
        r ==> history_parts(final(points)@, rows.push(*row)),
        r && A::obeys_add_spec() && daily_amounts(old(points)@, rows, zero) ==> daily_amounts(
            final(points)@,
            rows.push(*row),
            zero,
        ),
        r <==> forall|w: int|
            0 <= w < 4 ==> i64::MIN <= #[trigger] sum_for_date(
                rows.push(*row),
                row_date(*row),
                count_field(w),
            ) <= i64::MAX,
{
    let ghost old_points = points@;
    let date = row_date_text(row);
    let i = find_slot(points, date.as_str());
    proof {
        assert forall|w: int| 0 <= w < 4 implies #[trigger] sum_for_date(
            rows.push(*row),
            row_date(*row),
            count_field(w),
        ) == sum_for_date(rows, row_date(*row), count_field(w)) + (count_field(w))(*row) by {
            lemma_sum_push(rows, *row, row_date(*row), count_field(w));
        }
    }
    if i < points.len() && text_eq(points[i].date_utc.as_str(), date.as_str()) {
        proof {
            reveal(sums_match);
            assert forall|w: int| 0 <= w < 4 implies #[trigger] point_count(old_points[i as int], w)
                == sum_for_date(rows, row_date(*row), count_field(w)) by {
                assert(point_count(old_points[i as int], w) == sum_for_date(
                    rows,
                    old_points[i as int].date_utc@,
                    count_field(w),
                ));
            }
            assert(point_count(old_points[i as int], 0) == old_points[i as int].prompt_tokens);
            assert(point_count(old_points[i as int], 1) == old_points[i as int].completion_tokens);
            assert(point_count(old_points[i as int], 2) == old_points[i as int].reasoning_tokens);
            assert(point_count(old_points[i as int], 3) == old_points[i as int].requests);
            assert((count_field::<A>(0))(*row) == count_or_zero(row.prompt_tokens));
            assert((count_field::<A>(1))(*row) == count_or_zero(row.completion_tokens));
            assert((count_field::<A>(2))(*row) == count_or_zero(row.reasoning_tokens));
            assert((count_field::<A>(3))(*row) == count_or_zero(row.requests));
        }
        let old = &points[i];
        let prompt = old.prompt_tokens.checked_add(count_value(row.prompt_tokens));
        let completion = old.completion_tokens.checked_add(count_value(row.completion_tokens));
        let reasoning = old.reasoning_tokens.checked_add(count_value(row.reasoning_tokens));
        let requests = old.requests.checked_add(count_value(row.requests));
        match (prompt, completion, reasoning, requests) {
            (Some(p), Some(c), Some(rs), Some(q)) => {
                let updated = DailyUsagePoint {
                    date_utc: old.date_utc.clone(),
                    usage: old.usage + amount_value(row.usage, zero),
                    byok_usage: old.byok_usage + amount_value(row.byok_usage_inference, zero),
                    prompt_tokens: p,
                    completion_tokens: c,
                    reasoning_tokens: rs,
                    requests: q,
                };
                points.set(i, updated);
                proof {
                    lemma_update_history(old_points, points@, rows, *row, i as int);
                    if A::obeys_add_spec() && daily_amounts(old_points, rows, zero) {
                        lemma_update_amounts(old_points, points@, rows, *row, i as int, zero);
                    }
                }
                true
            },
            _ => {
                proof {
                    if prompt is None {
                        assert(!(i64::MIN <= sum_for_date(rows.push(*row), row_date(*row), count_field(0)) <= i64::MAX));
                    } else if completion is None {
                        assert(!(i64::MIN <= sum_for_date(rows.push(*row), row_date(*row), count_field(1)) <= i64::MAX));
                    } else if reasoning is None {
                        assert(!(i64::MIN <= sum_for_date(rows.push(*row), row_date(*row), count_field(2)) <= i64::MAX));
                    } else {
                        assert(!(i64::MIN <= sum_for_date(rows.push(*row), row_date(*row), count_field(3)) <= i64::MAX));
                    }
                }
                false
            },
        }
    } else {
        let fresh = DailyUsagePoint {
            date_utc: date,
            usage: zero + amount_value(row.usage, zero),
            byok_usage: zero + amount_value(row.byok_usage_inference, zero),
            prompt_tokens: count_value(row.prompt_tokens),
            completion_tokens: count_value(row.completion_tokens),
            reasoning_tokens: count_value(row.reasoning_tokens),
            requests: count_value(row.requests),
        };
        proof {
            if i < old_points.len() {
                lemma_text_less_total(old_points[i as int].date_utc@, fresh.date_utc@);
            }
        }
        points.insert(i, fresh);
        proof {
            lemma_insert_history(old_points, rows, *row, i as int, fresh);
            if A::obeys_add_spec() && daily_amounts(old_points, rows, zero) {
                lemma_insert_amounts(old_points, rows, *row, i as int, fresh, zero);
            }
            reveal(sums_match);
            let new_points = old_points.insert(i as int, fresh);
            old_points.insert_ensures(i as int, fresh);
            assert forall|w: int| 0 <= w < 4 implies i64::MIN <= #[trigger] sum_for_date(
                rows.push(*row),
                row_date(*row),
                count_field(w),
            ) <= i64::MAX by {
                assert(point_count(new_points[i as int], w) == sum_for_date(
                    rows.push(*row),
                    new_points[i as int].date_utc@,
                    count_field(w),
                ));
            }
        }
        true
    }
}

/// Groups activity rows into daily usage points, as [`aggregate_activity`]
/// does, or gives `None` where a day's running token or request total leaves
/// the `i64` range.
pub fn try_aggregate_activity<A: Copy + core::ops::Add<Output = A> + From<u8>>(rows: &[ActivityRow<A>]) -> (r: Option<Vec<DailyUsagePoint<A>>>)
    requires
        forall|a: A, b: A| #[trigger] a.add_req(b),
    ensures
        r is Some <==> activity_sums_fit(rows@),
        r matches Some(points) ==> is_daily_history(points@, rows@),
        A::obeys_add_spec() && r is Some ==> exists|zero: A|
            #[trigger] daily_amounts(r->0@, rows@, zero),
        A::obeys_add_spec() && <A as FromSpec<u8>>::obeys_from_spec() && r is Some ==> aggregates_to(
            r->0@,
            rows@,
        ),
{
    let zero = A::from(0u8);
    let mut points: Vec<DailyUsagePoint<A>> = Vec::new();
    let n = rows.len();
    proof {
        lemma_empty_history(rows@.take(0));
        assert forall|d: Seq<char>, w: int| 0 <= w < 4 implies #[trigger] sum_for_date(rows@.take(0), d, count_field(w)) == 0 by {
            lemma_sum_absent(rows@.take(0), d, count_field(w));
        }
    }
    let mut k: usize = 0;
    while k < n
        invariant
            n == rows@.len(),
            k <= n,
            forall|a: A, b: A| #[trigger] a.add_req(b),
            history_parts(points@, rows@.take(k as int)),
            A::obeys_add_spec() ==> daily_amounts(points@, rows@.take(k as int), zero),
            forall|j: int, d: Seq<char>, w: int|
                0 <= j <= k && 0 <= w < 4 ==> i64::MIN <= #[trigger] sum_for_date(
                    rows@.take(j),
                    d,
                    count_field(w),
                ) <= i64::MAX,
        decreases n - k,
    {
        let ghost before = points@;
        proof {
            assert(rows@.take(k as int).push(rows@[k as int]) =~= rows@.take(k + 1));
        }
        if !add_row(&mut points, &rows[k], zero, Ghost(rows@.take(k as int))) {
            proof {
                let d = row_date(rows@[k as int]);
                let w = choose|w: int|
                    0 <= w < 4 && !(i64::MIN <= #[trigger] sum_for_date(
                        rows@.take(k as int).push(rows@[k as int]),
                        d,
                        count_field(w),
                    ) <= i64::MAX);
                assert(!(i64::MIN <= sum_for_date(rows@.take(k + 1), d, count_field(w)) <= i64::MAX));
                if w == 0 {
                    assert(!running_sums_fit(rows@, prompt_field()));
                } else if w == 1 {
                    assert(!running_sums_fit(rows@, completion_field()));
                } else if w == 2 {
                    assert(!running_sums_fit(rows@, reasoning_field()));
                } else {
                    assert(!running_sums_fit(rows@, requests_field()));
                }
            }
            return None;
        }
        proof {
            assert forall|j: int, d: Seq<char>, w: int|
                0 <= j <= k + 1 && 0 <= w < 4 implies i64::MIN <= #[trigger] sum_for_date(
                    rows@.take(j),
                    d,
                    count_field(w),
                ) <= i64::MAX by {
                if j == k + 1 {
                    lemma_sum_push(rows@.take(k as int), rows@[k as int], d, count_field(w));
                    assert(i64::MIN <= sum_for_date(rows@.take(k as int), d, count_field(w)) <= i64::MAX);
                }
            }
        }
        k = k + 1;
    }
    proof {
        assert(rows@.take(n as int) =~= rows@);
        lemma_history_parts(points@, rows@);
        if A::obeys_add_spec() {
            assert(daily_amounts(points@, rows@, zero));
        }
        assert forall|w: int| 0 <= w < 4 implies running_sums_fit(rows@, #[trigger] count_field(w)) by {
            assert forall|j: int, d: Seq<char>| 0 <= j <= rows@.len() implies i64::MIN <= #[trigger] sum_for_date(
                rows@.take(j),
                d,
                count_field(w),
            ) <= i64::MAX by {}
        }
        assert(running_sums_fit(rows@, count_field(0)));
        assert(running_sums_fit(rows@, count_field(1)));
        assert(running_sums_fit(rows@, count_field(2)));
        assert(running_sums_fit(rows@, count_field(3)));
    }
    let r = Some(points);
    assert(A::obeys_add_spec() ==> daily_amounts(r->0@, rows@, zero));
    r
}

/// Groups activity rows into daily usage points: one point per day that
/// occurs in the rows (rows without a date form the empty day), in increasing
/// date order, each with that day's token and request totals. The money
/// amounts of each day are added up with `A`'s `+`, starting from zero
/// (`A::from(0u8)`), in row order, a missing amount counting as zero
/// ([`aggregates_to`]; stated where `A`'s `+` and `From<u8>` follow their
/// specs).
pub fn aggregate_activity<A: Copy + core::ops::Add<Output = A> + From<u8>>(rows: &[ActivityRow<A>]) -> (r: Vec<DailyUsagePoint<A>>)
    requires
        forall|a: A, b: A| #[trigger] a.add_req(b),
        activity_sums_fit(rows@),
    ensures
        is_daily_history(r@, rows@),
        A::obeys_add_spec() ==> exists|zero: A| #[trigger] daily_amounts(r@, rows@, zero),
        A::obeys_add_spec() && <A as FromSpec<u8>>::obeys_from_spec() ==> aggregates_to(r@, rows@),
{
    match try_aggregate_activity(rows) {
        Some(points) => points,
        None => Vec::new(),
    }
}

/// Refuses a management key for the standard mode.
pub fn check_standard_key<A>(data: &CurrentKeyData<A>) -> (r: AppResult<()>)
    ensures
        data.is_management_key == Some(true) ==> error_of(r) == Some(
            AppErrorView::InvalidInput(
                "This key appears to be a management key. Please use management mode."@,
            ),
        ),
        data.is_management_key != Some(true) ==> r is Ok,
{
    if data.is_management_key == Some(true) {
        Err(
            AppError::invalid_input(
                "This key appears to be a management key. Please use management mode.",
            ),
        )
    } else {
        Ok(())
    }
}

/// A copy of an optional text.
pub fn copy_text(s: &Option<String>) -> (r: Option<String>)
    ensures
        r.deep_view() == s.deep_view(),
{
    match s {
        Some(t) => Some(t.clone()),
        None => None,
    }
}

/// The answer to validating a key for the standard mode: valid unless it is a
/// management key; the mode is "standard" and the label the key's.
pub fn standard_validation<A>(data: &CurrentKeyData<A>) -> (r: ValidationResult)
    ensures
        r.valid == (data.is_management_key != Some(true)),
        r.mode.deep_view() == Some("standard"@),
        r.label.deep_view() == data.label.deep_view(),
        r.error.deep_view() == if r.valid {
            None
        } else {
            Some("This key is a management key, not a standard key."@)
        },
{
    let label = copy_text(&data.label);
    if data.is_management_key == Some(true) {
        ValidationResult {
            valid: false,
            mode: Some(String::from_str("standard")),
            label,
            error: Some(String::from_str("This key is a management key, not a standard key.")),
        }
    } else {
        ValidationResult {
            valid: true,
            mode: Some(String::from_str("standard")),
            label,
            error: None,
        }
    }
}

/// Puts a daily history into the dashboard; the number of available days is
/// the number of points.
pub fn set_history<A>(dashboard: &mut DashboardData<A>, points: Vec<DailyUsagePoint<A>>)
    requires
        points@.len() <= i64::MAX,
    ensures
        final(dashboard).history.latest@ == points@,
        final(dashboard).history.available_days == points@.len(),
        final(dashboard).history.timezone == old(dashboard).history.timezone,
        final(dashboard).history.today_is_provisional == old(dashboard).history.today_is_provisional,
        final(dashboard).mode == old(dashboard).mode,
        final(dashboard).status == old(dashboard).status,
        final(dashboard).primary_metric == old(dashboard).primary_metric,
        final(dashboard).usage == old(dashboard).usage,
        final(dashboard).account == old(dashboard).account,
        final(dashboard).keys == old(dashboard).keys,
        final(dashboard).limit == old(dashboard).limit,
        final(dashboard).limit_remaining == old(dashboard).limit_remaining,
        final(dashboard).refreshed_at == old(dashboard).refreshed_at,
        final(dashboard).data_source == old(dashboard).data_source,
{
    let days = points.len() as i64;
    dashboard.history.latest = points;
    dashboard.history.available_days = days;
}

/// In every mode the dashboard's usage periods are the key's own: today,
/// this week, this month, all time and today's BYOK usage.
pub proof fn lemma_key_dashboard_usage_periods<A>(
    d: DashboardData<A>,
    data: CurrentKeyData<A>,
    mode: Seq<char>,
    refreshed_at: Seq<char>,
)
    requires
        is_key_dashboard(d, data, mode, refreshed_at),
    ensures
        d.usage.today == data.usage_daily,
        d.usage.week == data.usage_weekly,
        d.usage.month == data.usage_monthly,
        d.usage.total == data.usage,
        d.usage.byok_today == data.byok_usage_daily,
{
}

/// Outside management mode the headline is the key's remaining limit
/// whenever the key has a limit (whatever its reset period), and today's key
/// usage only when it has none; it is never marked unlimited.
pub proof fn lemma_key_dashboard_headline<A>(
    d: DashboardData<A>,
    data: CurrentKeyData<A>,
    mode: Seq<char>,
    refreshed_at: Seq<char>,
)
    requires
        is_key_dashboard(d, data, mode, refreshed_at),
        mode != "management"@,
    ensures
        data.limit is Some ==> d.primary_metric.label@ == "Key limit remaining"@
            && d.primary_metric.value == data.limit_remaining,
        data.limit is None ==> d.primary_metric.label@ == "Key usage (today)"@
            && d.primary_metric.value == data.usage_daily,
        !d.primary_metric.unlimited,
{
}

/// How the daily history grows by one row: the point of the row's day adds
/// the row's usage and BYOK usage (zero where missing) to what the day had
/// before, or to zero where the day is new; the points of other days keep
/// their amounts.
pub proof fn lemma_aggregate_extend<A: core::ops::Add<Output = A> + From<u8>>(
    before: Seq<DailyUsagePoint<A>>,
    after: Seq<DailyUsagePoint<A>>,
    rows: Seq<ActivityRow<A>>,
    row: ActivityRow<A>,
)
    requires
        aggregates_to(before, rows),
        aggregates_to(after, rows.push(row)),
    ensures
        forall|j: int|
            #![trigger after[j]]
            0 <= j < after.len() && after[j].date_utc@ == row_date(row) ==> {
                let zero = <A as FromSpec<u8>>::from_spec(0u8);
                let u = match row.usage {
                    Some(v) => v,
                    None => zero,
                };
                let b = match row.byok_usage_inference {
                    Some(v) => v,
                    None => zero,
                };
                &&& forall|i: int|
                    #![trigger before[i]]
                    0 <= i < before.len() && before[i].date_utc@ == row_date(row) ==> after[j].usage
                        == before[i].usage.add_spec(u) && after[j].byok_usage
                        == before[i].byok_usage.add_spec(b)
                &&& (forall|i: int| 0 <= i < before.len() ==> #[trigger] before[i].date_utc@ != row_date(row))
                    ==> after[j].usage == zero.add_spec(u) && after[j].byok_usage == zero.add_spec(b)
            },
        forall|i: int, j: int|
            0 <= i < before.len() && 0 <= j < after.len() && #[trigger] after[j].date_utc@
                == #[trigger] before[i].date_utc@ && before[i].date_utc@ != row_date(row)
                ==> after[j].usage == before[i].usage && after[j].byok_usage == before[i].byok_usage,
{
    let zero = <A as FromSpec<u8>>::from_spec(0u8);
    let d = row_date(row);
    assert forall|j: int|
        #![trigger after[j]]
        0 <= j < after.len() && after[j].date_utc@ == d implies {
            let u = match row.usage {
                Some(v) => v,
                None => zero,
            };
            let b = match row.byok_usage_inference {
                Some(v) => v,
                None => zero,
            };
            &&& forall|i: int|
                #![trigger before[i]]
                0 <= i < before.len() && before[i].date_utc@ == d ==> after[j].usage
                    == before[i].usage.add_spec(u) && after[j].byok_usage
                    == before[i].byok_usage.add_spec(b)
            &&& (forall|i: int| 0 <= i < before.len() ==> #[trigger] before[i].date_utc@ != d)
                ==> after[j].usage == zero.add_spec(u) && after[j].byok_usage == zero.add_spec(b)
        } by {
        lemma_amount_push(rows, row, d, false, zero);
        lemma_amount_push(rows, row, d, true, zero);
        assert(after[j].usage == amount_total(rows.push(row), d, false, zero));
        assert(after[j].byok_usage == amount_total(rows.push(row), d, true, zero));
        if forall|i: int| 0 <= i < before.len() ==> #[trigger] before[i].date_utc@ != d {
            assert forall|k: int| 0 <= k < rows.len() implies row_date(#[trigger] rows[k]) != d by {
                assert(has_point_on(before, row_date(rows[k])));
            }
            lemma_amount_absent(rows, d, false, zero);
            lemma_amount_absent(rows, d, true, zero);
        }
    }
    assert forall|i: int, j: int|
        0 <= i < before.len() && 0 <= j < after.len() && #[trigger] after[j].date_utc@
            == #[trigger] before[i].date_utc@ && before[i].date_utc@ != d implies after[j].usage
        == before[i].usage && after[j].byok_usage == before[i].byok_usage by {
        lemma_amount_push(rows, row, after[j].date_utc@, false, zero);
        lemma_amount_push(rows, row, after[j].date_utc@, true, zero);
    }
}

} // verus!
