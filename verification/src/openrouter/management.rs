//! The dashboard of a management key: account credits, key counts.
use vstd::prelude::*;
use vstd::std_specs::ops::SubSpec;
use crate::error::{error_of, AppError, AppErrorView, AppResult};
use crate::openrouter::models::{CreditsResponse, CurrentKeyData, KeyInfo, KeysResponse};
use crate::openrouter::standard::{
    now_rfc3339, copy_text, dashboard_from_key_data, is_key_dashboard, AccountSummary, DashboardData,
    KeysSummary, ValidationResult,
};

verus! {

/// Refuses a key that is not a management key for the management mode.
pub fn check_management_key<A>(data: &CurrentKeyData<A>) -> (r: AppResult<()>)
    ensures
        data.is_management_key != Some(true) ==> error_of(r) == Some(
            AppErrorView::InvalidInput(
                "This key is not a management key. Please use standard mode."@,
            ),
        ),
        data.is_management_key == Some(true) ==> r is Ok,
{
    if data.is_management_key != Some(true) {
        Err(AppError::invalid_input("This key is not a management key. Please use standard mode."))
    } else {
        Ok(())
    }
}

/// The answer to validating a key for the management mode: valid only for a
/// management key; the mode is "management" and the label the key's.
pub fn management_validation<A>(data: &CurrentKeyData<A>) -> (r: ValidationResult)
    ensures
        r.valid == (data.is_management_key == Some(true)),
        r.mode.deep_view() == Some("management"@),
        r.label.deep_view() == data.label.deep_view(),
        r.error.deep_view() == if r.valid {
            None
        } else {
            Some("This key is not a management key."@)
        },
{
    let label = copy_text(&data.label);
    if data.is_management_key != Some(true) {
        ValidationResult {
            valid: false,
            mode: Some(String::from_str("management")),
            label,
            error: Some(String::from_str("This key is not a management key.")),
        }
    } else {
        ValidationResult {
            valid: true,
            mode: Some(String::from_str("management")),
            label,
            error: None,
        }
    }
}

/// How many of the keys report a usage.
pub open spec fn keys_with_usage<A>(keys: Seq<KeyInfo<A>>) -> int
    decreases keys.len(),
{
    if keys.len() == 0 {
        0
    } else {
        keys_with_usage(keys.drop_last()) + if keys.last().usage is Some {
            1int
        } else {
            0
        }
    }
}

/// Counts of the account's keys: all of them, those reporting a usage
/// (active), the rest (disabled); none is counted as near its limit.
pub fn keys_summary<A>(keys: &Vec<KeyInfo<A>>) -> (r: KeysSummary)
    requires
        keys@.len() <= i64::MAX,
    ensures
        r.total == keys@.len(),
        r.active == keys_with_usage(keys@),
        r.disabled == keys@.len() - keys_with_usage(keys@),
        r.near_limit == 0,
{
    let n = keys.len();
    let mut active: usize = 0;
    let mut k: usize = 0;
    while k < n
        invariant
            n == keys@.len(),
            k <= n,
            active == keys_with_usage(keys@.take(k as int)),
            active <= k,
        decreases n - k,
    {
        proof {
            assert(keys@.take(k + 1).drop_last() =~= keys@.take(k as int));
        }
        if keys[k].usage.is_some() {
            active = active + 1;
        }
        k = k + 1;
    }
    assert(keys@.take(n as int) =~= keys@);
    let total = n as i64;
    let active = active as i64;
    KeysSummary { total, active, disabled: total - active, near_limit: 0 }
}

/// The difference of two amounts where both are known.
pub fn remaining_credits<A: Copy + core::ops::Sub<Output = A>>(
    total_credits: Option<A>,
    total_usage: Option<A>,
) -> (r: Option<A>)
    requires
        forall|a: A, b: A| #[trigger] a.sub_req(b),
    ensures
        r is Some <==> total_credits is Some && total_usage is Some,
        A::obeys_sub_spec() && r is Some ==> r->0 == total_credits->0.sub_spec(total_usage->0),
{
    match (total_credits, total_usage) {
        (Some(c), Some(u)) => Some(c - u),
        _ => None,
    }
}

/// The management dashboard built from the key's data and, where they could
/// be fetched, the account's credits and keys.
pub open spec fn is_management_dashboard<A: core::ops::Sub<Output = A>>(
    d: DashboardData<A>,
    data: CurrentKeyData<A>,
    credits: Option<CreditsResponse<A>>,
    keys: Option<KeysResponse<A>>,
    refreshed_at: Seq<char>,
) -> bool {
    &&& d.mode@ == "management"@
    &&& d.status@ == "live"@
    &&& d.primary_metric.label@ == "Credits remaining"@
    &&& !d.primary_metric.unlimited
    &&& d.usage.today == data.usage_daily
    &&& d.usage.week == data.usage_weekly
    &&& d.usage.month == data.usage_monthly
    &&& d.usage.total == data.usage
    &&& d.usage.byok_today == data.byok_usage_daily
    &&& d.account is Some
    &&& d.primary_metric.value == d.account->0.remaining_credits
    &&& match credits {
        Some(c) => {
            &&& d.account->0.total_credits == c.data.total_credits
            &&& d.account->0.total_usage == c.data.total_usage
            &&& (d.account->0.remaining_credits is Some <==> c.data.total_credits is Some
                && c.data.total_usage is Some)
            &&& (A::obeys_sub_spec() && d.account->0.remaining_credits is Some
                ==> d.account->0.remaining_credits->0 == c.data.total_credits->0.sub_spec(
                c.data.total_usage->0,
            ))
        },
        None => {
            &&& d.account->0.total_credits is None
            &&& d.account->0.total_usage == data.usage
            &&& d.account->0.remaining_credits is None
        },
    }
    &&& match keys {
        Some(k) => d.keys matches Some(s) && s.total == k.data@.len() && s.active
            == keys_with_usage(k.data@) && s.disabled == k.data@.len() - keys_with_usage(k.data@)
            && s.near_limit == 0,
        None => d.keys is None,
    }
    &&& d.limit == data.limit
    &&& d.limit_remaining == data.limit_remaining
    &&& d.history.timezone@ == "UTC"@
    &&& !d.history.today_is_provisional
    &&& d.history.available_days == 0
    &&& d.history.latest@.len() == 0
    &&& d.refreshed_at@ == refreshed_at
    &&& d.data_source@ == "network"@
}

/// Builds the management dashboard, refreshed at the given time, from the
/// key's data and, where they could be fetched, the account's credits and
/// keys: the credits fill the account part, the remaining credits (credits
/// minus usage) become the headline, and the keys are counted.
pub fn management_dashboard_at<A: Copy + core::ops::Sub<Output = A>>(
    data: &CurrentKeyData<A>,
    credits: Option<CreditsResponse<A>>,
    keys: Option<KeysResponse<A>>,
    refreshed_at: String,
) -> (r: DashboardData<A>)
    requires
        forall|a: A, b: A| #[trigger] a.sub_req(b),
        keys matches Some(k) ==> k.data@.len() <= i64::MAX,
    ensures
        is_management_dashboard(r, *data, credits, keys, refreshed_at@),
        credits is Some && A::obeys_sub_spec() && r.account->0.remaining_credits is Some
            ==> r.account->0.remaining_credits->0 == credits->0.data.total_credits->0.sub_spec(
            credits->0.data.total_usage->0,
        ),
{
    let ghost at = refreshed_at@;
    let mut dashboard = dashboard_from_key_data(data, "management", refreshed_at);
    proof {
        reveal_strlit("management");
    }
    assert(is_key_dashboard(dashboard, *data, "management"@, at));
    let account = match credits {
        Some(c) => AccountSummary {
            total_credits: c.data.total_credits,
            total_usage: c.data.total_usage,
            remaining_credits: remaining_credits(c.data.total_credits, c.data.total_usage),
        },
        None => AccountSummary { total_credits: None, total_usage: data.usage, remaining_credits: None },
    };
    dashboard.primary_metric.value = account.remaining_credits;
    dashboard.account = Some(account);
    match keys {
        Some(k) => {
            dashboard.keys = Some(keys_summary(&k.data));
        },
        None => {},
    }
    dashboard
}

/// Builds the management dashboard, refreshed now, as
/// [`management_dashboard_at`] does.
pub fn management_dashboard<A: Copy + core::ops::Sub<Output = A>>(
    data: &CurrentKeyData<A>,
    credits: Option<CreditsResponse<A>>,
    keys: Option<KeysResponse<A>>,
) -> (r: DashboardData<A>)
    requires
        forall|a: A, b: A| #[trigger] a.sub_req(b),
        keys matches Some(k) ==> k.data@.len() <= i64::MAX,
    ensures
        is_management_dashboard(r, *data, credits, keys, r.refreshed_at@),
        credits is Some && A::obeys_sub_spec() && r.account->0.remaining_credits is Some
            ==> r.account->0.remaining_credits->0 == credits->0.data.total_credits->0.sub_spec(
            credits->0.data.total_usage->0,
        ),
{
    let now = now_rfc3339();
    management_dashboard_at(data, credits, keys, now)
}

/// With the account's credits fetched, the account part shows the account's
/// total credits and total usage (not the key's usage), the remaining
/// credits are the first minus the second where both are known, and the
/// headline is the remaining credits.
pub proof fn lemma_management_account_from_credits<A: core::ops::Sub<Output = A>>(
    d: DashboardData<A>,
    data: CurrentKeyData<A>,
    credits: CreditsResponse<A>,
    keys: Option<KeysResponse<A>>,
    refreshed_at: Seq<char>,
)
    requires
        is_management_dashboard(d, data, Some(credits), keys, refreshed_at),
    ensures
        d.account matches Some(a) && a.total_credits == credits.data.total_credits && a.total_usage
            == credits.data.total_usage,
        d.account->0.total_credits is Some && d.account->0.total_usage is Some
            <==> d.account->0.remaining_credits is Some,
        A::obeys_sub_spec() && d.account->0.total_credits is Some && d.account->0.total_usage is Some
            ==> d.account->0.remaining_credits == Some(
            d.account->0.total_credits->0.sub_spec(d.account->0.total_usage->0),
        ),
        d.primary_metric.label@ == "Credits remaining"@,
        d.primary_metric.value == d.account->0.remaining_credits,
{
}

/// The management dashboard's usage periods are the key's own: today, this
/// week, this month, all time and today's BYOK usage.
pub proof fn lemma_management_usage_periods<A: core::ops::Sub<Output = A>>(
    d: DashboardData<A>,
    data: CurrentKeyData<A>,
    credits: Option<CreditsResponse<A>>,
    keys: Option<KeysResponse<A>>,
    refreshed_at: Seq<char>,
)
    requires
        is_management_dashboard(d, data, credits, keys, refreshed_at),
    ensures
        d.usage.today == data.usage_daily,
        d.usage.week == data.usage_weekly,
        d.usage.month == data.usage_monthly,
        d.usage.total == data.usage,
        d.usage.byok_today == data.byok_usage_daily,
{
}

} // verus!
