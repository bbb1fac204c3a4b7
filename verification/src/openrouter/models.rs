//! The OpenRouter API's response types. Money amounts are carried as the
//! type parameter `A` (the widget uses `f64`); the library moves them about
//! and adds or subtracts them only through `std::ops`.
use vstd::prelude::*;

verus! {

/// `GET /api/v1/auth/key`: the key that made the request.
pub struct CurrentKeyData<A> {
    pub label: Option<String>,
    pub limit: Option<A>,
    pub limit_remaining: Option<A>,
    pub limit_reset: Option<String>,
    pub usage: Option<A>,
    pub usage_daily: Option<A>,
    pub usage_weekly: Option<A>,
    pub usage_monthly: Option<A>,
    pub byok_usage: Option<A>,
    pub byok_usage_daily: Option<A>,
    pub byok_usage_weekly: Option<A>,
    pub byok_usage_monthly: Option<A>,
    pub is_management_key: Option<bool>,
    pub expires_at: Option<String>,
}

/// `GET /api/v1/credits`.
pub struct CreditsResponse<A> {
    pub data: CreditsData<A>,
}

/// The account's credit balance.
pub struct CreditsData<A> {
    pub total_credits: Option<A>,
    pub total_usage: Option<A>,
}

/// `GET /api/v1/keys`.
pub struct KeysResponse<A> {
    pub data: Vec<KeyInfo<A>>,
}

/// One API key of the account.
pub struct KeyInfo<A> {
    pub key_hash: Option<String>,
    pub label: Option<String>,
    pub limit: Option<A>,
    pub limit_remaining: Option<A>,
    pub limit_reset: Option<String>,
    pub usage: Option<A>,
    pub usage_daily: Option<A>,
    pub usage_weekly: Option<A>,
    pub usage_monthly: Option<A>,
    pub created_at: Option<String>,
}

/// `GET /api/v1/activity`.
pub struct ActivityResponse<A> {
    pub data: Vec<ActivityRow<A>>,
}

/// Usage of one model on one day.
pub struct ActivityRow<A> {
    pub date: Option<String>,
    pub model: Option<String>,
    pub provider_name: Option<String>,
    pub endpoint_id: Option<String>,
    pub prompt_tokens: Option<i64>,
    pub completion_tokens: Option<i64>,
    pub reasoning_tokens: Option<i64>,
    pub requests: Option<i64>,
    pub usage: Option<A>,
    pub byok_usage_inference: Option<A>,
}

/// The text of an optional text, empty where absent.
pub open spec fn text_or_empty(s: Option<String>) -> Seq<char> {
    match s {
        Some(t) => t@,
        None => Seq::empty(),
    }
}

/// The value of an optional count, zero where absent.
pub open spec fn count_or_zero(n: Option<i64>) -> int {
    match n {
        Some(v) => v as int,
        None => 0,
    }
}

} // verus!
