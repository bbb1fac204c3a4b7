//! What an OpenRouter request sends and how its reply is judged.
use vstd::prelude::*;
use crate::error::{error_of, AppError, AppErrorView, AppResult};
use crate::text::concat;

verus! {

/// The OpenRouter API's address.
pub const BASE_URL: &'static str = "https://openrouter.ai";

/// How long a request may take, in seconds.
pub const TIMEOUT_SECS: u64 = 10;

/// The `Authorization` header value for an API key.
pub fn auth_header(api_key: &str) -> (r: String)
    ensures
        r@ == "Bearer "@ + api_key@,
{
    concat("Bearer ", api_key)
}

/// The outcome of a reply, by its status code: 401 and 403 are refusals of
/// the key, 5xx is a server fault, anything else outside 2xx a failed
/// request; a 2xx reply gives its body.
pub open spec fn response_outcome(status: u16, status_text: Seq<char>, body: Seq<char>) -> Result<
    Seq<char>,
    AppErrorView,
> {
    if status == 401 {
        Err(AppErrorView::AuthError("Invalid API key or key has been revoked"@))
    } else if status == 403 {
        Err(AppErrorView::AuthError("Access forbidden. Check your API key permissions."@))
    } else if 500 <= status <= 599 {
        Err(
            AppErrorView::NetworkError(
                "OpenRouter server error ("@ + status_text + "): "@ + body,
            ),
        )
    } else if !(200 <= status <= 299) {
        Err(
            AppErrorView::OpenRouterError(
                "Request failed with status "@ + status_text + ": "@ + body,
            ),
        )
    } else {
        Ok(body)
    }
}

/// Judges a reply from its status code, the status as displayed (code and
/// reason) and its body text.
pub fn handle_response(status: u16, status_text: &str, body: String) -> (r: AppResult<String>)
    ensures
        match (r, response_outcome(status, status_text@, body@)) {
            (Ok(t), Ok(u)) => t@ == u,
            (Err(e), Err(f)) => e@ == f,
            _ => false,
        },
{
    if status == 401 {
        return Err(AppError::auth("Invalid API key or key has been revoked"));
    }
    if status == 403 {
        return Err(AppError::auth("Access forbidden. Check your API key permissions."));
    }
    if 500 <= status && status <= 599 {
        let mut m = concat("OpenRouter server error (", status_text);
        m.append("): ");
        m.append(body.as_str());
        return Err(AppError::NetworkError(m));
    }
    if !(200 <= status && status <= 299) {
        let mut m = concat("Request failed with status ", status_text);
        m.append(": ");
        m.append(body.as_str());
        return Err(AppError::OpenRouterError(m));
    }
    Ok(body)
}

} // verus!
