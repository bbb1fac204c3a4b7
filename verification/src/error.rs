use vstd::prelude::*;

verus! {

/// The abstract value of an [`AppError`]: its kind and its message.
pub enum AppErrorView {
    AuthError(Seq<char>),
    NetworkError(Seq<char>),
    NotFound(Seq<char>),
    StorageError(Seq<char>),
    InvalidInput(Seq<char>),
    OpenRouterError(Seq<char>),
}

/// Errors reported by the widget's backend.
#[derive(Debug)]
pub enum AppError {
    AuthError(String),
    NetworkError(String),
    NotFound(String),
    StorageError(String),
    InvalidInput(String),
    OpenRouterError(String),
}

pub type AppResult<T> = Result<T, AppError>;

impl View for AppError {
    type V = AppErrorView;

    open spec fn view(&self) -> AppErrorView {
        match self {
            AppError::AuthError(m) => AppErrorView::AuthError(m@),
            AppError::NetworkError(m) => AppErrorView::NetworkError(m@),
            AppError::NotFound(m) => AppErrorView::NotFound(m@),
            AppError::StorageError(m) => AppErrorView::StorageError(m@),
            AppError::InvalidInput(m) => AppErrorView::InvalidInput(m@),
            AppError::OpenRouterError(m) => AppErrorView::OpenRouterError(m@),
        }
    }
}

impl AppErrorView {
    /// The text shown to the user: a fixed prefix for the kind, then the message.
    pub open spec fn display(self) -> Seq<char> {
        match self {
            AppErrorView::AuthError(m) => "Authentication failed: "@ + m,
            AppErrorView::NetworkError(m) => "Network error: "@ + m,
            AppErrorView::NotFound(m) => "Not found: "@ + m,
            AppErrorView::StorageError(m) => "Storage error: "@ + m,
            AppErrorView::InvalidInput(m) => "Invalid input: "@ + m,
            AppErrorView::OpenRouterError(m) => "OpenRouter error: "@ + m,
        }
    }
}

fn prefixed(prefix: &str, message: &String) -> (r: String)
    ensures
        r@ == prefix@ + message@,
{
    let mut s = String::from_str(prefix);
    s.append(message.as_str());
    s
}

impl AppError {
    /// The message shown to the user, as `Display` would write it.
    pub fn to_string(&self) -> (r: String)
        ensures
            r@ == self@.display(),
    {
        match self {
            AppError::AuthError(m) => prefixed("Authentication failed: ", m),
            AppError::NetworkError(m) => prefixed("Network error: ", m),
            AppError::NotFound(m) => prefixed("Not found: ", m),
            AppError::StorageError(m) => prefixed("Storage error: ", m),
            AppError::InvalidInput(m) => prefixed("Invalid input: ", m),
            AppError::OpenRouterError(m) => prefixed("OpenRouter error: ", m),
        }
    }

    /// An error of kind `InvalidInput` with the given message.
    pub fn invalid_input(message: &str) -> (r: AppError)
        ensures
            r@ == AppErrorView::InvalidInput(message@),
    {
        AppError::InvalidInput(String::from_str(message))
    }

    /// An error of kind `NotFound` with the given message.
    pub fn not_found(message: &str) -> (r: AppError)
        ensures
            r@ == AppErrorView::NotFound(message@),
    {
        AppError::NotFound(String::from_str(message))
    }

    /// An error of kind `NetworkError` with the given message.
    pub fn network(message: &str) -> (r: AppError)
        ensures
            r@ == AppErrorView::NetworkError(message@),
    {
        AppError::NetworkError(String::from_str(message))
    }

    /// An error of kind `StorageError` with the given message.
    pub fn storage(message: &str) -> (r: AppError)
        ensures
            r@ == AppErrorView::StorageError(message@),
    {
        AppError::StorageError(String::from_str(message))
    }

    /// An error of kind `AuthError` with the given message.
    pub fn auth(message: &str) -> (r: AppError)
        ensures
            r@ == AppErrorView::AuthError(message@),
    {
        AppError::AuthError(String::from_str(message))
    }
}

} // verus!

verus! {

/// The abstract value of a result whose error is an [`AppError`].
pub open spec fn result_view<T: DeepView>(r: Result<T, AppError>) -> Result<T::V, AppErrorView> {
    match r {
        Ok(v) => Ok(v.deep_view()),
        Err(e) => Err(e@),
    }
}

} // verus!

verus! {

/// The abstract error of a result, if it is an error.
pub open spec fn error_of<T>(r: Result<T, AppError>) -> Option<AppErrorView> {
    match r {
        Ok(_) => None,
        Err(e) => Some(e@),
    }
}

} // verus!
