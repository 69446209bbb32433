//! How a request can fail.

use vstd::prelude::*;
use crate::text::joined;

verus! {

/// Why a request was refused.
#[derive(Debug)]
pub enum AppError {
    /// The caller is not who may do this.
    Unauthorized(String),
    /// What the request names does not exist.
    NotFound(String),
    /// The request itself is at fault.
    BadRequest(String),
    /// The service is at fault.
    Internal(String),
}

/// The model of [`AppError`].
#[verifier::ext_equal]
pub enum AppErrorModel {
    Unauthorized(Seq<char>),
    NotFound(Seq<char>),
    BadRequest(Seq<char>),
    Internal(Seq<char>),
}

impl View for AppError {
    type V = AppErrorModel;

    open spec fn view(&self) -> AppErrorModel {
        match self {
            AppError::Unauthorized(m) => AppErrorModel::Unauthorized(m@),
            AppError::NotFound(m) => AppErrorModel::NotFound(m@),
            AppError::BadRequest(m) => AppErrorModel::BadRequest(m@),
            AppError::Internal(m) => AppErrorModel::Internal(m@),
        }
    }
}

/// The model of what a request comes to.
pub open spec fn outcome<T: View>(res: Result<T, AppError>) -> Result<T::V, AppErrorModel> {
    match res {
        Ok(value) => Ok(value@),
        Err(e) => Err(e@),
    }
}

/// The HTTP status of a refusal.
pub open spec fn status_of(e: AppErrorModel) -> int {
    match e {
        AppErrorModel::Unauthorized(_) => 401,
        AppErrorModel::NotFound(_) => 404,
        AppErrorModel::BadRequest(_) => 400,
        AppErrorModel::Internal(_) => 500,
    }
}

/// What the caller is told. Internal failures are not described to callers.
pub open spec fn shown_message(e: AppErrorModel) -> Seq<char> {
    match e {
        AppErrorModel::Unauthorized(m) => m,
        AppErrorModel::NotFound(m) => m,
        AppErrorModel::BadRequest(m) => m,
        AppErrorModel::Internal(_) => "Internal server error"@,
    }
}

/// The failure in words.
pub open spec fn description_of(e: AppErrorModel) -> Seq<char> {
    match e {
        AppErrorModel::Unauthorized(m) => "Unauthorized: "@ + m,
        AppErrorModel::NotFound(m) => "Not found: "@ + m,
        AppErrorModel::BadRequest(m) => "Bad request: "@ + m,
        AppErrorModel::Internal(m) => "Internal error: "@ + m,
    }
}

impl AppError {
    /// A refusal for want of authority.
    pub fn unauthorized(message: &str) -> (e: AppError)
        ensures
            e@ == AppErrorModel::Unauthorized(message@),
    {
        AppError::Unauthorized(message.to_string())
    }

    /// A refusal because something does not exist.
    pub fn not_found(message: &str) -> (e: AppError)
        ensures
            e@ == AppErrorModel::NotFound(message@),
    {
        AppError::NotFound(message.to_string())
    }

    /// A refusal because the request is at fault.
    pub fn bad_request(message: &str) -> (e: AppError)
        ensures
            e@ == AppErrorModel::BadRequest(message@),
    {
        AppError::BadRequest(message.to_string())
    }

    /// The HTTP status of the refusal.
    pub fn status_code(&self) -> (status: u16)
        ensures
            status == status_of(self@),
    {
        match self {
            AppError::Unauthorized(_) => 401,
            AppError::NotFound(_) => 404,
            AppError::BadRequest(_) => 400,
            AppError::Internal(_) => 500,
        }
    }

    /// What the caller is told.
    pub fn message(&self) -> (message: String)
        ensures
            message@ == shown_message(self@),
    {
        match self {
            AppError::Unauthorized(m) => m.clone(),
            AppError::NotFound(m) => m.clone(),
            AppError::BadRequest(m) => m.clone(),
            AppError::Internal(_) => "Internal server error".to_string(),
        }
    }

    /// The failure in words.
    pub fn describe(&self) -> (text: String)
        ensures
            text@ == description_of(self@),
    {
        match self {
            AppError::Unauthorized(m) => joined("Unauthorized: ", m.as_str()),
            AppError::NotFound(m) => joined("Not found: ", m.as_str()),
            AppError::BadRequest(m) => joined("Bad request: ", m.as_str()),
            AppError::Internal(m) => joined("Internal error: ", m.as_str()),
        }
    }
}

} // verus!
