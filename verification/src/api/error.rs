//! What a caller is told when a request cannot be carried out.

use vstd::prelude::*;

verus! {

/// Why a request was turned down.
#[derive(Debug, Clone, Copy, PartialEq, Eq, Structural)]
pub enum ErrorStatus {
    /// The caller sent something the engine cannot act on.
    BadRequest,
    /// The engine is not in a state where the request makes sense.
    Conflict,
    /// The caller addressed something that does not exist.
    NotFound,
}

impl ErrorStatus {
    /// The HTTP status code.
    pub open spec fn code(self) -> u16 {
        match self {
            ErrorStatus::BadRequest => 400,
            ErrorStatus::Conflict => 409,
            ErrorStatus::NotFound => 404,
        }
    }

    /// The HTTP status code.
    pub fn Code(self) -> (u16Code: u16)
        ensures
            u16Code == self.code(),
    {
        match self {
            ErrorStatus::BadRequest => 400,
            ErrorStatus::Conflict => 409,
            ErrorStatus::NotFound => 404,
        }
    }
}

/// An error returned to the caller: a status and what went wrong.
#[derive(Debug, Clone, PartialEq, Eq)]
pub struct ApiError {
    pub m_status: ErrorStatus,
    pub m_strMessage: String,
}

/// An error as text.
pub ghost struct ErrorView {
    pub status: ErrorStatus,
    pub message: Seq<char>,
}

impl View for ApiError {
    type V = ErrorView;

    open spec fn view(&self) -> ErrorView {
        ErrorView { status: self.m_status, message: self.m_strMessage@ }
    }
}

/// A request the engine cannot act on.
pub open spec fn bad_request(message: Seq<char>) -> ErrorView {
    ErrorView { status: ErrorStatus::BadRequest, message }
}

/// A request the engine is in no state for.
pub open spec fn conflict(message: Seq<char>) -> ErrorView {
    ErrorView { status: ErrorStatus::Conflict, message }
}

/// A request for something that does not exist.
pub open spec fn not_found(message: Seq<char>) -> ErrorView {
    ErrorView { status: ErrorStatus::NotFound, message }
}

impl ApiError {
    /// The caller sent something the engine cannot act on.
    pub fn BadRequest(strMessage: String) -> (error: Self)
        ensures
            error@ == bad_request(strMessage@),
    {
        ApiError { m_status: ErrorStatus::BadRequest, m_strMessage: strMessage }
    }

    /// The engine is not in a state where the request makes sense (nothing loaded, no plugin, an
    /// ECU already busy).
    pub fn Conflict(strMessage: String) -> (error: Self)
        ensures
            error@ == conflict(strMessage@),
    {
        ApiError { m_status: ErrorStatus::Conflict, m_strMessage: strMessage }
    }

    /// The caller addressed something that does not exist.
    pub fn NotFound(strMessage: String) -> (error: Self)
        ensures
            error@ == not_found(strMessage@),
    {
        ApiError { m_status: ErrorStatus::NotFound, m_strMessage: strMessage }
    }
}

} // verus!
