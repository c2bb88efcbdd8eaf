//! Strict request extraction: whatever an extractor refuses is answered with the service's own
//! error envelope.

use vstd::prelude::*;

use crate::error::{AppError, AppFault};

verus! {

/// Why a JSON body was refused.
#[derive(Debug)]
pub enum JsonRejection {
    /// The document does not have the expected shape, an unknown field included.
    Data(String),
    /// The body is not JSON.
    Syntax(String),
    /// The content type is not that of JSON.
    MissingContentType(String),
    /// The body could not be read, because it is too large.
    Bytes(String),
    /// Anything else.
    Other(String),
}

impl JsonRejection {
    /// What the caller is told.
    pub open spec fn fault(self) -> AppFault {
        match self {
            JsonRejection::Data(m) => AppFault::InvalidInput(m@),
            JsonRejection::Syntax(m) => AppFault::InvalidInput(m@),
            JsonRejection::MissingContentType(m) => AppFault::InvalidInput(m@),
            JsonRejection::Bytes(m) => AppFault::BodyRejected(413, m@),
            JsonRejection::Other(m) => AppFault::InvalidInput(m@),
        }
    }
}

/// A JSON body. Silently ignoring a field that no payload knows would be worse than refusing it, so
/// a refusal is an error like any other.
pub struct StrictJson<T>(pub T);

impl<T> StrictJson<T> {
    /// A body, or what the caller is told.
    pub fn accept(body: Result<T, JsonRejection>) -> (r: Result<StrictJson<T>, AppError>)
        ensures
            match body {
                Ok(value) => r == Ok::<StrictJson<T>, AppError>(StrictJson(value)),
                Err(rejection) => r is Err && r->Err_0@ == rejection.fault(),
            },
    {
        match body {
            Ok(value) => Ok(StrictJson(value)),
            Err(JsonRejection::Data(m)) => Err(AppError::InvalidInput(m)),
            Err(JsonRejection::Syntax(m)) => Err(AppError::InvalidInput(m)),
            Err(JsonRejection::MissingContentType(m)) => Err(AppError::InvalidInput(m)),
            Err(JsonRejection::Bytes(m)) => Err(AppError::BodyRejected(413, m)),
            Err(JsonRejection::Other(m)) => Err(AppError::InvalidInput(m)),
        }
    }
}

/// A path segment. One that does not parse names no resource, and is answered like one that names a
/// resource that does not exist, so that the answer tells nothing about which ids are real.
pub struct StrictPath<T>(pub T);

impl<T> StrictPath<T> {
    /// A path segment, or what the caller is told.
    pub fn accept(segment: Option<T>) -> (r: Result<StrictPath<T>, AppError>)
        ensures
            match segment {
                Some(value) => r == Ok::<StrictPath<T>, AppError>(StrictPath(value)),
                None => r is Err && r->Err_0@ == AppFault::NotFound,
            },
    {
        match segment {
            Some(value) => Ok(StrictPath(value)),
            None => Err(AppError::NotFound),
        }
    }
}

/// A query string.
pub struct StrictQuery<T>(pub T);

impl<T> StrictQuery<T> {
    /// A query string, or what the caller is told.
    pub fn accept(query: Result<T, String>) -> (r: Result<StrictQuery<T>, AppError>)
        ensures
            match query {
                Ok(value) => r == Ok::<StrictQuery<T>, AppError>(StrictQuery(value)),
                Err(m) => r is Err && r->Err_0@ == AppFault::InvalidInput(m@),
            },
    {
        match query {
            Ok(value) => Ok(StrictQuery(value)),
            Err(m) => Err(AppError::InvalidInput(m)),
        }
    }
}

/// A body that is too large is answered as such, and whatever else is wrong with it as invalid input;
/// either way with what the extractor said.
pub proof fn law_how_rejections_are_answered(rejection: JsonRejection, m: String)
    ensures
        rejection is Bytes <==> rejection.fault().response().0 == 413,
        !(rejection is Bytes) ==> rejection.fault().response().0 == 400,
        rejection == JsonRejection::Data(m) || rejection == JsonRejection::Syntax(m) || rejection
            == JsonRejection::MissingContentType(m) || rejection == JsonRejection::Bytes(m)
            || rejection == JsonRejection::Other(m) ==> rejection.fault().response().1
            == crate::error::error_body(m@),
{
}

} // verus!
