//! Typed HTTP responses.

use vstd::prelude::*;

verus! {

/// `201 Created`, with a body.
#[derive(Debug)]
pub struct Created<T>(pub T);

/// `204 No Content`.
#[derive(Debug, Clone, Copy)]
pub struct NoContent;

/// `400 Bad Request`.
#[derive(Debug, Clone, Copy)]
pub struct BadRequest;

/// `401 Unauthorized`.
#[derive(Debug, Clone, Copy)]
pub struct Unauthorized;

/// `409 Conflict`.
#[derive(Debug, Clone, Copy)]
pub struct Conflict;

/// `422 Unprocessable Entity`.
#[derive(Debug, Clone, Copy)]
pub struct UnprocessableEntity;

/// `502 Bad Gateway`.
#[derive(Debug, Clone, Copy)]
pub struct BadGateway;

/// A generic JSON object.
#[derive(Debug, Clone, Copy)]
pub struct JsonObject;

impl<T> Created<T> {
    /// The status code the response is sent with; the body
    /// follows it.
    pub fn status_code(&self) -> (r: u16)
        ensures
            r == 201,
    {
        201
    }

    /// The body of the response.
    pub fn into_body(self) -> (r: T)
        ensures
            r == self.0,
    {
        self.0
    }
}

impl NoContent {
    /// The status code the response is sent with; there is
    /// no body.
    pub fn status_code(&self) -> (r: u16)
        ensures
            r == 204,
    {
        204
    }
}

} // verus!
