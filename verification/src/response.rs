//! Serialized response shells handed to the transport layer.
//!
//! These carry a status, a message and optional data; the transport
//! layer (outside this crate) turns them into wire responses.

use vstd::prelude::*;

verus! {

/// Response to a user on success.
pub struct JsonResponse<T> {
    pub status: String,
    pub message: String,
    pub data: Option<T>,
}

impl<T> JsonResponse<T> {
    /// Returns a JSONResponse instance
    pub fn new(status: String, message: String, data: T) -> (r: JsonResponse<T>)
        ensures
            r.status == status,
            r.message == message,
            r.data == Some(data),
    {
        JsonResponse { status, message, data: Some(data) }
    }
}

/// Response to a user on a failed request.
pub struct JsonErrResponse<T> {
    pub status: String,
    pub errors: T,
}

impl<T> JsonErrResponse<T> {
    /// Returns a new JSON error instance
    pub fn new(status: String, errors: T) -> (r: JsonErrResponse<T>)
        ensures
            r.status == status,
            r.errors == errors,
    {
        JsonErrResponse { status, errors }
    }
}

/// A response carrying either an error or data with a message.
pub struct Response<'a, T> {
    pub status: &'a str,
    pub errors: Option<&'a str>,
    pub data: Option<T>,
    pub message: Option<&'a str>,
}

impl<'a, T> Response<'a, T> {
    /// Returns a new JSON error instance
    pub fn err<'b>(status: &'b str, errors: &'b str) -> (r: Response<'b, T>)
        ensures
            r.status == status,
            r.errors == Some(errors),
            r.data is None,
            r.message is None,
    {
        Response { status, errors: Some(errors), data: None, message: None }
    }

    /// Returns a new success instance with an optional body.
    pub fn success<'b>(status: &'b str, message: &'b str, data: Option<T>) -> (r: Response<'b, T>)
        ensures
            r.status == status,
            r.errors is None,
            r.data == data,
            r.message == Some(message),
    {
        Response { status, errors: None, data, message: Some(message) }
    }
}

/// Creates an error JSON response from the given arguments.
pub fn err_response<T>(status: String, msg: T) -> (r: JsonErrResponse<T>)
    ensures
        r.status == status,
        r.errors == msg,
{
    JsonErrResponse::new(status, msg)
}

} // verus!
