//! The JSON envelope every service answers with.
use vstd::prelude::*;

verus! {

/// `{ success, data, error }`: a success carries data, a failure a message.
pub struct ApiResponse<T> {
    pub success: bool,
    pub data: Option<T>,
    pub error: Option<String>,
}

/// A successful answer carrying `data`.
pub fn ok<T>(data: T) -> (r: ApiResponse<T>)
    ensures
        r.success,
        r.data == Some(data),
        r.error is None,
{
    ApiResponse { success: true, data: Some(data), error: None }
}

/// A failed answer with `message` and no data.
pub fn failure<T>(message: String) -> (r: ApiResponse<T>)
    ensures
        !r.success,
        r.data is None,
        r.error == Some(message),
{
    ApiResponse { success: false, data: None, error: Some(message) }
}

} // verus!
