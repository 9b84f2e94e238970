//! Decoding of `application/x-www-form-urlencoded` request bodies into a
//! mapping from field names to binary values, together with the description
//! of the HTTP responses that usually answer such a request.

pub mod error;
pub mod escape;
pub mod fields;
pub mod forms;
pub mod status;
pub mod util;
