//! Support code for generated HTTP API clients.
//!
//! Wraps raw HTTP responses into a uniform, typed success/error model:
//! [`ResponseValue`] pairs a decoded body with the response's status and
//! headers, and [`Error`] is the closed set of ways a call can fail to
//! produce one. Path-segment encoding for URL construction is provided as
//! a standalone helper.

pub mod encode;
pub mod error;
pub mod headers;
pub mod render;
pub mod response;

pub use encode::encode_path;
pub use error::Error;
pub use error::RawResponse;
pub use error::TransportError;
pub use headers::HeaderMap;
pub use headers::parse_content_length;
pub use response::ByteStream;
pub use response::ResponseValue;
pub use response::SWITCHING_PROTOCOLS;
pub use response::map_identity;
