//! In-memory HTTP payload model, a multipart/form-data encoder, and a
//! composable middleware pipeline (retry, redirect-following, logging)
//! around an injected transport client.

pub mod body;
pub mod message;
pub mod middleware;
pub mod multipart;
pub mod structured;
pub mod url;

pub use body::{BodyView, InMemoryBody, InMemoryError, SanitizePolicy};
pub use message::{Error, Headers, ProtocolError, Request, Response, Version};
pub use middleware::{Follow, FollowDecision, LogEvent, Logger, Middleware, Next, Retry, RetryDecision, Transport};
pub use multipart::{Form, Part};
pub use url::Url;
