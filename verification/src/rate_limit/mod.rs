//! Rate limiting: one token bucket per scope and client identity, and a
//! counted cap on live event streams.

pub mod bucket;
pub mod clock;
pub mod identity;
pub mod laws;
pub mod limiter;
pub mod model;
pub mod response;
pub mod scope;

pub use bucket::{BucketSettings, RateBucket};
pub use identity::{parse_bearer_token, request_identity};
pub use limiter::{RateLimiter, SseConnectionLease};
pub use model::{LimiterModel, RateAllowance, RateDecision, RateDenial, SseCapDenied};
pub use response::{enforce_limits, Admission, Header, LimitResponse};
pub use scope::{bucket_settings, classify_scope, is_sse_route, RateScope};
