//! Typed cookies for one request: what came in with it, what goes out with
//! the response, and the attributes that each outgoing cookie carries.
//!
//! A [`Storage`] holds the cookies of one request. The middleware fills it
//! from the request header before the handler runs and turns what the
//! handler wrote into `Set-Cookie` header values afterwards. In between, the
//! handler reads and writes through [`cookies::Cookie`] handles, one for
//! each cookie type.

pub mod attributes;
pub mod cookies;
pub mod header;
pub mod middleware;
pub mod outbound;
pub mod storage;

pub use attributes::{Attributes, Expiration, Moment};
pub use biscotti::{Processor, ProcessorConfig, SameSite};
pub use middleware::{CookieMiddleware, InnerCookieMiddleware};
pub use storage::Storage;
