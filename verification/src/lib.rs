//! Verified core of a small market-statistics service.
//!
//! The library models the parts of the service that make decisions and
//! transform data: instrument identifiers and their aliases, the retry
//! policy of the HTTP request executor, date-keyed price series and their
//! alignment, and the structural half of the statistics pipeline.  The
//! surrounding binary performs the network and floating-point work and
//! feeds plain values into these functions.

pub mod align;
pub mod dec;
pub mod errors;
pub mod fetch;
pub mod query;
pub mod retry;
pub mod series;
pub mod stats;
pub mod token;

pub use errors::ServiceError;
pub use series::PricePoint;
pub use series::Series;
pub use token::Token;
