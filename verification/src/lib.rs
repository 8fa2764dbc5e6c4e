//! A query-time adapter that exposes a remote REST API as two tabular,
//! iteratively scannable row sources: a paginated flat listing and a nested
//! tree document flattened into rows.
//!
//! The library holds the verified core: the token-cache and authenticated
//! fetch state machine, the pagination cursor, the tree flattener, column
//! projection and the scan session. Network transport and the host protocol
//! drive these machines from outside; JSON text decoding is consumed through
//! a narrow trusted boundary.

pub mod error;
pub mod fetch;
pub mod json;
pub mod listing;
pub mod session;
pub mod text;
pub mod tree;
