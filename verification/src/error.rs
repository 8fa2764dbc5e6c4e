use vstd::prelude::*;

verus! {

/// Every failure the library surfaces, with the context needed to diagnose
/// it without re-running. No error is swallowed: each one aborts the current
/// scan operation.
#[derive(Debug, PartialEq)]
pub enum FdwError {
    /// A missing or invalid required option, or an unknown resource name;
    /// `detail` names the option or resource.
    Configuration { detail: String },
    /// The token endpoint answered outside 2xx or with an unusable body.
    Authentication { status: u16, body: String },
    /// A data endpoint answered outside 2xx.
    Upstream { status: u16, url: String },
    /// A response was not shaped as expected; `detail` names the endpoint
    /// whose body was not an array.
    Schema { detail: String },
    /// A response body that is ultimately returned was not well-formed JSON.
    Protocol { detail: String },
    /// A requested column that the active scanner does not serve.
    UnsupportedColumn { column: String },
}

} // verus!
