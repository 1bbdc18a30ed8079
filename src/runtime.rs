//! The reactor and executor handles that every backend is built against.
//!
//! The library never looks inside them: it keeps them and lends them to the
//! selectors' constructors.
use vstd::prelude::*;

verus! {

/// `tokio::reactor::Handle`, held and lent, never inspected.
#[verifier::external_type_specification]
#[verifier::external_body]
pub struct ExHandle(tokio::reactor::Handle);

/// `tokio::runtime::TaskExecutor`, held and lent, never inspected.
#[verifier::external_type_specification]
#[verifier::external_body]
pub struct ExTaskExecutor(tokio::runtime::TaskExecutor);

} // verus!
