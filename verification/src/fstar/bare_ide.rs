//! The query line sent to F*.

use vstd::prelude::*;
use crate::fstar::Query;

verus! {

/// A query together with the identifier that its replies will carry.
#[derive(PartialEq, Clone, Debug)]
pub struct FullQuery {
    pub query_id: String,
    pub query: Query,
}

} // verus!
