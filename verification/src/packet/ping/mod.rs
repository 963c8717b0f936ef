//! Ping request and response

use vstd::prelude::*;

pub mod req;
pub mod resp;

verus! {

/// PING request
#[derive(Debug, Clone, PartialEq, Eq)]
pub struct PingReq;

/// PING response
#[derive(Debug, Clone, PartialEq, Eq)]
pub struct PingResp;

} // verus!
