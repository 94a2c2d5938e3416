//! All clients of one runner.

use crate::controller::Controller;
use std::collections::HashMap;
use vstd::prelude::*;

verus! {

/// The controllers of a runner's clients, by the clients' names. Requests are
/// routed through it to the controller of the client that sent them.
pub struct Service<'c, J> {
    controllers: HashMap<&'c str, &'c Controller<'c, J>>,
}

} // verus!
