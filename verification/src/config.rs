//! Startup configuration: the routes installed before any control request.

use vstd::prelude::*;

use crate::route::ForwardingRoute;

verus! {

/// The startup configuration. The default configuration provisions no routes:
/// every route enters through the control operations.
pub struct Config {
    pub static_routes: Vec<ForwardingRoute>,
}

impl Config {
    /// The default standard configuration, with no static routes.
    pub fn load() -> (c: Config)
        ensures
            c.static_routes@.len() == 0,
    {
        Config { static_routes: Vec::new() }
    }
}

} // verus!
