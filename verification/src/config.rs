//! The routing-table description a tenant's configuration provides: paths
//! grouped with the method/handler pairs registered on them.

use vstd::prelude::*;

use crate::method::Method;

verus! {

/// One `(method, handler)` entry under a path pattern.
#[derive(Debug, Clone)]
pub struct ProjectRoute {
    pub method: Method,
    pub handler: String,
}

/// A tenant's routing description: each path pattern with its route
/// entries, in configuration order.
pub type ProjectRoutes = Vec<(String, Vec<ProjectRoute>)>;

/// A tenant's configuration: its name and its routing description.
#[derive(Debug)]
pub struct ProjectConfig {
    pub name: String,
    pub routes: ProjectRoutes,
}

} // verus!
