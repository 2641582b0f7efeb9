use vstd::prelude::*;

verus! {

/// The request method of an endpoint.
#[derive(Clone, Copy, Debug, PartialEq, Eq, Structural)]
pub enum Method {
    Get,
    Post,
}

/// One endpoint: its method and its path below the module's mount point.
#[derive(Clone, Copy, Debug, PartialEq, Eq)]
pub struct Route {
    pub method: Method,
    pub path: &'static str,
}

/// `r` is the endpoint `method path`.
pub open spec fn is_route(r: Route, method: Method, path: Seq<char>) -> bool {
    r.method == method && r.path@ == path
}

} // verus!
