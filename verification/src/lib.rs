//! A multi-tenant edge runtime core: per-tenant routing tables behind an
//! atomically swappable holder, a path router with named captures and
//! most-specific matching, a tenant registry keyed by host, and a script
//! execution boundary with request/response marshalling.

use vstd::prelude::*;

mod cli;
mod config;
mod engine;
mod error;
mod method;
mod router;
mod strutil;
mod watcher;

pub use cli::{BuildOpts, InitOpts, Opts, RunOpts, SubCommand};
pub use config::{ProjectConfig, ProjectRoute, ProjectRoutes};
pub use engine::{build_response, JsWorker, Req, ReqBuilder, Res};
pub use error::AppError;
pub use method::Method;
pub use router::{
    build_router, AppRouter, AppRouterInner, MethodRoute, Params, PathRouter, RouteEntry,
    RouteMatch, Segment, SwappableAppRouter,
};
pub use strutil::{host_key, strip_port};
pub use watcher::{batch_needs_swap, path_is_relevant};

use crate::strutil::lemma_first_index_is;

verus! {

#[verifier::external_type_specification]
#[verifier::external_body]
#[verifier::reject_recursive_types(K)]
#[verifier::reject_recursive_types(V)]
#[verifier::reject_recursive_types(S)]
pub struct ExDashMap<K, V, S>(dashmap::DashMap<K, V, S>);

/// The map type the registry is built on.
pub type RegistryMap = dashmap::DashMap<String, SwappableAppRouter, std::hash::RandomState>;

/// What the tenant registry holds: the holder stored under each host.
pub uninterp spec fn registry_view(
    m: RegistryMap,
) -> Map<Seq<char>, SwappableAppRouter>;

/// Relies on dashmap::DashMap::new: an empty map.
#[verifier::external_body]
fn registry_empty() -> (r: RegistryMap)
    ensures
        registry_view(r) =~= Map::empty(),
{
    dashmap::DashMap::new()
}

/// Relies on dashmap::DashMap::insert: afterwards the map holds `v`
/// under `host`; other keys are unchanged.
#[verifier::external_body]
fn registry_insert(
    m: &mut RegistryMap,
    host: String,
    v: SwappableAppRouter,
)
    ensures
        registry_view(*final(m)) == registry_view(*old(m)).insert(host@, v),
{
    m.insert(host, v);
}

/// Relies on dashmap::DashMap::remove: afterwards the map holds nothing
/// under `host`; other keys are unchanged.
#[verifier::external_body]
fn registry_remove(
    m: &mut RegistryMap,
    host: &String,
)
    ensures
        registry_view(*final(m)) == registry_view(*old(m)).remove(host@),
{
    m.remove(host);
}

/// Relies on dashmap::DashMap::get: the holder stored under `host`, if
/// one is there — a clone of the stored handle, sharing its cell.
#[verifier::external_body]
fn registry_get(
    m: &RegistryMap,
    host: &String,
) -> (r: Option<SwappableAppRouter>)
    ensures
        match r {
            Some(v) => registry_view(*m).contains_key(host@) && v == registry_view(*m)[host@],
            None => !registry_view(*m).contains_key(host@),
        },
{
    m.get(host).map(|e| e.value().clone())
}

/// One tenant: a host and its swappable router.
pub struct TenentRouter {
    pub host: String,
    pub router: SwappableAppRouter,
}

impl TenentRouter {
    pub fn new(host: &str, router: SwappableAppRouter) -> (r: Self)
        ensures
            r.host@ == host@,
            r.router == router,
    {
        TenentRouter { host: String::from_str(host), router }
    }
}

/// The registry built from the first `k` tenants, first entry first: a
/// later entry for the same host replaces the earlier one.
pub open spec fn routers_map_upto(rs: Seq<TenentRouter>, k: int) -> Map<
    Seq<char>,
    SwappableAppRouter,
>
    decreases k,
{
    if k <= 0 {
        Map::empty()
    } else {
        routers_map_upto(rs, k - 1).insert(rs[k - 1].host@, rs[k - 1].router)
    }
}

/// The registry built from a list of tenants.
pub open spec fn routers_map(rs: Seq<TenentRouter>) -> Map<Seq<char>, SwappableAppRouter> {
    routers_map_upto(rs, rs.len() as int)
}

/// The tenant registry: each host's swappable holder, shared by all
/// request tasks.
pub struct AppState {
    pub router: RegistryMap,
}

impl AppState {
    /// A registry over the given map.
    pub fn new(router: RegistryMap) -> (r:
        Self)
        ensures
            registry_view(r.router) == registry_view(router),
    {
        AppState { router }
    }

    /// An empty registry.
    pub fn empty() -> (r: Self)
        ensures
            registry_view(r.router) == Map::<Seq<char>, SwappableAppRouter>::empty(),
    {
        AppState { router: registry_empty() }
    }

    /// Register `router` under `host`, as given: keys are the hosts
    /// tenants were registered with, without port stripping.
    pub fn insert(&mut self, host: String, router: SwappableAppRouter)
        ensures
            registry_view(final(self).router) == registry_view(old(self).router).insert(
                host@,
                router,
            ),
    {
        registry_insert(&mut self.router, host, router);
    }

    /// Drop the entry under `host`, if any.
    pub fn remove(&mut self, host: &String)
        ensures
            registry_view(final(self).router) == registry_view(old(self).router).remove(host@),
    {
        registry_remove(&mut self.router, host);
    }

    /// Build a registry from a list of tenants.
    pub fn from_routers(routers: Vec<TenentRouter>) -> (r: Self)
        ensures
            registry_view(r.router) == routers_map(routers@),
    {
        let ghost all = routers@;
        let mut st = AppState::empty();
        let mut v = routers;
        let ghost mut i: int = 0;
        while v.len() > 0
            invariant
                0 <= i <= all.len(),
                v@ =~= all.skip(i),
                registry_view(st.router) == routers_map_upto(all, i),
            decreases v@.len(),
        {
            let t = v.remove(0);
            assert(t == all[i]);
            st.insert(t.host, t.router);
            proof {
                assert(v@ =~= all.skip(i + 1));
                i = i + 1;
            }
        }
        assert(i == all.len());
        st
    }
}

/// Strip any `:port` from `host` and load the current bundle of the
/// tenant registered under the remainder; an unknown host is
/// `HostNotFound`.
pub fn get_router_by_host(host: &str, state: &AppState) -> (r: Result<AppRouter, AppError>)
    ensures
        match r {
            Ok(_) => registry_view(state.router).contains_key(host_key(host@)),
            Err(e) => !registry_view(state.router).contains_key(host_key(host@)) && (e matches
                AppError::HostNotFound(h) && h@ == host_key(host@)),
        },
{
    let key = strip_port(host);
    match registry_get(&state.router, &key) {
        None => Err(AppError::HostNotFound(key)),
        Some(h) => Ok(h.load()),
    }
}

/// Build the request record handed to a handler from the request parts
/// and the matcher's captures.
pub fn assemble_req(
    method: Method,
    url: &str,
    query: Vec<(String, String)>,
    params: Params,
    headers: Vec<(String, String)>,
    body: Option<String>,
) -> (r: Req)
    ensures
        r.method@ == crate::method::spec_name(method),
        r.url@ == url@,
        r.query == query,
        r.params == params.pairs,
        r.headers == headers,
        r.body == body,
{
    Req {
        method: String::from_str(method.as_str()),
        url: String::from_str(url),
        query,
        params: params.pairs,
        headers,
        body,
    }
}

/// Dispatch one request: resolve the tenant by host (port stripped),
/// load its current bundle, match `(method, path)` in the bundle's
/// router, assemble the request record with the captured parameters,
/// and run the selected handler in a script context for the bundle's
/// code.
pub fn handle_request(
    state: &AppState,
    host: &str,
    method: Method,
    url: &str,
    path: &str,
    query: Vec<(String, String)>,
    headers: Vec<(String, String)>,
    body: Option<String>,
) -> (r: Result<Res, AppError>)
    ensures
        match r {
            Ok(res) => registry_view(state.router).contains_key(host_key(host@)) && 100
                <= res.status <= 599,
            Err(e) => match e {
                AppError::HostNotFound(h) => !registry_view(state.router).contains_key(
                    host_key(host@),
                ) && h@ == host_key(host@),
                AppError::RoutePathNotFound(p) => registry_view(state.router).contains_key(
                    host_key(host@),
                ) && p@ == path@,
                AppError::RouteMethodNotAllowed(m) => registry_view(state.router).contains_key(
                    host_key(host@),
                ) && m == method,
                AppError::Config(_) => false,
                _ => registry_view(state.router).contains_key(host_key(host@)),
            },
        },
{
    let router = match get_router_by_host(host, state) {
        Err(e) => {
            return Err(e);
        },
        Ok(router) => router,
    };
    let matched = match router.match_it(method, path) {
        Err(e) => {
            return Err(e);
        },
        Ok(m) => m,
    };
    let worker = match JsWorker::try_new(router.code().as_str()) {
        Err(e) => {
            return Err(e);
        },
        Ok(w) => w,
    };
    let handler = matched.value;
    let req = assemble_req(method, url, query, matched.params, headers, body);
    worker.run(handler.as_str(), req)
}

/// Host stripping: a `:port` suffix does not change where a host
/// resolves — for a bare host without a colon of its own, the lookup
/// key of `bare` followed by `:` and any port text is `bare` itself.
pub proof fn lemma_host_stripping(bare: Seq<char>, port: Seq<char>)
    requires
        !bare.contains(':'),
    ensures
        host_key(bare) == bare,
        host_key(bare.add(seq![':'].add(port))) == bare,
{
    assert forall|j: int| 0 <= j < bare.len() implies bare[j] != ':' by {
        if bare[j] == ':' {
            assert(bare.contains(':'));
        }
    }
    lemma_first_index_is(bare, ':', bare.len() as int);
    assert(bare.take(bare.len() as int) =~= bare);
    let s = bare.add(seq![':'].add(port));
    assert forall|j: int| 0 <= j < bare.len() implies s[j] != ':' by {
        assert(s[j] == bare[j]);
    }
    assert(s[bare.len() as int] == ':');
    lemma_first_index_is(s, ':', bare.len() as int);
    assert(s.take(bare.len() as int) =~= bare);
}

} // verus!
