use vstd::prelude::*;
use crate::method::Method;
use crate::path::{lemma_split_joined, split_path};
use crate::pattern::{pattern_of, segment_of};
use crate::response::{Responder, Response, StatusCode};
use crate::route::Route;
use crate::router::{
    conflict_free, expand, method_matches, path_known, route_keys, Dispatch, Router, ServerError,
};
use crate::state::StateStore;

verus! {

pub open spec fn trim_start_slashes(s: Seq<char>) -> Seq<char>
    decreases s.len(),
{
    if s.len() > 0 && s[0] == '/' {
        trim_start_slashes(s.drop_first())
    } else {
        s
    }
}

pub open spec fn trim_end_slashes(s: Seq<char>) -> Seq<char>
    decreases s.len(),
{
    if s.len() > 0 && s.last() == '/' {
        trim_end_slashes(s.drop_last())
    } else {
        s
    }
}

/// The path of a route mounted under `prefix`: the two joined by exactly
/// one slash.
pub open spec fn mount_path(prefix: Seq<char>, path: Seq<char>) -> Seq<char> {
    trim_end_slashes(prefix) + seq!['/'] + trim_start_slashes(path)
}

proof fn lemma_split_trim_end(s: Seq<char>)
    ensures
        split_path(trim_end_slashes(s)) == split_path(s),
    decreases s.len(),
{
    if s.len() > 0 && s.last() == '/' {
        lemma_split_trim_end(s.drop_last());
        lemma_split_joined(s.drop_last(), seq![]);
        assert(s.drop_last() + seq!['/'] + Seq::<char>::empty() =~= s);
        assert(split_path(s.drop_last()) + split_path(seq![]) =~= split_path(s.drop_last()));
    }
}

proof fn lemma_split_trim_start(s: Seq<char>)
    ensures
        split_path(trim_start_slashes(s)) == split_path(s),
    decreases s.len(),
{
    if s.len() > 0 && s[0] == '/' {
        lemma_split_trim_start(s.drop_first());
        lemma_split_joined(seq![], s.drop_first());
        assert(Seq::<char>::empty() + seq!['/'] + s.drop_first() =~= s);
        assert(split_path(seq![]) + split_path(s.drop_first()) =~= split_path(s.drop_first()));
    }
}

/// A route mounted under a prefix has the segments of the prefix followed by
/// its own, however many slashes stand between them.
pub proof fn lemma_mounted_pattern(prefix: Seq<char>, path: Seq<char>)
    ensures
        pattern_of(mount_path(prefix, path)) == pattern_of(prefix) + pattern_of(path),
{
    lemma_split_joined(trim_end_slashes(prefix), trim_start_slashes(path));
    lemma_split_trim_end(prefix);
    lemma_split_trim_start(path);
    assert((split_path(prefix) + split_path(path)).map_values(|p: Seq<char>| segment_of(p))
        =~= split_path(prefix).map_values(|p: Seq<char>| segment_of(p)) + split_path(path).map_values(
        |p: Seq<char>| segment_of(p),
    ));
}

fn trimmed_start(s: &str) -> (r: &str)
    ensures
        r@ == trim_start_slashes(s@),
{
    let n = s.unicode_len();
    let mut i: usize = 0;
    assert(s@.subrange(0, n as int) =~= s@);
    while i < n && s.get_char(i) == '/'
        invariant
            n == s@.len(),
            i <= n,
            trim_start_slashes(s@.subrange(i as int, n as int)) == trim_start_slashes(s@),
        decreases n - i,
    {
        assert(s@.subrange(i as int, n as int).drop_first() =~= s@.subrange(i + 1, n as int));
        i = i + 1;
    }
    s.substring_char(i, n)
}

fn trimmed_end(s: &str) -> (r: &str)
    ensures
        r@ == trim_end_slashes(s@),
{
    let mut n = s.unicode_len();
    assert(s@.subrange(0, n as int) =~= s@);
    while n > 0 && s.get_char(n - 1) == '/'
        invariant
            n <= s@.len(),
            trim_end_slashes(s@.subrange(0, n as int)) == trim_end_slashes(s@),
        decreases n,
    {
        assert(s@.subrange(0, n as int).drop_last() =~= s@.subrange(0, n - 1));
        n = n - 1;
    }
    s.substring_char(0, n)
}

/// Joins a mount prefix and a route path with exactly one slash.
pub fn join_mount_path(prefix: &str, path: &str) -> (r: String)
    ensures
        r@ == mount_path(prefix@, path@),
{
    let mut out = String::from_str(trimmed_end(prefix));
    out.append("/");
    out.append(trimmed_start(path));
    proof {
        reveal_strlit("/");
    }
    assert(out@ =~= mount_path(prefix@, path@));
    out
}

/// The application being assembled: its routes and its states.
pub struct Condey<H, V> {
    routes: Vec<Route<H>>,
    states: StateStore<V>,
}

impl<H, V> Condey<H, V> {
    pub closed spec fn routes_view(&self) -> Seq<Route<H>> {
        self.routes@
    }

    pub closed spec fn states_view(&self) -> Map<u64, V> {
        self.states@
    }

    pub fn init() -> (r: Self)
        ensures
            r.routes_view() == Seq::<Route<H>>::empty(),
            r.states_view() == Map::<u64, V>::empty(),
    {
        Condey { routes: Vec::new(), states: StateStore::new() }
    }

    /// Appends `paths`, each with its path put under `prefix`.
    pub fn mount(self, prefix: &str, paths: Vec<Route<H>>) -> (r: Self)
        ensures
            r.states_view() == self.states_view(),
            r.routes_view().len() == self.routes_view().len() + paths@.len(),
            forall|k: int|
                0 <= k < self.routes_view().len() ==> #[trigger] r.routes_view()[k]
                    == self.routes_view()[k],
            forall|k: int|
                0 <= k < paths@.len() ==> {
                    let n = #[trigger] r.routes_view()[self.routes_view().len() + k];
                    &&& n.method == paths@[k].method
                    &&& n.path@ == mount_path(prefix@, paths@[k].path@)
                    &&& n.description == paths@[k].description
                    &&& n.handler == paths@[k].handler
                },
    {
        let Condey { mut routes, states } = self;
        let ghost start = routes@;
        let ghost given = paths@;
        let mut paths = paths;
        let mut i: usize = 0;
        let total = paths.len();
        while paths.len() > 0
            invariant
                total == given.len(),
                i + paths@.len() == total,
                paths@ == given.subrange(i as int, total as int),
                routes@.len() == start.len() + i,
                forall|k: int| 0 <= k < start.len() ==> #[trigger] routes@[k] == start[k],
                forall|k: int|
                    0 <= k < i ==> {
                        let n = #[trigger] routes@[start.len() + k];
                        &&& n.method == given[k].method
                        &&& n.path@ == mount_path(prefix@, given[k].path@)
                        &&& n.description == given[k].description
                        &&& n.handler == given[k].handler
                    },
            decreases paths@.len(),
        {
            let route = paths.remove(0);
            assert(route == given[i as int]);
            let path = join_mount_path(prefix, route.path.as_str());
            routes.push(Route {
                method: route.method,
                path,
                description: route.description,
                handler: route.handler,
            });
            i = i + 1;
            assert(paths@ =~= given.subrange(i as int, total as int));
        }
        Condey { routes, states }
    }

    /// Registers a shared value under a type tag; registering a tag again
    /// replaces the value.
    pub fn app_state(self, tag: u64, state: V) -> (r: Self)
        ensures
            r.routes_view() == self.routes_view(),
            r.states_view() == self.states_view().insert(tag, state),
    {
        let Condey { routes, mut states } = self;
        states.insert(tag, state);
        Condey { routes, states }
    }
}

/// The text of the `server` header on every response.
pub const SERVER_NAME: &'static str = "condey 0.1.0";

/// The headers of `h` without the `server` header, then the server's own.
pub open spec fn with_server_header(h: Seq<(Seq<char>, Seq<char>)>) -> Seq<(Seq<char>, Seq<char>)> {
    h.filter(|p: (Seq<char>, Seq<char>)| keeps_header(p)).push(("server"@, SERVER_NAME@))
}

pub open spec fn keeps_header(p: (Seq<char>, Seq<char>)) -> bool {
    p.0 != "server"@
}

/// A compiled application, ready to serve requests.
pub struct Service<H, V> {
    router: Router<H>,
    states: StateStore<V>,
}

impl<H, V> Service<H, V> {
    pub closed spec fn router_view(&self) -> &Router<H> {
        &self.router
    }

    pub closed spec fn states_view(&self) -> Map<u64, V> {
        self.states@
    }

    pub open spec fn wf(&self) -> bool {
        self.router_view().wf()
    }

    /// Compiles the routes of `condey`; fails when two of them claim one
    /// method and one pattern shape.
    pub fn try_from(condey: Condey<H, V>) -> (r: Result<Self, ServerError>)
        ensures
            r is Ok <==> conflict_free(expand(route_keys(condey.routes_view()))),
            r matches Ok(s) ==> s.wf() && s.router_view().routes_view() == condey.routes_view()
                && s.states_view() == condey.states_view(),
    {
        let Condey { routes, states } = condey;
        match Router::compile(routes) {
            Ok(router) => Ok(Service { router, states }),
            Err(e) => Err(e),
        }
    }

    pub fn router(&self) -> (r: &Router<H>)
        ensures
            r == self.router_view(),
    {
        &self.router
    }

    pub fn states(&self) -> (r: &StateStore<V>)
        ensures
            r@ == self.states_view(),
    {
        &self.states
    }

    /// Resolves a request against the compiled routes.
    pub fn dispatch(&self, m: Method, path: &str) -> (r: Dispatch)
        ensures
            r matches Dispatch::Found(found) ==> found.route < self.router_view().routes_view().len(),
            match r {
                Dispatch::Found(found) => self.router_view().resolve_view(m, path@) == Some(found@),
                Dispatch::MethodNotAllowed => !method_matches(self.router_view().entries_view(), m, path@)
                    && path_known(self.router_view().entries_view(), path@),
                Dispatch::NotFound => !path_known(self.router_view().entries_view(), path@),
            },
    {
        self.router.dispatch(m, path)
    }
}

/// The response for a request that no handler served: 404 or 405, empty.
pub fn unserved_response(status: StatusCode) -> (r: Response)
    ensures
        r@ == status.response_spec(),
{
    status.respond_to()
}

/// The response when a handler failed after its parameters were
/// extracted: an empty 500.
pub fn handler_failure_response() -> (r: Response)
    ensures
        r@.status == 500 && r@.headers.len() == 0 && r@.body.len() == 0,
{
    StatusCode::internal_server_error().respond_to()
}

/// Marks a response as coming from this server: any `server` header is
/// replaced by the server's own.
pub fn finish_response(response: Response) -> (r: Response)
    ensures
        r@.status == response@.status,
        r@.body == response@.body,
        r@.headers == with_server_header(response@.headers),
{
    let Response { status, headers, body } = response;
    let ghost hv = headers@.map_values(|h: (String, String)| (h.0@, h.1@));
    let mut kept: Vec<(String, String)> = Vec::new();
    let mut i: usize = 0;
    let server = "server";
    proof {
        reveal_strlit("server");
    }
    while i < headers.len()
        invariant
            i <= headers@.len(),
            server@ == "server"@,
            hv == headers@.map_values(|h: (String, String)| (h.0@, h.1@)),
            kept@.map_values(|h: (String, String)| (h.0@, h.1@)) == hv.take(i as int).filter(
                |p: (Seq<char>, Seq<char>)| keeps_header(p),
            ),
        decreases headers@.len() - i,
    {
        let ghost before = kept@.map_values(|h: (String, String)| (h.0@, h.1@));
        assert(hv.take(i + 1).drop_last() =~= hv.take(i as int));
        assert(hv.take(i + 1).last() == hv[i as int]);
        proof {
            reveal(Seq::filter);
        }
        assert(hv.take(i + 1).filter(|p: (Seq<char>, Seq<char>)| keeps_header(p)) == if keeps_header(hv[i as int]) {
            hv.take(i as int).filter(|p: (Seq<char>, Seq<char>)| keeps_header(p)).push(hv[i as int])
        } else {
            hv.take(i as int).filter(|p: (Seq<char>, Seq<char>)| keeps_header(p))
        });
        assert(headers@[i as int].0@ == hv[i as int].0);
        let name = headers[i].0.as_str();
        if !str_eq(name, server) {
            kept.push((headers[i].0.clone(), headers[i].1.clone()));
            assert(kept@.map_values(|h: (String, String)| (h.0@, h.1@)) =~= before.push(hv[i as int]));
        }
        i = i + 1;
    }
    assert(hv.take(i as int) =~= hv);
    let ghost filtered = kept@.map_values(|h: (String, String)| (h.0@, h.1@));
    kept.push((server.to_owned(), SERVER_NAME.to_owned()));
    assert(kept@.map_values(|h: (String, String)| (h.0@, h.1@)) =~= filtered.push(("server"@, SERVER_NAME@)));
    Response { status, headers: kept, body }
}

/// Whether two strings are equal, char by char.
pub fn str_eq(a: &str, b: &str) -> (r: bool)
    ensures
        r == (a@ == b@),
{
    let n = a.unicode_len();
    if n != b.unicode_len() {
        return false;
    }
    let mut i: usize = 0;
    while i < n
        invariant
            n == a@.len(),
            n == b@.len(),
            i <= n,
            forall|j: int| 0 <= j < i ==> a@[j] == b@[j],
        decreases n - i,
    {
        if a.get_char(i) != b.get_char(i) {
            return false;
        }
        i = i + 1;
    }
    assert(a@ =~= b@);
    true
}

} // verus!
