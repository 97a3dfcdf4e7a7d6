use vstd::prelude::*;
use crate::method::Method;
use crate::path::{split_path, split_segments};
use crate::pattern::{
    capture_values, captures, kinds, lex_ahead, outranks, parse_pattern, pattern_matches,
    pattern_of, same_shape, segment_matches, segments_alike, shapes_equal, view_pairs,
    view_pattern, view_strings, Segment, SegmentView,
};
use crate::response::StatusCode;
use crate::route::Route;
use crate::trie::{build_trie, entry_of, view_entries, MethodTrie};

verus! {

/// One method's claim on a pattern, pointing at the route that serves it.
pub struct Entry {
    pub method: Method,
    pub pattern: Vec<Segment>,
    pub route: usize,
}

/// The mathematical value of an entry.
pub struct EntryView {
    pub method: Method,
    pub pattern: Seq<SegmentView>,
    pub route: int,
}

impl View for Entry {
    type V = EntryView;

    open spec fn view(&self) -> EntryView {
        EntryView { method: self.method, pattern: view_pattern(self.pattern@), route: self.route as int }
    }
}

/// What a route contributes: its own method, and HEAD beside GET.
pub open spec fn route_entries(m: Method, path: Seq<char>, i: int) -> Seq<EntryView> {
    let e = EntryView { method: m, pattern: pattern_of(path), route: i };
    if m == Method::Get {
        seq![e, EntryView { method: Method::Head, pattern: pattern_of(path), route: i }]
    } else {
        seq![e]
    }
}

/// The entries that a list of (method, path) routes compiles to, in order.
pub open spec fn expand(routes: Seq<(Method, Seq<char>)>) -> Seq<EntryView>
    decreases routes.len(),
{
    if routes.len() == 0 {
        seq![]
    } else {
        let k = routes.len() - 1;
        expand(routes.take(k)) + route_entries(routes[k].0, routes[k].1, k)
    }
}

pub open spec fn route_keys<H>(routes: Seq<Route<H>>) -> Seq<(Method, Seq<char>)> {
    routes.map_values(|r: Route<H>| (r.method, r.path@))
}

/// Two entries conflict when one method claims two patterns of one shape.
pub open spec fn conflicting(a: EntryView, b: EntryView) -> bool {
    a.method == b.method && same_shape(a.pattern, b.pattern)
}

pub open spec fn conflict_free(es: Seq<EntryView>) -> bool {
    forall|i: int, j: int| 0 <= i < j < es.len() ==> !conflicting(#[trigger] es[i], #[trigger] es[j])
}

pub open spec fn entry_matches(e: EntryView, m: Method, segs: Seq<Seq<char>>) -> bool {
    e.method == m && pattern_matches(e.pattern, segs)
}

/// Entry `i` matches, and no matching entry of the method outranks it.
pub open spec fn is_best(es: Seq<EntryView>, m: Method, segs: Seq<Seq<char>>, i: int) -> bool {
    &&& 0 <= i < es.len()
    &&& entry_matches(es[i], m, segs)
    &&& forall|j: int|
        0 <= j < es.len() && #[trigger] entry_matches(es[j], m, segs) ==> !outranks(
            es[j].pattern,
            es[i].pattern,
        )
}

/// A resolved route and the values of its captures.
pub struct RouteMatch {
    pub route: usize,
    pub params: Vec<(String, String)>,
}

/// The mathematical value of a match.
pub struct MatchView {
    pub route: int,
    pub params: Seq<(Seq<char>, Seq<char>)>,
}

impl View for RouteMatch {
    type V = MatchView;

    open spec fn view(&self) -> MatchView {
        MatchView { route: self.route as int, params: view_pairs(self.params@) }
    }
}

/// What resolving `m` and `path` against the entries `es` gives.
pub open spec fn resolve_spec(es: Seq<EntryView>, m: Method, path: Seq<char>) -> Option<MatchView> {
    let segs = split_path(path);
    if exists|i: int| is_best(es, m, segs, i) {
        let i = choose|i: int| is_best(es, m, segs, i);
        Some(MatchView { route: es[i].route, params: captures(es[i].pattern, segs) })
    } else {
        None
    }
}

/// Some entry of method `m` matches the path.
pub open spec fn method_matches(es: Seq<EntryView>, m: Method, path: Seq<char>) -> bool {
    exists|i: int| 0 <= i < es.len() && #[trigger] entry_matches(es[i], m, split_path(path))
}

/// Some entry, of any method, matches the path.
pub open spec fn path_known(es: Seq<EntryView>, path: Seq<char>) -> bool {
    exists|i: int|
        0 <= i < es.len() && #[trigger] pattern_matches(es[i].pattern, split_path(path))
}

pub proof fn lemma_lex_transitive(a: Seq<bool>, b: Seq<bool>, c: Seq<bool>)
    requires
        lex_ahead(a, b),
        lex_ahead(b, c),
    ensures
        lex_ahead(a, c),
{
    let k1 = choose|k: int|
        0 <= k < a.len() && k < b.len() && #[trigger] a[k] && !b[k] && (forall|j: int|
            0 <= j < k ==> a[j] == b[j]);
    let k2 = choose|k: int|
        0 <= k < b.len() && k < c.len() && #[trigger] b[k] && !c[k] && (forall|j: int|
            0 <= j < k ==> b[j] == c[j]);
    if k1 < k2 {
        assert(a[k1] && !c[k1]);
    } else {
        assert(k2 < k1);
        assert(a[k2] && !c[k2]);
    }
}

pub proof fn lemma_lex_irreflexive(a: Seq<bool>)
    ensures
        !lex_ahead(a, a),
{
}

proof fn lemma_lex_equal_prefix(a: Seq<bool>, b: Seq<bool>, k: int)
    requires
        a.len() == b.len(),
        0 <= k < a.len(),
        !lex_ahead(a, b),
        !lex_ahead(b, a),
    ensures
        forall|j: int| 0 <= j <= k ==> a[j] == b[j],
    decreases k,
{
    if k > 0 {
        lemma_lex_equal_prefix(a, b, k - 1);
    }
    if a[k] != b[k] {
        if a[k] {
            assert(lex_ahead(a, b));
        } else {
            assert(lex_ahead(b, a));
        }
    }
}

/// Of two bool sequences of one length, one is ahead unless they are equal.
pub proof fn lemma_lex_total(a: Seq<bool>, b: Seq<bool>)
    requires
        a.len() == b.len(),
        !lex_ahead(a, b),
        !lex_ahead(b, a),
    ensures
        a == b,
{
    assert forall|k: int| 0 <= k < a.len() implies a[k] == b[k] by {
        lemma_lex_equal_prefix(a, b, k);
    }
    assert(a =~= b);
}

/// Two patterns that match the same segments and neither of which outranks
/// the other have one shape.
pub proof fn lemma_unranked_same_shape(a: Seq<SegmentView>, b: Seq<SegmentView>, segs: Seq<Seq<char>>)
    requires
        pattern_matches(a, segs),
        pattern_matches(b, segs),
        !outranks(a, b),
        !outranks(b, a),
    ensures
        same_shape(a, b),
{
    lemma_lex_total(kinds(a), kinds(b));
    assert forall|i: int| 0 <= i < a.len() implies #[trigger] segments_alike(a[i], b[i]) by {
        assert(kinds(a)[i] == kinds(b)[i]);
        assert(segment_matches(a[i], segs[i]));
        assert(segment_matches(b[i], segs[i]));
    }
}

/// In a conflict-free entry list the best match is unique.
pub proof fn lemma_best_unique(es: Seq<EntryView>, m: Method, segs: Seq<Seq<char>>, i: int, j: int)
    requires
        conflict_free(es),
        is_best(es, m, segs, i),
        is_best(es, m, segs, j),
    ensures
        i == j,
{
    assert(entry_matches(es[i], m, segs));
    assert(entry_matches(es[j], m, segs));
    assert(!outranks(es[j].pattern, es[i].pattern));
    assert(!outranks(es[i].pattern, es[j].pattern));
    lemma_unranked_same_shape(es[i].pattern, es[j].pattern, segs);
    assert(conflicting(es[i], es[j]));
    if i < j {
        assert(!conflicting(es[i], es[j]));
    } else if j < i {
        lemma_unranked_same_shape(es[j].pattern, es[i].pattern, segs);
        assert(!conflicting(es[j], es[i]));
    }
}

/// Among entries that match, one is best.
pub proof fn lemma_best_exists(es: Seq<EntryView>, m: Method, segs: Seq<Seq<char>>, i: int)
    requires
        0 <= i < es.len(),
        entry_matches(es[i], m, segs),
    ensures
        exists|c: int| is_best(es, m, segs, c),
{
    let b = best_among(es, m, segs, es.len() as int, i);
    assert(is_best(es, m, segs, b));
}

/// Entry `b` matches, and no matching entry before `n` outranks it.
spec fn best_before(es: Seq<EntryView>, m: Method, segs: Seq<Seq<char>>, n: int, b: int) -> bool {
    &&& 0 <= b < n
    &&& entry_matches(es[b], m, segs)
    &&& forall|j: int|
        0 <= j < n && #[trigger] entry_matches(es[j], m, segs) ==> !outranks(
            es[j].pattern,
            es[b].pattern,
        )
}

/// A matching entry before `n` that no other matching entry before `n`
/// outranks.
proof fn best_among(es: Seq<EntryView>, m: Method, segs: Seq<Seq<char>>, n: int, i: int) -> (b: int)
    requires
        0 <= i < n <= es.len(),
        entry_matches(es[i], m, segs),
    ensures
        best_before(es, m, segs, n, b),
    decreases n,
{
    let last = n - 1;
    if i == last {
        if exists|j: int| 0 <= j < last && #[trigger] entry_matches(es[j], m, segs) {
            let k = choose|j: int| 0 <= j < last && #[trigger] entry_matches(es[j], m, segs);
            let b = best_among(es, m, segs, last, k);
            step_best(es, m, segs, n, b)
        } else {
            assert forall|j: int|
                0 <= j < n && #[trigger] entry_matches(es[j], m, segs) implies !outranks(
                es[j].pattern,
                es[last].pattern,
            ) by {
                lemma_lex_irreflexive(kinds(es[last].pattern));
            }
            last
        }
    } else {
        let b = best_among(es, m, segs, last, i);
        step_best(es, m, segs, n, b)
    }
}

/// Extends a best entry before `n - 1` to one before `n`.
proof fn step_best(es: Seq<EntryView>, m: Method, segs: Seq<Seq<char>>, n: int, b: int) -> (c: int)
    requires
        0 < n <= es.len(),
        best_before(es, m, segs, n - 1, b),
    ensures
        best_before(es, m, segs, n, c),
{
    let last = n - 1;
    if entry_matches(es[last], m, segs) && outranks(es[last].pattern, es[b].pattern) {
        assert forall|j: int|
            0 <= j < n && #[trigger] entry_matches(es[j], m, segs) implies !outranks(
            es[j].pattern,
            es[last].pattern,
        ) by {
            if j < last && outranks(es[j].pattern, es[last].pattern) {
                lemma_lex_transitive(kinds(es[j].pattern), kinds(es[last].pattern), kinds(es[b].pattern));
            }
            if j == last {
                lemma_lex_irreflexive(kinds(es[j].pattern));
            }
        }
        last
    } else {
        b
    }
}

/// The best entry decides what resolving gives.
pub proof fn lemma_resolve_best(es: Seq<EntryView>, m: Method, path: Seq<char>, i: int)
    requires
        conflict_free(es),
        is_best(es, m, split_path(path), i),
    ensures
        resolve_spec(es, m, path) == Some(
            MatchView { route: es[i].route, params: captures(es[i].pattern, split_path(path)) },
        ),
{
    let segs = split_path(path);
    let c = choose|c: int| is_best(es, m, segs, c);
    lemma_best_unique(es, m, segs, i, c);
}

/// The entries of the first `i` routes come first among those of all routes.
pub proof fn lemma_expand_prefix(s: Seq<(Method, Seq<char>)>, i: int)
    requires
        0 <= i <= s.len(),
    ensures
        expand(s.take(i)).len() <= expand(s).len(),
        forall|k: int| 0 <= k < expand(s.take(i)).len() ==> expand(s.take(i))[k] == expand(s)[k],
    decreases s.len() - i,
{
    if i == s.len() {
        assert(s.take(i) =~= s);
    } else {
        lemma_expand_prefix(s, i + 1);
        assert(s.take(i + 1).take(i) =~= s.take(i));
    }
}

/// Why a set of routes cannot be compiled.
#[derive(Debug)]
pub enum ServerError {
    /// Two routes claim one method and one pattern shape; the later one is named.
    MountPathError { method: Method, path: String },
}

/// Whether some entry conflicts with one of `method` and `pattern`.
fn conflicts_with_any(entries: &Vec<Entry>, method: Method, pattern: &Vec<Segment>) -> (r: bool)
    ensures
        r == exists|k: int|
            0 <= k < entries@.len() && conflicting(
                #[trigger] entries@[k]@,
                EntryView { method, pattern: view_pattern(pattern@), route: 0 },
            ),
{
    let ghost probe = EntryView { method, pattern: view_pattern(pattern@), route: 0 };
    let mut i: usize = 0;
    while i < entries.len()
        invariant
            i <= entries@.len(),
            probe == (EntryView { method, pattern: view_pattern(pattern@), route: 0 }),
            forall|k: int| 0 <= k < i ==> !conflicting(#[trigger] entries@[k]@, probe),
        decreases entries@.len() - i,
    {
        let e = &entries[i];
        if e.method == method && shapes_equal(&e.pattern, pattern) {
            assert(conflicting(entries@[i as int]@, probe));
            return true;
        }
        i = i + 1;
    }
    false
}

/// Some trie is for method `m`.
pub open spec fn has_trie(tries: Seq<MethodTrie>, m: Method) -> bool {
    exists|t: int| 0 <= t < tries.len() && #[trigger] tries[t].method == m
}

/// One trie for each method that some entry has.
fn build_tries(entries: &Vec<Entry>) -> (r: Vec<MethodTrie>)
    ensures
        forall|t: int| 0 <= t < r@.len() ==> #[trigger] r@[t].wf(view_entries(entries@)),
        forall|e: int| 0 <= e < entries@.len() ==> has_trie(r@, #[trigger] entries@[e].method),
{
    let mut maxlen: usize = 0;
    let mut i: usize = 0;
    while i < entries.len()
        invariant
            i <= entries@.len(),
            forall|e: int| 0 <= e < i ==> #[trigger] entries@[e].pattern@.len() <= maxlen,
        decreases entries@.len() - i,
    {
        if entries[i].pattern.len() > maxlen {
            maxlen = entries[i].pattern.len();
        }
        i = i + 1;
    }
    let mut tries: Vec<MethodTrie> = Vec::new();
    let mut e: usize = 0;
    while e < entries.len()
        invariant
            e <= entries@.len(),
            forall|x: int| 0 <= x < entries@.len() ==> #[trigger] entries@[x].pattern@.len() <= maxlen,
            forall|t: int| 0 <= t < tries@.len() ==> #[trigger] tries@[t].wf(view_entries(entries@)),
            forall|x: int| 0 <= x < e ==> has_trie(tries@, #[trigger] entries@[x].method),
        decreases entries@.len() - e,
    {
        let m = entries[e].method;
        let mut t: usize = 0;
        let mut found = false;
        while t < tries.len()
            invariant
                t <= tries@.len(),
                !found ==> forall|u: int| 0 <= u < t ==> tries@[u].method != m,
                found ==> t < tries@.len() && tries@[t as int].method == m,
            decreases tries@.len() - t,
        {
            if tries[t].method == m {
                found = true;
                break;
            }
            t = t + 1;
        }
        if !found {
            let ghost before = tries@;
            let trie = build_trie(entries, m, e, maxlen);
            tries.push(trie);
            assert(tries@[before.len() as int].method == m);
            assert forall|x: int| 0 <= x < e + 1 implies has_trie(tries@, #[trigger] entries@[x].method) by {
                if x < e {
                    let u = choose|u: int| 0 <= u < before.len() && #[trigger] before[u].method == entries@[x].method;
                    assert(tries@[u] == before[u]);
                } else {
                    assert(tries@[before.len() as int].method == entries@[x].method);
                }
            }
        } else {
            assert(tries@[t as int].method == entries@[e as int].method);
        }
        e = e + 1;
    }
    tries
}

/// Routes compiled for matching: the flat list of (method, pattern) entries,
/// and one trie per method built from them.
pub struct Router<H> {
    routes: Vec<Route<H>>,
    entries: Vec<Entry>,
    tries: Vec<MethodTrie>,
}

/// How a request is dispatched.
pub enum Dispatch {
    Found(RouteMatch),
    MethodNotAllowed,
    NotFound,
}

impl<H> Router<H> {
    pub closed spec fn routes_view(&self) -> Seq<Route<H>> {
        self.routes@
    }

    pub closed spec fn entries_view(&self) -> Seq<EntryView> {
        view_entries(self.entries@)
    }

    pub closed spec fn tries_ok(&self) -> bool {
        &&& forall|t: int| 0 <= t < self.tries@.len() ==> #[trigger] self.tries@[t].wf(self.entries_view())
        &&& forall|e: int| 0 <= e < self.entries@.len() ==> has_trie(self.tries@, #[trigger] self.entries@[e].method)
    }

    #[verifier::type_invariant]
    spec fn inv(&self) -> bool {
        self.wf()
    }

    /// The entries are those that the routes compile to, no two conflict,
    /// and each method's trie holds that method's entries.
    pub open spec fn wf(&self) -> bool {
        &&& self.entries_view() == expand(route_keys(self.routes_view()))
        &&& conflict_free(self.entries_view())
        &&& self.tries_ok()
    }

    pub open spec fn resolve_view(&self, m: Method, path: Seq<char>) -> Option<MatchView> {
        resolve_spec(self.entries_view(), m, path)
    }

    /// Compiles routes; a GET route also answers HEAD. Fails when two
    /// routes claim one method and one pattern shape.
    pub fn compile(routes: Vec<Route<H>>) -> (r: Result<Router<H>, ServerError>)
        ensures
            r is Ok <==> conflict_free(expand(route_keys(routes@))),
            r matches Ok(router) ==> router.wf() && router.routes_view() == routes@,
            r matches Err(ServerError::MountPathError { method, path }) ==> exists|i: int|
                0 <= i < routes@.len() && #[trigger] routes@[i].path@ == path@ && (routes@[i].method
                    == method || (routes@[i].method == Method::Get && method == Method::Head)),
    {
        let ghost keys = route_keys(routes@);
        let mut entries: Vec<Entry> = Vec::new();
        let mut i: usize = 0;
        while i < routes.len()
            invariant
                i <= routes@.len(),
                keys == route_keys(routes@),
                view_entries(entries@) == expand(keys.take(i as int)),
                conflict_free(view_entries(entries@)),
            decreases routes@.len() - i,
        {
            let ghost before = view_entries(entries@);
            assert(keys.take(i + 1).take(i as int) =~= keys.take(i as int));
            assert(keys[i as int] == (routes@[i as int].method, routes@[i as int].path@));
            let method = routes[i].method;
            let pattern = parse_pattern(routes[i].path.as_str());
            if conflicts_with_any(&entries, method, &pattern) {
                proof {
                    let k = choose|k: int|
                        0 <= k < entries@.len() && conflicting(
                            #[trigger] entries@[k]@,
                            EntryView { method, pattern: view_pattern(pattern@), route: 0 },
                        );
                    lemma_expand_prefix(keys, i + 1);
                    let full = expand(keys);
                    let n = before.len() as int;
                    assert(expand(keys.take(i + 1))[k] == before[k]);
                    assert(expand(keys.take(i + 1))[n] == route_entries(method, routes@[i as int].path@, i as int)[0]);
                    assert(!conflict_free(full)) by {
                        assert(full[k] == before[k]);
                        assert(conflicting(full[k], full[n]));
                    }
                }
                return Err(ServerError::MountPathError { method, path: routes[i].path.clone() });
            }
            entries.push(Entry { method, pattern, route: i });
            let ghost mid = view_entries(entries@);
            assert(mid =~= before.push(EntryView { method, pattern: pattern_of(routes@[i as int].path@), route: i as int }));
            if method == Method::Get {
                let head_pattern = parse_pattern(routes[i].path.as_str());
                if conflicts_with_any(&entries, Method::Head, &head_pattern) {
                    proof {
                        let k = choose|k: int|
                            0 <= k < entries@.len() && conflicting(
                                #[trigger] entries@[k]@,
                                EntryView { method: Method::Head, pattern: view_pattern(head_pattern@), route: 0 },
                            );
                        lemma_expand_prefix(keys, i + 1);
                        let full = expand(keys);
                        let n = before.len() as int;
                        assert(k != n);
                        assert(expand(keys.take(i + 1))[k] == mid[k]);
                        assert(!conflict_free(full)) by {
                            assert(full[k] == mid[k]);
                            assert(conflicting(full[k], full[n + 1 as int]));
                        }
                    }
                    return Err(ServerError::MountPathError { method: Method::Head, path: routes[i].path.clone() });
                }
                entries.push(Entry { method: Method::Head, pattern: head_pattern, route: i });
                assert(view_entries(entries@) =~= mid.push(EntryView { method: Method::Head, pattern: pattern_of(routes@[i as int].path@), route: i as int }));
            }
            i = i + 1;
            assert(view_entries(entries@) =~= expand(keys.take(i as int)));
        }
        assert(keys.take(i as int) =~= keys);
        let tries = build_tries(&entries);
        Ok(Router { routes, entries, tries })
    }

    /// 405 when the path is served under some other method, 404 when no
    /// route's pattern matches it.
    pub fn not_found_or_method_not_allowed(&self, path: &str) -> (r: StatusCode)
        ensures
            r.code() == if path_known(self.entries_view(), path@) {
                405u16
            } else {
                404u16
            },
    {
        proof {
            use_type_invariant(self);
        }
        let segs = split_segments(path);
        let ghost es = self.entries_view();
        let ghost vs = view_strings(segs@);
        let mut t: usize = 0;
        while t < self.tries.len()
            invariant
                t <= self.tries@.len(),
                es == self.entries_view(),
                vs == view_strings(segs@),
                vs == split_path(path@),
                self.tries_ok(),
                forall|j: int|
                    0 <= j < es.len() && (exists|u: int| 0 <= u < t && #[trigger] self.tries@[u].method == es[j].method)
                        ==> !#[trigger] pattern_matches(es[j].pattern, vs),
            decreases self.tries@.len() - t,
        {
            let trie = &self.tries[t];
            assert(trie.wf(es));
            match trie.find(&segs, Ghost(es)) {
                Some(b) => {
                    assert(pattern_matches(es[b as int].pattern, split_path(path@)));
                    return StatusCode::method_not_allowed();
                },
                None => {
                    assert forall|j: int|
                        0 <= j < es.len() && (exists|u: int| 0 <= u < t + 1 && #[trigger] self.tries@[u].method == es[j].method)
                            implies !#[trigger] pattern_matches(es[j].pattern, vs) by {
                        let u = choose|u: int| 0 <= u < t + 1 && #[trigger] self.tries@[u].method == es[j].method;
                        if u == t {
                            assert(entry_of(es, trie.method, j));
                        }
                    }
                },
            }
            t = t + 1;
        }
        assert forall|j: int| 0 <= j < es.len() implies !#[trigger] pattern_matches(es[j].pattern, split_path(path@)) by {
            assert(es[j] == self.entries@[j]@);
            assert(has_trie(self.tries@, self.entries@[j].method));
            let u = choose|u: int|
                0 <= u < self.tries@.len() && #[trigger] self.tries@[u].method == self.entries@[j].method;
            assert(self.tries@[u].method == es[j].method);
        }
        StatusCode::not_found()
    }

    /// Resolves a request, or says whether the path is served under another
    /// method.
    pub fn dispatch(&self, m: Method, path: &str) -> (r: Dispatch)
        ensures
            r matches Dispatch::Found(found) ==> found.route < self.routes_view().len(),
            match r {
                Dispatch::Found(found) => self.resolve_view(m, path@) == Some(found@),
                Dispatch::MethodNotAllowed => !method_matches(self.entries_view(), m, path@)
                    && path_known(self.entries_view(), path@),
                Dispatch::NotFound => !path_known(self.entries_view(), path@),
            },
    {
        match self.resolve(m, path) {
            Some(found) => Dispatch::Found(found),
            None => {
                let status = self.not_found_or_method_not_allowed(path);
                if status.as_u16() == 405 {
                    Dispatch::MethodNotAllowed
                } else {
                    Dispatch::NotFound
                }
            },
        }
    }

    /// The number of routes.
    pub fn len(&self) -> (r: usize)
        ensures
            r == self.routes_view().len(),
    {
        self.routes.len()
    }

    /// The route at index `i`.
    pub fn route(&self, i: usize) -> (r: &Route<H>)
        requires
            i < self.routes_view().len(),
        ensures
            *r == self.routes_view()[i as int],
    {
        &self.routes[i]
    }

    /// Resolves a method and a path to the route that serves them and the
    /// values of its captures.
    pub fn resolve(&self, m: Method, path: &str) -> (r: Option<RouteMatch>)
        ensures
            r is Some <==> method_matches(self.entries_view(), m, path@),
            r matches Some(found) ==> found.route < self.routes_view().len(),
            match r {
                Some(found) => self.resolve_view(m, path@) == Some(found@),
                None => self.resolve_view(m, path@) is None,
            },
    {
        proof {
            use_type_invariant(self);
        }
        let segs = split_segments(path);
        let ghost es = self.entries_view();
        let ghost vs = view_strings(segs@);
        let mut t: usize = 0;
        while t < self.tries.len()
            invariant
                t <= self.tries@.len(),
                forall|u: int| 0 <= u < t ==> self.tries@[u].method != m,
            ensures
                t < self.tries@.len() ==> self.tries@[t as int].method == m,
                t <= self.tries@.len(),
                forall|u: int| 0 <= u < t ==> self.tries@[u].method != m,
            decreases self.tries@.len() - t,
        {
            if self.tries[t].method == m {
                break;
            }
            t = t + 1;
        }
        if t == self.tries.len() {
            assert forall|j: int| 0 <= j < es.len() implies !#[trigger] entry_matches(es[j], m, vs) by {
                assert(es[j] == self.entries@[j]@);
                assert(has_trie(self.tries@, self.entries@[j].method));
                let u = choose|u: int|
                    0 <= u < self.tries@.len() && #[trigger] self.tries@[u].method == self.entries@[j].method;
            }
            assert(!exists|c: int| is_best(es, m, vs, c));
            return None;
        }
        let trie = &self.tries[t];
        assert(trie.wf(es));
        match trie.find(&segs, Ghost(es)) {
            None => {
                assert forall|j: int| 0 <= j < es.len() implies !#[trigger] entry_matches(es[j], m, vs) by {
                    assert(entry_of(es, m, j) ==> !pattern_matches(es[j].pattern, vs));
                }
                assert(!exists|c: int| is_best(es, m, vs, c));
                None
            },
            Some(b) => {
                assert forall|j: int|
                    0 <= j < es.len() && #[trigger] entry_matches(es[j], m, vs) implies !outranks(
                    es[j].pattern,
                    es[b as int].pattern,
                ) by {
                    assert(entry_of(es, m, j));
                }
                assert(is_best(es, m, vs, b as int));
                proof {
                    lemma_resolve_best(es, m, path@, b as int);
                }
                let e = &self.entries[b];
                assert(es[b as int] == e@);
                proof {
                    crate::laws::lemma_expand_sound(route_keys(self.routes_view()));
                }
                let params = capture_values(&e.pattern, &segs);
                Some(RouteMatch { route: e.route, params })
            },
        }
    }
}

} // verus!
