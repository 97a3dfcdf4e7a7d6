use vstd::prelude::*;
use crate::method::Method;
use crate::path::split_path;
use crate::pattern::{
    captures, is_literal, kinds, outranks, pattern_matches, pattern_of,
    segment_matches, SegmentView,
};
use crate::router::{
    entry_matches, expand, is_best, lemma_resolve_best, method_matches, path_known, route_keys,
    EntryView, MatchView, Router,
};

verus! {

/// Whether a route registered under `route_method` answers requests of
/// method `m`.
pub open spec fn serves(route_method: Method, m: Method) -> bool {
    route_method == m || (m == Method::Head && route_method == Method::Get)
}

/// Every entry comes from a route: its pattern, and a method that the
/// route serves.
pub proof fn lemma_expand_sound(s: Seq<(Method, Seq<char>)>)
    ensures
        forall|i: int|
            0 <= i < expand(s).len() ==> {
                let e = #[trigger] expand(s)[i];
                &&& 0 <= e.route < s.len()
                &&& e.pattern == pattern_of(s[e.route].1)
                &&& serves(s[e.route].0, e.method)
            },
    decreases s.len(),
{
    if s.len() > 0 {
        let k = s.len() - 1;
        lemma_expand_sound(s.take(k));
        let base = expand(s.take(k));
        assert forall|i: int| 0 <= i < expand(s).len() implies {
            let e = #[trigger] expand(s)[i];
            &&& 0 <= e.route < s.len()
            &&& e.pattern == pattern_of(s[e.route].1)
            &&& serves(s[e.route].0, e.method)
        } by {
            if i < base.len() {
                assert(expand(s)[i] == base[i]);
                assert(s.take(k)[base[i].route] == s[base[i].route]);
            }
        }
    }
}

/// Every route has its entry, and a GET route one for HEAD too.
pub proof fn lemma_expand_complete(s: Seq<(Method, Seq<char>)>, r: int)
    requires
        0 <= r < s.len(),
    ensures
        exists|i: int|
            0 <= i < expand(s).len() && #[trigger] expand(s)[i] == (EntryView {
                method: s[r].0,
                pattern: pattern_of(s[r].1),
                route: r,
            }),
        s[r].0 == Method::Get ==> exists|i: int|
            0 <= i < expand(s).len() && #[trigger] expand(s)[i] == (EntryView {
                method: Method::Head,
                pattern: pattern_of(s[r].1),
                route: r,
            }),
    decreases s.len(),
{
    let k = s.len() - 1;
    let base = expand(s.take(k));
    if r == k {
        assert(expand(s)[base.len() as int] == (EntryView {
            method: s[r].0,
            pattern: pattern_of(s[r].1),
            route: r,
        }));
        if s[r].0 == Method::Get {
            assert(expand(s)[base.len() + 1 as int] == (EntryView {
                method: Method::Head,
                pattern: pattern_of(s[r].1),
                route: r,
            }));
        }
    } else {
        lemma_expand_complete(s.take(k), r);
        assert(s.take(k)[r] == s[r]);
        let i = choose|i: int|
            0 <= i < base.len() && #[trigger] base[i] == (EntryView {
                method: s[r].0,
                pattern: pattern_of(s[r].1),
                route: r,
            });
        assert(expand(s)[i] == base[i]);
        if s[r].0 == Method::Get {
            let h = choose|i: int|
                0 <= i < base.len() && #[trigger] base[i] == (EntryView {
                    method: Method::Head,
                    pattern: pattern_of(s[r].1),
                    route: r,
                });
            assert(expand(s)[h] == base[h]);
        }
    }
}

pub open spec fn all_literal(p: Seq<SegmentView>) -> bool {
    forall|k: int| 0 <= k < p.len() ==> #[trigger] is_literal(p[k])
}

proof fn lemma_captures_all_literal(p: Seq<SegmentView>, segs: Seq<Seq<char>>)
    requires
        all_literal(p),
    ensures
        captures(p, segs) == Seq::<(Seq<char>, Seq<char>)>::empty(),
    decreases p.len(),
{
    if p.len() > 0 {
        let k = p.len() - 1;
        assert(is_literal(p[k]));
        lemma_captures_all_literal(p.take(k), segs);
    }
}

/// A path whose segments are exactly the literals of a route with no
/// capture resolves, under the route's method, to that route with no
/// parameters.
pub proof fn lemma_literal_route_resolves<H>(router: &Router<H>, r: int, path: Seq<char>)
    requires
        router.wf(),
        0 <= r < router.routes_view().len(),
        all_literal(pattern_of(router.routes_view()[r].path@)),
        pattern_matches(pattern_of(router.routes_view()[r].path@), split_path(path)),
    ensures
        router.resolve_view(router.routes_view()[r].method, path) == Some(
            MatchView { route: r, params: seq![] },
        ),
{
    let keys = route_keys(router.routes_view());
    let es = router.entries_view();
    let m = router.routes_view()[r].method;
    let segs = split_path(path);
    assert(keys[r] == (m, router.routes_view()[r].path@));
    lemma_expand_complete(keys, r);
    let i = choose|i: int|
        0 <= i < es.len() && #[trigger] es[i] == (EntryView {
            method: keys[r].0,
            pattern: pattern_of(keys[r].1),
            route: r,
        });
    let p = es[i].pattern;
    assert forall|j: int|
        0 <= j < es.len() && #[trigger] entry_matches(es[j], m, segs) implies !outranks(
        es[j].pattern,
        p,
    ) by {
        if outranks(es[j].pattern, p) {
            let k = choose|k: int|
                0 <= k < kinds(es[j].pattern).len() && k < kinds(p).len() && #[trigger] kinds(
                    es[j].pattern,
                )[k] && !kinds(p)[k] && (forall|x: int|
                    0 <= x < k ==> kinds(es[j].pattern)[x] == kinds(p)[x]);
            assert(is_literal(p[k]));
        }
    }
    assert(is_best(es, m, segs, i));
    lemma_resolve_best(es, m, path, i);
    lemma_captures_all_literal(p, segs);
}

/// When no route registered under HEAD matches `segs`, a best GET match has a
/// HEAD twin that is a best HEAD match, and the other way round.
proof fn lemma_head_get_twin<H>(router: &Router<H>, segs: Seq<Seq<char>>, from: Method, to: Method, i: int) -> (t: int)
    requires
        router.wf(),
        forall|r: int|
            0 <= r < router.routes_view().len() && router.routes_view()[r].method == Method::Head
                ==> !pattern_matches(#[trigger] pattern_of(router.routes_view()[r].path@), segs),
        (from == Method::Get && to == Method::Head) || (from == Method::Head && to == Method::Get),
        is_best(router.entries_view(), from, segs, i),
    ensures
        is_best(router.entries_view(), to, segs, t),
        router.entries_view()[t].route == router.entries_view()[i].route,
        router.entries_view()[t].pattern == router.entries_view()[i].pattern,
{
    let keys = route_keys(router.routes_view());
    let es = router.entries_view();
    lemma_expand_sound(keys);
    let r = es[i].route;
    assert(keys[r] == (router.routes_view()[r].method, router.routes_view()[r].path@));
    assert(entry_matches(es[i], from, segs));
    assert(keys[r].0 == Method::Get);
    lemma_expand_complete(keys, r);
    let t = if to == Method::Head {
        choose|x: int|
            0 <= x < es.len() && #[trigger] es[x] == (EntryView {
                method: Method::Head,
                pattern: pattern_of(keys[r].1),
                route: r,
            })
    } else {
        choose|x: int|
            0 <= x < es.len() && #[trigger] es[x] == (EntryView {
                method: keys[r].0,
                pattern: pattern_of(keys[r].1),
                route: r,
            })
    };
    assert forall|j: int|
        0 <= j < es.len() && #[trigger] entry_matches(es[j], to, segs) implies !outranks(
        es[j].pattern,
        es[t].pattern,
    ) by {
        let rj = es[j].route;
        assert(keys[rj] == (router.routes_view()[rj].method, router.routes_view()[rj].path@));
        assert(keys[rj].0 == Method::Get);
        lemma_expand_complete(keys, rj);
        let g = if from == Method::Head {
            choose|x: int|
                0 <= x < es.len() && #[trigger] es[x] == (EntryView {
                    method: Method::Head,
                    pattern: pattern_of(keys[rj].1),
                    route: rj,
                })
        } else {
            choose|x: int|
                0 <= x < es.len() && #[trigger] es[x] == (EntryView {
                    method: keys[rj].0,
                    pattern: pattern_of(keys[rj].1),
                    route: rj,
                })
        };
        assert(entry_matches(es[g], from, segs));
    }
    t
}

/// When no route registered under HEAD matches a path, GET routes answer HEAD
/// for it: HEAD resolves the path to the same route and parameters as GET.
pub proof fn lemma_head_follows_get<H>(router: &Router<H>, path: Seq<char>)
    requires
        router.wf(),
        forall|r: int|
            0 <= r < router.routes_view().len() && router.routes_view()[r].method == Method::Head
                ==> !pattern_matches(#[trigger] pattern_of(router.routes_view()[r].path@), split_path(path)),
    ensures
        router.resolve_view(Method::Head, path) == router.resolve_view(Method::Get, path),
{
    let es = router.entries_view();
    let segs = split_path(path);
    if exists|i: int| is_best(es, Method::Get, segs, i) {
        let i = choose|i: int| is_best(es, Method::Get, segs, i);
        let t = lemma_head_get_twin(router, segs, Method::Get, Method::Head, i);
        lemma_resolve_best(es, Method::Get, path, i);
        lemma_resolve_best(es, Method::Head, path, t);
    } else if exists|i: int| is_best(es, Method::Head, segs, i) {
        let i = choose|i: int| is_best(es, Method::Head, segs, i);
        let t = lemma_head_get_twin(router, segs, Method::Head, Method::Get, i);
    }
}

/// A path that no route's pattern matches is unknown to the router
/// (answered 404). A path that some route's pattern matches, requested with
/// a method that no such route serves, is known but has no entry for the
/// method (answered 405).
pub proof fn lemma_unmatched_requests<H>(router: &Router<H>, m: Method, path: Seq<char>)
    requires
        router.wf(),
    ensures
        (forall|r: int|
            0 <= r < router.routes_view().len() ==> !pattern_matches(
                #[trigger] pattern_of(router.routes_view()[r].path@),
                split_path(path),
            )) ==> !path_known(router.entries_view(), path),
        ((exists|r: int|
            0 <= r < router.routes_view().len() && pattern_matches(
                #[trigger] pattern_of(router.routes_view()[r].path@),
                split_path(path),
            )) && (forall|r: int|
            0 <= r < router.routes_view().len() && serves(router.routes_view()[r].method, m)
                ==> !pattern_matches(
                #[trigger] pattern_of(router.routes_view()[r].path@),
                split_path(path),
            ))) ==> path_known(router.entries_view(), path) && !method_matches(
            router.entries_view(),
            m,
            path,
        ),
{
    let keys = route_keys(router.routes_view());
    let es = router.entries_view();
    let segs = split_path(path);
    lemma_expand_sound(keys);
    assert forall|i: int| 0 <= i < es.len() implies es[i].pattern == pattern_of(
        router.routes_view()[es[i].route].path@,
    ) && serves(router.routes_view()[es[i].route].method, es[i].method) by {
        assert(keys[es[i].route] == (
            router.routes_view()[es[i].route].method,
            router.routes_view()[es[i].route].path@,
        ));
    }
    if exists|r: int|
        0 <= r < router.routes_view().len() && pattern_matches(
            #[trigger] pattern_of(router.routes_view()[r].path@),
            segs,
        ) {
        let r = choose|r: int|
            0 <= r < router.routes_view().len() && pattern_matches(
                #[trigger] pattern_of(router.routes_view()[r].path@),
                segs,
            );
        assert(keys[r] == (router.routes_view()[r].method, router.routes_view()[r].path@));
        lemma_expand_complete(keys, r);
        let i = choose|i: int|
            0 <= i < es.len() && #[trigger] es[i] == (EntryView {
                method: keys[r].0,
                pattern: pattern_of(keys[r].1),
                route: r,
            });
        assert(pattern_matches(es[i].pattern, segs));
    }
}

/// The names of the captures of `p`, left to right.
pub open spec fn capture_names(p: Seq<SegmentView>) -> Seq<Seq<char>>
    decreases p.len(),
{
    if p.len() == 0 {
        seq![]
    } else {
        let k = p.len() - 1;
        match p[k] {
            SegmentView::Capture(n) => capture_names(p.take(k)).push(n),
            SegmentView::Literal(_) => capture_names(p.take(k)),
        }
    }
}

/// The segments of `p` with `values` put in its capture places, in order.
pub open spec fn substitute(p: Seq<SegmentView>, values: Seq<Seq<char>>) -> Seq<Seq<char>>
    decreases p.len(),
{
    if p.len() == 0 {
        seq![]
    } else {
        let k = p.len() - 1;
        match p[k] {
            SegmentView::Capture(_) => substitute(p.take(k), values.drop_last()).push(values.last()),
            SegmentView::Literal(l) => substitute(p.take(k), values).push(l),
        }
    }
}

proof fn lemma_captures_prefix(p: Seq<SegmentView>, a: Seq<Seq<char>>, b: Seq<Seq<char>>)
    requires
        forall|i: int| 0 <= i < p.len() ==> a[i] == b[i],
    ensures
        captures(p, a) == captures(p, b),
    decreases p.len(),
{
    if p.len() > 0 {
        let k = p.len() - 1;
        lemma_captures_prefix(p.take(k), a, b);
    }
}

proof fn lemma_substitute(p: Seq<SegmentView>, values: Seq<Seq<char>>)
    requires
        values.len() == capture_names(p).len(),
    ensures
        substitute(p, values).len() == p.len(),
        pattern_matches(p, substitute(p, values)),
        captures(p, substitute(p, values)) == Seq::new(
            values.len(),
            |i: int| (capture_names(p)[i], values[i]),
        ),
    decreases p.len(),
{
    if p.len() > 0 {
        let k = p.len() - 1;
        let front = p.take(k);
        let vals = if p[k] is Capture {
            values.drop_last()
        } else {
            values
        };
        lemma_substitute(front, vals);
        let segs = substitute(p, values);
        assert(segs.take(k) =~= substitute(front, vals));
        lemma_captures_prefix(front, segs, substitute(front, vals));
        assert forall|i: int| 0 <= i < p.len() implies #[trigger] segment_matches(p[i], segs[i]) by {
            if i < k {
                assert(front[i] == p[i]);
                assert(segment_matches(front[i], substitute(front, vals)[i]));
            }
        }
        assert(captures(p, segs) =~= Seq::new(
            values.len(),
            |i: int| (capture_names(p)[i], values[i]),
        ));
    }
}

/// For a route with captures named c1..cN, a path whose segments are its
/// pattern with values v1..vN put in the capture places, requested with a
/// method the route serves, resolves to that route with the parameters
/// (c1, v1)..(cN, vN), left to right; unless another route for the method
/// that matches the path outranks it.
pub proof fn lemma_captured_values<H>(
    router: &Router<H>,
    m: Method,
    path: Seq<char>,
    r: int,
    values: Seq<Seq<char>>,
)
    requires
        router.wf(),
        0 <= r < router.routes_view().len(),
        serves(router.routes_view()[r].method, m),
        values.len() == capture_names(pattern_of(router.routes_view()[r].path@)).len(),
        split_path(path) == substitute(pattern_of(router.routes_view()[r].path@), values),
        forall|q: int|
            0 <= q < router.routes_view().len() && serves(router.routes_view()[q].method, m)
                && pattern_matches(#[trigger] pattern_of(router.routes_view()[q].path@), split_path(path))
                ==> !outranks(
                pattern_of(router.routes_view()[q].path@),
                pattern_of(router.routes_view()[r].path@),
            ),
    ensures
        router.resolve_view(m, path) == Some(
            MatchView {
                route: r,
                params: Seq::new(
                    values.len(),
                    |i: int| (capture_names(pattern_of(router.routes_view()[r].path@))[i], values[i]),
                ),
            },
        ),
{
    let keys = route_keys(router.routes_view());
    let es = router.entries_view();
    let segs = split_path(path);
    let pr = pattern_of(router.routes_view()[r].path@);
    lemma_expand_sound(keys);
    lemma_expand_complete(keys, r);
    assert(keys[r] == (router.routes_view()[r].method, router.routes_view()[r].path@));
    lemma_substitute(pr, values);
    let i = if keys[r].0 == m {
        choose|x: int|
            0 <= x < es.len() && #[trigger] es[x] == (EntryView {
                method: keys[r].0,
                pattern: pattern_of(keys[r].1),
                route: r,
            })
    } else {
        choose|x: int|
            0 <= x < es.len() && #[trigger] es[x] == (EntryView {
                method: Method::Head,
                pattern: pattern_of(keys[r].1),
                route: r,
            })
    };
    assert(entry_matches(es[i], m, segs));
    assert forall|j: int|
        0 <= j < es.len() && #[trigger] entry_matches(es[j], m, segs) implies !outranks(
        es[j].pattern,
        es[i].pattern,
    ) by {
        let q = es[j].route;
        assert(keys[q] == (router.routes_view()[q].method, router.routes_view()[q].path@));
        assert(pattern_matches(pattern_of(router.routes_view()[q].path@), segs));
    }
    assert(is_best(es, m, segs, i));
    lemma_resolve_best(es, m, path, i);
}

/// Of two routes under one method whose patterns both match a path, the one
/// that has a literal where the other first has a capture wins: resolving
/// never returns the other.
pub proof fn lemma_literal_beats_capture<H>(router: &Router<H>, a: int, b: int, path: Seq<char>)
    requires
        router.wf(),
        0 <= a < router.routes_view().len(),
        0 <= b < router.routes_view().len(),
        router.routes_view()[a].method == router.routes_view()[b].method,
        pattern_matches(pattern_of(router.routes_view()[a].path@), split_path(path)),
        outranks(
            pattern_of(router.routes_view()[a].path@),
            pattern_of(router.routes_view()[b].path@),
        ),
    ensures
        router.resolve_view(router.routes_view()[a].method, path) matches Some(f) && f.route != b,
{
    let keys = route_keys(router.routes_view());
    let es = router.entries_view();
    let m = router.routes_view()[a].method;
    let segs = split_path(path);
    lemma_expand_sound(keys);
    assert(keys[a] == (m, router.routes_view()[a].path@));
    assert(keys[b] == (m, router.routes_view()[b].path@));
    lemma_expand_complete(keys, a);
    let i = choose|i: int|
        0 <= i < es.len() && #[trigger] es[i] == (EntryView {
            method: keys[a].0,
            pattern: pattern_of(keys[a].1),
            route: a,
        });
    assert(entry_matches(es[i], m, segs));
    assert(method_matches(es, m, path));
    let f = router.resolve_view(m, path);
    if !(exists|c: int| is_best(es, m, segs, c)) {
        crate::router::lemma_best_exists(es, m, segs, i);
    }
    let c = choose|c: int| is_best(es, m, segs, c);
    if es[c].route == b {
        assert(es[c].pattern == pattern_of(keys[b].1));
        assert(!outranks(es[i].pattern, es[c].pattern));
    }
}

/// Resolving is idempotent: two resolutions of one method and path against
/// one compiled router give the same match.
pub proof fn lemma_resolve_idempotent<H>(
    router: &Router<H>,
    m: Method,
    path: Seq<char>,
    first: Option<MatchView>,
    second: Option<MatchView>,
)
    requires
        first == router.resolve_view(m, path),
        second == router.resolve_view(m, path),
    ensures
        first == second,
{
}

} // verus!
