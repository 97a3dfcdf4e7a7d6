use vstd::prelude::*;
use crate::method::Method;
use crate::pattern::{
    kinds, lex_ahead, outranks, pattern_matches, segment_matches, view_pattern, view_strings,
    Segment, SegmentView,
};
use crate::router::{lemma_lex_irreflexive, lemma_lex_transitive, Entry, EntryView};

verus! {

/// A segment with its capture name dropped: the literal text, or `None` for
/// a capture.
pub open spec fn shape_of(s: SegmentView) -> Option<Seq<char>> {
    match s {
        SegmentView::Literal(l) => Some(l),
        SegmentView::Capture(_) => None,
    }
}

pub open spec fn shape(p: Seq<SegmentView>) -> Seq<Option<Seq<char>>> {
    p.map_values(|s: SegmentView| shape_of(s))
}

/// `sh` starts with `p`.
pub open spec fn extends(sh: Seq<Option<Seq<char>>>, p: Seq<Option<Seq<char>>>) -> bool {
    p.len() <= sh.len() && sh.take(p.len() as int) == p
}

/// A trie node: literal children by text, a capture child, and the entry
/// whose pattern ends here. `prefix` is the path from the root.
pub struct Node {
    pub literals: Vec<(String, usize)>,
    pub capture: Option<usize>,
    pub terminal: Option<usize>,
    pub prefix: Ghost<Seq<Option<Seq<char>>>>,
}

pub open spec fn entry_of(es: Seq<EntryView>, m: Method, e: int) -> bool {
    0 <= e < es.len() && es[e].method == m
}

/// Node `n` agrees with its prefix: its terminal and children are right, and
/// every entry of method `m` below its prefix has its child.
pub open spec fn node_ok(ns: Seq<Node>, es: Seq<EntryView>, m: Method, n: int) -> bool {
    let node = ns[n];
    let p = node.prefix@;
    &&& node.terminal matches Some(e) ==> entry_of(es, m, e as int) && shape(es[e as int].pattern) == p
    &&& forall|e: int|
        entry_of(es, m, e) && #[trigger] shape(es[e].pattern) == p ==> node.terminal is Some
    &&& forall|k: int|
        0 <= k < node.literals@.len() ==> {
            let c = #[trigger] node.literals@[k].1;
            &&& 0 <= c < n
            &&& ns[c as int].prefix@ == p.push(Some(node.literals@[k].0@))
        }
    &&& node.capture matches Some(c) ==> 0 <= c < n && ns[c as int].prefix@ == p.push(None)
    &&& forall|e: int|
        entry_of(es, m, e) && #[trigger] extends(shape(es[e].pattern), p) && shape(
            es[e].pattern,
        ).len() > p.len() ==> match shape(es[e].pattern)[p.len() as int] {
            Some(t) => exists|k: int|
                0 <= k < node.literals@.len() && #[trigger] node.literals@[k].0@ == t,
            None => node.capture is Some,
        }
}

pub open spec fn nodes_ok(ns: Seq<Node>, es: Seq<EntryView>, m: Method) -> bool {
    forall|n: int| 0 <= n < ns.len() ==> #[trigger] node_ok(ns, es, m, n)
}

/// The trie of one method.
pub struct MethodTrie {
    pub method: Method,
    pub nodes: Vec<Node>,
    pub root: usize,
}

pub open spec fn view_entries(v: Seq<Entry>) -> Seq<EntryView> {
    v.map_values(|e: Entry| e@)
}

impl MethodTrie {
    pub open spec fn wf(&self, es: Seq<EntryView>) -> bool {
        &&& nodes_ok(self.nodes@, es, self.method)
        &&& self.root < self.nodes@.len()
        &&& self.nodes@[self.root as int].prefix@ == Seq::<Option<Seq<char>>>::empty()
    }
}

/// Every literal of `p` is the segment at its place in `segs`.
pub open spec fn fits(p: Seq<Option<Seq<char>>>, segs: Seq<Seq<char>>) -> bool {
    &&& p.len() <= segs.len()
    &&& forall|i: int| 0 <= i < p.len() ==> (#[trigger] p[i] is None || p[i] == Some(segs[i]))
}

/// Entry `j` is of method `m`, lies below prefix `p`, and matches `segs`.
pub open spec fn candidate(es: Seq<EntryView>, m: Method, p: Seq<Option<Seq<char>>>, segs: Seq<Seq<char>>, j: int) -> bool {
    &&& entry_of(es, m, j)
    &&& extends(shape(es[j].pattern), p)
    &&& pattern_matches(es[j].pattern, segs)
}

proof fn lemma_matches_by_shape(pat: Seq<SegmentView>, segs: Seq<Seq<char>>)
    ensures
        pattern_matches(pat, segs) <==> (shape(pat).len() == segs.len() && fits(shape(pat), segs)),
{
    if pattern_matches(pat, segs) {
        assert forall|i: int| 0 <= i < shape(pat).len() implies (#[trigger] shape(pat)[i] is None
            || shape(pat)[i] == Some(segs[i])) by {
            assert(segment_matches(pat[i], segs[i]));
        }
    }
    if shape(pat).len() == segs.len() && fits(shape(pat), segs) {
        assert forall|i: int| 0 <= i < pat.len() implies #[trigger] segment_matches(pat[i], segs[i]) by {
            assert(shape(pat)[i] is None || shape(pat)[i] == Some(segs[i]));
        }
    }
}

proof fn lemma_kinds_by_shape(a: Seq<SegmentView>, i: int)
    requires
        0 <= i < a.len(),
    ensures
        kinds(a)[i] == (shape(a)[i] is Some),
{
}

proof fn lemma_same_shape_unranked(a: Seq<SegmentView>, b: Seq<SegmentView>)
    requires
        shape(a) == shape(b),
    ensures
        !outranks(a, b),
{
    assert(a.len() == shape(a).len());
    assert(b.len() == shape(b).len());
    assert forall|i: int| 0 <= i < a.len() implies kinds(a)[i] == kinds(b)[i] by {
        lemma_kinds_by_shape(a, i);
        lemma_kinds_by_shape(b, i);
    }
    assert(kinds(a) =~= kinds(b));
    lemma_lex_irreflexive(kinds(a));
}

/// Below a common prefix of length `d`, a literal at `d` outranks a capture.
proof fn lemma_literal_first(a: Seq<SegmentView>, b: Seq<SegmentView>, p: Seq<Option<Seq<char>>>)
    requires
        extends(shape(a), p),
        extends(shape(b), p),
        p.len() < a.len(),
        p.len() < b.len(),
        shape(a)[p.len() as int] is Some,
        shape(b)[p.len() as int] is None,
    ensures
        outranks(a, b),
        !outranks(b, a),
{
    let d = p.len() as int;
    assert forall|j: int| 0 <= j < d implies kinds(a)[j] == kinds(b)[j] by {
        lemma_kinds_by_shape(a, j);
        lemma_kinds_by_shape(b, j);
        assert(shape(a).take(d)[j] == shape(b).take(d)[j]);
    }
    lemma_kinds_by_shape(a, d);
    lemma_kinds_by_shape(b, d);
    assert(kinds(a)[d] && !kinds(b)[d]);
    assert(lex_ahead(kinds(a), kinds(b)));
    if outranks(b, a) {
        lemma_lex_transitive(kinds(a), kinds(b), kinds(a));
        lemma_lex_irreflexive(kinds(a));
    }
}

/// Searches below node `n`, whose prefix has length `depth`, for the best
/// entry matching `segs`: a literal child first, then the capture child.
fn search(
    nodes: &Vec<Node>,
    n: usize,
    segs: &Vec<String>,
    depth: usize,
    Ghost(es): Ghost<Seq<EntryView>>,
    Ghost(m): Ghost<Method>,
) -> (r: Option<usize>)
    requires
        nodes_ok(nodes@, es, m),
        n < nodes@.len(),
        nodes@[n as int].prefix@.len() == depth,
        fits(nodes@[n as int].prefix@, view_strings(segs@)),
    ensures
        match r {
            Some(e) => candidate(es, m, nodes@[n as int].prefix@, view_strings(segs@), e as int)
                && forall|j: int|
                #[trigger] candidate(es, m, nodes@[n as int].prefix@, view_strings(segs@), j) ==> !outranks(
                    es[j].pattern,
                    es[e as int].pattern,
                ),
            None => forall|j: int| !#[trigger] candidate(es, m, nodes@[n as int].prefix@, view_strings(segs@), j),
        },
    decreases segs@.len() - depth,
{
    let ghost vs = view_strings(segs@);
    let ghost p = nodes@[n as int].prefix@;
    assert(node_ok(nodes@, es, m, n as int));
    let node = &nodes[n];
    if depth == segs.len() {
        assert forall|j: int| #[trigger] candidate(es, m, p, vs, j) implies shape(es[j].pattern) == p by {
            lemma_matches_by_shape(es[j].pattern, vs);
            assert(shape(es[j].pattern).take(p.len() as int) =~= shape(es[j].pattern));
        }
        match node.terminal {
            Some(e) => {
                proof {
                    lemma_matches_by_shape(es[e as int].pattern, vs);
                }
                assert(shape(es[e as int].pattern).take(p.len() as int) =~= shape(es[e as int].pattern));
                assert forall|j: int| #[trigger] candidate(es, m, p, vs, j) implies !outranks(
                    es[j].pattern,
                    es[e as int].pattern,
                ) by {
                    lemma_same_shape_unranked(es[j].pattern, es[e as int].pattern);
                }
                return Some(e);
            },
            None => {
                return None;
            },
        }
    }
    let ghost d = depth as int;
    assert(vs[d] == segs@[d]@);
    let seg = &segs[depth];
    let mut k: usize = 0;
    let mut child: Option<usize> = None;
    while k < node.literals.len()
        invariant_except_break
            child is None,
        invariant
            k <= node.literals@.len(),
            forall|i: int| 0 <= i < k ==> node.literals@[i].0@ != seg@,
        ensures
            child matches Some(c) ==> k < node.literals@.len() && node.literals@[k as int].1 == c
                && node.literals@[k as int].0@ == seg@,
            child is None ==> forall|i: int|
                0 <= i < node.literals@.len() ==> node.literals@[i].0@ != seg@,
        decreases node.literals@.len() - k,
    {
        if node.literals[k].0 == *seg {
            child = Some(node.literals[k].1);
            break;
        }
        k = k + 1;
    }
    let ghost lit_p = p.push(Some(vs[d]));
    let ghost cap_p = p.push(None);
    assert(lit_p.take(d) =~= p);
    assert(cap_p.take(d) =~= p);
    // Candidates below `p` split by their segment at `depth`.
    assert forall|j: int| #[trigger] candidate(es, m, p, vs, j) implies {
        ||| (shape(es[j].pattern)[d] == Some(vs[d]) && candidate(es, m, lit_p, vs, j))
        ||| (shape(es[j].pattern)[d] is None && candidate(es, m, cap_p, vs, j))
    } by {
        lemma_matches_by_shape(es[j].pattern, vs);
        let sh = shape(es[j].pattern);
        assert(sh.take(d + 1) =~= sh.take(d).push(sh[d]));
        assert(sh[d] is None || sh[d] == Some(vs[d]));
    }
    let mut lit_result: Option<usize> = None;
    match child {
        Some(c) => {
            assert(node.literals@[k as int].1 == c);
            assert(nodes@[c as int].prefix@ == lit_p);
            lit_result = search(nodes, c, segs, depth + 1, Ghost(es), Ghost(m));
        },
        None => {
            assert forall|j: int| !#[trigger] candidate(es, m, lit_p, vs, j) by {
                if candidate(es, m, lit_p, vs, j) {
                    let sh = shape(es[j].pattern);
                    assert(sh.take(d + 1)[d] == lit_p[d]);
                    assert(sh.take(d) =~= sh.take(d + 1).take(d));
                    assert(extends(sh, p));
                    let kk = choose|kk: int|
                        0 <= kk < node.literals@.len() && #[trigger] node.literals@[kk].0@ == vs[d];
                }
            }
        },
    }
    if let Some(e) = lit_result {
        assert forall|j: int| #[trigger] candidate(es, m, p, vs, j) implies !outranks(
            es[j].pattern,
            es[e as int].pattern,
        ) by {
            if shape(es[j].pattern)[d] is None {
                let she = shape(es[e as int].pattern);
                assert(she.take(d + 1)[d] == lit_p[d]);
                assert(she.take(d) =~= she.take(d + 1).take(d));
                lemma_literal_first(es[e as int].pattern, es[j].pattern, p);
            } else {
                assert(candidate(es, m, lit_p, vs, j));
            }
        }
        assert(shape(es[e as int].pattern).take(d) =~= shape(es[e as int].pattern).take(d + 1).take(d));
        return Some(e);
    }
    match node.capture {
        Some(c) => {
            let r = search(nodes, c, segs, depth + 1, Ghost(es), Ghost(m));
            match r {
                Some(e) => {
                    assert(shape(es[e as int].pattern).take(d) =~= shape(es[e as int].pattern).take(d + 1).take(d));
                },
                None => {},
            }
            r
        },
        None => {
            assert forall|j: int| !#[trigger] candidate(es, m, cap_p, vs, j) by {
                if candidate(es, m, cap_p, vs, j) {
                    let sh = shape(es[j].pattern);
                    assert(sh.take(d + 1)[d] == cap_p[d]);
                    assert(sh.take(d) =~= sh.take(d + 1).take(d));
                    assert(extends(sh, p));
                }
            }
            None
        },
    }
}

/// Whether `a` has at least `depth` segments and starts like `b` does, up to
/// capture names.
fn shares_prefix(a: &Vec<Segment>, b: &Vec<Segment>, depth: usize) -> (r: bool)
    requires
        depth <= b@.len(),
    ensures
        r == (depth <= a@.len() && shape(view_pattern(a@)).take(depth as int) == shape(
            view_pattern(b@),
        ).take(depth as int)),
{
    let ghost sa = shape(view_pattern(a@));
    let ghost sb = shape(view_pattern(b@));
    if a.len() < depth {
        return false;
    }
    let mut i: usize = 0;
    while i < depth
        invariant
            i <= depth,
            depth <= a@.len(),
            depth <= b@.len(),
            sa == shape(view_pattern(a@)),
            sb == shape(view_pattern(b@)),
            forall|j: int| 0 <= j < i ==> sa[j] == sb[j],
        decreases depth - i,
    {
        assert(sa[i as int] == shape_of(a@[i as int]@));
        assert(sb[i as int] == shape_of(b@[i as int]@));
        let same = match (&a[i], &b[i]) {
            (Segment::Literal(x), Segment::Literal(y)) => *x == *y,
            (Segment::Capture(_), Segment::Capture(_)) => true,
            _ => false,
        };
        if !same {
            assert(sa.take(depth as int)[i as int] != sb.take(depth as int)[i as int]);
            return false;
        }
        i = i + 1;
    }
    assert(sa.take(depth as int) =~= sb.take(depth as int));
    true
}

/// Whether some literal child is labelled `t`.
fn has_literal(literals: &Vec<(String, usize)>, t: &String) -> (r: bool)
    ensures
        r == exists|k: int| 0 <= k < literals@.len() && #[trigger] literals@[k].0@ == t@,
{
    let mut k: usize = 0;
    while k < literals.len()
        invariant
            k <= literals@.len(),
            forall|i: int| 0 <= i < k ==> literals@[i].0@ != t@,
        decreases literals@.len() - k,
    {
        if literals[k].0 == *t {
            return true;
        }
        k = k + 1;
    }
    false
}

/// Nodes only get appended.
pub open spec fn grows(before: Seq<Node>, after: Seq<Node>) -> bool {
    before.len() <= after.len() && forall|i: int| 0 <= i < before.len() ==> after[i] == before[i]
}

proof fn lemma_push_keeps_ok(ns: Seq<Node>, node: Node, es: Seq<EntryView>, m: Method)
    requires
        nodes_ok(ns, es, m),
        node_ok(ns.push(node), es, m, ns.len() as int),
    ensures
        nodes_ok(ns.push(node), es, m),
{
    let after = ns.push(node);
    assert forall|n: int| 0 <= n < after.len() implies #[trigger] node_ok(after, es, m, n) by {
        if n < ns.len() {
            assert(node_ok(ns, es, m, n));
            assert(after[n] == ns[n]);
            let nd = ns[n];
            assert forall|k: int| 0 <= k < nd.literals@.len() implies {
                let c = #[trigger] nd.literals@[k].1;
                &&& 0 <= c < n
                &&& after[c as int].prefix@ == nd.prefix@.push(Some(nd.literals@[k].0@))
            } by {
                assert(after[nd.literals@[k].1 as int] == ns[nd.literals@[k].1 as int]);
            }
            if let Some(c) = nd.capture {
                assert(after[c as int] == ns[c as int]);
            }
        }
    }
}

/// Builds the subtrie of method `m` below the prefix that entry `w` has at
/// `depth`, children first, and returns the index of its root.
fn build_node(
    entries: &Vec<Entry>,
    m: Method,
    w: usize,
    depth: usize,
    maxlen: usize,
    nodes: &mut Vec<Node>,
) -> (idx: usize)
    requires
        w < entries@.len(),
        depth <= entries@[w as int].pattern@.len(),
        forall|e: int| 0 <= e < entries@.len() ==> #[trigger] entries@[e].pattern@.len() <= maxlen,
        nodes_ok(old(nodes)@, view_entries(entries@), m),
    ensures
        nodes_ok(final(nodes)@, view_entries(entries@), m),
        grows(old(nodes)@, final(nodes)@),
        idx < final(nodes)@.len(),
        final(nodes)@[idx as int].prefix@ == shape(view_pattern(entries@[w as int].pattern@)).take(
            depth as int,
        ),
    decreases maxlen - depth,
{
    let ghost es = view_entries(entries@);
    let ghost p = shape(view_pattern(entries@[w as int].pattern@)).take(depth as int);
    let ghost start = nodes@;
    assert(es[w as int] == entries@[w as int]@);
    let mut literals: Vec<(String, usize)> = Vec::new();
    let mut capture: Option<usize> = None;
    let mut terminal: Option<usize> = None;
    let mut e: usize = 0;
    while e < entries.len()
        invariant
            w < entries@.len(),
            es == view_entries(entries@),
            p == shape(view_pattern(entries@[w as int].pattern@)).take(depth as int),
            p.len() == depth,
            depth <= entries@[w as int].pattern@.len(),
            forall|x: int| 0 <= x < entries@.len() ==> #[trigger] entries@[x].pattern@.len() <= maxlen,
            e <= entries@.len(),
            nodes_ok(nodes@, es, m),
            grows(start, nodes@),
            forall|k: int|
                0 <= k < literals@.len() ==> {
                    let c = #[trigger] literals@[k].1;
                    &&& c < nodes@.len()
                    &&& nodes@[c as int].prefix@ == p.push(Some(literals@[k].0@))
                },
            capture matches Some(c) ==> c < nodes@.len() && nodes@[c as int].prefix@ == p.push(None),
            terminal matches Some(t) ==> entry_of(es, m, t as int) && shape(es[t as int].pattern) == p,
            forall|x: int|
                0 <= x < e && entry_of(es, m, x) && #[trigger] shape(es[x].pattern) == p
                    ==> terminal is Some,
            forall|x: int|
                0 <= x < e && entry_of(es, m, x) && #[trigger] extends(shape(es[x].pattern), p)
                    && shape(es[x].pattern).len() > p.len() ==> match shape(es[x].pattern)[p.len() as int] {
                    Some(t) => exists|k: int|
                        0 <= k < literals@.len() && #[trigger] literals@[k].0@ == t,
                    None => capture is Some,
                },
        decreases entries@.len() - e,
    {
        let ghost before_lits = literals@;
        let ghost before_nodes = nodes@;
        assert(es[e as int] == entries@[e as int]@);
        let ghost se = shape(es[e as int].pattern);
        if entries[e].method == m && shares_prefix(&entries[e].pattern, &entries[w].pattern, depth) {
            assert(extends(se, p));
            if entries[e].pattern.len() == depth {
                assert(se.take(depth as int) =~= se);
                terminal = Some(e);
            } else {
                assert(se[depth as int] == shape_of(entries@[e as int].pattern@[depth as int]@));
                assert(se.take(depth + 1) =~= p.push(se[depth as int]));
                match &entries[e].pattern[depth] {
                    Segment::Literal(t) => {
                        if !has_literal(&literals, t) {
                            let c = build_node(entries, m, e, depth + 1, maxlen, nodes);
                            literals.push((t.clone(), c));
                            assert(literals@[literals@.len() - 1].0@ == t@);
                        }
                    },
                    Segment::Capture(_) => {
                        if capture.is_none() {
                            let c = build_node(entries, m, e, depth + 1, maxlen, nodes);
                            capture = Some(c);
                        }
                    },
                }
            }
        }
        assert forall|k: int| 0 <= k < before_lits.len() implies #[trigger] literals@[k] == before_lits[k] by {}
        assert forall|x: int| 0 <= x < before_nodes.len() implies nodes@[x] == before_nodes[x] by {}
        assert(se.len() == entries@[e as int].pattern@.len());
        assert forall|x: int|
            0 <= x < e + 1 && entry_of(es, m, x) && #[trigger] shape(es[x].pattern) == p implies terminal is Some by {
            if x == e {
                assert(se.take(depth as int) =~= se);
            }
        }
        assert forall|x: int|
            0 <= x < e + 1 && entry_of(es, m, x) && #[trigger] extends(shape(es[x].pattern), p)
                && shape(es[x].pattern).len() > p.len() implies match shape(es[x].pattern)[p.len() as int] {
            Some(t) => exists|k: int| 0 <= k < literals@.len() && #[trigger] literals@[k].0@ == t,
            None => capture is Some,
        } by {
            match shape(es[x].pattern)[p.len() as int] {
                Some(t) => {
                    if exists|k: int| 0 <= k < before_lits.len() && #[trigger] before_lits[k].0@ == t {
                        let k = choose|k: int| 0 <= k < before_lits.len() && #[trigger] before_lits[k].0@ == t;
                        assert(literals@[k] == before_lits[k]);
                    } else {
                        assert(x == e);
                        assert(literals@[literals@.len() - 1].0@ == t);
                    }
                },
                None => {},
            }
        }
        e = e + 1;
    }
    let idx = nodes.len();
    let node = Node { literals, capture, terminal, prefix: Ghost(p) };
    proof {
        let after = nodes@.push(node);
        assert(after[idx as int] == node);
        assert forall|k: int| 0 <= k < node.literals@.len() implies {
            let c = #[trigger] node.literals@[k].1;
            &&& 0 <= c < idx
            &&& after[c as int].prefix@ == p.push(Some(node.literals@[k].0@))
        } by {
            assert(after[node.literals@[k].1 as int] == nodes@[node.literals@[k].1 as int]);
        }
        if let Some(c) = node.capture {
            assert(after[c as int] == nodes@[c as int]);
        }
        assert(node_ok(after, es, m, idx as int));
        lemma_push_keeps_ok(nodes@, node, es, m);
    }
    nodes.push(node);
    idx
}

/// Builds the trie of method `m`; `w` is an entry of that method.
pub fn build_trie(entries: &Vec<Entry>, m: Method, w: usize, maxlen: usize) -> (t: MethodTrie)
    requires
        w < entries@.len(),
        forall|e: int| 0 <= e < entries@.len() ==> #[trigger] entries@[e].pattern@.len() <= maxlen,
    ensures
        t.wf(view_entries(entries@)),
        t.method == m,
{
    let mut nodes: Vec<Node> = Vec::new();
    let root = build_node(entries, m, w, 0, maxlen, &mut nodes);
    assert(shape(view_pattern(entries@[w as int].pattern@)).take(0) =~= Seq::<Option<Seq<char>>>::empty());
    MethodTrie { method: m, nodes, root }
}

impl MethodTrie {
    /// The entry of this trie's method that matches `segs` and that no other
    /// matching entry of the method outranks; `None` when none matches.
    pub fn find(&self, segs: &Vec<String>, Ghost(es): Ghost<Seq<EntryView>>) -> (r: Option<usize>)
        requires
            self.wf(es),
        ensures
            match r {
                Some(e) => entry_of(es, self.method, e as int) && pattern_matches(
                    es[e as int].pattern,
                    view_strings(segs@),
                ) && forall|j: int|
                    entry_of(es, self.method, j) && #[trigger] pattern_matches(
                        es[j].pattern,
                        view_strings(segs@),
                    ) ==> !outranks(es[j].pattern, es[e as int].pattern),
                None => forall|j: int|
                    entry_of(es, self.method, j) ==> !#[trigger] pattern_matches(
                        es[j].pattern,
                        view_strings(segs@),
                    ),
            },
    {
        let ghost empty = Seq::<Option<Seq<char>>>::empty();
        let r = search(&self.nodes, self.root, segs, 0, Ghost(es), Ghost(self.method));
        assert forall|j: int|
            entry_of(es, self.method, j) && #[trigger] pattern_matches(es[j].pattern, view_strings(segs@))
                implies candidate(es, self.method, empty, view_strings(segs@), j) by {
            assert(shape(es[j].pattern).take(0) =~= empty);
        }
        r
    }
}

} // verus!
