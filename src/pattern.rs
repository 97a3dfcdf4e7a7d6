use vstd::prelude::*;
use crate::path::{split_path, split_segments};

verus! {

/// One segment of a route pattern: literal text, or a named capture
/// (written `:name`).
#[derive(Debug)]
pub enum Segment {
    Literal(String),
    Capture(String),
}

/// The mathematical value of a segment.
pub enum SegmentView {
    Literal(Seq<char>),
    Capture(Seq<char>),
}

impl View for Segment {
    type V = SegmentView;

    open spec fn view(&self) -> SegmentView {
        match self {
            Segment::Literal(s) => SegmentView::Literal(s@),
            Segment::Capture(s) => SegmentView::Capture(s@),
        }
    }
}

pub open spec fn view_pattern(p: Seq<Segment>) -> Seq<SegmentView> {
    p.map_values(|s: Segment| s@)
}

pub open spec fn view_strings(v: Seq<String>) -> Seq<Seq<char>> {
    v.map_values(|s: String| s@)
}

pub open spec fn view_pairs(v: Seq<(String, String)>) -> Seq<(Seq<char>, Seq<char>)> {
    v.map_values(|p: (String, String)| (p.0@, p.1@))
}

/// A piece that starts with `:` is a capture named by the rest of it.
pub open spec fn segment_of(piece: Seq<char>) -> SegmentView {
    if piece.len() > 0 && piece[0] == ':' {
        SegmentView::Capture(piece.drop_first())
    } else {
        SegmentView::Literal(piece)
    }
}

/// The segments of a route pattern, left to right.
pub open spec fn pattern_of(s: Seq<char>) -> Seq<SegmentView> {
    split_path(s).map_values(|p: Seq<char>| segment_of(p))
}

pub open spec fn is_literal(s: SegmentView) -> bool {
    s is Literal
}

/// Whether each segment is a literal.
pub open spec fn kinds(p: Seq<SegmentView>) -> Seq<bool> {
    p.map_values(|s: SegmentView| is_literal(s))
}

pub open spec fn segment_matches(p: SegmentView, s: Seq<char>) -> bool {
    match p {
        SegmentView::Literal(l) => l == s,
        SegmentView::Capture(_) => true,
    }
}

/// A pattern matches the path segments of the same number whose literals
/// it names.
pub open spec fn pattern_matches(p: Seq<SegmentView>, segs: Seq<Seq<char>>) -> bool {
    &&& p.len() == segs.len()
    &&& forall|i: int| 0 <= i < p.len() ==> #[trigger] segment_matches(p[i], segs[i])
}

/// The (name, value) pairs that the captures of `p` take from `segs`, left to
/// right.
pub open spec fn captures(p: Seq<SegmentView>, segs: Seq<Seq<char>>) -> Seq<(Seq<char>, Seq<char>)>
    decreases p.len(),
{
    if p.len() == 0 {
        seq![]
    } else {
        let k = p.len() - 1;
        let rest = captures(p.take(k), segs);
        match p[k] {
            SegmentView::Capture(name) => rest.push((name, segs[k])),
            SegmentView::Literal(_) => rest,
        }
    }
}

pub open spec fn segments_alike(a: SegmentView, b: SegmentView) -> bool {
    match (a, b) {
        (SegmentView::Literal(x), SegmentView::Literal(y)) => x == y,
        (SegmentView::Capture(_), SegmentView::Capture(_)) => true,
        _ => false,
    }
}

/// Two patterns of one shape match the same paths: same length, the same
/// literals at the same places, captures at the same places.
pub open spec fn same_shape(a: Seq<SegmentView>, b: Seq<SegmentView>) -> bool {
    &&& a.len() == b.len()
    &&& forall|i: int| 0 <= i < a.len() ==> #[trigger] segments_alike(a[i], b[i])
}

/// `a` is ahead of `b` in the order that prefers a literal to a capture at
/// the first position where they differ.
pub open spec fn lex_ahead(a: Seq<bool>, b: Seq<bool>) -> bool {
    exists|k: int|
        0 <= k < a.len() && k < b.len() && #[trigger] a[k] && !b[k] && (forall|j: int|
            0 <= j < k ==> a[j] == b[j])
}

/// Pattern `a` takes priority over pattern `b`.
pub open spec fn outranks(a: Seq<SegmentView>, b: Seq<SegmentView>) -> bool {
    lex_ahead(kinds(a), kinds(b))
}

fn segment_from_piece(piece: String) -> (r: Segment)
    ensures
        r@ == segment_of(piece@),
{
    let n = piece.as_str().unicode_len();
    if n > 0 && piece.as_str().get_char(0) == ':' {
        let name = piece.as_str().substring_char(1, n).to_owned();
        assert(name@ =~= piece@.drop_first());
        Segment::Capture(name)
    } else {
        Segment::Literal(piece)
    }
}

/// Parses a route pattern into its segments.
pub fn parse_pattern(s: &str) -> (r: Vec<Segment>)
    ensures
        view_pattern(r@) == pattern_of(s@),
{
    let pieces = split_segments(s);
    let mut out: Vec<Segment> = Vec::new();
    let mut i: usize = 0;
    while i < pieces.len()
        invariant
            i <= pieces@.len(),
            view_strings(pieces@) == split_path(s@),
            view_pattern(out@) =~= split_path(s@).take(i as int).map_values(
                |p: Seq<char>| segment_of(p),
            ),
        decreases pieces@.len() - i,
    {
        assert(view_strings(pieces@)[i as int] == pieces@[i as int]@);
        let seg = segment_from_piece(pieces[i].clone());
        let ghost before = out@;
        out.push(seg);
        assert(view_pattern(out@) =~= view_pattern(before).push(seg@));
        i = i + 1;
        assert(view_pattern(out@) =~= split_path(s@).take(i as int).map_values(
            |p: Seq<char>| segment_of(p),
        ));
    }
    assert(split_path(s@).take(i as int) =~= split_path(s@));
    out
}

/// The values that the captures of `p` take from `segs`, with their names.
pub fn capture_values(p: &Vec<Segment>, segs: &Vec<String>) -> (r: Vec<(String, String)>)
    requires
        p@.len() == segs@.len(),
    ensures
        view_pairs(r@) == captures(view_pattern(p@), view_strings(segs@)),
{
    let ghost vp = view_pattern(p@);
    let ghost vs = view_strings(segs@);
    let mut out: Vec<(String, String)> = Vec::new();
    let mut i: usize = 0;
    while i < p.len()
        invariant
            i <= p@.len(),
            p@.len() == segs@.len(),
            vp == view_pattern(p@),
            vs == view_strings(segs@),
            view_pairs(out@) == captures(vp.take(i as int), vs),
        decreases p@.len() - i,
    {
        assert(vp.take(i + 1).take(i as int) =~= vp.take(i as int));
        assert(vp.take(i + 1)[i as int] == p@[i as int]@);
        assert(vs[i as int] == segs@[i as int]@);
        match &p[i] {
            Segment::Capture(name) => {
                let ghost before = out@;
                out.push((name.clone(), segs[i].clone()));
                assert(view_pairs(out@) =~= view_pairs(before).push((name@, segs@[i as int]@)));
            },
            Segment::Literal(_) => {},
        }
        i = i + 1;
    }
    assert(vp.take(i as int) =~= vp);
    out
}

/// Whether `a` and `b` have the same shape.
pub fn shapes_equal(a: &Vec<Segment>, b: &Vec<Segment>) -> (r: bool)
    ensures
        r == same_shape(view_pattern(a@), view_pattern(b@)),
{
    if a.len() != b.len() {
        return false;
    }
    let mut i: usize = 0;
    while i < a.len()
        invariant
            i <= a@.len(),
            a@.len() == b@.len(),
            forall|j: int|
                0 <= j < i ==> #[trigger] segments_alike(view_pattern(a@)[j], view_pattern(b@)[j]),
        decreases a@.len() - i,
    {
        assert(view_pattern(a@)[i as int] == a@[i as int]@);
        assert(view_pattern(b@)[i as int] == b@[i as int]@);
        let alike = match (&a[i], &b[i]) {
            (Segment::Literal(x), Segment::Literal(y)) => *x == *y,
            (Segment::Capture(_), Segment::Capture(_)) => true,
            _ => false,
        };
        if !alike {
            assert(!segments_alike(view_pattern(a@)[i as int], view_pattern(b@)[i as int]));
            return false;
        }
        i = i + 1;
    }
    true
}

} // verus!
