use vstd::prelude::*;

verus! {

/// Scans the first `k` characters of `s`: the pieces closed by a slash so far,
/// and the index where the open piece starts.
pub open spec fn scan_pieces(s: Seq<char>, k: nat) -> (Seq<Seq<char>>, int)
    decreases k,
{
    if k == 0 {
        (seq![], 0)
    } else {
        let (done, start) = scan_pieces(s, (k - 1) as nat);
        if s[k - 1] == '/' {
            if k - 1 > start {
                (done.push(s.subrange(start, k - 1)), k as int)
            } else {
                (done, k as int)
            }
        } else {
            (done, start)
        }
    }
}

/// The non-empty pieces of `s` between slashes, left to right. Leading,
/// trailing and repeated slashes give no piece.
pub open spec fn split_path(s: Seq<char>) -> Seq<Seq<char>> {
    let (done, start) = scan_pieces(s, s.len());
    if s.len() > start {
        done.push(s.subrange(start, s.len() as int))
    } else {
        done
    }
}

proof fn lemma_scan_start_bounded(s: Seq<char>, k: nat)
    requires
        k <= s.len(),
    ensures
        0 <= scan_pieces(s, k).1 <= k,
    decreases k,
{
    if k > 0 {
        lemma_scan_start_bounded(s, (k - 1) as nat);
    }
}

proof fn lemma_scan_prefix(s1: Seq<char>, s2: Seq<char>, k: nat)
    requires
        k <= s1.len(),
        k <= s2.len(),
        s1.take(k as int) == s2.take(k as int),
    ensures
        scan_pieces(s1, k) == scan_pieces(s2, k),
    decreases k,
{
    if k > 0 {
        assert(s1.take(k - 1) =~= s1.take(k as int).take(k - 1));
        assert(s2.take(k - 1) =~= s2.take(k as int).take(k - 1));
        lemma_scan_prefix(s1, s2, (k - 1) as nat);
        assert(s1[k - 1] == s1.take(k as int)[k - 1]);
        assert(s2[k - 1] == s2.take(k as int)[k - 1]);
        let start = scan_pieces(s1, (k - 1) as nat).1;
        lemma_scan_start_bounded(s1, (k - 1) as nat);
        assert(s1.subrange(start, k - 1) =~= s1.take(k as int).subrange(start, k - 1));
        assert(s2.subrange(start, k - 1) =~= s2.take(k as int).subrange(start, k - 1));
    }
}

proof fn lemma_scan_joined(a: Seq<char>, b: Seq<char>, j: nat)
    requires
        j <= b.len(),
    ensures
        ({
            let s = a + seq!['/'] + b;
            let off = a.len() + 1;
            scan_pieces(s, (off + j) as nat) == (split_path(a) + scan_pieces(b, j).0, scan_pieces(b, j).1 + off)
        }),
    decreases j,
{
    let s = a + seq!['/'] + b;
    let off = a.len() + 1;
    if j == 0 {
        assert(s.take(a.len() as int) =~= a.take(a.len() as int));
        lemma_scan_prefix(s, a, a.len());
        lemma_scan_start_bounded(a, a.len());
        let start = scan_pieces(a, a.len()).1;
        assert(s[a.len() as int] == '/');
        assert(s.subrange(start, a.len() as int) =~= a.subrange(start, a.len() as int));
        assert(split_path(a) + Seq::<Seq<char>>::empty() =~= split_path(a));
    } else {
        lemma_scan_joined(a, b, (j - 1) as nat);
        lemma_scan_start_bounded(b, (j - 1) as nat);
        let k = (off + j) as nat;
        assert(s[k - 1] == b[j - 1]);
        let start_b = scan_pieces(b, (j - 1) as nat).1;
        let done_b = scan_pieces(b, (j - 1) as nat).0;
        assert(s.subrange(start_b + off, k - 1) =~= b.subrange(start_b, j - 1));
        assert((split_path(a) + done_b).push(b.subrange(start_b, j - 1)) =~= split_path(a) + done_b.push(
            b.subrange(start_b, j - 1),
        ));
    }
}

/// Splitting `a`, a slash and `b` gives the pieces of `a` and then those of
/// `b`.
pub proof fn lemma_split_joined(a: Seq<char>, b: Seq<char>)
    ensures
        split_path(a + seq!['/'] + b) == split_path(a) + split_path(b),
{
    let s = a + seq!['/'] + b;
    let off = a.len() + 1;
    lemma_scan_joined(a, b, b.len());
    lemma_scan_start_bounded(b, b.len());
    assert(s.len() == off + b.len());
    let start_b = scan_pieces(b, b.len()).1;
    let done_b = scan_pieces(b, b.len()).0;
    assert(s.subrange(start_b + off, s.len() as int) =~= b.subrange(start_b, b.len() as int));
    assert((split_path(a) + done_b).push(b.subrange(start_b, b.len() as int)) =~= split_path(a)
        + done_b.push(b.subrange(start_b, b.len() as int)));
}

/// Splits `s` into its non-empty slash-separated pieces.
pub fn split_segments(s: &str) -> (r: Vec<String>)
    ensures
        r@.map_values(|p: String| p@) == split_path(s@),
{
    let n = s.unicode_len();
    let mut pieces: Vec<String> = Vec::new();
    let mut start: usize = 0;
    let mut i: usize = 0;
    while i < n
        invariant
            n == s@.len(),
            i <= n,
            start <= i,
            (pieces@.map_values(|p: String| p@), start as int) == scan_pieces(s@, i as nat),
        decreases n - i,
    {
        let c = s.get_char(i);
        proof {
            lemma_scan_start_bounded(s@, i as nat);
        }
        if c == '/' {
            if i > start {
                let piece = s.substring_char(start, i).to_owned();
                let ghost before = pieces@;
                pieces.push(piece);
                assert(pieces@.map_values(|p: String| p@) =~= before.map_values(|p: String| p@).push(
                    s@.subrange(start as int, i as int),
                ));
            }
            start = i + 1;
        }
        i = i + 1;
    }
    if n > start {
        let piece = s.substring_char(start, n).to_owned();
        let ghost before = pieces@;
        pieces.push(piece);
        assert(pieces@.map_values(|p: String| p@) =~= before.map_values(|p: String| p@).push(
            s@.subrange(start as int, n as int),
        ));
    }
    pieces
}

} // verus!
