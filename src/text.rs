//! Character-level text primitives: whitespace, trimming, word counting,
//! paragraph splitting and joining. Text is modelled as `Seq<char>`.
use vstd::prelude::*;

verus! {

broadcast use vstd::string::group_string_axioms;

/// Unicode `White_Space`, the property behind `char::is_whitespace`,
/// `str::trim` and `str::split_whitespace`.
pub open spec fn is_space(c: char) -> bool {
    let u = c as u32;
    (0x09 <= u && u <= 0x0d) || u == 0x20 || u == 0x85 || u == 0xa0 || u == 0x1680 || (0x2000 <= u
        && u <= 0x200a) || u == 0x2028 || u == 0x2029 || u == 0x202f || u == 0x205f || u == 0x3000
}

pub fn space(c: char) -> (r: bool)
    ensures
        r == is_space(c),
{
    let u = c as u32;
    (0x09 <= u && u <= 0x0d) || u == 0x20 || u == 0x85 || u == 0xa0 || u == 0x1680 || (0x2000 <= u
        && u <= 0x200a) || u == 0x2028 || u == 0x2029 || u == 0x202f || u == 0x205f || u == 0x3000
}

/// First index at or after `i` that does not hold whitespace (or the length).
pub open spec fn lead_end(t: Seq<char>, i: int) -> int
    decreases t.len() - i,
{
    if 0 <= i < t.len() && is_space(t[i]) {
        lead_end(t, i + 1)
    } else {
        i
    }
}

/// Going back from `j`, no lower than `lo`, the end of the last non-whitespace run.
pub open spec fn trail_start(t: Seq<char>, lo: int, j: int) -> int
    decreases j - lo,
{
    if lo < j <= t.len() && is_space(t[j - 1]) {
        trail_start(t, lo, j - 1)
    } else {
        j
    }
}

/// `t` without leading and trailing whitespace.
pub open spec fn trim(t: Seq<char>) -> Seq<char> {
    let a = lead_end(t, 0);
    t.subrange(a, trail_start(t, a, t.len() as int))
}

/// Number of maximal runs of non-whitespace characters.
pub open spec fn word_count(t: Seq<char>) -> nat
    decreases t.len(),
{
    if t.len() == 0 {
        0
    } else {
        let prev = t.drop_last();
        word_count(prev) + if !is_space(t.last()) && (prev.len() == 0 || is_space(prev.last())) {
            1nat
        } else {
            0nat
        }
    }
}

pub proof fn lemma_lead_end(t: Seq<char>, i: int)
    requires
        0 <= i <= t.len(),
    ensures
        i <= lead_end(t, i) <= t.len(),
        forall|k: int| i <= k < lead_end(t, i) ==> is_space(#[trigger] t[k]),
        lead_end(t, i) < t.len() ==> !is_space(t[lead_end(t, i)]),
    decreases t.len() - i,
{
    if i < t.len() && is_space(t[i]) {
        lemma_lead_end(t, i + 1);
    }
}

pub proof fn lemma_trail_start(t: Seq<char>, lo: int, j: int)
    requires
        0 <= lo <= j <= t.len(),
    ensures
        lo <= trail_start(t, lo, j) <= j,
        forall|k: int| trail_start(t, lo, j) <= k < j ==> is_space(#[trigger] t[k]),
        lo < trail_start(t, lo, j) ==> !is_space(t[trail_start(t, lo, j) - 1]),
    decreases j - lo,
{
    if lo < j && is_space(t[j - 1]) {
        lemma_trail_start(t, lo, j - 1);
    }
}

/// Relies on `String::push`: appends one character.
#[verifier::external_body]
fn push_char(s: &mut String, c: char)
    ensures
        final(s)@ == old(s)@.push(c),
{
    s.push(c);
}

/// The characters of `s`, in order.
pub fn chars_of(s: &str) -> (r: Vec<char>)
    ensures
        r@ == s@,
{
    let mut r: Vec<char> = Vec::new();
    for c in it: s.chars()
        invariant
            it.seq() == s@,
            r@ == s@.take(it.index() as int),
    {
        r.push(c);
        assert(r@ =~= s@.take(it.index() as int + 1));
    }
    assert(r@ =~= s@);
    r
}

/// The characters `v[lo..hi]` as a `String`.
pub fn string_of(v: &Vec<char>, lo: usize, hi: usize) -> (r: String)
    requires
        lo <= hi <= v.len(),
    ensures
        r@ == v@.subrange(lo as int, hi as int),
{
    let mut r = String::new();
    let mut i = lo;
    while i < hi
        invariant
            lo <= i <= hi <= v.len(),
            r@ == v@.subrange(lo as int, i as int),
        decreases hi - i,
    {
        push_char(&mut r, v[i]);
        i = i + 1;
        assert(r@ =~= v@.subrange(lo as int, i as int));
    }
    r
}


/// The paragraph separator: a blank line.
pub open spec fn blank_line() -> Seq<char> {
    seq!['\n', '\n']
}

/// Index of the first blank-line separator starting at or after `j`, or -1.
pub open spec fn find_break(t: Seq<char>, j: int) -> int
    decreases t.len() - j,
{
    if j < 0 || j + 1 >= t.len() {
        -1
    } else if t[j] == '\n' && t[j + 1] == '\n' {
        j
    } else {
        find_break(t, j + 1)
    }
}

/// `p` as a one-element list when it is not empty.
pub open spec fn keep_nonempty(p: Seq<char>) -> Seq<Seq<char>> {
    if p.len() > 0 {
        seq![p]
    } else {
        Seq::empty()
    }
}

/// Split `t` on blank lines (leftmost, non-overlapping), trim each piece and
/// drop the empty ones.
pub open spec fn paragraphs(t: Seq<char>) -> Seq<Seq<char>>
    decreases t.len(),
{
    let k = find_break(t, 0);
    if 0 <= k && k + 2 <= t.len() {
        keep_nonempty(trim(t.take(k))) + paragraphs(t.skip(k + 2))
    } else {
        keep_nonempty(trim(t))
    }
}

/// Pieces joined with a blank line between each two.
pub open spec fn join(ps: Seq<Seq<char>>) -> Seq<char>
    decreases ps.len(),
{
    if ps.len() == 0 {
        Seq::empty()
    } else if ps.len() == 1 {
        ps[0]
    } else {
        ps[0] + blank_line() + join(ps.skip(1))
    }
}

/// The pieces of `t` that the index ranges `rs` select.
pub open spec fn slices(t: Seq<char>, rs: Seq<(usize, usize)>) -> Seq<Seq<char>> {
    rs.map_values(|r: (usize, usize)| t.subrange(r.0 as int, r.1 as int))
}

pub open spec fn ranges_within(rs: Seq<(usize, usize)>, n: int) -> bool {
    forall|k: int| 0 <= k < rs.len() ==> (#[trigger] rs[k]).0 <= rs[k].1 && rs[k].1 <= n
}

pub proof fn lemma_join_push(ps: Seq<Seq<char>>, p: Seq<char>)
    requires
        ps.len() >= 1,
    ensures
        join(ps.push(p)) == join(ps) + blank_line() + p,
    decreases ps.len(),
{
    if ps.len() == 1 {
        assert(ps.push(p).skip(1) =~= seq![p]);
        assert(join(seq![p]) == p);
        assert(ps.push(p)[0] == ps[0]);
        assert(join(ps.push(p)) == ps[0] + blank_line() + join(seq![p]));
    } else {
        assert(ps.push(p)[0] == ps[0]);
        assert(ps.push(p).skip(1) =~= ps.skip(1).push(p));
        lemma_join_push(ps.skip(1), p);
        assert(join(ps.push(p)) =~= join(ps) + blank_line() + p);
    }
}

/// Bounds of `v[lo..hi]` without its leading and trailing whitespace.
pub fn trim_range(v: &Vec<char>, lo: usize, hi: usize) -> (r: (usize, usize))
    requires
        lo <= hi <= v.len(),
    ensures
        lo <= r.0 <= r.1 <= hi,
        v@.subrange(r.0 as int, r.1 as int) == trim(v@.subrange(lo as int, hi as int)),
{
    let ghost t = v@.subrange(lo as int, hi as int);
    let mut a = lo;
    while a < hi && space(v[a])
        invariant
            lo <= a <= hi <= v.len(),
            t == v@.subrange(lo as int, hi as int),
            lead_end(t, a - lo) == lead_end(t, 0),
        decreases hi - a,
    {
        a = a + 1;
    }
    let mut b = hi;
    while b > a && space(v[b - 1])
        invariant
            lo <= a <= b <= hi <= v.len(),
            t == v@.subrange(lo as int, hi as int),
            lead_end(t, 0) == a - lo,
            trail_start(t, a - lo, b - lo) == trail_start(t, a - lo, hi - lo),
        decreases b - a,
    {
        b = b - 1;
    }
    assert(v@.subrange(a as int, b as int) =~= t.subrange(a - lo, b - lo));
    (a, b)
}

/// Number of words in `v[lo..hi]`.
pub fn count_words(v: &Vec<char>, lo: usize, hi: usize) -> (r: usize)
    requires
        lo <= hi <= v.len(),
    ensures
        r == word_count(v@.subrange(lo as int, hi as int)),
        r <= hi - lo,
{
    let mut n: usize = 0;
    let mut i = lo;
    while i < hi
        invariant
            lo <= i <= hi <= v.len(),
            n == word_count(v@.subrange(lo as int, i as int)),
            n <= i - lo,
        decreases hi - i,
    {
        let ghost prev = v@.subrange(lo as int, i as int);
        assert(v@.subrange(lo as int, i + 1).drop_last() =~= prev);
        if !space(v[i]) && (i == lo || space(v[i - 1])) {
            n = n + 1;
        }
        i = i + 1;
    }
    n
}

/// Paragraphs of `v`, as index ranges.
pub fn split_paragraphs(v: &Vec<char>) -> (r: Vec<(usize, usize)>)
    ensures
        slices(v@, r@) == paragraphs(v@),
        ranges_within(r@, v.len() as int),
{
    let n = v.len();
    let mut out: Vec<(usize, usize)> = Vec::new();
    let mut st: usize = 0;
    let mut i: usize = 0;
    assert(v@.skip(0) =~= v@);
    assert(slices(v@, out@) + paragraphs(v@) =~= paragraphs(v@));
    while n > 0 && i < n - 1
        invariant
            n == v.len(),
            st <= i <= n,
            slices(v@, out@) + paragraphs(v@.skip(st as int)) == paragraphs(v@),
            find_break(v@.skip(st as int), i - st) == find_break(v@.skip(st as int), 0),
            ranges_within(out@, n as int),
        decreases n - i,
    {
        let ghost s = v@.skip(st as int);
        if v[i] == '\n' && v[i + 1] == '\n' {
            let (a, b) = trim_range(v, st, i);
            proof {
                let k = i - st;
                assert(find_break(s, k) == k);
                assert(s.take(k) =~= v@.subrange(st as int, i as int));
                assert(s.skip(k + 2) =~= v@.skip(i + 2));
            }
            let ghost old_out = out@;
            if a < b {
                out.push((a, b));
                assert(slices(v@, out@) =~= slices(v@, old_out).push(v@.subrange(a as int, b as int)));
            } else {
                assert(v@.subrange(a as int, b as int).len() == 0);
            }
            proof {
                let k = i - st;
                assert(paragraphs(s) == keep_nonempty(trim(s.take(k))) + paragraphs(s.skip(k + 2)));
                assert(slices(v@, out@) + paragraphs(v@.skip(i + 2)) =~= slices(v@, old_out)
                    + paragraphs(s));
            }
            st = i + 2;
            i = i + 2;
        } else {
            i = i + 1;
        }
    }
    let (a, b) = trim_range(v, st, n);
    proof {
        let s = v@.skip(st as int);
        assert(s =~= v@.subrange(st as int, n as int));
        assert(find_break(s, i - st) == -1);
    }
    let ghost old_out = out@;
    if a < b {
        out.push((a, b));
        assert(slices(v@, out@) =~= slices(v@, old_out).push(v@.subrange(a as int, b as int)));
        assert(out@ == old_out.push((a, b)));
        assert(ranges_within(out@, n as int)) by {
            assert forall|k: int| 0 <= k < out@.len() implies (#[trigger] out@[k]).0 <= out@[k].1
                && out@[k].1 <= n by {
                if k < old_out.len() {
                    assert(out@[k] == old_out[k]);
                }
            }
        }
    }
    assert(slices(v@, out@) =~= slices(v@, old_out) + paragraphs(v@.skip(st as int)));
    out
}

/// The pieces `rs[from..]` of `v`, joined with blank lines.
pub fn join_slices(v: &Vec<char>, rs: &Vec<(usize, usize)>, from: usize) -> (r: String)
    requires
        from <= rs.len(),
        ranges_within(rs@, v.len() as int),
    ensures
        r@ == join(slices(v@, rs@).skip(from as int)),
{
    let ghost ps = slices(v@, rs@);
    let mut r = String::new();
    let mut k = from;
    while k < rs.len()
        invariant
            from <= k <= rs.len(),
            ranges_within(rs@, v.len() as int),
            ps == slices(v@, rs@),
            r@ == join(ps.subrange(from as int, k as int)),
        decreases rs.len() - k,
    {
        let (a, b) = rs[k];
        let ghost before = r@;
        if k > from {
            push_char(&mut r, '\n');
            push_char(&mut r, '\n');
        }
        let mut i = a;
        while i < b
            invariant
                a <= i <= b <= v.len(),
                r@ == (if k > from { before + blank_line() } else { before }) + v@.subrange(
                    a as int,
                    i as int,
                ),
            decreases b - i,
        {
            push_char(&mut r, v[i]);
            i = i + 1;
            assert(v@.subrange(a as int, i as int) =~= v@.subrange(a as int, i - 1).push(
                v@[i - 1],
            ));
        }
        proof {
            let prev = ps.subrange(from as int, k as int);
            assert(ps.subrange(from as int, k + 1) =~= prev.push(ps[k as int]));
            if k > from {
                lemma_join_push(prev, ps[k as int]);
            } else {
                assert(prev.push(ps[k as int]) =~= seq![ps[k as int]]);
            }
            assert(r@ =~= join(ps.subrange(from as int, k + 1)));
        }
        k = k + 1;
    }
    assert(ps.subrange(from as int, rs.len() as int) =~= ps.skip(from as int));
    r
}


/// No blank-line separator starts at any index of `t` from `j` on.
pub open spec fn no_break_from(t: Seq<char>, j: int) -> bool {
    forall|m: int| j <= m && m + 1 < t.len() ==> !(#[trigger] t[m] == '\n' && t[m + 1] == '\n')
}

/// A paragraph as the splitter hands it out: not empty, no whitespace at
/// either end, and no blank line inside.
pub open spec fn clean(p: Seq<char>) -> bool {
    &&& p.len() > 0
    &&& !is_space(p[0])
    &&& !is_space(p.last())
    &&& no_break_from(p, 0)
}

pub open spec fn all_clean(ps: Seq<Seq<char>>) -> bool {
    forall|i: int| 0 <= i < ps.len() ==> clean(#[trigger] ps[i])
}

pub proof fn lemma_find_break(t: Seq<char>, j: int)
    requires
        0 <= j,
    ensures
        find_break(t, j) == -1 ==> no_break_from(t, j),
        find_break(t, j) != -1 ==> {
            let k = find_break(t, j);
            &&& j <= k
            &&& k + 1 < t.len()
            &&& t[k] == '\n'
            &&& t[k + 1] == '\n'
            &&& forall|m: int| j <= m < k ==> !(#[trigger] t[m] == '\n' && t[m + 1] == '\n')
        },
    decreases t.len() - j,
{
    if j + 1 < t.len() && !(t[j] == '\n' && t[j + 1] == '\n') {
        lemma_find_break(t, j + 1);
    }
}

pub proof fn lemma_no_break_find(t: Seq<char>, j: int)
    requires
        0 <= j,
        no_break_from(t, j),
    ensures
        find_break(t, j) == -1,
    decreases t.len() - j,
{
    if j + 1 < t.len() {
        assert(!(t[j] == '\n' && t[j + 1] == '\n'));
        lemma_no_break_find(t, j + 1);
    }
}

pub proof fn lemma_trim_clean(s: Seq<char>)
    requires
        no_break_from(s, 0),
    ensures
        trim(s).len() > 0 ==> clean(trim(s)),
{
    let a = lead_end(s, 0);
    lemma_lead_end(s, 0);
    let b = trail_start(s, a, s.len() as int);
    lemma_trail_start(s, a, s.len() as int);
    let r = trim(s);
    if r.len() > 0 {
        assert(r[0] == s[a]);
        assert(r.last() == s[b - 1]);
        assert forall|m: int| 0 <= m && m + 1 < r.len() implies !(#[trigger] r[m] == '\n' && r[m
            + 1] == '\n') by {
            assert(r[m] == s[a + m]);
            assert(r[m + 1] == s[a + m + 1]);
        }
    }
}

pub proof fn lemma_paragraphs_clean(t: Seq<char>)
    ensures
        all_clean(paragraphs(t)),
    decreases t.len(),
{
    let k = find_break(t, 0);
    lemma_find_break(t, 0);
    if 0 <= k && k + 2 <= t.len() {
        let s = t.take(k);
        assert(no_break_from(s, 0)) by {
            assert forall|m: int| 0 <= m && m + 1 < s.len() implies !(#[trigger] s[m] == '\n' && s[m
                + 1] == '\n') by {
                assert(s[m] == t[m]);
                assert(s[m + 1] == t[m + 1]);
            }
        }
        lemma_trim_clean(s);
        lemma_paragraphs_clean(t.skip(k + 2));
        let ps = paragraphs(t);
        let head = keep_nonempty(trim(s));
        let tail = paragraphs(t.skip(k + 2));
        assert forall|i: int| 0 <= i < ps.len() implies clean(#[trigger] ps[i]) by {
            if i < head.len() {
                assert(ps[i] == head[i]);
            } else {
                assert(ps[i] == tail[i - head.len()]);
            }
        }
    } else {
        lemma_trim_clean(t);
    }
}

pub proof fn lemma_clean_trim(q: Seq<char>)
    requires
        clean(q),
    ensures
        trim(q) == q,
{
    assert(lead_end(q, 0) == 0);
    assert(trail_start(q, 0, q.len() as int) == q.len());
    assert(q.subrange(0, q.len() as int) =~= q);
}

pub proof fn lemma_break_after(q: Seq<char>, rest: Seq<char>, j: int)
    requires
        clean(q),
        0 <= j <= q.len(),
    ensures
        find_break(q + blank_line() + rest, j) == q.len(),
    decreases q.len() - j,
{
    let t = q + blank_line() + rest;
    if j < q.len() {
        assert(t[j] == q[j]);
        if j + 1 < q.len() {
            assert(t[j + 1] == q[j + 1]);
            assert(!(q[j] == '\n' && q[j + 1] == '\n'));
        } else {
            assert(q[j] == q.last());
        }
        lemma_break_after(q, rest, j + 1);
    } else {
        assert(t[j] == '\n' && t[j + 1] == '\n');
    }
}

/// Splitting joined clean paragraphs gives them back.
pub proof fn lemma_paragraphs_join(qs: Seq<Seq<char>>)
    requires
        all_clean(qs),
    ensures
        paragraphs(join(qs)) == qs,
    decreases qs.len(),
{
    if qs.len() == 0 {
        let e = Seq::<char>::empty();
        assert(find_break(e, 0) == -1);
        lemma_lead_end(e, 0);
        assert(trim(e).len() == 0);
        assert(paragraphs(e) =~= qs);
    } else if qs.len() == 1 {
        let q = qs[0];
        assert(clean(q));
        lemma_no_break_find(q, 0);
        lemma_clean_trim(q);
        assert(paragraphs(q) =~= qs);
    } else {
        let q = qs[0];
        let rest = qs.skip(1);
        assert(clean(q));
        assert(all_clean(rest)) by {
            assert forall|i: int| 0 <= i < rest.len() implies clean(#[trigger] rest[i]) by {
                assert(rest[i] == qs[i + 1]);
            }
        }
        let t = q + blank_line() + join(rest);
        assert(join(qs) == t);
        lemma_break_after(q, join(rest), 0);
        assert(t.take(q.len() as int) =~= q);
        assert(t.skip(q.len() as int + 2) =~= join(rest));
        lemma_clean_trim(q);
        lemma_paragraphs_join(rest);
        assert(paragraphs(t) =~= qs);
    }
}

/// Joined paragraphs end with the last of them.
pub proof fn lemma_join_ends_with_last(qs: Seq<Seq<char>>)
    requires
        qs.len() > 0,
    ensures
        join(qs).len() >= qs.last().len(),
        join(qs).subrange(join(qs).len() - qs.last().len(), join(qs).len() as int) == qs.last(),
    decreases qs.len(),
{
    if qs.len() == 1 {
        assert(join(qs).subrange(0, join(qs).len() as int) =~= qs.last());
    } else {
        let rest = qs.skip(1);
        lemma_join_ends_with_last(rest);
        assert(rest.last() == qs.last());
        let j = join(qs);
        let jr = join(rest);
        assert(j == qs[0] + blank_line() + jr);
        assert(j.subrange(j.len() - qs.last().len(), j.len() as int) =~= jr.subrange(
            jr.len() - qs.last().len(),
            jr.len() as int,
        ));
    }
}


/// Whether `n` occurs in `h` at position `i`.
pub open spec fn occurs(h: Seq<char>, n: Seq<char>, i: int) -> bool {
    0 <= i && i + n.len() <= h.len() && h.subrange(i, i + n.len()) == n
}

pub open spec fn has_substring(h: Seq<char>, n: Seq<char>) -> bool {
    exists|i: int| occurs(h, n, i)
}

/// Whether `m` occurs in `v` at position `at`.
pub fn occurs_at(v: &Vec<char>, at: usize, m: &Vec<char>) -> (r: bool)
    ensures
        r == occurs(v@, m@, at as int),
{
    if at > v.len() || m.len() > v.len() - at {
        return false;
    }
    let mut k: usize = 0;
    while k < m.len()
        invariant
            k <= m.len(),
            at + m.len() <= v.len(),
            v@.subrange(at as int, at + k) == m@.take(k as int),
        decreases m.len() - k,
    {
        if v[at + k] != m[k] {
            assert(v@.subrange(at as int, at + m.len())[k as int] != m@[k as int]);
            return false;
        }
        k = k + 1;
        assert(v@.subrange(at as int, at + k) =~= m@.take(k as int));
    }
    assert(m@.take(m.len() as int) =~= m@);
    true
}

/// Whether `needle` occurs anywhere in `hay`.
pub fn contains_text(hay: &str, needle: &Vec<char>) -> (r: bool)
    ensures
        r == has_substring(hay@, needle@),
{
    let v = chars_of(hay);
    let mut i: usize = 0;
    while i < v.len()
        invariant
            i <= v.len(),
            v@ == hay@,
            forall|j: int| 0 <= j < i ==> !occurs(v@, needle@, j),
        decreases v.len() - i,
    {
        if occurs_at(&v, i, needle) {
            return true;
        }
        i = i + 1;
    }
    if occurs_at(&v, v.len(), needle) {
        return true;
    }
    assert forall|j: int| !occurs(v@, needle@, j) by {
        if 0 <= j && j + needle@.len() <= v@.len() {
            assert(j < i || j == i);
        }
    }
    false
}

pub open spec fn digit_char(d: int) -> char {
    if d == 0 {
        '0'
    } else if d == 1 {
        '1'
    } else if d == 2 {
        '2'
    } else if d == 3 {
        '3'
    } else if d == 4 {
        '4'
    } else if d == 5 {
        '5'
    } else if d == 6 {
        '6'
    } else if d == 7 {
        '7'
    } else if d == 8 {
        '8'
    } else {
        '9'
    }
}

/// Decimal digits of `n`, without leading zeros.
pub open spec fn decimal(n: nat) -> Seq<char>
    decreases n,
{
    if n < 10 {
        seq![digit_char(n as int)]
    } else {
        decimal(n / 10).push(digit_char((n % 10) as int))
    }
}

/// Decimal digits of `n`, at least two of them.
pub open spec fn decimal2(n: nat) -> Seq<char> {
    if n < 10 {
        seq!['0'] + decimal(n)
    } else {
        decimal(n)
    }
}

fn digit(d: u64) -> (c: char)
    requires
        d < 10,
    ensures
        c == digit_char(d as int),
{
    if d == 0 {
        '0'
    } else if d == 1 {
        '1'
    } else if d == 2 {
        '2'
    } else if d == 3 {
        '3'
    } else if d == 4 {
        '4'
    } else if d == 5 {
        '5'
    } else if d == 6 {
        '6'
    } else if d == 7 {
        '7'
    } else if d == 8 {
        '8'
    } else {
        '9'
    }
}

pub fn push_decimal(n: u64, out: &mut Vec<char>)
    ensures
        final(out)@ == old(out)@ + decimal(n as nat),
    decreases n,
{
    if n >= 10 {
        push_decimal(n / 10, out);
    }
    out.push(digit(n % 10));
    assert(final(out)@ =~= old(out)@ + decimal(n as nat));
}

pub fn push_str(s: &str, out: &mut Vec<char>)
    ensures
        final(out)@ == old(out)@ + s@,
{
    let c = chars_of(s);
    let mut i: usize = 0;
    while i < c.len()
        invariant
            i <= c.len(),
            out@ == old(out)@ + c@.take(i as int),
        decreases c.len() - i,
    {
        out.push(c[i]);
        i = i + 1;
        assert(out@ =~= old(out)@ + c@.take(i as int));
    }
    assert(c@.take(c.len() as int) =~= c@);
}

/// A `String` with the characters of `v`.
pub fn to_string(v: &Vec<char>) -> (r: String)
    ensures
        r@ == v@,
{
    let r = string_of(v, 0, v.len());
    assert(v@.subrange(0, v.len() as int) =~= v@);
    r
}

} // verus!
