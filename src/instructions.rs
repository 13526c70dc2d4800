//! Author directives embedded in review text.
//!
//! A directive is written `<!-- INK: body -->` on one line. The space after
//! `INK:` is mandatory: the engine's own markers (`<!-- INK:NEW: ... -->`)
//! lack it and are never touched. Matching is leftmost-first and
//! non-overlapping; the body is the shortest run of non-newline characters
//! that is followed by ` -->`.
use vstd::prelude::*;
use crate::text::{
    chars_of, lead_end, lemma_lead_end, lemma_trail_start, occurs_at, string_of, trail_start,
    trim, trim_range,
};

verus! {

/// How many characters before a directive its anchor may take.
pub const ANCHOR_CHARS: usize = 200;

pub open spec fn open_marker() -> Seq<char> {
    seq!['<', '!', '-', '-', ' ', 'I', 'N', 'K', ':', ' ']
}

pub open spec fn close_marker() -> Seq<char> {
    seq![' ', '-', '-', '>']
}

pub open spec fn opens_at(t: Seq<char>, s: int) -> bool {
    0 <= s && s + 10 <= t.len() && t.subrange(s, s + 10) == open_marker()
}

pub open spec fn closes_at(t: Seq<char>, j: int) -> bool {
    0 <= j && j + 4 <= t.len() && t.subrange(j, j + 4) == close_marker()
}

/// Where the closing wrapper of a body that starts at `j` begins, scanning
/// forward without crossing a newline; -1 when there is none.
pub open spec fn close_from(t: Seq<char>, j: int) -> int
    decreases t.len() - j,
{
    if j < 0 || j + 4 > t.len() {
        -1
    } else if closes_at(t, j) {
        j
    } else if t[j] == '\n' {
        -1
    } else {
        close_from(t, j + 1)
    }
}

/// Where the closing wrapper of a directive that opens at `s` begins, or -1
/// when no directive matches at `s`.
pub open spec fn match_at(t: Seq<char>, s: int) -> int {
    if opens_at(t, s) {
        close_from(t, s + 10)
    } else {
        -1
    }
}

/// Start of the anchor window for a directive at `s`.
pub open spec fn anchor_start(s: int) -> int {
    if s > ANCHOR_CHARS {
        s - ANCHOR_CHARS
    } else {
        0
    }
}

/// Up to 200 characters before position `s`, trimmed.
pub open spec fn anchor_of(t: Seq<char>, s: int) -> Seq<char> {
    trim(t.subrange(anchor_start(s), s))
}

/// The body of the directive at `s` whose closing wrapper begins at `p`, trimmed.
pub open spec fn body_of(t: Seq<char>, s: int, p: int) -> Seq<char> {
    trim(t.subrange(s + 10, p))
}

/// The directives found from position `i` on, as (start, closing position).
pub open spec fn directives_from(t: Seq<char>, i: int) -> Seq<(int, int)>
    decreases t.len() - i,
{
    if i < 0 || i >= t.len() {
        Seq::empty()
    } else if i <= match_at(t, i) && match_at(t, i) + 4 <= t.len() {
        seq![(i, match_at(t, i))] + directives_from(t, match_at(t, i) + 4)
    } else {
        directives_from(t, i + 1)
    }
}

/// The text from position `i` on with every directive removed.
pub open spec fn stripped_from(t: Seq<char>, i: int) -> Seq<char>
    decreases t.len() - i,
{
    if i < 0 || i >= t.len() {
        Seq::empty()
    } else if i <= match_at(t, i) && match_at(t, i) + 4 <= t.len() {
        stripped_from(t, match_at(t, i) + 4)
    } else {
        seq![t[i]] + stripped_from(t, i + 1)
    }
}

/// (anchor, body) of each directive found from position `i` on.
pub open spec fn instructions_from(t: Seq<char>, i: int) -> Seq<(Seq<char>, Seq<char>)>
    decreases t.len() - i,
{
    if i < 0 || i >= t.len() {
        Seq::empty()
    } else if i <= match_at(t, i) && match_at(t, i) + 4 <= t.len() {
        seq![(anchor_of(t, i), body_of(t, i, match_at(t, i)))] + instructions_from(
            t,
            match_at(t, i) + 4,
        )
    } else {
        instructions_from(t, i + 1)
    }
}

/// An author directive: the text just before it, and what it asks.
#[derive(Debug)]
pub struct Instruction {
    pub anchor: String,
    pub instruction: String,
}

pub open spec fn instruction_views(s: Seq<Instruction>) -> Seq<(Seq<char>, Seq<char>)> {
    s.map_values(|x: Instruction| (x.anchor@, x.instruction@))
}

pub proof fn lemma_close_from(t: Seq<char>, j: int)
    requires
        0 <= j,
    ensures
        close_from(t, j) == -1 || (j <= close_from(t, j) && closes_at(t, close_from(t, j))
            && forall|m: int| j <= m < close_from(t, j) ==> #[trigger] t[m] != '\n'),
    decreases t.len() - j,
{
    if j + 4 <= t.len() && !closes_at(t, j) && t[j] != '\n' {
        lemma_close_from(t, j + 1);
    }
}

/// The closing position of a directive that opens at `s`, if one matches there.
fn directive_end(v: &Vec<char>, s: usize, open: &Vec<char>, close: &Vec<char>) -> (r: Option<
    usize,
>)
    requires
        s < v.len(),
        open@ == open_marker(),
        close@ == close_marker(),
    ensures
        match r {
            Some(p) => match_at(v@, s as int) == p && s + 10 <= p && p + 4 <= v.len(),
            None => match_at(v@, s as int) == -1,
        },
{
    if !occurs_at(v, s, open) {
        return None;
    }
    let mut j = s + 10;
    proof {
        lemma_close_from(v@, j as int);
    }
    while v.len() - j >= 4
        invariant
            s + 10 <= j <= v.len(),
            close@ == close_marker(),
            close_from(v@, j as int) == match_at(v@, s as int),
            opens_at(v@, s as int),
        decreases v.len() - j,
    {
        if occurs_at(v, j, close) {
            return Some(j);
        }
        if v[j] == '\n' {
            return None;
        }
        j = j + 1;
    }
    None
}

/// Split review text into the text with every author directive removed and
/// the directives themselves, in order. Each directive's anchor is the
/// trimmed text of up to 200 characters before it; its instruction is its
/// trimmed body. Everything but the directives, engine markers included,
/// stays as it was.
pub fn extract_ink_instructions(text: &str) -> (r: (String, Vec<Instruction>))
    ensures
        r.0@ == stripped_from(text@, 0),
        instruction_views(r.1@) == instructions_from(text@, 0),
{
    let v = chars_of(text);
    let open: Vec<char> = vec!['<', '!', '-', '-', ' ', 'I', 'N', 'K', ':', ' '];
    let close: Vec<char> = vec![' ', '-', '-', '>'];
    assert(open@ =~= open_marker());
    assert(close@ =~= close_marker());
    let mut out: Vec<char> = Vec::new();
    let mut found: Vec<Instruction> = Vec::new();
    let mut i: usize = 0;
    while i < v.len()
        invariant
            i <= v.len(),
            open@ == open_marker(),
            close@ == close_marker(),
            out@ + stripped_from(v@, i as int) == stripped_from(v@, 0),
            instruction_views(found@) + instructions_from(v@, i as int) == instructions_from(
                v@,
                0,
            ),
        decreases v.len() - i,
    {
        match directive_end(&v, i, &open, &close) {
            Some(p) => {
                let lo = if i > ANCHOR_CHARS {
                    i - ANCHOR_CHARS
                } else {
                    0
                };
                let (a0, a1) = trim_range(&v, lo, i);
                let (b0, b1) = trim_range(&v, i + 10, p);
                let ins = Instruction {
                    anchor: string_of(&v, a0, a1),
                    instruction: string_of(&v, b0, b1),
                };
                let ghost before = found@;
                found.push(ins);
                assert(instruction_views(found@) =~= instruction_views(before).push(
                    (anchor_of(v@, i as int), body_of(v@, i as int, p as int)),
                ));
                assert(instruction_views(found@) + instructions_from(v@, p + 4) =~= instruction_views(
                    before,
                ) + instructions_from(v@, i as int));
                i = p + 4;
            },
            None => {
                let ghost before = out@;
                out.push(v[i]);
                assert(out@ + stripped_from(v@, i + 1) =~= before + stripped_from(v@, i as int));
                i = i + 1;
            },
        }
    }
    let n = out.len();
    assert(out@ =~= stripped_from(v@, 0));
    assert(instruction_views(found@) =~= instructions_from(v@, 0));
    (string_of(&out, 0, n), found)
}


pub proof fn lemma_scan(t: Seq<char>, i: int)
    requires
        0 <= i <= t.len(),
    ensures
        directives_from(t, i).len() == 0 ==> stripped_from(t, i) == t.skip(i)
            && instructions_from(t, i).len() == 0,
        directives_from(t, i).len() > 0 ==> {
            let s = directives_from(t, i)[0].0;
            let p = directives_from(t, i)[0].1;
            &&& i <= s
            &&& s + 10 <= p
            &&& p + 4 <= t.len()
            &&& opens_at(t, s)
            &&& closes_at(t, p)
            &&& stripped_from(t, i) == t.subrange(i, s) + stripped_from(t, p + 4)
            &&& instructions_from(t, i) == seq![(anchor_of(t, s), body_of(t, s, p))]
                + instructions_from(t, p + 4)
            &&& directives_from(t, i).skip(1) == directives_from(t, p + 4)
        },
    decreases t.len() - i,
{
    if i < t.len() {
        let p = match_at(t, i);
        if i <= p && p + 4 <= t.len() {
            lemma_close_from(t, i + 10);
            assert(t.subrange(i, i) =~= Seq::<char>::empty());
            assert(stripped_from(t, i) =~= t.subrange(i, i) + stripped_from(t, p + 4));
            assert(directives_from(t, i).skip(1) =~= directives_from(t, p + 4));
        } else {
            lemma_scan(t, i + 1);
            if directives_from(t, i + 1).len() == 0 {
                assert(stripped_from(t, i) =~= t.skip(i));
            } else {
                let s = directives_from(t, i + 1)[0].0;
                assert(seq![t[i]] + t.subrange(i + 1, s) =~= t.subrange(i, s));
                assert(stripped_from(t, i) =~= t.subrange(i, s) + stripped_from(
                    t,
                    directives_from(t, i + 1)[0].1 + 4,
                ));
            }
        }
    } else {
        assert(t.skip(i) =~= Seq::<char>::empty());
    }
}

/// Text holding exactly one directive: stripping removes exactly the
/// directive, wrappers and body, and leaves the text on either side as it
/// was; the instruction is the trimmed body; the anchor holds at most 200
/// characters, all taken from before the directive and none before the
/// start of the text.
pub proof fn lemma_single_directive(t: Seq<char>)
    requires
        directives_from(t, 0).len() == 1,
    ensures
        ({
            let s = directives_from(t, 0)[0].0;
            let p = directives_from(t, 0)[0].1;
            &&& 0 <= s
            &&& s + 10 <= p
            &&& p + 4 <= t.len()
            &&& t.subrange(s, s + 10) == open_marker()
            &&& t.subrange(p, p + 4) == close_marker()
            &&& stripped_from(t, 0) == t.take(s) + t.skip(p + 4)
            &&& instructions_from(t, 0) == seq![(anchor_of(t, s), body_of(t, s, p))]
            &&& body_of(t, s, p) == trim(t.subrange(s + 10, p))
            &&& anchor_of(t, s).len() <= ANCHOR_CHARS
            &&& exists|a: int, b: int|
                anchor_start(s) <= a <= b <= s && anchor_of(t, s) == t.subrange(a, b)
        }),
{
    lemma_scan(t, 0);
    let s = directives_from(t, 0)[0].0;
    let p = directives_from(t, 0)[0].1;
    assert(directives_from(t, p + 4).len() == 0);
    lemma_scan(t, p + 4);
    assert(t.subrange(0, s) =~= t.take(s));
    assert(instructions_from(t, 0) =~= seq![(anchor_of(t, s), body_of(t, s, p))]);
    let lo = anchor_start(s);
    let w = t.subrange(lo, s);
    let a = lead_end(w, 0);
    lemma_lead_end(w, 0);
    let b = trail_start(w, a, w.len() as int);
    lemma_trail_start(w, a, w.len() as int);
    assert(anchor_of(t, s) =~= t.subrange(lo + a, lo + b));
}

} // verus!
