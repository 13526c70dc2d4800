//! Scaffolding a new book: the author questionnaire, page-count defaults and
//! template placeholders.
use vstd::prelude::*;
use crate::text::{
    chars_of, decimal, occurs, occurs_at, push_decimal, push_str, to_string, trim, trim_range,
};
use crate::git::find_newline;

verus! {

/// One question put to the author, and the file its answer goes to.
#[derive(Debug)]
pub struct Question {
    pub question: String,
    pub hint: String,
    pub target_file: String,
    pub options: Option<Vec<String>>,
}

#[derive(Debug)]
pub struct InitPayload {
    pub status: String,
    pub title: String,
    pub author: String,
    pub files_created: Vec<String>,
    pub questions: Vec<Question>,
}

#[derive(Debug)]
pub struct SeedPayload {
    pub status: String,
    pub files_created: Vec<String>,
}

/// Suggested (target pages, pages per session) for a book type; any type
/// other than the two short forms counts as a novel.
pub open spec fn suggested_spec(book_type: Seq<char>) -> (u32, u32) {
    if book_type == "Flash fiction"@ {
        (5, 2)
    } else if book_type == "Short story"@ {
        (20, 3)
    } else {
        (250, 6)
    }
}

pub fn suggested_defaults(book_type: &str) -> (r: (u32, u32))
    ensures
        r == suggested_spec(book_type@),
{
    let t = chars_of(book_type);
    let flash = chars_of("Flash fiction");
    let short = chars_of("Short story");
    if t.len() == flash.len() && occurs_at(&t, 0, &flash) {
        assert(t@ =~= flash@.subrange(0, flash@.len() as int));
        assert(t@ =~= t@.subrange(0, flash@.len() as int));
        (5, 2)
    } else if t.len() == short.len() && occurs_at(&t, 0, &short) {
        assert(t@ =~= t@.subrange(0, short@.len() as int));
        proof {
            if book_type@ == "Flash fiction"@ {
                assert(occurs(t@, flash@, 0)) by {
                    assert(t@.subrange(0, flash@.len() as int) =~= t@);
                }
            }
        }
        (20, 3)
    } else {
        proof {
            if book_type@ == "Flash fiction"@ {
                assert(t@.subrange(0, flash@.len() as int) =~= t@);
            }
            if book_type@ == "Short story"@ {
                assert(t@.subrange(0, short@.len() as int) =~= t@);
            }
        }
        (250, 6)
    }
}

/// `t` with every occurrence of `pat` (leftmost first, not overlapping)
/// replaced by `by`, as `str::replace` does.
pub open spec fn replace_from(t: Seq<char>, pat: Seq<char>, by: Seq<char>, i: int) -> Seq<char>
    decreases t.len() - i,
{
    if i < 0 || i >= t.len() {
        Seq::empty()
    } else if occurs(t, pat, i) && pat.len() > 0 {
        by + replace_from(t, pat, by, i + pat.len())
    } else {
        seq![t[i]] + replace_from(t, pat, by, i + 1)
    }
}

pub open spec fn replace_all(t: Seq<char>, pat: Seq<char>, by: Seq<char>) -> Seq<char> {
    replace_from(t, pat, by, 0)
}

fn replace_text(t: &Vec<char>, pat: &Vec<char>, by: &Vec<char>) -> (r: Vec<char>)
    requires
        pat.len() > 0,
    ensures
        r@ == replace_all(t@, pat@, by@),
{
    let mut out: Vec<char> = Vec::new();
    let mut i: usize = 0;
    while i < t.len()
        invariant
            i <= t.len(),
            pat.len() > 0,
            out@ + replace_from(t@, pat@, by@, i as int) == replace_all(t@, pat@, by@),
        decreases t.len() - i,
    {
        let ghost before = out@;
        if occurs_at(t, i, pat) {
            let mut k: usize = 0;
            while k < by.len()
                invariant
                    k <= by.len(),
                    out@ == before + by@.take(k as int),
                decreases by.len() - k,
            {
                out.push(by[k]);
                k = k + 1;
                assert(out@ =~= before + by@.take(k as int));
            }
            assert(by@.take(by.len() as int) =~= by@);
            assert(out@ + replace_from(t@, pat@, by@, i + pat.len()) =~= before + replace_from(
                t@,
                pat@,
                by@,
                i as int,
            ));
            i = i + pat.len();
        } else {
            out.push(t[i]);
            assert(out@ + replace_from(t@, pat@, by@, i + 1) =~= before + replace_from(
                t@,
                pat@,
                by@,
                i as int,
            ));
            i = i + 1;
        }
    }
    assert(out@ =~= replace_all(t@, pat@, by@));
    out
}

/// A template with its title and author placeholders filled in.
pub open spec fn filled(template: Seq<char>, title: Seq<char>, author: Seq<char>) -> Seq<char> {
    replace_all(replace_all(template, "{{TITLE}}"@, title), "{{AUTHOR}}"@, author)
}

pub fn fill(template: &str, title: &str, author: &str) -> (r: String)
    ensures
        r@ == filled(template@, title@, author@),
{
    let t = chars_of(template);
    let tp = chars_of("{{TITLE}}");
    let ap = chars_of("{{AUTHOR}}");
    proof {
        reveal_strlit("{{TITLE}}");
        reveal_strlit("{{AUTHOR}}");
    }
    let once = replace_text(&t, &tp, &chars_of(title));
    let twice = replace_text(&once, &ap, &chars_of(author));
    to_string(&twice)
}


/// Words per page used to turn page counts into word counts.
pub const WORDS_PER_PAGE: u64 = 250;

/// Words per chapter used to derive a chapter count.
pub const WORDS_PER_CHAPTER: u64 = 3000;

/// Chapters needed for `target_words`, rounding up, and at least one.
pub open spec fn chapters_for(target_words: int) -> int {
    if target_words <= 0 {
        1
    } else {
        (target_words + WORDS_PER_CHAPTER - 1) / (WORDS_PER_CHAPTER as int)
    }
}

pub fn chapter_count_for(target_words: u64) -> (r: u64)
    requires
        target_words <= u32::MAX as u64 * WORDS_PER_PAGE,
    ensures
        r == chapters_for(target_words as int),
{
    if target_words == 0 {
        1
    } else {
        (target_words + WORDS_PER_CHAPTER - 1) / WORDS_PER_CHAPTER
    }
}

pub open spec fn is_digit(c: char) -> bool {
    '0' <= c <= '9'
}

/// Value of a run of decimal digits.
pub open spec fn digits_value(s: Seq<char>) -> int
    decreases s.len(),
{
    if s.len() == 0 {
        0
    } else {
        digits_value(s.drop_last()) * 10 + ((s.last() as u32) - ('0' as u32))
    }
}

/// `s` without one leading `+`.
pub open spec fn unsigned_part(s: Seq<char>) -> Seq<char> {
    if s.len() > 0 && s[0] == '+' {
        s.skip(1)
    } else {
        s
    }
}

pub open spec fn all_digits(d: Seq<char>) -> bool {
    forall|i: int| 0 <= i < d.len() ==> is_digit(#[trigger] d[i])
}

/// A `u32` written in decimal, with an optional leading `+`, as
/// `u32::from_str` reads it.
pub open spec fn parse_u32(s: Seq<char>) -> Option<int> {
    let d = unsigned_part(s);
    if d.len() > 0 && all_digits(d) && digits_value(d) <= u32::MAX {
        Some(digits_value(d))
    } else {
        None
    }
}

/// The number of pages an answer gives; 0 when it is not a number.
pub open spec fn pages_in(answer: Seq<char>) -> int {
    match parse_u32(trim(answer)) {
        Some(n) => n,
        None => 0,
    }
}

pub fn page_count(answer: &str) -> (r: u32)
    ensures
        r == pages_in(answer@),
{
    let v = chars_of(answer);
    let (a, b) = trim_range(&v, 0, v.len());
    assert(v@.subrange(0, v.len() as int) =~= v@);
    let ghost t = v@.subrange(a as int, b as int);
    assert(trim(answer@) == t);
    let start = if a < b && v[a] == '+' {
        a + 1
    } else {
        a
    };
    let ghost d = v@.subrange(start as int, b as int);
    assert(d =~= unsigned_part(t));
    if start == b {
        return 0;
    }
    let mut value: u64 = 0;
    let mut i = start;
    while i < b
        invariant
            start <= i <= b <= v.len(),
            d == v@.subrange(start as int, b as int),
            t == trim(answer@),
            d == unsigned_part(t),
            forall|k: int| start <= k < i ==> is_digit(#[trigger] v@[k]),
            value == (if digits_value(v@.subrange(start as int, i as int)) > u32::MAX {
                u32::MAX as int + 1
            } else {
                digits_value(v@.subrange(start as int, i as int))
            }),
        decreases b - i,
    {
        let c = v[i];
        if !('0' <= c && c <= '9') {
            assert(!is_digit(d[i - start]));
            assert(!all_digits(d));
            return 0;
        }
        let ghost prev = v@.subrange(start as int, i as int);
        let ghost next = v@.subrange(start as int, i + 1);
        assert(next.drop_last() =~= prev);
        let digit = (c as u32 - '0' as u32) as u64;
        proof {
            let dv = digits_value(prev);
            assert(digits_value(next) == dv * 10 + digit);
            assert(dv >= 0) by {
                lemma_digits_nonneg(prev);
            }
        }
        let grown = value * 10 + digit;
        value = if grown > u32::MAX as u64 {
            u32::MAX as u64 + 1
        } else {
            grown
        };
        proof {
            let dv = digits_value(prev);
            if dv > u32::MAX {
                assert(dv * 10 + digit > u32::MAX) by (nonlinear_arith)
                    requires
                        dv > u32::MAX,
                        digit >= 0,
                ;
            }
        }
        i = i + 1;
    }
    assert(v@.subrange(start as int, b as int) =~= d);
    if value > u32::MAX as u64 {
        0
    } else {
        value as u32
    }
}

pub proof fn lemma_digits_nonneg(s: Seq<char>)
    requires
        forall|i: int| 0 <= i < s.len() ==> is_digit(#[trigger] s[i]),
    ensures
        digits_value(s) >= 0,
    decreases s.len(),
{
    if s.len() > 0 {
        let p = s.drop_last();
        assert forall|i: int| 0 <= i < p.len() implies is_digit(#[trigger] p[i]) by {
            assert(p[i] == s[i]);
        }
        lemma_digits_nonneg(p);
        assert(is_digit(s[s.len() - 1]));
    }
}

/// The sections of a document whose answer is not blank, as
/// `\n## heading\n\nanswer\n`.
pub open spec fn section_text(sections: Seq<(Seq<char>, Seq<char>)>) -> Seq<char>
    decreases sections.len(),
{
    if sections.len() == 0 {
        Seq::empty()
    } else {
        let (h, a) = sections.last();
        section_text(sections.drop_last()) + if trim(a).len() > 0 {
            "\n## "@ + h + "\n\n"@ + trim(a) + "\n"@
        } else {
            Seq::empty()
        }
    }
}

pub open spec fn any_answered(sections: Seq<(Seq<char>, Seq<char>)>) -> bool {
    exists|i: int| 0 <= i < sections.len() && trim(#[trigger] sections[i].1).len() > 0
}

pub open spec fn section_views(s: Seq<(String, String)>) -> Seq<(Seq<char>, Seq<char>)> {
    s.map_values(|p: (String, String)| (p.0@, p.1@))
}

/// A markdown document titled `title` with a section per answered
/// question; `None` when no answer was given.
pub fn section_document(title: &str, sections: &Vec<(String, String)>) -> (r: Option<String>)
    ensures
        any_answered(section_views(sections@)) ==> (r matches Some(d) && d@ == "# "@ + title@
            + "\n"@ + section_text(section_views(sections@))),
        !any_answered(section_views(sections@)) ==> r is None,
{
    let ghost sv = section_views(sections@);
    let mut body: Vec<char> = Vec::new();
    let mut answered = false;
    let mut k: usize = 0;
    while k < sections.len()
        invariant
            k <= sections.len(),
            sv == section_views(sections@),
            body@ == section_text(sv.take(k as int)),
            answered <==> any_answered(sv.take(k as int)),
        decreases sections.len() - k,
    {
        let ghost before = sv.take(k as int);
        assert(sv.take(k + 1).drop_last() =~= before);
        assert(sv.take(k + 1).last() == sv[k as int]);
        let a = chars_of(sections[k].1.as_str());
        let (x, y) = trim_range(&a, 0, a.len());
        assert(a@.subrange(0, a.len() as int) =~= a@);
        if x < y {
            push_str("\n## ", &mut body);
            push_str(sections[k].0.as_str(), &mut body);
            push_str("\n\n", &mut body);
            let mut i = x;
            let ghost mid = body@;
            while i < y
                invariant
                    x <= i <= y <= a.len(),
                    body@ == mid + a@.subrange(x as int, i as int),
                decreases y - i,
            {
                body.push(a[i]);
                i = i + 1;
                assert(body@ =~= mid + a@.subrange(x as int, i as int));
            }
            push_str("\n", &mut body);
            answered = true;
            assert(any_answered(sv.take(k + 1))) by {
                assert(trim(sv.take(k + 1)[k as int].1).len() > 0);
            }
        } else {
            assert(any_answered(sv.take(k + 1)) == any_answered(before)) by {
                if any_answered(sv.take(k + 1)) {
                    let i = choose|i: int|
                        0 <= i < k + 1 && trim(#[trigger] sv.take(k + 1)[i].1).len() > 0;
                    assert(i < k);
                    assert(sv.take(k + 1)[i] == before[i]);
                }
                if any_answered(before) {
                    let i = choose|i: int| 0 <= i < k && trim(#[trigger] before[i].1).len() > 0;
                    assert(sv.take(k + 1)[i] == before[i]);
                }
            }
        }
        proof {
            if answered && !any_answered(before) {
                assert(any_answered(sv.take(k + 1)));
            }
            if any_answered(before) {
                let i = choose|i: int| 0 <= i < k && trim(#[trigger] before[i].1).len() > 0;
                assert(sv.take(k + 1)[i] == before[i]);
            }
        }
        assert(body@ =~= section_text(sv.take(k + 1)));
        k = k + 1;
    }
    assert(sv.take(sections.len() as int) =~= sv);
    if answered {
        let mut doc: Vec<char> = Vec::new();
        push_str("# ", &mut doc);
        push_str(title, &mut doc);
        push_str("\n", &mut doc);
        let n = body.len();
        let mut i: usize = 0;
        let ghost head = doc@;
        while i < n
            invariant
                i <= n == body.len(),
                doc@ == head + body@.take(i as int),
            decreases n - i,
        {
            doc.push(body[i]);
            i = i + 1;
            assert(doc@ =~= head + body@.take(i as int));
        }
        assert(body@.take(n as int) =~= body@);
        Some(to_string(&doc))
    } else {
        None
    }
}


/// `l` without one trailing carriage return.
pub open spec fn strip_cr(l: Seq<char>) -> Seq<char> {
    if l.len() > 0 && l.last() == '\r' {
        l.drop_last()
    } else {
        l
    }
}

/// The lines of `t` as `str::lines` gives them: split at `\n` or `\r\n`,
/// no empty line after a final line ending.
pub open spec fn text_lines(t: Seq<char>) -> Seq<Seq<char>>
    decreases t.len(),
{
    let k = find_newline(t, 0);
    if 0 <= k < t.len() {
        seq![strip_cr(t.take(k))] + text_lines(t.skip(k + 1))
    } else if t.len() == 0 {
        Seq::empty()
    } else {
        seq![t]
    }
}

pub open spec fn joined_lines(ls: Seq<Seq<char>>) -> Seq<char>
    decreases ls.len(),
{
    if ls.len() == 0 {
        Seq::empty()
    } else if ls.len() == 1 {
        ls[0]
    } else {
        joined_lines(ls.drop_last()) + "\n"@ + ls.last()
    }
}

pub open spec fn starts_with(l: Seq<char>, key: Seq<char>) -> bool {
    key.len() <= l.len() && l.take(key.len() as int) == key
}

/// A configuration line with the answer for its key, when the author gave one.
pub open spec fn patched_line(l: Seq<char>, lang: Seq<char>, target_pages: int, session_pages: int) -> Seq<
    char,
> {
    if starts_with(l, "language:"@) && lang.len() > 0 {
        "language: "@ + lang
    } else if starts_with(l, "target_length:"@) && target_pages > 0 {
        "target_length: "@ + decimal((target_pages * WORDS_PER_PAGE) as nat)
    } else if starts_with(l, "words_per_session:"@) && session_pages > 0 {
        "words_per_session: "@ + decimal((session_pages * WORDS_PER_PAGE) as nat)
    } else if starts_with(l, "chapter_count:"@) && target_pages > 0 {
        "chapter_count: "@ + decimal(chapters_for(target_pages * WORDS_PER_PAGE) as nat)
    } else {
        l
    }
}

/// The configuration text with the questionnaire's answers: language, book
/// length and session length in pages (0 when not given).
pub open spec fn patched_config(t: Seq<char>, language: Seq<char>, target_pages: int, session_pages: int) -> Seq<
    char,
> {
    joined_lines(
        text_lines(t).map_values(
            |l: Seq<char>| patched_line(l, trim(language), target_pages, session_pages),
        ),
    ) + "\n"@
}

fn key_at(v: &Vec<char>, lo: usize, hi: usize, key: &str) -> (r: bool)
    requires
        lo <= hi <= v.len(),
    ensures
        r == starts_with(v@.subrange(lo as int, hi as int), key@),
{
    let k = chars_of(key);
    if k.len() > hi - lo {
        return false;
    }
    let r = occurs_at(v, lo, &k);
    assert(v@.subrange(lo as int, hi as int).take(k.len() as int) =~= v@.subrange(
        lo as int,
        lo + k.len(),
    ));
    r
}

fn push_patched(
    v: &Vec<char>,
    lo: usize,
    hi: usize,
    lang: &Vec<char>,
    target_pages: u32,
    session_pages: u32,
    out: &mut Vec<char>,
)
    requires
        lo <= hi <= v.len(),
    ensures
        final(out)@ == old(out)@ + patched_line(
            v@.subrange(lo as int, hi as int),
            lang@,
            target_pages as int,
            session_pages as int,
        ),
{
    let ghost l = v@.subrange(lo as int, hi as int);
    if key_at(v, lo, hi, "language:") && lang.len() > 0 {
        push_str("language: ", out);
        let mut i: usize = 0;
        let ghost head = out@;
        while i < lang.len()
            invariant
                i <= lang.len(),
                out@ == head + lang@.take(i as int),
            decreases lang.len() - i,
        {
            out.push(lang[i]);
            i = i + 1;
            assert(out@ =~= head + lang@.take(i as int));
        }
        assert(lang@.take(lang.len() as int) =~= lang@);
    } else if key_at(v, lo, hi, "target_length:") && target_pages > 0 {
        push_str("target_length: ", out);
        push_decimal(target_pages as u64 * WORDS_PER_PAGE, out);
    } else if key_at(v, lo, hi, "words_per_session:") && session_pages > 0 {
        push_str("words_per_session: ", out);
        push_decimal(session_pages as u64 * WORDS_PER_PAGE, out);
    } else if key_at(v, lo, hi, "chapter_count:") && target_pages > 0 {
        push_str("chapter_count: ", out);
        push_decimal(chapter_count_for(target_pages as u64 * WORDS_PER_PAGE), out);
    } else {
        let mut i = lo;
        let ghost head = out@;
        while i < hi
            invariant
                lo <= i <= hi <= v.len(),
                out@ == head + v@.subrange(lo as int, i as int),
            decreases hi - i,
        {
            out.push(v[i]);
            i = i + 1;
            assert(out@ =~= head + v@.subrange(lo as int, i as int));
        }
    }
}

/// Rewrite the configuration's language, length, session-length and
/// chapter-count lines from the author's answers.
pub fn config_with_answers(content: &str, language: &str, target_pages: u32, session_pages: u32) -> (r:
    String)
    ensures
        r@ == patched_config(content@, language@, target_pages as int, session_pages as int),
{
    let v = chars_of(content);
    let lv = chars_of(language);
    let (a, b) = trim_range(&lv, 0, lv.len());
    assert(lv@.subrange(0, lv.len() as int) =~= lv@);
    let mut lang: Vec<char> = Vec::new();
    let mut j = a;
    while j < b
        invariant
            a <= j <= b <= lv.len(),
            lang@ == lv@.subrange(a as int, j as int),
        decreases b - j,
    {
        lang.push(lv[j]);
        j = j + 1;
        assert(lang@ =~= lv@.subrange(a as int, j as int));
    }
    let ghost patch = |l: Seq<char>| patched_line(l, lang@, target_pages as int, session_pages as int);
    let ghost all = text_lines(v@);
    let mut out: Vec<char> = Vec::new();
    let mut count: usize = 0;
    let mut st: usize = 0;
    let mut i: usize = 0;
    assert(v@.skip(0) =~= v@);
    while i < v.len()
        invariant
            st <= i <= v.len(),
            lang@ == trim(language@),
            v@ == content@,
            all == text_lines(v@),
            count <= all.len(),
            count <= i,
            all.take(count as int) + text_lines(v@.skip(st as int)) == all,
            out@ == joined_lines(all.take(count as int).map_values(patch)),
            find_newline(v@.skip(st as int), i - st) == find_newline(v@.skip(st as int), 0),
            patch == (|l: Seq<char>| patched_line(l, lang@, target_pages as int, session_pages as int)),
        decreases v.len() - i,
    {
        if v[i] == '\n' {
            let ghost s = v@.skip(st as int);
            let end = if i > st && v[i - 1] == '\r' {
                i - 1
            } else {
                i
            };
            let ghost line = strip_cr(s.take(i - st));
            proof {
                let k = i - st;
                assert(find_newline(s, k) == k);
                assert(s.take(k) =~= v@.subrange(st as int, i as int));
                assert(line =~= v@.subrange(st as int, end as int));
                assert(s.skip(k + 1) =~= v@.skip(i + 1));
                assert(text_lines(s) == seq![line] + text_lines(v@.skip(i + 1)));
                assert(all.take(count as int) + seq![line] + text_lines(v@.skip(i + 1)) =~= all);
                assert(count < all.len());
                assert(all.take(count + 1) =~= all.take(count as int).push(line));
                assert(all.take(count + 1).map_values(patch) =~= all.take(count as int).map_values(
                    patch,
                ).push(patch(line)));
                assert(all.take(count + 1).map_values(patch).drop_last() =~= all.take(
                    count as int,
                ).map_values(patch));
            }
            if count > 0 {
                push_str("\n", &mut out);
            }
            push_patched(&v, st, end, &lang, target_pages, session_pages, &mut out);
            proof {
                if count == 0 {
                    assert(all.take(1).map_values(patch) =~= seq![patch(line)]);
                }
            }
            count = count + 1;
            st = i + 1;
        }
        i = i + 1;
    }
    proof {
        let s = v@.skip(st as int);
        assert(find_newline(s, i - st) == -1);
        assert(s =~= v@.subrange(st as int, v.len() as int));
    }
    if st < v.len() {
        let ghost line = v@.subrange(st as int, v.len() as int);
        proof {
            assert(text_lines(v@.skip(st as int)) == seq![line]);
            assert(count < all.len());
            assert(all.take(count + 1) =~= all);
            assert(all.take(count as int).push(line) =~= all);
            assert(all.map_values(patch) =~= all.take(count as int).map_values(patch).push(
                patch(line),
            ));
            assert(all.map_values(patch).drop_last() =~= all.take(count as int).map_values(patch));
        }
        if count > 0 {
            push_str("\n", &mut out);
        }
        push_patched(&v, st, v.len(), &lang, target_pages, session_pages, &mut out);
        proof {
            if count == 0 {
                assert(all.map_values(patch) =~= seq![patch(line)]);
            }
        }
    } else {
        proof {
            assert(text_lines(v@.skip(st as int)).len() == 0);
            assert(all.take(count as int) =~= all);
        }
    }
    push_str("\n", &mut out);
    assert(out@ =~= patched_config(content@, language@, target_pages as int, session_pages as int));
    to_string(&out)
}

} // verus!
