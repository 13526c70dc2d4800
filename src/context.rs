//! Context assembly: summary truncation and review-window truncation.
use vstd::prelude::*;
use crate::git::string_views;
use crate::text::{
    decimal2, has_substring, push_decimal, push_str, to_string,
    all_clean, chars_of, clean, lemma_join_ends_with_last, lemma_paragraphs_clean,
    lemma_paragraphs_join, count_words, join, join_slices, paragraphs, ranges_within, slices,
    split_paragraphs, word_count,
};

verus! {

/// A summary paragraph with fewer words than this is a terse one-liner and is
/// passed over while longer ones exist.
pub const MIN_SUMMARY_PARAGRAPH_WORDS: usize = 15;

/// The paragraphs of `ps` that have at least the minimum number of words.
pub open spec fn substantive(ps: Seq<Seq<char>>) -> Seq<Seq<char>>
    decreases ps.len(),
{
    if ps.len() == 0 {
        Seq::empty()
    } else {
        let r = substantive(ps.drop_last());
        if word_count(ps.last()) >= MIN_SUMMARY_PARAGRAPH_WORDS {
            r.push(ps.last())
        } else {
            r
        }
    }
}

/// The substantive paragraphs, or all of them when none is substantive.
pub open spec fn summary_pool(ps: Seq<Seq<char>>) -> Seq<Seq<char>> {
    if substantive(ps).len() > 0 {
        substantive(ps)
    } else {
        ps
    }
}

/// The last `n` elements of `ps` (all of them when there are fewer).
pub open spec fn last_n(ps: Seq<Seq<char>>, n: int) -> Seq<Seq<char>> {
    if ps.len() > n {
        ps.skip(ps.len() - n)
    } else {
        ps
    }
}

/// The summary text cut down to its last `n` qualifying paragraphs.
pub open spec fn summary_tail(t: Seq<char>, n: int) -> Seq<char> {
    join(last_n(summary_pool(paragraphs(t)), n))
}

/// Keep only the last `n` substantive paragraphs of a summary, oldest first,
/// separated by blank lines. Falls back to all paragraphs when none is
/// substantive.
pub fn truncate_summary(text: &str, n: usize) -> (r: String)
    ensures
        r@ == summary_tail(text@, n as int),
{
    let v = chars_of(text);
    let rs = split_paragraphs(&v);
    let ghost ps = slices(v@, rs@);
    let mut sub: Vec<(usize, usize)> = Vec::new();
    let mut k: usize = 0;
    while k < rs.len()
        invariant
            k <= rs.len(),
            ps == slices(v@, rs@),
            ranges_within(rs@, v.len() as int),
            ranges_within(sub@, v.len() as int),
            slices(v@, sub@) == substantive(ps.take(k as int)),
        decreases rs.len() - k,
    {
        let (a, b) = rs[k];
        assert(ps.take(k + 1).drop_last() =~= ps.take(k as int));
        let ghost before = sub@;
        if count_words(&v, a, b) >= MIN_SUMMARY_PARAGRAPH_WORDS {
            sub.push((a, b));
            assert(slices(v@, sub@) =~= slices(v@, before).push(ps[k as int]));
        }
        k = k + 1;
    }
    assert(ps.take(rs.len() as int) =~= ps);
    let pool = if sub.len() > 0 {
        sub
    } else {
        rs
    };
    let start = if pool.len() > n {
        pool.len() - n
    } else {
        0
    };
    assert(slices(v@, pool@).skip(0) =~= slices(v@, pool@));
    join_slices(&v, &pool, start)
}

/// Sum of the word counts of `ps[i..]`.
pub open spec fn suffix_words(ps: Seq<Seq<char>>, i: int) -> int
    decreases ps.len() - i,
{
    if 0 <= i < ps.len() {
        word_count(ps[i]) + suffix_words(ps, i + 1)
    } else {
        0
    }
}

/// Going back from paragraph `i`, the first paragraph of the longest run
/// that ends the text and fits in `max` words; never past `i` itself.
pub open spec fn budget_start(ps: Seq<Seq<char>>, max: int, i: int) -> int
    decreases i,
{
    if 0 < i && suffix_words(ps, i - 1) <= max {
        budget_start(ps, max, i - 1)
    } else {
        i
    }
}

/// The trailing whole paragraphs of `t` that fit in `max` words, always at
/// least the final one.
pub open spec fn last_words(t: Seq<char>, max: int) -> Seq<char> {
    let ps = paragraphs(t);
    if ps.len() == 0 {
        Seq::empty()
    } else {
        join(ps.skip(budget_start(ps, max, ps.len() - 1)))
    }
}

pub proof fn lemma_budget_start(ps: Seq<Seq<char>>, max: int, i: int)
    requires
        0 <= i,
    ensures
        0 <= budget_start(ps, max, i) <= i,
    decreases i,
{
    if 0 < i && suffix_words(ps, i - 1) <= max {
        lemma_budget_start(ps, max, i - 1);
    }
}

/// Cut `text` to its trailing paragraphs that fit in `max_words` words,
/// never splitting a paragraph and always keeping the final one.
pub fn truncate_to_last_words(text: &str, max_words: u32) -> (r: String)
    ensures
        r@ == last_words(text@, max_words as int),
{
    let v = chars_of(text);
    let rs = split_paragraphs(&v);
    let ghost ps = slices(v@, rs@);
    if rs.len() == 0 {
        return String::new();
    }
    let last = rs.len() - 1;
    let (a, b) = rs[last];
    let mut acc: u64 = count_words(&v, a, b) as u64;
    let mut start = last;
    assert(suffix_words(ps, last + 1) == 0);
    while start > 0
        invariant_except_break
            0 < start ==> start <= last,
        invariant
            start <= last < rs.len(),
            ps == slices(v@, rs@),
            ranges_within(rs@, v.len() as int),
            acc == suffix_words(ps, start as int),
            budget_start(ps, max_words as int, start as int) == budget_start(
                ps,
                max_words as int,
                last as int,
            ),
        ensures
            budget_start(ps, max_words as int, start as int) == start,
        decreases start,
    {
        let (a, b) = rs[start - 1];
        let w = count_words(&v, a, b) as u64;
        if acc > max_words as u64 || w > max_words as u64 - acc {
            break;
        }
        acc = acc + w;
        start = start - 1;
    }
    join_slices(&v, &rs, start)
}


pub proof fn lemma_substantive(ps: Seq<Seq<char>>)
    ensures
        all_clean(ps) ==> all_clean(substantive(ps)),
        forall|i: int|
            0 <= i < substantive(ps).len() ==> word_count(#[trigger] substantive(ps)[i])
                >= MIN_SUMMARY_PARAGRAPH_WORDS,
        (forall|i: int|
            0 <= i < ps.len() ==> word_count(#[trigger] ps[i]) >= MIN_SUMMARY_PARAGRAPH_WORDS)
            ==> substantive(ps) == ps,
        substantive(ps).len() == 0 <==> forall|i: int|
            0 <= i < ps.len() ==> word_count(#[trigger] ps[i]) < MIN_SUMMARY_PARAGRAPH_WORDS,
    decreases ps.len(),
{
    if ps.len() > 0 {
        let init = ps.drop_last();
        lemma_substantive(init);
        let r = substantive(init);
        if all_clean(ps) {
            assert(all_clean(init)) by {
                assert forall|i: int| 0 <= i < init.len() implies clean(#[trigger] init[i]) by {
                    assert(init[i] == ps[i]);
                }
            }
            assert(clean(ps[ps.len() - 1]));
        }
        if forall|i: int|
            0 <= i < ps.len() ==> word_count(#[trigger] ps[i]) >= MIN_SUMMARY_PARAGRAPH_WORDS {
            assert forall|i: int| 0 <= i < init.len() implies word_count(#[trigger] init[i])
                >= MIN_SUMMARY_PARAGRAPH_WORDS by {
                assert(init[i] == ps[i]);
            }
            assert(word_count(ps[ps.len() - 1]) >= MIN_SUMMARY_PARAGRAPH_WORDS);
            assert(init.push(ps.last()) =~= ps);
        }
        if substantive(ps).len() == 0 {
            assert forall|i: int| 0 <= i < ps.len() implies word_count(#[trigger] ps[i])
                < MIN_SUMMARY_PARAGRAPH_WORDS by {
                if i < init.len() {
                    assert(init[i] == ps[i]);
                }
            }
        }
        if forall|i: int|
            0 <= i < ps.len() ==> word_count(#[trigger] ps[i]) < MIN_SUMMARY_PARAGRAPH_WORDS {
            assert forall|i: int| 0 <= i < init.len() implies word_count(#[trigger] init[i])
                < MIN_SUMMARY_PARAGRAPH_WORDS by {
                assert(init[i] == ps[i]);
            }
            assert(word_count(ps[ps.len() - 1]) < MIN_SUMMARY_PARAGRAPH_WORDS);
        }
    }
}

/// Truncating a summary that was already truncated to `n` paragraphs, again
/// to `n`, changes nothing.
pub proof fn lemma_summary_tail_idempotent(t: Seq<char>, n: int)
    requires
        0 <= n,
    ensures
        summary_tail(summary_tail(t, n), n) == summary_tail(t, n),
{
    let ps = paragraphs(t);
    lemma_paragraphs_clean(t);
    lemma_substantive(ps);
    let pool = summary_pool(ps);
    let qs = last_n(pool, n);
    let off = if pool.len() > n {
        pool.len() - n
    } else {
        0
    };
    assert(qs =~= pool.skip(off));
    assert(all_clean(qs)) by {
        assert forall|i: int| 0 <= i < qs.len() implies clean(#[trigger] qs[i]) by {
            assert(qs[i] == pool[i + off]);
        }
    }
    lemma_paragraphs_join(qs);
    lemma_substantive(qs);
    if substantive(ps).len() > 0 {
        assert forall|i: int| 0 <= i < qs.len() implies word_count(#[trigger] qs[i])
            >= MIN_SUMMARY_PARAGRAPH_WORDS by {
            assert(qs[i] == pool[i + off]);
        }
    } else {
        assert forall|i: int| 0 <= i < qs.len() implies word_count(#[trigger] qs[i])
            < MIN_SUMMARY_PARAGRAPH_WORDS by {
            assert(qs[i] == pool[i + off]);
        }
    }
    assert(summary_pool(qs) == qs);
    assert(last_n(qs, n) == qs);
}

/// Word-budget truncation keeps the final paragraph, whatever its length:
/// the result ends with it and it is the result's own final paragraph.
pub proof fn lemma_last_paragraph_kept(t: Seq<char>, max: int)
    requires
        paragraphs(t).len() > 0,
    ensures
        ({
            let r = last_words(t, max);
            let last = paragraphs(t).last();
            &&& r.len() >= last.len()
            &&& r.subrange(r.len() - last.len(), r.len() as int) == last
            &&& paragraphs(r).len() > 0
            &&& paragraphs(r).last() == last
        }),
{
    let ps = paragraphs(t);
    lemma_paragraphs_clean(t);
    let k = budget_start(ps, max, ps.len() - 1);
    lemma_budget_start(ps, max, ps.len() - 1);
    let qs = ps.skip(k);
    assert(qs.last() == ps.last());
    assert(all_clean(qs)) by {
        assert forall|i: int| 0 <= i < qs.len() implies clean(#[trigger] qs[i]) by {
            assert(qs[i] == ps[i + k]);
        }
    }
    lemma_paragraphs_join(qs);
    lemma_join_ends_with_last(qs);
}


/// File name of chapter `num`, e.g. `Chapter_07.md`.
pub open spec fn chapter_name(num: nat) -> Seq<char> {
    "Chapter_"@ + decimal2(num) + ".md"@
}

/// Path of chapter `num` from the repository root.
pub open spec fn chapter_path(num: nat) -> Seq<char> {
    "Chapters material/"@ + chapter_name(num)
}

fn push_chapter_name(num: u32, out: &mut Vec<char>)
    ensures
        final(out)@ == old(out)@ + chapter_name(num as nat),
{
    push_str("Chapter_", out);
    let ghost mid = out@;
    if num < 10 {
        out.push('0');
    }
    push_decimal(num as u64, out);
    assert(out@ =~= mid + decimal2(num as nat));
    push_str(".md", out);
    assert(out@ =~= old(out)@ + chapter_name(num as nat));
}

pub fn chapter_file_name(num: u32) -> (r: String)
    ensures
        r@ == chapter_path(num as nat),
{
    let mut v: Vec<char> = Vec::new();
    push_str("Chapters material/", &mut v);
    push_chapter_name(num, &mut v);
    assert(v@ =~= chapter_path(num as nat));
    to_string(&v)
}

/// Whether some path of the human edit set names chapter `num`.
pub open spec fn chapter_edited(edits: Seq<Seq<char>>, num: nat) -> bool {
    exists|k: int| 0 <= k < edits.len() && has_substring(#[trigger] edits[k], chapter_name(num))
}

#[derive(Debug)]
pub struct FileContent {
    pub filename: String,
    pub content: String,
}

#[derive(Debug)]
pub struct ChapterInfo {
    pub path: String,
    pub content: String,
    pub modified_today: bool,
}

#[derive(Debug)]
pub struct Chapters {
    pub current: Option<ChapterInfo>,
    pub next: Option<ChapterInfo>,
}

/// What `load_chapter` makes of chapter `num` whose text is `content`.
pub open spec fn chapter_info_spec(
    r: Option<ChapterInfo>,
    num: nat,
    content: Option<String>,
    edits: Seq<Seq<char>>,
) -> bool {
    match (r, content) {
        (None, None) => true,
        (Some(c), Some(t)) => c.path@ == chapter_path(num) && c.content == t && c.modified_today
            == chapter_edited(edits, num),
        _ => false,
    }
}

/// Chapter `num` with the text read from its file (`None` when the file does
/// not exist), marked as modified when the human edit set names it.
pub fn load_chapter(num: u32, content: Option<String>, human_edits: &Vec<String>) -> (r: Option<
    ChapterInfo,
>)
    ensures
        chapter_info_spec(r, num as nat, content, string_views(human_edits@)),
{
    match content {
        None => None,
        Some(text) => {
            let mut marker: Vec<char> = Vec::new();
            push_chapter_name(num, &mut marker);
            assert(marker@ =~= chapter_name(num as nat));
            let mut edited = false;
            let mut k: usize = 0;
            while k < human_edits.len()
                invariant
                    k <= human_edits.len(),
                    marker@ == chapter_name(num as nat),
                    edited <==> exists|j: int|
                        0 <= j < k && has_substring(
                            #[trigger] string_views(human_edits@)[j],
                            chapter_name(num as nat),
                        ),
                decreases human_edits.len() - k,
            {
                if crate::text::contains_text(human_edits[k].as_str(), &marker) {
                    edited = true;
                }
                assert(string_views(human_edits@)[k as int] == human_edits@[k as int]@);
                k = k + 1;
            }
            Some(ChapterInfo { path: chapter_file_name(num), content: text, modified_today: edited })
        },
    }
}


/// Lexicographic order of names by code point, the order of `str`'s `Ord`.
pub open spec fn lex_le(a: Seq<char>, b: Seq<char>) -> bool
    decreases a.len(),
{
    if a.len() == 0 {
        true
    } else if b.len() == 0 {
        false
    } else if (a[0] as u32) != (b[0] as u32) {
        (a[0] as u32) < (b[0] as u32)
    } else {
        lex_le(a.skip(1), b.skip(1))
    }
}

pub proof fn lemma_lex_total(a: Seq<char>, b: Seq<char>)
    ensures
        lex_le(a, b) || lex_le(b, a),
    decreases a.len(),
{
    if a.len() > 0 && b.len() > 0 && (a[0] as u32) == (b[0] as u32) {
        lemma_lex_total(a.skip(1), b.skip(1));
    }
}

pub proof fn lemma_lex_trans(a: Seq<char>, b: Seq<char>, c: Seq<char>)
    requires
        lex_le(a, b),
        lex_le(b, c),
    ensures
        lex_le(a, c),
    decreases a.len(),
{
    if a.len() > 0 && b.len() > 0 && c.len() > 0 && (a[0] as u32) == (b[0] as u32) && (b[0] as u32)
        == (c[0] as u32) {
        lemma_lex_trans(a.skip(1), b.skip(1), c.skip(1));
    }
}

fn name_le(a: &Vec<char>, b: &Vec<char>) -> (r: bool)
    ensures
        r == lex_le(a@, b@),
{
    let mut i: usize = 0;
    assert(a@.skip(0) =~= a@);
    assert(b@.skip(0) =~= b@);
    while i < a.len() && i < b.len() && (a[i] as u32) == (b[i] as u32)
        invariant
            i <= a.len(),
            i <= b.len(),
            lex_le(a@.skip(i as int), b@.skip(i as int)) == lex_le(a@, b@),
        decreases a.len() - i,
    {
        assert(a@.skip(i as int).skip(1) =~= a@.skip(i + 1));
        assert(b@.skip(i as int).skip(1) =~= b@.skip(i + 1));
        i = i + 1;
    }
    if i == a.len() {
        true
    } else if i == b.len() {
        false
    } else {
        (a[i] as u32) < (b[i] as u32)
    }
}

fn same_text(a: &str, b: &str) -> (r: bool)
    ensures
        r == (a@ == b@),
{
    let x = chars_of(a);
    let y = chars_of(b);
    if x.len() != y.len() {
        return false;
    }
    let mut i: usize = 0;
    while i < x.len()
        invariant
            i <= x.len() == y.len(),
            x@ == a@,
            y@ == b@,
            forall|j: int| 0 <= j < i ==> x@[j] == y@[j],
        decreases x.len() - i,
    {
        if x[i] != y[i] {
            assert(x@[i as int] != y@[i as int]);
            return false;
        }
        i = i + 1;
    }
    assert(x@ =~= y@);
    true
}

/// One listed reference file after selection: the configuration is left
/// out and the summary is truncated to its last `n` paragraphs.
pub open spec fn material_entry(name: Seq<char>, content: Seq<char>, n: int) -> Seq<
    (Seq<char>, Seq<char>),
> {
    if name == "Config.yml"@ {
        Seq::empty()
    } else if name == "Summary.md"@ {
        seq![(name, summary_tail(content, n))]
    } else {
        seq![(name, content)]
    }
}

pub open spec fn material_entries(files: Seq<(Seq<char>, Seq<char>)>, n: int) -> Seq<
    (Seq<char>, Seq<char>),
>
    decreases files.len(),
{
    if files.len() == 0 {
        Seq::empty()
    } else {
        material_entries(files.drop_last(), n) + material_entry(
            files.last().0,
            files.last().1,
            n,
        )
    }
}

pub open spec fn pair_views(s: Seq<(String, String)>) -> Seq<(Seq<char>, Seq<char>)> {
    s.map_values(|p: (String, String)| (p.0@, p.1@))
}

pub open spec fn file_views(s: Seq<FileContent>) -> Seq<(Seq<char>, Seq<char>)> {
    s.map_values(|f: FileContent| (f.filename@, f.content@))
}

pub open spec fn sorted_by_name(s: Seq<(Seq<char>, Seq<char>)>) -> bool {
    forall|i: int, j: int| 0 <= i < j < s.len() ==> lex_le(#[trigger] s[i].0, #[trigger] s[j].0)
}

/// Reference material from the listed files (name and text of each regular
/// file of the reference directory): the configuration left out, the summary
/// truncated to `summary_entries` paragraphs, ordered by name.
pub fn load_global_material(files: &Vec<(String, String)>, summary_entries: usize) -> (r: Vec<
    FileContent,
>)
    ensures
        sorted_by_name(file_views(r@)),
        file_views(r@).to_multiset() == material_entries(
            pair_views(files@),
            summary_entries as int,
        ).to_multiset(),
{
    broadcast use vstd::seq_lib::group_to_multiset_ensures;

    let mut out: Vec<FileContent> = Vec::new();
    let mut k: usize = 0;
    assert(file_views(out@) =~= Seq::empty());
    while k < files.len()
        invariant
            k <= files.len(),
            sorted_by_name(file_views(out@)),
            file_views(out@).to_multiset() == material_entries(
                pair_views(files@).take(k as int),
                summary_entries as int,
            ).to_multiset(),
        decreases files.len() - k,
    {
        let ghost prefix = pair_views(files@).take(k as int);
        assert(pair_views(files@).take(k + 1).drop_last() =~= prefix);
        let name = &files[k].0;
        let content = &files[k].1;
        if same_text(name.as_str(), "Config.yml") {
            assert(material_entries(pair_views(files@).take(k + 1), summary_entries as int)
                =~= material_entries(prefix, summary_entries as int));
        } else {
            let text = if same_text(name.as_str(), "Summary.md") {
                truncate_summary(content.as_str(), summary_entries)
            } else {
                content.clone()
            };
            let ghost e = (name@, text@);
            assert(material_entries(pair_views(files@).take(k + 1), summary_entries as int)
                =~= material_entries(prefix, summary_entries as int).push(e));
            let key = chars_of(name.as_str());
            let mut p: usize = 0;
            while p < out.len() && name_le(&chars_of(out[p].filename.as_str()), &key)
                invariant
                    p <= out.len(),
                    key@ == name@,
                    forall|i: int| 0 <= i < p ==> lex_le(#[trigger] file_views(out@)[i].0, key@),
                decreases out.len() - p,
            {
                p = p + 1;
            }
            let ghost old_v = file_views(out@);
            proof {
                if p < out.len() {
                    lemma_lex_total(old_v[p as int].0, key@);
                }
            }
            out.insert(p, FileContent { filename: name.clone(), content: text });
            assert(file_views(out@) =~= old_v.insert(p as int, e));
            proof {
                vstd::seq_lib::to_multiset_insert(old_v, p as int, e);
                vstd::seq_lib::to_multiset_build(material_entries(prefix, summary_entries as int), e);
            }
            assert(sorted_by_name(file_views(out@))) by {
                let nv = file_views(out@);
                assert forall|i: int, j: int| 0 <= i < j < nv.len() implies lex_le(
                    #[trigger] nv[i].0,
                    #[trigger] nv[j].0,
                ) by {
                    if j == p {
                        assert(nv[i] == old_v[i]);
                    } else if i == p {
                        assert(nv[j] == old_v[j - 1]);
                        if j - 1 > p {
                            lemma_lex_trans(key@, old_v[p as int].0, old_v[j - 1].0);
                        }
                    } else if j < p {
                        assert(nv[i] == old_v[i] && nv[j] == old_v[j]);
                    } else if i < p {
                        assert(nv[i] == old_v[i] && nv[j] == old_v[j - 1]);
                    } else {
                        assert(nv[i] == old_v[i - 1] && nv[j] == old_v[j - 1]);
                    }
                }
            }
        }
        k = k + 1;
    }
    assert(pair_views(files@).take(files.len() as int) =~= pair_views(files@));
    out
}

} // verus!
