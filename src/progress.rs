//! Word counts, thresholds and the review-window budget.
use vstd::prelude::*;
use crate::context::{last_words, truncate_to_last_words};
use crate::text::{chars_of, count_words, string_of, word_count};

verus! {

/// At least 90% of `whole`.
pub open spec fn reaches_ninety_percent(part: int, whole: int) -> bool {
    part * 10 >= whole * 9
}

/// Whether the chapter is close enough to its target length that the next
/// chapter's material should be loaded.
pub fn chapter_close_suggested(chapter_words: u32, words_per_chapter: u32) -> (r: bool)
    ensures
        r == reaches_ninety_percent(chapter_words as int, words_per_chapter as int),
{
    chapter_words as u64 * 10 >= words_per_chapter as u64 * 9
}

/// Whether the book is long enough to be completed.
pub fn completion_ready(total_words: u32, target_length: u32) -> (r: bool)
    ensures
        r == reaches_ninety_percent(total_words as int, target_length as int),
{
    total_words as u64 * 10 >= target_length as u64 * 9
}

/// Percentage of the chapter written, clamped to 100; 0 when the chapter
/// length is 0.
pub open spec fn progress_pct(chapter_words: int, words_per_chapter: int) -> int {
    if words_per_chapter <= 0 {
        0
    } else if chapter_words * 100 / words_per_chapter > 100 {
        100
    } else {
        chapter_words * 100 / words_per_chapter
    }
}

pub fn chapter_progress_pct(chapter_words: u32, words_per_chapter: u32) -> (r: u8)
    ensures
        r == progress_pct(chapter_words as int, words_per_chapter as int),
{
    if words_per_chapter == 0 {
        return 0;
    }
    let p = chapter_words as u64 * 100 / words_per_chapter as u64;
    if p > 100 {
        100
    } else {
        p as u8
    }
}

/// Within a chapter the percentage never falls as the word count grows, it
/// stays within 0..=100, and it is exactly 100 once the chapter length is
/// reached, however far it is overshot.
pub proof fn lemma_progress_monotone(c1: int, c2: int, words_per_chapter: int)
    requires
        0 <= c1 <= c2,
    ensures
        progress_pct(c1, words_per_chapter) <= progress_pct(c2, words_per_chapter),
        0 <= progress_pct(c2, words_per_chapter) <= 100,
        words_per_chapter > 0 && c2 >= words_per_chapter ==> progress_pct(c2, words_per_chapter)
            == 100,
{
    if words_per_chapter > 0 {
        vstd::arithmetic::div_mod::lemma_div_is_ordered(c1 * 100, c2 * 100, words_per_chapter);
        vstd::arithmetic::div_mod::lemma_div_pos_is_pos(c1 * 100, words_per_chapter);
        vstd::arithmetic::div_mod::lemma_div_pos_is_pos(c2 * 100, words_per_chapter);
        if c2 >= words_per_chapter {
            vstd::arithmetic::div_mod::lemma_div_is_ordered(
                words_per_chapter * 100,
                c2 * 100,
                words_per_chapter,
            );
            vstd::arithmetic::div_mod::lemma_div_multiples_vanish(100, words_per_chapter);
            assert(words_per_chapter * 100 == 100 * words_per_chapter) by (nonlinear_arith);
        }
    }
}

/// Tokens set aside for the system prompt, reference material, chapters and
/// the generated output.
pub const OVERHEAD_TOKENS: u32 = 60_000;

/// Word cap used when the budget leaves nothing after the overhead.
pub const MIN_REVIEW_WORDS: u32 = 2_000;

/// Word cap of the review text for a budget in tokens, at 1.35 tokens per
/// word; `None` (no cap) for a budget of 0.
pub open spec fn review_limit(budget_tokens: int) -> Option<int> {
    if budget_tokens == 0 {
        None
    } else if budget_tokens > OVERHEAD_TOKENS {
        Some((budget_tokens - OVERHEAD_TOKENS) * 20 / 27)
    } else {
        Some(MIN_REVIEW_WORDS as int)
    }
}

pub fn review_word_limit(budget_tokens: u32) -> (r: Option<u32>)
    ensures
        r matches Some(m) ==> review_limit(budget_tokens as int) == Some(m as int),
        r is None <==> review_limit(budget_tokens as int) is None,
{
    if budget_tokens == 0 {
        None
    } else if budget_tokens > OVERHEAD_TOKENS {
        Some(((budget_tokens - OVERHEAD_TOKENS) as u64 * 20 / 27) as u32)
    } else {
        Some(MIN_REVIEW_WORDS)
    }
}

/// The review text fitted to the budget: unchanged when it has no more words
/// than the cap, else cut to its trailing paragraphs.
pub open spec fn fitted_review(t: Seq<char>, budget_tokens: int) -> Seq<char> {
    match review_limit(budget_tokens) {
        Some(m) => if word_count(t) > m {
            last_words(t, m)
        } else {
            t
        },
        None => t,
    }
}

pub fn fit_review(text: &str, budget_tokens: u32) -> (r: String)
    ensures
        r@ == fitted_review(text@, budget_tokens as int),
{
    let v = chars_of(text);
    let n = count_words(&v, 0, v.len());
    assert(v@.subrange(0, v.len() as int) =~= v@);
    match review_word_limit(budget_tokens) {
        Some(m) => if n > m as usize {
            truncate_to_last_words(text, m)
        } else {
            string_of(&v, 0, v.len())
        },
        None => string_of(&v, 0, v.len()),
    }
}

/// Word totals of the whole work.
#[derive(Debug)]
pub struct WordCount {
    pub total: u32,
    pub target: u32,
    pub remaining: u32,
}

/// `n` as a `u32`, saturating.
pub open spec fn clamp_u32(n: int) -> int {
    if n > u32::MAX {
        u32::MAX as int
    } else {
        n
    }
}

/// Words in the full text (`None` when it does not exist yet), the target,
/// and what is left to write.
pub fn load_word_count(book: Option<&str>, target: u32) -> (r: WordCount)
    ensures
        r.total == (match book {
            Some(b) => clamp_u32(word_count(b@) as int),
            None => 0,
        }),
        r.target == target,
        r.remaining == (if target >= r.total {
            target - r.total
        } else {
            0
        }),
{
    let total: u32 = match book {
        Some(b) => {
            let v = chars_of(b);
            let n = count_words(&v, 0, v.len());
            assert(v@.subrange(0, v.len() as int) =~= v@);
            if n > u32::MAX as usize {
                u32::MAX
            } else {
                n as u32
            }
        },
        None => 0,
    };
    WordCount { total, target, remaining: target.saturating_sub(total) }
}

} // verus!
