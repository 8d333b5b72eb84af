//! The quality score of a text: points for length, for line structure and for
//! lexical diversity, on top of a baseline.
use crate::words::{count_distinct, split_whitespace_words, split_words, word_views};
use crate::{clamp_score, clamp_spec, MAX_SCORE};
use vstd::prelude::*;
use vstd::std_specs::iter::IteratorSpec;
use vstd::string::StrSliceExecFns;

verus! {

/// The shortest text that earns the full length points.
pub const IDEAL_MIN_LEN: usize = 50;

/// The longest text that earns the full length points.
pub const IDEAL_MAX_LEN: usize = 2000;

/// The points that every text receives.
pub const BASELINE_POINTS: i64 = 20;

/// Points for length: full inside the ideal band (both ends included), half
/// above it, none below it.
pub open spec fn length_points(len: int) -> int {
    if IDEAL_MIN_LEN <= len <= IDEAL_MAX_LEN {
        40
    } else if len > IDEAL_MAX_LEN {
        20
    } else {
        0
    }
}

/// Points for containing at least one line break.
pub open spec fn newline_points(s: Seq<char>) -> int {
    if s.contains('\n') {
        10
    } else {
        0
    }
}

/// Points for the share of distinct words among `total` words: more than
/// three fifths earns 30, more than two fifths earns 15. No words earn none.
pub open spec fn diversity_points(distinct: int, total: int) -> int {
    if total <= 0 {
        0
    } else if 5 * distinct > 3 * total {
        30
    } else if 5 * distinct > 2 * total {
        15
    } else {
        0
    }
}

/// The quality score of `s`, in points.
pub open spec fn quality_points(s: Seq<char>) -> int {
    let ws = split_words(s);
    clamp_spec(
        length_points(s.len() as int) + newline_points(s) + diversity_points(
            ws.to_set().len() as int,
            ws.len() as int,
        ) + BASELINE_POINTS,
    )
}

/// Tells whether `content` holds a line break.
pub fn has_newline(content: &str) -> (r: bool)
    ensures
        r == content@.contains('\n'),
{
    broadcast use vstd::string::axiom_spec_iter, vstd::string::next_postcondition;

    let mut chars = content.chars();
    let ghost mut i: int = 0;
    loop
        invariant
            0 <= i <= content@.len(),
            chars.remaining() == content@.skip(i),
            forall|k: int| 0 <= k < i ==> content@[k] != '\n',
        decreases content@.len() - i,
    {
        match chars.next() {
            None => {
                return false;
            },
            Some(c) => {
                assert(content@[i] == c);
                if c == '\n' {
                    return true;
                }
                proof {
                    i = i + 1;
                    assert(content@.skip(i) =~= content@.skip(i - 1).drop_first());
                }
            },
        }
    }
}

/// The points earned by `distinct` distinct words among `total` words.
pub fn diversity_bonus(distinct: usize, total: usize) -> (r: i64)
    ensures
        r == diversity_points(distinct as int, total as int),
{
    if total == 0 {
        0
    } else if (distinct as u128) * 5 > (total as u128) * 3 {
        30
    } else if (distinct as u128) * 5 > (total as u128) * 2 {
        15
    } else {
        0
    }
}

/// The quality score of `content`, in points between zero and `MAX_SCORE`.
pub fn quality_core(content: &str) -> (r: i64)
    ensures
        r == quality_points(content@),
        0 <= r <= MAX_SCORE,
{
    let mut score: i64 = 0;
    let len = content.unicode_len();
    if IDEAL_MIN_LEN <= len && len <= IDEAL_MAX_LEN {
        score = score + 40;
    } else if len > IDEAL_MAX_LEN {
        score = score + 20;
    }
    if has_newline(content) {
        score = score + 10;
    }
    let words = split_whitespace_words(content);
    let distinct = count_distinct(&words);
    proof {
        assert(word_views(words@).len() == words@.len());
    }
    score = score + diversity_bonus(distinct, words.len());
    score = score + BASELINE_POINTS;
    clamp_score(score)
}

/// A text longer than the ideal band scores at most 80 points: 20 for its
/// length, 10 for a line break, 30 for diversity and the baseline.
pub proof fn lemma_long_text_bound(s: Seq<char>)
    requires
        s.len() > IDEAL_MAX_LEN,
    ensures
        quality_points(s) <= 80,
{
}

/// A text longer than the ideal band, without a line break, made of three or
/// more copies of one word scores 40 points: 20 for its length and the
/// baseline.
pub proof fn lemma_long_repetitive_text(s: Seq<char>)
    requires
        s.len() > IDEAL_MAX_LEN,
        !s.contains('\n'),
        split_words(s).len() >= 3,
        forall|k: int| 0 <= k < split_words(s).len() ==> #[trigger] split_words(s)[k] == split_words(s)[0],
    ensures
        quality_points(s) == 40,
{
    broadcast use vstd::set::group_set_axioms;

    let ws = split_words(s);
    assert(ws.to_set() =~= Set::empty().insert(ws[0])) by {
        assert(ws.contains(ws[0]));
    }
}

/// A text inside the ideal length band, without a line break, whose words are
/// all different scores 90 points: 40 for its length, 30 for diversity and
/// the baseline.
pub proof fn lemma_distinct_single_line(s: Seq<char>)
    requires
        IDEAL_MIN_LEN <= s.len() <= IDEAL_MAX_LEN,
        !s.contains('\n'),
        split_words(s).len() > 0,
        split_words(s).no_duplicates(),
    ensures
        quality_points(s) == 90,
{
    split_words(s).unique_seq_to_set();
}

/// Equal texts get equal scores: the score depends on the characters alone.
pub proof fn lemma_quality_deterministic(s1: Seq<char>, s2: Seq<char>)
    requires
        s1 == s2,
    ensures
        quality_points(s1) == quality_points(s2),
{
}

} // verus!
