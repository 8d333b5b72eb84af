//! Splitting text into whitespace-separated words, and counting the distinct
//! ones.
use vstd::prelude::*;
use vstd::std_specs::iter::IteratorSpec;

verus! {

/// The characters with the Unicode `White_Space` property.
pub open spec fn is_white_space(c: char) -> bool {
    let u = c as u32;
    ||| 0x09 <= u <= 0x0d
    ||| u == 0x20
    ||| u == 0x85
    ||| u == 0xa0
    ||| u == 0x1680
    ||| 0x2000 <= u <= 0x200a
    ||| u == 0x2028
    ||| u == 0x2029
    ||| u == 0x202f
    ||| u == 0x205f
    ||| u == 0x3000
}

/// Tells whether `c` is a whitespace character.
pub fn is_space(c: char) -> (r: bool)
    ensures
        r == is_white_space(c),
{
    let u = c as u32;
    (0x09 <= u && u <= 0x0d) || u == 0x20 || u == 0x85 || u == 0xa0 || u == 0x1680 || (0x2000
        <= u && u <= 0x200a) || u == 0x2028 || u == 0x2029 || u == 0x202f || u == 0x205f || u
        == 0x3000
}

/// Reading `s` from the left: the words already ended by whitespace, and the
/// word in progress (empty where the last character is whitespace).
pub open spec fn scan_words(s: Seq<char>) -> (Seq<Seq<char>>, Seq<char>)
    decreases s.len(),
{
    if s.len() == 0 {
        (seq![], seq![])
    } else {
        let (done, cur) = scan_words(s.drop_last());
        let c = s.last();
        if !is_white_space(c) {
            (done, cur.push(c))
        } else if cur.len() > 0 {
            (done.push(cur), seq![])
        } else {
            (done, cur)
        }
    }
}

/// The maximal runs of non-whitespace characters of `s`, in order.
pub open spec fn split_words(s: Seq<char>) -> Seq<Seq<char>> {
    let (done, cur) = scan_words(s);
    if cur.len() > 0 {
        done.push(cur)
    } else {
        done
    }
}

/// The number of distinct words of `ws`, counted by first occurrence.
pub open spec fn first_occurrences(ws: Seq<Seq<char>>) -> nat
    decreases ws.len(),
{
    if ws.len() == 0 {
        0
    } else {
        first_occurrences(ws.drop_last()) + if ws.drop_last().contains(ws.last()) {
            0nat
        } else {
            1nat
        }
    }
}

/// Counting first occurrences gives the size of the set of words.
pub proof fn lemma_first_occurrences_is_set_len(ws: Seq<Seq<char>>)
    ensures
        first_occurrences(ws) == ws.to_set().len(),
    decreases ws.len(),
{
    broadcast use vstd::set::group_set_axioms;

    if ws.len() == 0 {
        assert(ws.to_set() =~= Set::empty());
    } else {
        let init = ws.drop_last();
        lemma_first_occurrences_is_set_len(init);
        assert(ws =~= init.push(ws.last()));
        init.lemma_push_to_set_commute(ws.last());
        vstd::seq_lib::seq_to_set_is_finite(init);
        assert(init.contains(ws.last()) <==> init.to_set().contains(ws.last()));
    }
}

/// The characters of each word.
pub open spec fn word_views(ws: Seq<Vec<char>>) -> Seq<Seq<char>> {
    ws.map_values(|w: Vec<char>| w@)
}

/// Splits `content` into its whitespace-separated words.
pub fn split_whitespace_words(content: &str) -> (r: Vec<Vec<char>>)
    ensures
        word_views(r@) == split_words(content@),
{
    broadcast use vstd::string::axiom_spec_iter, vstd::string::next_postcondition;

    let mut done: Vec<Vec<char>> = Vec::new();
    let mut cur: Vec<char> = Vec::new();
    let mut chars = content.chars();
    let ghost mut i: int = 0;
    loop
        invariant
            0 <= i <= content@.len(),
            chars.remaining() == content@.skip(i),
            (word_views(done@), cur@) == scan_words(content@.take(i)),
        ensures
            (word_views(done@), cur@) == scan_words(content@),
        decreases content@.len() - i,
    {
        let ghost prev = content@.take(i);
        match chars.next() {
            None => {
                proof {
                    assert(content@.take(i) =~= content@);
                }
                break ;
            },
            Some(c) => {
                proof {
                    assert(content@.take(i + 1).drop_last() =~= prev);
                    assert(content@.take(i + 1).last() == c);
                }
                if !is_space(c) {
                    cur.push(c);
                } else if cur.len() > 0 {
                    let word = cur;
                    cur = Vec::new();
                    proof {
                        assert(word_views(done@.push(word)) =~= word_views(done@).push(word@));
                    }
                    done.push(word);
                } else {
                }
                proof {
                    i = i + 1;
                    assert(content@.skip(i) =~= content@.skip(i - 1).drop_first());
                }
            },
        }
    }
    if cur.len() > 0 {
        proof {
            assert(word_views(done@.push(cur)) =~= word_views(done@).push(cur@));
        }
        done.push(cur);
    }
    done
}

/// Tells whether two words hold the same characters.
fn same_word(a: &Vec<char>, b: &Vec<char>) -> (r: bool)
    ensures
        r == (a@ == b@),
{
    if a.len() != b.len() {
        return false;
    }
    let mut k: usize = 0;
    while k < a.len()
        invariant
            k <= a.len(),
            a.len() == b.len(),
            forall|j: int| 0 <= j < k ==> a@[j] == b@[j],
        decreases a.len() - k,
    {
        if a[k] != b[k] {
            return false;
        }
        k = k + 1;
    }
    assert(a@ =~= b@);
    true
}

/// The number of distinct words in `words`, by exact character equality.
pub fn count_distinct(words: &Vec<Vec<char>>) -> (r: usize)
    ensures
        r == word_views(words@).to_set().len(),
        r <= words.len(),
{
    let ghost ws = word_views(words@);
    let mut count: usize = 0;
    let mut i: usize = 0;
    while i < words.len()
        invariant
            i <= words.len(),
            ws == word_views(words@),
            count == first_occurrences(ws.take(i as int)),
            count <= i,
        decreases words.len() - i,
    {
        let mut seen = false;
        let mut j: usize = 0;
        while j < i
            invariant
                j <= i < words.len(),
                ws == word_views(words@),
                seen <==> exists|k: int| 0 <= k < j && ws[k] == ws[i as int],
            decreases i - j,
        {
            assert(ws[j as int] == words@[j as int]@ && ws[i as int] == words@[i as int]@);
            if same_word(&words[j], &words[i]) {
                seen = true;
            }
            j = j + 1;
        }
        proof {
            let prefix = ws.take(i as int + 1);
            assert(prefix.drop_last() =~= ws.take(i as int));
            assert(prefix.last() == ws[i as int]);
            if seen {
                let k = choose|k: int| 0 <= k < i && ws[k] == ws[i as int];
                assert(prefix.drop_last()[k] == ws[i as int]);
            }
        }
        if !seen {
            count = count + 1;
        }
        i = i + 1;
    }
    proof {
        assert(ws.take(words.len() as int) =~= ws);
        lemma_first_occurrences_is_set_len(ws);
    }
    count
}

} // verus!
