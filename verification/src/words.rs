//! Blanks and words of a text.
//!
//! A blank is a character with the Unicode property `White_Space`. A word is
//! a longest run of characters that are not blanks.

use vstd::prelude::*;

verus! {

/// Whether a character is a blank.
pub open spec fn is_space(c: char) -> bool {
    ||| '\u{9}' <= c <= '\u{d}'
    ||| c == ' '
    ||| c == '\u{85}'
    ||| c == '\u{a0}'
    ||| c == '\u{1680}'
    ||| '\u{2000}' <= c <= '\u{200a}'
    ||| c == '\u{2028}'
    ||| c == '\u{2029}'
    ||| c == '\u{202f}'
    ||| c == '\u{205f}'
    ||| c == '\u{3000}'
}

/// The position of the first character of `s` at or after `from` that is a
/// blank, if `blank` is set, or that is none, if it is not; the length of `s`
/// when there is no such character.
pub open spec fn next_of_kind(s: Seq<char>, blank: bool, from: int) -> int
    decreases s.len() - from,
{
    if from < 0 || from >= s.len() {
        s.len() as int
    } else if is_space(s[from]) == blank {
        from
    } else {
        next_of_kind(s, blank, from + 1)
    }
}

/// The position that `next_of_kind` gives is not before `from`, no character
/// between the two is of the kind, and the character at it is, unless it is
/// the end.
pub proof fn lemma_next_of_kind(s: Seq<char>, blank: bool, from: int)
    requires
        0 <= from <= s.len(),
    ensures
        from <= next_of_kind(s, blank, from) <= s.len(),
        next_of_kind(s, blank, from) < s.len() ==> is_space(s[next_of_kind(s, blank, from)])
            == blank,
        forall|i: int| from <= i < next_of_kind(s, blank, from) ==> is_space(s[i]) != blank,
    decreases s.len() - from,
{
    if from < s.len() && is_space(s[from]) != blank {
        lemma_next_of_kind(s, blank, from + 1);
    }
}

/// The words of `s` from position `from` on.
pub open spec fn words_from(s: Seq<char>, from: int) -> Seq<Seq<char>>
    decreases s.len() - from,
{
    let first = next_of_kind(s, false, from);
    if from < 0 || first < from || first >= s.len() {
        Seq::empty()
    } else {
        let stop = next_of_kind(s, true, first);
        let rest = if first < stop <= s.len() {
            words_from(s, stop)
        } else {
            Seq::empty()
        };
        seq![s.subrange(first, stop)] + rest
    }
}

/// The words of `s`.
pub open spec fn words_of(s: Seq<char>) -> Seq<Seq<char>> {
    words_from(s, 0)
}

/// The words put together again with one space between two of them.
pub open spec fn join_words(words: Seq<Seq<char>>) -> Seq<char>
    decreases words.len(),
{
    if words.len() == 0 {
        Seq::empty()
    } else if words.len() == 1 {
        words[0]
    } else {
        join_words(words.drop_last()) + seq![' '] + words.last()
    }
}

/// Where the text is cut so that no blank is left at its end: the position
/// behind the last character that is no blank, and 0 if there is none.
pub open spec fn trimmed_end(s: Seq<char>) -> int
    decreases s.len(),
{
    if s.len() == 0 {
        0
    } else if !is_space(s.last()) {
        s.len() as int
    } else {
        trimmed_end(s.drop_last())
    }
}

/// The text without the blanks at its two ends.
pub open spec fn trimmed(s: Seq<char>) -> Seq<char> {
    let start = next_of_kind(s, false, 0);
    if start >= s.len() {
        Seq::empty()
    } else {
        s.subrange(start, trimmed_end(s))
    }
}

/// Whether a character is a blank.
pub fn is_whitespace(c: char) -> (r: bool)
    ensures
        r == is_space(c),
{
    ('\u{9}' <= c && c <= '\u{d}') || c == ' ' || c == '\u{85}' || c == '\u{a0}' || c
        == '\u{1680}' || ('\u{2000}' <= c && c <= '\u{200a}') || c == '\u{2028}' || c
        == '\u{2029}' || c == '\u{202f}' || c == '\u{205f}' || c == '\u{3000}'
}

/// The position of the first character of `s` at or after `from` that is a
/// blank, if `blank` is set, or that is none, if it is not.
pub fn find_kind(s: &[char], blank: bool, from: usize) -> (r: usize)
    requires
        from <= s.len(),
    ensures
        r == next_of_kind(s@, blank, from as int),
        from <= r <= s.len(),
{
    let mut i: usize = from;
    while i < s.len() && is_whitespace(s[i]) != blank
        invariant
            from <= i <= s@.len(),
            next_of_kind(s@, blank, from as int) == next_of_kind(s@, blank, i as int),
        decreases s@.len() - i,
    {
        i += 1;
    }
    i
}

/// Where each word of `s` starts and stops.
pub fn word_ranges(s: &[char]) -> (r: Vec<(usize, usize)>)
    ensures
        r@.len() == words_of(s@).len(),
        forall|k: int|
            0 <= k < r@.len() ==> (#[trigger] r@[k]).0 < r@[k].1 <= s@.len() && s@.subrange(
                r@[k].0 as int,
                r@[k].1 as int,
            ) == words_of(s@)[k],
{
    let mut out: Vec<(usize, usize)> = Vec::new();
    let ghost mut done: Seq<Seq<char>> = Seq::empty();
    let mut i: usize = 0;
    loop
        invariant
            i <= s@.len(),
            words_of(s@) == done + words_from(s@, i as int),
            out@.len() == done.len(),
            forall|k: int|
                0 <= k < out@.len() ==> (#[trigger] out@[k]).0 < out@[k].1 <= s@.len()
                    && s@.subrange(out@[k].0 as int, out@[k].1 as int) == done[k],
        ensures
            words_of(s@) == done,
            out@.len() == done.len(),
            forall|k: int|
                0 <= k < out@.len() ==> (#[trigger] out@[k]).0 < out@[k].1 <= s@.len()
                    && s@.subrange(out@[k].0 as int, out@[k].1 as int) == done[k],
        decreases s@.len() - i,
    {
        let first = find_kind(s, false, i);
        if first >= s.len() {
            proof {
                assert(words_from(s@, i as int) =~= Seq::<Seq<char>>::empty());
                assert(done + Seq::<Seq<char>>::empty() =~= done);
            }
            break;
        }
        let stop = find_kind(s, true, first);
        proof {
            lemma_next_of_kind(s@, false, i as int);
            lemma_next_of_kind(s@, true, first as int);
            lemma_next_of_kind(s@, true, first + 1);
            assert(first < stop);
            let word = s@.subrange(first as int, stop as int);
            assert(words_from(s@, i as int) == seq![word] + words_from(s@, stop as int));
            assert(done + (seq![word] + words_from(s@, stop as int)) =~= done.push(word)
                + words_from(s@, stop as int));
            done = done.push(word);
        }
        out.push((first, stop));
        i = stop;
    }
    out
}

/// Where the text without the blanks at its two ends starts and stops.
pub fn trim_range(s: &[char]) -> (r: (usize, usize))
    ensures
        r.0 <= r.1 <= s@.len(),
        s@.subrange(r.0 as int, r.1 as int) == trimmed(s@),
{
    let start = find_kind(s, false, 0);
    if start >= s.len() {
        assert(s@.subrange(start as int, start as int) =~= Seq::<char>::empty());
        return (start, start);
    }
    let mut end: usize = s.len();
    proof {
        lemma_next_of_kind(s@, false, 0);
        assert(s@.subrange(0, end as int) =~= s@);
    }
    while end > 0 && is_whitespace(s[end - 1])
        invariant
            start < end <= s@.len(),
            !is_space(s@[start as int]),
            trimmed_end(s@) == trimmed_end(s@.subrange(0, end as int)),
        decreases end,
    {
        proof {
            let head = s@.subrange(0, end as int);
            assert(head.last() == s@[end - 1]);
            assert(head.drop_last() =~= s@.subrange(0, end - 1));
        }
        end -= 1;
    }
    proof {
        let head = s@.subrange(0, end as int);
        assert(head.last() == s@[end - 1]);
        assert(trimmed_end(head) == end);
    }
    (start, end)
}

} // verus!
