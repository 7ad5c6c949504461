//! When deleting every occurrence of a marker leaves none behind. Deleting
//! can bring together the two halves of a marker that stood on either side of
//! a deleted one; where no marker directly follows the beginning of a marker,
//! that cannot happen.

use vstd::prelude::*;
use crate::text::{lemma_occurs_after_skip, occurs_at, replaced};

verus! {

/// `s` with every occurrence of `marker` deleted.
pub open spec fn stripped(s: Seq<char>, marker: Seq<char>) -> Seq<char> {
    replaced(s, marker, Seq::empty())
}

/// Whether `pattern` occurs nowhere in `s`.
pub open spec fn free_of(s: Seq<char>, pattern: Seq<char>) -> bool {
    forall|i: int| !occurs_at(s, pattern, i)
}

/// Whether the `k` characters of `s` before position `i` are the first `k` of `word`.
pub open spec fn begun_before(s: Seq<char>, word: Seq<char>, k: int, i: int) -> bool {
    &&& 0 < k < word.len()
    &&& k <= i <= s.len()
    &&& s.subrange(i - k, i) == word.take(k)
}

/// Whether no occurrence of `marker` in `s` directly follows a beginning of
/// `word`, that is, a non-empty proper prefix of it.
pub open spec fn unnested(s: Seq<char>, word: Seq<char>, marker: Seq<char>) -> bool {
    forall|i: int, k: int| occurs_at(s, marker, i) ==> !#[trigger] begun_before(s, word, k, i)
}

/// Whether `word` occurs in `s` only where `marker` occurs.
pub open spec fn only_at(s: Seq<char>, word: Seq<char>, marker: Seq<char>) -> bool {
    forall|i: int| #[trigger] occurs_at(s, word, i) ==> occurs_at(s, marker, i)
}

/// What holds of a text in these two respects holds of what follows its
/// first `j` characters.
pub proof fn lemma_conditions_after_skip(s: Seq<char>, word: Seq<char>, marker: Seq<char>, j: int)
    requires
        0 <= j <= s.len(),
        unnested(s, word, marker),
        only_at(s, word, marker),
    ensures
        unnested(s.skip(j), word, marker),
        only_at(s.skip(j), word, marker),
{
    let t = s.skip(j);
    assert forall|i: int, k: int| occurs_at(t, marker, i) implies !#[trigger] begun_before(
        t,
        word,
        k,
        i,
    ) by {
        lemma_occurs_after_skip(s, marker, j, i);
        if begun_before(t, word, k, i) {
            assert(t.subrange(i - k, i) == s.subrange(j + i - k, j + i));
            assert(begun_before(s, word, k, j + i));
        }
    }
    assert forall|i: int| #[trigger] occurs_at(t, word, i) implies occurs_at(t, marker, i) by {
        lemma_occurs_after_skip(s, word, j, i);
        lemma_occurs_after_skip(s, marker, j, i);
    }
}

/// An occurrence in a text behind one more character is an occurrence in the
/// text, one place earlier; at the very front, it is the character and an
/// occurrence of the rest of the pattern.
pub proof fn lemma_occurs_behind(c: char, t: Seq<char>, pattern: Seq<char>, i: int)
    requires
        pattern.len() > 0,
    ensures
        i > 0 ==> (occurs_at(seq![c] + t, pattern, i) <==> occurs_at(t, pattern, i - 1)),
        occurs_at(seq![c] + t, pattern, 0) ==> c == pattern[0] && occurs_at(t, pattern.skip(1), 0),
{
    let s = seq![c] + t;
    assert(s.skip(1) == t);
    if i > 0 {
        lemma_occurs_after_skip(s, pattern, 1, i - 1);
    }
    if occurs_at(s, pattern, 0) {
        let n = pattern.len() as int;
        assert(s.subrange(0, n)[0] == pattern[0]);
        assert(t.subrange(0, n - 1) == s.subrange(0, n).skip(1));
    }
}

/// Where `x` begins with the first `k` characters of `word`, what is left of
/// the rest of `x` after deleting the markers does not begin with the rest of
/// `word`: deleting does not complete a word that the text had begun.
pub proof fn lemma_not_completed(x: Seq<char>, word: Seq<char>, marker: Seq<char>, k: int)
    requires
        marker.len() > 0,
        1 <= k <= word.len(),
        k <= x.len(),
        x.take(k) == word.take(k),
        !occurs_at(x, marker, 0),
        unnested(x, word, marker),
        only_at(x, word, marker),
    ensures
        !occurs_at(stripped(x.skip(k), marker), word.skip(k), 0),
    decreases x.len() - k,
{
    let y = x.skip(k);
    if k == word.len() {
        assert(word.take(k) == word);
        assert(x.subrange(0, k) == x.take(k));
        assert(occurs_at(x, word, 0));
    } else if occurs_at(y, marker, 0) {
        lemma_occurs_after_skip(x, marker, k, 0);
        assert(x.subrange(0, k) == x.take(k));
        assert(begun_before(x, word, k, k));
    } else if y.len() > 0 {
        let rest = stripped(y.skip(1), marker);
        assert(stripped(y, marker) == seq![y[0]] + rest);
        if occurs_at(stripped(y, marker), word.skip(k), 0) {
            lemma_occurs_behind(y[0], rest, word.skip(k), 0);
            assert(x[k] == word[k]);
            assert(x.take(k + 1) == x.take(k).push(x[k]));
            assert(word.take(k + 1) == word.take(k).push(word[k]));
            assert(y.skip(1) == x.skip(k + 1));
            assert(word.skip(k).skip(1) == word.skip(k + 1));
            lemma_not_completed(x, word, marker, k + 1);
        }
    }
}

/// Deleting every occurrence of `marker` leaves a text free of `word`, where
/// `word` occurred only at occurrences of `marker` and no occurrence of
/// `marker` directly followed a beginning of `word`.
pub proof fn lemma_stripped_free_of(s: Seq<char>, word: Seq<char>, marker: Seq<char>)
    requires
        marker.len() > 0,
        word.len() > 0,
        unnested(s, word, marker),
        only_at(s, word, marker),
    ensures
        free_of(stripped(s, marker), word),
    decreases s.len(),
{
    if occurs_at(s, marker, 0) {
        let rest = s.skip(marker.len() as int);
        lemma_conditions_after_skip(s, word, marker, marker.len() as int);
        lemma_stripped_free_of(rest, word, marker);
        assert(stripped(s, marker) == Seq::<char>::empty() + stripped(rest, marker));
        assert(stripped(s, marker) == stripped(rest, marker));
    } else if s.len() > 0 {
        let rest = stripped(s.skip(1), marker);
        lemma_conditions_after_skip(s, word, marker, 1);
        lemma_stripped_free_of(s.skip(1), word, marker);
        assert(stripped(s, marker) == seq![s[0]] + rest);
        assert forall|i: int| !occurs_at(stripped(s, marker), word, i) by {
            lemma_occurs_behind(s[0], rest, word, i);
            if i == 0 && occurs_at(stripped(s, marker), word, 0) {
                assert(s.take(1) == seq![s[0]]);
                assert(word.take(1) == seq![word[0]]);
                lemma_not_completed(s, word, marker, 1);
            }
        }
    }
}

/// Whether every occurrence of `marker` in `s` starts a line.
pub open spec fn starts_lines(s: Seq<char>, marker: Seq<char>) -> bool {
    forall|i: int| #[trigger] occurs_at(s, marker, i) && i > 0 ==> s[i - 1] == '\n'
}

/// A marker that starts a line does not directly follow the beginning of a
/// word that holds no line feed but at its end.
pub proof fn lemma_line_starts_unnested(s: Seq<char>, word: Seq<char>, marker: Seq<char>)
    requires
        starts_lines(s, marker),
        forall|j: int| 0 <= j < word.len() - 1 ==> word[j] != '\n',
    ensures
        unnested(s, word, marker),
{
    assert forall|i: int, k: int| occurs_at(s, marker, i) implies !#[trigger] begun_before(
        s,
        word,
        k,
        i,
    ) by {
        if begun_before(s, word, k, i) {
            assert(s.subrange(i - k, i)[k - 1] == word.take(k)[k - 1]);
            assert(s[i - 1] == word[k - 1]);
        }
    }
}

/// Whether no occurrence of either marker in `s` directly follows a
/// beginning of either marker.
pub open spec fn markers_unnested(s: Seq<char>, first: Seq<char>, second: Seq<char>) -> bool {
    &&& unnested(s, first, first)
    &&& unnested(s, first, second)
    &&& unnested(s, second, first)
    &&& unnested(s, second, second)
}

/// Deleting the occurrences of `first` does not bring a beginning of `word`
/// directly before an occurrence of `second`, where no occurrence of either
/// marker directly followed a beginning of `word` or of `second`.
pub proof fn lemma_stripped_stays_unnested(
    s: Seq<char>,
    word: Seq<char>,
    first: Seq<char>,
    second: Seq<char>,
)
    requires
        first.len() > 0,
        second.len() > 0,
        unnested(s, word, first),
        unnested(s, word, second),
        unnested(s, second, first),
    ensures
        unnested(stripped(s, first), word, second),
{
    let t = stripped(s, first);
    assert forall|i: int, k: int| occurs_at(t, second, i) implies !#[trigger] begun_before(
        t,
        word,
        k,
        i,
    ) by {
        if begun_before(t, word, k, i) {
            let joined = word.take(k) + second;
            assert(t.subrange(i - k, i - k + joined.len()) == joined) by {
                assert(t.subrange(i - k, i - k + joined.len()) == t.subrange(i - k, i)
                    + t.subrange(i, i + second.len()));
            }
            assert(occurs_at(t, joined, i - k));
            lemma_joined_absent(s, word, first, second, k);
            lemma_stripped_free_of(s, joined, first);
        }
    }
}

/// A beginning of `word` with `second` behind it occurs nowhere in `s`, and no
/// occurrence of `first` directly follows a beginning of the two together.
pub proof fn lemma_joined_absent(
    s: Seq<char>,
    word: Seq<char>,
    first: Seq<char>,
    second: Seq<char>,
    k: int,
)
    requires
        0 < k < word.len(),
        unnested(s, word, first),
        unnested(s, word, second),
        unnested(s, second, first),
    ensures
        only_at(s, word.take(k) + second, first),
        unnested(s, word.take(k) + second, first),
{
    let joined = word.take(k) + second;
    assert forall|i: int| #[trigger] occurs_at(s, joined, i) implies occurs_at(s, first, i) by {
        assert(s.subrange(i, i + joined.len()).subrange(0, k) == s.subrange(i, i + k));
        assert(joined.subrange(0, k) == word.take(k));
        assert(s.subrange(i, i + joined.len()).subrange(k, joined.len() as int) == s.subrange(
            i + k,
            i + k + second.len(),
        ));
        assert(joined.subrange(k, joined.len() as int) == second);
        assert(occurs_at(s, second, i + k));
        assert(begun_before(s, word, k, i + k));
    }
    assert forall|i: int, j: int| occurs_at(s, first, i) implies !#[trigger] begun_before(
        s,
        joined,
        j,
        i,
    ) by {
        if begun_before(s, joined, j, i) {
            if j <= k {
                assert(joined.take(j) == word.take(j));
                assert(begun_before(s, word, j, i));
            } else {
                assert(joined.take(j).skip(k) == second.take(j - k));
                assert(s.subrange(i - j, i).skip(k) == s.subrange(i - (j - k), i));
                assert(begun_before(s, second, j - k, i));
            }
        }
    }
}

/// Deleting every occurrence of one marker and then every occurrence of
/// another leaves a text free of both, where no occurrence of either marker
/// directly followed a beginning of either.
pub proof fn lemma_both_stripped(s: Seq<char>, first: Seq<char>, second: Seq<char>)
    requires
        first.len() > 0,
        second.len() > 0,
        markers_unnested(s, first, second),
    ensures
        free_of(stripped(stripped(s, first), second), first),
        free_of(stripped(stripped(s, first), second), second),
{
    let t = stripped(s, first);
    lemma_stripped_free_of(s, first, first);
    lemma_stripped_stays_unnested(s, first, first, second);
    lemma_stripped_stays_unnested(s, second, first, second);
    lemma_stripped_free_of(t, second, second);
    lemma_stripped_free_of(t, first, second);
}

} // verus!
