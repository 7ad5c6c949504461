//! Character-level text primitives: conversion between strings and character
//! vectors, and literal substring replacement.

use vstd::prelude::*;

verus! {

/// `String::push` appends one character to the end of the string.
pub assume_specification[ String::push ](s: &mut String, c: char)
    ensures
        final(s)@ == old(s)@.push(c),
;

/// The characters of `s`, in order.
pub fn chars_of(s: &str) -> (out: Vec<char>)
    ensures
        out@ == s@,
{
    let mut out: Vec<char> = Vec::new();
    let mut it = s.chars();
    for c in iter: it
        invariant
            out@ == iter.seq().take(iter.index() as int),
    {
        out.push(c);
    }
    out
}

/// The string made of the characters of `chars`, in order.
pub fn string_of(chars: &Vec<char>) -> (out: String)
    ensures
        out@ == chars@,
{
    let mut out = String::new();
    let mut i: usize = 0;
    while i < chars.len()
        invariant
            i <= chars.len(),
            out@ == chars@.take(i as int),
        decreases chars.len() - i,
    {
        out.push(chars[i]);
        i += 1;
    }
    out
}

/// Whether `pattern` stands in `s` at position `i`.
pub open spec fn occurs_at(s: Seq<char>, pattern: Seq<char>, i: int) -> bool {
    &&& 0 <= i
    &&& i + pattern.len() <= s.len()
    &&& s.subrange(i, i + pattern.len()) == pattern
}

/// `s` with every occurrence of `from` replaced by `to`, scanning from the
/// left and resuming after each occurrence, so that occurrences never
/// overlap. An empty `from` occurs before every character and at the end.
pub open spec fn replaced(s: Seq<char>, from: Seq<char>, to: Seq<char>) -> Seq<char>
    decreases s.len(),
{
    if from.len() == 0 {
        if s.len() == 0 {
            to
        } else {
            to + seq![s[0]] + replaced(s.skip(1), from, to)
        }
    } else if !occurs_at(s, from, 0) {
        if s.len() == 0 {
            s
        } else {
            seq![s[0]] + replaced(s.skip(1), from, to)
        }
    } else {
        to + replaced(s.skip(from.len() as int), from, to)
    }
}

/// An occurrence in what follows the first `k` characters of `s` is an
/// occurrence in `s`, `k` places further on, and the other way round.
pub proof fn lemma_occurs_after_skip(s: Seq<char>, pattern: Seq<char>, k: int, i: int)
    requires
        0 <= k <= s.len(),
        0 <= i,
    ensures
        occurs_at(s.skip(k), pattern, i) <==> occurs_at(s, pattern, k + i),
{
    if i + pattern.len() <= s.len() - k {
        assert(s.skip(k).subrange(i, i + pattern.len()) == s.subrange(
            k + i,
            k + i + pattern.len(),
        ));
    }
}

/// Where `from` does not occur, nothing is replaced.
pub proof fn lemma_replaced_absent(s: Seq<char>, from: Seq<char>, to: Seq<char>)
    requires
        from.len() > 0,
        forall|i: int| !occurs_at(s, from, i),
    ensures
        replaced(s, from, to) == s,
    decreases s.len(),
{
    if s.len() > 0 {
        assert forall|i: int| !occurs_at(s.skip(1), from, i) by {
            if 0 <= i {
                lemma_occurs_after_skip(s, from, 1, i);
            }
        }
        lemma_replaced_absent(s.skip(1), from, to);
        assert(seq![s[0]] + s.skip(1) == s);
    }
}

/// Where `from` occurs exactly once, that occurrence gives way to `to` and
/// the text around it stays.
pub proof fn lemma_replaced_once(pre: Seq<char>, from: Seq<char>, post: Seq<char>, to: Seq<char>)
    requires
        from.len() > 0,
        forall|i: int| occurs_at(pre + from + post, from, i) ==> i == pre.len(),
    ensures
        replaced(pre + from + post, from, to) == pre + to + post,
    decreases pre.len(),
{
    let s = pre + from + post;
    if pre.len() == 0 {
        assert(s.subrange(0, from.len() as int) == from);
        assert(s.skip(from.len() as int) == post);
        assert forall|i: int| !occurs_at(post, from, i) by {
            if 0 <= i {
                lemma_occurs_after_skip(s, from, from.len() as int, i);
            }
        }
        lemma_replaced_absent(post, from, to);
        assert(to + post == pre + to + post);
    } else {
        let rest = pre.skip(1);
        assert(s.skip(1) == rest + from + post);
        assert forall|i: int| occurs_at(rest + from + post, from, i) implies i == rest.len() by {
            lemma_occurs_after_skip(s, from, 1, i);
        }
        lemma_replaced_once(rest, from, post, to);
        assert(!occurs_at(s, from, 0));
        assert(seq![s[0]] + (rest + to + post) == pre + to + post);
    }
}

/// Appends the characters of `src` to `out`.
pub fn push_all(out: &mut Vec<char>, src: &Vec<char>)
    ensures
        final(out)@ == old(out)@ + src@,
{
    let mut k: usize = 0;
    while k < src.len()
        invariant
            k <= src.len(),
            out@ == old(out)@ + src@.take(k as int),
        decreases src.len() - k,
    {
        out.push(src[k]);
        k += 1;
    }
}

/// Tells whether `pattern` stands in `text` at position `i`.
pub fn matches_at(text: &Vec<char>, pattern: &Vec<char>, i: usize) -> (found: bool)
    ensures
        found == occurs_at(text@, pattern@, i as int),
{
    if i > text.len() || pattern.len() > text.len() - i {
        return false;
    }
    let mut k: usize = 0;
    while k < pattern.len()
        invariant
            k <= pattern.len(),
            i + pattern.len() <= text.len(),
            text@.subrange(i as int, i + k) == pattern@.take(k as int),
        decreases pattern.len() - k,
    {
        if text[i + k] != pattern[k] {
            proof {
                let whole = text@.subrange(i as int, i + pattern.len());
                assert(whole[k as int] != pattern@[k as int]);
            }
            return false;
        }
        proof {
            assert(text@.subrange(i as int, i + k + 1) == text@.subrange(i as int, i + k).push(
                text@[i + k],
            ));
            assert(pattern@.take(k + 1) == pattern@.take(k as int).push(pattern@[k as int]));
        }
        k += 1;
    }
    proof {
        assert(pattern@.take(k as int) == pattern@);
    }
    true
}

/// Replaces every occurrence of `from` in `text` by `to`.
pub fn replace_chars(text: &Vec<char>, from: &Vec<char>, to: &Vec<char>) -> (out: Vec<char>)
    ensures
        out@ == replaced(text@, from@, to@),
{
    let mut out: Vec<char> = Vec::new();
    let mut i: usize = 0;
    proof {
        assert(text@.skip(0) == text@);
        assert(out@ + replaced(text@, from@, to@) == replaced(text@, from@, to@));
    }
    while i < text.len()
        invariant
            i <= text.len(),
            out@ + replaced(text@.skip(i as int), from@, to@) == replaced(text@, from@, to@),
        decreases text.len() - i,
    {
        let ghost rest = text@.skip(i as int);
        let ghost before = out@;
        if from.len() == 0 {
            push_all(&mut out, to);
            out.push(text[i]);
            proof {
                assert(rest.skip(1) == text@.skip(i + 1));
                assert(out@ + replaced(rest.skip(1), from@, to@) == before + replaced(
                    rest,
                    from@,
                    to@,
                ));
            }
            i += 1;
        } else if matches_at(text, from, i) {
            proof {
                assert(rest.subrange(0, from@.len() as int) == text@.subrange(
                    i as int,
                    i + from@.len(),
                ));
                assert(rest.skip(from@.len() as int) == text@.skip(i + from@.len()));
            }
            push_all(&mut out, to);
            proof {
                assert(out@ + replaced(rest.skip(from@.len() as int), from@, to@) == before
                    + replaced(rest, from@, to@));
            }
            i += from.len();
        } else {
            out.push(text[i]);
            proof {
                assert(!occurs_at(rest, from@, 0)) by {
                    if i + from@.len() <= text@.len() {
                        assert(rest.subrange(0, from@.len() as int) == text@.subrange(
                            i as int,
                            i + from@.len(),
                        ));
                    }
                }
                assert(rest.skip(1) == text@.skip(i + 1));
                assert(out@ + replaced(rest.skip(1), from@, to@) == before + replaced(
                    rest,
                    from@,
                    to@,
                ));
            }
            i += 1;
        }
    }
    proof {
        assert(text@.skip(i as int).len() == 0);
    }
    if from.len() == 0 {
        push_all(&mut out, to);
    }
    out
}

} // verus!
