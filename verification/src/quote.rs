//! Block quoting: the body of a callout becomes a Markdown block quote, line
//! by line.

use vstd::prelude::*;
use crate::text::{chars_of, string_of};

verus! {

/// The position of the first line feed in `s`, or the length of `s` if it has none.
pub open spec fn line_end(s: Seq<char>) -> int
    decreases s.len(),
{
    if s.len() == 0 || s[0] == '\n' {
        0
    } else {
        1 + line_end(s.skip(1))
    }
}

/// `line` without the carriage return at its end, if it has one.
pub open spec fn without_cr(line: Seq<char>) -> Seq<char> {
    if line.len() > 0 && line.last() == '\r' {
        line.drop_last()
    } else {
        line
    }
}

/// The first line of `s`, without its ending.
pub open spec fn first_line(s: Seq<char>) -> Seq<char> {
    let end = line_end(s);
    if end < 0 || end >= s.len() {
        s
    } else {
        without_cr(s.take(end))
    }
}

/// What follows the first line of `s` and its ending.
pub open spec fn after_first_line(s: Seq<char>) -> Seq<char> {
    let end = line_end(s);
    if end < 0 || end >= s.len() {
        Seq::empty()
    } else {
        s.skip(end + 1)
    }
}

/// The lines of `s`. A line ends at a line feed, or at a carriage return
/// directly followed by one; the ending is not part of the line. The last
/// line need not have an ending, and nothing follows a final ending: the
/// empty text has no lines.
pub open spec fn lines(s: Seq<char>) -> Seq<Seq<char>>
    decreases s.len(),
{
    if s.len() == 0 {
        Seq::empty()
    } else {
        seq![first_line(s)] + lines(after_first_line(s))
    }
}

/// The lines, each behind the quote marker `> `, joined by line feeds.
pub open spec fn quote_joined(ls: Seq<Seq<char>>) -> Seq<char>
    decreases ls.len(),
{
    if ls.len() == 0 {
        Seq::empty()
    } else if ls.len() == 1 {
        "> "@ + ls[0]
    } else {
        "> "@ + ls[0] + "\n"@ + quote_joined(ls.skip(1))
    }
}

/// `body` as a block quote.
pub open spec fn quoted(body: Seq<char>) -> Seq<char> {
    quote_joined(lines(body))
}

/// `line_end` is the first position that holds a line feed or ends the text.
pub proof fn lemma_line_end(s: Seq<char>, k: int)
    requires
        0 <= k <= s.len(),
        forall|t: int| 0 <= t < k ==> s[t] != '\n',
        k == s.len() || s[k] == '\n',
    ensures
        line_end(s) == k,
    decreases k,
{
    if k > 0 {
        lemma_line_end(s.skip(1), k - 1);
    }
}

/// `line_end` lies within the text, no line feed stands before it, and one
/// stands at it unless it is the end of the text.
pub proof fn lemma_line_end_is_first_feed(s: Seq<char>)
    ensures
        0 <= line_end(s) <= s.len(),
        forall|t: int| 0 <= t < line_end(s) ==> s[t] != '\n',
        line_end(s) < s.len() ==> s[line_end(s)] == '\n',
    decreases s.len(),
{
    if s.len() > 0 && s[0] != '\n' {
        lemma_line_end_is_first_feed(s.skip(1));
        assert forall|t: int| 0 <= t < line_end(s) implies s[t] != '\n' by {
            if t > 0 {
                assert(s[t] == s.skip(1)[t - 1]);
            }
        }
        if line_end(s) < s.len() {
            assert(s[line_end(s)] == s.skip(1)[line_end(s) - 1]);
        }
    }
}

/// Whether no line feed stands in `line`.
pub open spec fn feed_free(line: Seq<char>) -> bool {
    forall|j: int| 0 <= j < line.len() ==> line[j] != '\n'
}

/// Whether `line` begins with the quote marker `> `.
pub open spec fn is_quoted_line(line: Seq<char>) -> bool {
    line.len() >= 2 && line[0] == '>' && line[1] == ' '
}

/// No line of a text holds a line feed.
pub proof fn lemma_lines_are_feed_free(s: Seq<char>)
    ensures
        forall|i: int| 0 <= i < lines(s).len() ==> feed_free(#[trigger] lines(s)[i]),
    decreases s.len(),
{
    if s.len() > 0 {
        lemma_line_end_is_first_feed(s);
        let tail = after_first_line(s);
        lemma_lines_are_feed_free(tail);
        assert(feed_free(first_line(s)));
        assert forall|i: int| 0 <= i < lines(s).len() implies feed_free(
            #[trigger] lines(s)[i],
        ) by {
            if i > 0 {
                assert(lines(s)[i] == lines(tail)[i - 1]);
            }
        }
    }
}

/// Line `i` of the quote of the lines `ls`, as it is read back: the quote
/// marker and the line, less a carriage return at its end where another
/// line follows, since the two then read as one line ending.
pub open spec fn quoted_line(ls: Seq<Seq<char>>, i: int) -> Seq<char> {
    "> "@ + if i + 1 < ls.len() {
        without_cr(ls[i])
    } else {
        ls[i]
    }
}

/// Quoted lines, joined, come apart again into as many lines, each of them
/// the quote marker and the line it was made from.
pub proof fn lemma_quote_joined_lines(ls: Seq<Seq<char>>)
    requires
        forall|i: int| 0 <= i < ls.len() ==> feed_free(#[trigger] ls[i]),
    ensures
        lines(quote_joined(ls)).len() == ls.len(),
        forall|i: int|
            0 <= i < ls.len() ==> #[trigger] lines(quote_joined(ls))[i] == quoted_line(ls, i),
    decreases ls.len(),
{
    reveal_strlit("> ");
    reveal_strlit("\n");
    let joined = quote_joined(ls);
    if ls.len() == 1 {
        assert(feed_free(ls[0]));
        assert(joined == "> "@ + ls[0]);
        lemma_line_end(joined, joined.len() as int);
        assert(lines(after_first_line(joined)).len() == 0);
        assert(lines(joined) == seq![joined]);
    } else if ls.len() > 1 {
        let rest = ls.skip(1);
        let head = "> "@ + ls[0];
        let tail = quote_joined(rest);
        assert(feed_free(ls[0]));
        assert(joined == head + "\n"@ + tail);
        assert(joined[head.len() as int] == '\n');
        lemma_line_end(joined, head.len() as int);
        assert(joined.take(head.len() as int) == head);
        assert(joined.skip(head.len() as int + 1) == tail);
        assert(first_line(joined) == without_cr(head));
        assert(after_first_line(joined) == tail);
        assert forall|i: int| 0 <= i < rest.len() implies feed_free(#[trigger] rest[i]) by {
            assert(rest[i] == ls[i + 1]);
        }
        lemma_quote_joined_lines(rest);
        assert(lines(joined) == seq![without_cr(head)] + lines(tail));
        assert(without_cr(head) == "> "@ + without_cr(ls[0]));
        assert forall|i: int| 0 <= i < ls.len() implies #[trigger] lines(joined)[i]
            == quoted_line(ls, i) by {
            if i > 0 {
                assert(lines(joined)[i] == lines(tail)[i - 1]);
                assert(lines(tail)[i - 1] == quoted_line(rest, i - 1));
                assert(rest[i - 1] == ls[i]);
            }
        }
    }
}

/// A block quote has as many lines as the body it was made from; each of its
/// lines begins with the quote marker `> ` and goes on with the line of the
/// body at its place.
pub proof fn lemma_quote_keeps_lines(body: Seq<char>)
    ensures
        lines(quoted(body)).len() == lines(body).len(),
        forall|i: int|
            0 <= i < lines(body).len() ==> #[trigger] lines(quoted(body))[i] == quoted_line(
                lines(body),
                i,
            ),
        forall|i: int|
            0 <= i < lines(body).len() ==> is_quoted_line(#[trigger] lines(quoted(body))[i]),
{
    reveal_strlit("> ");
    lemma_lines_are_feed_free(body);
    lemma_quote_joined_lines(lines(body));
    assert forall|i: int| 0 <= i < lines(body).len() implies is_quoted_line(
        #[trigger] lines(quoted(body))[i],
    ) by {
        assert(lines(quoted(body))[i] == quoted_line(lines(body), i));
    }
}

/// Where no line of the body ends in a carriage return, every line of the
/// block quote is the quote marker `> ` and the line of the body at its place.
pub proof fn lemma_quote_lines_exact(body: Seq<char>)
    requires
        forall|i: int|
            0 <= i < lines(body).len() ==> without_cr(#[trigger] lines(body)[i]) == lines(
                body,
            )[i],
    ensures
        lines(quoted(body)).len() == lines(body).len(),
        forall|i: int|
            0 <= i < lines(body).len() ==> #[trigger] lines(quoted(body))[i] == "> "@ + lines(
                body,
            )[i],
{
    lemma_quote_keeps_lines(body);
    assert forall|i: int| 0 <= i < lines(body).len() implies #[trigger] lines(quoted(body))[i]
        == "> "@ + lines(body)[i] by {
        assert(lines(quoted(body))[i] == quoted_line(lines(body), i));
        assert(without_cr(lines(body)[i]) == lines(body)[i]);
    }
}

/// How the quote of a non-empty text splits after its first line.
pub proof fn lemma_quoted_first_line(s: Seq<char>)
    requires
        s.len() > 0,
    ensures
        after_first_line(s).len() == 0 ==> quoted(s) == "> "@ + first_line(s),
        after_first_line(s).len() > 0 ==> quoted(s) == "> "@ + first_line(s) + "\n"@ + quoted(
            after_first_line(s),
        ),
{
    let line = first_line(s);
    let tail = after_first_line(s);
    assert(lines(s) == seq![line] + lines(tail));
    assert((seq![line] + lines(tail)).skip(1) == lines(tail));
    assert((seq![line] + lines(tail))[0] == line);
    if tail.len() == 0 {
        assert(lines(tail).len() == 0);
    } else {
        assert(lines(tail).len() > 0);
    }
}

/// Appends the quote marker and the first line of `text` from position `i`
/// on, and returns where the line after it starts.
fn push_quoted_line(out: &mut Vec<char>, text: &Vec<char>, i: usize) -> (next: usize)
    requires
        i < text.len(),
    ensures
        i < next <= text.len(),
        final(out)@ == old(out)@ + "> "@ + first_line(text@.skip(i as int)),
        text@.skip(next as int) == after_first_line(text@.skip(i as int)),
{
    let n = text.len();
    let ghost rest = text@.skip(i as int);
    let mut j: usize = i;
    while j < n && text[j] != '\n'
        invariant
            n == text.len(),
            i <= j <= n,
            forall|t: int| i <= t < j ==> text@[t] != '\n',
        decreases n - j,
    {
        j += 1;
    }
    out.push('>');
    out.push(' ');
    let stop: usize = if j < n && j > i && text[j - 1] == '\r' {
        (j - 1) as usize
    } else {
        j
    };
    let ghost head = out@;
    let mut k: usize = i;
    while k < stop
        invariant
            i <= k <= stop,
            stop <= n,
            n == text.len(),
            out@ == head + text@.subrange(i as int, k as int),
        decreases stop - k,
    {
        out.push(text[k]);
        k += 1;
    }
    proof {
        reveal_strlit("> ");
        assert("> "@ == seq!['>', ' ']);
        assert(head == old(out)@ + "> "@);
        lemma_line_end(rest, j - i);
        if j == n {
            assert(text@.subrange(i as int, stop as int) == rest);
            assert(text@.skip(n as int) == Seq::<char>::empty());
        } else {
            assert(rest.take(j - i) == text@.subrange(i as int, j as int));
            assert(text@.subrange(i as int, stop as int) == without_cr(rest.take(j - i)));
            assert(rest.skip(j - i + 1) == text@.skip(j + 1));
        }
    }
    if j < n {
        j + 1
    } else {
        n
    }
}

/// Turns `body` into a block quote: every line of it behind `> `.
pub fn quote_lines(body: &str) -> (out: String)
    ensures
        out@ == quoted(body@),
{
    let text = chars_of(body);
    let n = text.len();
    let mut out: Vec<char> = Vec::new();
    let mut i: usize = 0;
    proof {
        assert(text@.skip(0) == text@);
    }
    while i < n
        invariant
            n == text.len(),
            i <= n,
            i == 0 && n > 0 ==> quoted(text@) == out@ + quoted(text@.skip(i as int)),
            0 < i < n ==> quoted(text@) == out@ + "\n"@ + quoted(text@.skip(i as int)),
            i == n ==> quoted(text@) == out@,
        decreases n - i,
    {
        proof {
            lemma_quoted_first_line(text@.skip(i as int));
            reveal_strlit("\n");
            assert("\n"@ == seq!['\n']);
        }
        if i > 0 {
            out.push('\n');
        }
        i = push_quoted_line(&mut out, &text, i);
    }
    string_of(&out)
}

} // verus!
