//! Texts of lines: how a text is split into lines and how lines are joined to
//! a text.

use std::collections::VecDeque;
use itertools::Itertools;
use vstd::prelude::*;

verus! {

/// The number of characters of `s` that stand before its first `sep`, or
/// the length of `s` where it holds none.
pub open spec fn field_len(s: Seq<char>, sep: char) -> nat
    decreases s.len(),
{
    if s.len() == 0 || s.first() == sep {
        0
    } else {
        1 + field_len(s.drop_first(), sep)
    }
}

/// The lines of `text`, in order, without the empty ones: a line ends at a
/// line feed or at the end of the text, and the line feed is no part of it.
pub open spec fn lines(text: Seq<char>) -> Seq<Seq<char>>
    decreases text.len(),
{
    if text.len() == 0 {
        Seq::empty()
    } else {
        let n = field_len(text, '\n') as int;
        let rest = if n < text.len() {
            lines(text.skip(n + 1))
        } else {
            Seq::empty()
        };
        if n == 0 {
            rest
        } else {
            seq![text.take(n)] + rest
        }
    }
}

/// The items in order with `sep` between each two of them.
pub open spec fn join(items: Seq<Seq<char>>, sep: Seq<char>) -> Seq<char>
    decreases items.len(),
{
    if items.len() == 0 {
        Seq::empty()
    } else if items.len() == 1 {
        items.first()
    } else {
        items.first() + sep + join(items.drop_first(), sep)
    }
}

/// Whether `s` can stand as a line of its own: it is not empty and holds no
/// line feed.
pub open spec fn is_line(s: Seq<char>) -> bool {
    s.len() > 0 && !s.contains('\n')
}

/// A text without `sep` that is followed by `sep`, or by nothing, is a whole
/// field.
pub proof fn lemma_field_len(head: Seq<char>, tail: Seq<char>, sep: char)
    requires
        !head.contains(sep),
        tail.len() == 0 || tail.first() == sep,
    ensures
        field_len(head + tail, sep) == head.len(),
    decreases head.len(),
{
    if head.len() > 0 {
        assert((head + tail).drop_first() == head.drop_first() + tail);
        assert forall|i: int| 0 <= i < head.drop_first().len() implies head.drop_first()[i]
            != sep by {}
        lemma_field_len(head.drop_first(), tail, sep);
    }
}

/// The lines of a text that starts with a line-feed-free `head`, goes on with
/// a line feed and ends with `tail`: `head`, unless it is empty, then the
/// lines of `tail`.
pub proof fn lemma_lines_step(head: Seq<char>, tail: Seq<char>)
    requires
        !head.contains('\n'),
    ensures
        lines(head + seq!['\n'] + tail) == if head.len() == 0 {
            lines(tail)
        } else {
            seq![head] + lines(tail)
        },
{
    let text = head + seq!['\n'] + tail;
    assert(text == head + (seq!['\n'] + tail));
    lemma_field_len(head, seq!['\n'] + tail, '\n');
    assert(text.skip(head.len() as int + 1) == tail);
    assert(text.take(head.len() as int) == head);
}

/// The lines of a text without line feed: the text itself, unless it is
/// empty.
pub proof fn lemma_lines_last(head: Seq<char>)
    requires
        !head.contains('\n'),
    ensures
        lines(head) == if head.len() == 0 {
            Seq::<Seq<char>>::empty()
        } else {
            seq![head]
        },
{
    lemma_field_len(head, Seq::empty(), '\n');
    assert(head.take(head.len() as int) == head);
}

/// Splitting undoes joining: the lines of a text that was joined from lines
/// with line feeds are those lines.
pub proof fn lemma_lines_of_joined(items: Seq<Seq<char>>)
    requires
        forall|i: int| 0 <= i < items.len() ==> is_line(#[trigger] items[i]),
    ensures
        lines(join(items, seq!['\n'])) == items,
    decreases items.len(),
{
    if items.len() == 1 {
        lemma_lines_last(items.first());
    } else if items.len() > 1 {
        let rest = items.drop_first();
        assert forall|i: int| 0 <= i < rest.len() implies is_line(#[trigger] rest[i]) by {}
        lemma_lines_of_joined(rest);
        lemma_lines_step(items.first(), join(rest, seq!['\n']));
    }
}

/// What stands before the first `sep` of `s` is within `s` and holds no
/// `sep`.
pub proof fn lemma_field_is_free(s: Seq<char>, sep: char)
    ensures
        field_len(s, sep) <= s.len(),
        !s.take(field_len(s, sep) as int).contains(sep),
    decreases s.len(),
{
    let n = field_len(s, sep) as int;
    if s.len() == 0 || s.first() == sep {
    } else {
        lemma_field_is_free(s.drop_first(), sep);
        let inner = s.drop_first().take(n - 1);
        assert forall|i: int| 0 <= i < n implies s.take(n)[i] != sep by {
            if i > 0 {
                assert(s.take(n)[i] == inner[i - 1]);
            }
        }
    }
}

/// Every line of a text can stand as a line of its own.
pub proof fn lemma_lines_are_lines(text: Seq<char>)
    ensures
        forall|i: int| 0 <= i < lines(text).len() ==> is_line(#[trigger] lines(text)[i]),
    decreases text.len(),
{
    if text.len() > 0 {
        let n = field_len(text, '\n') as int;
        lemma_field_is_free(text, '\n');
        let rest = if n < text.len() {
            lines(text.skip(n + 1))
        } else {
            Seq::empty()
        };
        if n < text.len() {
            lemma_lines_are_lines(text.skip(n + 1));
        }
        assert forall|i: int| 0 <= i < lines(text).len() implies is_line(
            #[trigger] lines(text)[i],
        ) by {
            if n == 0 {
                assert(lines(text)[i] == rest[i]);
            } else if i == 0 {
                assert(lines(text)[i] == text.take(n));
            } else {
                assert(lines(text)[i] == rest[i - 1]);
            }
        }
    }
}

/// `Itertools::join` on the strings of `items`: the first one, then `sep`
/// and the next one for each that follows; nothing for no items.
#[verifier::external_body]
pub(crate) fn join_strings(items: &VecDeque<String>, sep: &str) -> (text: String)
    ensures
        text@ == join(items.deep_view(), sep@),
{
    items.iter().join(sep)
}

/// The non-empty lines of `text`, oldest first.
pub fn non_empty_lines(text: &str) -> (out: VecDeque<String>)
    ensures
        out.deep_view() == lines(text@),
{
    let mut out: VecDeque<String> = VecDeque::new();
    let mut cur = String::new();
    assert(cur@ + text@.skip(0) == text@);
    for c in it: text.chars()
        invariant
            it.seq() == text@,
            !cur@.contains('\n'),
            out.deep_view() + lines(cur@ + text@.skip(it.index() as int)) == lines(text@),
    {
        let ghost rest = text@.skip(it.index() + 1);
        assert(text@.skip(it.index() as int) == seq![c] + rest);
        if c == '\n' {
            proof {
                lemma_lines_step(cur@, rest);
                assert(cur@ + (seq![c] + rest) == cur@ + seq!['\n'] + rest);
            }
            if !cur.as_str().is_empty() {
                out.push_back(cur);
            }
            cur = String::new();
        } else {
            let ghost before = cur@;
            cur.push(c);
            assert(cur@ + rest == before + (seq![c] + rest));
            assert forall|i: int| 0 <= i < cur@.len() implies cur@[i] != '\n' by {}
        }
    }
    proof {
        lemma_lines_last(cur@);
    }
    if !cur.as_str().is_empty() {
        out.push_back(cur);
    }
    out
}

} // verus!
