//! Character-level helpers on strings.
//!
//! A string is read into a vector of characters once, worked on by index and
//! written back one character at a time, so that every step is linear in the
//! length of the text.

use vstd::prelude::*;

verus! {

/// `String::push` appends the given character to the end of the string.
pub assume_specification[ String::push ](s: &mut String, ch: char)
    ensures
        final(s)@ == old(s)@.push(ch),
;

/// The text of an optional string as a character sequence.
pub open spec fn option_text(field: Option<String>) -> Option<Seq<char>> {
    match field {
        Some(text) => Some(text@),
        None => None,
    }
}

/// `s` without its leading run of `c`.
pub open spec fn trim_start(s: Seq<char>, c: char) -> Seq<char>
    decreases s.len(),
{
    if s.len() > 0 && s.first() == c {
        trim_start(s.drop_first(), c)
    } else {
        s
    }
}

/// `s` without its trailing run of `c`.
pub open spec fn trim_end(s: Seq<char>, c: char) -> Seq<char>
    decreases s.len(),
{
    if s.len() > 0 && s.last() == c {
        trim_end(s.drop_last(), c)
    } else {
        s
    }
}

/// `s` without its leading and trailing runs of `c`.
pub open spec fn trim(s: Seq<char>, c: char) -> Seq<char> {
    trim_end(trim_start(s, c), c)
}

/// `s` without `prefix` in front, where it starts with `prefix`; else `s`.
pub open spec fn strip_prefix(s: Seq<char>, prefix: Seq<char>) -> Seq<char> {
    if prefix.is_prefix_of(s) {
        s.skip(prefix.len() as int)
    } else {
        s
    }
}

/// `s` without `suffix` at its end, where it ends with `suffix`; else `s`.
pub open spec fn strip_suffix(s: Seq<char>, suffix: Seq<char>) -> Seq<char> {
    if suffix.is_suffix_of(s) {
        s.take(s.len() - suffix.len())
    } else {
        s
    }
}

/// `s` with each occurrence of `from` replaced by `to`. Occurrences are
/// found from the front and do not overlap. An empty `from` occurs nowhere.
pub open spec fn replace_all(s: Seq<char>, from: Seq<char>, to: Seq<char>) -> Seq<char>
    decreases s.len(),
{
    if s.len() == 0 {
        s
    } else if from.len() > 0 && from.is_prefix_of(s) {
        to + replace_all(s.skip(from.len() as int), from, to)
    } else {
        seq![s.first()] + replace_all(s.drop_first(), from, to)
    }
}

/// One more `c` at the end changes nothing of what `trim_end` keeps.
pub proof fn lemma_trim_end_push(s: Seq<char>, c: char)
    ensures
        trim_end(s.push(c), c) == trim_end(s, c),
{
    assert(s.push(c).drop_last() == s);
}

/// Where something is left of `s` without its leading run of `c`, it ends as
/// `s` does, and what follows `s` stays behind it.
pub proof fn lemma_trim_start_append(s: Seq<char>, t: Seq<char>, c: char)
    requires
        trim_start(s, c).len() > 0,
    ensures
        trim_start(s + t, c) == trim_start(s, c) + t,
        trim_start(s, c).last() == s.last(),
    decreases s.len(),
{
    if s.first() == c {
        assert((s + t).drop_first() == s.drop_first() + t);
        lemma_trim_start_append(s.drop_first(), t, c);
    }
}

/// Where nothing is left of `s` without its leading run of `c`, nothing is
/// left of it with one more `c` at its end either.
pub proof fn lemma_trim_start_all(s: Seq<char>, c: char)
    requires
        trim_start(s, c).len() == 0,
    ensures
        trim_start(s.push(c), c).len() == 0,
    decreases s.len(),
{
    if s.len() == 0 {
        assert(s.push(c).drop_first() == s);
    } else {
        assert(s.push(c).drop_first() == s.drop_first().push(c));
        lemma_trim_start_all(s.drop_first(), c);
    }
}

/// One more `c` at the end changes nothing of what `trim` keeps.
pub proof fn lemma_trim_push(s: Seq<char>, c: char)
    ensures
        trim(s.push(c), c) == trim(s, c),
{
    if trim_start(s, c).len() == 0 {
        lemma_trim_start_all(s, c);
    } else {
        lemma_trim_start_append(s, seq![c], c);
        assert(s + seq![c] == s.push(c));
        assert(trim_start(s, c) + seq![c] == trim_start(s, c).push(c));
        lemma_trim_end_push(trim_start(s, c), c);
    }
}

/// Whether `c` occurs in `s`.
pub fn has_char(s: &str, c: char) -> (b: bool)
    ensures
        b == s@.contains(c),
{
    for x in it: s.chars()
        invariant
            it.seq() == s@,
            !s@.take(it.index() as int).contains(c),
    {
        if x == c {
            assert(s@[it.index() as int] == c);
            return true;
        }
        assert(s@.take(it.index() + 1) == s@.take(it.index() as int).push(x));
    }
    assert(s@.take(s@.len() as int) == s@);
    false
}

/// The characters of `s`, in order.
pub fn chars_of(s: &str) -> (chars: Vec<char>)
    ensures
        chars@ == s@,
{
    let mut chars: Vec<char> = Vec::new();
    for c in it: s.chars()
        invariant
            it.seq() == s@,
            chars@ == it.seq().take(it.index() as int),
    {
        chars.push(c);
    }
    chars
}

/// Appends `chars[lo..hi]` to `out`.
pub fn append_chars(out: &mut String, chars: &Vec<char>, lo: usize, hi: usize)
    requires
        lo <= hi <= chars.len(),
    ensures
        final(out)@ == old(out)@ + chars@.subrange(lo as int, hi as int),
{
    let mut i: usize = lo;
    while i < hi
        invariant
            lo <= i <= hi <= chars.len(),
            out@ == old(out)@ + chars@.subrange(lo as int, i as int),
        decreases hi - i,
    {
        out.push(chars[i]);
        i += 1;
    }
}

/// The string made of `chars[lo..hi]`.
pub fn string_of(chars: &Vec<char>, lo: usize, hi: usize) -> (s: String)
    requires
        lo <= hi <= chars.len(),
    ensures
        s@ == chars@.subrange(lo as int, hi as int),
{
    let mut s = String::new();
    append_chars(&mut s, chars, lo, hi);
    s
}

/// Whether `chars[lo..hi]` starts with `prefix`.
pub fn starts_with(chars: &Vec<char>, lo: usize, hi: usize, prefix: &Vec<char>) -> (b: bool)
    requires
        lo <= hi <= chars.len(),
    ensures
        b == prefix@.is_prefix_of(chars@.subrange(lo as int, hi as int)),
{
    let n = prefix.len();
    if hi - lo < n {
        return false;
    }
    let ghost window = chars@.subrange(lo as int, hi as int);
    let mut i: usize = 0;
    while i < n
        invariant
            lo <= hi <= chars.len(),
            n == prefix.len(),
            n <= hi - lo,
            i <= n,
            window == chars@.subrange(lo as int, hi as int),
            prefix@.take(i as int) == window.take(i as int),
        decreases n - i,
    {
        if chars[lo + i] != prefix[i] {
            return false;
        }
        i += 1;
    }
    true
}

/// Whether `chars[lo..hi]` ends with `suffix`.
pub fn ends_with(chars: &Vec<char>, lo: usize, hi: usize, suffix: &Vec<char>) -> (b: bool)
    requires
        lo <= hi <= chars.len(),
    ensures
        b == suffix@.is_suffix_of(chars@.subrange(lo as int, hi as int)),
{
    let n = suffix.len();
    if hi - lo < n {
        return false;
    }
    starts_with(chars, hi - n, hi, suffix)
}

/// The bounds within `chars` of what `trim` keeps of it.
pub fn trim_bounds(chars: &Vec<char>, c: char) -> (bounds: (usize, usize))
    ensures
        bounds.0 <= bounds.1 <= chars.len(),
        chars@.subrange(bounds.0 as int, bounds.1 as int) == trim(chars@, c),
{
    let n = chars.len();
    let mut lo: usize = 0;
    assert(chars@.skip(0) == chars@);
    while lo < n && chars[lo] == c
        invariant
            n == chars.len(),
            lo <= n,
            trim_start(chars@.skip(lo as int), c) == trim_start(chars@, c),
        decreases n - lo,
    {
        assert(chars@.skip(lo as int).drop_first() == chars@.skip(lo + 1));
        lo += 1;
    }
    let mut hi: usize = n;
    while hi > lo && chars[hi - 1] == c
        invariant
            n == chars.len(),
            lo <= hi <= n,
            trim_end(chars@.subrange(lo as int, hi as int), c) == trim(chars@, c),
        decreases hi - lo,
    {
        assert(chars@.subrange(lo as int, hi as int).drop_last() == chars@.subrange(
            lo as int,
            hi - 1,
        ));
        hi -= 1;
    }
    (lo, hi)
}

/// `text` with each occurrence of `from` replaced by `to`.
pub fn replace_chars(text: &Vec<char>, from: &Vec<char>, to: &Vec<char>) -> (out: Vec<char>)
    requires
        from.len() > 0,
    ensures
        out@ == replace_all(text@, from@, to@),
{
    let n = text.len();
    let mut out: Vec<char> = Vec::new();
    let mut i: usize = 0;
    assert(text@.skip(0) == text@);
    while i < n
        invariant
            n == text.len(),
            i <= n,
            from.len() > 0,
            out@ + replace_all(text@.skip(i as int), from@, to@) == replace_all(
                text@,
                from@,
                to@,
            ),
        decreases n - i,
    {
        let ghost rest = text@.skip(i as int);
        let ghost done = out@;
        if starts_with(text, i, n, from) {
            let mut j: usize = 0;
            while j < to.len()
                invariant
                    j <= to.len(),
                    out@ == done + to@.take(j as int),
                decreases to.len() - j,
            {
                out.push(to[j]);
                j += 1;
            }
            assert(rest.skip(from.len() as int) == text@.skip(i + from.len()));
            i += from.len();
        } else {
            out.push(text[i]);
            assert(rest.drop_first() == text@.skip(i + 1));
            i += 1;
        }
    }
    out
}

} // verus!
