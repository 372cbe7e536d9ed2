//! Plain text: characters, prefixes, white space and trimming.

use vstd::prelude::*;

verus! {

/// `String::push` appends one character to the end of the string.
pub assume_specification[ String::push ](s: &mut String, c: char)
    ensures
        final(s)@ == old(s)@.push(c),
;

/// The texts that a list of strings holds.
pub open spec fn texts(list: Seq<String>) -> Seq<Seq<char>> {
    list.map_values(|s: String| s@)
}

/// The text of an optional string.
pub open spec fn opt_text(s: Option<String>) -> Option<Seq<char>> {
    match s {
        Some(s) => Some(s@),
        None => None,
    }
}

/// The characters of `s`, in order.
pub fn chars_of(s: &str) -> (r: Vec<char>)
    ensures
        r@ == s@,
{
    let mut r: Vec<char> = Vec::new();
    for c in it: s.chars()
        invariant
            r@ == it.seq().take(it.index()),
            it.seq() == s@,
    {
        r.push(c);
    }
    r
}

/// The text made of the characters `chars[from..to]`.
pub fn text_between(chars: &Vec<char>, from: usize, to: usize) -> (r: String)
    requires
        from <= to <= chars@.len(),
    ensures
        r@ == chars@.subrange(from as int, to as int),
{
    let mut r = String::new();
    let mut i = from;
    while i < to
        invariant
            from <= i <= to <= chars@.len(),
            r@ == chars@.subrange(from as int, i as int),
        decreases to - i,
    {
        r.push(chars[i]);
        i += 1;
    }
    r
}

/// Whether `s` and `t` are the same text.
pub fn same_text(s: &String, t: &str) -> (r: bool)
    ensures
        r == (s@ == t@),
{
    *s == t.to_string()
}

/// A copy of an optional string.
pub fn copy_text(s: &Option<String>) -> (r: Option<String>)
    ensures
        opt_text(r) == opt_text(*s),
{
    s.clone()
}

/// A text made of `first` and then `second`.
pub fn join(first: &str, second: &str) -> (r: String)
    ensures
        r@ == first@ + second@,
{
    let mut r = first.to_string();
    r.append(second);
    r
}

/// What is left of `text` behind `prefix`, where `text` starts with it.
pub open spec fn behind(text: Seq<char>, prefix: Seq<char>) -> Option<Seq<char>> {
    if prefix.is_prefix_of(text) {
        Some(text.skip(prefix.len() as int))
    } else {
        None
    }
}

/// Takes `prefix` off the front of `text`.
pub fn strip(text: &str, prefix: &str) -> (r: Option<String>)
    ensures
        opt_text(r) == behind(text@, prefix@),
{
    let chars = chars_of(text);
    let front = chars_of(prefix);
    if front.len() > chars.len() {
        return None;
    }
    let mut i: usize = 0;
    while i < front.len()
        invariant
            i <= front@.len() <= chars@.len(),
            chars@ == text@,
            front@ == prefix@,
            forall|k: int| 0 <= k < i ==> chars@[k] == front@[k],
        decreases front@.len() - i,
    {
        if chars[i] != front[i] {
            assert(prefix@[i as int] != text@[i as int]);
            return None;
        }
        i += 1;
    }
    assert(prefix@ == text@.subrange(0, prefix@.len() as int));
    assert(text@.subrange(prefix@.len() as int, text@.len() as int) == text@.skip(
        prefix@.len() as int,
    ));
    Some(text_between(&chars, front.len(), chars.len()))
}

/// Whether `text` starts with the character `c`.
pub open spec fn begins(text: Seq<char>, c: char) -> bool {
    text.len() > 0 && text[0] == c
}

/// Whether `text` starts with the character `c`.
pub fn starts_with_char(text: &str, c: char) -> (r: bool)
    ensures
        r == begins(text@, c),
{
    !text.is_empty() && text.get_char(0) == c
}

/// The characters that Unicode gives the property White_Space.
pub open spec fn white_space(c: char) -> bool {
    ||| '\u{9}' <= c <= '\u{d}'
    ||| c == ' '
    ||| c == '\u{85}'
    ||| c == '\u{a0}'
    ||| c == '\u{1680}'
    ||| '\u{2000}' <= c <= '\u{200a}'
    ||| c == '\u{2028}'
    ||| c == '\u{2029}'
    ||| c == '\u{202f}'
    ||| c == '\u{205f}'
    ||| c == '\u{3000}'
}

/// Whether `c` is white space.
pub fn is_white_space(c: char) -> (r: bool)
    ensures
        r == white_space(c),
{
    ('\u{9}' <= c && c <= '\u{d}') || c == ' ' || c == '\u{85}' || c == '\u{a0}' || c == '\u{1680}'
        || ('\u{2000}' <= c && c <= '\u{200a}') || c == '\u{2028}' || c == '\u{2029}' || c
        == '\u{202f}' || c == '\u{205f}' || c == '\u{3000}'
}

/// `s` without the white space at its front.
pub open spec fn trim_front(s: Seq<char>) -> Seq<char>
    decreases s.len(),
{
    if s.len() > 0 && white_space(s[0]) {
        trim_front(s.skip(1))
    } else {
        s
    }
}

/// `s` without the white space at its end.
pub open spec fn trim_back(s: Seq<char>) -> Seq<char>
    decreases s.len(),
{
    if s.len() > 0 && white_space(s.last()) {
        trim_back(s.drop_last())
    } else {
        s
    }
}

/// `s` without the white space at its front and at its end.
pub open spec fn trimmed(s: Seq<char>) -> Seq<char> {
    trim_back(trim_front(s))
}

/// The characters `chars[from..to]`, without the white space around them.
pub fn trim_between(chars: &Vec<char>, from: usize, to: usize) -> (r: String)
    requires
        from <= to <= chars@.len(),
    ensures
        r@ == trimmed(chars@.subrange(from as int, to as int)),
{
    let mut lo = from;
    while lo < to && is_white_space(chars[lo])
        invariant
            from <= lo <= to <= chars@.len(),
            trim_front(chars@.subrange(from as int, to as int)) == trim_front(
                chars@.subrange(lo as int, to as int),
            ),
        decreases to - lo,
    {
        assert(chars@.subrange(lo as int, to as int).skip(1) == chars@.subrange(
            lo + 1,
            to as int,
        ));
        lo += 1;
    }
    let mut hi = to;
    while lo < hi && is_white_space(chars[hi - 1])
        invariant
            from <= lo <= hi <= to <= chars@.len(),
            trim_back(chars@.subrange(lo as int, to as int)) == trim_back(
                chars@.subrange(lo as int, hi as int),
            ),
        decreases hi,
    {
        assert(chars@.subrange(lo as int, hi as int).drop_last() == chars@.subrange(
            lo as int,
            hi - 1,
        ));
        hi -= 1;
    }
    text_between(chars, lo, hi)
}

} // verus!
