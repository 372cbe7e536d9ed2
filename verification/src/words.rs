//! Splitting a line into words, with quotes, escapes and comments.

use vstd::prelude::*;

use crate::text::{chars_of, is_white_space, texts, white_space};

verus! {

/// The word read so far, as a list: no word where nothing was read.
pub open spec fn finished(current: Seq<char>) -> Seq<Seq<char>> {
    if current.len() == 0 {
        seq![]
    } else {
        seq![current]
    }
}

/// The words `front` and then those of `rest`, where `rest` was read well.
pub open spec fn ahead_of(
    front: Seq<Seq<char>>,
    rest: Result<Seq<Seq<char>>, char>,
) -> Result<Seq<Seq<char>>, char> {
    match rest {
        Ok(words) => Ok(front + words),
        Err(q) => Err(q),
    }
}

/// The words of the text `rest`, when `current` has been read of the word at its
/// front, inside the quotes `quote` where there are any. The error is the quote that
/// is never closed.
///
/// A backslash stands for the character behind it, and for nothing at the end of the
/// text. A `#` where a word would begin starts a comment.
pub open spec fn split(
    rest: Seq<char>,
    current: Seq<char>,
    quote: Option<char>,
) -> Result<Seq<Seq<char>>, char>
    decreases rest.len(),
{
    if rest.len() == 0 {
        match quote {
            Some(q) => Err(q),
            None => Ok(finished(current)),
        }
    } else {
        let c = rest[0];
        let tail = rest.skip(1);
        if quote == Some(c) {
            split(tail, current, None)
        } else if quote is None && c == '#' && current.len() == 0 {
            Ok(seq![])
        } else if quote is None && white_space(c) {
            ahead_of(finished(current), split(tail, seq![], None))
        } else if quote is None && (c == '\'' || c == '"') {
            split(tail, current, Some(c))
        } else if c == '\\' && tail.len() > 0 {
            split(tail.skip(1), current.push(tail[0]), quote)
        } else if c == '\\' {
            split(tail, current, quote)
        } else {
            split(tail, current.push(c), quote)
        }
    }
}

/// The words of `line`, or the quote that it leaves open.
pub open spec fn line_words(line: Seq<char>) -> Result<Seq<Seq<char>>, char> {
    split(line, seq![], None)
}

/// The message about a quote `q` that is never closed.
pub open spec fn unterminated(q: char) -> Seq<char> {
    "unterminated "@.push(q) + " quote"@
}

/// Splits `line` into words.
pub fn shell_words(line: &str) -> (r: Result<Vec<String>, String>)
    ensures
        match r {
            Ok(words) => line_words(line@) == Ok::<Seq<Seq<char>>, char>(texts(words@)),
            Err(message) => match line_words(line@) {
                Ok(_) => false,
                Err(q) => message@ == unterminated(q),
            },
        },
{
    let chars = chars_of(line);
    let mut words: Vec<String> = Vec::new();
    let mut current = String::new();
    let mut quote: Option<char> = None;
    let mut i: usize = 0;
    assert(line@.skip(0) == line@);
    assert(texts(words@) == Seq::<Seq<char>>::empty());
    assert(ahead_of(seq![], line_words(line@)) == line_words(line@)) by {
        if let Ok(all) = line_words(line@) {
            assert(Seq::<Seq<char>>::empty() + all == all);
        }
    }
    while i < chars.len()
        invariant_except_break
            line_words(line@) == ahead_of(
                texts(words@),
                split(line@.skip(i as int), current@, quote),
            ),
        invariant
            i <= chars@.len(),
            chars@ == line@,
        ensures
            line_words(line@) == ahead_of(texts(words@), split(seq![], current@, quote)),
        decreases chars@.len() - i,
    {
        let ghost rest = line@.skip(i as int);
        assert(rest.skip(1) == line@.skip(i + 1));
        let ch = chars[i];
        i += 1;
        match quote {
            None => {
                if ch == '#' && current.as_str().is_empty() {
                    break;
                } else if is_white_space(ch) {
                    if !current.as_str().is_empty() {
                        let ghost before = words@;
                        let ghost last = current@;
                        words.push(current);
                        current = String::new();
                        proof {
                            assert(texts(words@) == texts(before) + finished(last));
                            if let Ok(more) = split(rest.skip(1), seq![], None) {
                                assert(texts(before) + (finished(last) + more) == texts(words@)
                                    + more);
                            }
                        }
                    } else {
                        proof {
                            assert(current@ == Seq::<char>::empty());
                            if let Ok(more) = split(rest.skip(1), seq![], None) {
                                assert(finished(current@) + more == more);
                            }
                        }
                    }
                } else if ch == '\'' || ch == '"' {
                    quote = Some(ch);
                } else if ch == '\\' {
                    if i < chars.len() {
                        assert(rest.skip(1).skip(1) == line@.skip(i + 1));
                        current.push(chars[i]);
                        i += 1;
                    }
                } else {
                    current.push(ch);
                }
            },
            Some(q) => {
                if ch == q {
                    quote = None;
                } else if ch == '\\' {
                    if i < chars.len() {
                        assert(rest.skip(1).skip(1) == line@.skip(i + 1));
                        current.push(chars[i]);
                        i += 1;
                    }
                } else {
                    current.push(ch);
                }
            },
        }
        assert(line@.skip(chars@.len() as int) == Seq::<char>::empty());
    }
    if let Some(q) = quote {
        let mut message = "unterminated ".to_string();
        message.push(q);
        message.append(" quote");
        return Err(message);
    }
    if !current.as_str().is_empty() {
        let ghost before = words@;
        let ghost last = current@;
        words.push(current);
        assert(texts(words@) == texts(before) + finished(last));
    } else {
        assert(texts(words@) + finished(current@) == texts(words@));
    }
    Ok(words)
}

/// `word` with a backslash in front of each character.
pub open spec fn escaped(word: Seq<char>) -> Seq<char>
    decreases word.len(),
{
    if word.len() == 0 {
        seq![]
    } else {
        escaped(word.drop_last()) + seq!['\\', word.last()]
    }
}

/// A line that holds `words`, each escaped and followed by a blank.
pub open spec fn escaped_line(words: Seq<Seq<char>>) -> Seq<char>
    decreases words.len(),
{
    if words.len() == 0 {
        seq![]
    } else {
        escaped_line(words.drop_last()) + escaped(words.last()) + seq![' ']
    }
}

/// Two lists read one after the other are read as one list.
proof fn lemma_ahead_of_twice(
    a: Seq<Seq<char>>,
    b: Seq<Seq<char>>,
    rest: Result<Seq<Seq<char>>, char>,
)
    ensures
        ahead_of(a, ahead_of(b, rest)) == ahead_of(a + b, rest),
{
    if let Ok(words) = rest {
        assert(a + (b + words) == (a + b) + words);
    }
}

/// An escaped text is read as itself, inside quotes or not.
pub proof fn law_escaped_text_is_read_as_itself(
    word: Seq<char>,
    rest: Seq<char>,
    current: Seq<char>,
    quote: Option<char>,
)
    requires
        quote != Some('\\'),
    ensures
        split(escaped(word) + rest, current, quote) == split(rest, current + word, quote),
    decreases word.len(),
{
    if word.len() == 0 {
        assert(escaped(word) + rest == rest);
        assert(current + word == current);
    } else {
        let front = word.drop_last();
        let more = seq!['\\', word.last()] + rest;
        assert(escaped(word) + rest == escaped(front) + more);
        law_escaped_text_is_read_as_itself(front, more, current, quote);
        assert(more[0] == '\\');
        assert(more.skip(1)[0] == word.last());
        assert(more.skip(1).skip(1) == rest);
        assert((current + front).push(word.last()) == current + word);
    }
}

/// Words that hold something and were escaped one by one are read back as they were,
/// ahead of whatever words follow on the line.
pub proof fn law_escaped_words_are_read_back(words: Seq<Seq<char>>, rest: Seq<char>)
    requires
        forall|i: int| 0 <= i < words.len() ==> (#[trigger] words[i]).len() > 0,
    ensures
        line_words(escaped_line(words) + rest) == ahead_of(words, line_words(rest)),
    decreases words.len(),
{
    if words.len() == 0 {
        assert(escaped_line(words) + rest == rest);
        if let Ok(more) = line_words(rest) {
            assert(words + more == more);
        }
    } else {
        let front = words.drop_last();
        let last = words.last();
        let blank = seq![' '] + rest;
        let more = escaped(last) + blank;
        assert(escaped_line(words) + rest == escaped_line(front) + more);
        assert forall|i: int| 0 <= i < front.len() implies (#[trigger] front[i]).len() > 0 by {
            assert(front[i] == words[i]);
        }
        law_escaped_words_are_read_back(front, more);
        law_escaped_text_is_read_as_itself(last, blank, seq![], None);
        assert(words[words.len() - 1].len() > 0);
        assert(Seq::<char>::empty() + last == last);
        assert(blank.skip(1) == rest);
        assert(split(blank, last, None) == ahead_of(finished(last), line_words(rest)));
        lemma_ahead_of_twice(front, finished(last), line_words(rest));
        assert(front + finished(last) == words);
    }
}

/// A comment behind the last word of a line is no part of the words.
pub proof fn law_comment_is_ignored(words: Seq<Seq<char>>, comment: Seq<char>)
    requires
        forall|i: int| 0 <= i < words.len() ==> (#[trigger] words[i]).len() > 0,
    ensures
        line_words(escaped_line(words) + seq!['#'] + comment) == Ok::<Seq<Seq<char>>, char>(words),
{
    let rest = seq!['#'] + comment;
    law_escaped_words_are_read_back(words, rest);
    assert(escaped_line(words) + seq!['#'] + comment == escaped_line(words) + rest);
    assert(rest[0] == '#');
    assert(words + Seq::<Seq<char>>::empty() == words);
}

/// Inside quotes every character but the quote and the backslash stands for itself.
proof fn lemma_quoted_text(text: Seq<char>, rest: Seq<char>, current: Seq<char>, q: char)
    requires
        !text.contains(q),
        !text.contains('\\'),
    ensures
        split(text + rest, current, Some(q)) == split(rest, current + text, Some(q)),
    decreases text.len(),
{
    if text.len() == 0 {
        assert(text + rest == rest);
        assert(current + text == current);
    } else {
        assert(text.contains(text[0]));
        let tail = text.skip(1);
        assert forall|c: char| tail.contains(c) implies text.contains(c) by {
            let k = choose|k: int| 0 <= k < tail.len() && tail[k] == c;
            assert(text[k + 1] == c);
        }
        assert((text + rest).skip(1) == tail + rest);
        lemma_quoted_text(tail, rest, current.push(text[0]), q);
        assert(current.push(text[0]) + tail == current + text);
    }
}

/// Quoted text that holds something is one word, whatever blanks, comments and quotes
/// of the other kind it holds. It may hold neither the quote around it nor a backslash.
pub proof fn law_quoted_text_is_one_word(text: Seq<char>, q: char)
    requires
        q == '\'' || q == '"',
        text.len() > 0,
        !text.contains(q),
        !text.contains('\\'),
    ensures
        line_words(seq![q] + text + seq![q]) == Ok::<Seq<Seq<char>>, char>(seq![text]),
{
    let line = seq![q] + text + seq![q];
    assert(line.skip(1) == text + seq![q]);
    lemma_quoted_text(text, seq![q], seq![], q);
    assert(Seq::<char>::empty() + text == text);
    assert(seq![q].skip(1) == Seq::<char>::empty());
    assert(split(seq![], text, None) == Ok::<Seq<Seq<char>>, char>(seq![text]));
    assert(split(seq![q], text, Some(q)) == split(seq![], text, None));
}

/// `text` with a backslash in front of each double quote and of each backslash.
pub open spec fn guarded(text: Seq<char>) -> Seq<char>
    decreases text.len(),
{
    if text.len() == 0 {
        seq![]
    } else {
        let c = text.last();
        guarded(text.drop_last()) + if c == '"' || c == '\\' {
            seq!['\\', c]
        } else {
            seq![c]
        }
    }
}

/// `text` between double quotes, with a backslash in front of each double quote and of each
/// backslash.
pub open spec fn quoted(text: Seq<char>) -> Seq<char> {
    seq!['"'] + guarded(text) + seq!['"']
}

/// Inside double quotes a guarded text is read as itself.
proof fn lemma_guarded_text(text: Seq<char>, rest: Seq<char>, current: Seq<char>)
    ensures
        split(guarded(text) + rest, current, Some('"')) == split(rest, current + text, Some('"')),
    decreases text.len(),
{
    if text.len() == 0 {
        assert(guarded(text) + rest == rest);
        assert(current + text == current);
    } else {
        let front = text.drop_last();
        let c = text.last();
        let last = if c == '"' || c == '\\' {
            seq!['\\', c]
        } else {
            seq![c]
        };
        let more = last + rest;
        assert(guarded(text) + rest == guarded(front) + more);
        lemma_guarded_text(front, more, current);
        if c == '"' || c == '\\' {
            assert(more[0] == '\\');
            assert(more.skip(1)[0] == c);
            assert(more.skip(1).skip(1) == rest);
        } else {
            assert(more[0] == c);
            assert(more.skip(1) == rest);
        }
        assert((current + front).push(c) == current + text);
    }
}

/// A text that was guarded and put between double quotes is read back as it was, whatever
/// it holds and whatever follows it on the line.
pub proof fn law_guarded_text_is_read_back(text: Seq<char>, rest: Seq<char>)
    ensures
        line_words(quoted(text) + rest) == split(rest, text, None),
{
    let line = quoted(text) + rest;
    let closing = seq!['"'] + rest;
    assert(line.skip(1) == guarded(text) + closing);
    lemma_guarded_text(text, closing, seq![]);
    assert(Seq::<char>::empty() + text == text);
    assert(closing.skip(1) == rest);
    assert(split(closing, text, Some('"')) == split(rest, text, None));
    assert(line_words(line) == split(line.skip(1), seq![], Some('"')));
}

/// Whether a word consists of small letters, digits and hyphens.
pub open spec fn bare(word: Seq<char>) -> bool {
    forall|i: int|
        0 <= i < word.len() ==> {
            ||| 'a' <= #[trigger] word[i] <= 'z'
            ||| '0' <= word[i] <= '9'
            ||| word[i] == '-'
        }
}

/// A bare word is read as itself.
proof fn lemma_bare_text(word: Seq<char>, rest: Seq<char>, current: Seq<char>)
    requires
        bare(word),
    ensures
        split(word + rest, current, None) == split(rest, current + word, None),
    decreases word.len(),
{
    if word.len() == 0 {
        assert(word + rest == rest);
        assert(current + word == current);
    } else {
        let c = word[0];
        let tail = word.skip(1);
        assert((word + rest).skip(1) == tail + rest);
        lemma_bare_text(tail, rest, current.push(c));
        assert(current.push(c) + tail == current + word);
    }
}

/// A bare word with a blank behind it is a word of its own, ahead of whatever words follow.
pub proof fn law_bare_word_is_read_back(word: Seq<char>, rest: Seq<char>)
    requires
        bare(word),
        word.len() > 0,
    ensures
        line_words(word + seq![' '] + rest) == ahead_of(seq![word], line_words(rest)),
{
    let blank = seq![' '] + rest;
    assert(word + seq![' '] + rest == word + blank);
    lemma_bare_text(word, blank, seq![]);
    assert(Seq::<char>::empty() + word == word);
    lemma_blank_ends_a_word(word, rest);
}

/// A blank ends the word ahead of it.
pub(crate) proof fn lemma_blank_ends_a_word(word: Seq<char>, rest: Seq<char>)
    requires
        word.len() > 0,
    ensures
        split(seq![' '] + rest, word, None) == ahead_of(seq![word], line_words(rest)),
{
    assert((seq![' '] + rest).skip(1) == rest);
}

/// Text behind a quote that is never closed is refused, and the quote is named.
pub proof fn law_open_quote_is_refused(text: Seq<char>, q: char)
    requires
        q == '\'' || q == '"',
        !text.contains(q),
        !text.contains('\\'),
    ensures
        line_words(seq![q] + text) == Err::<Seq<Seq<char>>, char>(q),
{
    let line = seq![q] + text;
    assert(line.skip(1) == text + Seq::<char>::empty());
    lemma_quoted_text(text, seq![], seq![], q);
}

/// No word that is read is empty.
pub proof fn law_words_hold_something(rest: Seq<char>, current: Seq<char>, quote: Option<char>)
    ensures
        match split(rest, current, quote) {
            Ok(words) => forall|i: int| 0 <= i < words.len() ==> (#[trigger] words[i]).len() > 0,
            Err(_) => true,
        },
    decreases rest.len(),
{
    if rest.len() > 0 {
        let c = rest[0];
        let tail = rest.skip(1);
        law_words_hold_something(tail, current, None);
        law_words_hold_something(tail, seq![], None);
        law_words_hold_something(tail, current, Some(c));
        law_words_hold_something(tail, current, quote);
        law_words_hold_something(tail, current.push(c), quote);
        if tail.len() > 0 {
            law_words_hold_something(tail.skip(1), current.push(tail[0]), quote);
        }
    }
}

} // verus!
