//! What each character of a line does to the words that are read from it, and what whole
//! words are read as.

use vstd::prelude::*;

use crate::text::white_space;
use crate::words::{line_words, split};

verus! {

/// Whether a character outside quotes stands for itself wherever it is in a word: it is no
/// white space, no quote, no backslash and no `#`.
pub open spec fn ordinary(c: char) -> bool {
    !white_space(c) && c != '\'' && c != '"' && c != '\\' && c != '#'
}

/// White space among the ASCII characters is the blank, and what stands from the tabulator
/// to the carriage return.
pub proof fn law_white_space_in_ascii(c: char)
    requires
        c <= '\u{7f}',
    ensures
        white_space(c) <==> c == ' ' || '\u{9}' <= c <= '\u{d}',
{
}

/// Outside quotes every character but white space, the quotes, the backslash and a `#` where
/// a word would begin stands for itself.
pub proof fn law_character_stands_for_itself(c: char, rest: Seq<char>, current: Seq<char>)
    requires
        !white_space(c),
        c != '\'' && c != '"' && c != '\\',
        c == '#' ==> current.len() > 0,
    ensures
        split(seq![c] + rest, current, None) == split(rest, current.push(c), None),
{
    assert((seq![c] + rest).skip(1) =~= rest);
}

/// Every printable ASCII character but the two quotes, the backslash and the `#` is ordinary,
/// slashes, dots, colons and capital letters among them.
pub proof fn law_printable_characters_are_ordinary(c: char)
    requires
        '!' <= c <= '~',
    ensures
        ordinary(c) <==> c != '\'' && c != '"' && c != '\\' && c != '#',
{
}

/// White space outside quotes ends the word ahead of it, and does nothing where there is none.
pub proof fn law_white_space_ends_a_word(c: char, rest: Seq<char>, current: Seq<char>)
    requires
        white_space(c),
    ensures
        current.len() == 0 ==> split(seq![c] + rest, current, None) == line_words(rest),
        current.len() > 0 ==> match (split(seq![c] + rest, current, None), line_words(rest)) {
            (Ok(words), Ok(more)) => words == seq![current] + more,
            (Err(a), Err(b)) => a == b,
            _ => false,
        },
{
    assert((seq![c] + rest).skip(1) =~= rest);
    if let Ok(more) = line_words(rest) {
        assert(Seq::<Seq<char>>::empty() + more =~= more);
    }
}

/// A `#` outside quotes where a word would begin hides the rest of the line.
pub proof fn law_comment_hides_the_rest(rest: Seq<char>)
    ensures
        line_words(seq!['#'] + rest) == Ok::<Seq<Seq<char>>, char>(seq![]),
{
}

/// A quote opens a stretch of text that the same quote closes. The word goes on behind it.
pub proof fn law_quotes_open_and_close(q: char, rest: Seq<char>, current: Seq<char>)
    requires
        q == '\'' || q == '"',
    ensures
        split(seq![q] + rest, current, None) == split(rest, current, Some(q)),
        split(seq![q] + rest, current, Some(q)) == split(rest, current, None),
{
    assert((seq![q] + rest).skip(1) =~= rest);
}

/// Inside quotes every character but the quote itself and the backslash stands for itself,
/// white space and `#` among them.
pub proof fn law_quoted_character_stands_for_itself(
    q: char,
    c: char,
    rest: Seq<char>,
    current: Seq<char>,
)
    requires
        c != q && c != '\\',
    ensures
        split(seq![c] + rest, current, Some(q)) == split(rest, current.push(c), Some(q)),
{
    assert((seq![c] + rest).skip(1) =~= rest);
}

/// A backslash makes the character behind it stand for itself, inside quotes or not.
pub proof fn law_backslash_takes_the_next_character(
    c: char,
    rest: Seq<char>,
    current: Seq<char>,
    quote: Option<char>,
)
    requires
        quote != Some('\\'),
    ensures
        split(seq!['\\', c] + rest, current, quote) == split(rest, current.push(c), quote),
{
    let line = seq!['\\', c] + rest;
    assert(line.skip(1)[0] == c);
    assert(line.skip(1).skip(1) =~= rest);
}

/// At the end of a line the word that was being read is finished, where it holds something;
/// a backslash there stands for nothing, and a quote that is open is an error.
pub proof fn law_line_ends(current: Seq<char>, q: char)
    requires
        q != '\\',
    ensures
        current.len() > 0 ==> split(seq![], current, None) == Ok::<Seq<Seq<char>>, char>(
            seq![current],
        ),
        current.len() == 0 ==> split(seq![], current, None) == Ok::<Seq<Seq<char>>, char>(seq![]),
        split(seq![], current, Some(q)) == Err::<Seq<Seq<char>>, char>(q),
        split(seq!['\\'], current, None) == split(seq![], current, None),
        split(seq!['\\'], current, Some(q)) == Err::<Seq<Seq<char>>, char>(q),
{
    assert(seq!['\\'].skip(1) =~= Seq::<char>::empty());
    assert(split(seq![], current, Some(q)) == Err::<Seq<Seq<char>>, char>(q));
}

/// Whether a text is a word that can be written as it is: it holds something, and all its
/// characters are ordinary.
pub open spec fn plain_word(word: Seq<char>) -> bool {
    word.len() > 0 && forall|i: int| 0 <= i < word.len() ==> ordinary(#[trigger] word[i])
}

/// Ordinary characters are read into the word ahead of them.
proof fn lemma_ordinary_text(word: Seq<char>, rest: Seq<char>, current: Seq<char>)
    requires
        forall|i: int| 0 <= i < word.len() ==> ordinary(#[trigger] word[i]),
    ensures
        split(word + rest, current, None) == split(rest, current + word, None),
    decreases word.len(),
{
    if word.len() == 0 {
        assert(word + rest =~= rest);
        assert(current + word =~= current);
    } else {
        let tail = word.skip(1);
        assert(ordinary(word[0]));
        assert forall|i: int| 0 <= i < tail.len() implies ordinary(#[trigger] tail[i]) by {
            assert(tail[i] == word[i + 1]);
        }
        assert(word + rest =~= seq![word[0]] + (tail + rest));
        law_character_stands_for_itself(word[0], tail + rest, current);
        lemma_ordinary_text(tail, rest, current.push(word[0]));
        assert(current.push(word[0]) + tail =~= current + word);
    }
}

/// A line of words with a blank in front of each.
pub open spec fn spaced(words: Seq<Seq<char>>) -> Seq<char>
    decreases words.len(),
{
    if words.len() == 0 {
        seq![]
    } else {
        seq![' '] + words[0] + spaced(words.skip(1))
    }
}

/// Words that are made of ordinary characters are read from a line as they stand there.
pub proof fn law_plain_words_are_read_as_they_stand(words: Seq<Seq<char>>)
    requires
        forall|i: int| 0 <= i < words.len() ==> plain_word(#[trigger] words[i]),
    ensures
        line_words(spaced(words)) == Ok::<Seq<Seq<char>>, char>(words),
    decreases words.len(),
{
    if words.len() == 0 {
        assert(line_words(spaced(words)) == Ok::<Seq<Seq<char>>, char>(seq![]));
        assert(words =~= seq![]);
    } else {
        let first = words[0];
        let tail = words.skip(1);
        assert(plain_word(first));
        assert forall|i: int| 0 <= i < tail.len() implies plain_word(#[trigger] tail[i]) by {
            assert(tail[i] == words[i + 1]);
        }
        law_plain_words_are_read_as_they_stand(tail);
        let rest = spaced(tail);
        assert(spaced(words) =~= seq![' '] + (first + rest));
        law_white_space_ends_a_word(' ', first + rest, seq![]);
        lemma_ordinary_text(first, rest, seq![]);
        assert(Seq::<char>::empty() + first =~= first);
        if tail.len() == 0 {
            assert(rest =~= seq![]);
            law_line_ends(first, '"');
            assert(words =~= seq![first]);
        } else {
            let behind = tail[0] + spaced(tail.skip(1));
            assert(rest =~= seq![' '] + behind);
            law_white_space_ends_a_word(' ', behind, first);
            law_white_space_ends_a_word(' ', behind, seq![]);
            assert(seq![first] + tail =~= words);
        }
    }
}

} // verus!
