//! How numbers are spelled, what is left of trimmed text, and what is behind a prefix.

use vstd::prelude::*;

use crate::number::{all_digits, decimal, is_digit, signed_decimal, spelled, spelled_i32, value};
use crate::text::{begins, behind, trim_back, trim_front, trimmed, white_space};

verus! {

/// A number is written with its digits in order: the last digit behind those of the rest of the
/// number, and a negative number behind a minus sign.
pub proof fn law_numbers_are_written_in_digits(n: nat, d: int)
    requires
        0 <= d < 10,
    ensures
        decimal(d as nat) == seq!["0123456789"@[d]],
        n > 0 ==> decimal((10 * n + d) as nat) == decimal(n).push("0123456789"@[d]),
        signed_decimal(n as int) == decimal(n),
        n > 0 ==> signed_decimal(-(n as int)) == seq!['-'] + decimal(n),
{
    reveal_strlit("0123456789");
    assert("0123456789"@[d] == (48 + d) as char);
    if n > 0 {
        let m = (10 * n + d) as nat;
        assert(m / 10 == n && m % 10 == d) by (nonlinear_arith)
            requires
                m == 10 * n + d,
                0 <= d < 10,
        ;
    }
}

/// Zeros in front of digits make no difference to the number that they stand for.
pub proof fn law_zeros_in_front_do_not_count(digits: Seq<char>)
    requires
        all_digits(digits),
    ensures
        value(seq!['0'] + digits) == value(digits),
    decreases digits.len(),
{
    let longer = seq!['0'] + digits;
    if digits.len() == 0 {
        assert(longer.drop_last() =~= seq![]);
        assert(value(longer.drop_last()) == 0);
        assert(longer.last() == '0');
    } else {
        let front = digits.drop_last();
        assert forall|i: int| 0 <= i < front.len() implies is_digit(#[trigger] front[i]) by {
            assert(front[i] == digits[i]);
        }
        law_zeros_in_front_do_not_count(front);
        assert(longer.drop_last() =~= seq!['0'] + front);
        assert(longer.last() == digits.last());
        assert(is_digit(digits[digits.len() - 1]));
    }
}

/// Digits spell the number that they stand for, with a plus sign in front of them or without,
/// and with a minus sign the negative of it.
pub proof fn law_digits_spell_a_number(digits: Seq<char>)
    requires
        digits.len() > 0,
        forall|i: int| 0 <= i < digits.len() ==> '0' <= #[trigger] digits[i] <= '9',
    ensures
        spelled(digits) == Some(value(digits) as int),
        spelled(seq!['+'] + digits) == Some(value(digits) as int),
        spelled(seq!['-'] + digits) == Some(-(value(digits) as int)),
{
    assert('0' <= digits[0] <= '9');
    assert((seq!['+'] + digits).skip(1) =~= digits);
    assert((seq!['-'] + digits).skip(1) =~= digits);
}

/// Nothing else spells a number: no empty text, no sign alone, and no text with anything in it
/// but digits, a sign in front of them aside.
pub proof fn law_other_text_spells_no_number(text: Seq<char>, i: int)
    ensures
        text.len() == 0 ==> spelled(text) is None,
        text == seq!['+'] || text == seq!['-'] ==> spelled(text) is None,
        0 <= i < text.len() && !('0' <= text[i] <= '9') && (i > 0 || (text[0] != '+' && text[0]
            != '-')) ==> spelled(text) is None,
{
    if 0 < i < text.len() {
        assert(text.skip(1)[i - 1] == text[i]);
    }
}

/// A number of 32 bits is spelled where the number that is spelled fits.
pub proof fn law_spelled_number_has_to_fit(text: Seq<char>, n: int)
    ensures
        spelled_i32(text) == Some(n) <==> spelled(text) == Some(n) && -2147483648 <= n
            <= 2147483647,
{
}

/// Whether a text is nothing but white space.
pub open spec fn blank(text: Seq<char>) -> bool {
    forall|i: int| 0 <= i < text.len() ==> white_space(#[trigger] text[i])
}

/// White space in front is trimmed off.
pub(crate) proof fn lemma_trimmed_in_front(a: Seq<char>, s: Seq<char>)
    requires
        blank(a),
    ensures
        trim_front(a + s) == trim_front(s),
    decreases a.len(),
{
    if a.len() == 0 {
        assert(a + s =~= s);
    } else {
        let tail = a.skip(1);
        assert(white_space(a[0]));
        assert forall|i: int| 0 <= i < tail.len() implies white_space(#[trigger] tail[i]) by {
            assert(tail[i] == a[i + 1]);
        }
        assert((a + s).skip(1) =~= tail + s);
        lemma_trimmed_in_front(tail, s);
    }
}

/// White space behind is trimmed off.
pub(crate) proof fn lemma_trimmed_behind(s: Seq<char>, b: Seq<char>)
    requires
        blank(b),
    ensures
        trim_back(s + b) == trim_back(s),
    decreases b.len(),
{
    if b.len() == 0 {
        assert(s + b =~= s);
    } else {
        let front = b.drop_last();
        assert(white_space(b[b.len() - 1]));
        assert forall|i: int| 0 <= i < front.len() implies white_space(#[trigger] front[i]) by {
            assert(front[i] == b[i]);
        }
        assert((s + b).drop_last() =~= s + front);
        lemma_trimmed_behind(s, front);
    }
}

/// Trimming takes off the white space around a text, all of it, and nothing else: what is left
/// is what stands between, whatever that holds inside.
pub proof fn law_trimming_takes_off_white_space(a: Seq<char>, s: Seq<char>, b: Seq<char>)
    requires
        blank(a),
        blank(b),
        s.len() > 0 ==> !white_space(s[0]) && !white_space(s.last()),
    ensures
        trimmed(a + s + b) == s,
{
    assert(a + s + b =~= a + (s + b));
    lemma_trimmed_in_front(a, s + b);
    if s.len() > 0 {
        assert((s + b)[0] == s[0]);
        lemma_trimmed_behind(s, b);
    } else {
        assert(s + b =~= b);
        assert(b + Seq::<char>::empty() =~= b);
        lemma_trimmed_in_front(b, seq![]);
        assert(trim_front(seq![]) =~= seq![]);
        assert(trim_back(seq![]) =~= s);
    }
}

/// What is behind a prefix is what was put there, and there is nothing behind a text that a
/// text does not start with.
pub proof fn law_rest_is_behind_the_prefix(
    prefix: Seq<char>,
    rest: Seq<char>,
    text: Seq<char>,
    c: char,
)
    ensures
        behind(prefix + rest, prefix) == Some(rest),
        behind(text, prefix) is Some ==> text == prefix + behind(text, prefix)->0,
        begins(text, c) <==> seq![c].is_prefix_of(text),
{
    assert(prefix =~= (prefix + rest).subrange(0, prefix.len() as int));
    assert((prefix + rest).skip(prefix.len() as int) =~= rest);
    if begins(text, c) {
        assert(seq![c] =~= text.subrange(0, 1));
    }
    if seq![c].is_prefix_of(text) {
        assert(seq![c][0] == text.subrange(0, 1)[0]);
    }
    if behind(text, prefix) is Some {
        assert(text =~= prefix + text.skip(prefix.len() as int));
    }
}

} // verus!
