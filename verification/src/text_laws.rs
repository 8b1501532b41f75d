//! What the text functions mean.
use vstd::prelude::*;

verus! {

/// The code of a character, with the capital letters A to Z taken for the small
/// ones.
pub open spec fn small(c: char) -> int {
    if 65 <= c as int <= 90 {
        c as int + 32
    } else {
        c as int
    }
}

/// Some part of `hay` is `needle`.
pub open spec fn has_part(hay: Seq<char>, needle: Seq<char>) -> bool {
    exists|from: int|
        0 <= from && from + needle.len() <= hay.len() && #[trigger] hay.subrange(
            from,
            from + needle.len(),
        ) == needle
}

/// The number that a text of decimal digits stands for.
pub open spec fn value(s: Seq<char>) -> int
    decreases s.len(),
{
    if s.len() == 0 {
        0
    } else {
        value(s.drop_last()) * 10 + (s.last() as int - 48)
    }
}

/// Texts are the same but for the case of ASCII letters if they are so place by
/// place.
pub proof fn law_ascii_case_is_ignored(a: Seq<char>, b: Seq<char>)
    ensures
        crate::text::same_ignoring_ascii_case(a, b) <==> a.len() == b.len() && forall|i: int|
            0 <= i < a.len() ==> small(#[trigger] a[i]) == small(b[i]),
{
    if a.len() == b.len() && forall|i: int|
        0 <= i < a.len() ==> small(#[trigger] a[i]) == small(b[i]) {
        assert forall|i: int| 0 <= i < a.len() implies crate::text::ascii_folded(#[trigger] a[i])
            == crate::text::ascii_folded(b[i]) by {
            assert(small(a[i]) == small(b[i]));
        }
    }
    if crate::text::same_ignoring_ascii_case(a, b) {
        assert forall|i: int| 0 <= i < a.len() implies small(#[trigger] a[i]) == small(b[i]) by {
            lemma_small(a[i]);
            lemma_small(b[i]);
            assert(crate::text::ascii_folded(a[i]) == crate::text::ascii_folded(b[i]));
        }
    }
}

proof fn lemma_small(c: char)
    ensures
        crate::text::ascii_folded(c) as int == small(c),
{
    assert(c as u32 as int == c as int);
}

/// A text is contained in another if it is some part of it.
pub proof fn law_contained_text_is_a_part(hay: Seq<char>, needle: Seq<char>)
    ensures
        crate::text::contains_text(hay, needle) <==> has_part(hay, needle),
{
    if crate::text::contains_text(hay, needle) {
        let at = choose|at: int| #[trigger] crate::text::stands_at(hay, needle, at);
        assert(hay.subrange(at, at + needle.len()) =~= needle);
    }
    if has_part(hay, needle) {
        let from = choose|from: int|
            0 <= from && from + needle.len() <= hay.len() && #[trigger] hay.subrange(
                from,
                from + needle.len(),
            ) == needle;
        assert forall|j: int| 0 <= j < needle.len() implies hay[from + j] == #[trigger] needle[j] by {
            assert(hay.subrange(from, from + needle.len())[j] == needle[j]);
        }
        assert(crate::text::stands_at(hay, needle, from));
    }
}

/// The decimal text of a number stands for that number, is made of digits, and
/// does not begin with a zero but for zero itself.
pub proof fn law_decimal_text_stands_for_the_number(n: nat)
    ensures
        value(crate::text::decimal(n)) == n,
        crate::text::decimal(n).len() > 0,
        forall|i: int|
            0 <= i < crate::text::decimal(n).len() ==> 48 <= (#[trigger] crate::text::decimal(
                n,
            )[i]) as int <= 57,
        n > 0 ==> crate::text::decimal(n)[0] as int != 48,
    decreases n,
{
    reveal_with_fuel(value, 2);
    if n >= 10 {
        law_decimal_text_stands_for_the_number(n / 10);
        let before = crate::text::decimal(n / 10);
        assert(crate::text::decimal(n).drop_last() =~= before);
        assert(crate::text::digit(n % 10) as int == 48 + n % 10);
    } else {
        assert(crate::text::decimal(n) =~= seq![crate::text::digit(n)]);
        assert(crate::text::digit(n) as int == 48 + n);
        assert(crate::text::decimal(n).drop_last() =~= Seq::empty());
    }
}

/// The number in a text is the one that its digits, in order, stand for.
pub proof fn law_number_in_a_text_is_that_of_its_digits(s: Seq<char>)
    ensures
        crate::text::number_in(s) == value(s.filter(|c: char| 48 <= c as int <= 57)),
    decreases s.len(),
{
    reveal(Seq::filter);
    let f = |c: char| 48 <= c as int <= 57;
    if s.len() > 0 {
        law_number_in_a_text_is_that_of_its_digits(s.drop_last());
        let before = s.drop_last().filter(f);
        if f(s.last()) {
            assert(s.filter(f) =~= before.push(s.last()));
            assert(s.filter(f).drop_last() =~= before);
        } else {
            assert(s.filter(f) =~= before);
        }
    }
}

proof fn lemma_zeros_in_front(n: nat, s: Seq<char>)
    ensures
        value(Seq::new(n, |i: int| '0') + s) == value(s),
    decreases s.len(), n,
{
    let zeros = Seq::new(n, |i: int| '0');
    if s.len() > 0 {
        lemma_zeros_in_front(n, s.drop_last());
        assert((zeros + s).drop_last() =~= zeros + s.drop_last());
    } else if n > 0 {
        assert(zeros + s =~= zeros);
        let fewer = Seq::new((n - 1) as nat, |i: int| '0');
        assert(zeros.drop_last() =~= fewer);
        lemma_zeros_in_front((n - 1) as nat, s);
        assert(fewer + s =~= fewer);
    } else {
        assert(zeros + s =~= s);
    }
}

/// An identifier is shown as the number of the digits in its debug text, in at
/// least eight places and in no more than are needed; as that text where it has
/// no digit or the number is too large.
pub proof fn law_identifiers_are_shown_as_numbers(debug: Seq<char>)
    ensures
        ({
            let f = |c: char| 48 <= c as int <= 57;
            let n = value(debug.filter(f));
            let text = crate::workspace_id::shown(debug);
            if debug.filter(f).len() > 0 && n <= u64::MAX {
                &&& value(text) == n
                &&& text.len() >= 8
                &&& text.len() > 8 ==> text[0] as int != 48
                &&& forall|i: int| 0 <= i < text.len() ==> 48 <= (#[trigger] text[i]) as int <= 57
            } else {
                text == debug
            }
        }),
{
    let f = |c: char| 48 <= c as int <= 57;
    law_number_in_a_text_is_that_of_its_digits(debug);
    let n = crate::text::number_in(debug);
    law_decimal_text_stands_for_the_number(n);
    let d = crate::text::decimal(n);
    if d.len() < 8 {
        lemma_zeros_in_front((8 - d.len()) as nat, d);
    }
    if exists|i: int| 0 <= i < debug.len() && #[trigger] crate::text::is_digit(debug[i]) {
        let i = choose|i: int| 0 <= i < debug.len() && #[trigger] crate::text::is_digit(debug[i]);
        debug.lemma_filter_contains(f, i);
        assert(debug.filter(f).contains(debug[i]));
    }
    if debug.filter(f).len() > 0 {
        let c = debug.filter(f)[0];
        debug.lemma_filter_pred(f, 0);
        debug.lemma_filter_contains_rev(f, c);
        let i = choose|i: int| 0 <= i < debug.len() && debug[i] == c;
        assert(crate::text::is_digit(debug[i]));
    }
}

} // verus!
