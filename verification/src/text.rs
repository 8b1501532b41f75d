//! Text: comparison, containment and decimal numbers.
use vstd::prelude::*;

verus! {

broadcast use vstd::string::group_string_axioms;

/// The lower-case form of a text, as Unicode defines it.
pub uninterp spec fn lowercase(s: Seq<char>) -> Seq<char>;

/// `str::to_lowercase`: the lower-case form, which depends on the text alone.
pub assume_specification[ str::to_lowercase ](s: &str) -> (r: String)
    ensures
        r@ == lowercase(s@),
;

/// A character's code with the capital letters of ASCII folded onto the small
/// ones.
pub open spec fn ascii_folded(c: char) -> u32 {
    if 'A' <= c <= 'Z' {
        (c as u32 + 32) as u32
    } else {
        c as u32
    }
}

/// The two texts differ at most in the case of ASCII letters.
pub open spec fn same_ignoring_ascii_case(a: Seq<char>, b: Seq<char>) -> bool {
    a.len() == b.len() && forall|i: int|
        0 <= i < a.len() ==> ascii_folded(#[trigger] a[i]) == ascii_folded(b[i])
}

/// `needle` stands in `hay` at offset `at`.
pub open spec fn stands_at(hay: Seq<char>, needle: Seq<char>, at: int) -> bool {
    0 <= at <= hay.len() - needle.len() && forall|j: int|
        0 <= j < needle.len() ==> hay[at + j] == #[trigger] needle[j]
}

/// `needle` stands somewhere in `hay`.
pub open spec fn contains_text(hay: Seq<char>, needle: Seq<char>) -> bool {
    exists|at: int| #[trigger] stands_at(hay, needle, at)
}

/// The decimal digits of `n`, without leading zeros.
pub open spec fn decimal(n: nat) -> Seq<char>
    decreases n,
{
    if n < 10 {
        seq![digit(n)]
    } else {
        decimal(n / 10).push(digit(n % 10))
    }
}

pub open spec fn digit(d: nat) -> char {
    ('0' as u32 + d) as char
}

/// `s` with zeros in front, so that it has at least `width` characters.
pub open spec fn zero_padded(s: Seq<char>, width: nat) -> Seq<char> {
    if s.len() >= width {
        s
    } else {
        Seq::new((width - s.len()) as nat, |i: int| '0') + s
    }
}

pub open spec fn is_digit(c: char) -> bool {
    '0' <= c <= '9'
}

/// The number that the decimal digits of `s` make up, the other characters
/// left out.
pub open spec fn number_in(s: Seq<char>) -> nat
    decreases s.len(),
{
    if s.len() == 0 {
        0
    } else if is_digit(s.last()) {
        (number_in(s.drop_last()) * 10 + (s.last() as u32 - '0' as u32)) as nat
    } else {
        number_in(s.drop_last())
    }
}

/// The characters of a text.
pub fn chars_of(s: &str) -> (r: Vec<char>)
    ensures
        r@ == s@,
{
    let mut r: Vec<char> = Vec::new();
    for c in it: s.chars()
        invariant
            r@ == it.seq().take(it.index()),
            it.seq().take(it.seq().len() as int) == s@,
    {
        r.push(c);
    }
    r
}

pub fn text_eq(a: &str, b: &str) -> (r: bool)
    ensures
        r == (a@ == b@),
{
    a.to_owned() == b.to_owned()
}

fn fold_ascii(c: char) -> (r: u32)
    ensures
        r == ascii_folded(c),
{
    if 'A' <= c && c <= 'Z' {
        c as u32 + 32
    } else {
        c as u32
    }
}

pub fn eq_ignore_ascii_case(a: &str, b: &str) -> (r: bool)
    ensures
        r == same_ignoring_ascii_case(a@, b@),
{
    let x = chars_of(a);
    let y = chars_of(b);
    if x.len() != y.len() {
        return false;
    }
    for i in 0..x.len()
        invariant
            x@ == a@,
            y@ == b@,
            x@.len() == y@.len(),
            forall|j: int| 0 <= j < i ==> ascii_folded(#[trigger] x@[j]) == ascii_folded(y@[j]),
    {
        if fold_ascii(x[i]) != fold_ascii(y[i]) {
            return false;
        }
    }
    true
}

fn is_at(hay: &Vec<char>, needle: &Vec<char>, at: usize) -> (r: bool)
    requires
        at + needle.len() <= hay.len(),
    ensures
        r == stands_at(hay@, needle@, at as int),
{
    for j in 0..needle.len()
        invariant
            at + needle.len() <= hay.len(),
            forall|k: int| 0 <= k < j ==> hay@[at + k] == #[trigger] needle@[k],
    {
        if hay[at + j] != needle[j] {
            assert(needle@[j as int] != hay@[at + j]);
            return false;
        }
    }
    true
}

pub fn text_contains(hay: &str, needle: &str) -> (r: bool)
    ensures
        r == contains_text(hay@, needle@),
{
    let h = chars_of(hay);
    let n = chars_of(needle);
    if n.len() > h.len() {
        return false;
    }
    let last: usize = h.len() - n.len();
    for at in 0..last
        invariant
            h@ == hay@,
            n@ == needle@,
            last == h.len() - n.len(),
            forall|k: int| 0 <= k < at ==> !#[trigger] stands_at(hay@, needle@, k),
    {
        if is_at(&h, &n, at) {
            return true;
        }
    }
    is_at(&h, &n, last)
}

/// The digit `d` as a text.
fn digit_text(d: u64) -> (r: &'static str)
    requires
        d < 10,
    ensures
        r@ == seq![digit(d as nat)],
{
    proof {
        reveal_strlit("0");
        reveal_strlit("1");
        reveal_strlit("2");
        reveal_strlit("3");
        reveal_strlit("4");
        reveal_strlit("5");
        reveal_strlit("6");
        reveal_strlit("7");
        reveal_strlit("8");
        reveal_strlit("9");
    }
    let r = match d {
        0 => "0",
        1 => "1",
        2 => "2",
        3 => "3",
        4 => "4",
        5 => "5",
        6 => "6",
        7 => "7",
        8 => "8",
        _ => "9",
    };
    assert(r@ =~= seq![digit(d as nat)]);
    r
}

/// `n` in decimal.
pub fn decimal_text(n: u64) -> (r: String)
    ensures
        r@ == decimal(n as nat),
    decreases n,
{
    if n < 10 {
        digit_text(n).to_owned()
    } else {
        let mut r = decimal_text(n / 10);
        r.append(digit_text(n % 10));
        r
    }
}

/// `n` in decimal, with zeros in front up to eight characters.
pub fn decimal_text_of_width_8(n: u64) -> (r: String)
    ensures
        r@ == zero_padded(decimal(n as nat), 8),
{
    let digits = decimal_text(n);
    let len: usize = digits.as_str().unicode_len();
    let mut r = String::new();
    let mut zeros: usize = 0;
    while len < 8 && zeros < 8 - len
        invariant
            len < 8 ==> zeros <= 8 - len,
            len >= 8 ==> zeros == 0,
            r@ == Seq::new(zeros as nat, |i: int| '0'),
        decreases 8 - zeros,
    {
        r.append(digit_text(0));
        zeros = zeros + 1;
    }
    r.append(digits.as_str());
    assert(r@ =~= zero_padded(decimal(n as nat), 8));
    r
}

/// The number that the digits of `s` make up; `None` where `s` has no digit or
/// the number does not fit.
pub fn number_of_digits(s: &str) -> (r: Option<u64>)
    ensures
        match r {
            Some(n) => n == number_in(s@) && exists|i: int| 0 <= i < s@.len() && is_digit(s@[i]),
            None => number_in(s@) > u64::MAX || forall|i: int| 0 <= i < s@.len() ==> !is_digit(s@[i]),
        },
{
    let text = chars_of(s);
    let mut n: u64 = 0;
    let mut found = false;
    for i in 0..text.len()
        invariant
            text@ == s@,
            n == number_in(text@.take(i as int)),
            found == exists|j: int| 0 <= j < i && is_digit(text@[j]),
    {
        let c = text[i];
        proof {
            assert(text@.take(i + 1).drop_last() =~= text@.take(i as int));
            lemma_number_grows(text@, i + 1, text@.len() as int);
            assert(text@.take(text@.len() as int) =~= text@);
        }
        if '0' <= c && c <= '9' {
            let d: u64 = c as u64 - '0' as u64;
            found = true;
            assert(is_digit(text@[i as int]));
            match n.checked_mul(10) {
                None => return None,
                Some(m) => match m.checked_add(d) {
                    None => return None,
                    Some(k) => {
                        n = k;
                    },
                },
            }
        }
    }
    assert(text@.take(text@.len() as int) =~= text@);
    if found {
        Some(n)
    } else {
        None
    }
}

proof fn lemma_number_grows(s: Seq<char>, i: int, j: int)
    requires
        0 <= i <= j <= s.len(),
    ensures
        number_in(s.take(i)) <= number_in(s.take(j)),
    decreases j - i,
{
    if i < j {
        lemma_number_grows(s, i, j - 1);
        assert(s.take(j).drop_last() =~= s.take(j - 1));
    }
}

} // verus!
