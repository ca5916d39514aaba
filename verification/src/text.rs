//! Character classes and decimal numerals.
//!
//! Digits are those of ASCII. Letters and word characters are those of
//! ASCII and, beyond it, what the regex crate takes for a letter and for a
//! word character.

use regex::Regex;
use vstd::prelude::*;
use vstd::string::*;

verus! {

/// Whether `regex::Regex::new` accepts the pattern and
/// `regex::Regex::is_match` finds it in the text that is the one character.
pub uninterp spec fn regex_matches_char(pattern: Seq<char>, c: char) -> bool;

/// Calls `regex::Regex::new` and `regex::Regex::is_match` on the text that
/// is the one character. The contract only names the result.
#[verifier::external_body]
fn matches_char(pattern: &str, c: char) -> (r: bool)
    ensures
        r == regex_matches_char(pattern@, c),
{
    Regex::new(pattern).map(|re| re.is_match(c.encode_utf8(&mut [0u8; 4]))).unwrap_or(false)
}

/// An ASCII decimal digit.
pub open spec fn is_digit(c: char) -> bool {
    '0' <= c && c <= '9'
}

/// A letter: one of ASCII, or beyond ASCII a character of the regex crate's
/// class of letters.
pub open spec fn is_letter(c: char) -> bool {
    if c <= '\u{7f}' {
        ('a' <= c && c <= 'z') || ('A' <= c && c <= 'Z')
    } else {
        regex_matches_char("\\p{L}"@, c)
    }
}

/// A word character: a letter of ASCII, a decimal digit or the underscore,
/// or beyond ASCII a character of the regex crate's class of word
/// characters.
pub open spec fn is_word(c: char) -> bool {
    if c <= '\u{7f}' {
        is_digit(c) || ('a' <= c && c <= 'z') || ('A' <= c && c <= 'Z') || c == '_'
    } else {
        regex_matches_char("\\w"@, c)
    }
}

pub open spec fn all_digits(s: Seq<char>) -> bool {
    forall|i: int| 0 <= i < s.len() ==> is_digit(#[trigger] s[i])
}

pub open spec fn all_word(s: Seq<char>) -> bool {
    forall|i: int| 0 <= i < s.len() ==> is_word(#[trigger] s[i])
}

/// The value of a decimal digit.
pub open spec fn digit_value(c: char) -> nat {
    (c as int - '0' as int) as nat
}

/// The digit that stands for a value below ten.
pub open spec fn digit_char(d: nat) -> char {
    (d + '0' as int) as char
}

/// The number that a run of decimal digits denotes, most significant digit
/// first. The empty run denotes zero.
pub open spec fn decimal_value(s: Seq<char>) -> nat
    decreases s.len(),
{
    if s.len() == 0 {
        0
    } else {
        10 * decimal_value(s.drop_last()) + digit_value(s.last())
    }
}

/// The shortest decimal numeral of a number.
pub open spec fn decimal_digits(n: nat) -> Seq<char>
    decreases n,
{
    if n < 10 {
        seq![digit_char(n)]
    } else {
        decimal_digits(n / 10).push(digit_char(n % 10))
    }
}

/// A numeral as `decimal_digits` writes it: at least one digit, and no
/// leading zero but in "0" itself.
pub open spec fn is_canonical(s: Seq<char>) -> bool {
    &&& s.len() > 0
    &&& all_digits(s)
    &&& (s.len() > 1 ==> s[0] != '0')
}

/// A numeral's value does not shrink when digits are appended to it.
pub proof fn lemma_value_grows(s: Seq<char>, k: int)
    requires
        0 <= k <= s.len(),
    ensures
        decimal_value(s.take(k)) <= decimal_value(s),
    decreases s.len(),
{
    if k == s.len() {
        assert(s.take(k) =~= s);
    } else {
        assert(s.drop_last().take(k) =~= s.take(k));
        lemma_value_grows(s.drop_last(), k);
    }
}

/// Reading back what `decimal_digits` wrote gives the number again.
pub proof fn lemma_digits_value(n: nat)
    ensures
        is_canonical(decimal_digits(n)),
        decimal_value(decimal_digits(n)) == n,
    decreases n,
{
    let s = decimal_digits(n);
    if n < 10 {
        assert(s.drop_last() =~= Seq::<char>::empty());
        assert(decimal_value(s.drop_last()) == 0);
    } else {
        lemma_digits_value(n / 10);
        let t = decimal_digits(n / 10);
        assert(s.drop_last() =~= t);
        assert(s[0] == t[0]);
        if t.len() == 1 {
            assert(decimal_value(t.drop_last()) == 0) by {
                assert(t.drop_last() =~= Seq::<char>::empty());
            }
        }
    }
}

/// A canonical numeral is the one that `decimal_digits` writes for its value.
pub proof fn lemma_value_digits(s: Seq<char>)
    requires
        is_canonical(s),
    ensures
        decimal_digits(decimal_value(s)) == s,
    decreases s.len(),
{
    let t = s.drop_last();
    if s.len() == 1 {
        assert(t =~= Seq::<char>::empty());
        assert(decimal_value(t) == 0);
        assert(decimal_digits(decimal_value(s)) =~= s);
    } else {
        assert(t[0] == s[0]);
        lemma_value_digits(t);
        lemma_leading_digit(t);
        assert(decimal_digits(decimal_value(s)) =~= s);
    }
}

/// A canonical numeral of a positive first digit has a positive value.
proof fn lemma_leading_digit(s: Seq<char>)
    requires
        s.len() > 0,
        all_digits(s),
        s[0] != '0',
    ensures
        decimal_value(s) >= 1,
    decreases s.len(),
{
    if s.len() > 1 {
        assert(s.drop_last()[0] == s[0]);
        lemma_leading_digit(s.drop_last());
    } else {
        assert(s.last() == s[0]);
    }
}

/// Whether a character is a decimal digit.
pub(crate) fn is_digit_char(c: char) -> (r: bool)
    ensures
        r == is_digit(c),
{
    '0' <= c && c <= '9'
}

/// Whether a character is a letter.
pub(crate) fn is_letter_char(c: char) -> (r: bool)
    ensures
        r == is_letter(c),
{
    if c <= '\u{7f}' {
        ('a' <= c && c <= 'z') || ('A' <= c && c <= 'Z')
    } else {
        matches_char("\\p{L}", c)
    }
}

/// Whether a character is a word character.
pub(crate) fn is_word_char(c: char) -> (r: bool)
    ensures
        r == is_word(c),
{
    if c <= '\u{7f}' {
        is_digit_char(c) || ('a' <= c && c <= 'z') || ('A' <= c && c <= 'Z') || c == '_'
    } else {
        matches_char("\\w", c)
    }
}

/// The value of a character that is a decimal digit.
fn digit_of(c: char) -> (d: usize)
    requires
        is_digit(c),
    ensures
        d == digit_value(c),
        d < 10,
{
    if c == '0' {
        0
    } else if c == '1' {
        1
    } else if c == '2' {
        2
    } else if c == '3' {
        3
    } else if c == '4' {
        4
    } else if c == '5' {
        5
    } else if c == '6' {
        6
    } else if c == '7' {
        7
    } else if c == '8' {
        8
    } else {
        9
    }
}

/// Reads the decimal numeral that lies between two positions of a string,
/// or reports that its value is beyond `usize`.
pub(crate) fn parse_decimal(s: &str, from: usize, to: usize) -> (r: Option<usize>)
    requires
        from <= to <= s@.len(),
        all_digits(s@.subrange(from as int, to as int)),
    ensures
        match r {
            Some(v) => v == decimal_value(s@.subrange(from as int, to as int)),
            None => decimal_value(s@.subrange(from as int, to as int)) > usize::MAX,
        },
{
    let ghost run = s@.subrange(from as int, to as int);
    let mut value: usize = 0;
    let mut i: usize = from;
    while i < to
        invariant
            from <= i <= to <= s@.len(),
            run == s@.subrange(from as int, to as int),
            all_digits(run),
            value == decimal_value(run.take(i - from)),
        decreases to - i,
    {
        let c = s.get_char(i);
        let ghost next = run.take(i - from + 1);
        proof {
            assert(next.drop_last() =~= run.take(i - from));
            assert(next.last() == run[i - from]);
            assert(is_digit(run[i - from]));
            assert(run[i - from] == s@[i as int]);
            lemma_value_grows(run, i - from + 1);
        }
        let digit: usize = digit_of(c);
        let shifted = match value.checked_mul(10) {
            Some(v) => v,
            None => {
                return None;
            },
        };
        value = match shifted.checked_add(digit) {
            Some(v) => v,
            None => {
                return None;
            },
        };
        i = i + 1;
    }
    assert(run.take(to - from) =~= run);
    Some(value)
}

/// The text of one decimal digit.
fn digit_text(d: usize) -> (r: &'static str)
    requires
        d < 10,
    ensures
        r@ == seq![digit_char(d as nat)],
{
    let digits: &'static str = "0123456789";
    proof {
        reveal_strlit("0123456789");
    }
    let r = digits.substring_ascii(d, d + 1);
    assert(r@ =~= seq![digit_char(d as nat)]);
    r
}

/// Writes a number as its shortest decimal numeral.
pub fn decimal_string(n: usize) -> (r: String)
    ensures
        r@ == decimal_digits(n as nat),
    decreases n,
{
    if n < 10 {
        String::from_str(digit_text(n))
    } else {
        let head = decimal_string(n / 10);
        let r = head.concat(digit_text(n % 10));
        assert(r@ =~= decimal_digits(n as nat));
        r
    }
}

} // verus!
