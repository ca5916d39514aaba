//! The grammar of identity tokens.
//!
//! A token reads
//!
//! ```text
//! "OHR." name "_" market number "_" ( width "x" height | "UHD" ) "." extension
//! ```
//!
//! where `name` and `extension` are runs of word characters, `market` is
//! `ROW` or two letters, a hyphen and two letters, and `number`, `width` and
//! `height` are runs of decimal digits of ASCII. The whole string has to
//! match. Read from its end, a string can be cut into such pieces in one
//! way at most.

use crate::text::{all_digits, all_word, is_digit, is_letter, is_word};
use vstd::prelude::*;

verus! {

/// The opening of every token.
pub open spec fn token_prefix() -> Seq<char> {
    seq!['O', 'H', 'R', '.']
}

/// What stands for the resolution of an ultra-high-definition image.
pub open spec fn uhd_mark() -> Seq<char> {
    seq!['U', 'H', 'D']
}

/// A market is the rest of the world, or a locale such as `EN-US`.
pub open spec fn is_market(m: Seq<char>) -> bool {
    ||| m =~= seq!['R', 'O', 'W']
    ||| (m.len() == 5 && is_letter(m[0]) && is_letter(m[1]) && m[2] == '-' && is_letter(m[3])
        && is_letter(m[4]))
}

/// The pieces of a token, as text.
pub struct Parts {
    pub name: Seq<char>,
    pub market: Seq<char>,
    pub number: Seq<char>,
    /// Width and height, or nothing for an ultra-high-definition image.
    pub size: Option<(Seq<char>, Seq<char>)>,
    pub extension: Seq<char>,
}

impl Parts {
    /// Each piece is of the class that the grammar gives it.
    pub open spec fn well_formed(self) -> bool {
        &&& self.name.len() > 0
        &&& all_word(self.name)
        &&& is_market(self.market)
        &&& self.number.len() > 0
        &&& all_digits(self.number)
        &&& match self.size {
            Some((w, h)) => w.len() > 0 && all_digits(w) && h.len() > 0 && all_digits(h),
            None => true,
        }
        &&& self.extension.len() > 0
        &&& all_word(self.extension)
    }

    pub open spec fn resolution(self) -> Seq<char> {
        match self.size {
            Some((w, h)) => w + seq!['x'] + h,
            None => uhd_mark(),
        }
    }

    /// The token that the pieces make.
    pub open spec fn token(self) -> Seq<char> {
        token_prefix() + self.name + seq!['_'] + self.market + self.number + seq!['_']
            + self.resolution() + seq!['.'] + self.extension
    }
}

/// The token is one that the grammar accepts.
pub open spec fn matches_grammar(t: Seq<char>) -> bool {
    exists|p: Parts| p.well_formed() && #[trigger] p.token() == t
}

/// The pieces of a token that the grammar accepts. They are the only ones
/// that make it: see `lemma_parts_unique`.
pub open spec fn parts_of(t: Seq<char>) -> Parts {
    choose|p: Parts| p.well_formed() && #[trigger] p.token() == t
}

/// Where a token is cut into its pieces: the name ends at the first
/// separator, the number lies between `number_start` and the second
/// separator, `cross` is the `x` of a resolution, and the extension follows
/// `dot`.
pub struct Cut {
    pub name_end: int,
    pub number_start: int,
    pub number_end: int,
    pub cross: Option<int>,
    pub dot: int,
}

pub open spec fn digits_in(t: Seq<char>, from: int, to: int) -> bool {
    forall|i: int| from <= i < to ==> is_digit(#[trigger] t[i])
}

pub open spec fn word_in(t: Seq<char>, from: int, to: int) -> bool {
    forall|i: int| from <= i < to ==> is_word(#[trigger] t[i])
}

impl Cut {
    pub open spec fn parts(self, t: Seq<char>) -> Parts {
        Parts {
            name: t.subrange(4, self.name_end),
            market: t.subrange(self.name_end + 1, self.number_start),
            number: t.subrange(self.number_start, self.number_end),
            size: match self.cross {
                Some(x) => Some((t.subrange(self.number_end + 1, x), t.subrange(x + 1, self.dot))),
                None => None,
            },
            extension: t.subrange(self.dot + 1, t.len() as int),
        }
    }

    /// The cut lies within the token, on its separators, and every piece is
    /// of its class.
    pub open spec fn cuts(self, t: Seq<char>) -> bool {
        let a = self.name_end;
        let b = self.number_start;
        let c = self.number_end;
        let d = self.dot;
        &&& 4 < a
        &&& b < c
        &&& d + 1 < t.len()
        &&& t[0] == 'O' && t[1] == 'H' && t[2] == 'R' && t[3] == '.'
        &&& word_in(t, 4, a)
        &&& t[a] == '_'
        &&& {
            ||| (b == a + 4 && t[a + 1] == 'R' && t[a + 2] == 'O' && t[a + 3] == 'W')
            ||| (b == a + 6 && is_letter(t[a + 1]) && is_letter(t[a + 2]) && t[a + 3] == '-'
                && is_letter(t[a + 4]) && is_letter(t[a + 5]))
        }
        &&& digits_in(t, b, c)
        &&& t[c] == '_'
        &&& match self.cross {
            Some(x) => c + 1 < x && x + 1 < d && digits_in(t, c + 1, x) && t[x] == 'x'
                && digits_in(t, x + 1, d),
            None => d == c + 4 && t[c + 1] == 'U' && t[c + 2] == 'H' && t[c + 3] == 'D',
        }
        &&& t[d] == '.'
        &&& word_in(t, d + 1, t.len() as int)
    }
}

/// The cut of the token that the pieces make.
pub open spec fn cut_of(p: Parts) -> Cut {
    let a: int = 4 + p.name.len() as int;
    let b: int = a + 1 + p.market.len() as int;
    let c: int = b + p.number.len() as int;
    Cut {
        name_end: a,
        number_start: b,
        number_end: c,
        cross: match p.size {
            Some((w, h)) => Some(c + 1 + w.len() as int),
            None => None,
        },
        dot: c + 1 + p.resolution().len() as int,
    }
}

/// Well-formed pieces make a token that is cut where the pieces meet, and
/// cutting it there gives the pieces back.
pub proof fn lemma_token_cut(p: Parts)
    requires
        p.well_formed(),
    ensures
        cut_of(p).cuts(p.token()),
        cut_of(p).parts(p.token()) == p,
{
    let t = p.token();
    let x = cut_of(p);
    let a = x.name_end;
    let b = x.number_start;
    let c = x.number_end;
    let d = x.dot;
    assert(t.len() == d + 1 + p.extension.len());
    assert(t.subrange(4, a) =~= p.name);
    assert(t.subrange(a + 1, b) =~= p.market);
    assert(t.subrange(b, c) =~= p.number);
    assert(t.subrange(c + 1, d) =~= p.resolution());
    assert(t.subrange(d + 1, t.len() as int) =~= p.extension);
    assert forall|i: int| 4 <= i < a implies is_word(#[trigger] t[i]) by {
        assert(t[i] == p.name[i - 4]);
    }
    assert forall|i: int| b <= i < c implies is_digit(#[trigger] t[i]) by {
        assert(t[i] == p.number[i - b]);
    }
    assert forall|i: int| d + 1 <= i < t.len() implies is_word(#[trigger] t[i]) by {
        assert(t[i] == p.extension[i - d - 1]);
    }
    assert(t[a + 1] == p.market[0]);
    assert(t[a + 2] == p.market[1]);
    assert(t[a + 3] == p.market[2]);
    if p.market.len() == 5 {
        assert(t[a + 4] == p.market[3]);
        assert(t[a + 5] == p.market[4]);
    }
    match p.size {
        Some((w, h)) => {
            let m = c + 1 + w.len();
            assert(t.subrange(c + 1, m) =~= w);
            assert(t.subrange(m + 1, d) =~= h);
            assert forall|i: int| c + 1 <= i < m implies is_digit(#[trigger] t[i]) by {
                assert(t[i] == w[i - c - 1]);
            }
            assert forall|i: int| m + 1 <= i < d implies is_digit(#[trigger] t[i]) by {
                assert(t[i] == h[i - m - 1]);
            }
        },
        None => {},
    }
}

/// A token that is cut is the token of the pieces that the cut gives, and
/// these are well formed.
pub proof fn lemma_cut_token(t: Seq<char>, x: Cut)
    requires
        x.cuts(t),
    ensures
        x.parts(t).well_formed(),
        x.parts(t).token() == t,
{
    let p = x.parts(t);
    assert(token_prefix() =~= t.subrange(0, 4));
    assert(seq!['_'] =~= t.subrange(x.name_end, x.name_end + 1));
    assert(seq!['_'] =~= t.subrange(x.number_end, x.number_end + 1));
    assert(seq!['.'] =~= t.subrange(x.dot, x.dot + 1));
    match x.cross {
        Some(m) => {
            assert(seq!['x'] =~= t.subrange(m, m + 1));
            assert(p.resolution() =~= t.subrange(x.number_end + 1, x.dot));
        },
        None => {
            assert(p.resolution() =~= t.subrange(x.number_end + 1, x.dot));
        },
    }
    assert(p.token() =~= t);
}


/// Where the run of digits that ends before `end` begins.
pub open spec fn digits_start(t: Seq<char>, end: int) -> int
    decreases end,
{
    if 0 < end <= t.len() && is_digit(t[end - 1]) {
        digits_start(t, end - 1)
    } else {
        end
    }
}

/// Where the run of word characters that ends before `end` begins.
pub open spec fn word_start(t: Seq<char>, end: int) -> int
    decreases end,
{
    if 0 < end <= t.len() && is_word(t[end - 1]) {
        word_start(t, end - 1)
    } else {
        end
    }
}

pub proof fn lemma_digits_start(t: Seq<char>, end: int)
    requires
        0 <= end <= t.len(),
    ensures
        0 <= digits_start(t, end) <= end,
        digits_in(t, digits_start(t, end), end),
        digits_start(t, end) > 0 ==> !is_digit(t[digits_start(t, end) - 1]),
    decreases end,
{
    if 0 < end && is_digit(t[end - 1]) {
        lemma_digits_start(t, end - 1);
    }
}

pub proof fn lemma_word_start(t: Seq<char>, end: int)
    requires
        0 <= end <= t.len(),
    ensures
        0 <= word_start(t, end) <= end,
        word_in(t, word_start(t, end), end),
        word_start(t, end) > 0 ==> !is_word(t[word_start(t, end) - 1]),
    decreases end,
{
    if 0 < end && is_word(t[end - 1]) {
        lemma_word_start(t, end - 1);
    }
}

proof fn lemma_digits_start_is(t: Seq<char>, end: int, i: int)
    requires
        0 <= i <= end <= t.len(),
        digits_in(t, i, end),
        i > 0 ==> !is_digit(t[i - 1]),
    ensures
        digits_start(t, end) == i,
    decreases end - i,
{
    if i < end {
        assert(is_digit(t[end - 1]));
        lemma_digits_start_is(t, end - 1, i);
    }
}

proof fn lemma_word_start_is(t: Seq<char>, end: int, i: int)
    requires
        0 <= i <= end <= t.len(),
        word_in(t, i, end),
        i > 0 ==> !is_word(t[i - 1]),
    ensures
        word_start(t, end) == i,
    decreases end - i,
{
    if i < end {
        assert(is_word(t[end - 1]));
        lemma_word_start_is(t, end - 1, i);
    }
}

/// Reads a resolution backwards from the dot: where the separator before
/// it stands, and where its `x`.
pub open spec fn scan_resolution(t: Seq<char>, d: int) -> Option<(int, Option<int>)> {
    if d >= 4 && t[d - 1] == 'D' && t[d - 2] == 'H' && t[d - 3] == 'U' && t[d - 4] == '_' {
        Some((d - 4, None))
    } else {
        let h = digits_start(t, d);
        if 1 <= h < d && t[h - 1] == 'x' {
            let w = digits_start(t, h - 1);
            if 1 <= w < h - 1 && t[w - 1] == '_' {
                Some((w - 1, Some(h - 1)))
            } else {
                None
            }
        } else {
            None
        }
    }
}

/// Reads market and number backwards from the second separator: where the
/// first separator stands, and where the number begins. The number is the
/// whole run of digits before the separator, since a market ends in a
/// letter.
pub open spec fn scan_market(t: Seq<char>, c: int) -> Option<(int, int)> {
    let k = digits_start(t, c);
    if k >= c {
        None
    } else if k >= 4 && t[k - 1] == 'W' && t[k - 2] == 'O' && t[k - 3] == 'R' && t[k - 4] == '_' {
        Some((k - 4, k))
    } else if k >= 6 && is_letter(t[k - 1]) && is_letter(t[k - 2]) && t[k - 3] == '-' && is_letter(
        t[k - 4],
    ) && is_letter(t[k - 5]) && t[k - 6] == '_' {
        Some((k - 6, k))
    } else {
        None
    }
}

/// Reads a token backwards from its end. The result is the cut of the
/// token, if it has one: see `lemma_scan_sound` and `lemma_scan_complete`.
pub open spec fn scan(t: Seq<char>) -> Option<Cut> {
    let n = t.len() as int;
    let e = word_start(t, n);
    if !(n >= 4 && t[0] == 'O' && t[1] == 'H' && t[2] == 'R' && t[3] == '.') {
        None
    } else if !(1 <= e < n && t[e - 1] == '.') {
        None
    } else {
        match scan_resolution(t, e - 1) {
            None => None,
            Some((c, cross)) => match scan_market(t, c) {
                None => None,
                Some((a, b)) => if 4 < a && word_start(t, a) <= 4 {
                    Some(Cut { name_end: a, number_start: b, number_end: c, cross, dot: e - 1 })
                } else {
                    None
                },
            },
        }
    }
}

/// What `scan` finds is a cut of the token.
pub proof fn lemma_scan_sound(t: Seq<char>)
    requires
        scan(t) is Some,
    ensures
        scan(t)->0.cuts(t),
{
    let n = t.len() as int;
    let x = scan(t)->0;
    let d = x.dot;
    let c = x.number_end;
    lemma_word_start(t, n);
    lemma_digits_start(t, d);
    if x.cross is Some {
        lemma_digits_start(t, x.cross->0);
    }
    lemma_digits_start(t, c);
    lemma_word_start(t, x.name_end);
    assert(1 <= c < d);
}

/// A token has no other cut than the one that `scan` finds.
pub proof fn lemma_scan_complete(t: Seq<char>, x: Cut)
    requires
        x.cuts(t),
    ensures
        scan(t) == Some(x),
{
    let n = t.len() as int;
    let a = x.name_end;
    let b = x.number_start;
    let c = x.number_end;
    let d = x.dot;
    assert(!is_word('.'));
    assert(!is_digit('_') && !is_digit('x') && !is_digit('W') && !is_digit('-'));
    lemma_word_start_is(t, n, d + 1);
    match x.cross {
        Some(m) => {
            assert(is_digit(t[d - 1]));
            lemma_digits_start_is(t, d, m + 1);
            lemma_digits_start_is(t, m, c + 1);
        },
        None => {},
    }
    assert(scan_resolution(t, d) == Some((c, x.cross)));
    assert(!is_digit(t[b - 1]));
    lemma_digits_start_is(t, c, b);
    assert(scan_market(t, c) == Some((a, b)));
    lemma_word_start_is(t, a, 4);
}

/// Two sets of well-formed pieces that make the same token are the same.
pub proof fn lemma_parts_unique(p: Parts, q: Parts)
    requires
        p.well_formed(),
        q.well_formed(),
        p.token() == q.token(),
    ensures
        p == q,
{
    lemma_token_cut(p);
    lemma_token_cut(q);
    lemma_scan_complete(p.token(), cut_of(p));
    lemma_scan_complete(q.token(), cut_of(q));
}

/// The token of well-formed pieces is one that the grammar accepts, and
/// its pieces are those.
pub proof fn lemma_parts_of_token(p: Parts)
    requires
        p.well_formed(),
    ensures
        matches_grammar(p.token()),
        parts_of(p.token()) == p,
{
    lemma_parts_unique(p, parts_of(p.token()));
}

/// A token is one that the grammar accepts just when `scan` cuts it, and
/// the cut gives its pieces.
pub proof fn lemma_scan_grammar(t: Seq<char>)
    ensures
        matches_grammar(t) <==> scan(t) is Some,
        scan(t) is Some ==> parts_of(t) == scan(t)->0.parts(t),
{
    if scan(t) is Some {
        let x = scan(t)->0;
        lemma_scan_sound(t);
        lemma_cut_token(t, x);
        lemma_parts_of_token(x.parts(t));
    }
    if matches_grammar(t) {
        let p = parts_of(t);
        lemma_token_cut(p);
        lemma_scan_complete(t, cut_of(p));
    }
}

} // verus!
