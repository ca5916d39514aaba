//! What an identity token says, and how it is read and written.

use crate::bing::grammar::{
    digits_in, digits_start, matches_grammar, parts_of, scan, scan_market,
    scan_resolution, word_start, Cut, Parts,
};
use crate::bing::grammar::{
    is_market, lemma_digits_start, lemma_parts_of_token, lemma_scan_grammar, lemma_scan_sound,
};
use crate::text::{all_digits, all_word, decimal_digits, decimal_value, is_canonical, is_digit, is_word};
use crate::text::{decimal_string, is_digit_char, is_letter_char, is_word_char, parse_decimal};
use crate::text::{lemma_digits_value, lemma_value_digits};
use std::convert::Infallible;
use vstd::prelude::*;
use vstd::string::*;

verus! {

proof fn lemma_digits_range(t: Seq<char>, from: int, to: int)
    requires
        0 <= from <= to <= t.len(),
        digits_in(t, from, to),
    ensures
        all_digits(t.subrange(from, to)),
{
    assert forall|i: int| 0 <= i < to - from implies is_digit(#[trigger] t.subrange(from, to)[i]) by {
        assert(is_digit(t[from + i]));
    }
}

fn digits_begin(s: &str, end: usize) -> (i: usize)
    requires
        end <= s@.len(),
    ensures
        i == digits_start(s@, end as int),
{
    let mut i: usize = end;
    let mut going: bool = true;
    while going && i > 0
        invariant
            i <= end <= s@.len(),
            digits_start(s@, end as int) == digits_start(s@, i as int),
            !going ==> i > 0 && !is_digit(s@[i - 1]),
        decreases i + if going { 1nat } else { 0nat },
    {
        if is_digit_char(s.get_char(i - 1)) {
            i = i - 1;
        } else {
            going = false;
        }
    }
    i
}

fn word_begin(s: &str, end: usize) -> (i: usize)
    requires
        end <= s@.len(),
    ensures
        i == word_start(s@, end as int),
{
    let mut i: usize = end;
    let mut going: bool = true;
    while going && i > 0
        invariant
            i <= end <= s@.len(),
            word_start(s@, end as int) == word_start(s@, i as int),
            !going ==> i > 0 && !is_word(s@[i - 1]),
        decreases i + if going { 1nat } else { 0nat },
    {
        if is_word_char(s.get_char(i - 1)) {
            i = i - 1;
        } else {
            going = false;
        }
    }
    i
}

/// The positions of a cut, as the parser holds them.
struct Marks {
    name_end: usize,
    number_start: usize,
    number_end: usize,
    cross: Option<usize>,
    dot: usize,
}

impl Marks {
    spec fn cut(self) -> Cut {
        Cut {
            name_end: self.name_end as int,
            number_start: self.number_start as int,
            number_end: self.number_end as int,
            cross: match self.cross {
                Some(x) => Some(x as int),
                None => None,
            },
            dot: self.dot as int,
        }
    }
}

fn find_resolution(s: &str, d: usize) -> (r: Option<(usize, Option<usize>)>)
    requires
        d < s@.len(),
    ensures
        match r {
            Some((c, Some(x))) => scan_resolution(s@, d as int) == Some((c as int, Some(x as int))),
            Some((c, None)) => scan_resolution(s@, d as int) == Some((c as int, None::<int>)),
            None => scan_resolution(s@, d as int) is None,
        },
{
    if d >= 4 && s.get_char(d - 1) == 'D' && s.get_char(d - 2) == 'H' && s.get_char(d - 3) == 'U'
        && s.get_char(d - 4) == '_' {
        return Some((d - 4, None));
    }
    let h = digits_begin(s, d);
    if !(1 <= h && h < d && s.get_char(h - 1) == 'x') {
        return None;
    }
    let w = digits_begin(s, h - 1);
    if !(1 <= w && w < h - 1 && s.get_char(w - 1) == '_') {
        return None;
    }
    Some((w - 1, Some(h - 1)))
}

fn find_market(s: &str, c: usize) -> (r: Option<(usize, usize)>)
    requires
        c < s@.len(),
    ensures
        match r {
            Some((a, b)) => scan_market(s@, c as int) == Some((a as int, b as int)),
            None => scan_market(s@, c as int) is None,
        },
{
    let k = digits_begin(s, c);
    if k >= c {
        return None;
    }
    if k >= 4 && s.get_char(k - 1) == 'W' && s.get_char(k - 2) == 'O' && s.get_char(k - 3) == 'R'
        && s.get_char(k - 4) == '_' {
        return Some((k - 4, k));
    }
    if k >= 6 && is_letter_char(s.get_char(k - 1)) && is_letter_char(s.get_char(k - 2))
        && s.get_char(k - 3) == '-' && is_letter_char(s.get_char(k - 4)) && is_letter_char(
        s.get_char(k - 5),
    ) && s.get_char(k - 6) == '_' {
        Some((k - 6, k))
    } else {
        None
    }
}

fn find_cut(s: &str) -> (r: Option<Marks>)
    ensures
        match r {
            Some(m) => scan(s@) == Some(m.cut()),
            None => scan(s@) is None,
        },
{
    let n = s.unicode_len();
    if !(n >= 4 && s.get_char(0) == 'O' && s.get_char(1) == 'H' && s.get_char(2) == 'R'
        && s.get_char(3) == '.') {
        return None;
    }
    let e = word_begin(s, n);
    if !(1 <= e && e < n && s.get_char(e - 1) == '.') {
        return None;
    }
    let (c, cross) = match find_resolution(s, e - 1) {
        Some(found) => found,
        None => {
            return None;
        },
    };
    proof {
        lemma_digits_start(s@, e - 1);
        if cross is Some {
            lemma_digits_start(s@, cross->0 as int);
        }
    }
    let (a, b) = match find_market(s, c) {
        Some(found) => found,
        None => {
            return None;
        },
    };
    if !(4 < a) {
        return None;
    }
    proof {
        lemma_digits_start(s@, c as int);
    }
    if word_begin(s, a) > 4 {
        return None;
    }
    Some(Marks { name_end: a, number_start: b, number_end: c, cross, dot: e - 1 })
}

/// What an identity token says, as mathematics sees it.
pub struct DetailView {
    pub name: Seq<char>,
    pub market: Seq<char>,
    pub number: nat,
    pub uhd: bool,
    pub width: nat,
    pub height: nat,
    pub extension: Seq<char>,
}

/// What an unreadable token says: nothing.
pub open spec fn zero_detail() -> DetailView {
    DetailView {
        name: Seq::empty(),
        market: Seq::empty(),
        number: 0,
        uhd: false,
        width: 0,
        height: 0,
        extension: Seq::empty(),
    }
}

/// What the pieces of a token say. An ultra-high-definition image has no
/// width and height.
pub open spec fn detail_of(p: Parts) -> DetailView {
    DetailView {
        name: p.name,
        market: p.market,
        number: decimal_value(p.number),
        uhd: p.size is None,
        width: match p.size {
            Some((w, h)) => decimal_value(w),
            None => 0,
        },
        height: match p.size {
            Some((w, h)) => decimal_value(h),
            None => 0,
        },
        extension: p.extension,
    }
}

/// Every number among the pieces can be held in a `usize`.
pub open spec fn in_range(p: Parts) -> bool {
    &&& decimal_value(p.number) <= usize::MAX
    &&& match p.size {
        Some((w, h)) => decimal_value(w) <= usize::MAX && decimal_value(h) <= usize::MAX,
        None => true,
    }
}

/// Every number among the pieces is written in the shortest way.
pub open spec fn is_plain(p: Parts) -> bool {
    &&& is_canonical(p.number)
    &&& match p.size {
        Some((w, h)) => is_canonical(w) && is_canonical(h),
        None => true,
    }
}

impl DetailView {
    /// The fields are such as a token can say.
    pub open spec fn valid(self) -> bool {
        &&& self.name.len() > 0
        &&& all_word(self.name)
        &&& is_market(self.market)
        &&& self.extension.len() > 0
        &&& all_word(self.extension)
        &&& (self.uhd ==> self.width == 0 && self.height == 0)
    }

    /// The pieces of the token that says this, each number written in the
    /// shortest way.
    pub open spec fn parts(self) -> Parts {
        Parts {
            name: self.name,
            market: self.market,
            number: decimal_digits(self.number),
            size: if self.uhd {
                None
            } else {
                Some((decimal_digits(self.width), decimal_digits(self.height)))
            },
            extension: self.extension,
        }
    }

    /// The token that says this.
    pub open spec fn token(self) -> Seq<char> {
        self.parts().token()
    }
}

/// What reading a string as a token gives: what the token says, or nothing
/// where the string is no token or one of its numbers is beyond `usize`.
pub open spec fn read_token(t: Seq<char>) -> DetailView {
    if matches_grammar(t) && in_range(parts_of(t)) {
        detail_of(parts_of(t))
    } else {
        zero_detail()
    }
}

/// Writing down what was read of a token gives the token again, if the
/// token writes each of its numbers in the shortest way and none of them
/// is beyond `usize`.
pub proof fn lemma_token_of_detail(t: Seq<char>)
    requires
        matches_grammar(t),
        in_range(parts_of(t)),
        is_plain(parts_of(t)),
    ensures
        read_token(t).token() == t,
{
    let p = parts_of(t);
    lemma_value_digits(p.number);
    match p.size {
        Some((w, h)) => {
            lemma_value_digits(w);
            lemma_value_digits(h);
        },
        None => {},
    }
    assert(detail_of(p).parts() == p);
}

/// Reading the token that says a thing gives the thing again, if none of
/// its numbers is beyond `usize`.
pub proof fn lemma_detail_of_token(v: DetailView)
    requires
        v.valid(),
        v.number <= usize::MAX,
        v.width <= usize::MAX,
        v.height <= usize::MAX,
    ensures
        matches_grammar(v.token()),
        is_plain(parts_of(v.token())),
        read_token(v.token()) == v,
{
    let p = v.parts();
    lemma_digits_value(v.number);
    lemma_digits_value(v.width);
    lemma_digits_value(v.height);
    lemma_parts_of_token(p);
}

/// A string that is no token reads as nothing.
pub proof fn lemma_no_token_reads_empty(t: Seq<char>)
    requires
        !matches_grammar(t),
    ensures
        read_token(t) == zero_detail(),
{
}

/// What an identity token says. The token that cannot be read says
/// nothing: every field is empty or zero.
#[derive(Debug, PartialEq)]
pub struct ImageDetail {
    pub name: String,
    pub market: String,
    pub number: usize,
    pub uhd: bool,
    pub width: usize,
    pub height: usize,
    pub extension: String,
}

impl View for ImageDetail {
    type V = DetailView;

    open spec fn view(&self) -> DetailView {
        DetailView {
            name: self.name@,
            market: self.market@,
            number: self.number as nat,
            uhd: self.uhd,
            width: self.width as nat,
            height: self.height as nat,
            extension: self.extension@,
        }
    }
}

impl Default for ImageDetail {
    fn default() -> (r: Self)
        ensures
            r@ == zero_detail(),
    {
        ImageDetail {
            name: String::new(),
            market: String::new(),
            number: 0,
            uhd: false,
            width: 0,
            height: 0,
            extension: String::new(),
        }
    }
}

impl ImageDetail {
    /// Reads an identity token. Reading never fails: a string that is no
    /// token gives the empty detail, and so does a token with a number
    /// beyond `usize`; every other token gives what it says. What a token of
    /// plain numbers says can be written down again as that token.
    pub fn from_str(id: &str) -> (r: Result<ImageDetail, Infallible>)
        ensures
            match r {
                Ok(d) => d@ == read_token(id@),
                Err(e) => false,
            },
            matches_grammar(id@) && in_range(parts_of(id@)) && is_plain(parts_of(id@)) ==> match r {
                Ok(d) => d@.token() == id@,
                Err(e) => false,
            },
    {
        proof {
            lemma_scan_grammar(id@);
        }
        let m = match find_cut(id) {
            Some(m) => m,
            None => {
                return Ok(ImageDetail::default());
            },
        };
        let n = id.unicode_len();
        proof {
            lemma_scan_sound(id@);
            lemma_digits_range(id@, m.number_start as int, m.number_end as int);
            if m.cross is Some {
                lemma_digits_range(id@, m.number_end + 1, m.cross->0 as int);
                lemma_digits_range(id@, m.cross->0 + 1, m.dot as int);
            }
            if in_range(parts_of(id@)) && is_plain(parts_of(id@)) {
                lemma_token_of_detail(id@);
            }
        }
        let number = match parse_decimal(id, m.number_start, m.number_end) {
            Some(v) => v,
            None => {
                return Ok(ImageDetail::default());
            },
        };
        let mut width: usize = 0;
        let mut height: usize = 0;
        let mut uhd: bool = true;
        if let Some(x) = m.cross {
            uhd = false;
            width = match parse_decimal(id, m.number_end + 1, x) {
                Some(v) => v,
                None => {
                    return Ok(ImageDetail::default());
                },
            };
            height = match parse_decimal(id, x + 1, m.dot) {
                Some(v) => v,
                None => {
                    return Ok(ImageDetail::default());
                },
            };
        }
        Ok(
            ImageDetail {
                name: String::from_str(id.substring_char(4, m.name_end)),
                market: String::from_str(id.substring_char(m.name_end + 1, m.number_start)),
                number,
                uhd,
                width,
                height,
                extension: String::from_str(id.substring_char(m.dot + 1, n)),
            },
        )
    }

    /// Reads an identity token, as `from_str` does.
    pub fn try_from(id: &str) -> (r: Result<ImageDetail, Infallible>)
        ensures
            match r {
                Ok(d) => d@ == read_token(id@),
                Err(e) => false,
            },
    {
        ImageDetail::from_str(id)
    }

    /// Writes the token that says this, each number in the shortest way.
    pub fn token(&self) -> (r: String)
        ensures
            r@ == self@.token(),
    {
        proof {
            reveal_strlit("OHR.");
            reveal_strlit("_");
            reveal_strlit("x");
            reveal_strlit("UHD");
            reveal_strlit(".");
        }
        let mut r = String::from_str("OHR.");
        r.append(self.name.as_str());
        r.append("_");
        r.append(self.market.as_str());
        r.append(decimal_string(self.number).as_str());
        r.append("_");
        let ghost before = r@;
        if self.uhd {
            r.append("UHD");
            assert(r@ =~= before + self@.parts().resolution());
        } else {
            r.append(decimal_string(self.width).as_str());
            r.append("x");
            r.append(decimal_string(self.height).as_str());
            assert(r@ =~= before + self@.parts().resolution());
        }
        r.append(".");
        r.append(self.extension.as_str());
        assert(r@ =~= self@.token());
        r
    }
}

impl std::str::FromStr for ImageDetail {
    type Err = Infallible;

    /// Reads an identity token, as the function of the same name on the
    /// type does: so `parse` on a string gives what that function gives.
    fn from_str(id: &str) -> (r: Result<Self, Self::Err>)
        ensures
            match r {
                Ok(d) => d@ == read_token(id@),
                Err(e) => false,
            },
            matches_grammar(id@) && in_range(parts_of(id@)) && is_plain(parts_of(id@)) ==> match r {
                Ok(d) => d@.token() == id@,
                Err(e) => false,
            },
    {
        ImageDetail::from_str(id)
    }
}

/// What a detail says but for whether the image is of ultra-high
/// definition.
pub open spec fn without_flag(d: DetailView) -> DetailView {
    DetailView { uhd: false, ..d }
}

/// What an identity token says, without the mark of ultra-high definition:
/// such a token has width and height zero. The token that cannot be read
/// says nothing: every field is empty or zero.
pub struct ParsedID {
    pub name: String,
    pub market: String,
    pub number: usize,
    pub width: usize,
    pub height: usize,
    pub extension: String,
}

impl View for ParsedID {
    type V = DetailView;

    open spec fn view(&self) -> DetailView {
        DetailView {
            name: self.name@,
            market: self.market@,
            number: self.number as nat,
            uhd: false,
            width: self.width as nat,
            height: self.height as nat,
            extension: self.extension@,
        }
    }
}

impl Default for ParsedID {
    fn default() -> (r: Self)
        ensures
            r@ == zero_detail(),
    {
        ParsedID {
            name: String::new(),
            market: String::new(),
            number: 0,
            width: 0,
            height: 0,
            extension: String::new(),
        }
    }
}

impl ParsedID {
    /// Reads an identity token.
    pub fn from(id: &str) -> (r: ParsedID)
        ensures
            r@ == without_flag(read_token(id@)),
    {
        match ImageDetail::from_str(id) {
            Ok(d) => ParsedID {
                name: d.name,
                market: d.market,
                number: d.number,
                width: d.width,
                height: d.height,
                extension: d.extension,
            },
            Err(_) => ParsedID::default(),
        }
    }
}

} // verus!
