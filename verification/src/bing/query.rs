//! The query that the archive is asked with, and the records that it
//! answers with.

use crate::text::{decimal_digits, decimal_string};
use vstd::prelude::*;
use vstd::string::*;

verus! {

/// What the archive is asked: the format of the answer, the index of the
/// first image (0 is today's), the number of images, and what of the rest
/// is set. What is not set is not sent.
pub struct Query {
    pub format: &'static str,
    pub index: usize,
    pub number: usize,
    pub market: Option<String>,
    pub uhd: Option<bool>,
    pub uhd_width: Option<usize>,
    pub uhd_height: Option<usize>,
    pub en_search: Option<bool>,
    pub set_market: Option<String>,
    pub set_lang: Option<String>,
}

pub struct QueryView {
    pub format: Seq<char>,
    pub index: nat,
    pub number: nat,
    pub market: Option<Seq<char>>,
    pub uhd: Option<bool>,
    pub uhd_width: Option<nat>,
    pub uhd_height: Option<nat>,
    pub en_search: Option<bool>,
    pub set_market: Option<Seq<char>>,
    pub set_lang: Option<Seq<char>>,
}

pub open spec fn text_view(s: Option<String>) -> Option<Seq<char>> {
    match s {
        Some(s) => Some(s@),
        None => None,
    }
}

pub open spec fn number_view(n: Option<usize>) -> Option<nat> {
    match n {
        Some(n) => Some(n as nat),
        None => None,
    }
}

impl View for Query {
    type V = QueryView;

    open spec fn view(&self) -> QueryView {
        QueryView {
            format: self.format@,
            index: self.index as nat,
            number: self.number as nat,
            market: text_view(self.market),
            uhd: self.uhd,
            uhd_width: number_view(self.uhd_width),
            uhd_height: number_view(self.uhd_height),
            en_search: self.en_search,
            set_market: text_view(self.set_market),
            set_lang: text_view(self.set_lang),
        }
    }
}

/// The query for the eight newest images, in ultra-high definition of
/// 3840 by 2160, answered in English as JSON.
pub open spec fn default_query() -> QueryView {
    QueryView {
        format: "js"@,
        index: 0,
        number: 8,
        market: None,
        uhd: Some(true),
        uhd_width: Some(3840nat),
        uhd_height: Some(2160nat),
        en_search: Some(true),
        set_market: Some("en-US"@),
        set_lang: Some("en-US"@),
    }
}

impl Default for Query {
    fn default() -> (r: Self)
        ensures
            r@ == default_query(),
    {
        Query {
            format: "js",
            index: 0,
            number: 8,
            market: None,
            uhd: Some(true),
            uhd_width: Some(3840),
            uhd_height: Some(2160),
            en_search: Some(true),
            set_market: Some(String::from_str("en-US")),
            set_lang: Some(String::from_str("en-US")),
        }
    }
}

/// The number that a flag is sent as: 1 where it is set and true, else 0.
pub open spec fn flag_number(b: Option<bool>) -> int {
    if b == Some(true) {
        1
    } else {
        0
    }
}

/// The number that a flag is sent as. The archive knows no truth values.
pub fn bool_to_int(b: &Option<bool>) -> (r: i32)
    ensures
        r == flag_number(*b),
{
    if b.unwrap_or(false) {
        1
    } else {
        0
    }
}

/// The flag that a number stands for: true for 1, false for every other.
pub open spec fn number_flag(i: Option<i32>) -> Option<bool> {
    match i {
        Some(n) => Some(n == 1),
        None => None,
    }
}

/// The flag that a number was sent for.
pub fn int_to_bool(i: Option<i32>) -> (r: Option<bool>)
    ensures
        r == number_flag(i),
{
    match i {
        Some(n) => Some(n == 1),
        None => None,
    }
}

/// A flag that is sent as a number is read back as it was.
pub proof fn lemma_flag_round_trip(b: bool)
    ensures
        number_flag(Some(flag_number(Some(b)) as i32)) == Some(b),
{
}

/// The pairs with one more, where there is a value to send.
pub open spec fn with_optional(
    pairs: Seq<(Seq<char>, Seq<char>)>,
    key: Seq<char>,
    value: Option<Seq<char>>,
) -> Seq<(Seq<char>, Seq<char>)> {
    match value {
        Some(v) => pairs.push((key, v)),
        None => pairs,
    }
}

pub open spec fn flag_text(b: Option<bool>) -> Option<Seq<char>> {
    match b {
        Some(v) => Some(decimal_digits(flag_number(b) as nat)),
        None => None,
    }
}

pub open spec fn number_text(n: Option<nat>) -> Option<Seq<char>> {
    match n {
        Some(n) => Some(decimal_digits(n)),
        None => None,
    }
}

/// The parameters that a query is sent as, in their order: `format`, `idx`
/// and `n` always, and of `mkt`, `uhd`, `uhdwidth`, `uhdheight`, `ensearch`,
/// `setmkt` and `setlang` those that are set. Numbers are written in
/// decimal, flags as 0 or 1.
pub open spec fn query_pairs(q: QueryView) -> Seq<(Seq<char>, Seq<char>)> {
    let p = seq![
        ("format"@, q.format),
        ("idx"@, decimal_digits(q.index)),
        ("n"@, decimal_digits(q.number)),
    ];
    let p = with_optional(p, "mkt"@, q.market);
    let p = with_optional(p, "uhd"@, flag_text(q.uhd));
    let p = with_optional(p, "uhdwidth"@, number_text(q.uhd_width));
    let p = with_optional(p, "uhdheight"@, number_text(q.uhd_height));
    let p = with_optional(p, "ensearch"@, flag_text(q.en_search));
    let p = with_optional(p, "setmkt"@, q.set_market);
    with_optional(p, "setlang"@, q.set_lang)
}

fn push_pair(pairs: &mut Vec<(String, String)>, key: &str, value: String)
    ensures
        final(pairs).deep_view() == old(pairs).deep_view().push((key@, value@)),
{
    let ghost before = pairs.deep_view();
    let ghost pair = (key@, value@);
    pairs.push((String::from_str(key), value));
    assert(pairs.deep_view() =~= before.push(pair));
}

fn push_text(pairs: &mut Vec<(String, String)>, key: &str, value: &Option<String>)
    ensures
        final(pairs).deep_view() == with_optional(old(pairs).deep_view(), key@, text_view(*value)),
{
    match value {
        Some(v) => push_pair(pairs, key, v.clone()),
        None => {},
    }
}

fn push_flag(pairs: &mut Vec<(String, String)>, key: &str, value: &Option<bool>)
    ensures
        final(pairs).deep_view() == with_optional(old(pairs).deep_view(), key@, flag_text(*value)),
{
    if value.is_some() {
        let n: i32 = bool_to_int(value);
        push_pair(pairs, key, decimal_string(n as usize));
    }
}

fn push_number(pairs: &mut Vec<(String, String)>, key: &str, value: &Option<usize>)
    ensures
        final(pairs).deep_view() == with_optional(
            old(pairs).deep_view(),
            key@,
            number_text(number_view(*value)),
        ),
{
    match value {
        Some(n) => push_pair(pairs, key, decimal_string(*n)),
        None => {},
    }
}

impl Query {
    /// The default query, but for the format, the index and the number.
    pub fn new(format: &'static str, index: usize, number: usize) -> (r: Self)
        ensures
            r@ == (QueryView {
                format: format@,
                index: index as nat,
                number: number as nat,
                ..default_query()
            }),
    {
        Query { format, index, number, ..Query::default() }
    }

    /// The parameters that the query is sent as.
    pub fn params(&self) -> (r: Vec<(String, String)>)
        ensures
            r.deep_view() == query_pairs(self@),
    {
        let mut r: Vec<(String, String)> = Vec::new();
        assert(r.deep_view() =~= Seq::empty());
        push_pair(&mut r, "format", String::from_str(self.format));
        push_pair(&mut r, "idx", decimal_string(self.index));
        push_pair(&mut r, "n", decimal_string(self.number));
        assert(r.deep_view() =~= seq![
            ("format"@, self@.format),
            ("idx"@, decimal_digits(self@.index)),
            ("n"@, decimal_digits(self@.number)),
        ]);
        push_text(&mut r, "mkt", &self.market);
        push_flag(&mut r, "uhd", &self.uhd);
        push_number(&mut r, "uhdwidth", &self.uhd_width);
        push_number(&mut r, "uhdheight", &self.uhd_height);
        push_flag(&mut r, "ensearch", &self.en_search);
        push_text(&mut r, "setmkt", &self.set_market);
        push_text(&mut r, "setlang", &self.set_lang);
        r
    }
}

/// What of a record of the archive's answer the library reads: the day the
/// image was first shown, as `YYYYMMDD`; the image's address, relative to
/// the archive's root; and its caption, which ends in the copyright in
/// round brackets.
pub struct ImageInfo {
    pub start_date: String,
    pub url: String,
    pub copyright: String,
}

pub struct InfoView {
    pub start_date: Seq<char>,
    pub url: Seq<char>,
    pub copyright: Seq<char>,
}

impl View for ImageInfo {
    type V = InfoView;

    open spec fn view(&self) -> InfoView {
        InfoView { start_date: self.start_date@, url: self.url@, copyright: self.copyright@ }
    }
}

/// The status of an answer says that the request succeeded.
pub fn is_success(status: u16) -> (r: bool)
    ensures
        r == (200 <= status < 300),
{
    200 <= status && status < 300
}

} // verus!
