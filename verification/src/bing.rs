//! The remote image-of-the-day archive: its query, its records and the
//! identity token that each record carries.

pub mod detail;
pub mod grammar;
pub mod query;

pub use crate::bing::detail::{ImageDetail, ParsedID};
pub use crate::bing::query::{ImageInfo, Query};

use crate::bing::detail::{read_token, DetailView};
use crate::bing::query::InfoView;
use regex::Regex;
use std::convert::Infallible;
use url::Url;
use vstd::prelude::*;
use vstd::string::*;

verus! {

/// The error of `url::Url::parse` and `url::Url::join`, carried through
/// unread.
#[verifier::external_type_specification]
#[verifier::external_body]
pub struct ExUrlParseError(url::ParseError);

/// The error of `regex::Regex::new`, carried through unread.
#[verifier::external_type_specification]
#[verifier::external_body]
pub struct ExRegexError(regex::Error);

/// The address that `url::Url::join` gives for a reference against a base,
/// as text; nothing where the base is no absolute address or the reference
/// cannot be resolved against it.
pub uninterp spec fn url_join(base: Seq<char>, reference: Seq<char>) -> Option<Seq<char>>;

/// The pairs of key and value that `url::Url::query_pairs` reads from the
/// query of an address; nothing where the text is no absolute address.
pub uninterp spec fn url_query_pairs(url: Seq<char>) -> Option<Seq<(Seq<char>, Seq<char>)>>;

/// Whether `regex::Regex::new` accepts the pattern.
pub uninterp spec fn regex_compiles(pattern: Seq<char>) -> bool;

/// What `regex::Regex::captures` finds of a pattern in a text: nothing
/// where the pattern does not occur, else the text of each group, the
/// whole match first.
pub uninterp spec fn regex_captures(pattern: Seq<char>, haystack: Seq<char>) -> Option<
    Seq<Option<Seq<char>>>,
>;

/// Calls `url::Url::parse` on the base and `url::Url::join` on what it
/// gives. The contract only names the result: the address, or the error of
/// whichever of the two failed.
#[verifier::external_body]
fn join_url(base: &str, reference: &str) -> (r: Result<String, url::ParseError>)
    ensures
        match r {
            Ok(u) => url_join(base@, reference@) == Some(u@),
            Err(_) => url_join(base@, reference@) is None,
        },
{
    Url::parse(base)?.join(reference).map(String::from)
}

/// Calls `url::Url::parse` and `url::Url::query_pairs`. The contract only
/// names the result: the decoded pairs in their order.
#[verifier::external_body]
fn query_pairs(url: &str) -> (r: Option<Vec<(String, String)>>)
    ensures
        r.deep_view() == url_query_pairs(url@),
{
    let url = Url::parse(url).ok()?;
    Some(url.query_pairs().map(|(k, v)| (k.into_owned(), v.into_owned())).collect())
}

/// Calls `regex::Regex::new` and `regex::Regex::captures`. The contract
/// only names the results: the error comes just when the pattern is not
/// accepted, and else the groups are those that `captures` finds.
#[verifier::external_body]
fn captures(pattern: &str, haystack: &str) -> (r: Result<Option<Vec<Option<String>>>, regex::Error>)
    ensures
        match r {
            Ok(groups) => regex_compiles(pattern@) && groups.deep_view() == regex_captures(
                pattern@,
                haystack@,
            ),
            Err(_) => !regex_compiles(pattern@),
        },
{
    let re = Regex::new(pattern)?;
    Ok(re.captures(haystack).map(|c| c.iter().map(|m| m.map(|m| m.as_str().to_string())).collect()))
}

/// The root against which the archive's addresses are resolved.
pub open spec fn archive_root() -> Seq<char> {
    "https://www.bing.com/"@
}

/// The pattern of a caption: a title, then the copyright in round
/// brackets.
pub open spec fn caption_pattern() -> Seq<char> {
    "(?x)\n(?P<title>.*?)\n\\s*\\(\n(?P<copyright>.*?)\n\\)\n"@
}

/// An image of the archive: its absolute address, the day it was first
/// shown, its title and its copyright.
pub struct Image {
    pub url: String,
    pub date: String,
    pub title: String,
    pub copyright: String,
}

pub struct ImageView {
    pub url: Seq<char>,
    pub date: Seq<char>,
    pub title: Seq<char>,
    pub copyright: Seq<char>,
}

impl View for Image {
    type V = ImageView;

    open spec fn view(&self) -> ImageView {
        ImageView { url: self.url@, date: self.date@, title: self.title@, copyright: self.copyright@ }
    }
}

/// Why a record is no image: its address cannot be resolved against the
/// archive's root.
#[derive(Debug, PartialEq, Eq, Clone, Copy)]
pub enum ImageError {
    Url,
}

/// Title and copyright of a caption, given the groups that the pattern of
/// captions caught in it: the first and the second group after the whole
/// match. A caption in which the pattern caught nothing is all title.
pub open spec fn caption_of(caption: Seq<char>, groups: Option<Seq<Option<Seq<char>>>>) -> (
    Seq<char>,
    Seq<char>,
) {
    match groups {
        Some(g) => if g.len() >= 3 && g[1] is Some && g[2] is Some {
            (g[1]->0, g[2]->0)
        } else {
            (caption, Seq::empty())
        },
        None => (caption, Seq::empty()),
    }
}

/// The image that a record makes with the groups caught in its caption and
/// with its resolved address: every record whose address resolves makes
/// one.
pub open spec fn image_from(
    info: InfoView,
    groups: Option<Seq<Option<Seq<char>>>>,
    url: Option<Seq<char>>,
) -> Result<ImageView, ImageError> {
    match url {
        None => Err(ImageError::Url),
        Some(u) => Ok(
            ImageView {
                url: u,
                date: info.start_date,
                title: caption_of(info.copyright, groups).0,
                copyright: caption_of(info.copyright, groups).1,
            },
        ),
    }
}

/// What the pattern of captions catches in a caption; nothing where the
/// pattern is not accepted.
pub open spec fn caught_in(caption: Seq<char>) -> Option<Seq<Option<Seq<char>>>> {
    if regex_compiles(caption_pattern()) {
        regex_captures(caption_pattern(), caption)
    } else {
        None
    }
}

/// The image that a record makes.
pub open spec fn image_of(info: InfoView) -> Result<ImageView, ImageError> {
    image_from(info, caught_in(info.copyright), url_join(archive_root(), info.url))
}

/// The value of the first pair at or after a position whose key is the
/// one asked for.
pub open spec fn first_value_from(
    pairs: Seq<(Seq<char>, Seq<char>)>,
    key: Seq<char>,
    from: int,
) -> Option<Seq<char>>
    decreases pairs.len() - from,
{
    if from < 0 || from >= pairs.len() {
        None
    } else if pairs[from].0 == key {
        Some(pairs[from].1)
    } else {
        first_value_from(pairs, key, from + 1)
    }
}

/// The identity token among the pairs of an address: the value of the
/// first whose key is `id`.
pub open spec fn id_among(pairs: Option<Seq<(Seq<char>, Seq<char>)>>) -> Option<Seq<char>> {
    match pairs {
        Some(p) => first_value_from(p, "id"@, 0),
        None => None,
    }
}

/// The token to read where an address may hold none: the empty string
/// stands for none.
pub open spec fn token_or_empty(id: Option<Seq<char>>) -> Seq<char> {
    match id {
        Some(t) => t,
        None => Seq::empty(),
    }
}

/// The name of the file that an image of a day is kept in, given what its
/// identity token says: the day, an underscore, the name, a dot and the
/// extension. An image whose token says nothing has no such name.
pub open spec fn file_name_of(date: Seq<char>, detail: DetailView) -> Option<Seq<char>> {
    if detail.name.len() == 0 {
        None
    } else {
        Some(date + seq!['_'] + detail.name + seq!['.'] + detail.extension)
    }
}

/// The value of the first pair whose key is `id`.
pub fn find_id(pairs: &Vec<(String, String)>) -> (r: Option<String>)
    ensures
        r.deep_view() == first_value_from(pairs.deep_view(), "id"@, 0),
{
    let key = String::from_str("id");
    let mut i: usize = 0;
    while i < pairs.len()
        invariant
            i <= pairs.len(),
            key@ == "id"@,
            first_value_from(pairs.deep_view(), "id"@, 0) == first_value_from(
                pairs.deep_view(),
                "id"@,
                i as int,
            ),
        decreases pairs.len() - i,
    {
        assert(pairs.deep_view()[i as int] == (pairs@[i as int].0@, pairs@[i as int].1@));
        if pairs[i].0 == key {
            return Some(pairs[i].1.clone());
        }
        i = i + 1;
    }
    None
}

impl Image {
    /// Makes an image of a record, of the groups that the pattern of
    /// captions caught in its caption, and of its resolved address.
    pub fn assemble(info: ImageInfo, groups: Option<Vec<Option<String>>>, url: Option<String>) -> (r:
        Result<Image, ImageError>)
        ensures
            match r {
                Ok(i) => image_from(info@, groups.deep_view(), url.deep_view()) == Ok::<
                    ImageView,
                    ImageError,
                >(i@),
                Err(e) => image_from(info@, groups.deep_view(), url.deep_view()) == Err::<
                    ImageView,
                    ImageError,
                >(e),
            },
    {
        let u = match url {
            Some(u) => u,
            None => {
                return Err(ImageError::Url);
            },
        };
        let mut caught: Option<(String, String)> = None;
        if let Some(mut g) = groups {
            let ghost seen = g.deep_view();
            if g.len() >= 3 {
                assert(seen[1] == g@[1].deep_view());
                assert(seen[2] == g@[2].deep_view());
                let second = g.remove(2);
                let first = g.remove(1);
                if let Some(copyright) = second {
                    if let Some(title) = first {
                        caught = Some((title, copyright));
                    }
                }
            }
        }
        match caught {
            Some((title, copyright)) => Ok(Image { url: u, date: info.start_date, title, copyright }),
            None => Ok(
                Image { url: u, date: info.start_date, title: info.copyright, copyright: String::new() },
            ),
        }
    }

    /// Makes an image of a record: splits its caption into title and
    /// copyright, and resolves its address against the archive's root. The
    /// record is no image just when its address cannot be resolved.
    pub fn try_from(info: ImageInfo) -> (r: Result<Image, ImageError>)
        ensures
            match r {
                Ok(i) => image_of(info@) == Ok::<ImageView, ImageError>(i@),
                Err(e) => image_of(info@) == Err::<ImageView, ImageError>(e),
            },
            r is Ok <==> url_join(archive_root(), info@.url) is Some,
    {
        let groups = match captures(
            "(?x)\n(?P<title>.*?)\n\\s*\\(\n(?P<copyright>.*?)\n\\)\n",
            info.copyright.as_str(),
        ) {
            Ok(g) => g,
            Err(_) => None,
        };
        let url = match join_url("https://www.bing.com/", info.url.as_str()) {
            Ok(u) => Some(u),
            Err(_) => None,
        };
        Image::assemble(info, groups, url)
    }

    /// The identity token that the image's address carries, if it carries
    /// one.
    pub fn id(&self) -> (r: Option<String>)
        ensures
            r.deep_view() == id_among(url_query_pairs(self.url@)),
    {
        match query_pairs(self.url.as_str()) {
            Some(pairs) => find_id(&pairs),
            None => None,
        }
    }

    /// What the image's identity token says. An address without a token is
    /// read as the empty token. Reading never fails.
    pub fn detail(&self) -> (r: Result<ImageDetail, Infallible>)
        ensures
            match r {
                Ok(d) => d@ == read_token(token_or_empty(id_among(url_query_pairs(self.url@)))),
                Err(e) => false,
            },
    {
        match self.id() {
            Some(id) => ImageDetail::from_str(id.as_str()),
            None => {
                let r = ImageDetail::from_str("");
                proof {
                    reveal_strlit("");
                    assert(""@ =~= Seq::<char>::empty());
                }
                r
            },
        }
    }

    /// The name of the file that the image is kept in; none where the
    /// image's identity token cannot be read.
    pub fn filename(&self) -> (r: Option<String>)
        ensures
            r.deep_view() == file_name_of(
                self.date@,
                read_token(token_or_empty(id_among(url_query_pairs(self.url@)))),
            ),
    {
        let detail = match self.detail() {
            Ok(d) => d,
            Err(_) => ImageDetail::default(),
        };
        if detail.name.as_str().unicode_len() == 0 {
            return None;
        }
        proof {
            reveal_strlit("_");
            reveal_strlit(".");
        }
        let mut r = self.date.clone();
        r.append("_");
        r.append(detail.name.as_str());
        r.append(".");
        r.append(detail.extension.as_str());
        assert(Some(r@) =~= file_name_of(self.date@, detail@));
        Some(r)
    }
}

/// Why a query gave no images.
#[derive(Debug, PartialEq, Eq, Clone, Copy)]
pub enum QueryError {
    /// The archive answered with a status that is no success.
    Remote,
    /// The answer does not hold a list of records.
    Parse,
    /// The address of a record cannot be resolved.
    Resolve,
}

/// The address of every record can be resolved.
pub open spec fn all_resolve(infos: Seq<InfoView>) -> bool {
    forall|i: int| 0 <= i < infos.len() ==> url_join(archive_root(), (#[trigger] infos[i]).url) is Some
}

/// The images that records make: one of each record, in their order. One
/// record whose address cannot be resolved makes the whole list fail.
pub open spec fn images_of(infos: Seq<InfoView>) -> Result<Seq<ImageView>, QueryError> {
    if all_resolve(infos) {
        Ok(Seq::new(infos.len(), |i: int| image_of(infos[i])->Ok_0))
    } else {
        Err(QueryError::Resolve)
    }
}

/// What an answer of the archive gives: an error for a status that is no
/// success, an error where the body held no records, else the images that
/// the records make.
pub open spec fn answer_of(status: u16, records: Option<Seq<InfoView>>) -> Result<
    Seq<ImageView>,
    QueryError,
> {
    if !(200 <= status < 300) {
        Err(QueryError::Remote)
    } else {
        match records {
            None => Err(QueryError::Parse),
            Some(infos) => images_of(infos),
        }
    }
}

pub open spec fn image_views(images: Seq<Image>) -> Seq<ImageView> {
    images.map_values(|i: Image| i@)
}

pub open spec fn info_views(infos: Seq<ImageInfo>) -> Seq<InfoView> {
    infos.map_values(|i: ImageInfo| i@)
}

pub open spec fn records_view(records: Option<Vec<ImageInfo>>) -> Option<Seq<InfoView>> {
    match records {
        Some(r) => Some(info_views(r@)),
        None => None,
    }
}

/// Reads an answer of the archive: its status, and the records of its
/// body where the body held any.
pub fn read_answer(status: u16, records: Option<Vec<ImageInfo>>) -> (r: Result<Vec<Image>, QueryError>)
    ensures
        match r {
            Ok(images) => answer_of(status, records_view(records)) == Ok::<
                Seq<ImageView>,
                QueryError,
            >(image_views(images@)),
            Err(e) => answer_of(status, records_view(records)) == Err::<Seq<ImageView>, QueryError>(
                e,
            ),
        },
{
    if !crate::bing::query::is_success(status) {
        return Err(QueryError::Remote);
    }
    let mut infos: Vec<ImageInfo> = match records {
        Some(r) => r,
        None => {
            return Err(QueryError::Parse);
        },
    };
    let ghost all = info_views(infos@);
    let ghost given = infos@;
    let mut images: Vec<Image> = Vec::new();
    let mut taken: Ghost<int> = Ghost(0);
    assert(image_views(images@) =~= Seq::<ImageView>::empty());
    assert(given.skip(0) =~= given);
    while infos.len() > 0
        invariant
            0 <= taken@ <= all.len(),
            200 <= status < 300,
            records_view(records) == Some(all),
            all == info_views(given),
            infos@ == given.skip(taken@),
            images@.len() == taken@,
            forall|j: int|
                0 <= j < taken@ ==> image_of(all[j]) == Ok::<ImageView, ImageError>(
                    (#[trigger] images@[j])@,
                ),
        decreases infos.len(),
    {
        let info = infos.remove(0);
        proof {
            assert(info == given[taken@]);
            assert(info@ == all[taken@]);
            assert(infos@ =~= given.skip(taken@ + 1));
        }
        match Image::try_from(info) {
            Ok(i) => {
                images.push(i);
            },
            Err(_) => {
                assert(!all_resolve(all));
                return Err(QueryError::Resolve);
            },
        }
        proof {
            taken@ = taken@ + 1;
        }
    }
    proof {
        assert forall|i: int| 0 <= i < all.len() implies url_join(
            archive_root(),
            (#[trigger] all[i]).url,
        ) is Some by {
            assert(image_of(all[i]) == Ok::<ImageView, ImageError>(images@[i]@));
        }
        assert(image_views(images@) =~= Seq::new(all.len(), |i: int| image_of(all[i])->Ok_0));
    }
    Ok(images)
}

/// An answer that gives images gives one of each record, in their order.
pub proof fn lemma_answer_keeps_every_record(status: u16, infos: Seq<InfoView>)
    requires
        answer_of(status, Some(infos)) is Ok,
    ensures
        answer_of(status, Some(infos))->Ok_0.len() == infos.len(),
        forall|i: int|
            0 <= i < infos.len() ==> (#[trigger] answer_of(status, Some(infos))->Ok_0[i]).url
                == url_join(archive_root(), infos[i].url)->0 && answer_of(
                status,
                Some(infos),
            )->Ok_0[i].date == infos[i].start_date,
{
}

} // verus!
