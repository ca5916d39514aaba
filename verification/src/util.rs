//! The true format of an image file, and the name that a copy of it gets.

use vstd::prelude::*;
use vstd::string::*;

verus! {

/// The file extensions that `image::ImageFormat::extensions_str` lists for
/// the format that `image::guess_format` finds at the start of the bytes;
/// nothing where it finds none.
pub uninterp spec fn sniffed_extensions(bytes: Seq<u8>) -> Option<Seq<Seq<char>>>;

/// Calls `image::guess_format` and `image::ImageFormat::extensions_str`.
/// The contract only names the result.
#[verifier::external_body]
fn sniff(bytes: &[u8]) -> (r: Option<Vec<String>>)
    ensures
        r.deep_view() == sniffed_extensions(bytes@),
{
    let format = image::guess_format(bytes).ok()?;
    Some(format.extensions_str().iter().map(|e| e.to_string()).collect())
}

/// Why a file has no extension of its own.
#[derive(Debug, PartialEq, Eq, Clone, Copy)]
pub enum FormatError {
    /// The bytes begin like no known image format.
    Unknown,
    /// The format has no file extension.
    NoExtension,
}

/// The format found, as the extensions that files of it carry.
pub open spec fn format_of(sniffed: Option<Seq<Seq<char>>>) -> Result<Seq<Seq<char>>, FormatError> {
    match sniffed {
        Some(extensions) => Ok(extensions),
        None => Err(FormatError::Unknown),
    }
}

/// The extension that files of a format carry first of all.
pub open spec fn extension_of(extensions: Seq<Seq<char>>) -> Result<Seq<char>, FormatError> {
    if extensions.len() > 0 {
        Ok(extensions[0])
    } else {
        Err(FormatError::NoExtension)
    }
}

/// The extension that a file of these bytes should carry.
pub open spec fn resolved_extension(bytes: Seq<u8>) -> Result<Seq<char>, FormatError> {
    match format_of(sniffed_extensions(bytes)) {
        Ok(extensions) => extension_of(extensions),
        Err(e) => Err(e),
    }
}

/// Finds the format of an image by how its bytes begin, whatever its file
/// is called, and gives the extensions of that format.
pub fn get_image_format(bytes: &[u8]) -> (r: Result<Vec<String>, FormatError>)
    ensures
        match r {
            Ok(extensions) => format_of(sniffed_extensions(bytes@)) == Ok::<
                Seq<Seq<char>>,
                FormatError,
            >(extensions.deep_view()),
            Err(e) => format_of(sniffed_extensions(bytes@)) == Err::<Seq<Seq<char>>, FormatError>(e),
        },
{
    match sniff(bytes) {
        Some(extensions) => Ok(extensions),
        None => Err(FormatError::Unknown),
    }
}

/// The first of a format's extensions.
pub fn first_extension(extensions: &Vec<String>) -> (r: Result<String, FormatError>)
    ensures
        match r {
            Ok(e) => extension_of(extensions.deep_view()) == Ok::<Seq<char>, FormatError>(e@),
            Err(e) => extension_of(extensions.deep_view()) == Err::<Seq<char>, FormatError>(e),
        },
{
    if extensions.len() > 0 {
        assert(extensions.deep_view()[0] == extensions@[0]@);
        Ok(extensions[0].clone())
    } else {
        Err(FormatError::NoExtension)
    }
}

/// Finds the extension that a file of these bytes should carry.
pub fn resolve_extension(bytes: &[u8]) -> (r: Result<String, FormatError>)
    ensures
        match r {
            Ok(e) => resolved_extension(bytes@) == Ok::<Seq<char>, FormatError>(e@),
            Err(e) => resolved_extension(bytes@) == Err::<Seq<char>, FormatError>(e),
        },
{
    match get_image_format(bytes) {
        Ok(extensions) => first_extension(&extensions),
        Err(e) => Err(e),
    }
}

/// Where the last dot of a name stands that is not its first character;
/// the length of the name where there is none.
pub open spec fn stem_end(name: Seq<char>, from: int) -> int
    decreases from,
{
    if from <= 1 || from > name.len() {
        name.len() as int
    } else if name[from - 1] == '.' {
        from - 1
    } else {
        stem_end(name, from - 1)
    }
}

/// A file name with its extension replaced: the name up to its last dot,
/// a dot and the extension. A dot at the very start of a name begins no
/// extension, and a name without extension gets one.
pub open spec fn name_with_extension(name: Seq<char>, extension: Seq<char>) -> Seq<char> {
    name.take(stem_end(name, name.len() as int)) + seq!['.'] + extension
}

fn stem_length(name: &str) -> (r: usize)
    ensures
        r == stem_end(name@, name@.len() as int),
        r <= name@.len(),
{
    let n = name.unicode_len();
    let mut i: usize = n;
    while i > 1
        invariant
            n == name@.len(),
            i <= n,
            stem_end(name@, n as int) == stem_end(name@, i as int),
        decreases i,
    {
        if name.get_char(i - 1) == '.' {
            return i - 1;
        }
        i = i - 1;
    }
    n
}

/// Replaces the extension of a file name.
pub fn with_extension(name: &str, extension: &str) -> (r: String)
    ensures
        r@ == name_with_extension(name@, extension@),
{
    let end = stem_length(name);
    proof {
        reveal_strlit(".");
    }
    let mut r = String::from_str(name.substring_char(0, end));
    r.append(".");
    r.append(extension);
    assert(r@ =~= name_with_extension(name@, extension@));
    r
}

/// The name that a copy of a file gets: the file's own, and with the
/// extension of its true format where that is asked for.
pub open spec fn copy_name(name: Seq<char>, bytes: Seq<u8>, set_extension: bool) -> Result<
    Seq<char>,
    FormatError,
> {
    if !set_extension {
        Ok(name)
    } else {
        match resolved_extension(bytes) {
            Ok(e) => Ok(name_with_extension(name, e)),
            Err(e) => Err(e),
        }
    }
}

/// Names the copy of an image file, given the file's name and its bytes.
pub fn copy_image(name: &str, bytes: &[u8], set_extension: bool) -> (r: Result<String, FormatError>)
    ensures
        match r {
            Ok(n) => copy_name(name@, bytes@, set_extension) == Ok::<Seq<char>, FormatError>(n@),
            Err(e) => copy_name(name@, bytes@, set_extension) == Err::<Seq<char>, FormatError>(e),
        },
{
    if !set_extension {
        return Ok(String::from_str(name));
    }
    match resolve_extension(bytes) {
        Ok(e) => Ok(with_extension(name, e.as_str())),
        Err(e) => Err(e),
    }
}

} // verus!
