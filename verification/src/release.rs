//! The record of a release.

use vstd::prelude::*;
use crate::error::Error;

verus! {

#[verifier::external_type_specification]
#[verifier::external_body]
pub struct ExUrl(url::Url);

#[verifier::external_type_specification]
#[verifier::external_body]
pub struct ExParseError(url::ParseError);

/// The text of a URL.
pub uninterp spec fn url_text(url: url::Url) -> Seq<char>;

/// The text of the URL that `text` is parsed to, or `None` if `text` is not
/// an absolute URL.
pub uninterp spec fn parsed_url(text: Seq<char>) -> Option<Seq<char>>;

/// The text of the URL that `reference` denotes relative to the URL with
/// the text `base`, or `None` if it denotes none.
pub uninterp spec fn joined_url(base: Seq<char>, reference: Seq<char>) -> Option<Seq<char>>;

/// Calls `Url::parse`. The contract claims that whether `text` parses, and
/// to which URL, depends on `text` alone.
#[verifier::external_body]
pub(crate) fn url_parse(text: &str) -> (parsed: Result<url::Url, url::ParseError>)
    ensures
        parsed is Ok <==> parsed_url(text@) is Some,
        parsed matches Ok(url) ==> Some(url_text(url)) == parsed_url(text@),
{
    url::Url::parse(text)
}

/// Calls `Url::join`. The contract claims that whether `reference` can be
/// resolved against `base`, and to which URL, depends on the text of `base`
/// and on `reference` alone.
#[verifier::external_body]
pub(crate) fn url_join(base: &url::Url, reference: &str) -> (joined: Result<
    url::Url,
    url::ParseError,
>)
    ensures
        joined is Ok <==> joined_url(url_text(*base), reference@) is Some,
        joined matches Ok(url) ==> Some(url_text(url)) == joined_url(url_text(*base), reference@),
{
    base.join(reference)
}

/// Where the packages of crates.io are shown.
pub const CRATES_IO_PACKAGES: &'static str = "https://crates.io/crates/";

/// The record of a release.
#[derive(Debug)]
pub struct Release {
    /// The name under which the release is shown.
    pub name: String,
    /// Where the release can be looked at.
    pub url: Option<url::Url>,
}

/// The text of the URL of the package `main_crate` below the URL `base`, or
/// `None` if one of the two is not fit for a URL.
pub open spec fn package_url(base: Seq<char>, main_crate: Seq<char>) -> Option<Seq<char>> {
    match parsed_url(base) {
        Some(parsed) => joined_url(parsed, main_crate),
        None => None,
    }
}

impl Release {
    /// The release is called `name` and has the URL with the text `url`, or
    /// none.
    pub open spec fn is(self, name: Seq<char>, url: Option<Seq<char>>) -> bool {
        &&& self.name@ == name
        &&& match url {
            Some(text) => self.url matches Some(u) && url_text(u) == text,
            None => self.url is None,
        }
    }

    /// The record of a release called `name` that can be looked at at `url`.
    pub fn with_url(name: &str, url: Option<url::Url>) -> (release: Release)
        ensures
            release.name@ == name@,
            release.url == url,
    {
        Release { name: name.to_owned(), url }
    }

    /// The record of a release called `name`. If `url` is given, the release
    /// can be looked at below it, under the name of `main_crate`.
    ///
    /// Fails if `url` is not an absolute URL or `main_crate` cannot be
    /// resolved against it.
    pub fn new(name: &str, url: Option<&str>, main_crate: &str) -> (made: Result<Release, Error>)
        ensures
            match made {
                Ok(release) => match url {
                    Some(base) => package_url(base@, main_crate@) is Some && release.is(
                        name@,
                        package_url(base@, main_crate@),
                    ),
                    None => release.is(name@, None),
                },
                Err(error) => {
                    &&& error is UrlError
                    &&& url matches Some(base) && package_url(base@, main_crate@) is None
                },
            },
    {
        match url {
            Some(text) => {
                let base = match url_parse(text) {
                    Ok(base) => base,
                    Err(inner) => {
                        return Err(Error::url_parse_error(inner));
                    },
                };
                match url_join(&base, main_crate) {
                    Ok(joined) => Ok(Release::with_url(name, Some(joined))),
                    Err(inner) => Err(Error::url_parse_error(inner)),
                }
            },
            None => Ok(Release::with_url(name, None)),
        }
    }

    /// The record of a release to crates.io called `name`, which can be
    /// looked at on the page that crates.io has for `main_crate`.
    pub fn new_crates_io_release(name: &str, main_crate: &str) -> (made: Result<Release, Error>)
        ensures
            match made {
                Ok(release) => package_url(CRATES_IO_PACKAGES@, main_crate@) is Some && release.is(
                    name@,
                    package_url(CRATES_IO_PACKAGES@, main_crate@),
                ),
                Err(error) => error is UrlError && package_url(CRATES_IO_PACKAGES@, main_crate@)
                    is None,
            },
    {
        Release::new(name, Some(CRATES_IO_PACKAGES), main_crate)
    }
}

} // verus!
