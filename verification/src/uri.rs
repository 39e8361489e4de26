//! Document URIs: their normal form, and the file they name.

use vstd::prelude::*;

verus! {

/// The normal form of the absolute URL that `input` writes, or `None` where
/// `input` writes none. Documents are filed under this form, so that two
/// spellings of one URL name one document.
pub uninterp spec fn parsed_uri(input: Seq<char>) -> Option<Seq<char>>;

/// `Url::parse` of the `url` crate, followed by the conversion of the URL
/// into its serialization. The result depends on `input` alone; it is given
/// the name `parsed_uri` and nothing more is claimed of it.
#[verifier::external_body]
pub(crate) fn normalize_uri(input: &str) -> (normal: Option<String>)
    ensures
        match normal {
            Some(text) => parsed_uri(input@) == Some(text@),
            None => parsed_uri(input@) is None,
        },
{
    match url::Url::parse(input) {
        Ok(parsed) => Some(String::from(parsed)),
        Err(_) => None,
    }
}

/// The path of the file that the URL `uri` names, as `Url::to_file_path` of
/// the `url` crate gives it, or `None` where the URL names no file.
pub uninterp spec fn file_path_of(uri: Seq<char>) -> Option<Seq<char>>;

/// `Url::to_file_path` of the `url` crate on the URL that `uri` writes. The
/// call reads the URL's text and nothing else, so its result is given the
/// name `file_path_of`; nothing more is claimed of it. The one other way in
/// which the call can fail, for want of memory, is not reckoned with here,
/// as it is reckoned with nowhere else. A path that is not valid UTF-8 is
/// kept with its invalid bytes replaced.
#[verifier::external_body]
pub(crate) fn uri_file_path(uri: &str) -> (path: Option<String>)
    ensures
        match path {
            Some(p) => file_path_of(uri@) == Some(p@),
            None => file_path_of(uri@) is None,
        },
{
    match url::Url::parse(uri) {
        Ok(parsed) => match parsed.to_file_path() {
            Ok(path) => Some(path.to_string_lossy().into_owned()),
            Err(_) => None,
        },
        Err(_) => None,
    }
}

} // verus!
