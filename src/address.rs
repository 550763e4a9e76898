//! URLs that have passed the syntactic check, held in their canonical text.
use vstd::prelude::*;

verus! {

/// The canonical serialization of `text` when it parses as an absolute URL,
/// `None` when it does not.
pub uninterp spec fn url_parse(text: Seq<char>) -> Option<Seq<char>>;

/// Relies on `url::Url::parse`, turned into its serialization (`String::from`):
/// whether `text` parses and what it parses to depend on `text` alone.
#[verifier::external_body]
fn parse_url(text: &str) -> (r: Option<String>)
    ensures
        r matches Some(u) ==> url_parse(text@) == Some(u@),
        r is None ==> url_parse(text@) is None,
{
    url::Url::parse(text).ok().map(String::from)
}

/// A syntactically well-formed URL, in canonical form.
pub struct ParsedUrl {
    text: String,
}

impl View for ParsedUrl {
    type V = Seq<char>;

    closed spec fn view(&self) -> Seq<char> {
        self.text@
    }
}

impl ParsedUrl {
    /// Parses `text`; `None` where it is not a well-formed absolute URL.
    pub fn parse(text: &str) -> (r: Option<ParsedUrl>)
        ensures
            r matches Some(u) ==> url_parse(text@) == Some(u@),
            r is None ==> url_parse(text@) is None,
    {
        match parse_url(text) {
            Some(t) => Some(ParsedUrl { text: t }),
            None => None,
        }
    }

    /// The canonical text of the URL.
    pub fn as_str(&self) -> (r: &str)
        ensures
            r@ == self@,
    {
        self.text.as_str()
    }
}

} // verus!
