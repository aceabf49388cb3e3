//! The URL of a probed service.
use vstd::prelude::*;

verus! {

/// A parsed URL: its serialization and the parts of it that decide how the
/// service is probed.
#[derive(Debug)]
pub struct Url {
    /// The whole URL, normalized.
    pub text: String,
    /// The scheme in lower case, without the colon.
    pub scheme: String,
    /// The host, where the URL has one.
    pub host: Option<String>,
}

/// The texts of a `Url`.
pub struct UrlView {
    pub text: Seq<char>,
    pub scheme: Seq<char>,
    pub host: Option<Seq<char>>,
}

impl View for Url {
    type V = UrlView;

    open spec fn view(&self) -> UrlView {
        UrlView {
            text: self.text@,
            scheme: self.scheme@,
            host: match self.host {
                Some(h) => Some(h@),
                None => None,
            },
        }
    }
}

/// The texts of what a URL parser hands back.
pub open spec fn parsed_view(r: Result<Url, String>) -> Result<UrlView, Seq<char>> {
    match r {
        Ok(u) => Ok(u@),
        Err(e) => Err(e@),
    }
}

/// What the URL parser makes of a text: the URL, or the reason that it is none.
pub uninterp spec fn url_parse(s: Seq<char>) -> Result<UrlView, Seq<char>>;

/// Parses an absolute URL.
///
/// Trusted: `reqwest::Url::parse`, whose result is handed out as plain text
/// through `as_str`, `scheme` and `host_str`, or through the `Display` of the
/// error. The contract claims that all of these depend on the characters of
/// the argument alone; it names them together and says nothing else of them.
#[verifier::external_body]
pub(crate) fn parse_url(raw: &str) -> (r: Result<Url, String>)
    ensures
        parsed_view(r) == url_parse(raw@),
{
    match reqwest::Url::parse(raw) {
        Ok(u) => Ok(
            Url {
                text: u.as_str().to_string(),
                scheme: u.scheme().to_string(),
                host: u.host_str().map(|h| h.to_string()),
            },
        ),
        Err(e) => Err(e.to_string()),
    }
}

impl Clone for Url {
    fn clone(&self) -> (r: Url)
        ensures
            r@ == self@,
            r.text@ == self.text@,
            r.scheme@ == self.scheme@,
            r.host is Some <==> self.host is Some,
            r.host is Some ==> r.host->0@ == self.host->0@,
    {
        Url {
            text: self.text.clone(),
            scheme: self.scheme.clone(),
            host: match &self.host {
                Some(h) => Some(h.clone()),
                None => None,
            },
        }
    }
}

} // verus!
