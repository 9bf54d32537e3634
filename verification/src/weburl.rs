//! The parts of a URL the monitor reads, obtained from the `url` crate.

use vstd::prelude::*;

use crate::text::opt_text;

verus! {

/// Scheme, host and explicit port of a parsed URL.
pub struct UrlParts {
    pub scheme: String,
    pub host: Option<String>,
    pub port: Option<u16>,
}

impl UrlParts {
    pub open spec fn parts(self) -> (Seq<char>, Option<Seq<char>>, Option<u16>) {
        (self.scheme@, opt_text(self.host), self.port)
    }
}

/// What `url::Url::parse` makes of a text, read through `scheme()`,
/// `host_str()` and `port()`; on failure, the parse error's message.
pub uninterp spec fn url_parse(s: Seq<char>) -> Result<(Seq<char>, Option<Seq<char>>, Option<u16>), Seq<char>>;

/// Calls `url::Url::parse` and converts the result to plain values: the
/// scheme, the host (if any) and the explicit port (if any), or the error's
/// `Display` text. The contract names the outcome as a function of the text.
#[verifier::external_body]
pub(crate) fn parse_url(s: &str) -> (r: Result<UrlParts, String>)
    ensures
        match r {
            Ok(p) => url_parse(s@) == Ok::<_, Seq<char>>(p.parts()),
            Err(e) => url_parse(s@) == Err::<(Seq<char>, Option<Seq<char>>, Option<u16>), _>(e@),
        },
{
    match url::Url::parse(s) {
        Ok(u) => Ok(UrlParts {
            scheme: u.scheme().to_string(),
            host: u.host_str().map(str::to_string),
            port: u.port(),
        }),
        Err(e) => Err(e.to_string()),
    }
}

} // verus!
