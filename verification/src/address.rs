//! Web addresses: what counts as one, and the canonical form in which the
//! configuration stores it.

use crate::text::{
    byte_len, byte_length, contains_scheme_separator, has_scheme_separator,
    lemma_separator_in_window, lemma_trimmed_window, same_text, starts_with, trim, trimmed,
};
use vstd::prelude::*;
use vstd::string::StringExecFns;

verus! {

/// The longest address, in bytes, that is looked at.
pub const MAX_URL_LEN: usize = 2048;

/// Why a text is not accepted as an address.
#[derive(Clone, Copy, Debug, PartialEq, Eq, Structural)]
pub enum InvalidUrl {
    /// Nothing but white space.
    Empty,
    /// More than `MAX_URL_LEN` bytes after trimming.
    TooLong,
    /// Not an absolute URL.
    Unparsable,
    /// A scheme other than `http` and `https`.
    Scheme,
    /// No host, or an empty one.
    NoHost,
}

impl InvalidUrl {
    /// The text of `message`.
    pub open spec fn message_spec(self) -> Seq<char> {
        match self {
            InvalidUrl::Empty => "URL cannot be empty"@,
            InvalidUrl::TooLong => "URL is too long"@,
            InvalidUrl::Unparsable => "Invalid URL"@,
            InvalidUrl::Scheme => "Only http and https URLs are allowed"@,
            InvalidUrl::NoHost => "URL must include a host"@,
        }
    }

    /// The sentence shown to the user for this error.
    pub fn message(&self) -> (res: String)
        ensures
            res@ == self.message_spec(),
    {
        match self {
            InvalidUrl::Empty => "URL cannot be empty".to_owned(),
            InvalidUrl::TooLong => "URL is too long".to_owned(),
            InvalidUrl::Unparsable => "Invalid URL".to_owned(),
            InvalidUrl::Scheme => "Only http and https URLs are allowed".to_owned(),
            InvalidUrl::NoHost => "URL must include a host".to_owned(),
        }
    }
}

/// The parts of a parsed URL that the validator reads.
#[derive(Clone, Debug, PartialEq, Eq)]
pub struct ParsedUrl {
    /// The scheme, lower-cased, without the colon.
    pub scheme: String,
    /// The host as text, if the URL has one.
    pub host: Option<String>,
    /// The URL in its canonical serialized form.
    pub serialized: String,
}

/// `ParsedUrl` as a mathematical value.
pub struct ParsedUrlView {
    pub scheme: Seq<char>,
    pub host: Option<Seq<char>>,
    pub serialized: Seq<char>,
}

impl View for ParsedUrl {
    type V = ParsedUrlView;

    open spec fn view(&self) -> ParsedUrlView {
        ParsedUrlView {
            scheme: self.scheme@,
            host: self.host.deep_view(),
            serialized: self.serialized@,
        }
    }
}

/// `url::ParseError`, the error of `url::Url::parse`: carried through as it
/// is, nothing is said of what it holds.
#[verifier::external_type_specification]
#[verifier::external_body]
pub struct ExParseError(url::ParseError);

/// What `url::Url::parse` makes of `input`: the parts of the URL, or `None`
/// where it reports an error.
pub uninterp spec fn url_parse(input: Seq<char>) -> Option<ParsedUrlView>;

/// The outcome of a parse without the parser's own error value.
pub open spec fn parse_outcome(res: Result<ParsedUrl, url::ParseError>) -> Option<ParsedUrlView> {
    match res {
        Ok(p) => Some(p@),
        Err(_) => None,
    }
}

/// Where there is a host, the serialized form begins with the scheme and
/// `://`.
pub open spec fn scheme_leads(p: ParsedUrlView) -> bool {
    p.host is Some ==> starts_with(p.serialized, p.scheme + seq![':', '/', '/'])
}

/// `url::Url::parse`, with `Url::scheme`, `Url::host_str` and the serialized
/// form (`Display`) read off the URL it returns. Trusted, from the parser's
/// source:
/// - the outcome depends on the input alone;
/// - a URL with a host is serialized as its scheme followed by `://`: the
///   parser writes the scheme, `:` and `//` before it reads a host
///   (`Parser::parse_with_scheme`, `Parser::after_double_slash`,
///   `Parser::parse_file`);
/// - the scheme is the input's text before the first `:`, lower-cased, so input
///   that begins with `https://` has the scheme `https` (`Parser::parse_scheme`).
///
/// Nothing is claimed of parsing a serialized form again: the parser does not
/// promise to give it back.
#[verifier::external_body]
pub(crate) fn parse_url(input: &str) -> (res: Result<ParsedUrl, url::ParseError>)
    ensures
        parse_outcome(res) == url_parse(input@),
        res matches Ok(p) ==> scheme_leads(p@),
        res matches Ok(p) ==> (starts_with(input@, "https://"@) ==> p@.scheme == "https"@),
{
    let parsed = url::Url::parse(input)?;
    Ok(
        ParsedUrl {
            scheme: parsed.scheme().to_string(),
            host: parsed.host_str().map(str::to_string),
            serialized: parsed.to_string(),
        },
    )
}

/// The text handed to the parser: `t` itself where it holds `://`, else `t`
/// behind `https://`.
pub open spec fn candidate(t: Seq<char>) -> Seq<char> {
    if has_scheme_separator(t) {
        t
    } else {
        "https://"@ + t
    }
}

/// Whether the URL has a host that is not empty.
pub open spec fn has_host(p: ParsedUrlView) -> bool {
    p.host matches Some(h) && h.len() > 0
}

/// Which parsed URLs are accepted, and the address each one stands for.
pub open spec fn accept_spec(parsed: Option<ParsedUrlView>) -> Result<Seq<char>, InvalidUrl> {
    match parsed {
        None => Err(InvalidUrl::Unparsable),
        Some(p) => if p.scheme != "http"@ && p.scheme != "https"@ {
            Err(InvalidUrl::Scheme)
        } else if !has_host(p) {
            Err(InvalidUrl::NoHost)
        } else {
            Ok(p.serialized)
        },
    }
}

/// The canonical form of `raw`, or the reason why it has none.
pub open spec fn normalize_spec(raw: Seq<char>) -> Result<Seq<char>, InvalidUrl> {
    let t = trimmed(raw);
    if t.len() == 0 {
        Err(InvalidUrl::Empty)
    } else if byte_len(t) > MAX_URL_LEN {
        Err(InvalidUrl::TooLong)
    } else {
        accept_spec(url_parse(candidate(t)))
    }
}

/// An address that normalizing leaves as it is.
pub open spec fn is_settled(u: Seq<char>) -> bool {
    normalize_spec(u) == Ok::<Seq<char>, InvalidUrl>(u)
}

/// Whether `u` begins with `http://` or `https://`.
pub open spec fn is_web_address(u: Seq<char>) -> bool {
    starts_with(u, "http://"@) || starts_with(u, "https://"@)
}

/// A `Result` of text as a mathematical value.
pub open spec fn text_result(res: Result<String, InvalidUrl>) -> Result<Seq<char>, InvalidUrl> {
    match res {
        Ok(s) => Ok(s@),
        Err(e) => Err(e),
    }
}

/// Accepts a parsed URL if its scheme is `http` or `https` and its host is
/// not empty, and gives its serialized form.
pub fn accept_parsed(parsed: Result<ParsedUrl, url::ParseError>) -> (res: Result<
    String,
    InvalidUrl,
>)
    ensures
        text_result(res) == accept_spec(parse_outcome(parsed)),
{
    match parsed {
        Err(_) => Err(InvalidUrl::Unparsable),
        Ok(p) => {
            if !same_text(p.scheme.as_str(), "http") && !same_text(p.scheme.as_str(), "https") {
                return Err(InvalidUrl::Scheme);
            }
            match p.host {
                Some(host) if !host.as_str().is_empty() => Ok(p.serialized),
                _ => Err(InvalidUrl::NoHost),
            }
        },
    }
}

/// An accepted URL that begins with its scheme and `://` is a web address.
proof fn lemma_accepted(p: ParsedUrlView)
    requires
        scheme_leads(p),
        accept_spec(Some(p)) is Ok,
    ensures
        is_web_address(p.serialized),
        p.scheme == "https"@ ==> starts_with(p.serialized, "https://"@),
{
    reveal_strlit("http");
    reveal_strlit("https");
    reveal_strlit("http://");
    reveal_strlit("https://");
    let lead = p.scheme + seq![':', '/', '/'];
    if p.scheme == "http"@ {
        assert(lead =~= "http://"@);
    } else {
        assert(lead =~= "https://"@);
    }
}

/// Trims `raw`, puts `https://` in front where it holds no `://`, parses it,
/// and gives the canonical form if the scheme is `http` or `https` and the
/// host is not empty.
///
/// The canonical form need not be settled: one that outgrew `MAX_URL_LEN`
/// bytes when it was serialized is refused as input. `is_settled_url` tells.
pub fn normalize_url(raw: &str) -> (res: Result<String, InvalidUrl>)
    ensures
        text_result(res) == normalize_spec(raw@),
        res matches Ok(u) ==> is_web_address(u@),
        res matches Ok(u) ==> (!has_scheme_separator(raw@) ==> starts_with(u@, "https://"@)),
{
    let t = trim(raw);
    if t.is_empty() {
        return Err(InvalidUrl::Empty);
    }
    if byte_length(t) > MAX_URL_LEN {
        return Err(InvalidUrl::TooLong);
    }
    let separated = contains_scheme_separator(t);
    let text = if separated {
        t.to_owned()
    } else {
        "https://".to_owned().concat(t)
    };
    let parsed = parse_url(text.as_str());
    proof {
        if let Some(p) = parse_outcome(parsed) {
            if accept_spec(Some(p)) is Ok {
                lemma_accepted(p);
                if !has_scheme_separator(raw@) {
                    let w = lemma_trimmed_window(raw@);
                    if separated {
                        lemma_separator_in_window(raw@, w.0, w.1);
                    }
                    reveal_strlit("https://");
                    assert(text@.subrange(0, 8) =~= "https://"@);
                }
            }
        }
    }
    accept_parsed(parsed)
}

/// Whether `u` is settled: an address whose canonical form is `u` itself.
pub fn is_settled_url(u: &str) -> (res: bool)
    ensures
        res == is_settled(u@),
{
    match normalize_url(u) {
        Ok(canonical) => same_text(canonical.as_str(), u),
        Err(_) => false,
    }
}

} // verus!
