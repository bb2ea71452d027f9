//! Absolute URLs, as the `url` crate parses and serialises them.
//!
//! A URL of this module is kept as its serialisation, and whoever needs the
//! parsed URL parses the serialisation again. [`Url::parse`] therefore reads
//! the serialisation back before it hands a URL out, so that every URL is
//! known to be one that parses.

use vstd::prelude::*;

verus! {

/// An absolute URL: its serialisation together with the two components that
/// the proxy reads from it.
#[derive(Debug)]
pub struct Url {
    href: String,
    host: Option<String>,
    port: Option<u16>,
}

/// The mathematical content of a [`Url`].
pub struct UrlView {
    /// The serialisation of the URL.
    pub href: Seq<char>,
    /// The host component, without a port.
    pub host: Option<Seq<char>>,
    /// The port, where the URL names one that is not the default of its scheme.
    pub port: Option<u16>,
}

impl View for Url {
    type V = UrlView;

    closed spec fn view(&self) -> UrlView {
        UrlView {
            href: self.href@,
            host: match self.host {
                Some(host) => Some(host@),
                None => None,
            },
            port: self.port,
        }
    }
}

#[verifier::external_type_specification]
#[verifier::external_body]
pub struct ExParseError(url::ParseError);

/// What `url::Url::parse` makes of a text: the serialisation, host and port
/// of the URL that it returns, or `None` where it returns an error.
pub uninterp spec fn url_parsed(input: Seq<char>) -> Option<UrlView>;

/// The URL that a text is taken for: what the text parses to, where the
/// serialisation of that parses in its turn.
pub open spec fn url_of(input: Seq<char>) -> Option<UrlView> {
    match url_parsed(input) {
        Some(url) => if url_parsed(url.href) is Some {
            Some(url)
        } else {
            None
        },
        None => None,
    }
}

/// Calls `url::Url::parse` and copies out of the parsed URL what `as_str`,
/// `host_str` and `port` return, in this order. The contract only names
/// that outcome (`url_parsed`); it claims nothing about which texts parse
/// or how.
#[verifier::external_body]
fn parse_absolute(input: &str) -> (res: Result<(String, Option<String>, Option<u16>), url::ParseError>)
    ensures
        match res {
            Ok((href, host, port)) => url_parsed(input@) == Some(
                UrlView {
                    href: href@,
                    host: match host {
                        Some(host) => Some(host@),
                        None => None,
                    },
                    port,
                },
            ),
            Err(_) => url_parsed(input@) is None,
        },
{
    let parsed = url::Url::parse(input)?;
    Ok((parsed.as_str().to_owned(), parsed.host_str().map(str::to_owned), parsed.port()))
}

/// A text that is not an absolute URL.
#[derive(Debug)]
pub struct UrlError {
    /// The text that was refused.
    pub text: String,
}

impl Url {
    /// The serialisation of a URL is a text that parses.
    #[verifier::type_invariant]
    spec fn reparses(&self) -> bool {
        url_parsed(self.href@) is Some
    }

    /// Parses `input` as an absolute URL.
    pub fn parse(input: &str) -> (res: Result<Url, UrlError>)
        ensures
            match res {
                Ok(url) => url_of(input@) == Some(url@),
                Err(error) => url_of(input@) is None && error.text@ == input@,
            },
    {
        match parse_absolute(input) {
            Ok((href, host, port)) => match parse_absolute(href.as_str()) {
                Ok(_) => Ok(Url { href, host, port }),
                Err(_) => Err(UrlError { text: input.to_owned() }),
            },
            Err(_) => Err(UrlError { text: input.to_owned() }),
        }
    }

    /// The serialisation of the URL.
    pub fn as_str(&self) -> (res: &str)
        ensures
            res@ == self@.href,
            url_parsed(res@) is Some,
    {
        proof {
            use_type_invariant(self);
        }
        self.href.as_str()
    }

    /// The host component, without a port, where the URL has one.
    pub fn host_str(&self) -> (res: Option<&str>)
        ensures
            match res {
                Some(host) => self@.host == Some(host@),
                None => self@.host is None,
            },
    {
        match &self.host {
            Some(host) => Some(host.as_str()),
            None => None,
        }
    }

    /// The port, where the URL names one that is not the default of its scheme.
    pub fn port(&self) -> (res: Option<u16>)
        ensures
            res == self@.port,
    {
        self.port
    }
}

} // verus!
