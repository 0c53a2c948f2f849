//! The parts of a share link that the compiler reads.

use crate::error::CompileError;
use vstd::prelude::*;

verus! {

/// What the compiler reads of a parsed link: scheme, credential, server, port and query.
#[derive(Debug, Clone, PartialEq)]
pub struct UriParts {
    pub scheme: String,
    pub username: String,
    pub host: Option<String>,
    pub port: Option<u16>,
    pub query: Option<String>,
}

/// What a [`UriParts`] holds, with every text as its characters.
pub struct UriPartsView {
    pub scheme: Seq<char>,
    pub username: Seq<char>,
    pub host: Option<Seq<char>>,
    pub port: Option<u16>,
    pub query: Option<Seq<char>>,
}

impl DeepView for UriParts {
    type V = UriPartsView;

    open spec fn deep_view(&self) -> UriPartsView {
        UriPartsView {
            scheme: self.scheme.deep_view(),
            username: self.username.deep_view(),
            host: self.host.deep_view(),
            port: self.port.deep_view(),
            query: self.query.deep_view(),
        }
    }
}

impl View for UriParts {
    type V = UriPartsView;

    open spec fn view(&self) -> UriPartsView {
        self.deep_view()
    }
}

/// Whether `Url::parse` of the `url` crate accepts `input`.
pub uninterp spec fn uri_is_valid(input: Seq<char>) -> bool;

/// What `Url::scheme` returns for the parsed `input`.
pub uninterp spec fn uri_scheme(input: Seq<char>) -> Seq<char>;

/// What `Url::username` returns for the parsed `input`.
pub uninterp spec fn uri_username(input: Seq<char>) -> Seq<char>;

/// What `Url::host_str` returns for the parsed `input`.
pub uninterp spec fn uri_host(input: Seq<char>) -> Option<Seq<char>>;

/// What `Url::port` returns for the parsed `input`.
pub uninterp spec fn uri_port(input: Seq<char>) -> Option<u16>;

/// What `Url::query` returns for the parsed `input`.
pub uninterp spec fn uri_query(input: Seq<char>) -> Option<Seq<char>>;

/// The parts of `input` as the `url` crate reads them; `None` for a text
/// that it does not accept.
pub open spec fn uri_parts(input: Seq<char>) -> Option<UriPartsView> {
    if uri_is_valid(input) {
        Some(
            UriPartsView {
                scheme: uri_scheme(input),
                username: uri_username(input),
                host: uri_host(input),
                port: uri_port(input),
                query: uri_query(input),
            },
        )
    } else {
        None
    }
}

/// `url::ParseError`, the reason for which the `url` crate refuses a text.
#[verifier::external_type_specification]
#[verifier::external_body]
pub struct ExParseError(url::ParseError);

/// Calls `Url::parse` of the `url` crate and reads the five parts of the
/// result with `scheme`, `username`, `host_str`, `port` and `query`.
/// Believed, not proved: the call succeeds exactly on the texts for which
/// `uri_is_valid` holds, and each part is what the name of its accessor
/// stands for. Nothing is claimed of what those values are.
#[verifier::external_body]
fn parse_uri(input: &str) -> (res: Result<UriParts, url::ParseError>)
    ensures
        res is Ok <==> uri_is_valid(input@),
        res matches Ok(p) ==> {
            &&& p.scheme@ == uri_scheme(input@)
            &&& p.username@ == uri_username(input@)
            &&& p.host.deep_view() == uri_host(input@)
            &&& p.port == uri_port(input@)
            &&& p.query.deep_view() == uri_query(input@)
        },
{
    let parsed = url::Url::parse(input)?;
    Ok(
        UriParts {
            scheme: parsed.scheme().to_string(),
            username: parsed.username().to_string(),
            host: parsed.host_str().map(|h| h.to_string()),
            port: parsed.port(),
            query: parsed.query().map(|q| q.to_string()),
        },
    )
}

/// Splits a link into its parts, or says that it is not a URI.
pub fn split_uri(input: &str) -> (res: Result<UriParts, CompileError>)
    ensures
        match res {
            Ok(p) => uri_parts(input@) == Some(p@),
            Err(e) => uri_parts(input@) is None && e == CompileError::UriParseError,
        },
{
    match parse_uri(input) {
        Ok(p) => Ok(p),
        Err(_) => Err(CompileError::UriParseError),
    }
}

} // verus!
