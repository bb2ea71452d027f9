//! Request mappings and client identities: the two kinds of entry that a
//! router is made of.

use std::sync::Arc;
use vstd::prelude::*;
use crate::address::{Url, UrlView};
use crate::pattern::{
    Captures, CapturesView, PatternError, PatternErrorView, UrlPattern, merged,
    pattern_exec, test_outcome, tested_view,
};
use crate::route_error::{RouteError, RouteErrorView};
use crate::template::{ComponentView, UrlTemplate, fill_outcome};
use crate::tls::{
    CredentialError, CredentialErrorView, PemFile, config_failure, create_config, credential_error_text,
    credential_possible, credential_usable, share_config,
};

verus! {

/// Rewrites the inbound URLs that its pattern matches into the URL that its
/// template produces from the captures of the match.
#[derive(Debug)]
pub struct RequestMapping {
    pattern: UrlPattern,
    destination_template: UrlTemplate,
}

/// The mathematical content of a [`RequestMapping`].
pub struct RequestMappingView {
    pub pattern: Seq<char>,
    pub template: Seq<ComponentView>,
}

impl View for RequestMapping {
    type V = RequestMappingView;

    closed spec fn view(&self) -> RequestMappingView {
        RequestMappingView { pattern: self.pattern@, template: self.destination_template@ }
    }
}

/// The mathematical content of a routing result that holds a URL.
pub open spec fn destination_view(res: Result<Url, RouteError>) -> Result<UrlView, RouteErrorView> {
    match res {
        Ok(url) => Ok(url@),
        Err(error) => Err(error@),
    }
}

/// The destination that a mapping yields once its pattern has been executed
/// with the outcome `found`.
pub open spec fn destination_of_captures(
    mapping: RequestMappingView,
    url: Seq<char>,
    found: Option<CapturesView>,
) -> Result<UrlView, RouteErrorView> {
    match found {
        None => Err(RouteErrorView::NoCaptures { url }),
        Some(captures) => match fill_outcome(mapping.template, merged(captures)) {
            Ok(destination) => Ok(destination),
            Err(error) => Err(RouteErrorView::Fill(error)),
        },
    }
}

/// The destination that a mapping yields for the URL serialised as `url`.
pub open spec fn destination_outcome(mapping: RequestMappingView, url: Seq<char>) -> Result<
    UrlView,
    RouteErrorView,
> {
    match pattern_exec(mapping.pattern, url) {
        None => Err(RouteErrorView::Pattern(PatternErrorView::Match { pattern: mapping.pattern, url })),
        Some(found) => destination_of_captures(mapping, url, found),
    }
}

impl RequestMapping {
    pub fn new(pattern: UrlPattern, destination_template: UrlTemplate) -> (res: RequestMapping)
        ensures
            res@ == (RequestMappingView { pattern: pattern@, template: destination_template@ }),
    {
        RequestMapping { pattern, destination_template }
    }

    /// Whether the pattern of the mapping matches `input`. The result is
    /// never an error.
    pub fn test(&self, input: &Url) -> (res: Result<bool, PatternError>)
        ensures
            tested_view(res) == test_outcome(self@.pattern, input@.href),
            res is Ok,
    {
        self.pattern.test(input)
    }

    /// The destination for `input`, given what executing the pattern on it
    /// returned: the captures of path and query are merged, a query group
    /// overriding the path group of the same name, and fill the template.
    /// No captures at all is an error.
    pub fn destination_from(&self, input: &Url, found: Option<Captures>) -> (res: Result<Url, RouteError>)
        ensures
            destination_view(res) == destination_of_captures(
                self@,
                input@.href,
                match found {
                    Some(captures) => Some(captures@),
                    None => None,
                },
            ),
    {
        match found {
            None => Err(RouteError::NoCaptures { url: input.as_str().to_owned() }),
            Some(captures) => {
                let variables = captures.to_variables();
                match self.destination_template.fill(&variables) {
                    Ok(destination) => Ok(destination),
                    Err(error) => Err(RouteError::Fill(error)),
                }
            },
        }
    }

    /// The destination URL for `input`: the template of the mapping, filled
    /// with what the pattern captures from `input`. Where there is none,
    /// it is for want of captures or because the template cannot be filled:
    /// running the pattern reports no error.
    pub fn destination(&self, input: &Url) -> (res: Result<Url, RouteError>)
        ensures
            destination_view(res) == destination_outcome(self@, input@.href),
            res matches Err(error) ==> !(error@ is Pattern),
    {
        match self.pattern.exec(input) {
            Err(error) => Err(RouteError::Pattern(error)),
            Ok(found) => self.destination_from(input, found),
        }
    }
}

/// Whether one of `patterns` matches the URL serialised as `url`. The
/// patterns are tried in order; a pattern that cannot be run ends the scan
/// with its error.
pub open spec fn any_matches(patterns: Seq<Seq<char>>, url: Seq<char>) -> Result<bool, PatternErrorView>
    decreases patterns.len(),
{
    if patterns.len() == 0 {
        Ok(false)
    } else {
        match test_outcome(patterns[0], url) {
            Err(error) => Err(error),
            Ok(true) => Ok(true),
            Ok(false) => any_matches(patterns.skip(1), url),
        }
    }
}

/// A named client credential together with the destinations that select it.
pub struct ClientAuthenticationMapping {
    name: String,
    patterns: Vec<UrlPattern>,
    tls_config: Arc<rustls::ClientConfig>,
}

/// The mathematical content of a [`ClientAuthenticationMapping`], but for
/// its TLS configuration. The configuration has no mathematical content
/// here: contracts say which identity's configuration is handed out
/// ([`ClientAuthenticationMapping::tls_config`]), never what it holds.
pub struct ClientAuthenticationMappingView {
    pub name: Seq<char>,
    pub patterns: Seq<Seq<char>>,
}

impl View for ClientAuthenticationMapping {
    type V = ClientAuthenticationMappingView;

    closed spec fn view(&self) -> ClientAuthenticationMappingView {
        ClientAuthenticationMappingView {
            name: self.name@,
            patterns: self.patterns@.map_values(|pattern: UrlPattern| pattern@),
        }
    }
}

/// Why a client identity could not be made.
#[derive(Debug)]
pub enum IdentityError {
    /// The identity has no name.
    EmptyName,
    /// The identity has no destination pattern.
    NoPatterns { name: String },
    /// The certificate or the key could not be loaded.
    Credential { name: String, error: CredentialError },
}

/// The mathematical content of an [`IdentityError`].
pub enum IdentityErrorView {
    EmptyName,
    NoPatterns { name: Seq<char> },
    Credential { name: Seq<char>, error: CredentialErrorView },
}

impl View for IdentityError {
    type V = IdentityErrorView;

    open spec fn view(&self) -> IdentityErrorView {
        match self {
            IdentityError::EmptyName => IdentityErrorView::EmptyName,
            IdentityError::NoPatterns { name } => IdentityErrorView::NoPatterns { name: name@ },
            IdentityError::Credential { name, error } => IdentityErrorView::Credential {
                name: name@,
                error: error@,
            },
        }
    }
}

/// The text of an identity error.
pub open spec fn identity_error_text(error: IdentityErrorView) -> Seq<char> {
    match error {
        IdentityErrorView::EmptyName => "Client authentication mapping without a name"@,
        IdentityErrorView::NoPatterns { name } => "No url pattern defined for client authentication mapping '"@
            + name + "'"@,
        IdentityErrorView::Credential { name, error } => "Could not build client authentication mapping '"@
            + name + "': "@ + credential_error_text(error),
    }
}

impl IdentityError {
    /// A description of the error, naming the identity concerned.
    pub fn message(&self) -> (res: String)
        ensures
            res@ == identity_error_text(self@),
    {
        match self {
            IdentityError::EmptyName => "Client authentication mapping without a name".to_owned(),
            IdentityError::NoPatterns { name } => {
                let mut res = "No url pattern defined for client authentication mapping '".to_owned();
                res.append(name.as_str());
                res.append("'");
                res
            },
            IdentityError::Credential { name, error } => {
                let mut res = "Could not build client authentication mapping '".to_owned();
                res.append(name.as_str());
                res.append("': ");
                res.append(error.message().as_str());
                res
            },
        }
    }
}

impl ClientAuthenticationMapping {
    /// Every identity has a name and at least one destination pattern.
    #[verifier::type_invariant]
    spec fn well_formed(&self) -> bool {
        self.name@.len() > 0 && self.patterns@.len() > 0
    }

    /// The TLS client configuration of the identity.
    pub closed spec fn tls_config(&self) -> Arc<rustls::ClientConfig> {
        self.tls_config
    }

    /// Makes an identity from its name, its destination patterns, its
    /// certificate file and its key file.
    ///
    /// An empty name and an empty list of patterns are refused, in this
    /// order, before the files are looked at. With a name and a pattern,
    /// the identity is made exactly where its configuration is. That the
    /// configuration holds the chain and the key of the two files is not
    /// part of the contract (see [`create_config`]).
    pub fn new(
        name: String,
        patterns: Vec<UrlPattern>,
        certificate_filename: String,
        key_filename: String,
        files: &Vec<PemFile>,
    ) -> (res: Result<ClientAuthenticationMapping, IdentityError>)
        ensures
            match res {
                Ok(identity) => {
                    &&& name@.len() > 0
                    &&& patterns@.len() > 0
                    &&& credential_possible(files@, certificate_filename@, key_filename@)
                    &&& identity@ == (ClientAuthenticationMappingView {
                        name: name@,
                        patterns: patterns@.map_values(|pattern: UrlPattern| pattern@),
                    })
                },
                Err(error) => if name@.len() == 0 {
                    error@ == IdentityErrorView::EmptyName
                } else if patterns@.len() == 0 {
                    error@ == (IdentityErrorView::NoPatterns { name: name@ })
                } else {
                    &&& !credential_usable(files@, certificate_filename@, key_filename@)
                    &&& error@ == (IdentityErrorView::Credential {
                        name: name@,
                        error: config_failure(files@, certificate_filename@, key_filename@),
                    })
                },
            },
    {
        if name.as_str().unicode_len() == 0 {
            return Err(IdentityError::EmptyName);
        }
        if patterns.len() == 0 {
            return Err(IdentityError::NoPatterns { name });
        }
        match create_config(certificate_filename.as_str(), key_filename.as_str(), files) {
            Ok(tls_config) => Ok(ClientAuthenticationMapping { name, patterns, tls_config }),
            Err(error) => Err(IdentityError::Credential { name, error }),
        }
    }

    /// The name of the identity.
    pub fn name(&self) -> (res: &str)
        ensures
            res@ == self@.name,
            res@.len() > 0,
    {
        proof {
            use_type_invariant(self);
        }
        self.name.as_str()
    }

    /// The TLS client configuration of the identity, shared with it.
    pub fn config(&self) -> (res: Arc<rustls::ClientConfig>)
        ensures
            res == self.tls_config(),
    {
        share_config(&self.tls_config)
    }

    /// Whether one of the patterns of the identity matches `input`. The
    /// result is never an error.
    pub fn test(&self, input: &Url) -> (res: Result<bool, PatternError>)
        ensures
            tested_view(res) == any_matches(self@.patterns, input@.href),
            res is Ok,
    {
        let ghost all = self@.patterns;
        let mut i: usize = 0;
        proof {
            assert(all.skip(0) =~= all);
        }
        while i < self.patterns.len()
            invariant
                i <= self.patterns@.len(),
                all == self.patterns@.map_values(|pattern: UrlPattern| pattern@),
                any_matches(all, input@.href) == any_matches(all.skip(i as int), input@.href),
            decreases self.patterns@.len() - i,
        {
            proof {
                assert(all.skip(i as int)[0] == self.patterns@[i as int]@);
                assert(all.skip(i as int).skip(1) =~= all.skip(i + 1));
            }
            match self.patterns[i].test(input) {
                Err(error) => {
                    return Err(error);
                },
                Ok(true) => {
                    return Ok(true);
                },
                Ok(false) => {},
            }
            i += 1;
        }
        Ok(false)
    }
}

} // verus!
