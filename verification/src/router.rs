//! The router: an ordered list of request mappings and an ordered list of
//! client identities, and the selection of a destination and an identity
//! for an inbound URL. Order of declaration is the only tie-breaker.

use std::sync::Arc;
use vstd::prelude::*;
use crate::address::{Url, UrlView};
use crate::mapping::{
    ClientAuthenticationMapping, ClientAuthenticationMappingView, RequestMapping, RequestMappingView,
    any_matches, destination_outcome,
};
use crate::pattern::{PatternErrorView, test_outcome};
use crate::route_error::{RouteError, RouteErrorView};

verus! {

/// The routing table. It is fixed once made.
pub struct Router {
    client_auth: Vec<ClientAuthenticationMapping>,
    request_mapping: Vec<RequestMapping>,
}

/// The mathematical content of a [`Router`], but for the TLS configurations
/// of its identities.
pub struct RouterView {
    pub identities: Seq<ClientAuthenticationMappingView>,
    pub mappings: Seq<RequestMappingView>,
}

impl View for Router {
    type V = RouterView;

    closed spec fn view(&self) -> RouterView {
        RouterView {
            identities: self.client_auth@.map_values(|identity: ClientAuthenticationMapping| identity@),
            mappings: self.request_mapping@.map_values(|mapping: RequestMapping| mapping@),
        }
    }
}

/// The index of the first mapping, at or after `from`, whose pattern matches
/// the URL serialised as `url`. A pattern that cannot be run ends the scan
/// with its error.
pub open spec fn first_mapping(mappings: Seq<RequestMappingView>, url: Seq<char>, from: int) -> Result<
    Option<int>,
    PatternErrorView,
>
    decreases mappings.len() - from,
{
    if from < 0 || from >= mappings.len() {
        Ok(None)
    } else {
        match test_outcome(mappings[from].pattern, url) {
            Err(error) => Err(error),
            Ok(true) => Ok(Some(from)),
            Ok(false) => first_mapping(mappings, url, from + 1),
        }
    }
}

/// The index of the first identity, at or after `from`, one of whose
/// patterns matches the URL serialised as `url`.
pub open spec fn first_identity(
    identities: Seq<ClientAuthenticationMappingView>,
    url: Seq<char>,
    from: int,
) -> Result<Option<int>, PatternErrorView>
    decreases identities.len() - from,
{
    if from < 0 || from >= identities.len() {
        Ok(None)
    } else {
        match any_matches(identities[from].patterns, url) {
            Err(error) => Err(error),
            Ok(true) => Ok(Some(from)),
            Ok(false) => first_identity(identities, url, from + 1),
        }
    }
}

/// The destination of the URL serialised as `url`: that of the first
/// mapping that matches it, or `None` where no mapping does.
pub open spec fn destination_for(mappings: Seq<RequestMappingView>, url: Seq<char>) -> Result<
    Option<UrlView>,
    RouteErrorView,
> {
    match first_mapping(mappings, url, 0) {
        Err(error) => Err(RouteErrorView::Pattern(error)),
        Ok(None) => Ok(None),
        Ok(Some(index)) => match destination_outcome(mappings[index], url) {
            Ok(destination) => Ok(Some(destination)),
            Err(error) => Err(error),
        },
    }
}

/// Whether the mapping at index `at` matches the URL serialised as `url`
/// and none of the mappings declared before it does.
pub open spec fn first_match_at(mappings: Seq<RequestMappingView>, url: Seq<char>, at: int) -> bool {
    &&& 0 <= at < mappings.len()
    &&& test_outcome(mappings[at].pattern, url) == Ok::<bool, PatternErrorView>(true)
    &&& forall|i: int|
        0 <= i < at ==> test_outcome((#[trigger] mappings[i]).pattern, url) == Ok::<bool, PatternErrorView>(
            false,
        )
}

/// Where a request goes and as whom.
pub struct Route {
    /// The index of the identity that was selected, if one was.
    pub identity: Option<int>,
    /// The destination URL, if a mapping matched.
    pub destination: Option<UrlView>,
}

/// The route of the URL serialised as `url`. The identity is selected by
/// the destination, never by `url` itself.
pub open spec fn route(router: RouterView, url: Seq<char>) -> Result<Route, RouteErrorView> {
    match destination_for(router.mappings, url) {
        Err(error) => Err(error),
        Ok(None) => Ok(Route { identity: None, destination: None }),
        Ok(Some(destination)) => match first_identity(router.identities, destination.href, 0) {
            Err(error) => Err(RouteErrorView::Pattern(error)),
            Ok(identity) => Ok(Route { identity, destination: Some(destination) }),
        },
    }
}

/// The mathematical content of an optional URL.
pub open spec fn optional_url_view(url: Option<Url>) -> Option<UrlView> {
    match url {
        Some(url) => Some(url@),
        None => None,
    }
}

impl Router {
    pub fn new(client_auth: Vec<ClientAuthenticationMapping>, request_mapping: Vec<RequestMapping>) -> (res:
        Router)
        ensures
            res@.identities == client_auth@.map_values(|identity: ClientAuthenticationMapping| identity@),
            res@.mappings == request_mapping@.map_values(|mapping: RequestMapping| mapping@),
            res.configs() == client_auth@.map_values(
                |identity: ClientAuthenticationMapping| identity.tls_config(),
            ),
    {
        Router { client_auth, request_mapping }
    }

    /// The TLS configurations of the identities, in the order of the identities.
    pub closed spec fn configs(&self) -> Seq<Arc<rustls::ClientConfig>> {
        self.client_auth@.map_values(|identity: ClientAuthenticationMapping| identity.tls_config())
    }

    /// The number of request mappings.
    pub fn mapping_count(&self) -> (res: usize)
        ensures
            res == self@.mappings.len(),
    {
        self.request_mapping.len()
    }

    /// The number of client identities.
    pub fn identity_count(&self) -> (res: usize)
        ensures
            res == self@.identities.len(),
            res == self.configs().len(),
    {
        self.client_auth.len()
    }

    /// The index of the first mapping whose pattern matches `url`.
    fn matching_mapping(&self, url: &Url) -> (res: Result<Option<usize>, RouteError>)
        ensures
            res is Ok,
            match res {
                Ok(Some(index)) => first_mapping(self@.mappings, url@.href, 0) == Ok::<
                    Option<int>,
                    PatternErrorView,
                >(Some(index as int)) && index < self@.mappings.len(),
                Ok(None) => first_mapping(self@.mappings, url@.href, 0) == Ok::<
                    Option<int>,
                    PatternErrorView,
                >(None),
                Err(error) => first_mapping(self@.mappings, url@.href, 0) is Err && error@
                    == RouteErrorView::Pattern(first_mapping(self@.mappings, url@.href, 0)->Err_0),
            },
    {
        let mut i: usize = 0;
        while i < self.request_mapping.len()
            invariant
                i <= self.request_mapping@.len(),
                first_mapping(self@.mappings, url@.href, 0) == first_mapping(
                    self@.mappings,
                    url@.href,
                    i as int,
                ),
            decreases self.request_mapping@.len() - i,
        {
            assert(self@.mappings[i as int] == self.request_mapping@[i as int]@);
            match self.request_mapping[i].test(url) {
                Err(error) => {
                    return Err(RouteError::Pattern(error));
                },
                Ok(true) => {
                    return Ok(Some(i));
                },
                Ok(false) => {},
            }
            i += 1;
        }
        Ok(None)
    }

    /// The index of the first identity that covers `url`.
    fn matching_identity(&self, url: &Url) -> (res: Result<Option<usize>, RouteError>)
        ensures
            res is Ok,
            match res {
                Ok(Some(index)) => first_identity(self@.identities, url@.href, 0) == Ok::<
                    Option<int>,
                    PatternErrorView,
                >(Some(index as int)) && index < self@.identities.len(),
                Ok(None) => first_identity(self@.identities, url@.href, 0) == Ok::<
                    Option<int>,
                    PatternErrorView,
                >(None),
                Err(error) => first_identity(self@.identities, url@.href, 0) is Err && error@
                    == RouteErrorView::Pattern(first_identity(self@.identities, url@.href, 0)->Err_0),
            },
    {
        let mut i: usize = 0;
        while i < self.client_auth.len()
            invariant
                i <= self.client_auth@.len(),
                first_identity(self@.identities, url@.href, 0) == first_identity(
                    self@.identities,
                    url@.href,
                    i as int,
                ),
            decreases self.client_auth@.len() - i,
        {
            assert(self@.identities[i as int] == self.client_auth@[i as int]@);
            match self.client_auth[i].test(url) {
                Err(error) => {
                    return Err(RouteError::Pattern(error));
                },
                Ok(true) => {
                    return Ok(Some(i));
                },
                Ok(false) => {},
            }
            i += 1;
        }
        Ok(None)
    }

    /// The destination of `url`: the mappings are scanned in the order in
    /// which they were declared, and the first whose pattern matches
    /// produces the destination. `None` where no mapping matches.
    pub fn destination_for(&self, url: &Url) -> (res: Result<Option<Url>, RouteError>)
        ensures
            res matches Err(error) ==> !(error@ is Pattern),
            match res {
                Ok(destination) => destination_for(self@.mappings, url@.href) == Ok::<
                    Option<UrlView>,
                    RouteErrorView,
                >(optional_url_view(destination)),
                Err(error) => destination_for(self@.mappings, url@.href) == Err::<
                    Option<UrlView>,
                    RouteErrorView,
                >(error@),
            },
    {
        match self.matching_mapping(url) {
            Err(error) => Err(error),
            Ok(None) => Ok(None),
            Ok(Some(index)) => {
                assert(self@.mappings[index as int] == self.request_mapping@[index as int]@);
                match self.request_mapping[index].destination(url) {
                    Ok(destination) => Ok(Some(destination)),
                    Err(error) => Err(error),
                }
            },
        }
    }

    /// The TLS configuration to present at the destination `url`: the
    /// identities are scanned in the order in which they were declared, and
    /// the first one that covers `url` gives its configuration. `None` where
    /// no identity covers it.
    pub fn client_auth_for_destination(&self, url: &Url) -> (res: Result<
        Option<Arc<rustls::ClientConfig>>,
        RouteError,
    >)
        ensures
            res is Ok,
            match res {
                Ok(Some(config)) => first_identity(self@.identities, url@.href, 0) matches Ok(Some(index))
                    && 0 <= index < self.configs().len() && config == self.configs()[index],
                Ok(None) => first_identity(self@.identities, url@.href, 0) == Ok::<
                    Option<int>,
                    PatternErrorView,
                >(None),
                Err(error) => first_identity(self@.identities, url@.href, 0) is Err && error@
                    == RouteErrorView::Pattern(first_identity(self@.identities, url@.href, 0)->Err_0),
            },
    {
        match self.matching_identity(url) {
            Err(error) => Err(error),
            Ok(None) => Ok(None),
            Ok(Some(index)) => Ok(Some(self.client_auth[index].config())),
        }
    }

    /// Routes an inbound URL.
    ///
    /// The result is `(None, None)` where no mapping matches,
    /// `(None, Some(destination))` where a mapping matches but no identity
    /// covers the destination, and otherwise the configuration of the first
    /// identity that covers the destination, together with the destination.
    ///
    /// The destination is that of the first mapping that matches, whatever
    /// the mappings behind it would give; and where that mapping gives none,
    /// its error is the result. No other error occurs.
    pub fn get_destination(&self, url: &Url) -> (res: Result<
        (Option<Arc<rustls::ClientConfig>>, Option<Url>),
        RouteError,
    >)
        ensures
            res matches Err(error) ==> !(error@ is Pattern),
            forall|at: int| #[trigger]
                first_match_at(self@.mappings, url@.href, at) ==> match destination_outcome(
                    self@.mappings[at],
                    url@.href,
                ) {
                    Ok(expected) => res matches Ok((_, Some(destination))) && destination@ == expected,
                    Err(expected) => res matches Err(error) && error@ == expected,
                },
            match res {
                Ok((config, destination)) => {
                    &&& route(self@, url@.href) matches Ok(expected)
                    &&& optional_url_view(destination) == expected.destination
                    &&& match expected.identity {
                        Some(index) => 0 <= index < self.configs().len() && config == Some(
                            self.configs()[index],
                        ),
                        None => config is None,
                    }
                },
                Err(error) => route(self@, url@.href) == Err::<Route, RouteErrorView>(error@),
            },
    {
        proof {
            assert forall|at: int| #[trigger]
                first_match_at(self@.mappings, url@.href, at) implies destination_for(
                self@.mappings,
                url@.href,
            ) == match destination_outcome(self@.mappings[at], url@.href) {
                Ok(destination) => Ok::<Option<UrlView>, RouteErrorView>(Some(destination)),
                Err(error) => Err(error),
            } by {
                law_first_declared_mapping_wins(self@.mappings, url@.href, at);
            }
        }
        match self.destination_for(url) {
            Err(error) => Err(error),
            Ok(None) => Ok((None, None)),
            Ok(Some(destination)) => match self.client_auth_for_destination(&destination) {
                Err(error) => Err(error),
                Ok(config) => Ok((config, Some(destination))),
            },
        }
    }
}

/// Where no mapping at or after `from` matches, none is found.
pub proof fn lemma_no_mapping(mappings: Seq<RequestMappingView>, url: Seq<char>, from: int)
    requires
        0 <= from,
        forall|i: int|
            from <= i < mappings.len() ==> test_outcome((#[trigger] mappings[i]).pattern, url) == Ok::<
                bool,
                PatternErrorView,
            >(false),
    ensures
        first_mapping(mappings, url, from) == Ok::<Option<int>, PatternErrorView>(None),
    decreases mappings.len() - from,
{
    if from < mappings.len() {
        assert(test_outcome(mappings[from].pattern, url) == Ok::<bool, PatternErrorView>(false));
        lemma_no_mapping(mappings, url, from + 1);
    }
}

/// The first mapping that matches is the one found, whatever stands behind it.
pub proof fn lemma_first_mapping(mappings: Seq<RequestMappingView>, url: Seq<char>, from: int, at: int)
    requires
        0 <= from <= at < mappings.len(),
        test_outcome(mappings[at].pattern, url) == Ok::<bool, PatternErrorView>(true),
        forall|i: int|
            from <= i < at ==> test_outcome((#[trigger] mappings[i]).pattern, url) == Ok::<
                bool,
                PatternErrorView,
            >(false),
    ensures
        first_mapping(mappings, url, from) == Ok::<Option<int>, PatternErrorView>(Some(at)),
    decreases at - from,
{
    if from < at {
        assert(test_outcome(mappings[from].pattern, url) == Ok::<bool, PatternErrorView>(false));
        lemma_first_mapping(mappings, url, from + 1, at);
    }
}

/// Where no request mapping matches a URL, routing it yields neither a
/// destination nor an identity.
pub proof fn law_no_match_no_route(router: RouterView, url: Seq<char>)
    requires
        forall|i: int|
            0 <= i < router.mappings.len() ==> test_outcome((#[trigger] router.mappings[i]).pattern, url)
                == Ok::<bool, PatternErrorView>(false),
    ensures
        route(router, url) == Ok::<Route, RouteErrorView>(Route { identity: None, destination: None }),
{
    lemma_no_mapping(router.mappings, url, 0);
}

/// Where a mapping matches a URL and none declared before it does, it is
/// the template of that mapping that gives the destination, however many
/// of the mappings behind it match as well.
pub proof fn law_first_declared_mapping_wins(mappings: Seq<RequestMappingView>, url: Seq<char>, at: int)
    requires
        first_match_at(mappings, url, at),
    ensures
        destination_for(mappings, url) == match destination_outcome(mappings[at], url) {
            Ok(destination) => Ok::<Option<UrlView>, RouteErrorView>(Some(destination)),
            Err(error) => Err(error),
        },
{
    lemma_first_mapping(mappings, url, 0, at);
}

/// The identity of a route is the first identity that covers the
/// destination of the route; the inbound URL has no say in it.
pub proof fn law_identity_selected_by_destination(router: RouterView, url: Seq<char>)
    ensures
        route(router, url) matches Ok(found) ==> match found.destination {
            Some(destination) => first_identity(router.identities, destination.href, 0) == Ok::<
                Option<int>,
                PatternErrorView,
            >(found.identity),
            None => found.identity is None,
        },
{
}

/// Two inbound URLs that are sent to the same destination are sent there
/// under the same identity.
pub proof fn law_same_destination_same_identity(router: RouterView, first: Seq<char>, second: Seq<char>)
    requires
        route(router, first) is Ok,
        route(router, second) is Ok,
        route(router, first)->Ok_0.destination is Some,
        route(router, first)->Ok_0.destination == route(router, second)->Ok_0.destination,
    ensures
        route(router, first)->Ok_0.identity == route(router, second)->Ok_0.identity,
{
    law_identity_selected_by_destination(router, first);
    law_identity_selected_by_destination(router, second);
}

/// Where the first mapping that matches a URL gives a destination, and the
/// first identity that covers the destination is the one at `identity`,
/// the route is that destination under that identity.
pub proof fn law_route_of_a_match(router: RouterView, url: Seq<char>, at: int, identity: int)
    requires
        first_match_at(router.mappings, url, at),
        destination_outcome(router.mappings[at], url) is Ok,
        first_identity(
            router.identities,
            destination_outcome(router.mappings[at], url)->Ok_0.href,
            0,
        ) == Ok::<Option<int>, PatternErrorView>(Some(identity)),
    ensures
        route(router, url) == Ok::<Route, RouteErrorView>(
            Route {
                identity: Some(identity),
                destination: Some(destination_outcome(router.mappings[at], url)->Ok_0),
            },
        ),
{
    law_first_declared_mapping_wins(router.mappings, url, at);
}

} // verus!
