//! Client identities in the making: what the client, certificate and key
//! entries of a configuration add up to, name by name.

use vstd::prelude::*;
use crate::config_error::{ConfigError, ConfigErrorView};
use crate::mapping::{ClientAuthenticationMapping, ClientAuthenticationMappingView, IdentityErrorView};
use crate::pattern::{PatternError, UrlPattern, pattern_accepted, url_pattern};
use crate::tls::{PemFile, config_failure, credential_possible, credential_usable};

verus! {

/// An identity in the making: its name, the patterns collected so far and
/// the files named so far.
pub struct ClientAuthenticationMappingBuilder {
    name: String,
    patterns: Vec<UrlPattern>,
    certificate_filename: Option<String>,
    key_filename: Option<String>,
}

/// The mathematical content of a [`ClientAuthenticationMappingBuilder`].
pub struct BuilderView {
    pub name: Seq<char>,
    pub patterns: Seq<Seq<char>>,
    pub certificate_filename: Option<Seq<char>>,
    pub key_filename: Option<Seq<char>>,
}

/// The mathematical content of an optional text.
pub open spec fn optional_text(text: Option<String>) -> Option<Seq<char>> {
    match text {
        Some(text) => Some(text@),
        None => None,
    }
}

impl View for ClientAuthenticationMappingBuilder {
    type V = BuilderView;

    closed spec fn view(&self) -> BuilderView {
        BuilderView {
            name: self.name@,
            patterns: self.patterns@.map_values(|pattern: UrlPattern| pattern@),
            certificate_filename: optional_text(self.certificate_filename),
            key_filename: optional_text(self.key_filename),
        }
    }
}

/// Whether `builder` has all that an identity is made of: a certificate, a
/// key, a name and a pattern.
pub open spec fn builder_complete(builder: BuilderView) -> bool {
    &&& builder.certificate_filename is Some
    &&& builder.key_filename is Some
    &&& builder.name.len() > 0
    &&& builder.patterns.len() > 0
}

/// Whether an identity can come of `builder`: it is complete, both of its
/// files can be read, and the TLS library does not refuse the key out of
/// hand.
pub open spec fn identity_possible(builder: BuilderView, files: Seq<PemFile>) -> bool {
    builder_complete(builder) && credential_possible(
        files,
        builder.certificate_filename->Some_0,
        builder.key_filename->Some_0,
    )
}

/// Whether an identity is owed for `builder`: it is complete, both of its
/// files can be read, and the key is one that the TLS library loads
/// whatever the state of the system.
pub open spec fn identity_owed(builder: BuilderView, files: Seq<PemFile>) -> bool {
    builder_complete(builder) && credential_usable(
        files,
        builder.certificate_filename->Some_0,
        builder.key_filename->Some_0,
    )
}

/// The error with which building an identity from `builder` fails, where it
/// fails. A missing certificate is reported before a missing key, both
/// before anything else; where nothing is wrong on this side, the error is
/// the refusal of the TLS library.
pub open spec fn identity_error(builder: BuilderView, files: Seq<PemFile>) -> ConfigErrorView {
    match builder.certificate_filename {
        None => ConfigErrorView::MissingCertificate { name: builder.name },
        Some(certificate_filename) => match builder.key_filename {
            None => ConfigErrorView::MissingKey { name: builder.name },
            Some(key_filename) => ConfigErrorView::Identity(
                if builder.name.len() == 0 {
                    IdentityErrorView::EmptyName
                } else if builder.patterns.len() == 0 {
                    IdentityErrorView::NoPatterns { name: builder.name }
                } else {
                    IdentityErrorView::Credential {
                        name: builder.name,
                        error: config_failure(files, certificate_filename, key_filename),
                    }
                },
            ),
        },
    }
}

/// The identity that `builder` describes.
pub open spec fn identity_of(builder: BuilderView) -> ClientAuthenticationMappingView {
    ClientAuthenticationMappingView { name: builder.name, patterns: builder.patterns }
}

impl ClientAuthenticationMappingBuilder {
    /// A builder for the identity `name`, with its first pattern.
    pub fn new(name: String, pattern: UrlPattern) -> (res: ClientAuthenticationMappingBuilder)
        ensures
            res@ == (BuilderView {
                name: name@,
                patterns: seq![pattern@],
                certificate_filename: None,
                key_filename: None,
            }),
    {
        let mut patterns = Vec::new();
        patterns.push(pattern);
        let res = ClientAuthenticationMappingBuilder {
            name,
            patterns,
            certificate_filename: None,
            key_filename: None,
        };
        assert(res@.patterns =~= seq![pattern@]);
        res
    }

    /// Adds a destination pattern.
    pub fn add_pattern(&mut self, pattern: UrlPattern)
        ensures
            final(self)@ == (BuilderView {
                patterns: old(self)@.patterns.push(pattern@),
                ..old(self)@
            }),
    {
        self.patterns.push(pattern);
        assert(self@.patterns =~= old(self)@.patterns.push(pattern@));
    }

    /// Names the certificate file; a second certificate is refused.
    pub fn add_certificate(&mut self, filename: String) -> (res: Result<(), ConfigError>)
        ensures
            match res {
                Ok(()) => old(self)@.certificate_filename is None && final(self)@ == (BuilderView {
                    certificate_filename: Some(filename@),
                    ..old(self)@
                }),
                Err(error) => old(self)@.certificate_filename is Some && final(self)@ == old(self)@
                    && error@ == (ConfigErrorView::DuplicateCertificate { name: old(self)@.name }),
            },
    {
        if self.certificate_filename.is_some() {
            return Err(ConfigError::DuplicateCertificate { name: self.name.clone() });
        }
        self.certificate_filename = Some(filename);
        Ok(())
    }

    /// Names the key file; a second key is refused.
    pub fn add_key(&mut self, filename: String) -> (res: Result<(), ConfigError>)
        ensures
            match res {
                Ok(()) => old(self)@.key_filename is None && final(self)@ == (BuilderView {
                    key_filename: Some(filename@),
                    ..old(self)@
                }),
                Err(error) => old(self)@.key_filename is Some && final(self)@ == old(self)@ && error@ == (
                ConfigErrorView::DuplicateKey { name: old(self)@.name }),
            },
    {
        if self.key_filename.is_some() {
            return Err(ConfigError::DuplicateKey { name: self.name.clone() });
        }
        self.key_filename = Some(filename);
        Ok(())
    }

    /// Builds the identity. It must have been given exactly one certificate
    /// and one key; their files are looked up in `files`.
    pub fn build(self, files: &Vec<PemFile>) -> (res: Result<ClientAuthenticationMapping, ConfigError>)
        ensures
            match res {
                Ok(identity) => identity_possible(self@, files@) && identity@ == identity_of(self@),
                Err(error) => error@ == identity_error(self@, files@) && !identity_owed(self@, files@),
            },
    {
        let certificate_filename = match self.certificate_filename {
            Some(filename) => filename,
            None => {
                return Err(ConfigError::MissingCertificate { name: self.name });
            },
        };
        let key_filename = match self.key_filename {
            Some(filename) => filename,
            None => {
                return Err(ConfigError::MissingKey { name: self.name });
            },
        };
        match ClientAuthenticationMapping::new(self.name, self.patterns, certificate_filename, key_filename, files) {
            Ok(identity) => Ok(identity),
            Err(error) => Err(ConfigError::Identity(error)),
        }
    }
}

/// The index of the first builder named `name`, at or after `from`.
pub open spec fn find_builder(builders: Seq<BuilderView>, name: Seq<char>, from: int) -> Option<int>
    decreases builders.len() - from,
{
    if from < 0 || from >= builders.len() {
        None
    } else if builders[from].name == name {
        Some(from)
    } else {
        find_builder(builders, name, from + 1)
    }
}

/// `find_builder` returns the least index with the name, if there is one.
pub proof fn lemma_find_builder(builders: Seq<BuilderView>, name: Seq<char>, from: int)
    requires
        0 <= from,
    ensures
        match find_builder(builders, name, from) {
            Some(at) => from <= at < builders.len() && builders[at].name == name,
            None => forall|j: int| from <= j < builders.len() ==> (#[trigger] builders[j]).name != name,
        },
    decreases builders.len() - from,
{
    if from < builders.len() && builders[from].name != name {
        lemma_find_builder(builders, name, from + 1);
    }
}

/// The builders once the pattern `pattern` was added for the identity
/// `name`: the identity is created on first mention.
pub open spec fn with_pattern(builders: Seq<BuilderView>, name: Seq<char>, pattern: Seq<char>) -> Seq<
    BuilderView,
> {
    match find_builder(builders, name, 0) {
        Some(at) => builders.update(
            at,
            BuilderView { patterns: builders[at].patterns.push(pattern), ..builders[at] },
        ),
        None => builders.push(
            BuilderView { name, patterns: seq![pattern], certificate_filename: None, key_filename: None },
        ),
    }
}

/// The builders once the certificate file `filename` was named for the
/// identity `name`, or the reason why it cannot be.
pub open spec fn with_certificate(builders: Seq<BuilderView>, name: Seq<char>, filename: Seq<char>) -> Result<
    Seq<BuilderView>,
    ConfigErrorView,
> {
    match find_builder(builders, name, 0) {
        None => Err(ConfigErrorView::UnknownClientForCertificate { name, filename }),
        Some(at) => if builders[at].certificate_filename is Some {
            Err(ConfigErrorView::DuplicateCertificate { name })
        } else {
            Ok(builders.update(at, BuilderView { certificate_filename: Some(filename), ..builders[at] }))
        },
    }
}

/// The builders once the key file `filename` was named for the identity
/// `name`, or the reason why it cannot be.
pub open spec fn with_key(builders: Seq<BuilderView>, name: Seq<char>, filename: Seq<char>) -> Result<
    Seq<BuilderView>,
    ConfigErrorView,
> {
    match find_builder(builders, name, 0) {
        None => Err(ConfigErrorView::UnknownClientForKey { name, filename }),
        Some(at) => if builders[at].key_filename is Some {
            Err(ConfigErrorView::DuplicateKey { name })
        } else {
            Ok(builders.update(at, BuilderView { key_filename: Some(filename), ..builders[at] }))
        },
    }
}

/// No two builders share a name, and every builder has a pattern: all
/// entries of one name have gone into one builder, which the first of them
/// has made.
pub open spec fn one_builder_per_name(builders: Seq<BuilderView>) -> bool {
    &&& forall|i: int, j: int|
        0 <= i < j < builders.len() ==> (#[trigger] builders[i]).name != (#[trigger] builders[j]).name
    &&& forall|i: int| 0 <= i < builders.len() ==> (#[trigger] builders[i]).patterns.len() > 0
}

/// Adding a pattern keeps one builder per name.
pub proof fn lemma_with_pattern_keeps(builders: Seq<BuilderView>, name: Seq<char>, pattern: Seq<char>)
    requires
        one_builder_per_name(builders),
    ensures
        one_builder_per_name(with_pattern(builders, name, pattern)),
{
    lemma_find_builder(builders, name, 0);
    let after = with_pattern(builders, name, pattern);
    match find_builder(builders, name, 0) {
        Some(at) => {
            assert forall|i: int, j: int| 0 <= i < j < after.len() implies (#[trigger] after[i]).name != (
            #[trigger] after[j]).name by {
                assert(after[i].name == builders[i].name);
                assert(after[j].name == builders[j].name);
            }
            assert forall|i: int| 0 <= i < after.len() implies (#[trigger] after[i]).patterns.len() > 0 by {
                assert(builders[i].patterns.len() > 0);
            }
        },
        None => {
            assert forall|i: int, j: int| 0 <= i < j < after.len() implies (#[trigger] after[i]).name != (
            #[trigger] after[j]).name by {
                assert(after[i] == builders[i]);
                if j < builders.len() {
                    assert(after[j] == builders[j]);
                }
            }
            assert forall|i: int| 0 <= i < after.len() implies (#[trigger] after[i]).patterns.len() > 0 by {
                if i < builders.len() {
                    assert(after[i] == builders[i]);
                }
            }
        },
    }
}

/// Naming a file changes neither the names nor the patterns of the builders.
pub proof fn lemma_with_file_keeps(builders: Seq<BuilderView>, name: Seq<char>, filename: Seq<char>)
    requires
        one_builder_per_name(builders),
    ensures
        with_certificate(builders, name, filename) matches Ok(after) ==> one_builder_per_name(after),
        with_key(builders, name, filename) matches Ok(after) ==> one_builder_per_name(after),
{
    lemma_find_builder(builders, name, 0);
    match with_certificate(builders, name, filename) {
        Ok(after) => {
            assert forall|i: int, j: int| 0 <= i < j < after.len() implies (#[trigger] after[i]).name != (
            #[trigger] after[j]).name by {
                assert(after[i].name == builders[i].name);
                assert(after[j].name == builders[j].name);
            }
            assert forall|i: int| 0 <= i < after.len() implies (#[trigger] after[i]).patterns.len() > 0 by {
                assert(after[i].patterns == builders[i].patterns);
            }
        },
        Err(_) => {},
    }
    match with_key(builders, name, filename) {
        Ok(after) => {
            assert forall|i: int, j: int| 0 <= i < j < after.len() implies (#[trigger] after[i]).name != (
            #[trigger] after[j]).name by {
                assert(after[i].name == builders[i].name);
                assert(after[j].name == builders[j].name);
            }
            assert forall|i: int| 0 <= i < after.len() implies (#[trigger] after[i]).patterns.len() > 0 by {
                assert(after[i].patterns == builders[i].patterns);
            }
        },
        Err(_) => {},
    }
}

/// The identities in the making, one per name, in the order in which the
/// names were first mentioned.
pub struct ClientAuthenticationMappingBuilders(Vec<ClientAuthenticationMappingBuilder>);

impl View for ClientAuthenticationMappingBuilders {
    type V = Seq<BuilderView>;

    closed spec fn view(&self) -> Seq<BuilderView> {
        self.0@.map_values(|builder: ClientAuthenticationMappingBuilder| builder@)
    }
}

/// Whether `error` is the error of a builder for which no identity is
/// owed, an identity being possible for every builder before it.
pub open spec fn is_first_failure(builders: Seq<BuilderView>, files: Seq<PemFile>, error: ConfigErrorView) -> bool {
    exists|at: int|
        0 <= at < builders.len() && error == identity_error(#[trigger] builders[at], files)
            && !identity_owed(builders[at], files) && forall|j: int|
            0 <= j < at ==> identity_possible(#[trigger] builders[j], files)
}

impl ClientAuthenticationMappingBuilders {
    pub fn new() -> (res: ClientAuthenticationMappingBuilders)
        ensures
            res@ == Seq::<BuilderView>::empty(),
    {
        let res = ClientAuthenticationMappingBuilders(Vec::new());
        assert(res@ =~= Seq::<BuilderView>::empty());
        res
    }

    fn position(&self, name: &String) -> (res: Option<usize>)
        ensures
            match res {
                Some(at) => find_builder(self@, name@, 0) == Some(at as int) && at < self.0@.len(),
                None => find_builder(self@, name@, 0) is None,
            },
    {
        let mut i: usize = 0;
        while i < self.0.len()
            invariant
                i <= self.0@.len(),
                find_builder(self@, name@, 0) == find_builder(self@, name@, i as int),
            decreases self.0@.len() - i,
        {
            assert(self@[i as int] == self.0@[i as int]@);
            if self.0[i].name == *name {
                return Some(i);
            }
            i += 1;
        }
        None
    }

    /// Adds the pattern of the client entry number `index` to the identity
    /// `name`, which is created where this is its first mention. A pattern
    /// that does not compile is refused and changes nothing.
    pub fn add_pattern(&mut self, name: String, pattern: String, index: usize) -> (res: Result<(), ConfigError>)
        ensures
            match res {
                Ok(()) => pattern_accepted(pattern@) && final(self)@ == with_pattern(
                    old(self)@,
                    name@,
                    pattern@,
                ),
                Err(error) => !pattern_accepted(pattern@) && final(self)@ == old(self)@ && error@ == (
                ConfigErrorView::ClientPattern { index, pattern: pattern@ }),
            },
    {
        let compiled = match url_pattern(pattern) {
            Ok(compiled) => compiled,
            Err(PatternError::Compile { pattern }) => {
                return Err(ConfigError::ClientPattern { index, pattern });
            },
            Err(PatternError::Match { pattern, .. }) => {
                return Err(ConfigError::ClientPattern { index, pattern });
            },
        };
        let ghost before = self@;
        match self.position(&name) {
            Some(at) => {
                let mut builder = self.0.remove(at);
                assert(builder@ == before[at as int]);
                builder.add_pattern(compiled);
                self.0.insert(at, builder);
                assert(self@ =~= with_pattern(before, name@, pattern@));
            },
            None => {
                self.0.push(ClientAuthenticationMappingBuilder::new(name, compiled));
                assert(self@ =~= with_pattern(before, name@, pattern@));
            },
        }
        Ok(())
    }

    /// Names the certificate file of the identity `name`, which a client
    /// entry must have introduced and which must have no certificate yet.
    pub fn add_certificate(&mut self, name: String, filename: String, _index: usize) -> (res: Result<
        (),
        ConfigError,
    >)
        ensures
            match res {
                Ok(()) => with_certificate(old(self)@, name@, filename@) == Ok::<
                    Seq<BuilderView>,
                    ConfigErrorView,
                >(final(self)@),
                Err(error) => final(self)@ == old(self)@ && with_certificate(old(self)@, name@, filename@)
                    == Err::<Seq<BuilderView>, ConfigErrorView>(error@),
            },
    {
        let ghost before = self@;
        match self.position(&name) {
            None => Err(ConfigError::UnknownClientForCertificate { name, filename }),
            Some(at) => {
                let mut builder = self.0.remove(at);
                proof {
                    lemma_find_builder(before, name@, 0);
                    assert(builder@ == before[at as int]);
                }
                let res = builder.add_certificate(filename);
                let ghost changed = builder@;
                self.0.insert(at, builder);
                match res {
                    Ok(()) => {
                        assert(self@ =~= before.update(at as int, changed));

                    },
                    Err(_) => {
                        assert(self@ =~= before);
                    },
                }
                res
            },
        }
    }

    /// Names the key file of the identity `name`, which a client entry must
    /// have introduced and which must have no key yet.
    pub fn add_key(&mut self, name: String, filename: String, _index: usize) -> (res: Result<(), ConfigError>)
        ensures
            match res {
                Ok(()) => with_key(old(self)@, name@, filename@) == Ok::<Seq<BuilderView>, ConfigErrorView>(
                    final(self)@,
                ),
                Err(error) => final(self)@ == old(self)@ && with_key(old(self)@, name@, filename@) == Err::<
                    Seq<BuilderView>,
                    ConfigErrorView,
                >(error@),
            },
    {
        let ghost before = self@;
        match self.position(&name) {
            None => Err(ConfigError::UnknownClientForKey { name, filename }),
            Some(at) => {
                let mut builder = self.0.remove(at);
                proof {
                    lemma_find_builder(before, name@, 0);
                    assert(builder@ == before[at as int]);
                }
                let res = builder.add_key(filename);
                let ghost changed = builder@;
                self.0.insert(at, builder);
                match res {
                    Ok(()) => {
                        assert(self@ =~= before.update(at as int, changed));
                    },
                    Err(_) => {
                        assert(self@ =~= before);
                    },
                }
                res
            },
        }
    }

    /// Builds every identity, in the order in which the identities were
    /// first mentioned. The first that cannot be built ends the run with
    /// its error.
    pub fn build(self, files: &Vec<PemFile>) -> (res: Result<Vec<ClientAuthenticationMapping>, ConfigError>)
        ensures
            match res {
                Ok(identities) => {
                    &&& identities@.len() == self@.len()
                    &&& forall|i: int|
                        0 <= i < self@.len() ==> identity_possible(#[trigger] self@[i], files@)
                            && identities@[i]@ == identity_of(self@[i])
                },
                Err(error) => is_first_failure(self@, files@, error@),
            },
    {
        let ghost all = self@;
        let mut identities: Vec<ClientAuthenticationMapping> = Vec::new();
        for builder in remaining: self.0.into_iter()
            invariant
                all == self@,
                remaining.seq().len() == all.len(),
                forall|i: int| 0 <= i < all.len() ==> (#[trigger] remaining.seq()[i])@ == all[i],
                identities@.len() == remaining.index(),
                forall|i: int|
                    0 <= i < identities@.len() ==> identity_possible(#[trigger] all[i], files@)
                        && identities@[i]@ == identity_of(all[i]),
        {
            let ghost at = identities@.len() as int;
            assert(builder@ == all[at]);
            match builder.build(files) {
                Ok(identity) => {
                    identities.push(identity);
                },
                Err(error) => {
                    assert(error@ == identity_error(all[at], files@) && !identity_owed(all[at], files@));
                    return Err(error);
                },
            }
        }
        Ok(identities)
    }
}

} // verus!
