//! The configuration loader: from the operator's entries to a router and
//! the ports to listen on.
//!
//! Entries are handled in the order `client`, `cert`, `key`, `mapping`, each
//! kind in the order given, and the first entry that is refused ends the
//! load with its error.

use std::collections::HashSet;
use vstd::prelude::*;
use crate::builders::{
    BuilderView, ClientAuthenticationMappingBuilders, identity_of, identity_owed, identity_possible,
    is_first_failure,
    lemma_with_file_keeps, lemma_with_pattern_keeps, one_builder_per_name, with_certificate, with_key,
    with_pattern,
};
use crate::config_error::{ConfigError, ConfigErrorView};
use crate::mapping::{RequestMapping, RequestMappingView};
use crate::pattern::{PatternError, pattern_accepted, url_pattern};
use crate::router::Router;
use crate::template::{UrlTemplate, parse_template};
use crate::text::{chars_of, decimal, decimal_string, find_char, find_from, lemma_find_char, parse_u16, read_u16};
use crate::tls::PemFile;

verus! {

/// The two sides of an entry of the form `<key>=<value>`, split at its
/// first `=`.
pub open spec fn split_pair(value: Seq<char>) -> Option<(Seq<char>, Seq<char>)> {
    match find_char(value, '=', 0) {
        Some(at) => Some((value.take(at), value.skip(at + 1))),
        None => None,
    }
}

/// Splits the entry number `index` of the kind `field` at its first `=`.
pub fn kv(field: &str, index: usize, value: &String) -> (res: Result<(String, String), ConfigError>)
    ensures
        match res {
            Ok((key, value_part)) => split_pair(value@) == Some((key@, value_part@)),
            Err(error) => split_pair(value@) is None && error@ == (ConfigErrorView::InvalidKeyValue {
                field: field@,
                index,
                value: value@,
            }),
        },
{
    let text = value.as_str();
    let chars = chars_of(text);
    let n = chars.len();
    match find_from(&chars, '=', 0) {
        None => Err(
            ConfigError::InvalidKeyValue { field: field.to_owned(), index, value: value.clone() },
        ),
        Some(at) => {
            proof {
                lemma_find_char(chars@, '=', 0);
            }
            Ok((text.substring_char(0, at).to_owned(), text.substring_char(at + 1, n).to_owned()))
        },
    }
}

/// The operator's entries, as given on the command line.
#[derive(Debug)]
pub struct Cli {
    /// Client entries, each `<name>=<url-pattern>`.
    pub client: Vec<String>,
    /// Certificate entries, each `<name>=<path>`.
    pub cert: Vec<String>,
    /// Key entries, each `<name>=<path>`.
    pub key: Vec<String>,
    /// The first request mapping, `:<port>[/<path-pattern>]=<destination-template>`.
    pub mapping1: String,
    /// The request mappings after the first.
    pub mapping: Vec<String>,
}

/// The mathematical content of a list of texts.
pub open spec fn texts(list: Seq<String>) -> Seq<Seq<char>> {
    list.map_values(|text: String| text@)
}

/// The mathematical content of a [`Cli`].
pub struct CliView {
    pub client: Seq<Seq<char>>,
    pub cert: Seq<Seq<char>>,
    pub key: Seq<Seq<char>>,
    /// All request mappings, the first one included.
    pub mappings: Seq<Seq<char>>,
}

impl View for Cli {
    type V = CliView;

    open spec fn view(&self) -> CliView {
        CliView {
            client: texts(self.client@),
            cert: texts(self.cert@),
            key: texts(self.key@),
            mappings: seq![self.mapping1@] + texts(self.mapping@),
        }
    }
}

/// The three kinds of entry that describe client identities.
#[derive(Clone, Copy, Debug)]
pub enum EntryKind {
    Client,
    Certificate,
    Key,
}

/// The name under which errors mention the entries of a kind.
pub open spec fn field_name(kind: EntryKind) -> Seq<char> {
    match kind {
        EntryKind::Client => "client"@,
        EntryKind::Certificate => "cert"@,
        EntryKind::Key => "key"@,
    }
}

/// The builders once the entry number `index` of the kind `kind` was taken
/// in, or the reason why it was refused.
pub open spec fn apply_entry(kind: EntryKind, builders: Seq<BuilderView>, entry: Seq<char>, index: usize) -> Result<
    Seq<BuilderView>,
    ConfigErrorView,
> {
    match split_pair(entry) {
        None => Err(ConfigErrorView::InvalidKeyValue { field: field_name(kind), index, value: entry }),
        Some((name, value)) => match kind {
            EntryKind::Client => if pattern_accepted(value) {
                Ok(with_pattern(builders, name, value))
            } else {
                Err(ConfigErrorView::ClientPattern { index, pattern: value })
            },
            EntryKind::Certificate => with_certificate(builders, name, value),
            EntryKind::Key => with_key(builders, name, value),
        },
    }
}

/// The builders once the entries `entries[from..]` were taken in, in order,
/// or the reason why the first of them that was refused was refused.
pub open spec fn apply_entries(
    kind: EntryKind,
    builders: Seq<BuilderView>,
    entries: Seq<Seq<char>>,
    from: int,
) -> Result<Seq<BuilderView>, ConfigErrorView>
    decreases entries.len() - from,
{
    if from < 0 || from >= entries.len() {
        Ok(builders)
    } else {
        match apply_entry(kind, builders, entries[from], from as usize) {
            Err(error) => Err(error),
            Ok(next) => apply_entries(kind, next, entries, from + 1),
        }
    }
}

/// Taking entries in keeps one builder per name.
pub proof fn lemma_apply_entries_keeps(
    kind: EntryKind,
    builders: Seq<BuilderView>,
    entries: Seq<Seq<char>>,
    from: int,
)
    requires
        one_builder_per_name(builders),
    ensures
        apply_entries(kind, builders, entries, from) matches Ok(after) ==> one_builder_per_name(after),
    decreases entries.len() - from,
{
    if 0 <= from < entries.len() {
        match split_pair(entries[from]) {
            None => {},
            Some((name, value)) => {
                lemma_with_pattern_keeps(builders, name, value);
                lemma_with_file_keeps(builders, name, value);
                match apply_entry(kind, builders, entries[from], from as usize) {
                    Err(_) => {},
                    Ok(next) => {
                        lemma_apply_entries_keeps(kind, next, entries, from + 1);
                    },
                }
            },
        }
    }
}

/// The builders that the client, certificate and key entries describe.
pub open spec fn collected_builders(cli: CliView) -> Result<Seq<BuilderView>, ConfigErrorView> {
    match apply_entries(EntryKind::Client, Seq::empty(), cli.client, 0) {
        Err(error) => Err(error),
        Ok(named) => match apply_entries(EntryKind::Certificate, named, cli.cert, 0) {
            Err(error) => Err(error),
            Ok(certified) => apply_entries(EntryKind::Key, certified, cli.key, 0),
        },
    }
}

/// However many entries name an identity, the entries of a configuration
/// make one builder of it, and every builder has at least one pattern.
pub proof fn law_one_builder_per_name(cli: CliView)
    ensures
        collected_builders(cli) matches Ok(builders) ==> one_builder_per_name(builders),
{
    let none = Seq::<BuilderView>::empty();
    lemma_apply_entries_keeps(EntryKind::Client, none, cli.client, 0);
    match apply_entries(EntryKind::Client, none, cli.client, 0) {
        Err(_) => {},
        Ok(named) => {
            lemma_apply_entries_keeps(EntryKind::Certificate, named, cli.cert, 0);
            match apply_entries(EntryKind::Certificate, named, cli.cert, 0) {
                Err(_) => {},
                Ok(certified) => {
                    lemma_apply_entries_keeps(EntryKind::Key, certified, cli.key, 0);
                },
            }
        },
    }
}

/// The pattern that inbound URLs are matched against for a mapping on
/// `port` with the path pattern `path`: any scheme, any host, that port.
pub open spec fn mapping_pattern_text(port: u16, path: Seq<char>) -> Seq<char> {
    "*://*:"@ + decimal(port as nat) + "/"@ + path
}

/// The port and the path pattern that the key of the mapping number `index`
/// names. The key reads `:<port>` or `:<port>/<path-pattern>`; without a
/// path pattern, every path matches.
pub open spec fn parse_mapping_key(key: Seq<char>, index: usize) -> Result<(u16, Seq<char>), ConfigErrorView> {
    if key.len() == 0 || key[0] != ':' {
        Err(ConfigErrorView::MappingKey { index, key })
    } else {
        let (port_text, path) = match find_char(key, '/', 1) {
            Some(slash) => (key.subrange(1, slash), key.skip(slash + 1)),
            None => (key.skip(1), "*"@),
        };
        match parse_u16(port_text) {
            None => Err(ConfigErrorView::MappingPort { index, port: port_text }),
            Some(port) => Ok((port, path)),
        }
    }
}

/// The port and the request mapping that the mapping entry number `index`
/// describes, or the reason why it is refused.
pub open spec fn parse_mapping(entry: Seq<char>, index: usize) -> Result<
    (u16, RequestMappingView),
    ConfigErrorView,
> {
    match split_pair(entry) {
        None => Err(ConfigErrorView::InvalidKeyValue { field: "mapping"@, index, value: entry }),
        Some((key, template)) => match parse_mapping_key(key, index) {
            Err(error) => Err(error),
            Ok((port, path)) => if !pattern_accepted(mapping_pattern_text(port, path)) {
                Err(ConfigErrorView::MappingPattern { index, pattern: mapping_pattern_text(port, path) })
            } else {
                match parse_template(template) {
                    Err(fault) => Err(ConfigErrorView::Template { template, fault }),
                    Ok(components) => Ok(
                        (
                            port,
                            RequestMappingView {
                                pattern: mapping_pattern_text(port, path),
                                template: components,
                            },
                        ),
                    ),
                }
            },
        },
    }
}

/// `ports` with `port` behind it, unless it is there already.
pub open spec fn add_port(ports: Seq<u16>, port: u16) -> Seq<u16> {
    if ports.contains(port) {
        ports
    } else {
        ports.push(port)
    }
}

/// The request mappings and the ports once the entries `entries[from..]`
/// were taken in, in order, or the reason why the first of them that was
/// refused was refused.
pub open spec fn parse_mappings(
    entries: Seq<Seq<char>>,
    from: int,
    mappings: Seq<RequestMappingView>,
    ports: Seq<u16>,
) -> Result<(Seq<RequestMappingView>, Seq<u16>), ConfigErrorView>
    decreases entries.len() - from,
{
    if from < 0 || from >= entries.len() {
        Ok((mappings, ports))
    } else {
        match parse_mapping(entries[from], from as usize) {
            Err(error) => Err(error),
            Ok((port, mapping)) => parse_mappings(
                entries,
                from + 1,
                mappings.push(mapping),
                add_port(ports, port),
            ),
        }
    }
}

/// The request mappings, in the order given, and the ports they name, each
/// port once, in the order of first mention.
pub open spec fn collected_mappings(cli: CliView) -> Result<
    (Seq<RequestMappingView>, Seq<u16>),
    ConfigErrorView,
> {
    parse_mappings(cli.mappings, 0, Seq::empty(), Seq::empty())
}

/// Taking mappings in never lets a port occur twice.
pub proof fn lemma_ports_distinct(
    entries: Seq<Seq<char>>,
    from: int,
    mappings: Seq<RequestMappingView>,
    ports: Seq<u16>,
)
    requires
        ports.no_duplicates(),
    ensures
        parse_mappings(entries, from, mappings, ports) matches Ok((_, all)) ==> all.no_duplicates(),
    decreases entries.len() - from,
{
    if 0 <= from < entries.len() {
        match parse_mapping(entries[from], from as usize) {
            Err(_) => {},
            Ok((port, mapping)) => {
                lemma_ports_distinct(entries, from + 1, mappings.push(mapping), add_port(ports, port));
            },
        }
    }
}

/// The port that the mapping entry number `i` names, where the entry is
/// one that is taken in.
pub open spec fn entry_port(entries: Seq<Seq<char>>, i: int) -> Option<u16> {
    match parse_mapping(entries[i], i as usize) {
        Ok((port, _)) => Some(port),
        Err(_) => None,
    }
}

/// Whether one of the entries `entries[from..]` names the port `port`.
pub open spec fn names_port(entries: Seq<Seq<char>>, from: int, port: u16) -> bool {
    exists|i: int| from <= i < entries.len() && #[trigger] entry_port(entries, i) == Some(port)
}

/// The ports that come out of taking mappings in are those that were there
/// before and those that the mappings name.
pub proof fn lemma_ports_cover(
    entries: Seq<Seq<char>>,
    from: int,
    mappings: Seq<RequestMappingView>,
    ports: Seq<u16>,
)
    requires
        0 <= from,
    ensures
        parse_mappings(entries, from, mappings, ports) matches Ok((_, all)) ==> forall|port: u16|
            all.contains(port) <==> ports.contains(port) || names_port(entries, from, port),
    decreases entries.len() - from,
{
    if from < entries.len() {
        match parse_mapping(entries[from], from as usize) {
            Err(_) => {},
            Ok((first, mapping)) => {
                let next = add_port(ports, first);
                lemma_ports_cover(entries, from + 1, mappings.push(mapping), next);
                match parse_mappings(entries, from, mappings, ports) {
                    Err(_) => {},
                    Ok((_, all)) => {
                        assert forall|port: u16| all.contains(port) <==> ports.contains(port) || names_port(
                            entries,
                            from,
                            port,
                        ) by {
                            assert(entry_port(entries, from) == Some(first));
                            if next.contains(port) && !ports.contains(port) {
                                let at = choose|at: int| 0 <= at < next.len() && next[at] == port;
                                assert(next == ports.push(first));
                                if at < ports.len() {
                                    assert(ports[at] == port);
                                }
                                assert(port == first);
                            }
                            if ports.contains(port) {
                                let at = choose|at: int| 0 <= at < ports.len() && ports[at] == port;
                                assert(next[at] == port);
                            }
                            if port == first && !ports.contains(first) {
                                assert(next[ports.len() as int] == first);
                            }
                            if names_port(entries, from + 1, port) {
                                let i = choose|i: int|
                                    from + 1 <= i < entries.len() && #[trigger] entry_port(entries, i) == Some(
                                        port,
                                    );
                                assert(from <= i < entries.len() && entry_port(entries, i) == Some(port));
                            }
                            if names_port(entries, from, port) {
                                let i = choose|i: int|
                                    from <= i < entries.len() && #[trigger] entry_port(entries, i) == Some(port);
                                if i > from {
                                    assert(from + 1 <= i < entries.len() && entry_port(entries, i) == Some(
                                        port,
                                    ));
                                }
                            }
                        }
                    },
                }
            },
        }
    } else {
        assert forall|port: u16| !names_port(entries, from, port) by {}
    }
}

/// The ports to listen on are the ports that the mappings name, each once.
pub proof fn law_ports_are_those_of_the_mappings(cli: CliView)
    ensures
        collected_mappings(cli) matches Ok((_, ports)) ==> ports.no_duplicates() && forall|port: u16|
            ports.contains(port) <==> names_port(cli.mappings, 0, port),
{
    lemma_ports_distinct(cli.mappings, 0, Seq::empty(), Seq::empty());
    lemma_ports_cover(cli.mappings, 0, Seq::empty(), Seq::empty());
}

fn apply_all(builders: &mut ClientAuthenticationMappingBuilders, kind: EntryKind, entries: &Vec<String>) -> (res:
    Result<(), ConfigError>)
    ensures
        match res {
            Ok(()) => apply_entries(kind, old(builders)@, texts(entries@), 0) == Ok::<
                Seq<BuilderView>,
                ConfigErrorView,
            >(final(builders)@),
            Err(error) => apply_entries(kind, old(builders)@, texts(entries@), 0) == Err::<
                Seq<BuilderView>,
                ConfigErrorView,
            >(error@),
        },
{
    let ghost start = builders@;
    let ghost all = texts(entries@);
    let mut index: usize = 0;
    while index < entries.len()
        invariant
            index <= entries@.len(),
            all == texts(entries@),
            start == old(builders)@,
            apply_entries(kind, start, all, 0) == apply_entries(kind, builders@, all, index as int),
        decreases entries@.len() - index,
    {
        let field = match kind {
            EntryKind::Client => "client",
            EntryKind::Certificate => "cert",
            EntryKind::Key => "key",
        };
        proof {
            assert(all[index as int] == entries@[index as int]@);
            assert(field@ == field_name(kind));
        }
        let (name, value) = match kv(field, index, &entries[index]) {
            Ok(pair) => pair,
            Err(error) => {
                return Err(error);
            },
        };
        let applied = match kind {
            EntryKind::Client => builders.add_pattern(name, value, index),
            EntryKind::Certificate => builders.add_certificate(name, value, index),
            EntryKind::Key => builders.add_key(name, value, index),
        };
        match applied {
            Ok(()) => {},
            Err(error) => {
                return Err(error);
            },
        }
        index += 1;
    }
    Ok(())
}

/// Reads the key of the mapping number `index`.
pub fn mapping_key(key: &str, index: usize) -> (res: Result<(u16, String), ConfigError>)
    ensures
        match res {
            Ok((port, path)) => parse_mapping_key(key@, index) == Ok::<(u16, Seq<char>), ConfigErrorView>(
                (port, path@),
            ),
            Err(error) => parse_mapping_key(key@, index) == Err::<(u16, Seq<char>), ConfigErrorView>(error@),
        },
{
    let chars = chars_of(key);
    let n = chars.len();
    if n == 0 || chars[0] != ':' {
        return Err(ConfigError::MappingKey { index, key: key.to_owned() });
    }
    let (port_text, path) = match find_from(&chars, '/', 1) {
        Some(slash) => {
            proof {
                lemma_find_char(key@, '/', 1);
            }
            (key.substring_char(1, slash), key.substring_char(slash + 1, n).to_owned())
        },
        None => (key.substring_char(1, n), "*".to_owned()),
    };
    match read_u16(port_text) {
        None => Err(ConfigError::MappingPort { index, port: port_text.to_owned() }),
        Some(port) => Ok((port, path)),
    }
}

/// Reads the mapping entry number `index`.
pub fn request_mapping(entry: &String, index: usize) -> (res: Result<(u16, RequestMapping), ConfigError>)
    ensures
        match res {
            Ok((port, mapping)) => parse_mapping(entry@, index) == Ok::<
                (u16, RequestMappingView),
                ConfigErrorView,
            >((port, mapping@)),
            Err(error) => parse_mapping(entry@, index) == Err::<(u16, RequestMappingView), ConfigErrorView>(
                error@,
            ),
        },
{
    let (key, template) = match kv("mapping", index, entry) {
        Ok(pair) => pair,
        Err(error) => {
            return Err(error);
        },
    };
    let (port, path) = match mapping_key(key.as_str(), index) {
        Ok(pair) => pair,
        Err(error) => {
            return Err(error);
        },
    };
    let mut text = "*://*:".to_owned();
    text.append(decimal_string(port as u128).as_str());
    text.append("/");
    text.append(path.as_str());
    let pattern = match url_pattern(text) {
        Ok(pattern) => pattern,
        Err(PatternError::Compile { pattern }) => {
            return Err(ConfigError::MappingPattern { index, pattern });
        },
        Err(PatternError::Match { pattern, .. }) => {
            return Err(ConfigError::MappingPattern { index, pattern });
        },
    };
    match UrlTemplate::parse(template) {
        Ok(destination_template) => Ok((port, RequestMapping::new(pattern, destination_template))),
        Err(error) => Err(ConfigError::Template(error)),
    }
}

/// The mathematical content of a list of request mappings.
pub open spec fn mappings_view(mappings: Seq<RequestMapping>) -> Seq<RequestMappingView> {
    mappings.map_values(|mapping: RequestMapping| mapping@)
}

/// Whether `error` is an error with which loading `cli` may end, `files`
/// being the files that could be read.
///
/// Entries that are refused are reported in the order client, certificate,
/// key; then the first identity that cannot be built; then the first
/// mapping that is refused.
pub open spec fn is_load_failure(cli: CliView, files: Seq<PemFile>, error: ConfigErrorView) -> bool {
    match collected_builders(cli) {
        Err(expected) => error == expected,
        Ok(builders) => is_first_failure(builders, files, error) || (collected_mappings(cli) == Err::<
            (Seq<RequestMappingView>, Seq<u16>),
            ConfigErrorView,
        >(error) && forall|i: int|
            0 <= i < builders.len() ==> identity_possible(#[trigger] builders[i], files)),
    }
}

/// Whether a router is owed for `cli`: every entry is taken in, and an
/// identity is owed for every builder.
pub open spec fn load_owed(cli: CliView, files: Seq<PemFile>) -> bool {
    &&& collected_builders(cli) matches Ok(builders)
    &&& forall|i: int| 0 <= i < builders.len() ==> identity_owed(#[trigger] builders[i], files)
    &&& collected_mappings(cli) is Ok
}

impl Cli {
    /// The identities in the making that the client, certificate and key
    /// entries describe.
    pub fn identity_builders(&self) -> (res: Result<ClientAuthenticationMappingBuilders, ConfigError>)
        ensures
            match res {
                Ok(builders) => collected_builders(self@) == Ok::<Seq<BuilderView>, ConfigErrorView>(
                    builders@,
                ),
                Err(error) => collected_builders(self@) == Err::<Seq<BuilderView>, ConfigErrorView>(error@),
            },
    {
        let mut builders = ClientAuthenticationMappingBuilders::new();
        match apply_all(&mut builders, EntryKind::Client, &self.client) {
            Ok(()) => {},
            Err(error) => {
                return Err(error);
            },
        }
        match apply_all(&mut builders, EntryKind::Certificate, &self.cert) {
            Ok(()) => {},
            Err(error) => {
                return Err(error);
            },
        }
        match apply_all(&mut builders, EntryKind::Key, &self.key) {
            Ok(()) => {},
            Err(error) => {
                return Err(error);
            },
        }
        Ok(builders)
    }

    /// The request mappings, in the order given, and the ports to listen
    /// on: the ports that the mappings name, each once.
    pub fn request_mappings(&self) -> (res: Result<(Vec<RequestMapping>, Vec<u16>), ConfigError>)
        ensures
            match res {
                Ok((mappings, ports)) => collected_mappings(self@) == Ok::<
                    (Seq<RequestMappingView>, Seq<u16>),
                    ConfigErrorView,
                >((mappings_view(mappings@), ports@)) && ports@.no_duplicates(),
                Err(error) => collected_mappings(self@) == Err::<
                    (Seq<RequestMappingView>, Seq<u16>),
                    ConfigErrorView,
                >(error@),
            },
    {
        let ghost all = self@.mappings;
        let mut mappings: Vec<RequestMapping> = Vec::new();
        let mut ports: Vec<u16> = Vec::new();
        let mut listed: HashSet<u16> = HashSet::new();
        proof {
            assert(mappings_view(mappings@) =~= Seq::<RequestMappingView>::empty());
            assert(ports@ =~= Seq::<u16>::empty());
            lemma_ports_distinct(all, 0, Seq::empty(), Seq::empty());
            assert(all[0] == self.mapping1@);
        }
        let (first_port, first) = match request_mapping(&self.mapping1, 0) {
            Ok(pair) => pair,
            Err(error) => {
                return Err(error);
            },
        };
        listed.insert(first_port);
        ports.push(first_port);
        mappings.push(first);
        proof {
            assert(mappings_view(mappings@) =~= Seq::<RequestMappingView>::empty().push(first@));
            assert(ports@ =~= add_port(Seq::<u16>::empty(), first_port));
            assert(ports@[0] == first_port);
            assert(listed@ =~= ports@.to_set());
        }
        let mut i: usize = 0;
        while i < self.mapping.len()
            invariant
                all == self@.mappings,
                i <= self.mapping@.len(),
                listed@ == ports@.to_set(),
                collected_mappings(self@) == parse_mappings(all, i + 1, mappings_view(mappings@), ports@),
            decreases self.mapping@.len() - i,
        {
            let ghost seen = mappings_view(mappings@);
            assert(all[i + 1] == self.mapping@[i as int]@);
            let (port, mapping) = match request_mapping(&self.mapping[i], i + 1) {
                Ok(pair) => pair,
                Err(error) => {
                    return Err(error);
                },
            };
            let ghost known = ports@;
            if listed.insert(port) {
                ports.push(port);
                assert(listed@ =~= ports@.to_set()) by {
                    assert forall|other: u16| ports@.contains(other) <==> known.contains(other) || other
                        == port by {
                        if known.contains(other) {
                            let at = choose|at: int| 0 <= at < known.len() && known[at] == other;
                            assert(ports@[at] == other);
                        }
                        if other == port {
                            assert(ports@[known.len() as int] == other);
                        }
                    }
                }
            } else {
                assert(listed@ =~= ports@.to_set());
            }
            mappings.push(mapping);
            proof {
                assert(mappings_view(mappings@) =~= seen.push(mapping@));
            }
            i += 1;
        }
        Ok((mappings, ports))
    }

    /// Builds the router and the list of ports to listen on.
    ///
    /// `files` holds the files read so far. Where the load comes to want a
    /// file that is not among them, it ends with the error that names the
    /// file ([`ConfigError::wanted_file`]); the caller reads it and loads
    /// again. That way no file is read that the load does not come to.
    ///
    /// The identities of the router stand in the order in which the client
    /// entries first mention them, its mappings in the order given.
    ///
    /// The load succeeds where every entry is taken in and an identity is
    /// owed for every builder, and fails where an entry is refused or an
    /// identity is not possible. In between stands the identity with an
    /// ECDSA key, which the TLS library loads unless the system fails to
    /// supply random bytes.
    pub fn router_and_ports(&self, files: &Vec<PemFile>) -> (res: Result<(Router, Vec<u16>), ConfigError>)
        ensures
            match res {
                Ok((router, ports)) => {
                    &&& collected_builders(self@) matches Ok(builders)
                    &&& forall|i: int|
                        0 <= i < builders.len() ==> identity_possible(#[trigger] builders[i], files@)
                    &&& router@.identities == builders.map_values(|builder: BuilderView| identity_of(builder))
                    &&& collected_mappings(self@) == Ok::<
                        (Seq<RequestMappingView>, Seq<u16>),
                        ConfigErrorView,
                    >((router@.mappings, ports@))
                    &&& ports@.no_duplicates()
                },
                Err(error) => is_load_failure(self@, files@, error@),
            },
            load_owed(self@, files@) ==> res is Ok,
    {
        let builders = match self.identity_builders() {
            Ok(builders) => builders,
            Err(error) => {
                return Err(error);
            },
        };
        let ghost described = builders@;
        let identities = match builders.build(files) {
            Ok(identities) => identities,
            Err(error) => {
                return Err(error);
            },
        };
        let (mappings, ports) = match self.request_mappings() {
            Ok(pair) => pair,
            Err(error) => {
                return Err(error);
            },
        };
        let router = Router::new(identities, mappings);
        proof {
            assert(router@.identities =~= described.map_values(|builder: BuilderView| identity_of(builder)));
        }
        Ok((router, ports))
    }
}

} // verus!
