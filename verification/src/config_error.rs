//! The ways in which a configuration can be refused.

use vstd::prelude::*;
use crate::mapping::{IdentityError, IdentityErrorView, identity_error_text};
use crate::tls::{CredentialError, CredentialErrorView};
use crate::template::{TemplateError, TemplateFault, template_error_text};
use crate::text::{decimal, decimal_string};

verus! {

/// Why a configuration was refused. An `index` counts the entries of its
/// kind from zero; the text of the error counts them from one.
#[derive(Debug)]
pub enum ConfigError {
    /// An entry is not of the form `<key>=<value>`.
    InvalidKeyValue { field: String, index: usize, value: String },
    /// The URL pattern of a client entry does not compile.
    ClientPattern { index: usize, pattern: String },
    /// A certificate names an identity that no client entry introduced.
    UnknownClientForCertificate { name: String, filename: String },
    /// A key names an identity that no client entry introduced.
    UnknownClientForKey { name: String, filename: String },
    /// An identity was given a second certificate.
    DuplicateCertificate { name: String },
    /// An identity was given a second key.
    DuplicateKey { name: String },
    /// An identity was given no certificate.
    MissingCertificate { name: String },
    /// An identity was given no key.
    MissingKey { name: String },
    /// An identity could not be built.
    Identity(IdentityError),
    /// The key of a mapping does not begin with a colon.
    MappingKey { index: usize, key: String },
    /// The port of a mapping is no 16-bit number.
    MappingPort { index: usize, port: String },
    /// The URL pattern of a mapping does not compile.
    MappingPattern { index: usize, pattern: String },
    /// The destination template of a mapping does not parse.
    Template(TemplateError),
}

/// The mathematical content of a [`ConfigError`].
pub enum ConfigErrorView {
    InvalidKeyValue { field: Seq<char>, index: usize, value: Seq<char> },
    ClientPattern { index: usize, pattern: Seq<char> },
    UnknownClientForCertificate { name: Seq<char>, filename: Seq<char> },
    UnknownClientForKey { name: Seq<char>, filename: Seq<char> },
    DuplicateCertificate { name: Seq<char> },
    DuplicateKey { name: Seq<char> },
    MissingCertificate { name: Seq<char> },
    MissingKey { name: Seq<char> },
    Identity(IdentityErrorView),
    MappingKey { index: usize, key: Seq<char> },
    MappingPort { index: usize, port: Seq<char> },
    MappingPattern { index: usize, pattern: Seq<char> },
    Template { template: Seq<char>, fault: TemplateFault },
}

impl View for ConfigError {
    type V = ConfigErrorView;

    open spec fn view(&self) -> ConfigErrorView {
        match self {
            ConfigError::InvalidKeyValue { field, index, value } => ConfigErrorView::InvalidKeyValue {
                field: field@,
                index: *index,
                value: value@,
            },
            ConfigError::ClientPattern { index, pattern } => ConfigErrorView::ClientPattern {
                index: *index,
                pattern: pattern@,
            },
            ConfigError::UnknownClientForCertificate { name, filename } => ConfigErrorView::UnknownClientForCertificate {
                name: name@,
                filename: filename@,
            },
            ConfigError::UnknownClientForKey { name, filename } => ConfigErrorView::UnknownClientForKey {
                name: name@,
                filename: filename@,
            },
            ConfigError::DuplicateCertificate { name } => ConfigErrorView::DuplicateCertificate { name: name@ },
            ConfigError::DuplicateKey { name } => ConfigErrorView::DuplicateKey { name: name@ },
            ConfigError::MissingCertificate { name } => ConfigErrorView::MissingCertificate { name: name@ },
            ConfigError::MissingKey { name } => ConfigErrorView::MissingKey { name: name@ },
            ConfigError::Identity(error) => ConfigErrorView::Identity(error@),
            ConfigError::MappingKey { index, key } => ConfigErrorView::MappingKey { index: *index, key: key@ },
            ConfigError::MappingPort { index, port } => ConfigErrorView::MappingPort {
                index: *index,
                port: port@,
            },
            ConfigError::MappingPattern { index, pattern } => ConfigErrorView::MappingPattern {
                index: *index,
                pattern: pattern@,
            },
            ConfigError::Template(error) => ConfigErrorView::Template {
                template: error.template@,
                fault: error.fault,
            },
        }
    }
}

/// A file that is to be read, and the identity that it is read for.
#[derive(Debug)]
pub struct FileRequest {
    pub identity: String,
    pub filename: String,
}

/// The mathematical content of an optional [`FileRequest`].
pub open spec fn request_view(request: Option<FileRequest>) -> Option<(Seq<char>, Seq<char>)> {
    match request {
        Some(request) => Some((request.identity@, request.filename@)),
        None => None,
    }
}

/// The identity and the file that an error names, where the error says that
/// a file of an identity was not among the files read.
pub open spec fn wanted_file(error: ConfigErrorView) -> Option<(Seq<char>, Seq<char>)> {
    match error {
        ConfigErrorView::Identity(
            IdentityErrorView::Credential { name, error: CredentialErrorView::Unreadable { filename } },
        ) => Some((name, filename)),
        _ => None,
    }
}

/// The number of an entry as the text of an error gives it.
pub open spec fn ordinal(index: usize) -> Seq<char> {
    decimal((index + 1) as nat)
}

/// The text of a configuration error.
pub open spec fn config_error_text(error: ConfigErrorView) -> Seq<char> {
    match error {
        ConfigErrorView::InvalidKeyValue { field, index, value } => "Invalid key value pair '"@ + value
            + "' when reading "@ + field + "#"@ + ordinal(index),
        ConfigErrorView::ClientPattern { index, pattern } => "Could not parse url pattern on client#"@ + ordinal(
            index,
        ) + ": "@ + pattern,
        ConfigErrorView::UnknownClientForCertificate { name, filename } => "Could not find client authentication mapping '"@
            + name + "' when adding certificate '"@ + filename + "'"@,
        ConfigErrorView::UnknownClientForKey { name, filename } => "Could not find client authentication mapping '"@
            + name + "' when adding key '"@ + filename + "'"@,
        ConfigErrorView::DuplicateCertificate { name } => "Client authentication mapping '"@ + name
            + "' already has a certificate defined"@,
        ConfigErrorView::DuplicateKey { name } => "Client authentication mapping '"@ + name
            + "' already has a key defined"@,
        ConfigErrorView::MissingCertificate { name } => "No certificate file defined for client authentication mapping '"@
            + name + "'"@,
        ConfigErrorView::MissingKey { name } => "No key file defined for client authentication mapping '"@
            + name + "'"@,
        ConfigErrorView::Identity(error) => identity_error_text(error),
        ConfigErrorView::MappingKey { index, key } => "Mapping key '"@ + key
            + "' does not start with a colon on mapping#"@ + ordinal(index),
        ConfigErrorView::MappingPort { index, port } => "Invalid port '"@ + port + "' on mapping#"@
            + ordinal(index),
        ConfigErrorView::MappingPattern { index, pattern } => "Could not parse url pattern on mapping#"@ + ordinal(
            index,
        ) + ": "@ + pattern,
        ConfigErrorView::Template { template, fault } => template_error_text(template, fault),
    }
}

/// `<head><a><middle><b><tail>`.
fn join5(head: &str, a: &str, middle: &str, b: &str, tail: &str) -> (res: String)
    ensures
        res@ == head@ + a@ + middle@ + b@ + tail@,
{
    let mut res = head.to_owned();
    res.append(a);
    res.append(middle);
    res.append(b);
    res.append(tail);
    res
}

fn ordinal_string(index: usize) -> (res: String)
    ensures
        res@ == ordinal(index),
{
    decimal_string(index as u128 + 1)
}

impl ConfigError {
    /// The file for want of which the load ended, and the identity that it
    /// is read for; `None` where the load ended for another reason.
    pub fn wanted_file(&self) -> (res: Option<FileRequest>)
        ensures
            request_view(res) == wanted_file(self@),
    {
        match self {
            ConfigError::Identity(
                IdentityError::Credential { name, error: CredentialError::Unreadable { filename } },
            ) => Some(FileRequest { identity: name.clone(), filename: filename.clone() }),
            _ => None,
        }
    }

    /// A description of the error, naming the entry or the identity concerned.
    pub fn message(&self) -> (res: String)
        ensures
            res@ == config_error_text(self@),
    {
        proof {
            reveal_strlit("");
            assert(""@ =~= Seq::<char>::empty());
        }
        let res = match self {
            ConfigError::InvalidKeyValue { field, index, value } => {
                let mut res = join5(
                    "Invalid key value pair '",
                    value.as_str(),
                    "' when reading ",
                    field.as_str(),
                    "#",
                );
                res.append(ordinal_string(*index).as_str());
                res
            },
            ConfigError::ClientPattern { index, pattern } => join5(
                "Could not parse url pattern on client#",
                ordinal_string(*index).as_str(),
                ": ",
                pattern.as_str(),
                "",
            ),
            ConfigError::UnknownClientForCertificate { name, filename } => join5(
                "Could not find client authentication mapping '",
                name.as_str(),
                "' when adding certificate '",
                filename.as_str(),
                "'",
            ),
            ConfigError::UnknownClientForKey { name, filename } => join5(
                "Could not find client authentication mapping '",
                name.as_str(),
                "' when adding key '",
                filename.as_str(),
                "'",
            ),
            ConfigError::DuplicateCertificate { name } => join5(
                "Client authentication mapping '",
                name.as_str(),
                "' already has a certificate defined",
                "",
                "",
            ),
            ConfigError::DuplicateKey { name } => join5(
                "Client authentication mapping '",
                name.as_str(),
                "' already has a key defined",
                "",
                "",
            ),
            ConfigError::MissingCertificate { name } => join5(
                "No certificate file defined for client authentication mapping '",
                name.as_str(),
                "'",
                "",
                "",
            ),
            ConfigError::MissingKey { name } => join5(
                "No key file defined for client authentication mapping '",
                name.as_str(),
                "'",
                "",
                "",
            ),
            ConfigError::Identity(error) => error.message(),
            ConfigError::MappingKey { index, key } => join5(
                "Mapping key '",
                key.as_str(),
                "' does not start with a colon on mapping#",
                ordinal_string(*index).as_str(),
                "",
            ),
            ConfigError::MappingPort { index, port } => join5(
                "Invalid port '",
                port.as_str(),
                "' on mapping#",
                ordinal_string(*index).as_str(),
                "",
            ),
            ConfigError::MappingPattern { index, pattern } => join5(
                "Could not parse url pattern on mapping#",
                ordinal_string(*index).as_str(),
                ": ",
                pattern.as_str(),
                "",
            ),
            ConfigError::Template(error) => error.message(),
        };
        assert(res@ =~= config_error_text(self@));
        res
    }
}

} // verus!
