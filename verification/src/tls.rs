//! Client credentials: a certificate chain and a private key read from PEM
//! text, and the TLS client configuration built from them.

use std::sync::Arc;
use vstd::prelude::*;

verus! {

#[verifier::external_type_specification]
#[verifier::external_body]
pub struct ExClientConfig(rustls::ClientConfig);

#[verifier::external_type_specification]
#[verifier::external_body]
pub struct ExTlsFailure(rustls::Error);

#[verifier::external_type_specification]
#[verifier::external_body]
pub struct ExIoFailure(std::io::Error);

/// The contents of a file, under the name it was read from.
///
/// This module reads no file itself. Its caller reads the files that the
/// configuration names and hands them over as a list; a file that is not in
/// the list counts as unreadable.
#[derive(Debug)]
pub struct PemFile {
    pub name: String,
    pub contents: Vec<u8>,
}

/// The contents of the first file of `files` that is named `name`.
pub open spec fn file_contents(files: Seq<PemFile>, name: Seq<char>) -> Option<Seq<u8>>
    decreases files.len(),
{
    if files.len() == 0 {
        None
    } else if files[0].name@ == name {
        Some(files[0].contents@)
    } else {
        file_contents(files.skip(1), name)
    }
}

/// Looks a file up by its name.
pub fn find_file<'a>(files: &'a Vec<PemFile>, name: &str) -> (res: Option<&'a PemFile>)
    ensures
        match res {
            Some(file) => file_contents(files@, name@) == Some(file.contents@) && file.name@ == name@,
            None => file_contents(files@, name@) is None,
        },
{
    let wanted: String = name.to_owned();
    let mut i: usize = 0;
    proof {
        assert(files@.skip(0) =~= files@);
    }
    while i < files.len()
        invariant
            i <= files@.len(),
            wanted@ == name@,
            file_contents(files@, name@) == file_contents(files@.skip(i as int), name@),
        decreases files@.len() - i,
    {
        proof {
            assert(files@.skip(i as int)[0] == files@[i as int]);
            assert(files@.skip(i as int).skip(1) =~= files@.skip(i + 1));
        }
        if files[i].name == wanted {
            return Some(&files[i]);
        }
        i += 1;
    }
    None
}

/// A DER-encoded private key in one of the three encodings that are accepted.
#[derive(Debug)]
pub enum PrivateKey {
    Pkcs1(Vec<u8>),
    Pkcs8(Vec<u8>),
    Sec1(Vec<u8>),
}

/// The mathematical content of a [`PrivateKey`].
pub enum PrivateKeyView {
    Pkcs1(Seq<u8>),
    Pkcs8(Seq<u8>),
    Sec1(Seq<u8>),
}

impl View for PrivateKey {
    type V = PrivateKeyView;

    open spec fn view(&self) -> PrivateKeyView {
        match self {
            PrivateKey::Pkcs1(der) => PrivateKeyView::Pkcs1(der@),
            PrivateKey::Pkcs8(der) => PrivateKeyView::Pkcs8(der@),
            PrivateKey::Sec1(der) => PrivateKeyView::Sec1(der@),
        }
    }
}

/// One section of a PEM text, as far as the search for a key tells sections
/// apart.
#[derive(Debug)]
pub enum PemItem {
    Pkcs1Key(Vec<u8>),
    Pkcs8Key(Vec<u8>),
    Sec1Key(Vec<u8>),
    /// A certificate, a revocation list or any other section that is no
    /// private key.
    Other,
}

/// The mathematical content of a [`PemItem`].
pub enum PemItemView {
    Pkcs1Key(Seq<u8>),
    Pkcs8Key(Seq<u8>),
    Sec1Key(Seq<u8>),
    Other,
}

impl View for PemItem {
    type V = PemItemView;

    open spec fn view(&self) -> PemItemView {
        match self {
            PemItem::Pkcs1Key(der) => PemItemView::Pkcs1Key(der@),
            PemItem::Pkcs8Key(der) => PemItemView::Pkcs8Key(der@),
            PemItem::Sec1Key(der) => PemItemView::Sec1Key(der@),
            PemItem::Other => PemItemView::Other,
        }
    }
}

/// What `rustls_pemfile::read_one` finds at the front of a PEM text: the
/// next section that it recognises, which is a private key with its DER
/// contents or a section of another kind, and the text behind that section;
/// `Some(None)` where there is no further section, and `None` where it
/// reports an error.
pub uninterp spec fn pem_next(input: Seq<u8>) -> Option<Option<(PemItemView, Seq<u8>)>>;

/// What `rustls_pemfile::certs` yields for a PEM text: the DER contents of
/// its certificate sections in the order of the text, or `None` where it
/// reports an error.
pub uninterp spec fn pem_certificates(input: Seq<u8>) -> Option<Seq<Seq<u8>>>;

/// Calls `rustls_pemfile::read_one` on the bytes of `input` and returns the
/// section it found together with the bytes it left unread. The contract
/// names the outcome (`pem_next`) and adds that a section, once read, leaves
/// fewer bytes than there were.
#[verifier::external_body]
fn next_item(input: &[u8]) -> (res: Result<Option<(PemItem, &[u8])>, std::io::Error>)
    ensures
        match res {
            Ok(Some((item, rest))) => pem_next(input@) == Some(Some((item@, rest@))) && rest@.len()
                < input@.len(),
            Ok(None) => pem_next(input@) == Some(None::<(PemItemView, Seq<u8>)>),
            Err(_) => pem_next(input@) is None,
        },
{
    let mut rest = input;
    let item = match rustls_pemfile::read_one(&mut rest)? {
        None => return Ok(None),
        Some(rustls_pemfile::Item::Pkcs1Key(der)) => PemItem::Pkcs1Key(der.secret_pkcs1_der().to_vec()),
        Some(rustls_pemfile::Item::Pkcs8Key(der)) => PemItem::Pkcs8Key(der.secret_pkcs8_der().to_vec()),
        Some(rustls_pemfile::Item::Sec1Key(der)) => PemItem::Sec1Key(der.secret_sec1_der().to_vec()),
        Some(_) => PemItem::Other,
    };
    Ok(Some((item, rest)))
}

/// Calls `rustls_pemfile::certs` on the bytes of `input` and collects what
/// it yields. The contract names the outcome (`pem_certificates`) and claims
/// nothing more.
#[verifier::external_body]
fn read_certificates(input: &[u8]) -> (res: Result<Vec<Vec<u8>>, std::io::Error>)
    ensures
        match res {
            Ok(chain) => pem_certificates(input@) == Some(chain.deep_view()),
            Err(_) => pem_certificates(input@) is None,
        },
{
    let mut rest = input;
    rustls_pemfile::certs(&mut rest).map(|cert| cert.map(|der| der.to_vec())).collect()
}

/// What the TLS library makes of a private key, as far as the key alone
/// decides.
pub enum KeyLoading {
    /// The key is read as none of the kinds that the library signs with.
    Refused,
    /// The key is read as an RSA or an Ed25519 key. Nothing but the key is
    /// needed to load it.
    Loads,
    /// The key is read as an ECDSA key. To load it the library draws on the
    /// random source of the system, and refuses the key where that fails.
    LoadsWithRandomness,
}

/// What `rustls`, signing with `ring`, makes of the key that
/// `with_client_auth_cert` is handed: it tries the key as an RSA key, then as
/// an ECDSA key on P-256 and on P-384, then as an Ed25519 key, and takes
/// the first that works.
pub uninterp spec fn key_loading(key: PrivateKeyView) -> KeyLoading;

/// Builds a `rustls::ClientConfig` that trusts the `webpki_roots` anchors
/// and authenticates with the given chain and key
/// (`with_root_certificates`, `with_client_auth_cert`).
///
/// The call fails exactly where the key cannot be loaded; the chain is
/// taken as it is. The contract says so for the keys whose loading the key
/// alone decides (`key_loading`). For an ECDSA key it says nothing: loading
/// one draws on the random source of the system. Of the configuration
/// itself nothing is claimed.
#[verifier::external_body]
fn build_config(chain: Vec<Vec<u8>>, key: PrivateKey) -> (res: Result<Arc<rustls::ClientConfig>, rustls::Error>)
    ensures
        key_loading(key@) is Refused ==> res is Err,
        key_loading(key@) is Loads ==> res is Ok,
{
    let mut roots = rustls::RootCertStore::empty();
    roots.extend(webpki_roots::TLS_SERVER_ROOTS.iter().cloned());
    let chain = chain.into_iter().map(rustls_pki_types::CertificateDer::from).collect();
    let key = match key {
        PrivateKey::Pkcs1(der) => rustls_pki_types::PrivateKeyDer::Pkcs1(der.into()),
        PrivateKey::Pkcs8(der) => rustls_pki_types::PrivateKeyDer::Pkcs8(der.into()),
        PrivateKey::Sec1(der) => rustls_pki_types::PrivateKeyDer::Sec1(der.into()),
    };
    let builder = rustls::ClientConfig::builder().with_root_certificates(roots);
    Ok(Arc::new(builder.with_client_auth_cert(chain, key)?))
}

/// Calls `Arc::clone`: the result points to the configuration that `config`
/// points to.
#[verifier::external_body]
pub(crate) fn share_config(config: &Arc<rustls::ClientConfig>) -> (res: Arc<rustls::ClientConfig>)
    ensures
        res == *config,
{
    Arc::clone(config)
}

/// Why a client credential could not be loaded.
#[derive(Debug)]
pub enum CredentialError {
    /// The file could not be read.
    Unreadable { filename: String },
    /// The certificate file is not well-formed PEM.
    CannotParseCertificates { filename: String },
    /// The key file is not well-formed PEM.
    CannotParseKey { filename: String },
    /// The key file holds no private key.
    NoKeys { filename: String },
    /// The TLS library refused the chain or the key.
    Rejected { certificate_filename: String, key_filename: String },
}

/// The mathematical content of a [`CredentialError`].
pub enum CredentialErrorView {
    Unreadable { filename: Seq<char> },
    CannotParseCertificates { filename: Seq<char> },
    CannotParseKey { filename: Seq<char> },
    NoKeys { filename: Seq<char> },
    Rejected { certificate_filename: Seq<char>, key_filename: Seq<char> },
}

impl View for CredentialError {
    type V = CredentialErrorView;

    open spec fn view(&self) -> CredentialErrorView {
        match self {
            CredentialError::Unreadable { filename } => CredentialErrorView::Unreadable { filename: filename@ },
            CredentialError::CannotParseCertificates { filename } => CredentialErrorView::CannotParseCertificates {
                filename: filename@,
            },
            CredentialError::CannotParseKey { filename } => CredentialErrorView::CannotParseKey {
                filename: filename@,
            },
            CredentialError::NoKeys { filename } => CredentialErrorView::NoKeys { filename: filename@ },
            CredentialError::Rejected { certificate_filename, key_filename } => CredentialErrorView::Rejected {
                certificate_filename: certificate_filename@,
                key_filename: key_filename@,
            },
        }
    }
}

/// The text of a credential error.
pub open spec fn credential_error_text(error: CredentialErrorView) -> Seq<char> {
    match error {
        CredentialErrorView::Unreadable { filename } => "cannot read file "@ + filename,
        CredentialErrorView::CannotParseCertificates { filename } => "cannot parse certificate file "@
            + filename,
        CredentialErrorView::CannotParseKey { filename } => "cannot parse private key file"@,
        CredentialErrorView::NoKeys { filename } => "no keys found in "@ + filename + " file"@,
        CredentialErrorView::Rejected { certificate_filename, key_filename } => "cannot use certificate "@
            + certificate_filename + " with key "@ + key_filename,
    }
}

impl CredentialError {
    /// A description of the error, naming the file concerned.
    pub fn message(&self) -> (res: String)
        ensures
            res@ == credential_error_text(self@),
    {
        match self {
            CredentialError::Unreadable { filename } => {
                let mut res = "cannot read file ".to_owned();
                res.append(filename.as_str());
                res
            },
            CredentialError::CannotParseCertificates { filename } => {
                let mut res = "cannot parse certificate file ".to_owned();
                res.append(filename.as_str());
                res
            },
            CredentialError::CannotParseKey { .. } => "cannot parse private key file".to_owned(),
            CredentialError::NoKeys { filename } => {
                let mut res = "no keys found in ".to_owned();
                res.append(filename.as_str());
                res.append(" file");
                res
            },
            CredentialError::Rejected { certificate_filename, key_filename } => {
                let mut res = "cannot use certificate ".to_owned();
                res.append(certificate_filename.as_str());
                res.append(" with key ");
                res.append(key_filename.as_str());
                res
            },
        }
    }
}

/// Why a search for a private key ended without one.
#[derive(Debug)]
pub enum KeySearchFailure {
    /// The text is not well-formed PEM.
    CannotParse,
    /// The text has no section that holds a private key.
    NoKeys,
}

/// The first private key of a PEM text: sections that are no private keys
/// are passed over, a malformed section ends the search.
///
/// A section that was read leaves fewer bytes than there were; the
/// comparison of lengths says so to make the definition well-founded, and
/// its other branch is never taken.
pub open spec fn first_key(input: Seq<u8>) -> Result<PrivateKeyView, KeySearchFailure>
    decreases input.len(),
{
    match pem_next(input) {
        None => Err(KeySearchFailure::CannotParse),
        Some(None) => Err(KeySearchFailure::NoKeys),
        Some(Some((item, rest))) => match item {
            PemItemView::Pkcs1Key(der) => Ok(PrivateKeyView::Pkcs1(der)),
            PemItemView::Pkcs8Key(der) => Ok(PrivateKeyView::Pkcs8(der)),
            PemItemView::Sec1Key(der) => Ok(PrivateKeyView::Sec1(der)),
            PemItemView::Other => if rest.len() < input.len() {
                first_key(rest)
            } else {
                Err(KeySearchFailure::NoKeys)
            },
        },
    }
}

/// What [`load_key`] returns for the file `filename` of `files`.
pub open spec fn key_outcome(files: Seq<PemFile>, filename: Seq<char>) -> Result<
    PrivateKeyView,
    CredentialErrorView,
> {
    match file_contents(files, filename) {
        None => Err(CredentialErrorView::Unreadable { filename }),
        Some(input) => match first_key(input) {
            Ok(key) => Ok(key),
            Err(KeySearchFailure::CannotParse) => Err(CredentialErrorView::CannotParseKey { filename }),
            Err(KeySearchFailure::NoKeys) => Err(CredentialErrorView::NoKeys { filename }),
        },
    }
}

/// What [`load_certs`] returns for the file `filename` of `files`.
pub open spec fn certs_outcome(files: Seq<PemFile>, filename: Seq<char>) -> Result<
    Seq<Seq<u8>>,
    CredentialErrorView,
> {
    match file_contents(files, filename) {
        None => Err(CredentialErrorView::Unreadable { filename }),
        Some(input) => match pem_certificates(input) {
            Some(chain) => Ok(chain),
            None => Err(CredentialErrorView::CannotParseCertificates { filename }),
        },
    }
}

/// The mathematical content of what [`load_key`] returns.
pub open spec fn key_view(res: Result<PrivateKey, CredentialError>) -> Result<
    PrivateKeyView,
    CredentialErrorView,
> {
    match res {
        Ok(key) => Ok(key@),
        Err(error) => Err(error@),
    }
}

/// The mathematical content of what [`load_certs`] returns.
pub open spec fn certs_view(res: Result<Vec<Vec<u8>>, CredentialError>) -> Result<
    Seq<Seq<u8>>,
    CredentialErrorView,
> {
    match res {
        Ok(chain) => Ok(chain.deep_view()),
        Err(error) => Err(error@),
    }
}

/// Collects the certificates of the PEM file `filename`, in file order.
pub fn load_certs(filename: &str, files: &Vec<PemFile>) -> (res: Result<Vec<Vec<u8>>, CredentialError>)
    ensures
        certs_view(res) == certs_outcome(files@, filename@),
{
    match find_file(files, filename) {
        None => Err(CredentialError::Unreadable { filename: filename.to_owned() }),
        Some(file) => match read_certificates(file.contents.as_slice()) {
            Ok(chain) => Ok(chain),
            Err(_) => Err(CredentialError::CannotParseCertificates { filename: filename.to_owned() }),
        },
    }
}

/// The first private key among the sections of `contents`.
pub fn scan_key(contents: &[u8]) -> (res: Result<PrivateKey, KeySearchFailure>)
    ensures
        match res {
            Ok(key) => first_key(contents@) == Ok::<PrivateKeyView, KeySearchFailure>(key@),
            Err(failure) => first_key(contents@) == Err::<PrivateKeyView, KeySearchFailure>(failure),
        },
{
    let mut input: &[u8] = contents;
    loop
        invariant
            first_key(input@) == first_key(contents@),
        decreases input@.len(),
    {
        match next_item(input) {
            Err(_) => {
                return Err(KeySearchFailure::CannotParse);
            },
            Ok(None) => {
                return Err(KeySearchFailure::NoKeys);
            },
            Ok(Some((item, rest))) => match item {
                PemItem::Pkcs1Key(der) => {
                    return Ok(PrivateKey::Pkcs1(der));
                },
                PemItem::Pkcs8Key(der) => {
                    return Ok(PrivateKey::Pkcs8(der));
                },
                PemItem::Sec1Key(der) => {
                    return Ok(PrivateKey::Sec1(der));
                },
                PemItem::Other => {
                    input = rest;
                },
            },
        }
    }
}

/// Finds the first private key of the PEM file `filename`.
///
/// Sections are read in file order. The first that holds a PKCS#1, PKCS#8
/// or SEC1 private key is the result; certificates, revocation lists and
/// other sections are passed over.
pub fn load_key(filename: &str, files: &Vec<PemFile>) -> (res: Result<PrivateKey, CredentialError>)
    ensures
        key_view(res) == key_outcome(files@, filename@),
{
    match find_file(files, filename) {
        None => Err(CredentialError::Unreadable { filename: filename.to_owned() }),
        Some(file) => match scan_key(file.contents.as_slice()) {
            Ok(key) => Ok(key),
            Err(KeySearchFailure::CannotParse) => Err(
                CredentialError::CannotParseKey { filename: filename.to_owned() },
            ),
            Err(KeySearchFailure::NoKeys) => Err(CredentialError::NoKeys { filename: filename.to_owned() }),
        },
    }
}

/// The certificate chain and the private key of a credential, or the
/// reason why they cannot be had: that of the certificate file first, then
/// that of the key file.
pub open spec fn credential_outcome(
    files: Seq<PemFile>,
    certificate_filename: Seq<char>,
    key_filename: Seq<char>,
) -> Result<(Seq<Seq<u8>>, PrivateKeyView), CredentialErrorView> {
    match certs_outcome(files, certificate_filename) {
        Err(error) => Err(error),
        Ok(chain) => match key_outcome(files, key_filename) {
            Err(error) => Err(error),
            Ok(key) => Ok((chain, key)),
        },
    }
}

/// The error that [`create_config`] reports where it reports one: that of
/// the files where they cannot be read, and the refusal of the TLS library
/// where they can.
pub open spec fn config_failure(
    files: Seq<PemFile>,
    certificate_filename: Seq<char>,
    key_filename: Seq<char>,
) -> CredentialErrorView {
    match credential_outcome(files, certificate_filename, key_filename) {
        Err(error) => error,
        Ok(_) => CredentialErrorView::Rejected { certificate_filename, key_filename },
    }
}

/// Whether a configuration can come of a credential: both files can be
/// read, and the TLS library does not refuse the key out of hand.
pub open spec fn credential_possible(
    files: Seq<PemFile>,
    certificate_filename: Seq<char>,
    key_filename: Seq<char>,
) -> bool {
    credential_outcome(files, certificate_filename, key_filename) matches Ok(found) && !(key_loading(
        found.1,
    ) is Refused)
}

/// Whether a configuration is owed for a credential: both files can be
/// read, and the key is one that the TLS library loads whatever the state
/// of the system.
pub open spec fn credential_usable(
    files: Seq<PemFile>,
    certificate_filename: Seq<char>,
    key_filename: Seq<char>,
) -> bool {
    credential_outcome(files, certificate_filename, key_filename) matches Ok(found) && key_loading(
        found.1,
    ) is Loads
}

/// Reads the certificate chain and the private key of a credential. The
/// certificates are read first, then the key, and the first failure is the
/// one reported.
pub fn load_credential(certificate_filename: &str, key_filename: &str, files: &Vec<PemFile>) -> (res: Result<
    (Vec<Vec<u8>>, PrivateKey),
    CredentialError,
>)
    ensures
        match res {
            Ok((chain, key)) => credential_outcome(files@, certificate_filename@, key_filename@) == Ok::<
                (Seq<Seq<u8>>, PrivateKeyView),
                CredentialErrorView,
            >((chain.deep_view(), key@)),
            Err(error) => credential_outcome(files@, certificate_filename@, key_filename@) == Err::<
                (Seq<Seq<u8>>, PrivateKeyView),
                CredentialErrorView,
            >(error@),
        },
{
    let chain = match load_certs(certificate_filename, files) {
        Ok(chain) => chain,
        Err(error) => {
            return Err(error);
        },
    };
    match load_key(key_filename, files) {
        Ok(key) => Ok((chain, key)),
        Err(error) => Err(error),
    }
}

/// What building a configuration comes to, given what the TLS library
/// returned for the chain and the key of the two files: its configuration,
/// or the error that names the two files.
pub fn config_result(
    built: Result<Arc<rustls::ClientConfig>, rustls::Error>,
    certificate_filename: &str,
    key_filename: &str,
) -> (res: Result<Arc<rustls::ClientConfig>, CredentialError>)
    ensures
        match built {
            Ok(config) => res matches Ok(same) && same == config,
            Err(_) => res matches Err(error) && error@ == (CredentialErrorView::Rejected {
                certificate_filename: certificate_filename@,
                key_filename: key_filename@,
            }),
        },
{
    match built {
        Ok(config) => Ok(config),
        Err(_) => Err(
            CredentialError::Rejected {
                certificate_filename: certificate_filename.to_owned(),
                key_filename: key_filename.to_owned(),
            },
        ),
    }
}

/// Builds the TLS client configuration of an identity from its certificate
/// file and its key file: a configuration that trusts the public web roots
/// and presents the chain of the certificate file with the first key of the
/// key file.
///
/// Where a file cannot be read, the error says which and why. Where both
/// are read, the TLS library decides: an RSA or Ed25519 key gives a
/// configuration, a key of no kind that it knows is refused, and an ECDSA
/// key gives a configuration unless the system fails to supply random
/// bytes.
///
/// The contract says when there is a configuration, not what is in it. A
/// `rustls::ClientConfig` cannot be looked into from here, so that it holds
/// this chain, this key and these roots is nowhere stated and nowhere
/// proved: it rests on the code of this function, which hands
/// [`load_credential`]'s chain and key to the TLS library, and on that
/// library.
pub fn create_config(certificate_filename: &str, key_filename: &str, files: &Vec<PemFile>) -> (res: Result<
    Arc<rustls::ClientConfig>,
    CredentialError,
>)
    ensures
        credential_usable(files@, certificate_filename@, key_filename@) ==> res is Ok,
        !credential_possible(files@, certificate_filename@, key_filename@) ==> res is Err,
        res matches Err(error) ==> error@ == config_failure(files@, certificate_filename@, key_filename@),
{
    let (chain, key) = match load_credential(certificate_filename, key_filename, files) {
        Ok(credential) => credential,
        Err(error) => {
            return Err(error);
        },
    };
    config_result(build_config(chain, key), certificate_filename, key_filename)
}

} // verus!
