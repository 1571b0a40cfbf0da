//! One certificate with its key.

use std::sync::Arc;

use rustls::sign::CertifiedKey;
use x509_parser::extensions::{GeneralName, ParsedExtension};
use x509_parser::prelude::{FromDer, X509Certificate};

use vstd::prelude::*;

use crate::order::{
    is_sorted, law_sort, law_texts_can_be_compared, lemma_sort_contains, sort_texts, sorted_texts,
};
use crate::text::{
    append, ascii_lower, byte_lists, chars_of, contains_char, debug_of, debug_text, join2, join3,
    starts_with, text_before, text_between, texts, to_ascii_lower, trim_end_char, trimmed_end_char,
};

verus! {

#[verifier::external_type_specification]
#[verifier::external_body]
pub struct ExCertifiedKey(CertifiedKey);

/// The format of a private key.
#[derive(Clone, Copy, Debug, PartialEq, Eq, Structural)]
pub enum PrivateKeyKind {
    Pkcs1,
    Sec1,
    Pkcs8,
}

pub struct PrivateKey {
    pub kind: PrivateKeyKind,
    pub der: Vec<u8>,
}

impl View for PrivateKey {
    type V = (PrivateKeyKind, Seq<u8>);

    open spec fn view(&self) -> (PrivateKeyKind, Seq<u8>) {
        (self.kind, self.der@)
    }
}

/// A certificate that can be served: its chain, and the private key that it is served with.
pub struct CertifiedModel {
    pub chain: Seq<Seq<u8>>,
    pub key: (PrivateKeyKind, Seq<u8>),
}

/// What a certified key is made of: the chain that it holds, and the private key that its signing
/// key was loaded from.
pub uninterp spec fn certified_of(key: CertifiedKey) -> CertifiedModel;

/// The certificates that a PEM text holds, or why it cannot be read.
pub uninterp spec fn pem_certificates(pem: Seq<u8>) -> Result<Seq<Seq<u8>>, Seq<char>>;

/// `rustls_pemfile::certs`, collected: every certificate of the text in its order, or the first
/// error. The result depends on the text alone, and `pem_certificates` names it.
#[verifier::external_body]
pub(crate) fn parse_pem_certificates(pem: &[u8]) -> (r: Result<Vec<Vec<u8>>, String>)
    ensures
        match r {
            Ok(chain) => pem_certificates(pem@) == Ok::<Seq<Seq<u8>>, Seq<char>>(byte_lists(chain@)),
            Err(e) => pem_certificates(pem@) == Err::<Seq<Seq<u8>>, Seq<char>>(e@),
        },
{
    let mut reader = std::io::BufReader::new(pem);
    rustls_pemfile::certs(&mut reader)
        .map(|item| item.map(|der| der.as_ref().to_vec()).map_err(|error| error.to_string()))
        .collect()
}

/// The first private key that a PEM text holds, if any, or why the text cannot be read.
pub uninterp spec fn pem_private_key(pem: Seq<u8>) -> Result<
    Option<(PrivateKeyKind, Seq<u8>)>,
    Seq<char>,
>;

pub open spec fn opt_key(key: Option<PrivateKey>) -> Option<(PrivateKeyKind, Seq<u8>)> {
    match key {
        Some(key) => Some(key@),
        None => None,
    }
}

/// `rustls_pemfile::private_key`: the first private key of the text, if any. The result depends
/// on the text alone, and `pem_private_key` names it.
#[verifier::external_body]
fn parse_pem_private_key(pem: &[u8]) -> (r: Result<Option<PrivateKey>, String>)
    ensures
        match r {
            Ok(key) => pem_private_key(pem@) == Ok::<
                Option<(PrivateKeyKind, Seq<u8>)>,
                Seq<char>,
            >(opt_key(key)),
            Err(e) => pem_private_key(pem@) == Err::<
                Option<(PrivateKeyKind, Seq<u8>)>,
                Seq<char>,
            >(e@),
        },
{
    let found = rustls_pemfile::private_key(&mut std::io::BufReader::new(pem));
    let key = found.map_err(|error| error.to_string())?;
    Ok(key.and_then(|key| {
        let kind = match &key {
            rustls::pki_types::PrivateKeyDer::Pkcs1(_) => PrivateKeyKind::Pkcs1,
            rustls::pki_types::PrivateKeyDer::Sec1(_) => PrivateKeyKind::Sec1,
            rustls::pki_types::PrivateKeyDer::Pkcs8(_) => PrivateKeyKind::Pkcs8,
            _ => return None,
        };
        Some(PrivateKey { kind, der: key.secret_der().to_vec() })
    }))
}

/// Why a chain and a private key do not go together, if they do not.
pub uninterp spec fn certify_error(
    chain: Seq<Seq<u8>>,
    key: (PrivateKeyKind, Seq<u8>),
) -> Option<Seq<char>>;

/// `CertifiedKey::from_der` with the provider of `ring`: the key is loaded and held against the
/// first certificate of the chain. Whether that succeeds depends on the chain and the key alone,
/// and `certify_error` names it; the certified key is made of the chain and the key that were
/// given.
#[verifier::external_body]
fn certify(chain: &Vec<Vec<u8>>, key: &PrivateKey) -> (r: Result<CertifiedKey, String>)
    ensures
        match r {
            Ok(certified) => certify_error(byte_lists(chain@), key@) is None && certified_of(
                certified,
            ) == (CertifiedModel { chain: byte_lists(chain@), key: key@ }),
            Err(e) => certify_error(byte_lists(chain@), key@) == Some(e@),
        },
{
    let chain = chain.iter().map(|der| der.clone().into()).collect();
    let der = key.der.clone();
    let key = match key.kind {
        PrivateKeyKind::Pkcs1 => rustls::pki_types::PrivateKeyDer::Pkcs1(der.into()),
        PrivateKeyKind::Sec1 => rustls::pki_types::PrivateKeyDer::Sec1(der.into()),
        PrivateKeyKind::Pkcs8 => rustls::pki_types::PrivateKeyDer::Pkcs8(der.into()),
    };
    CertifiedKey::from_der(chain, key, &rustls::crypto::ring::default_provider())
        .map_err(|error| error.to_string())
}

/// A name in a certificate.
pub enum LeafName {
    Dns(String),
    Other,
}

/// An extension of a certificate.
pub enum LeafExtension {
    SubjectAlternativeName(Vec<LeafName>),
    Other,
}

/// What the gateway reads of a certificate.
pub struct LeafParts {
    pub extensions: Vec<LeafExtension>,
    pub not_after_unix: i64,
}

pub enum LeafNameModel {
    Dns(Seq<char>),
    Other,
}

pub enum LeafExtensionModel {
    SubjectAlternativeName(Seq<LeafNameModel>),
    Other,
}

pub struct LeafModel {
    pub extensions: Seq<LeafExtensionModel>,
    pub not_after_unix: i64,
}

impl View for LeafName {
    type V = LeafNameModel;

    open spec fn view(&self) -> LeafNameModel {
        match self {
            LeafName::Dns(name) => LeafNameModel::Dns(name@),
            LeafName::Other => LeafNameModel::Other,
        }
    }
}

impl View for LeafExtension {
    type V = LeafExtensionModel;

    open spec fn view(&self) -> LeafExtensionModel {
        match self {
            LeafExtension::SubjectAlternativeName(names) => {
                LeafExtensionModel::SubjectAlternativeName(
                    names@.map_values(|name: LeafName| name@),
                )
            },
            LeafExtension::Other => LeafExtensionModel::Other,
        }
    }
}

impl View for LeafParts {
    type V = LeafModel;

    open spec fn view(&self) -> LeafModel {
        LeafModel {
            extensions: self.extensions@.map_values(|extension: LeafExtension| extension@),
            not_after_unix: self.not_after_unix,
        }
    }
}

/// What a certificate says, or why it cannot be read.
pub uninterp spec fn leaf_of(der: Seq<u8>) -> Result<LeafModel, Seq<char>>;

/// `X509Certificate::from_der`, with each extension of the certificate and each of its
/// alternative names turned into a value of this module, and the end of its validity in seconds
/// since the epoch. The result depends on the bytes alone, and `leaf_of` names it.
#[verifier::external_body]
fn parse_leaf(der: &[u8]) -> (r: Result<LeafParts, String>)
    ensures
        match r {
            Ok(leaf) => leaf_of(der@) == Ok::<LeafModel, Seq<char>>(leaf@),
            Err(e) => leaf_of(der@) == Err::<LeafModel, Seq<char>>(e@),
        },
{
    let (_, leaf) = X509Certificate::from_der(der).map_err(|error| error.to_string())?;
    let extensions = leaf.extensions().iter().map(|extension| match extension.parsed_extension() {
        ParsedExtension::SubjectAlternativeName(san) => LeafExtension::SubjectAlternativeName(
            san.general_names.iter().map(|name| match name {
                GeneralName::DNSName(name) => LeafName::Dns(name.to_string()),
                _ => LeafName::Other,
            }).collect(),
        ),
        _ => LeafExtension::Other,
    }).collect();
    Ok(LeafParts { extensions, not_after_unix: leaf.validity().not_after.timestamp() })
}

/// A name in the form in which names are compared.
pub open spec fn canonical_name(name: Seq<char>) -> Seq<char> {
    ascii_lower(trim_end_char(name, '.'))
}

/// The DNS names among the first `n` names.
pub open spec fn dns_among(names: Seq<LeafNameModel>, n: int) -> Seq<Seq<char>>
    decreases n,
{
    if n <= 0 {
        Seq::empty()
    } else {
        match names[n - 1] {
            LeafNameModel::Dns(name) => dns_among(names, n - 1).push(canonical_name(name)),
            LeafNameModel::Other => dns_among(names, n - 1),
        }
    }
}

/// The DNS names in the first `n` extensions.
pub open spec fn dns_listed(extensions: Seq<LeafExtensionModel>, n: int) -> Seq<Seq<char>>
    decreases n,
{
    if n <= 0 {
        Seq::empty()
    } else {
        dns_listed(extensions, n - 1) + (match extensions[n - 1] {
            LeafExtensionModel::SubjectAlternativeName(names) => dns_among(
                names,
                names.len() as int,
            ),
            LeafExtensionModel::Other => Seq::empty(),
        })
    }
}

/// A list without what repeats the text before it.
pub open spec fn without_repeats(s: Seq<Seq<char>>) -> Seq<Seq<char>>
    decreases s.len(),
{
    if s.len() <= 1 {
        s
    } else if s[s.len() - 1] == s[s.len() - 2] {
        without_repeats(s.drop_last())
    } else {
        without_repeats(s.drop_last()).push(s.last())
    }
}

/// The DNS names of a certificate, in order and without repetition.
pub open spec fn dns_names_of(leaf: LeafModel) -> Seq<Seq<char>> {
    without_repeats(sort_texts(dns_listed(leaf.extensions, leaf.extensions.len() as int)))
}

/// A name that stands for more than one label, or that holds a star at another place.
pub open spec fn is_unsupported(name: Seq<char>) -> bool {
    if "*."@.is_prefix_of(name) {
        name.len() == 2 || name.skip(2).contains('*')
    } else {
        name.contains('*')
    }
}

/// The first of the names from `i` on that is not supported.
pub open spec fn first_unsupported(names: Seq<Seq<char>>, i: int) -> Option<Seq<char>>
    decreases names.len() - i,
{
    if i < 0 || i >= names.len() {
        None
    } else if is_unsupported(names[i]) {
        Some(names[i])
    } else {
        first_unsupported(names, i + 1)
    }
}

/// What is known of a certificate.
#[derive(Clone)]
pub struct CertificateMetadata {
    dns_names: Vec<String>,
    leaf_certificate: Vec<u8>,
    not_after_unix: i64,
}

pub struct MetadataModel {
    pub dns_names: Seq<Seq<char>>,
    pub leaf_certificate: Seq<u8>,
    pub not_after_unix: i64,
}

impl View for CertificateMetadata {
    type V = MetadataModel;

    closed spec fn view(&self) -> MetadataModel {
        MetadataModel {
            dns_names: texts(self.dns_names@),
            leaf_certificate: self.leaf_certificate@,
            not_after_unix: self.not_after_unix,
        }
    }
}

impl CertificateMetadata {
    pub fn dns_names(&self) -> (r: &Vec<String>)
        ensures
            texts(r@) == self@.dns_names,
    {
        &self.dns_names
    }

    pub fn leaf_certificate(&self) -> (r: &Vec<u8>)
        ensures
            r@ == self@.leaf_certificate,
    {
        &self.leaf_certificate
    }

    pub fn not_after_unix(&self) -> (r: i64)
        ensures
            r == self@.not_after_unix,
    {
        self.not_after_unix
    }
}

/// What is known of the certificate `id`, given what its bytes say.
pub open spec fn metadata_from(
    id: Seq<char>,
    der: Seq<u8>,
    leaf: Result<LeafModel, Seq<char>>,
) -> Result<MetadataModel, Seq<char>> {
    match leaf {
        Err(e) => Err("failed to parse leaf X.509 certificate "@ + debug_text(id) + ": "@ + e),
        Ok(leaf) => {
            let names = dns_names_of(leaf);
            if names.len() == 0 {
                Err(
                    "TLS certificate "@ + debug_text(id)
                        + " contains no DNS Subject Alternative Names"@,
                )
            } else {
                match first_unsupported(names, 0) {
                    Some(name) => Err(
                        "TLS certificate "@ + debug_text(id)
                            + " contains unsupported wildcard SAN "@ + debug_text(name),
                    ),
                    None => Ok(
                        MetadataModel {
                            dns_names: names,
                            leaf_certificate: der,
                            not_after_unix: leaf.not_after_unix,
                        },
                    ),
                }
            }
        },
    }
}

fn collect_dns(names: &Vec<LeafName>, found: &mut Vec<String>)
    ensures
        ({
            let models = names@.map_values(|name: LeafName| name@);
            texts(final(found)@) == texts(old(found)@) + dns_among(models, models.len() as int)
        }),
{
    let ghost models = names@.map_values(|name: LeafName| name@);
    let ghost before = texts(found@);
    let mut i: usize = 0;
    assert(texts(found@) =~= before + dns_among(models, 0));
    while i < names.len()
        invariant
            i <= names@.len(),
            models == names@.map_values(|name: LeafName| name@),
            texts(found@) == before + dns_among(models, i as int),
        decreases names@.len() - i,
    {
        assert(models[i as int] == names@[i as int]@);
        match &names[i] {
            LeafName::Dns(name) => {
                let canonical = to_ascii_lower(&trimmed_end_char(name, '.'));
                let ghost listed = texts(found@);
                let ghost added = canonical@;
                found.push(canonical);
                assert(texts(found@) =~= listed.push(added));
                assert(listed.push(added) =~= before + dns_among(models, i + 1));
            },
            LeafName::Other => {},
        }
        i += 1;
    }
}

fn list_dns(extensions: &Vec<LeafExtension>) -> (r: Vec<String>)
    ensures
        ({
            let models = extensions@.map_values(|extension: LeafExtension| extension@);
            texts(r@) == dns_listed(models, models.len() as int)
        }),
{
    let ghost models = extensions@.map_values(|extension: LeafExtension| extension@);
    let mut found: Vec<String> = Vec::new();
    let mut i: usize = 0;
    assert(texts(found@) =~= dns_listed(models, 0));
    while i < extensions.len()
        invariant
            i <= extensions@.len(),
            models == extensions@.map_values(|extension: LeafExtension| extension@),
            texts(found@) == dns_listed(models, i as int),
        decreases extensions@.len() - i,
    {
        assert(models[i as int] == extensions@[i as int]@);
        match &extensions[i] {
            LeafExtension::SubjectAlternativeName(names) => collect_dns(names, &mut found),
            LeafExtension::Other => {
                assert(dns_listed(models, i as int) + Seq::<Seq<char>>::empty() =~= dns_listed(
                    models,
                    i as int,
                ));
            },
        }
        i += 1;
    }
    found
}

fn drop_repeats(v: Vec<String>) -> (r: Vec<String>)
    ensures
        texts(r@) == without_repeats(texts(v@)),
{
    let ghost all = texts(v@);
    let mut r: Vec<String> = Vec::new();
    let mut i: usize = 0;
    assert(texts(r@) =~= without_repeats(all.take(0)));
    while i < v.len()
        invariant
            i <= v@.len(),
            all == texts(v@),
            texts(r@) == without_repeats(all.take(i as int)),
        decreases v@.len() - i,
    {
        proof {
            assert(all.take(i + 1).drop_last() =~= all.take(i as int));
            assert(all.take(i + 1).last() == v@[i as int]@);
            if i > 0 {
                assert(all.take(i + 1)[i - 1] == v@[i - 1]@);
            } else {
                assert(all.take(0) =~= Seq::<Seq<char>>::empty());
            }
        }
        if i == 0 || !(v[i] == v[i - 1]) {
            let ghost before = texts(r@);
            r.push(v[i].clone());
            proof {
                assert(texts(r@) =~= before.push(v@[i as int]@));
                if i == 0 {
                    assert(before =~= Seq::<Seq<char>>::empty());
                    assert(all.take(1) =~= before.push(v@[0]@));
                }
            }
        }
        i += 1;
    }
    assert(all.take(i as int) =~= all);
    r
}

fn find_unsupported(names: &Vec<String>) -> (r: Option<usize>)
    ensures
        match r {
            Some(i) => i < names@.len() && first_unsupported(texts(names@), 0) == Some(
                names@[i as int]@,
            ),
            None => first_unsupported(texts(names@), 0) is None,
        },
{
    let ghost all = texts(names@);
    let mut i: usize = 0;
    while i < names.len()
        invariant
            i <= names@.len(),
            all == texts(names@),
            first_unsupported(all, 0) == first_unsupported(all, i as int),
        decreases names@.len() - i,
    {
        assert(all[i as int] == names@[i as int]@);
        let v = chars_of(&names[i]);
        let unsupported = if starts_with(&names[i], "*.") {
            proof {
                reveal_strlit("*.");
            }
            let suffix = text_between(&v, 2, v.len());
            assert(suffix@ =~= names@[i as int]@.skip(2));
            v.len() == 2 || contains_char(&suffix, '*')
        } else {
            contains_char(&names[i], '*')
        };
        if unsupported {
            return Some(i);
        }
        i += 1;
    }
    None
}

pub open spec fn leaf_model(leaf: Result<LeafParts, String>) -> Result<LeafModel, Seq<char>> {
    match leaf {
        Ok(leaf) => Ok(leaf@),
        Err(e) => Err(e@),
    }
}

/// What is known of the certificate `id`, from what its bytes say.
pub fn leaf_metadata_from(id: &str, der: Vec<u8>, leaf: Result<LeafParts, String>) -> (r: Result<
    CertificateMetadata,
    String,
>)
    ensures
        match r {
            Ok(metadata) => metadata_from(id@, der@, leaf_model(leaf)) == Ok::<
                MetadataModel,
                Seq<char>,
            >(metadata@),
            Err(e) => metadata_from(id@, der@, leaf_model(leaf)) == Err::<MetadataModel, Seq<char>>(
                e@,
            ),
        },
{
    let leaf = match leaf {
        Ok(leaf) => leaf,
        Err(e) => {
            let mut s = join3("failed to parse leaf X.509 certificate ", &debug_of(id), ": ");
            append(&mut s, &e);
            return Err(s);
        },
    };
    let names = drop_repeats(sorted_texts(list_dns(&leaf.extensions)));
    assert(texts(names@).len() == names@.len());
    if names.len() == 0 {
        return Err(
            join3(
                "TLS certificate ",
                &debug_of(id),
                " contains no DNS Subject Alternative Names",
            ),
        );
    }
    match find_unsupported(&names) {
        Some(i) => {
            let mut s = join3(
                "TLS certificate ",
                &debug_of(id),
                " contains unsupported wildcard SAN ",
            );
            append(&mut s, &debug_of(&names[i]));
            Err(s)
        },
        None => Ok(
            CertificateMetadata {
                dns_names: names,
                leaf_certificate: der,
                not_after_unix: leaf.not_after_unix,
            },
        ),
    }
}

pub fn parse_leaf_metadata(id: &str, leaf_certificate: Vec<u8>) -> (r: Result<
    CertificateMetadata,
    String,
>)
    ensures
        ({
            let expected = metadata_from(id@, leaf_certificate@, leaf_of(leaf_certificate@));
            match r {
                Ok(metadata) => expected == Ok::<MetadataModel, Seq<char>>(metadata@),
                Err(e) => expected == Err::<MetadataModel, Seq<char>>(e@),
            }
        }),
{
    let leaf = parse_leaf(&leaf_certificate);
    leaf_metadata_from(id, leaf_certificate, leaf)
}

/// What the files of the certificate `id` come to, given what they hold: the chain with its
/// key, and what is known of its first certificate.
pub open spec fn pair_from(
    id: Seq<char>,
    certificates: Result<Seq<Seq<u8>>, Seq<char>>,
    key: Result<Option<(PrivateKeyKind, Seq<u8>)>, Seq<char>>,
) -> Result<(CertifiedModel, MetadataModel), Seq<char>> {
    match certificates {
        Err(_) => Err("failed to parse TLS certificate chain for "@ + debug_text(id)),
        Ok(chain) => if chain.len() == 0 {
            Err("TLS certificate "@ + debug_text(id) + " contains no certificates"@)
        } else {
            match key {
                Err(_) => Err("failed to parse TLS private key for "@ + debug_text(id)),
                Ok(None) => Err(
                    "TLS private key "@ + debug_text(id) + " contains no supported private key"@,
                ),
                Ok(Some(key)) => if certify_error(chain, key) is Some {
                    Err(
                        "TLS certificate and private key for "@ + debug_text(id)
                            + " are incompatible"@,
                    )
                } else {
                    match metadata_from(id, chain[0], leaf_of(chain[0])) {
                        Err(e) => Err(e),
                        Ok(metadata) => Ok((CertifiedModel { chain, key }, metadata)),
                    }
                },
            }
        },
    }
}

/// What the files of the certificate `id` come to.
pub open spec fn pair_result(id: Seq<char>, certificate: Seq<u8>, key: Seq<u8>) -> Result<
    (CertifiedModel, MetadataModel),
    Seq<char>,
> {
    pair_from(id, pem_certificates(certificate), pem_private_key(key))
}

pub open spec fn chain_model(chain: Result<Vec<Vec<u8>>, String>) -> Result<
    Seq<Seq<u8>>,
    Seq<char>,
> {
    match chain {
        Ok(chain) => Ok(byte_lists(chain@)),
        Err(e) => Err(e@),
    }
}

pub open spec fn key_model(key: Result<Option<PrivateKey>, String>) -> Result<
    Option<(PrivateKeyKind, Seq<u8>)>,
    Seq<char>,
> {
    match key {
        Ok(key) => Ok(opt_key(key)),
        Err(e) => Err(e@),
    }
}

/// What the files of the certificate `id` come to, from what they hold.
pub fn certificate_pair_from(
    id: &str,
    certificates: Result<Vec<Vec<u8>>, String>,
    key: Result<Option<PrivateKey>, String>,
) -> (r: Result<(Arc<CertifiedKey>, CertificateMetadata), String>)
    ensures
        ({
            let expected = pair_from(id@, chain_model(certificates), key_model(key));
            match r {
                Ok((certified, metadata)) => expected == Ok::<
                    (CertifiedModel, MetadataModel),
                    Seq<char>,
                >((certified_of(*certified), metadata@)),
                Err(e) => expected == Err::<(CertifiedModel, MetadataModel), Seq<char>>(e@),
            }
        }),
{
    let chain = match certificates {
        Ok(chain) => chain,
        Err(_) => {
            return Err(join2("failed to parse TLS certificate chain for ", &debug_of(id)));
        },
    };
    assert(byte_lists(chain@).len() == chain@.len());
    if chain.len() == 0 {
        return Err(join3("TLS certificate ", &debug_of(id), " contains no certificates"));
    }
    assert(byte_lists(chain@)[0] == chain@[0]@);
    let key = match key {
        Ok(Some(key)) => key,
        Ok(None) => {
            return Err(
                join3("TLS private key ", &debug_of(id), " contains no supported private key"),
            );
        },
        Err(_) => {
            return Err(join2("failed to parse TLS private key for ", &debug_of(id)));
        },
    };
    let certified = match certify(&chain, &key) {
        Ok(certified) => certified,
        Err(_) => {
            return Err(
                join3(
                    "TLS certificate and private key for ",
                    &debug_of(id),
                    " are incompatible",
                ),
            );
        },
    };
    let leaf = copy_bytes(&chain[0]);
    match parse_leaf_metadata(id, leaf) {
        Ok(metadata) => Ok((Arc::new(certified), metadata)),
        Err(e) => Err(e),
    }
}

fn copy_bytes(v: &Vec<u8>) -> (r: Vec<u8>)
    ensures
        r@ == v@,
{
    let mut r: Vec<u8> = Vec::new();
    let mut i: usize = 0;
    while i < v.len()
        invariant
            i <= v@.len(),
            r@ == v@.take(i as int),
        decreases v@.len() - i,
    {
        r.push(v[i]);
        assert(v@.take(i + 1) =~= v@.take(i as int).push(v@[i as int]));
        i += 1;
    }
    assert(v@.take(i as int) =~= v@);
    r
}

pub fn parse_certificate_pair(id: &str, certificate_bytes: &[u8], key_bytes: &[u8]) -> (r: Result<
    (Arc<CertifiedKey>, CertificateMetadata),
    String,
>)
    ensures
        ({
            let expected = pair_result(id@, certificate_bytes@, key_bytes@);
            match r {
                Ok((certified, metadata)) => expected == Ok::<
                    (CertifiedModel, MetadataModel),
                    Seq<char>,
                >((certified_of(*certified), metadata@)),
                Err(e) => expected == Err::<(CertifiedModel, MetadataModel), Seq<char>>(e@),
            }
        }),
{
    certificate_pair_from(
        id,
        parse_pem_certificates(certificate_bytes),
        parse_pem_private_key(key_bytes),
    )
}

proof fn lemma_dns_among(names: Seq<LeafNameModel>, n: int, x: Seq<char>)
    requires
        0 <= n <= names.len(),
    ensures
        dns_among(names, n).contains(x) <==> exists|j: int|
            0 <= j < n && (#[trigger] names[j]) is Dns && ascii_lower(
                trim_end_char(names[j]->Dns_0, '.'),
            ) == x,
    decreases n,
{
    if n > 0 {
        lemma_dns_among(names, n - 1, x);
        let before = dns_among(names, n - 1);
        let after = dns_among(names, n);
        if let LeafNameModel::Dns(name) = names[n - 1] {
            assert(after[before.len() as int] == canonical_name(name));
            if before.contains(x) {
                let k = choose|k: int| 0 <= k < before.len() && before[k] == x;
                assert(after[k] == x);
            }
            if after.contains(x) && canonical_name(name) != x {
                let k = choose|k: int| 0 <= k < after.len() && after[k] == x;
                assert(before[k] == x);
            }
        }
        if exists|j: int|
            0 <= j < n - 1 && (#[trigger] names[j]) is Dns && ascii_lower(
                trim_end_char(names[j]->Dns_0, '.'),
            ) == x {
            let j = choose|j: int|
                0 <= j < n - 1 && (#[trigger] names[j]) is Dns && ascii_lower(
                    trim_end_char(names[j]->Dns_0, '.'),
                ) == x;
            assert(names[j] is Dns);
        }
        if after.contains(x) && !before.contains(x) {
            assert(names[n - 1] is Dns);
        }
    }
}

proof fn lemma_dns_listed(extensions: Seq<LeafExtensionModel>, n: int, x: Seq<char>)
    requires
        0 <= n <= extensions.len(),
    ensures
        dns_listed(extensions, n).contains(x) <==> exists|i: int|
            0 <= i < n && (#[trigger] extensions[i]) is SubjectAlternativeName && dns_among(
                extensions[i]->SubjectAlternativeName_0,
                extensions[i]->SubjectAlternativeName_0.len() as int,
            ).contains(x),
    decreases n,
{
    if n > 0 {
        lemma_dns_listed(extensions, n - 1, x);
        let before = dns_listed(extensions, n - 1);
        let after = dns_listed(extensions, n);
        let added = match extensions[n - 1] {
            LeafExtensionModel::SubjectAlternativeName(names) => dns_among(
                names,
                names.len() as int,
            ),
            LeafExtensionModel::Other => Seq::empty(),
        };
        assert(after == before + added);
        if before.contains(x) {
            let k = choose|k: int| 0 <= k < before.len() && before[k] == x;
            assert(after[k] == x);
            let i = choose|i: int|
                0 <= i < n - 1 && (#[trigger] extensions[i]) is SubjectAlternativeName && dns_among(
                    extensions[i]->SubjectAlternativeName_0,
                    extensions[i]->SubjectAlternativeName_0.len() as int,
                ).contains(x);
            assert(extensions[i] is SubjectAlternativeName);
        }
        if added.contains(x) {
            let k = choose|k: int| 0 <= k < added.len() && added[k] == x;
            assert(after[before.len() + k] == x);
            assert(extensions[n - 1] is SubjectAlternativeName);
        }
        if after.contains(x) && !before.contains(x) {
            let k = choose|k: int| 0 <= k < after.len() && after[k] == x;
            if k < before.len() {
                assert(before[k] == x);
            } else {
                assert(added[k - before.len()] == x);
            }
        }
    }
}

proof fn lemma_without_repeats(s: Seq<Seq<char>>, x: Seq<char>)
    ensures
        without_repeats(s).contains(x) <==> s.contains(x),
        s.len() > 0 ==> without_repeats(s).len() > 0,
    decreases s.len(),
{
    if s.len() > 1 {
        lemma_without_repeats(s.drop_last(), x);
        let before = without_repeats(s.drop_last());
        let after = without_repeats(s);
        if s.contains(x) {
            let k = choose|k: int| 0 <= k < s.len() && s[k] == x;
            if k < s.len() - 1 {
                assert(s.drop_last()[k] == x);
            } else {
                assert(s.drop_last()[s.len() - 2] == s[s.len() - 2]);
            }
        }
        if s.drop_last().contains(x) {
            let k = choose|k: int| 0 <= k < s.drop_last().len() && s.drop_last()[k] == x;
            assert(s[k] == x);
        }
        if s[s.len() - 1] != s[s.len() - 2] {
            assert(after == before.push(s.last()));
            assert(after[before.len() as int] == s.last());
            if before.contains(x) {
                let k = choose|k: int| 0 <= k < before.len() && before[k] == x;
                assert(after[k] == x);
            }
            if after.contains(x) && x != s.last() {
                let k = choose|k: int| 0 <= k < after.len() && after[k] == x;
                assert(before[k] == x);
            }
        }
        assert(s[s.len() - 1] == s.last());
    }
}

proof fn lemma_without_repeats_keeps_order(s: Seq<Seq<char>>)
    requires
        is_sorted(s),
    ensures
        ({
            let r = without_repeats(s);
            forall|i: int, j: int| 0 <= i < j < r.len() ==> text_before(#[trigger] r[i], #[trigger] r[j])
        }),
    decreases s.len(),
{
    if s.len() > 1 {
        assert forall|i: int, j: int| 0 <= i < j < s.drop_last().len() implies !text_before(
            #[trigger] s.drop_last()[j],
            #[trigger] s.drop_last()[i],
        ) by {
            assert(!text_before(s[j], s[i]));
        }
        lemma_without_repeats_keeps_order(s.drop_last());
        let before = without_repeats(s.drop_last());
        let after = without_repeats(s);
        if s[s.len() - 1] != s[s.len() - 2] {
            assert forall|i: int, j: int| 0 <= i < j < after.len() implies text_before(
                #[trigger] after[i],
                #[trigger] after[j],
            ) by {
                if j == after.len() - 1 {
                    let x = before[i];
                    let top = s.last();
                    assert(after[i] == x && after[j] == top);
                    assert(before.contains(x));
                    lemma_without_repeats(s.drop_last(), x);
                    let k = choose|k: int| 0 <= k < s.drop_last().len() && s.drop_last()[k] == x;
                    assert(s[k] == x);
                    assert(!text_before(s[s.len() - 1], s[k]));
                    if x == top {
                        let next = s[s.len() - 2];
                        if k < s.len() - 2 {
                            assert(!text_before(s[s.len() - 2], s[k]));
                            assert(!text_before(s[s.len() - 1], s[s.len() - 2]));
                            law_texts_can_be_compared(next, top);
                        }
                    }
                    law_texts_can_be_compared(x, top);
                } else {
                    assert(after[i] == before[i] && after[j] == before[j]);
                }
            }
        }
    }
}

/// The names of a certificate are those of its alternative names that are DNS names, without final
/// dots and in lower case, each once and in order.
pub proof fn law_certificate_names(leaf: LeafModel, x: Seq<char>)
    ensures
        ({
            let names = dns_names_of(leaf);
            &&& names.contains(x) <==> exists|i: int, j: int|
                #![trigger leaf.extensions[i]->SubjectAlternativeName_0[j]]
                {
                    let listed = leaf.extensions[i]->SubjectAlternativeName_0;
                    &&& 0 <= i < leaf.extensions.len()
                    &&& leaf.extensions[i] is SubjectAlternativeName
                    &&& 0 <= j < listed.len()
                    &&& listed[j] is Dns
                    &&& ascii_lower(trim_end_char(listed[j]->Dns_0, '.')) == x
                }
            &&& forall|i: int, j: int|
                0 <= i < j < names.len() ==> text_before(#[trigger] names[i], #[trigger] names[j])
        }),
{
    let all = dns_listed(leaf.extensions, leaf.extensions.len() as int);
    let sorted = sort_texts(all);
    law_sort(all);
    lemma_sort_contains(all, x);
    lemma_without_repeats(sorted, x);
    lemma_without_repeats_keeps_order(sorted);
    lemma_dns_listed(leaf.extensions, leaf.extensions.len() as int, x);
    if all.contains(x) {
        let i = choose|i: int|
            0 <= i < leaf.extensions.len() && (#[trigger] leaf.extensions[i]) is SubjectAlternativeName
                && dns_among(
                leaf.extensions[i]->SubjectAlternativeName_0,
                leaf.extensions[i]->SubjectAlternativeName_0.len() as int,
            ).contains(x);
        let listed = leaf.extensions[i]->SubjectAlternativeName_0;
        lemma_dns_among(listed, listed.len() as int, x);
        let j = choose|j: int|
            0 <= j < listed.len() && (#[trigger] listed[j]) is Dns && ascii_lower(
                trim_end_char(listed[j]->Dns_0, '.'),
            ) == x;
        assert(leaf.extensions[i]->SubjectAlternativeName_0[j] is Dns);
    }
    if exists|i: int, j: int|
        #![trigger leaf.extensions[i]->SubjectAlternativeName_0[j]]
        {
            let listed = leaf.extensions[i]->SubjectAlternativeName_0;
            &&& 0 <= i < leaf.extensions.len()
            &&& leaf.extensions[i] is SubjectAlternativeName
            &&& 0 <= j < listed.len()
            &&& listed[j] is Dns
            &&& ascii_lower(trim_end_char(listed[j]->Dns_0, '.')) == x
        } {
        let (i, j) = choose|i: int, j: int|
            #![trigger leaf.extensions[i]->SubjectAlternativeName_0[j]]
            {
                let listed = leaf.extensions[i]->SubjectAlternativeName_0;
                &&& 0 <= i < leaf.extensions.len()
                &&& leaf.extensions[i] is SubjectAlternativeName
                &&& 0 <= j < listed.len()
                &&& listed[j] is Dns
                &&& ascii_lower(trim_end_char(listed[j]->Dns_0, '.')) == x
            };
        let listed = leaf.extensions[i]->SubjectAlternativeName_0;
        lemma_dns_among(listed, listed.len() as int, x);
        assert(listed[j] is Dns);
        assert(leaf.extensions[i] is SubjectAlternativeName);
    }
}

/// A star may stand only as the whole first label of a name that has more than that label.
pub proof fn law_stars_stand_alone_in_front(name: Seq<char>, rest: Seq<char>)
    ensures
        is_unsupported(seq!['*', '.'] + rest) <==> rest.len() == 0 || rest.contains('*'),
        !(name.len() >= 2 && name[0] == '*' && name[1] == '.') ==> (is_unsupported(name)
            <==> name.contains('*')),
{
    reveal_strlit("*.");
    assert("*."@ =~= seq!['*', '.']);
    let wildcard = seq!['*', '.'] + rest;
    assert(wildcard.subrange(0, 2) =~= "*."@);
    assert("*."@.is_prefix_of(wildcard));
    assert(wildcard.skip(2) =~= rest);
    if "*."@.is_prefix_of(name) {
        assert(name.subrange(0, 2) == "*."@);
        assert(name[0] == name.subrange(0, 2)[0]);
        assert(name[1] == name.subrange(0, 2)[1]);
    }
}

proof fn lemma_first_unsupported(names: Seq<Seq<char>>, i: int)
    requires
        0 <= i <= names.len(),
    ensures
        match first_unsupported(names, i) {
            Some(name) => is_unsupported(name) && names.contains(name),
            None => forall|j: int| i <= j < names.len() ==> !is_unsupported(#[trigger] names[j]),
        },
    decreases names.len() - i,
{
    if i < names.len() && !is_unsupported(names[i]) {
        lemma_first_unsupported(names, i + 1);
    } else if i < names.len() {
        assert(names.contains(names[i]));
    }
}

/// A certificate is accepted exactly where it can be read, bears a DNS name, and bears no name with a
/// star out of place. What is then known of it are its names, its bytes and the end of its validity.
pub proof fn law_certificates_with_names_are_accepted(
    id: Seq<char>,
    der: Seq<u8>,
    leaf: Result<LeafModel, Seq<char>>,
)
    ensures
        ({
            let r = metadata_from(id, der, leaf);
            let names = dns_names_of(leaf->Ok_0);
            &&& r is Ok <==> leaf is Ok && names.len() > 0 && forall|j: int|
                0 <= j < names.len() ==> !is_unsupported(#[trigger] names[j])
            &&& r matches Ok(metadata) ==> {
                &&& metadata.dns_names == names
                &&& metadata.leaf_certificate == der
                &&& metadata.not_after_unix == leaf->Ok_0.not_after_unix
            }
            &&& leaf matches Err(e) ==> r == Err::<MetadataModel, Seq<char>>(
                "failed to parse leaf X.509 certificate "@ + debug_text(id) + ": "@ + e,
            )
            &&& leaf is Ok && names.len() == 0 ==> r == Err::<MetadataModel, Seq<char>>(
                "TLS certificate "@ + debug_text(id)
                    + " contains no DNS Subject Alternative Names"@,
            )
        }),
{
    if let Ok(leaf) = leaf {
        lemma_first_unsupported(dns_names_of(leaf), 0);
        let names = dns_names_of(leaf);
        if let Some(name) = first_unsupported(names, 0) {
            let j = choose|j: int| 0 <= j < names.len() && names[j] == name;
            assert(is_unsupported(names[j]));
        }
    }
}

/// The files of a certificate are accepted exactly where they hold a chain that is not empty and a
/// key, the key belongs to the chain, and the first certificate of the chain is accepted. It is that
/// chain and that key which then serve, and each way to fail has a text of its own.
pub proof fn law_files_make_a_certificate(
    id: Seq<char>,
    certificates: Result<Seq<Seq<u8>>, Seq<char>>,
    key: Result<Option<(PrivateKeyKind, Seq<u8>)>, Seq<char>>,
)
    ensures
        ({
            let r = pair_from(id, certificates, key);
            let chain = certificates->Ok_0;
            let held = certificates is Ok && chain.len() > 0;
            let keyed = key is Ok && key->Ok_0 is Some;
            let metadata = metadata_from(id, chain[0], leaf_of(chain[0]));
            &&& r is Ok <==> held && keyed && certify_error(chain, key->Ok_0->0) is None
                && metadata is Ok
            &&& r matches Ok((certified, known)) ==> certified.chain == chain && certified.key
                == key->Ok_0->0 && known == metadata->Ok_0
            &&& certificates is Err ==> r->Err_0 == "failed to parse TLS certificate chain for "@
                + debug_text(id)
            &&& certificates is Ok && !held ==> r->Err_0 == "TLS certificate "@ + debug_text(id)
                + " contains no certificates"@
            &&& held && key is Err ==> r->Err_0 == "failed to parse TLS private key for "@
                + debug_text(id)
            &&& held && key is Ok && !keyed ==> r->Err_0 == "TLS private key "@ + debug_text(id)
                + " contains no supported private key"@
            &&& held && keyed && certify_error(chain, key->Ok_0->0) is Some ==> r->Err_0
                == "TLS certificate and private key for "@ + debug_text(id) + " are incompatible"@
            &&& held && keyed && certify_error(chain, key->Ok_0->0) is None && metadata is Err
                ==> r->Err_0 == metadata->Err_0
        }),
{
}

} // verus!
