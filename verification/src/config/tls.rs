//! The section on certificate files.

use vstd::prelude::*;

use crate::paths::{join, join_path};
use crate::text::{ends_with, join2, opt_str, opt_text, same_text};

use super::error::{
    certificate_id_error, path_error, resolve_config_path, suffix_error, validate_certificate_id,
    validate_path, validate_suffix, ConfigError, ConfigErrorModel,
};

verus! {

pub fn default_tls_cert_suffix() -> (r: String)
    ensures
        r@ == ".fullchain.pem"@,
{
    ".fullchain.pem".to_owned()
}

pub fn default_tls_key_suffix() -> (r: String)
    ensures
        r@ == ".key.pem"@,
{
    ".key.pem".to_owned()
}

/// The section as a file has it.
pub struct FileTlsConfig {
    pub cert_dir: String,
    pub cert_suffix: String,
    pub key_suffix: String,
    pub default_certificate: Option<String>,
}

/// Where certificates and their keys stand, and which one serves unnamed clients.
#[derive(Clone)]
pub struct TlsConfig {
    cert_dir: String,
    cert_suffix: String,
    key_suffix: String,
    default_certificate: Option<String>,
}

pub struct FileTlsModel {
    pub cert_dir: Seq<char>,
    pub cert_suffix: Seq<char>,
    pub key_suffix: Seq<char>,
    pub default_certificate: Option<Seq<char>>,
}

pub struct TlsModel {
    pub cert_dir: Seq<char>,
    pub cert_suffix: Seq<char>,
    pub key_suffix: Seq<char>,
    pub default_certificate: Option<Seq<char>>,
}

impl View for FileTlsConfig {
    type V = FileTlsModel;

    open spec fn view(&self) -> FileTlsModel {
        FileTlsModel {
            cert_dir: self.cert_dir@,
            cert_suffix: self.cert_suffix@,
            key_suffix: self.key_suffix@,
            default_certificate: opt_text(self.default_certificate),
        }
    }
}

impl View for TlsConfig {
    type V = TlsModel;

    closed spec fn view(&self) -> TlsModel {
        TlsModel {
            cert_dir: self.cert_dir@,
            cert_suffix: self.cert_suffix@,
            key_suffix: self.key_suffix@,
            default_certificate: opt_text(self.default_certificate),
        }
    }
}

/// One suffix ends with the other, so that a file could count as both.
pub open spec fn suffixes_overlap(cert_suffix: Seq<char>, key_suffix: Seq<char>) -> bool {
    key_suffix.is_suffix_of(cert_suffix) || cert_suffix.is_suffix_of(key_suffix)
}

/// The first thing that is wrong with the section, if anything.
pub open spec fn tls_error(file: FileTlsModel) -> Option<ConfigErrorModel> {
    if path_error("tls.cert_dir"@, file.cert_dir) is Some {
        path_error("tls.cert_dir"@, file.cert_dir)
    } else if suffix_error("tls.cert_suffix"@, file.cert_suffix) is Some {
        suffix_error("tls.cert_suffix"@, file.cert_suffix)
    } else if suffix_error("tls.key_suffix"@, file.key_suffix) is Some {
        suffix_error("tls.key_suffix"@, file.key_suffix)
    } else if suffixes_overlap(file.cert_suffix, file.key_suffix) {
        Some(
            ConfigErrorModel::Invalid(
                "tls.cert_suffix and tls.key_suffix must be distinct and non-overlapping"@,
            ),
        )
    } else {
        match file.default_certificate {
            Some(id) => certificate_id_error("tls.default_certificate"@, id),
            None => None,
        }
    }
}

/// What the section comes to in a file that stands in `directory`.
pub open spec fn tls_result(file: FileTlsModel, directory: Seq<char>) -> Result<
    TlsModel,
    ConfigErrorModel,
> {
    match tls_error(file) {
        Some(e) => Err(e),
        None => Ok(
            TlsModel {
                cert_dir: join(directory, file.cert_dir),
                cert_suffix: file.cert_suffix,
                key_suffix: file.key_suffix,
                default_certificate: file.default_certificate,
            },
        ),
    }
}

impl FileTlsConfig {
    pub fn validate(self, config_directory: &str) -> (r: Result<TlsConfig, ConfigError>)
        ensures
            match r {
                Ok(tls) => tls_result(self@, config_directory@) == Ok::<
                    TlsModel,
                    ConfigErrorModel,
                >(tls@),
                Err(e) => tls_result(self@, config_directory@) == Err::<TlsModel, ConfigErrorModel>(
                    e@,
                ),
            },
    {
        match validate_path("tls.cert_dir", &self.cert_dir) {
            Ok(_) => {},
            Err(e) => {
                return Err(e);
            },
        }
        match validate_suffix("tls.cert_suffix", &self.cert_suffix) {
            Ok(_) => {},
            Err(e) => {
                return Err(e);
            },
        }
        match validate_suffix("tls.key_suffix", &self.key_suffix) {
            Ok(_) => {},
            Err(e) => {
                return Err(e);
            },
        }
        proof {
            if self.cert_suffix@ == self.key_suffix@ {
                assert(self.cert_suffix@.subrange(0, self.cert_suffix@.len() as int)
                    =~= self.cert_suffix@);
            }
        }
        if same_text(&self.cert_suffix, &self.key_suffix) || ends_with(
            &self.cert_suffix,
            &self.key_suffix,
        ) || ends_with(&self.key_suffix, &self.cert_suffix) {
            return Err(
                ConfigError::Invalid(
                    "tls.cert_suffix and tls.key_suffix must be distinct and non-overlapping".to_owned(),
                ),
            );
        }
        match &self.default_certificate {
            Some(id) => match validate_certificate_id("tls.default_certificate", id) {
                Ok(_) => {},
                Err(e) => {
                    return Err(e);
                },
            },
            None => {},
        }
        Ok(
            TlsConfig {
                cert_dir: resolve_config_path(config_directory, &self.cert_dir),
                cert_suffix: self.cert_suffix,
                key_suffix: self.key_suffix,
                default_certificate: self.default_certificate,
            },
        )
    }
}

impl TlsModel {
    /// The file that holds the certificate chain named `id`.
    pub open spec fn cert_path(self, id: Seq<char>) -> Seq<char> {
        join(self.cert_dir, id + self.cert_suffix)
    }

    /// The file that holds the private key named `id`.
    pub open spec fn key_path(self, id: Seq<char>) -> Seq<char> {
        join(self.cert_dir, id + self.key_suffix)
    }
}

impl TlsConfig {
    pub fn cert_dir(&self) -> (r: &str)
        ensures
            r@ == self@.cert_dir,
    {
        &self.cert_dir
    }

    pub fn cert_suffix(&self) -> (r: &str)
        ensures
            r@ == self@.cert_suffix,
    {
        &self.cert_suffix
    }

    pub fn key_suffix(&self) -> (r: &str)
        ensures
            r@ == self@.key_suffix,
    {
        &self.key_suffix
    }

    pub fn default_certificate(&self) -> (r: Option<&str>)
        ensures
            opt_str(r) == self@.default_certificate,
    {
        match &self.default_certificate {
            Some(id) => Some(id.as_str()),
            None => None,
        }
    }

    pub fn cert_path(&self, id: &str) -> (r: String)
        ensures
            r@ == self@.cert_path(id@),
    {
        join_path(&self.cert_dir, &join2(id, &self.cert_suffix))
    }

    pub fn key_path(&self, id: &str) -> (r: String)
        ensures
            r@ == self@.key_path(id@),
    {
        join_path(&self.cert_dir, &join2(id, &self.key_suffix))
    }
}

/// With an accepted section no file name ends with both suffixes, so that no file is taken for a
/// certificate and a key at once.
pub proof fn law_no_file_is_certificate_and_key(file: FileTlsModel, name: Seq<char>)
    requires
        tls_error(file) is None,
    ensures
        !(file.cert_suffix.is_suffix_of(name) && file.key_suffix.is_suffix_of(name)),
{
    let cert = file.cert_suffix;
    let key = file.key_suffix;
    if cert.is_suffix_of(name) && key.is_suffix_of(name) {
        if cert.len() <= key.len() {
            assert(cert =~= key.subrange(key.len() - cert.len(), key.len() as int)) by {
                assert forall|i: int| 0 <= i < cert.len() implies cert[i] == key[key.len()
                    - cert.len() + i] by {
                    assert(cert[i] == name[name.len() - cert.len() + i]);
                    assert(key[key.len() - cert.len() + i] == name[name.len() - key.len() + (
                    key.len() - cert.len() + i)]);
                }
            }
            assert(cert.is_suffix_of(key));
        } else {
            assert(key =~= cert.subrange(cert.len() - key.len(), cert.len() as int)) by {
                assert forall|i: int| 0 <= i < key.len() implies key[i] == cert[cert.len()
                    - key.len() + i] by {
                    assert(key[i] == name[name.len() - key.len() + i]);
                    assert(cert[cert.len() - key.len() + i] == name[name.len() - cert.len() + (
                    cert.len() - key.len() + i)]);
                }
            }
            assert(key.is_suffix_of(cert));
        }
    }
}

/// A section is accepted exactly where the directory is named, both suffixes are names and neither
/// ends with the other, and the default, if there is one, is an id. It then holds what the file says,
/// with the directory as seen from that of the file.
pub proof fn law_tls_is_as_the_file_says(file: FileTlsModel, directory: Seq<char>)
    ensures
        ({
            let r = tls_result(file, directory);
            &&& r is Ok <==> {
                &&& file.cert_dir.len() > 0
                &&& file.cert_suffix.len() > 0 && !file.cert_suffix.contains('/')
                    && !file.cert_suffix.contains('\\')
                &&& file.key_suffix.len() > 0 && !file.key_suffix.contains('/')
                    && !file.key_suffix.contains('\\')
                &&& !file.key_suffix.is_suffix_of(file.cert_suffix)
                &&& !file.cert_suffix.is_suffix_of(file.key_suffix)
                &&& file.default_certificate matches Some(id) ==> certificate_id_error(
                    "tls.default_certificate"@,
                    id,
                ) is None
            }
            &&& r matches Ok(tls) ==> {
                &&& tls.cert_dir == join(directory, file.cert_dir)
                &&& tls.cert_suffix == file.cert_suffix
                &&& tls.key_suffix == file.key_suffix
                &&& tls.default_certificate == file.default_certificate
            }
        }),
{
}

/// The first thing that is wrong with the section is the one that is told.
pub proof fn law_first_fault_of_tls_is_told(file: FileTlsModel, directory: Seq<char>)
    ensures
        ({
            let named = file.cert_dir.len() > 0;
            let cert = suffix_error("tls.cert_suffix"@, file.cert_suffix);
            let key = suffix_error("tls.key_suffix"@, file.key_suffix);
            let overlap = file.key_suffix.is_suffix_of(file.cert_suffix)
                || file.cert_suffix.is_suffix_of(file.key_suffix);
            let told = tls_result(file, directory)->Err_0;
            &&& !named ==> told == ConfigErrorModel::Invalid(
                "tls.cert_dir"@ + " must not be empty"@,
            )
            &&& named && cert is Some ==> Some(told) == cert
            &&& named && cert is None && key is Some ==> Some(told) == key
            &&& named && cert is None && key is None && overlap ==> told
                == ConfigErrorModel::Invalid(
                "tls.cert_suffix and tls.key_suffix must be distinct and non-overlapping"@,
            )
            &&& named && cert is None && key is None && !overlap ==> (
            file.default_certificate matches Some(id) ==> (tls_result(file, directory) is Err ==> Some(
                told,
            ) == certificate_id_error("tls.default_certificate"@, id)))
        }),
{
}

/// The files of a certificate stand in the directory, under its id followed by the suffix of
/// certificates or of keys.
pub proof fn law_files_are_named_by_id(tls: TlsModel, id: Seq<char>)
    requires
        tls.cert_dir.len() > 0,
        tls.cert_dir.last() != '/',
        id.len() > 0,
        id[0] != '/',
    ensures
        tls.cert_path(id) == tls.cert_dir + "/"@ + (id + tls.cert_suffix),
        tls.key_path(id) == tls.cert_dir + "/"@ + (id + tls.key_suffix),
{
    assert((id + tls.cert_suffix)[0] == id[0]);
    assert((id + tls.key_suffix)[0] == id[0]);
}

} // verus!
