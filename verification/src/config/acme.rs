//! The section on managed certificates.

use vstd::hash_set::StringHashSet;
use vstd::prelude::*;

use crate::net::{bytes_as_nat, socket, IpAddr, IpModel, SocketAddr, SocketModel};
use crate::order::{is_sorted, law_sort, lemma_sort_contains, sort_texts, sorted_texts};
use crate::paths::join;
use crate::text::{
    append, append_decimal, contains_char, contains_whitespace, debug_of, debug_text, decimal,
    has_whitespace, join2, join3, opt_str, opt_text, same_text, texts, trim, trimmed,
};
use crate::time::{seconds, Duration};

use super::domain::{domain_result, normalize_domain};
use super::error::{
    certificate_id_error, path_error, resolve_config_path, validate_certificate_id, validate_path,
    ConfigError, ConfigErrorModel,
};

verus! {

pub const DEFAULT_ACME_FALLBACK_RENEW_BEFORE_DAYS: u64 = 30;

pub const DEFAULT_ACME_CHECK_INTERVAL_HOURS: u64 = 12;

pub const MAX_ACME_FALLBACK_RENEW_BEFORE_DAYS: u64 = 90;

pub const MAX_ACME_CHECK_INTERVAL_HOURS: u64 = 7 * 24;

/// Port 80 on every IPv4 address.
pub open spec fn http01_default() -> SocketModel {
    socket(IpModel::V4(seq![0nat, 0nat, 0nat, 0nat]), 80)
}

pub fn default_acme_http01_listen() -> (r: SocketAddr)
    ensures
        r@ == http01_default(),
{
    let octets: [u8; 4] = [0, 0, 0, 0];
    assert(bytes_as_nat(octets@) =~= seq![0nat, 0nat, 0nat, 0nat]);
    SocketAddr::new(IpAddr::V4(octets), 80)
}

pub fn default_acme_state_dir() -> (r: String)
    ensures
        r@ == "state/acme"@,
{
    "state/acme".to_owned()
}

pub fn default_acme_fallback_renew_before_days() -> (r: u64)
    ensures
        r == DEFAULT_ACME_FALLBACK_RENEW_BEFORE_DAYS,
{
    DEFAULT_ACME_FALLBACK_RENEW_BEFORE_DAYS
}

pub fn default_acme_check_interval_hours() -> (r: u64)
    ensures
        r == DEFAULT_ACME_CHECK_INTERVAL_HOURS,
{
    DEFAULT_ACME_CHECK_INTERVAL_HOURS
}

/// Which directory of the certificate authority orders go to.
#[derive(Clone, Copy, Debug, PartialEq, Eq, Structural)]
pub enum AcmeEnvironment {
    Production,
    Staging,
}

#[derive(Clone, Copy, Debug, PartialEq, Eq, Structural)]
pub enum FileAcmeEnvironment {
    Production,
    Staging,
}

impl Default for FileAcmeEnvironment {
    fn default() -> (r: FileAcmeEnvironment)
        ensures
            r == FileAcmeEnvironment::Production,
    {
        FileAcmeEnvironment::Production
    }
}

pub open spec fn environment_of(environment: FileAcmeEnvironment) -> AcmeEnvironment {
    match environment {
        FileAcmeEnvironment::Production => AcmeEnvironment::Production,
        FileAcmeEnvironment::Staging => AcmeEnvironment::Staging,
    }
}

impl vstd::std_specs::convert::FromSpecImpl<FileAcmeEnvironment> for AcmeEnvironment {
    open spec fn obeys_from_spec() -> bool {
        true
    }

    open spec fn from_spec(environment: FileAcmeEnvironment) -> AcmeEnvironment {
        environment_of(environment)
    }
}

impl From<FileAcmeEnvironment> for AcmeEnvironment {
    fn from(environment: FileAcmeEnvironment) -> (r: AcmeEnvironment) {
        match environment {
            FileAcmeEnvironment::Production => AcmeEnvironment::Production,
            FileAcmeEnvironment::Staging => AcmeEnvironment::Staging,
        }
    }
}

/// A managed certificate as a file has it.
pub struct FileAcmeCertificateConfig {
    pub id: String,
    pub domains: Vec<String>,
}

pub struct FileCertificateModel {
    pub id: Seq<char>,
    pub domains: Seq<Seq<char>>,
}

impl View for FileAcmeCertificateConfig {
    type V = FileCertificateModel;

    open spec fn view(&self) -> FileCertificateModel {
        FileCertificateModel { id: self.id@, domains: texts(self.domains@) }
    }
}

pub open spec fn file_certificates(v: Seq<FileAcmeCertificateConfig>) -> Seq<FileCertificateModel> {
    v.map_values(|c: FileAcmeCertificateConfig| c@)
}

/// A certificate that the gateway orders and renews.
#[derive(Clone)]
pub struct AcmeCertificateConfig {
    id: String,
    domains: Vec<String>,
}

pub struct CertificateModel {
    pub id: Seq<char>,
    pub domains: Seq<Seq<char>>,
}

impl View for AcmeCertificateConfig {
    type V = CertificateModel;

    closed spec fn view(&self) -> CertificateModel {
        CertificateModel { id: self.id@, domains: texts(self.domains@) }
    }
}

impl AcmeCertificateConfig {
    pub fn id(&self) -> (r: &str)
        ensures
            r@ == self@.id,
    {
        &self.id
    }

    pub fn domains(&self) -> (r: &Vec<String>)
        ensures
            texts(r@) == self@.domains,
    {
        &self.domains
    }
}

pub open spec fn certificates(v: Seq<AcmeCertificateConfig>) -> Seq<CertificateModel> {
    v.map_values(|c: AcmeCertificateConfig| c@)
}

/// The section as a file has it.
pub struct FileAcmeConfig {
    pub enabled: bool,
    pub http01_listen: SocketAddr,
    pub email: Option<String>,
    pub environment: FileAcmeEnvironment,
    pub state_dir: String,
    pub fallback_renew_before_days: u64,
    pub check_interval_hours: u64,
    pub certificates: Vec<FileAcmeCertificateConfig>,
}

pub struct FileAcmeModel {
    pub enabled: bool,
    pub http01_listen: SocketModel,
    pub email: Option<Seq<char>>,
    pub environment: FileAcmeEnvironment,
    pub state_dir: Seq<char>,
    pub fallback_renew_before_days: nat,
    pub check_interval_hours: nat,
    pub certificates: Seq<FileCertificateModel>,
}

impl View for FileAcmeConfig {
    type V = FileAcmeModel;

    open spec fn view(&self) -> FileAcmeModel {
        FileAcmeModel {
            enabled: self.enabled,
            http01_listen: self.http01_listen@,
            email: opt_text(self.email),
            environment: self.environment,
            state_dir: self.state_dir@,
            fallback_renew_before_days: self.fallback_renew_before_days as nat,
            check_interval_hours: self.check_interval_hours as nat,
            certificates: file_certificates(self.certificates@),
        }
    }
}

/// Which certificates are managed, how, and on whose behalf.
#[derive(Clone)]
pub struct AcmeConfig {
    enabled: bool,
    http01_listen: SocketAddr,
    email: Option<String>,
    environment: AcmeEnvironment,
    state_dir: String,
    fallback_renew_before: Duration,
    check_interval: Duration,
    certificates: Vec<AcmeCertificateConfig>,
}

pub struct AcmeModel {
    pub enabled: bool,
    pub http01_listen: SocketModel,
    pub email: Option<Seq<char>>,
    pub environment: AcmeEnvironment,
    pub state_dir: Seq<char>,
    pub fallback_renew_before: nat,
    pub check_interval: nat,
    pub certificates: Seq<CertificateModel>,
}

impl View for AcmeConfig {
    type V = AcmeModel;

    closed spec fn view(&self) -> AcmeModel {
        AcmeModel {
            enabled: self.enabled,
            http01_listen: self.http01_listen@,
            email: opt_text(self.email),
            environment: self.environment,
            state_dir: self.state_dir@,
            fallback_renew_before: self.fallback_renew_before@,
            check_interval: self.check_interval@,
            certificates: certificates(self.certificates@),
        }
    }
}

/// An address without surrounding white space; an empty one is none.
pub open spec fn plain_email(email: Option<Seq<char>>) -> Option<Seq<char>> {
    match email {
        Some(value) => if trim(value).len() == 0 {
            None
        } else {
            Some(trim(value))
        },
        None => None,
    }
}

/// The first thing that is wrong with the section besides its certificates, if anything.
pub open spec fn settings_error(file: FileAcmeModel) -> Option<ConfigErrorModel> {
    let email = plain_email(file.email);
    if path_error("acme.state_dir"@, file.state_dir) is Some {
        path_error("acme.state_dir"@, file.state_dir)
    } else if file.fallback_renew_before_days == 0 || file.fallback_renew_before_days
        > MAX_ACME_FALLBACK_RENEW_BEFORE_DAYS {
        Some(
            ConfigErrorModel::Invalid(
                "acme.fallback_renew_before_days must be between 1 and "@ + decimal(
                    MAX_ACME_FALLBACK_RENEW_BEFORE_DAYS as nat,
                ),
            ),
        )
    } else if file.check_interval_hours == 0 || file.check_interval_hours
        > MAX_ACME_CHECK_INTERVAL_HOURS {
        Some(
            ConfigErrorModel::Invalid(
                "acme.check_interval_hours must be between 1 and "@ + decimal(
                    MAX_ACME_CHECK_INTERVAL_HOURS as nat,
                ),
            ),
        )
    } else if file.enabled && email is None {
        Some(ConfigErrorModel::Invalid("acme.email is required when ACME is enabled"@))
    } else if email is Some && (has_whitespace(email->0) || !email->0.contains('@')) {
        Some(ConfigErrorModel::Invalid("acme.email must be a plain email address"@))
    } else if file.enabled && file.certificates.len() == 0 {
        Some(
            ConfigErrorModel::Invalid(
                "acme.certificates must contain at least one managed certificate when ACME is enabled"@,
            ),
        )
    } else {
        None
    }
}

pub open spec fn id_field(index: nat) -> Seq<char> {
    "acme.certificates["@ + decimal(index) + "].id"@
}

/// Whether one of the certificates has the id `id`.
pub open spec fn has_id(done: Seq<CertificateModel>, id: Seq<char>) -> bool {
    exists|i: int| 0 <= i < done.len() && (#[trigger] done[i]).id == id
}

/// Whether one of the certificates covers `domain`.
pub open spec fn has_domain(done: Seq<CertificateModel>, domain: Seq<char>) -> bool {
    exists|i: int| 0 <= i < done.len() && (#[trigger] done[i]).domains.contains(domain)
}

/// What the first `n` domains of a certificate come to, given the certificates before it.
pub open spec fn domains_result(
    index: nat,
    file: FileCertificateModel,
    done: Seq<CertificateModel>,
    n: int,
) -> Result<Seq<Seq<char>>, ConfigErrorModel>
    decreases n,
{
    if n <= 0 {
        Ok(Seq::empty())
    } else {
        match domains_result(index, file, done, n - 1) {
            Err(e) => Err(e),
            Ok(earlier) => match domain_result(file.domains[n - 1]) {
                Err(reason) => Err(
                    ConfigErrorModel::Invalid(
                        "invalid acme.certificates["@ + decimal(index) + "] domain "@ + debug_text(
                            file.domains[n - 1],
                        ) + ": "@ + reason,
                    ),
                ),
                Ok(domain) => if earlier.contains(domain) {
                    Err(
                        ConfigErrorModel::Invalid(
                            "duplicate domain "@ + debug_text(domain) + " in ACME certificate "@
                                + debug_text(file.id),
                        ),
                    )
                } else if has_domain(done, domain) {
                    Err(
                        ConfigErrorModel::Invalid(
                            "ACME domain "@ + debug_text(domain)
                                + " is assigned to more than one certificate"@,
                        ),
                    )
                } else {
                    Ok(earlier.push(domain))
                },
            },
        }
    }
}

/// What certificate `index` comes to, given the certificates before it.
pub open spec fn certificate_result(
    index: nat,
    file: FileCertificateModel,
    done: Seq<CertificateModel>,
) -> Result<CertificateModel, ConfigErrorModel> {
    if certificate_id_error(id_field(index), file.id) is Some {
        Err(certificate_id_error(id_field(index), file.id)->0)
    } else if has_id(done, file.id) {
        Err(
            ConfigErrorModel::Invalid("duplicate ACME certificate id "@ + debug_text(file.id)),
        )
    } else if file.domains.len() == 0 {
        Err(
            ConfigErrorModel::Invalid(
                "acme.certificates["@ + decimal(index) + "].domains must not be empty"@,
            ),
        )
    } else {
        match domains_result(index, file, done, file.domains.len() as int) {
            Err(e) => Err(e),
            Ok(domains) => Ok(CertificateModel { id: file.id, domains: sort_texts(domains) }),
        }
    }
}

/// What the first `n` certificates come to.
pub open spec fn certificates_result(file: Seq<FileCertificateModel>, n: int) -> Result<
    Seq<CertificateModel>,
    ConfigErrorModel,
>
    decreases n,
{
    if n <= 0 {
        Ok(Seq::empty())
    } else {
        match certificates_result(file, n - 1) {
            Err(e) => Err(e),
            Ok(done) => match certificate_result((n - 1) as nat, file[n - 1], done) {
                Err(e) => Err(e),
                Ok(certificate) => Ok(done.push(certificate)),
            },
        }
    }
}

/// What the section comes to in a file that stands in `directory`.
pub open spec fn acme_result(file: FileAcmeModel, directory: Seq<char>) -> Result<
    AcmeModel,
    ConfigErrorModel,
> {
    match settings_error(file) {
        Some(e) => Err(e),
        None => match certificates_result(file.certificates, file.certificates.len() as int) {
            Err(e) => Err(e),
            Ok(done) => Ok(
                AcmeModel {
                    enabled: file.enabled,
                    http01_listen: file.http01_listen,
                    email: plain_email(file.email),
                    environment: environment_of(file.environment),
                    state_dir: join(directory, file.state_dir),
                    fallback_renew_before: seconds(file.fallback_renew_before_days * 24 * 60 * 60),
                    check_interval: seconds(file.check_interval_hours * 60 * 60),
                    certificates: done,
                },
            ),
        },
    }
}

/// What holds without the section.
pub open spec fn disabled_acme(directory: Seq<char>) -> AcmeModel {
    AcmeModel {
        enabled: false,
        http01_listen: http01_default(),
        email: None,
        environment: AcmeEnvironment::Production,
        state_dir: join(directory, "state/acme"@),
        fallback_renew_before: seconds(
            (DEFAULT_ACME_FALLBACK_RENEW_BEFORE_DAYS * 24 * 60 * 60) as nat,
        ),
        check_interval: seconds((DEFAULT_ACME_CHECK_INTERVAL_HOURS * 60 * 60) as nat),
        certificates: Seq::empty(),
    }
}

proof fn lemma_domains_error_stays(
    index: nat,
    file: FileCertificateModel,
    done: Seq<CertificateModel>,
    n: int,
    m: int,
)
    requires
        domains_result(index, file, done, n) is Err,
        n <= m,
    ensures
        domains_result(index, file, done, m) == domains_result(index, file, done, n),
    decreases m - n,
{
    if n < m {
        lemma_domains_error_stays(index, file, done, n, m - 1);
    }
}

proof fn lemma_certificates_error_stays(file: Seq<FileCertificateModel>, n: int, m: int)
    requires
        certificates_result(file, n) is Err,
        n <= m,
    ensures
        certificates_result(file, m) == certificates_result(file, n),
    decreases m - n,
{
    if n < m {
        lemma_certificates_error_stays(file, n, m - 1);
    }
}

proof fn lemma_domains(
    index: nat,
    file: FileCertificateModel,
    done: Seq<CertificateModel>,
    n: int,
)
    requires
        0 <= n <= file.domains.len(),
        domains_result(index, file, done, n) is Ok,
    ensures
        domains_result(index, file, done, n)->Ok_0.len() == n,
        domains_result(index, file, done, n)->Ok_0.no_duplicates(),
        forall|d: Seq<char>| #[trigger]
            domains_result(index, file, done, n)->Ok_0.contains(d) ==> !has_domain(done, d),
    decreases n,
{
    if n > 0 {
        lemma_domains(index, file, done, n - 1);
        let earlier = domains_result(index, file, done, n - 1)->Ok_0;
        let now = domains_result(index, file, done, n)->Ok_0;
        let domain = domain_result(file.domains[n - 1])->Ok_0;
        assert(now == earlier.push(domain));
        assert forall|d: Seq<char>| #[trigger] now.contains(d) implies !has_domain(done, d) by {
            if d != domain {
                let k = now.index_of(d);
                assert(earlier[k] == d);
                assert(earlier.contains(d));
            }
        }
    }
}

/// What holds of the certificates of an accepted section.
pub open spec fn well_assigned(done: Seq<CertificateModel>) -> bool {
    &&& forall|i: int, j: int|
        0 <= i < j < done.len() ==> (#[trigger] done[i]).id != (#[trigger] done[j]).id
    &&& forall|i: int, j: int, d: Seq<char>|
        0 <= i < j < done.len() && #[trigger] done[i].domains.contains(d)
            ==> !(#[trigger] done[j].domains.contains(d))
    &&& forall|i: int|
        0 <= i < done.len() ==> (#[trigger] done[i]).domains.len() > 0 && is_sorted(
            done[i].domains,
        ) && done[i].domains.no_duplicates()
}

proof fn lemma_certificates(file: Seq<FileCertificateModel>, n: int)
    requires
        0 <= n <= file.len(),
        certificates_result(file, n) is Ok,
    ensures
        certificates_result(file, n)->Ok_0.len() == n,
        well_assigned(certificates_result(file, n)->Ok_0),
    decreases n,
{
    if n > 0 {
        lemma_certificates(file, n - 1);
        let earlier = certificates_result(file, n - 1)->Ok_0;
        let now = certificates_result(file, n)->Ok_0;
        let index = (n - 1) as nat;
        let entry = file[n - 1];
        let added = certificate_result(index, entry, earlier)->Ok_0;
        assert(now == earlier.push(added));
        let unsorted = domains_result(index, entry, earlier, entry.domains.len() as int)->Ok_0;
        lemma_domains(index, entry, earlier, entry.domains.len() as int);
        law_sort(unsorted);
        unsorted.lemma_multiset_has_no_duplicates();
        sort_texts(unsorted).lemma_multiset_has_no_duplicates_conv();
        assert forall|i: int, j: int|
            0 <= i < j < now.len() implies (#[trigger] now[i]).id != (#[trigger] now[j]).id by {
            if j == n - 1 {
                assert(earlier[i].id != entry.id);
            } else {
                assert(earlier[i].id != earlier[j].id);
            }
        }
        assert forall|i: int, j: int, d: Seq<char>|
            0 <= i < j < now.len() && #[trigger] now[i].domains.contains(d) implies !(
        #[trigger] now[j].domains.contains(d)) by {
            if j == n - 1 {
                assert(earlier[i].domains.contains(d));
                assert(has_domain(earlier, d));
                lemma_sort_contains(unsorted, d);
            } else {
                assert(earlier[i].domains.contains(d));
                assert(!earlier[j].domains.contains(d));
            }
        }
        assert forall|i: int| 0 <= i < now.len() implies (#[trigger] now[i]).domains.len() > 0
            && is_sorted(now[i].domains) && now[i].domains.no_duplicates() by {
            if i < n - 1 {
                assert(earlier[i].domains.len() > 0);
            }
        }
    }
}

/// In an accepted section every certificate has an id of its own and covers at least one domain,
/// its domains stand in order, and no domain is assigned twice.
pub proof fn law_domains_are_assigned_once(file: FileAcmeModel, directory: Seq<char>)
    requires
        acme_result(file, directory) is Ok,
    ensures
        acme_result(file, directory)->Ok_0.certificates.len() == file.certificates.len(),
        well_assigned(acme_result(file, directory)->Ok_0.certificates),
{
    lemma_certificates(file.certificates, file.certificates.len() as int);
}

/// With ACME enabled there is someone to order for and something to order.
pub proof fn law_enabled_acme_is_complete(file: FileAcmeModel, directory: Seq<char>)
    requires
        acme_result(file, directory) is Ok,
        file.enabled,
    ensures
        acme_result(file, directory)->Ok_0.email is Some,
        acme_result(file, directory)->Ok_0.certificates.len() > 0,
{
    lemma_certificates(file.certificates, file.certificates.len() as int);
}

/// The set of managed domains after a certificate that covers `local`.
pub open spec fn manages(
    managed: Set<Seq<char>>,
    done: Seq<CertificateModel>,
    local: Seq<Seq<char>>,
) -> bool {
    forall|domain: Seq<char>| #[trigger]
        managed.contains(domain) <==> (has_domain(done, domain) || local.contains(domain))
}

fn check_domains(
    index: usize,
    certificate: &FileAcmeCertificateConfig,
    managed: &mut StringHashSet,
    Ghost(done): Ghost<Seq<CertificateModel>>,
) -> (r: Result<Vec<String>, ConfigError>)
    requires
        manages(old(managed)@, done, Seq::empty()),
    ensures
        match r {
            Ok(domains) => {
                &&& domains_result(
                    index as nat,
                    certificate@,
                    done,
                    certificate@.domains.len() as int,
                ) == Ok::<Seq<Seq<char>>, ConfigErrorModel>(texts(domains@))
                &&& manages(final(managed)@, done, texts(domains@))
            },
            Err(e) => domains_result(
                index as nat,
                certificate@,
                done,
                certificate@.domains.len() as int,
            ) == Err::<Seq<Seq<char>>, ConfigErrorModel>(e@),
        },
{
    let ghost file = certificate@;
    let ghost last = file.domains.len() as int;
    let mut local = StringHashSet::new();
    let mut domains: Vec<String> = Vec::new();
    let mut i: usize = 0;
    assert(texts(domains@) =~= Seq::<Seq<char>>::empty());
    while i < certificate.domains.len()
        invariant
            i <= certificate.domains@.len(),
            file == certificate@,
            last == file.domains.len(),
            last == certificate.domains@.len(),
            domains_result(index as nat, file, done, i as int) == Ok::<
                Seq<Seq<char>>,
                ConfigErrorModel,
            >(texts(domains@)),
            forall|domain: Seq<char>| #[trigger]
                local@.contains(domain) <==> texts(domains@).contains(domain),
            manages(managed@, done, texts(domains@)),
        decreases certificate.domains@.len() - i,
    {
        let raw = &certificate.domains[i];
        assert(file.domains[i as int] == raw@);
        let ghost earlier = texts(domains@);
        let domain = match normalize_domain(raw) {
            Ok(domain) => domain,
            Err(reason) => {
                let mut s = "invalid acme.certificates[".to_owned();
                append_decimal(&mut s, index as u128);
                append(&mut s, "] domain ");
                append(&mut s, &debug_of(raw));
                append(&mut s, ": ");
                append(&mut s, reason);
                proof {
                    lemma_domains_error_stays(index as nat, file, done, i + 1, last);
                }
                return Err(ConfigError::Invalid(s));
            },
        };
        if !local.insert(domain.clone()) {
            let mut s = join3("duplicate domain ", &debug_of(&domain), " in ACME certificate ");
            append(&mut s, &debug_of(&certificate.id));
            proof {
                lemma_domains_error_stays(index as nat, file, done, i + 1, last);
            }
            return Err(ConfigError::Invalid(s));
        }
        if !managed.insert(domain.clone()) {
            let s = join3(
                "ACME domain ",
                &debug_of(&domain),
                " is assigned to more than one certificate",
            );
            proof {
                assert(has_domain(done, domain@));
                lemma_domains_error_stays(index as nat, file, done, i + 1, last);
            }
            return Err(ConfigError::Invalid(s));
        }
        let ghost name = domain@;
        domains.push(domain);
        proof {
            assert(texts(domains@) =~= earlier.push(name));
            assert forall|d: Seq<char>| texts(domains@).contains(d) <==> (earlier.contains(d) || d
                == name) by {
                if earlier.contains(d) {
                    let k = earlier.index_of(d);
                    assert(texts(domains@)[k] == d);
                }
                if d == name {
                    assert(texts(domains@)[earlier.len() as int] == d);
                }
            }
        }
        i += 1;
    }
    Ok(domains)
}

proof fn lemma_has_id_of_more(
    earlier: Seq<CertificateModel>,
    added: CertificateModel,
    id: Seq<char>,
)
    ensures
        has_id(earlier.push(added), id) <==> has_id(earlier, id) || id == added.id,
{
    let now = earlier.push(added);
    if has_id(earlier, id) {
        let k = choose|k: int| 0 <= k < earlier.len() && (#[trigger] earlier[k]).id == id;
        assert(now[k].id == id);
    }
    if id == added.id {
        assert(now[earlier.len() as int].id == id);
    }
    if has_id(now, id) && id != added.id {
        let k = choose|k: int| 0 <= k < now.len() && (#[trigger] now[k]).id == id;
        assert(earlier[k].id == id);
    }
}

proof fn lemma_has_domain_of_more(
    earlier: Seq<CertificateModel>,
    added: CertificateModel,
    d: Seq<char>,
)
    ensures
        has_domain(earlier.push(added), d) <==> has_domain(earlier, d) || added.domains.contains(d),
{
    let now = earlier.push(added);
    if has_domain(earlier, d) {
        let k = choose|k: int|
            0 <= k < earlier.len() && (#[trigger] earlier[k]).domains.contains(d);
        assert(now[k].domains.contains(d));
    }
    if added.domains.contains(d) {
        assert(now[earlier.len() as int].domains.contains(d));
    }
    if has_domain(now, d) && !added.domains.contains(d) {
        let k = choose|k: int| 0 <= k < now.len() && (#[trigger] now[k]).domains.contains(d);
        assert(earlier[k].domains.contains(d));
    }
}

impl FileAcmeConfig {
    fn check_settings(&self) -> (r: Result<Option<String>, ConfigError>)
        ensures
            match r {
                Ok(email) => settings_error(self@) is None && opt_text(email) == plain_email(
                    self@.email,
                ),
                Err(e) => settings_error(self@) == Some(e@),
            },
    {
        match validate_path("acme.state_dir", &self.state_dir) {
            Ok(_) => {},
            Err(e) => {
                return Err(e);
            },
        }
        if self.fallback_renew_before_days == 0 || self.fallback_renew_before_days
            > MAX_ACME_FALLBACK_RENEW_BEFORE_DAYS {
            let mut s = "acme.fallback_renew_before_days must be between 1 and ".to_owned();
            append_decimal(&mut s, MAX_ACME_FALLBACK_RENEW_BEFORE_DAYS as u128);
            return Err(ConfigError::Invalid(s));
        }
        if self.check_interval_hours == 0 || self.check_interval_hours
            > MAX_ACME_CHECK_INTERVAL_HOURS {
            let mut s = "acme.check_interval_hours must be between 1 and ".to_owned();
            append_decimal(&mut s, MAX_ACME_CHECK_INTERVAL_HOURS as u128);
            return Err(ConfigError::Invalid(s));
        }
        let email: Option<String> = match &self.email {
            Some(value) => {
                let value = trimmed(value);
                if value.as_str().is_empty() {
                    None
                } else {
                    Some(value)
                }
            },
            None => None,
        };
        match &email {
            None => if self.enabled {
                return Err(
                    ConfigError::Invalid("acme.email is required when ACME is enabled".to_owned()),
                );
            },
            Some(value) => if contains_whitespace(value) || !contains_char(value, '@') {
                return Err(
                    ConfigError::Invalid("acme.email must be a plain email address".to_owned()),
                );
            },
        }
        if self.enabled && self.certificates.len() == 0 {
            return Err(
                ConfigError::Invalid(
                    "acme.certificates must contain at least one managed certificate when ACME is enabled".to_owned(),
                ),
            );
        }
        Ok(email)
    }

    fn check_certificates(&self) -> (r: Result<Vec<AcmeCertificateConfig>, ConfigError>)
        ensures
            match r {
                Ok(done) => certificates_result(
                    self@.certificates,
                    self@.certificates.len() as int,
                ) == Ok::<Seq<CertificateModel>, ConfigErrorModel>(certificates(done@)),
                Err(e) => certificates_result(
                    self@.certificates,
                    self@.certificates.len() as int,
                ) == Err::<Seq<CertificateModel>, ConfigErrorModel>(e@),
            },
    {
        let ghost file = self@.certificates;
        let ghost last = file.len() as int;
        let mut ids = StringHashSet::new();
        let mut managed = StringHashSet::new();
        let mut done: Vec<AcmeCertificateConfig> = Vec::new();
        let mut index: usize = 0;
        proof {
            assert(certificates(done@) =~= Seq::<CertificateModel>::empty());
        }
        while index < self.certificates.len()
            invariant
                index <= self.certificates@.len(),
                file == self@.certificates,
                last == file.len(),
                last == self.certificates@.len(),
                certificates_result(file, index as int) == Ok::<
                    Seq<CertificateModel>,
                    ConfigErrorModel,
                >(certificates(done@)),
                forall|id: Seq<char>| #[trigger]
                    ids@.contains(id) <==> has_id(certificates(done@), id),
                manages(managed@, certificates(done@), Seq::empty()),
            decreases self.certificates@.len() - index,
        {
            let certificate = &self.certificates[index];
            let ghost earlier = certificates(done@);
            assert(file[index as int] == certificate@);
            let mut field = "acme.certificates[".to_owned();
            append_decimal(&mut field, index as u128);
            append(&mut field, "].id");
            match validate_certificate_id(&field, &certificate.id) {
                Ok(_) => {},
                Err(e) => {
                    proof {
                        lemma_certificates_error_stays(file, index + 1, last);
                    }
                    return Err(e);
                },
            }
            if !ids.insert(certificate.id.clone()) {
                let s = join2("duplicate ACME certificate id ", &debug_of(&certificate.id));
                proof {
                    lemma_certificates_error_stays(file, index + 1, last);
                }
                return Err(ConfigError::Invalid(s));
            }
            if certificate.domains.len() == 0 {
                let mut s = "acme.certificates[".to_owned();
                append_decimal(&mut s, index as u128);
                append(&mut s, "].domains must not be empty");
                proof {
                    lemma_certificates_error_stays(file, index + 1, last);
                }
                return Err(ConfigError::Invalid(s));
            }
            let domains = match check_domains(index, certificate, &mut managed, Ghost(earlier)) {
                Ok(domains) => domains,
                Err(e) => {
                    proof {
                        lemma_certificates_error_stays(file, index + 1, last);
                    }
                    return Err(e);
                },
            };
            let ghost unsorted = texts(domains@);
            let sorted = sorted_texts(domains);
            let ghost added = CertificateModel {
                id: certificate.id@,
                domains: sort_texts(unsorted),
            };
            done.push(AcmeCertificateConfig { id: certificate.id.clone(), domains: sorted });
            proof {
                assert(certificates(done@) =~= earlier.push(added));
                let now = certificates(done@);
                assert forall|id: Seq<char>| #[trigger] ids@.contains(id) <==> has_id(now, id) by {
                    lemma_has_id_of_more(earlier, added, id);
                }
                assert forall|d: Seq<char>| #[trigger]
                    managed@.contains(d) <==> (has_domain(now, d) || Seq::<Seq<char>>::empty().contains(
                        d,
                    )) by {
                    lemma_sort_contains(unsorted, d);
                    lemma_has_domain_of_more(earlier, added, d);
                }
            }
            index += 1;
        }
        Ok(done)
    }

    pub fn validate(self, config_directory: &str) -> (r: Result<AcmeConfig, ConfigError>)
        ensures
            match r {
                Ok(acme) => acme_result(self@, config_directory@) == Ok::<
                    AcmeModel,
                    ConfigErrorModel,
                >(acme@),
                Err(e) => acme_result(self@, config_directory@) == Err::<
                    AcmeModel,
                    ConfigErrorModel,
                >(e@),
            },
    {
        let email = match self.check_settings() {
            Ok(email) => email,
            Err(e) => {
                return Err(e);
            },
        };
        let certificates = match self.check_certificates() {
            Ok(certificates) => certificates,
            Err(e) => {
                return Err(e);
            },
        };
        Ok(
            AcmeConfig {
                enabled: self.enabled,
                http01_listen: self.http01_listen,
                email,
                environment: AcmeEnvironment::from(self.environment),
                state_dir: resolve_config_path(config_directory, &self.state_dir),
                fallback_renew_before: Duration::from_secs(
                    self.fallback_renew_before_days * 24 * 60 * 60,
                ),
                check_interval: Duration::from_secs(self.check_interval_hours * 60 * 60),
                certificates,
            },
        )
    }
}

impl AcmeConfig {
    pub fn enabled(&self) -> (r: bool)
        ensures
            r == self@.enabled,
    {
        self.enabled
    }

    pub fn http01_listen(&self) -> (r: SocketAddr)
        ensures
            r@ == self@.http01_listen,
    {
        self.http01_listen
    }

    pub fn email(&self) -> (r: Option<&str>)
        ensures
            opt_str(r) == self@.email,
    {
        match &self.email {
            Some(email) => Some(email.as_str()),
            None => None,
        }
    }

    pub fn environment(&self) -> (r: AcmeEnvironment)
        ensures
            r == self@.environment,
    {
        self.environment
    }

    pub fn state_dir(&self) -> (r: &str)
        ensures
            r@ == self@.state_dir,
    {
        &self.state_dir
    }

    pub fn fallback_renew_before(&self) -> (r: Duration)
        ensures
            r@ == self@.fallback_renew_before,
    {
        self.fallback_renew_before
    }

    pub fn check_interval(&self) -> (r: Duration)
        ensures
            r@ == self@.check_interval,
    {
        self.check_interval
    }

    pub fn certificates(&self) -> (r: &Vec<AcmeCertificateConfig>)
        ensures
            certificates(r@) == self@.certificates,
    {
        &self.certificates
    }

    /// Whether the certificate named `id` is one of the managed ones.
    pub fn manages_certificate(&self, id: &str) -> (r: bool)
        ensures
            r == has_id(self@.certificates, id@),
    {
        let mut i: usize = 0;
        while i < self.certificates.len()
            invariant
                i <= self.certificates@.len(),
                forall|j: int| 0 <= j < i ==> (#[trigger] self@.certificates[j]).id != id@,
            decreases self.certificates@.len() - i,
        {
            assert(self@.certificates[i as int] == self.certificates@[i as int]@);
            if same_text(self.certificates[i].id(), id) {
                return true;
            }
            i += 1;
        }
        false
    }

    pub fn disabled(config_directory: &str) -> (r: AcmeConfig)
        ensures
            r@ == disabled_acme(config_directory@),
    {
        let certificates: Vec<AcmeCertificateConfig> = Vec::new();
        assert(self::certificates(certificates@) =~= Seq::<CertificateModel>::empty());
        AcmeConfig {
            enabled: false,
            http01_listen: default_acme_http01_listen(),
            email: None,
            environment: AcmeEnvironment::Production,
            state_dir: resolve_config_path(config_directory, "state/acme"),
            fallback_renew_before: Duration::from_secs(
                DEFAULT_ACME_FALLBACK_RENEW_BEFORE_DAYS * 24 * 60 * 60,
            ),
            check_interval: Duration::from_secs(DEFAULT_ACME_CHECK_INTERVAL_HOURS * 60 * 60),
            certificates,
        }
    }
}

/// The settings are accepted exactly where the state directory is named, certificates are renewed
/// one to 90 days ahead and checked every hour to every week, the address, if there is one, is plain,
/// and an enabled section has an address and a certificate.
pub proof fn law_settings_are_checked(file: FileAcmeModel)
    ensures
        ({
            let address = match file.email {
                Some(value) => trim(value),
                None => Seq::empty(),
            };
            settings_error(file) is None <==> {
                &&& file.state_dir.len() > 0
                &&& 1 <= file.fallback_renew_before_days <= 90
                &&& 1 <= file.check_interval_hours <= 168
                &&& address.len() > 0 ==> !has_whitespace(address) && address.contains('@')
                &&& file.enabled ==> address.len() > 0 && file.certificates.len() > 0
            }
        }),
{
}

/// An accepted section comes to what the file says: days and hours as spans of time, and the address
/// without surrounding white space.
pub proof fn law_acme_is_as_the_file_says(file: FileAcmeModel, directory: Seq<char>)
    ensures
        ({
            let r = acme_result(file, directory);
            let done = certificates_result(file.certificates, file.certificates.len() as int);
            &&& r is Ok <==> settings_error(file) is None && done is Ok
            &&& settings_error(file) matches Some(e) ==> r == Err::<AcmeModel, ConfigErrorModel>(e)
            &&& settings_error(file) is None ==> (done matches Err(e) ==> r == Err::<
                AcmeModel,
                ConfigErrorModel,
            >(e))
            &&& r matches Ok(acme) ==> {
                &&& acme.enabled == file.enabled
                &&& acme.http01_listen == file.http01_listen
                &&& acme.environment is Staging <==> file.environment is Staging
                &&& acme.state_dir == join(directory, file.state_dir)
                &&& acme.fallback_renew_before == file.fallback_renew_before_days * 86_400
                    * 1_000_000_000
                &&& acme.check_interval == file.check_interval_hours * 3_600 * 1_000_000_000
                &&& acme.certificates == done->Ok_0
                &&& acme.email is Some <==> file.email is Some && trim(file.email->0).len() > 0
                &&& acme.email is Some ==> acme.email->0 == trim(file.email->0)
            }
        }),
{
    let days = file.fallback_renew_before_days;
    let hours = file.check_interval_hours;
    assert(days * 24 * 60 * 60 == days * 86_400) by (nonlinear_arith);
    assert(hours * 60 * 60 == hours * 3_600) by (nonlinear_arith);
}

/// Without the section nothing is managed; what would be used is port 80 of every address, the
/// production directory, thirty days and twelve hours.
pub proof fn law_nothing_is_managed_without_a_section(directory: Seq<char>)
    ensures
        ({
            let acme = disabled_acme(directory);
            &&& !acme.enabled
            &&& acme.email is None
            &&& acme.certificates.len() == 0
            &&& acme.environment is Production
            &&& acme.http01_listen.port == 80
            &&& acme.http01_listen.ip == IpModel::V4(seq![0nat, 0nat, 0nat, 0nat])
            &&& acme.state_dir == join(directory, "state/acme"@)
            &&& acme.fallback_renew_before == 2_592_000 * 1_000_000_000
            &&& acme.check_interval == 43_200 * 1_000_000_000
        }),
{
}

/// The domains of a certificate are accepted exactly where each is a domain that can be managed, no
/// two come to the same name, and no certificate before has one of them. What they come to are their
/// names, in the order of the file.
pub proof fn law_domains_are_checked(
    index: nat,
    file: FileCertificateModel,
    done: Seq<CertificateModel>,
    n: int,
)
    requires
        0 <= n <= file.domains.len(),
    ensures
        ({
            let r = domains_result(index, file, done, n);
            &&& r is Ok <==> {
                &&& forall|k: int|
                    0 <= k < n ==> domain_result(#[trigger] file.domains[k]) is Ok && forall|i: int|
                        0 <= i < done.len() ==> !(#[trigger] done[i]).domains.contains(
                            domain_result(file.domains[k])->Ok_0,
                        )
                &&& forall|j: int, k: int|
                    0 <= j < k < n ==> domain_result(#[trigger] file.domains[j]) != domain_result(
                        #[trigger] file.domains[k],
                    )
            }
            &&& r matches Ok(domains) ==> domains.len() == n && forall|k: int|
                0 <= k < n ==> domain_result(#[trigger] file.domains[k]) == Ok::<
                    Seq<char>,
                    Seq<char>,
                >(domains[k])
        }),
    decreases n,
{
    if n > 0 {
        law_domains_are_checked(index, file, done, n - 1);
        let r = domains_result(index, file, done, n);
        let last = domain_result(file.domains[n - 1]);
        if domains_result(index, file, done, n - 1) is Ok {
            let earlier = domains_result(index, file, done, n - 1)->Ok_0;
            if last is Ok {
                let name = last->Ok_0;
                assert(has_domain(done, name) <==> !(forall|i: int|
                    0 <= i < done.len() ==> !(#[trigger] done[i]).domains.contains(name)));
                if earlier.contains(name) {
                    let j = choose|j: int| 0 <= j < earlier.len() && earlier[j] == name;
                    assert(domain_result(file.domains[j]) == domain_result(file.domains[n - 1]));
                }
                if r is Ok {
                    assert forall|j: int, k: int| 0 <= j < k < n implies domain_result(
                        #[trigger] file.domains[j],
                    ) != domain_result(#[trigger] file.domains[k]) by {
                        if k == n - 1 && domain_result(file.domains[j]) == last {
                            assert(earlier[j] == name);
                            assert(earlier.contains(name));
                        }
                    }
                }
            } else {
                assert(domain_result(file.domains[n - 1]) is Err);
            }
        }
    }
}

/// A certificate is accepted exactly where its id is one and is not taken, it has a domain, and its
/// domains are accepted. It keeps its id, and its domains are put in order.
pub proof fn law_certificates_are_checked(
    index: nat,
    file: FileCertificateModel,
    done: Seq<CertificateModel>,
)
    ensures
        ({
            let r = certificate_result(index, file, done);
            let domains = domains_result(index, file, done, file.domains.len() as int);
            let id = certificate_id_error(
                "acme.certificates["@ + decimal(index) + "].id"@,
                file.id,
            );
            let taken = exists|i: int| 0 <= i < done.len() && (#[trigger] done[i]).id == file.id;
            &&& r is Ok <==> id is None && !taken && file.domains.len() > 0 && domains is Ok
            &&& id matches Some(e) ==> r == Err::<CertificateModel, ConfigErrorModel>(e)
            &&& id is None && taken ==> r == Err::<CertificateModel, ConfigErrorModel>(
                ConfigErrorModel::Invalid("duplicate ACME certificate id "@ + debug_text(file.id)),
            )
            &&& r matches Ok(certificate) ==> {
                &&& certificate.id == file.id
                &&& is_sorted(certificate.domains)
                &&& certificate.domains.to_multiset() == domains->Ok_0.to_multiset()
            }
        }),
{
    if let Ok(domains) = domains_result(index, file, done, file.domains.len() as int) {
        law_sort(domains);
    }
}

/// The certificates of a file are accepted one after another, each given those before it.
pub proof fn law_certificates_are_taken_in_order(file: Seq<FileCertificateModel>, n: int)
    requires
        0 < n <= file.len(),
    ensures
        ({
            let before = certificates_result(file, n - 1);
            let r = certificates_result(file, n);
            &&& before is Err ==> r == before
            &&& before is Ok ==> {
                let one = certificate_result((n - 1) as nat, file[n - 1], before->Ok_0);
                &&& r is Ok <==> one is Ok
                &&& one is Ok ==> r->Ok_0 == before->Ok_0.push(one->Ok_0)
                &&& one is Err ==> r->Err_0 == one->Err_0
            }
        }),
        certificates_result(file, 0) == Ok::<Seq<CertificateModel>, ConfigErrorModel>(Seq::empty()),
{
}

} // verus!
