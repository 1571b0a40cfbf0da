//! When a certificate is renewed, and when a failed attempt is repeated.

use vstd::prelude::*;
use vstd::utf8::encode_utf8;

use crate::config::acme::{AcmeCertificateConfig, CertificateModel};
use crate::text::{holds_text, opt_text, starts_with, texts};
use crate::time::{seconds, Duration};
use crate::tls::certificate::{CertificateMetadata, MetadataModel};

verus! {

/// The seconds since the epoch, no more than fit in 63 bits; zero for a clock that stands before
/// it.
pub open spec fn unix_seconds(since_epoch: Option<nat>) -> i64 {
    match since_epoch {
        Some(nanos) => if nanos / 1_000_000_000 > i64::MAX {
            i64::MAX
        } else {
            (nanos / 1_000_000_000) as i64
        },
        None => 0,
    }
}

pub open spec fn opt_nanos(span: Option<Duration>) -> Option<nat> {
    match span {
        Some(span) => Some(span@),
        None => None,
    }
}

fn clamp_i64(n: u64) -> (r: i64)
    ensures
        r == (if n > i64::MAX {
            i64::MAX as int
        } else {
            n as int
        }),
{
    if n > i64::MAX as u64 {
        i64::MAX
    } else {
        n as i64
    }
}

pub fn unix_now(since_epoch: Option<Duration>) -> (r: i64)
    ensures
        r == unix_seconds(opt_nanos(since_epoch)),
{
    match since_epoch {
        Some(span) => clamp_i64(span.as_secs()),
        None => 0,
    }
}

/// How long to wait after this many failures in a row, before the normal interval is considered.
pub open spec fn retry_seconds(failure_streak: u32) -> nat {
    if failure_streak <= 1 {
        300
    } else if failure_streak == 2 {
        900
    } else if failure_streak == 3 {
        3600
    } else {
        10800
    }
}

/// How long to wait after this many failures in a row: never longer than the normal interval.
pub open spec fn retry_delay(failure_streak: u32, normal_interval: nat) -> nat {
    if normal_interval < seconds(retry_seconds(failure_streak)) {
        normal_interval
    } else {
        seconds(retry_seconds(failure_streak))
    }
}

pub fn acme_failure_retry_delay(failure_streak: u32, normal_interval: Duration) -> (r: Duration)
    ensures
        r@ == retry_delay(failure_streak, normal_interval@),
{
    let retry = match failure_streak {
        0 | 1 => Duration::from_secs(5 * 60),
        2 => Duration::from_secs(15 * 60),
        3 => Duration::from_secs(60 * 60),
        _ => Duration::from_secs(3 * 60 * 60),
    };
    retry.min(normal_interval)
}

/// More failures never shorten the delay, and it never exceeds the normal interval.
pub proof fn law_delays_grow(streak: u32, later: u32, normal_interval: nat)
    requires
        streak <= later,
    ensures
        retry_delay(streak, normal_interval) <= retry_delay(later, normal_interval),
        retry_delay(later, normal_interval) <= normal_interval,
{
}

/// How many maintenance cycles have failed in a row.
pub struct Schedule {
    failure_streak: u32,
}

impl View for Schedule {
    type V = u32;

    closed spec fn view(&self) -> u32 {
        self.failure_streak
    }
}

pub open spec fn streak_after(streak: u32, succeeded: bool) -> u32 {
    if succeeded {
        0
    } else if streak == u32::MAX {
        u32::MAX
    } else {
        (streak + 1) as u32
    }
}

impl Schedule {
    pub fn new() -> (r: Schedule)
        ensures
            r@ == 0,
    {
        Schedule { failure_streak: 0 }
    }

    /// Takes the outcome of a cycle; how long to wait for the next one.
    pub fn on_cycle(&mut self, succeeded: bool, check_interval: Duration) -> (r: Duration)
        ensures
            final(self)@ == streak_after(old(self)@, succeeded),
            r@ == (if succeeded {
                check_interval@
            } else {
                retry_delay(final(self)@, check_interval@)
            }),
    {
        if succeeded {
            self.failure_streak = 0;
            check_interval
        } else {
            self.failure_streak = self.failure_streak.saturating_add(1);
            acme_failure_retry_delay(self.failure_streak, check_interval)
        }
    }
}

/// The 64-bit FNV-1a hash of the first `n` bytes.
pub open spec fn fnv1a(bytes: Seq<u8>, n: int) -> u64
    decreases n,
{
    if n <= 0 {
        0xcbf29ce484222325
    } else {
        (((fnv1a(bytes, n - 1) ^ (bytes[n - 1] as u64)) * 0x100000001b3)
            % 0x1_0000_0000_0000_0000) as u64
    }
}

/// The moment within a window at which a certificate is renewed: fixed by its id.
pub open spec fn target_in(start: i64, end: i64, id: Seq<char>) -> int {
    let span = if end - start > i64::MAX {
        i64::MAX as int
    } else {
        end - start
    };
    let bytes = encode_utf8(id);
    if span <= 1 {
        start as int
    } else {
        start + fnv1a(bytes, bytes.len() as int) as int % span
    }
}

pub fn renewal_target(start: i64, end: i64, certificate_id: &str) -> (r: i64)
    ensures
        r == target_in(start, end, certificate_id@),
{
    if end <= start {
        return start;
    }
    let wide: i128 = end as i128 - start as i128;
    let span: u64 = if wide > i64::MAX as i128 {
        i64::MAX as u64
    } else {
        wide as u64
    };
    if span <= 1 {
        return start;
    }
    let bytes = certificate_id.as_bytes();
    let mut hash: u64 = 0xcbf29ce484222325;
    let mut i: usize = 0;
    while i < bytes.len()
        invariant
            i <= bytes@.len(),
            bytes@ == encode_utf8(certificate_id@),
            hash == fnv1a(bytes@, i as int),
        decreases bytes@.len() - i,
    {
        hash = (hash ^ (bytes[i] as u64)).wrapping_mul(0x100000001b3);
        i += 1;
    }
    let offset: u64 = hash % span;
    assert(offset < span);
    (start as i128 + offset as i128) as i64
}

/// The target lies in the window, at its start or before its end, and depends on nothing but the
/// window and the id.
pub proof fn law_target_is_inside_window(start: i64, end: i64, id: Seq<char>)
    requires
        start < end,
    ensures
        start <= target_in(start, end, id) < end,
{
    let bytes = encode_utf8(id);
    let hash = fnv1a(bytes, bytes.len() as int) as int;
    let span = if end - start > i64::MAX {
        i64::MAX as int
    } else {
        end - start
    };
    assert(0 <= hash % span < span) by (nonlinear_arith)
        requires
            span > 0,
            hash >= 0,
    ;
}

/// Whether the names that a certificate covers without a wildcard are exactly those wanted.
pub open spec fn same_domains(names: Seq<Seq<char>>, wanted: Seq<Seq<char>>) -> bool {
    forall|name: Seq<char>| #[trigger]
        wanted.contains(name) <==> (names.contains(name) && !"*."@.is_prefix_of(name))
}

pub fn domains_match(metadata: &CertificateMetadata, desired: &AcmeCertificateConfig) -> (r: bool)
    ensures
        r == same_domains(metadata@.dns_names, desired@.domains),
{
    let names = metadata.dns_names();
    let wanted = desired.domains();
    let ghost all_names = metadata@.dns_names;
    let ghost all_wanted = desired@.domains;
    let mut i: usize = 0;
    while i < wanted.len()
        invariant
            i <= wanted@.len(),
            texts(wanted@) == all_wanted,
            texts(names@) == all_names,
            all_names == metadata@.dns_names,
            all_wanted == desired@.domains,
            forall|j: int|
                0 <= j < i ==> all_names.contains(#[trigger] all_wanted[j])
                    && !"*."@.is_prefix_of(all_wanted[j]),
        decreases wanted@.len() - i,
    {
        assert(all_wanted[i as int] == wanted@[i as int]@);
        if !holds_text(names, &wanted[i]) || starts_with(&wanted[i], "*.") {
            assert(all_wanted.contains(all_wanted[i as int]));
            return false;
        }
        i += 1;
    }
    let mut k: usize = 0;
    while k < names.len()
        invariant
            k <= names@.len(),
            texts(wanted@) == all_wanted,
            texts(names@) == all_names,
            all_names == metadata@.dns_names,
            all_wanted == desired@.domains,
            forall|j: int|
                0 <= j < k ==> "*."@.is_prefix_of(#[trigger] all_names[j]) || all_wanted.contains(
                    all_names[j],
                ),
        decreases names@.len() - k,
    {
        assert(all_names[k as int] == names@[k as int]@);
        if !starts_with(&names[k], "*.") && !holds_text(wanted, &names[k]) {
            assert(all_names.contains(all_names[k as int]));
            return false;
        }
        k += 1;
    }
    assert forall|name: Seq<char>| #[trigger] all_wanted.contains(name) <==> (all_names.contains(
        name,
    ) && !"*."@.is_prefix_of(name)) by {
        if all_wanted.contains(name) {
            let j = all_wanted.index_of(name);
            assert(all_wanted[j] == name);
        }
        if all_names.contains(name) {
            let j = all_names.index_of(name);
            assert(all_names[j] == name);
        }
    }
    true
}

/// The name under which the certificate authority knows a certificate, if it has one.
pub uninterp spec fn renewal_identifier(der: Seq<u8>) -> Option<Seq<char>>;

/// `instant_acme::CertificateIdentifier::try_from` with its `Display`: the identifier is made of
/// the certificate's authority key and its serial number. The result depends on the certificate
/// alone, and `renewal_identifier` names it.
#[verifier::external_body]
fn certificate_identifier(der: &Vec<u8>) -> (r: Option<String>)
    ensures
        opt_text(r) == renewal_identifier(der@),
{
    let der = rustls::pki_types::CertificateDer::from(der.clone());
    instant_acme::CertificateIdentifier::try_from(&der).ok().map(|id| id.to_string())
}

/// What is known about whether a certificate is to be ordered.
pub enum IssueCheck {
    /// There is no such certificate.
    Missing,
    /// The certificate covers other names than those wanted.
    DomainsDiffer,
    /// The certificate authority may suggest a window for the certificate with this identifier.
    AskAuthority(String),
    /// Only the end of the certificate's validity counts.
    CheckExpiry,
}

pub enum IssueCheckModel {
    Missing,
    DomainsDiffer,
    AskAuthority(Seq<char>),
    CheckExpiry,
}

impl View for IssueCheck {
    type V = IssueCheckModel;

    open spec fn view(&self) -> IssueCheckModel {
        match self {
            IssueCheck::Missing => IssueCheckModel::Missing,
            IssueCheck::DomainsDiffer => IssueCheckModel::DomainsDiffer,
            IssueCheck::AskAuthority(id) => IssueCheckModel::AskAuthority(id@),
            IssueCheck::CheckExpiry => IssueCheckModel::CheckExpiry,
        }
    }
}

/// What is known about whether a certificate is to be ordered, given its identifier.
pub open spec fn issue_check(
    metadata: Option<MetadataModel>,
    desired: CertificateModel,
    identifier: Option<Seq<char>>,
) -> IssueCheckModel {
    match metadata {
        None => IssueCheckModel::Missing,
        Some(metadata) => if !same_domains(metadata.dns_names, desired.domains) {
            IssueCheckModel::DomainsDiffer
        } else {
            match identifier {
                Some(identifier) => IssueCheckModel::AskAuthority(identifier),
                None => IssueCheckModel::CheckExpiry,
            }
        },
    }
}

pub open spec fn opt_metadata(metadata: Option<&CertificateMetadata>) -> Option<MetadataModel> {
    match metadata {
        Some(metadata) => Some(metadata@),
        None => None,
    }
}

/// What is known about whether a certificate is to be ordered, from its identifier.
pub fn issue_check_from(
    metadata: Option<&CertificateMetadata>,
    desired: &AcmeCertificateConfig,
    identifier: Option<String>,
) -> (r: IssueCheck)
    ensures
        r@ == issue_check(opt_metadata(metadata), desired@, opt_text(identifier)),
{
    match metadata {
        None => IssueCheck::Missing,
        Some(metadata) => {
            if !domains_match(metadata, desired) {
                return IssueCheck::DomainsDiffer;
            }
            match identifier {
                Some(identifier) => IssueCheck::AskAuthority(identifier),
                None => IssueCheck::CheckExpiry,
            }
        },
    }
}

/// The identifier of a certificate that is to be replaced, if it has one.
pub fn replaced_identifier(metadata: Option<&CertificateMetadata>) -> (r: Option<String>)
    ensures
        opt_text(r) == (match opt_metadata(metadata) {
            Some(metadata) => renewal_identifier(metadata.leaf_certificate),
            None => None,
        }),
{
    match metadata {
        Some(metadata) => certificate_identifier(metadata.leaf_certificate()),
        None => None,
    }
}

pub fn check_issue(
    metadata: Option<&CertificateMetadata>,
    desired: &AcmeCertificateConfig,
) -> (r: IssueCheck)
    ensures
        r@ == issue_check(
            opt_metadata(metadata),
            desired@,
            match opt_metadata(metadata) {
                Some(metadata) => renewal_identifier(metadata.leaf_certificate),
                None => None,
            },
        ),
{
    let identifier = replaced_identifier(metadata);
    issue_check_from(metadata, desired, identifier)
}

/// What the certificate authority suggests.
#[derive(Clone, Copy, Debug, PartialEq, Eq, Structural)]
pub enum RenewalAdvice {
    /// A window, in seconds since the epoch.
    Window { start: i64, end: i64 },
    /// It suggests nothing, or could not be asked.
    NoWindow,
}

/// Whether a certificate is due by its validity alone.
pub open spec fn due_by_expiry(not_after: i64, now: i64, renew_before: nat) -> bool {
    let left = if not_after - now > i64::MAX {
        i64::MAX as int
    } else if not_after - now < i64::MIN {
        i64::MIN as int
    } else {
        not_after - now
    };
    left <= (if renew_before / 1_000_000_000 > i64::MAX {
        i64::MAX as int
    } else {
        renew_before as int / 1_000_000_000
    })
}

/// Whether a certificate is due: at the target in the suggested window, or by its validity where
/// there is no window.
pub open spec fn is_due(
    advice: RenewalAdvice,
    id: Seq<char>,
    not_after: i64,
    now: i64,
    renew_before: nat,
) -> bool {
    match advice {
        RenewalAdvice::Window { start, end } => if end > start {
            now >= target_in(start, end, id)
        } else {
            due_by_expiry(not_after, now, renew_before)
        },
        RenewalAdvice::NoWindow => due_by_expiry(not_after, now, renew_before),
    }
}

/// Whether a certificate with the wanted names is due.
pub fn should_issue(
    advice: RenewalAdvice,
    desired: &AcmeCertificateConfig,
    metadata: &CertificateMetadata,
    now: i64,
    fallback_renew_before: &Duration,
) -> (r: bool)
    ensures
        r == is_due(
            advice,
            desired@.id,
            metadata@.not_after_unix,
            now,
            fallback_renew_before@,
        ),
{
    match advice {
        RenewalAdvice::Window { start, end } => {
            if end > start {
                return now >= renewal_target(start, end, desired.id());
            }
        },
        RenewalAdvice::NoWindow => {},
    }
    let fallback_seconds: i64 = clamp_i64(fallback_renew_before.as_secs());
    let not_after: i64 = metadata.not_after_unix();
    let wide: i128 = not_after as i128 - now as i128;
    let left: i64 = if wide > i64::MAX as i128 {
        i64::MAX
    } else if wide < i64::MIN as i128 {
        i64::MIN
    } else {
        wide as i64
    };
    left <= fallback_seconds
}

/// A certificate that is due stays due: by the suggested window, and by its validity.
pub proof fn law_due_stays_due(
    advice: RenewalAdvice,
    id: Seq<char>,
    not_after: i64,
    now: i64,
    later: i64,
    renew_before: nat,
)
    requires
        now <= later,
        is_due(advice, id, not_after, now, renew_before),
    ensures
        is_due(advice, id, not_after, later, renew_before),
{
}

/// A certificate has the wanted names exactly where every wanted name is among its names and none
/// of them is a wildcard, and every name of it that is no wildcard is wanted.
pub proof fn law_matching_names_are_the_wanted_ones(names: Seq<Seq<char>>, wanted: Seq<Seq<char>>)
    ensures
        ({
            let wild = |name: Seq<char>| name.len() >= 2 && name[0] == '*' && name[1] == '.';
            same_domains(names, wanted) <==> {
                &&& forall|i: int|
                    0 <= i < wanted.len() ==> names.contains(#[trigger] wanted[i]) && !wild(
                        wanted[i],
                    )
                &&& forall|j: int|
                    0 <= j < names.len() ==> wild(#[trigger] names[j]) || wanted.contains(names[j])
            }
        }),
{
    reveal_strlit("*.");
    let wild = |name: Seq<char>| name.len() >= 2 && name[0] == '*' && name[1] == '.';
    assert forall|name: Seq<char>| #[trigger] "*."@.is_prefix_of(name) == wild(name) by {
        if wild(name) {
            assert(name.subrange(0, 2) =~= "*."@);
        }
        if "*."@.is_prefix_of(name) {
            assert(name.subrange(0, 2)[0] == '*' && name.subrange(0, 2)[1] == '.');
        }
    }
    if same_domains(names, wanted) {
        assert forall|i: int| 0 <= i < wanted.len() implies names.contains(#[trigger] wanted[i])
            && !wild(wanted[i]) by {
            assert(wanted.contains(wanted[i]));
        }
        assert forall|j: int| 0 <= j < names.len() implies wild(#[trigger] names[j])
            || wanted.contains(names[j]) by {
            assert(names.contains(names[j]));
        }
    }
    if (forall|i: int|
        0 <= i < wanted.len() ==> names.contains(#[trigger] wanted[i]) && !wild(wanted[i])) && (
    forall|j: int|
        0 <= j < names.len() ==> wild(#[trigger] names[j]) || wanted.contains(names[j])) {
        assert forall|name: Seq<char>| #[trigger] wanted.contains(name) <==> (names.contains(name)
            && !"*."@.is_prefix_of(name)) by {
            if wanted.contains(name) {
                assert(wanted[wanted.index_of(name)] == name);
            }
            if names.contains(name) {
                assert(names[names.index_of(name)] == name);
            }
        }
    }
}

/// A certificate is left alone for now, or asked about, only where it covers every wanted name and
/// no other; a name that it lacks, or one too many, and it is ordered anew, as one that is missing
/// is. The certificate authority is asked where the certificate has an identifier, about that one.
pub proof fn law_certificates_without_a_wanted_name_are_ordered(
    metadata: Option<MetadataModel>,
    desired: CertificateModel,
    identifier: Option<Seq<char>>,
    i: int,
    j: int,
)
    ensures
        ({
            let r = issue_check(metadata, desired, identifier);
            let wild = |name: Seq<char>| name.len() >= 2 && name[0] == '*' && name[1] == '.';
            &&& r is Missing <==> metadata is None
            &&& metadata matches Some(m) ==> {
                &&& 0 <= i < desired.domains.len() && !m.dns_names.contains(desired.domains[i])
                    ==> r is DomainsDiffer
                &&& 0 <= j < m.dns_names.len() && !wild(m.dns_names[j])
                    && !desired.domains.contains(m.dns_names[j]) ==> r is DomainsDiffer
                &&& r is DomainsDiffer ==> desired.domains != m.dns_names || exists|k: int|
                    0 <= k < m.dns_names.len() && wild(#[trigger] m.dns_names[k])
            }
            &&& r is AskAuthority ==> identifier is Some && r == IssueCheckModel::AskAuthority(
                identifier->0,
            )
            &&& r is CheckExpiry ==> identifier is None
        }),
{
    if let Some(m) = metadata {
        law_matching_names_are_the_wanted_ones(m.dns_names, desired.domains);
        let wild = |name: Seq<char>| name.len() >= 2 && name[0] == '*' && name[1] == '.';
        if !same_domains(m.dns_names, desired.domains) && desired.domains == m.dns_names {
            assert forall|k: int| 0 <= k < m.dns_names.len() implies m.dns_names.contains(
                #[trigger] m.dns_names[k],
            ) by {}
            if forall|k: int| 0 <= k < m.dns_names.len() ==> !wild(#[trigger] m.dns_names[k]) {
                assert forall|k: int| 0 <= k < desired.domains.len() implies m.dns_names.contains(
                    #[trigger] desired.domains[k],
                ) && !wild(desired.domains[k]) by {
                    assert(m.dns_names[k] == desired.domains[k]);
                }
            }
        }
    }
}

/// Where the names match and the certificate has no identifier, or the authority has one for it,
/// nothing is ordered before its time: the check asks for more.
pub proof fn law_matching_certificates_are_not_ordered_at_once(
    metadata: MetadataModel,
    desired: CertificateModel,
    identifier: Option<Seq<char>>,
)
    requires
        forall|name: Seq<char>| #[trigger]
            desired.domains.contains(name) <==> metadata.dns_names.contains(name)
                && !"*."@.is_prefix_of(name),
    ensures
        issue_check(Some(metadata), desired, identifier) == (match identifier {
            Some(identifier) => IssueCheckModel::AskAuthority(identifier),
            None => IssueCheckModel::CheckExpiry,
        }),
{
}

/// A suggested window decides alone: a certificate is not due before it starts, is due when it is
/// over, and is due within it from one moment on. An empty window is none.
pub proof fn law_windows_decide_when_a_certificate_is_due(
    start: i64,
    end: i64,
    id: Seq<char>,
    not_after: i64,
    now: i64,
    renew_before: nat,
)
    ensures
        ({
            let due = is_due(
                RenewalAdvice::Window { start, end },
                id,
                not_after,
                now,
                renew_before,
            );
            &&& start < end && now < start ==> !due
            &&& start < end && now >= end ==> due
            &&& start < end ==> (due <==> now >= target_in(start, end, id))
            &&& start >= end ==> due == is_due(
                RenewalAdvice::NoWindow,
                id,
                not_after,
                now,
                renew_before,
            )
        }),
{
    if start < end {
        law_target_is_inside_window(start, end, id);
    }
}

/// Without a window a certificate is due exactly when no more than the time of renewal is left of
/// its validity, and always when it has expired.
pub proof fn law_certificates_are_due_before_they_expire(
    id: Seq<char>,
    not_after: i64,
    now: i64,
    renew_before: nat,
)
    requires
        renew_before / 1_000_000_000 <= i64::MAX,
    ensures
        ({
            let due = is_due(RenewalAdvice::NoWindow, id, not_after, now, renew_before);
            &&& not_after <= now ==> due
            &&& now < not_after && not_after - now <= i64::MAX ==> (due <==> (not_after - now)
                * 1_000_000_000 <= renew_before)
        }),
{
}

/// The moment of renewal moves with its window, is its start where the window is a second or
/// shorter, and else the hash of the id past the start, modulo the length of the window.
pub proof fn law_target_moves_with_its_window(start: i64, end: i64, by: i64, id: Seq<char>)
    requires
        start < end,
        i64::MIN <= start + by && end + by <= i64::MAX,
        end - start <= i64::MAX,
    ensures
        target_in((start + by) as i64, (end + by) as i64, id) == target_in(start, end, id) + by,
        end - start == 1 ==> target_in(start, end, id) == start,
        target_in(start, end, id) == start + fnv1a(
            encode_utf8(id),
            encode_utf8(id).len() as int,
        ) as int % (end - start),
{
    if end - start == 1 {
        let h = fnv1a(encode_utf8(id), encode_utf8(id).len() as int) as int;
        assert(h % 1 == 0);
    }
}

/// The hash takes in the bytes one by one, and does not depend on what follows them.
pub proof fn law_hash_takes_bytes_in_order(bytes: Seq<u8>, more: Seq<u8>, n: int)
    requires
        0 <= n <= bytes.len(),
    ensures
        fnv1a(bytes, 0) == 0xcbf29ce484222325,
        fnv1a(bytes + more, n) == fnv1a(bytes, n),
        n < bytes.len() ==> fnv1a(bytes, n + 1) == (((fnv1a(bytes, n) ^ (bytes[n] as u64))
            * 0x100000001b3) % 0x1_0000_0000_0000_0000) as u64,
    decreases n,
{
    if n > 0 {
        law_hash_takes_bytes_in_order(bytes, more, n - 1);
        assert((bytes + more)[n - 1] == bytes[n - 1]);
    }
}

/// After a success the count of failures starts anew; a failure adds one to it, as far as it goes.
/// The delays are five minutes, a quarter of an hour, an hour and three hours, cut to the normal
/// interval.
pub proof fn law_failures_wait_longer_and_longer(streak: u32, normal_interval: nat)
    ensures
        streak_after(streak, true) == 0,
        streak < u32::MAX ==> streak_after(streak, false) == streak + 1,
        streak_after(u32::MAX, false) == u32::MAX,
        ({
            let wait = if streak <= 1 {
                5int
            } else if streak == 2 {
                15
            } else if streak == 3 {
                60
            } else {
                180
            } * 60_000_000_000;
            &&& wait <= normal_interval ==> retry_delay(streak, normal_interval) == wait
            &&& wait > normal_interval ==> retry_delay(streak, normal_interval) == normal_interval
        }),
{
}

/// The clock is told in whole seconds, as far as they can be counted, and from zero on.
pub proof fn law_clock_counts_whole_seconds(nanos: nat)
    ensures
        unix_seconds(None) == 0,
        nanos / 1_000_000_000 <= i64::MAX ==> unix_seconds(Some(nanos)) * 1_000_000_000 <= nanos < (
        unix_seconds(Some(nanos)) + 1) * 1_000_000_000,
        nanos / 1_000_000_000 > i64::MAX ==> unix_seconds(Some(nanos)) == i64::MAX,
{
}

} // verus!
