use edge_gateway::acme::http01::{connection_timeout, Challenges};
use edge_gateway::acme::issue::{
    AuthorizationStatus, Challenge, IssueAction, IssueEvent, IssuePhase, IssueSession,
};
use edge_gateway::acme::manager::{
    account_contact, account_contents, account_error, account_file_name, account_path,
    account_plan, bootstrap_outcome, check_account, directory_url, load_account, needs_bootstrap,
    AccountPlan, AccountRead, AccountStep, Cycle, CycleAction, CyclePhase,
};
use edge_gateway::acme::renewal::{
    acme_failure_retry_delay, check_issue, domains_match, issue_check_from, renewal_target,
    replaced_identifier, should_issue, unix_now, IssueCheck, RenewalAdvice, Schedule,
};
use edge_gateway::acme::storage::{
    certificate_directory_error, directory_error, file_error, file_mode, replace_error,
    temporary_name, temporary_path, AtomicWrite, FileStep, SaveAction, SavePair,
};
use edge_gateway::config::acme::{
    default_acme_http01_listen, AcmeConfig, FileAcmeCertificateConfig, FileAcmeConfig,
    FileAcmeEnvironment,
};
use edge_gateway::config::tls::{FileTlsConfig, TlsConfig};
use edge_gateway::http::request::Method;
use edge_gateway::time::Duration;
use edge_gateway::tls::certificate::{
    leaf_metadata_from, parse_leaf_metadata, CertificateMetadata, LeafExtension, LeafName,
    LeafParts,
};
use edge_gateway::tls::store::CertificateIndex;

// A self-signed certificate for example.com and *.wild.example, in hexadecimal DER.
const CERTIFICATE: &str = "308201b130820158a00302010202146f5f21c5933e3378ce6b06eabae28e12fc27c324300a06082a8648ce3d\
    040302300f310d300b06035504030c04746573743020170d3236313131353232353131365a180f3231323631\
    3032323232353131365a300f310d300b06035504030c04746573743059301306072a8648ce3d020106082a86\
    48ce3d03010703420004e45662eeaa33c1a9323f0874304a28e9c355653533392ca427e3bd85374a11463026\
    ac9a81cd92bd202a344686d96d6032a36ca6364522d4d3de7a12f7bdc0f0a3818f30818c301d0603551d0e04\
    160414df6a3533cc98623f5b9814d8aeff2da532020cc9301f0603551d23041830168014df6a3533cc98623f\
    5b9814d8aeff2da532020cc9300f0603551d130101ff040530030101ff30390603551d1104323030820b4578\
    616d706c652e434f4d820e2a2e77696c642e6578616d706c65820b6578616d706c652e636f6d87047f000001\
    300a06082a8648ce3d04030203470030440220198ff7e63a50bec4e01bb4293c551eb52df368fbae943ee639\
    6065961afd2e6402205c207d34b2bacaf5ea8d9b6e31ae9bc7985318a6853951743adfc26e8fed1e92";

const IDENTIFIER: &str = "32o1M8yYYj9bmBTYrv8tpTICDMk.b18hxZM-M3jOawbquuKOEvwnwyQ";

fn der(hexadecimal: &str) -> Vec<u8> {
    (0..hexadecimal.len() / 2)
        .map(|i| u8::from_str_radix(&hexadecimal[2 * i..2 * i + 2], 16).unwrap())
        .collect()
}

fn acme(certificates: &[(&str, &[&str])], environment: FileAcmeEnvironment) -> AcmeConfig {
    let file = FileAcmeConfig {
        enabled: true,
        http01_listen: default_acme_http01_listen(),
        email: Some("ops@example.com".to_owned()),
        environment,
        state_dir: "state".to_owned(),
        fallback_renew_before_days: 30,
        check_interval_hours: 12,
        certificates: certificates
            .iter()
            .map(|(id, domains)| FileAcmeCertificateConfig {
                id: (*id).to_owned(),
                domains: domains.iter().map(|domain| (*domain).to_owned()).collect(),
            })
            .collect(),
    };
    match file.validate("/etc/gateway") {
        Ok(config) => config,
        Err(error) => panic!("{}", error.message()),
    }
}

fn wanted() -> AcmeConfig {
    acme(&[("main", &["example.com"])], FileAcmeEnvironment::Staging)
}

fn tls() -> TlsConfig {
    let file = FileTlsConfig {
        cert_dir: "certs".to_owned(),
        cert_suffix: ".fullchain.pem".to_owned(),
        key_suffix: ".key.pem".to_owned(),
        default_certificate: None,
    };
    match file.validate("/etc/gateway") {
        Ok(config) => config,
        Err(error) => panic!("{}", error.message()),
    }
}

fn metadata(names: &[&str], not_after_unix: i64) -> CertificateMetadata {
    let leaf = LeafParts {
        extensions: vec![LeafExtension::SubjectAlternativeName(
            names.iter().map(|name| LeafName::Dns((*name).to_owned())).collect(),
        )],
        not_after_unix,
    };
    match leaf_metadata_from("main", Vec::new(), Ok(leaf)) {
        Ok(metadata) => metadata,
        Err(error) => panic!("{error}"),
    }
}

fn challenge(token: &str) -> Option<Challenge> {
    Some(Challenge {
        token: token.to_owned(),
        key_authorization: format!("{token}.key"),
    })
}

fn take(session: &mut IssueSession, event: IssueEvent) -> IssueAction {
    assert!(session.expects(&event));
    session.on_event(event)
}

#[test]
fn renewal_target_is_stable_and_inside_window() {
    let first = renewal_target(1_000, 2_000, "gateway");
    let second = renewal_target(1_000, 2_000, "gateway");
    assert_eq!(first, second);
    assert!((1_000..2_000).contains(&first));
}

#[test]
fn renewal_targets_spread_by_certificate_id() {
    let gateway = renewal_target(1_000, 100_000, "gateway");
    let api = renewal_target(1_000, 100_000, "api");
    assert_ne!(gateway, api);
}

#[test]
fn failure_retry_is_capped_by_normal_interval() {
    let normal = Duration::from_secs(10 * 60);
    assert_eq!(
        acme_failure_retry_delay(1, normal),
        Duration::from_secs(5 * 60)
    );
    assert_eq!(acme_failure_retry_delay(4, normal), normal);
}

#[test]
fn targets_are_those_of_the_hash() {
    assert_eq!(renewal_target(1_000, 2_000, "gateway"), 1673);
    assert_eq!(renewal_target(1_000, 100_000, "api"), 31879);
    assert_eq!(renewal_target(7, 8, "gateway"), 7);
    assert_eq!(renewal_target(7, 7, "gateway"), 7);
    assert_eq!(renewal_target(7, 3, "gateway"), 7);
    let far = renewal_target(i64::MIN, i64::MAX, "gateway");
    assert!(far < i64::MAX);
}

#[test]
fn delays_grow_with_failures() {
    let day = Duration::from_secs(24 * 60 * 60);
    for (streak, minutes) in [(0, 5), (1, 5), (2, 15), (3, 60), (4, 180), (u32::MAX, 180)] {
        assert_eq!(
            acme_failure_retry_delay(streak, day),
            Duration::from_secs(minutes * 60)
        );
    }
    let mut schedule = Schedule::new();
    assert_eq!(schedule.on_cycle(false, day), Duration::from_secs(5 * 60));
    assert_eq!(schedule.on_cycle(false, day), Duration::from_secs(15 * 60));
    assert_eq!(schedule.on_cycle(true, day), day);
    assert_eq!(schedule.on_cycle(false, day), Duration::from_secs(5 * 60));
}

#[test]
fn time_is_counted_from_the_epoch() {
    assert_eq!(unix_now(None), 0);
    assert_eq!(unix_now(Some(Duration::new(5, 999_999_999))), 5);
    assert_eq!(unix_now(Some(Duration::from_secs(u64::MAX))), i64::MAX);
}

#[test]
fn wildcards_do_not_count_among_the_domains() {
    let config = wanted();
    let desired = &config.certificates()[0];
    assert!(domains_match(&metadata(&["example.com"], 0), desired));
    assert!(domains_match(&metadata(&["*.example.com", "example.com"], 0), desired));
    assert!(!domains_match(&metadata(&["*.example.com"], 0), desired));
    assert!(!domains_match(&metadata(&["example.com", "b.example.com"], 0), desired));
}

#[test]
fn certificates_are_checked_before_the_authority_is_asked() {
    let config = wanted();
    let desired = &config.certificates()[0];
    let Ok(found) = parse_leaf_metadata("main", der(CERTIFICATE)) else {
        panic!("the leaf should be accepted");
    };
    assert_eq!(replaced_identifier(Some(&found)).as_deref(), Some(IDENTIFIER));
    assert_eq!(replaced_identifier(None), None);
    assert!(matches!(check_issue(None, desired), IssueCheck::Missing));
    assert!(matches!(
        check_issue(Some(&found), desired),
        IssueCheck::AskAuthority(identifier) if identifier == IDENTIFIER
    ));
    assert!(matches!(
        check_issue(Some(&metadata(&["a.example"], 0)), desired),
        IssueCheck::DomainsDiffer
    ));
    assert!(matches!(
        check_issue(Some(&metadata(&["example.com"], 0)), desired),
        IssueCheck::CheckExpiry
    ));
    assert!(matches!(
        issue_check_from(Some(&found), desired, Some("x.y".to_owned())),
        IssueCheck::AskAuthority(identifier) if identifier == "x.y"
    ));
    assert!(matches!(
        issue_check_from(Some(&found), desired, None),
        IssueCheck::CheckExpiry
    ));
}

#[test]
fn certificates_fall_due() {
    let config = wanted();
    let desired = &config.certificates()[0];
    let days = 24 * 60 * 60;
    let before = Duration::from_secs(30 * days as u64);
    let found = metadata(&["example.com"], 100 * days);
    let due = |advice, now| should_issue(advice, desired, &found, now, &before);
    assert!(!due(RenewalAdvice::NoWindow, 69 * days));
    assert!(due(RenewalAdvice::NoWindow, 70 * days));
    assert!(due(RenewalAdvice::NoWindow, 200 * days));
    let window = RenewalAdvice::Window { start: 1_000, end: 2_000 };
    let target = renewal_target(1_000, 2_000, "main");
    assert!(!due(window, target - 1));
    assert!(due(window, target));
    let empty = RenewalAdvice::Window { start: 2_000, end: 2_000 };
    assert!(!due(empty, 3_000));
    assert!(due(empty, 70 * days));
}

#[test]
fn challenges_are_answered_while_they_are_published() {
    let mut challenges = Challenges::new();
    let path = "/.well-known/acme-challenge/token";
    let ask = |challenges: &Challenges, method, path: &str| {
        let reply = challenges.handle_request(method, path);
        assert_eq!(reply.content_type, "application/octet-stream");
        (reply.status, reply.body)
    };
    assert_eq!(ask(&challenges, Method::Get, path), (404, "not found\n".to_owned()));
    challenges.publish("token".to_owned(), "token.key".to_owned());
    assert_eq!(ask(&challenges, Method::Get, path), (200, "token.key".to_owned()));
    assert_eq!(
        ask(&challenges, Method::Post, path),
        (405, "method not allowed\n".to_owned())
    );
    for other in [
        "/",
        "/.well-known/acme-challenge/",
        "/.well-known/acme-challenge/token/",
        "/.well-known/acme-challenge/other",
        "/x/.well-known/acme-challenge/token",
    ] {
        assert_eq!(ask(&challenges, Method::Get, other), (404, "not found\n".to_owned()));
    }
    challenges.publish("token".to_owned(), "again".to_owned());
    assert_eq!(ask(&challenges, Method::Get, path), (200, "again".to_owned()));
    challenges.remove("token");
    assert_eq!(ask(&challenges, Method::Get, path), (404, "not found\n".to_owned()));
    assert_eq!(connection_timeout(), Duration::from_secs(10));
}

#[test]
fn an_order_runs_its_course() {
    let config = wanted();
    let desired = &config.certificates()[0];
    let mut session = IssueSession::new(desired, false);
    assert_eq!(session.phase(), IssuePhase::PlacingOrder);
    assert!(matches!(
        take(&mut session, IssueEvent::OrderCreated),
        IssueAction::LoadAuthorization
    ));
    assert!(matches!(
        take(
            &mut session,
            IssueEvent::AuthorizationLoaded(AuthorizationStatus::Valid, None),
        ),
        IssueAction::LoadAuthorization
    ));
    assert!(matches!(
        take(
            &mut session,
            IssueEvent::AuthorizationLoaded(AuthorizationStatus::Pending, challenge("one")),
        ),
        IssueAction::StartServer
    ));
    assert!(!session.expects(&IssueEvent::MarkedReady));
    assert!(matches!(
        take(&mut session, IssueEvent::ServerStarted),
        IssueAction::Publish(challenge)
            if challenge.token == "one" && challenge.key_authorization == "one.key"
    ));
    assert!(session.server_running());
    assert!(matches!(take(&mut session, IssueEvent::Published), IssueAction::MarkReady));
    assert!(matches!(
        take(&mut session, IssueEvent::MarkedReady),
        IssueAction::LoadAuthorization
    ));
    assert!(matches!(
        take(
            &mut session,
            IssueEvent::AuthorizationLoaded(AuthorizationStatus::Pending, challenge("two")),
        ),
        IssueAction::Publish(challenge) if challenge.token == "two"
    ));
    take(&mut session, IssueEvent::Published);
    take(&mut session, IssueEvent::MarkedReady);
    assert!(matches!(
        take(&mut session, IssueEvent::NoMoreAuthorizations),
        IssueAction::AwaitReady
    ));
    assert!(matches!(take(&mut session, IssueEvent::OrderReady), IssueAction::Finalize));
    assert!(matches!(
        take(&mut session, IssueEvent::Finalized("key".to_owned())),
        IssueAction::AwaitCertificate
    ));
    assert!(matches!(
        session.on_candidate(desired, "pem".to_owned(), Ok(metadata(&["example.com"], 0))),
        IssueAction::Save { certificate, private_key }
            if certificate == "pem" && private_key == "key"
    ));
    assert!(matches!(take(&mut session, IssueEvent::Saved), IssueAction::Activate));
    assert!(matches!(
        take(&mut session, IssueEvent::Activated),
        IssueAction::RemoveTokens(tokens) if tokens == vec!["one", "two"]
    ));
    assert!(matches!(
        take(&mut session, IssueEvent::CleanedUp),
        IssueAction::Finish(None)
    ));
    assert_eq!(session.phase(), IssuePhase::Done);
}

#[test]
fn orders_fail_with_a_reason_and_leave_no_token() {
    let config = wanted();
    let desired = &config.certificates()[0];
    let failure = |session: &mut IssueSession, event| {
        match take(session, event) {
            IssueAction::RemoveTokens(tokens) => {
                match take(session, IssueEvent::CleanedUp) {
                    IssueAction::Finish(Some(error)) => (tokens, error),
                    _ => panic!("the order should fail"),
                }
            }
            _ => panic!("the order should fail"),
        }
    };
    let authorizing = || {
        let mut session = IssueSession::new(desired, true);
        take(&mut session, IssueEvent::OrderCreated);
        session
    };
    let published = || {
        let mut session = authorizing();
        take(
            &mut session,
            IssueEvent::AuthorizationLoaded(AuthorizationStatus::Pending, challenge("one")),
        );
        take(&mut session, IssueEvent::Published);
        session
    };
    let awaiting = || {
        let mut session = published();
        take(&mut session, IssueEvent::MarkedReady);
        take(&mut session, IssueEvent::NoMoreAuthorizations);
        session
    };
    let mut session = IssueSession::new(desired, true);
    assert!(matches!(
        take(&mut session, IssueEvent::OrderFailed),
        IssueAction::Finish(Some(error))
            if error == "failed to create ACME order for \"main\""
    ));
    for (event, reason) in [
        (IssueEvent::AuthorizationFailed, "failed to load ACME authorization"),
        (
            IssueEvent::AuthorizationLoaded(
                AuthorizationStatus::Unexpected("Revoked".to_owned()),
                None,
            ),
            "unexpected ACME authorization status Revoked",
        ),
        (
            IssueEvent::AuthorizationLoaded(AuthorizationStatus::Pending, None),
            "ACME authorization has no HTTP-01 challenge",
        ),
        (
            IssueEvent::AuthorizationLoaded(AuthorizationStatus::Pending, challenge("")),
            "ACME server returned an invalid HTTP-01 token",
        ),
        (
            IssueEvent::AuthorizationLoaded(AuthorizationStatus::Pending, challenge("a/b")),
            "ACME server returned an invalid HTTP-01 token",
        ),
    ] {
        assert_eq!(
            failure(&mut authorizing(), event),
            (Vec::<String>::new(), reason.to_owned())
        );
    }
    let one = vec!["one".to_owned()];
    assert_eq!(
        failure(&mut published(), IssueEvent::MarkReadyFailed),
        (one.clone(), "failed to mark ACME HTTP-01 challenge ready".to_owned())
    );
    assert_eq!(
        failure(&mut awaiting(), IssueEvent::OrderUnexpected("Invalid".to_owned())),
        (
            one.clone(),
            "unexpected ACME order status after validation: Invalid".to_owned()
        )
    );
    assert_eq!(
        failure(&mut awaiting(), IssueEvent::ReadyFailed),
        (one.clone(), "failed while waiting for ACME authorizations".to_owned())
    );
    let mut session = awaiting();
    take(&mut session, IssueEvent::OrderReady);
    assert_eq!(
        failure(&mut session, IssueEvent::FinalizeFailed),
        (one.clone(), "failed to finalize ACME order".to_owned())
    );
    let finalized = || {
        let mut session = awaiting();
        take(&mut session, IssueEvent::OrderReady);
        take(&mut session, IssueEvent::Finalized("key".to_owned()));
        session
    };
    assert_eq!(
        failure(&mut finalized(), IssueEvent::CertificateFailed),
        (one.clone(), "failed while waiting for ACME certificate".to_owned())
    );
    let mut session = finalized();
    session.on_certificate(desired, "no pem".to_owned(), &CertificateIndex::empty());
    assert!(matches!(
        take(&mut session, IssueEvent::CleanedUp),
        IssueAction::Finish(Some(error))
            if error == "issued certificate \"main\" failed pre-activation TLS validation"
    ));
    let mut session = finalized();
    session.on_candidate(desired, "pem".to_owned(), Ok(metadata(&["a.example"], 0)));
    assert!(matches!(
        take(&mut session, IssueEvent::CleanedUp),
        IssueAction::Finish(Some(error))
            if error == "issued certificate SANs do not match configured domains for \"main\""
    ));
    let saving = || {
        let mut session = finalized();
        session.on_candidate(desired, "pem".to_owned(), Ok(metadata(&["example.com"], 0)));
        session
    };
    assert_eq!(
        failure(&mut saving(), IssueEvent::SaveFailed("disk full".to_owned())),
        (one.clone(), "disk full".to_owned())
    );
    let mut session = saving();
    take(&mut session, IssueEvent::Saved);
    assert_eq!(
        failure(&mut session, IssueEvent::ActivateFailed),
        (
            one,
            "new certificate \"main\" could not be published to the TLS store".to_owned()
        )
    );
    let mut session = IssueSession::new(desired, false);
    take(&mut session, IssueEvent::OrderCreated);
    take(
        &mut session,
        IssueEvent::AuthorizationLoaded(AuthorizationStatus::Pending, challenge("one")),
    );
    assert_eq!(
        failure(&mut session, IssueEvent::ServerFailed("port taken".to_owned())),
        (Vec::new(), "port taken".to_owned())
    );
}

#[test]
fn accounts_belong_to_an_environment() {
    let staging = wanted();
    assert_eq!(
        directory_url(&staging),
        "https://acme-staging-v02.api.letsencrypt.org/directory"
    );
    assert_eq!(account_file_name(&staging), "letsencrypt-staging-account.json");
    assert_eq!(
        account_path(&staging),
        "/etc/gateway/state/letsencrypt-staging-account.json"
    );
    let production = acme(&[("main", &["example.com"])], FileAcmeEnvironment::Production);
    assert_eq!(
        directory_url(&production),
        "https://acme-v02.api.letsencrypt.org/directory"
    );
    assert_eq!(
        account_path(&production),
        "/etc/gateway/state/letsencrypt-production-account.json"
    );
    assert_eq!(account_contact(&production).as_deref(), Some("mailto:ops@example.com"));
    assert_eq!(account_contact(&AcmeConfig::disabled("/etc")), None);
}

#[test]
fn an_account_is_restored_or_created() {
    let config = wanted();
    let saved = b"{\"id\":\"https://acme.example/1\",\"key_pkcs8\":\"AQID\",\"directory\":\"d\"}";
    let Ok(Some(credentials)) = load_account(&config, AccountRead::Contents(saved.to_vec())) else {
        panic!("the account should be found");
    };
    assert_eq!(credentials.private_key().secret_pkcs8_der(), &[1, 2, 3]);
    assert!(matches!(
        account_plan(&config, Some(credentials)),
        AccountPlan::Restore(credentials)
            if credentials.private_key().secret_pkcs8_der() == &[1, 2, 3]
    ));
    assert!(matches!(load_account(&config, AccountRead::Missing), Ok(None)));
    assert!(matches!(
        account_plan(&config, None),
        AccountPlan::Create {
            contact: Some(contact),
            directory,
            terms_of_service_agreed: true,
            only_return_existing: false,
        } if contact == "mailto:ops@example.com" && directory == directory_url(&config)
    ));
    assert!(matches!(
        load_account(&config, AccountRead::Failed),
        Err(error) if error == "failed to read ACME account state \
            /etc/gateway/state/letsencrypt-staging-account.json"
    ));
    for odd in [&b""[..], b"{}", b"{\"id\":\"1\",\"key_pkcs8\":\"!\"}", b"\xff"] {
        assert!(matches!(
            load_account(&config, AccountRead::Contents(odd.to_vec())),
            Err(error) if error == "failed to parse ACME account state \
                /etc/gateway/state/letsencrypt-staging-account.json"
        ));
    }
    assert!(check_account(&config, None).is_err());
    for (step, text) in [
        (AccountStep::Connect, "failed to create ACME HTTP client"),
        (
            AccountStep::Parse,
            "failed to parse ACME account state /etc/gateway/state/letsencrypt-staging-account.json",
        ),
        (AccountStep::Restore, "failed to restore ACME account"),
        (AccountStep::Create, "failed to create Let's Encrypt ACME account"),
        (AccountStep::Serialize, "failed to serialize ACME account state"),
    ] {
        assert_eq!(account_error(&config, step), text);
    }
}

#[test]
fn a_saved_account_is_loaded() {
    let config = wanted();
    let saved = b"{\"key_pkcs8\":\"AQID\",\"id\":\"a \\\"quoted\\\" id\"}";
    let Ok(Some(credentials)) = load_account(&config, AccountRead::Contents(saved.to_vec())) else {
        panic!("the account should be found");
    };
    let Ok(text) = account_contents(&config, &credentials) else {
        panic!("the account should be written");
    };
    assert_ne!(text.as_bytes(), saved);
    let Ok(Some(again)) = load_account(&config, AccountRead::Contents(text.clone().into_bytes()))
    else {
        panic!("the account should be found");
    };
    assert_eq!(again.private_key().secret_pkcs8_der(), &[1, 2, 3]);
    assert_eq!(account_contents(&config, &again), Ok(text));
}

#[test]
fn a_first_cycle_is_run_where_there_is_no_certificate() {
    let config = wanted();
    assert!(needs_bootstrap(&config, true));
    assert!(!needs_bootstrap(&config, false));
    assert!(!needs_bootstrap(&AcmeConfig::disabled("."), true));
    assert_eq!(bootstrap_outcome(false, None), Ok(None));
    assert_eq!(
        bootstrap_outcome(false, Some("partly".to_owned())),
        Ok(Some("partly".to_owned()))
    );
    assert_eq!(bootstrap_outcome(true, Some("why".to_owned())), Err("why".to_owned()));
    assert_eq!(
        bootstrap_outcome(true, None),
        Err("ACME bootstrap completed without producing a usable TLS certificate".to_owned())
    );
}

#[test]
fn a_cycle_goes_through_all_certificates() {
    let config = acme(
        &[("a", &["a.b"]), ("b", &["b.b"]), ("c", &["c.b"])],
        FileAcmeEnvironment::Staging,
    );
    let (mut cycle, action) = Cycle::begin(&config);
    assert!(matches!(action, CycleAction::EnsureAccount));
    assert!(matches!(cycle.on_account(None), CycleAction::Check(0)));
    assert!(matches!(cycle.on_checked(true), CycleAction::Check(1)));
    assert!(matches!(cycle.on_checked(false), CycleAction::Check(2)));
    assert!(matches!(cycle.on_checked(true), CycleAction::Issue(0)));
    assert_eq!(cycle.due_count(), 2);
    assert!(matches!(
        cycle.on_issued("a", Some("no".to_owned())),
        CycleAction::Issue(2)
    ));
    assert!(matches!(
        cycle.on_issued("c", Some("never".to_owned())),
        CycleAction::Finish(Some(error))
            if error == "one or more ACME certificate operations failed: a: no; c: never"
    ));
    assert_eq!(cycle.phase(), CyclePhase::Done);
}

#[test]
fn cycles_can_be_short() {
    let (cycle, action) = Cycle::begin(&AcmeConfig::disabled("."));
    assert!(matches!(action, CycleAction::Finish(None)));
    assert_eq!(cycle.phase(), CyclePhase::Done);
    let config = wanted();
    let (mut cycle, _) = Cycle::begin(&config);
    assert!(matches!(
        cycle.on_account(Some("no account".to_owned())),
        CycleAction::Finish(Some(error)) if error == "no account"
    ));
    let (mut cycle, _) = Cycle::begin(&config);
    cycle.on_account(None);
    assert!(matches!(cycle.on_checked(false), CycleAction::Finish(None)));
    let (mut cycle, _) = Cycle::begin(&config);
    cycle.on_account(None);
    cycle.on_checked(true);
    assert!(matches!(cycle.on_issued("main", None), CycleAction::Finish(None)));
}

#[test]
fn files_are_written_aside_first() {
    assert_eq!(temporary_name(Some("a.pem"), 7, 99), ".a.pem.tmp-7-99");
    assert_eq!(temporary_name(None, 7, 99), ".acme-state.tmp-7-99");
    assert_eq!(temporary_path("/d/a", 1, 2), "/d/.a.tmp-1-2");
    assert_eq!(temporary_path("/d//a/.", 1, 2), "/d/.a.tmp-1-2");
    assert_eq!(temporary_path("a", 1, 2), ".a.tmp-1-2");
    assert_eq!(temporary_path("/d/..", 1, 2), "/d/../.acme-state.tmp-1-2");
    assert_eq!(temporary_path("/", 1, 2), "/.acme-state.tmp-1-2");
    assert_eq!(file_mode(true), 0o600);
    assert_eq!(file_mode(false), 0o644);
}

#[test]
fn failures_of_files_are_spelled_out() {
    assert_eq!(file_error(FileStep::Create, "p"), "failed to create p");
    assert_eq!(file_error(FileStep::Write, "p"), "failed to write p");
    assert_eq!(file_error(FileStep::Sync, "p"), "failed to sync p");
    assert_eq!(file_error(FileStep::SetPermissions, "p"), "failed to set permissions on p");
    assert_eq!(replace_error("a", "b"), "failed to replace b with a");
    assert_eq!(
        certificate_directory_error("d"),
        "failed to create TLS certificate directory d"
    );
    assert_eq!(directory_error("d"), "failed to create directory d");
}

fn save() -> (SavePair, SaveAction) {
    SavePair::begin(&tls(), "main", "cert".to_owned(), "key".to_owned(), 7, 1, 2)
}

const CERTIFICATE_ASIDE: &str = "/etc/gateway/certs/.main.fullchain.pem.tmp-7-1";
const KEY_ASIDE: &str = "/etc/gateway/certs/.main.key.pem.tmp-7-2";

#[test]
fn a_pair_is_saved_key_first() {
    let (mut pair, action) = save();
    assert!(matches!(
        action,
        SaveAction::CreateDirectory(path) if path == "/etc/gateway/certs"
    ));
    assert!(matches!(
        pair.on_success(),
        SaveAction::Write { path, contents, private: false }
            if path == CERTIFICATE_ASIDE && contents == "cert"
    ));
    assert!(matches!(
        pair.on_success(),
        SaveAction::Write { path, contents, private: true }
            if path == KEY_ASIDE && contents == "key"
    ));
    assert!(matches!(
        pair.on_success(),
        SaveAction::Replace { source, destination }
            if source == KEY_ASIDE && destination == "/etc/gateway/certs/main.key.pem"
    ));
    assert!(matches!(
        pair.on_success(),
        SaveAction::Replace { source, destination }
            if source == CERTIFICATE_ASIDE
                && destination == "/etc/gateway/certs/main.fullchain.pem"
    ));
    assert!(matches!(pair.on_success(), SaveAction::Finish(None)));
}

#[test]
fn a_pair_is_written_next_to_its_files() {
    let aside = |cert_dir: &str, id: &str, suffix: &str| {
        let file = FileTlsConfig {
            cert_dir: cert_dir.to_owned(),
            cert_suffix: suffix.to_owned(),
            key_suffix: ".key.pem".to_owned(),
            default_certificate: None,
        };
        let Ok(tls) = file.validate("/etc") else {
            panic!("the section should be accepted");
        };
        let (mut pair, _) = SavePair::begin(&tls, id, "c".to_owned(), "k".to_owned(), 7, 1, 2);
        match pair.on_success() {
            SaveAction::Write { path, .. } => path,
            _ => panic!("the certificate should be written"),
        }
    };
    assert_eq!(aside("certs", "main", ".pem.crt"), "/etc/certs/.main.pem.crt.tmp-7-1");
    assert_eq!(aside("certs//", "main", ".crt"), "/etc/certs/.main.crt.tmp-7-1");
    assert_eq!(aside("certs", ".", "."), "/etc/certs/../.acme-state.tmp-7-1");
    assert_eq!(aside("certs", "sub/main", ".crt"), "/etc/certs/sub/.main.crt.tmp-7-1");
}

#[test]
fn a_failed_save_leaves_nothing_aside() {
    for (steps, left) in [
        (0, vec![]),
        (1, vec![]),
        (2, vec![CERTIFICATE_ASIDE]),
        (3, vec![CERTIFICATE_ASIDE, KEY_ASIDE]),
        (4, vec![CERTIFICATE_ASIDE]),
    ] {
        let (mut pair, _) = save();
        for _ in 0..steps {
            pair.on_success();
        }
        let mut action = pair.on_failure("why".to_owned());
        if !left.is_empty() {
            match action {
                SaveAction::Remove(paths) => assert_eq!(paths, left),
                _ => panic!("the files should be removed"),
            }
            action = pair.on_failure("gone already".to_owned());
        }
        assert!(matches!(action, SaveAction::Finish(Some(error)) if error == "why"));
    }
}

#[test]
fn a_file_is_replaced_when_it_is_written() {
    let begin = || AtomicWrite::begin("/d/a", "text".to_owned(), true, 1, 2);
    let (mut write, action) = begin();
    assert!(matches!(action, SaveAction::CreateDirectory(path) if path == "/d"));
    assert!(matches!(
        write.on_success(),
        SaveAction::Write { path, contents, private: true }
            if path == "/d/.a.tmp-1-2" && contents == "text"
    ));
    assert!(matches!(
        write.on_success(),
        SaveAction::Replace { source, destination }
            if source == "/d/.a.tmp-1-2" && destination == "/d/a"
    ));
    assert!(matches!(write.on_success(), SaveAction::Finish(None)));

    let (mut write, _) = begin();
    write.on_success();
    assert!(matches!(
        write.on_failure("why".to_owned()),
        SaveAction::Finish(Some(error)) if error == "why"
    ));
    let (_, action) = AtomicWrite::begin("/", "text".to_owned(), true, 1, 2);
    assert!(matches!(
        action,
        SaveAction::Write { path, .. } if path == "/.acme-state.tmp-1-2"
    ));
    let (mut write, _) = begin();
    write.on_success();
    write.on_success();
    assert!(matches!(
        write.on_failure("why".to_owned()),
        SaveAction::Remove(paths) if paths == vec!["/d/.a.tmp-1-2"]
    ));
    assert!(matches!(
        write.on_success(),
        SaveAction::Finish(Some(error)) if error == "why"
    ));
}
