//! The order of one certificate, from the request for it to its activation.

use vstd::prelude::*;
use vstd::utf8::encode_utf8;

use crate::config::acme::{AcmeCertificateConfig, CertificateModel};
use crate::text::{contains_char, copy_texts, debug_of, debug_text, join2, join3, texts};
use crate::tls::certificate::{pair_result, CertificateMetadata, MetadataModel};
use crate::tls::store::{replacement_result, CertificateIndex};

use super::renewal::{domains_match, same_domains};

verus! {

/// A challenge that the certificate authority poses.
pub struct Challenge {
    pub token: String,
    pub key_authorization: String,
}

pub struct ChallengeModel {
    pub token: Seq<char>,
    pub key_authorization: Seq<char>,
}

impl View for Challenge {
    type V = ChallengeModel;

    open spec fn view(&self) -> ChallengeModel {
        ChallengeModel { token: self.token@, key_authorization: self.key_authorization@ }
    }
}

pub open spec fn opt_challenge(challenge: Option<Challenge>) -> Option<ChallengeModel> {
    match challenge {
        Some(challenge) => Some(challenge@),
        None => None,
    }
}

/// Where the authorization for one name stands.
pub enum AuthorizationStatus {
    Valid,
    Pending,
    /// Any other status, in words.
    Unexpected(String),
}

pub enum AuthorizationStatusModel {
    Valid,
    Pending,
    Unexpected(Seq<char>),
}

impl View for AuthorizationStatus {
    type V = AuthorizationStatusModel;

    open spec fn view(&self) -> AuthorizationStatusModel {
        match self {
            AuthorizationStatus::Valid => AuthorizationStatusModel::Valid,
            AuthorizationStatus::Pending => AuthorizationStatusModel::Pending,
            AuthorizationStatus::Unexpected(status) => AuthorizationStatusModel::Unexpected(
                status@,
            ),
        }
    }
}

/// How far an order has come.
#[derive(Clone, Copy, Debug, PartialEq, Eq, Structural)]
pub enum IssuePhase {
    PlacingOrder,
    Authorizing,
    StartingServer,
    Publishing,
    MarkingReady,
    AwaitingReady,
    Finalizing,
    AwaitingCertificate,
    Saving,
    Activating,
    CleaningUp,
    Done,
}

/// What happened to an order.
pub enum IssueEvent {
    OrderCreated,
    OrderFailed,
    /// The authorization for one name, with its HTTP-01 challenge, if it has one.
    AuthorizationLoaded(AuthorizationStatus, Option<Challenge>),
    AuthorizationFailed,
    NoMoreAuthorizations,
    ServerStarted,
    ServerFailed(String),
    Published,
    MarkedReady,
    MarkReadyFailed,
    OrderReady,
    /// The order has another status, in words.
    OrderUnexpected(String),
    ReadyFailed,
    /// The private key of the certificate to come, as PEM.
    Finalized(String),
    FinalizeFailed,
    CertificateFailed,
    Saved,
    SaveFailed(String),
    Activated,
    ActivateFailed,
    CleanedUp,
}

pub enum IssueEventModel {
    OrderCreated,
    OrderFailed,
    AuthorizationLoaded(AuthorizationStatusModel, Option<ChallengeModel>),
    AuthorizationFailed,
    NoMoreAuthorizations,
    ServerStarted,
    ServerFailed(Seq<char>),
    Published,
    MarkedReady,
    MarkReadyFailed,
    OrderReady,
    OrderUnexpected(Seq<char>),
    ReadyFailed,
    Finalized(Seq<char>),
    FinalizeFailed,
    CertificateFailed,
    Saved,
    SaveFailed(Seq<char>),
    Activated,
    ActivateFailed,
    CleanedUp,
}

impl View for IssueEvent {
    type V = IssueEventModel;

    open spec fn view(&self) -> IssueEventModel {
        match self {
            IssueEvent::OrderCreated => IssueEventModel::OrderCreated,
            IssueEvent::OrderFailed => IssueEventModel::OrderFailed,
            IssueEvent::AuthorizationLoaded(status, challenge) => {
                IssueEventModel::AuthorizationLoaded(status@, opt_challenge(*challenge))
            },
            IssueEvent::AuthorizationFailed => IssueEventModel::AuthorizationFailed,
            IssueEvent::NoMoreAuthorizations => IssueEventModel::NoMoreAuthorizations,
            IssueEvent::ServerStarted => IssueEventModel::ServerStarted,
            IssueEvent::ServerFailed(e) => IssueEventModel::ServerFailed(e@),
            IssueEvent::Published => IssueEventModel::Published,
            IssueEvent::MarkedReady => IssueEventModel::MarkedReady,
            IssueEvent::MarkReadyFailed => IssueEventModel::MarkReadyFailed,
            IssueEvent::OrderReady => IssueEventModel::OrderReady,
            IssueEvent::OrderUnexpected(status) => IssueEventModel::OrderUnexpected(status@),
            IssueEvent::ReadyFailed => IssueEventModel::ReadyFailed,
            IssueEvent::Finalized(key) => IssueEventModel::Finalized(key@),
            IssueEvent::FinalizeFailed => IssueEventModel::FinalizeFailed,
            IssueEvent::CertificateFailed => IssueEventModel::CertificateFailed,
            IssueEvent::Saved => IssueEventModel::Saved,
            IssueEvent::SaveFailed(e) => IssueEventModel::SaveFailed(e@),
            IssueEvent::Activated => IssueEventModel::Activated,
            IssueEvent::ActivateFailed => IssueEventModel::ActivateFailed,
            IssueEvent::CleanedUp => IssueEventModel::CleanedUp,
        }
    }
}

/// What is to be done for an order.
pub enum IssueAction {
    LoadAuthorization,
    StartServer,
    /// Answer the challenge from now on.
    Publish(Challenge),
    /// Tell the certificate authority that the challenge is answered.
    MarkReady,
    AwaitReady,
    Finalize,
    AwaitCertificate,
    /// Save the certificate and its private key.
    Save { certificate: String, private_key: String },
    /// Put the saved certificate into service.
    Activate,
    /// Answer these challenges no more.
    RemoveTokens(Vec<String>),
    /// The order is over: the error, or none.
    Finish(Option<String>),
}

pub enum IssueActionModel {
    LoadAuthorization,
    StartServer,
    Publish(ChallengeModel),
    MarkReady,
    AwaitReady,
    Finalize,
    AwaitCertificate,
    Save { certificate: Seq<char>, private_key: Seq<char> },
    Activate,
    RemoveTokens(Seq<Seq<char>>),
    Finish(Option<Seq<char>>),
}

impl View for IssueAction {
    type V = IssueActionModel;

    open spec fn view(&self) -> IssueActionModel {
        match self {
            IssueAction::LoadAuthorization => IssueActionModel::LoadAuthorization,
            IssueAction::StartServer => IssueActionModel::StartServer,
            IssueAction::Publish(challenge) => IssueActionModel::Publish(challenge@),
            IssueAction::MarkReady => IssueActionModel::MarkReady,
            IssueAction::AwaitReady => IssueActionModel::AwaitReady,
            IssueAction::Finalize => IssueActionModel::Finalize,
            IssueAction::AwaitCertificate => IssueActionModel::AwaitCertificate,
            IssueAction::Save { certificate, private_key } => IssueActionModel::Save {
                certificate: certificate@,
                private_key: private_key@,
            },
            IssueAction::Activate => IssueActionModel::Activate,
            IssueAction::RemoveTokens(tokens) => IssueActionModel::RemoveTokens(texts(tokens@)),
            IssueAction::Finish(e) => IssueActionModel::Finish(crate::text::opt_text(*e)),
        }
    }
}

/// The order of one certificate.
pub struct IssueSession {
    id: String,
    phase: IssuePhase,
    server_running: bool,
    challenge: Option<Challenge>,
    published: Vec<String>,
    private_key: String,
    failure: Option<String>,
}

pub struct IssueModel {
    pub id: Seq<char>,
    pub phase: IssuePhase,
    /// Whether challenges can be answered.
    pub server_running: bool,
    /// The challenge that is being worked on.
    pub challenge: Option<ChallengeModel>,
    /// The tokens of the challenges that are answered.
    pub published: Seq<Seq<char>>,
    pub private_key: Seq<char>,
    /// Why the order failed, once it has.
    pub failure: Option<Seq<char>>,
}

impl View for IssueSession {
    type V = IssueModel;

    closed spec fn view(&self) -> IssueModel {
        IssueModel {
            id: self.id@,
            phase: self.phase,
            server_running: self.server_running,
            challenge: opt_challenge(self.challenge),
            published: texts(self.published@),
            private_key: self.private_key@,
            failure: crate::text::opt_text(self.failure),
        }
    }
}

/// Why a challenge cannot be answered, if it cannot.
pub open spec fn challenge_error(challenge: Option<ChallengeModel>) -> Option<Seq<char>> {
    match challenge {
        None => Some("ACME authorization has no HTTP-01 challenge"@),
        Some(challenge) => if challenge.token.len() == 0 || challenge.token.contains('/') {
            Some("ACME server returned an invalid HTTP-01 token"@)
        } else {
            None
        },
    }
}

/// An order and what is to be done for it.
pub struct IssueStep {
    pub session: IssueModel,
    pub action: IssueActionModel,
}

impl IssueModel {
    /// Whether an event can occur in the order's phase.
    pub open spec fn accepts(self, event: IssueEventModel) -> bool {
        match self.phase {
            IssuePhase::PlacingOrder => event is OrderCreated || event is OrderFailed,
            IssuePhase::Authorizing => event is AuthorizationLoaded || event is AuthorizationFailed
                || event is NoMoreAuthorizations,
            IssuePhase::StartingServer => self.challenge is Some && (event is ServerStarted
                || event is ServerFailed),
            IssuePhase::Publishing => self.challenge is Some && event is Published,
            IssuePhase::MarkingReady => event is MarkedReady || event is MarkReadyFailed,
            IssuePhase::AwaitingReady => event is OrderReady || event is OrderUnexpected
                || event is ReadyFailed,
            IssuePhase::Finalizing => event is Finalized || event is FinalizeFailed,
            IssuePhase::AwaitingCertificate => event is CertificateFailed,
            IssuePhase::Saving => event is Saved || event is SaveFailed,
            IssuePhase::Activating => event is Activated || event is ActivateFailed,
            IssuePhase::CleaningUp => event is CleanedUp,
            IssuePhase::Done => false,
        }
    }

    pub open spec fn at(self, phase: IssuePhase, action: IssueActionModel) -> IssueStep {
        IssueStep { session: IssueModel { phase, ..self }, action }
    }

    /// The order has failed: no challenge is answered any more.
    pub open spec fn failed(self, e: Seq<char>) -> IssueStep {
        IssueStep {
            session: IssueModel { phase: IssuePhase::CleaningUp, failure: Some(e), ..self },
            action: IssueActionModel::RemoveTokens(self.published),
        }
    }

    /// What an authorization leads to.
    pub open spec fn authorized(
        self,
        status: AuthorizationStatusModel,
        challenge: Option<ChallengeModel>,
    ) -> IssueStep {
        match status {
            AuthorizationStatusModel::Valid => self.at(
                IssuePhase::Authorizing,
                IssueActionModel::LoadAuthorization,
            ),
            AuthorizationStatusModel::Unexpected(status) => self.failed(
                "unexpected ACME authorization status "@ + status,
            ),
            AuthorizationStatusModel::Pending => match challenge_error(challenge) {
                Some(e) => self.failed(e),
                None => {
                    let session = IssueModel { challenge, ..self };
                    if self.server_running {
                        session.at(
                            IssuePhase::Publishing,
                            IssueActionModel::Publish(challenge->0),
                        )
                    } else {
                        session.at(IssuePhase::StartingServer, IssueActionModel::StartServer)
                    }
                },
            },
        }
    }

    /// What an event that the order accepts leads to.
    pub open spec fn step(self, event: IssueEventModel) -> IssueStep {
        match event {
            IssueEventModel::OrderCreated => self.at(
                IssuePhase::Authorizing,
                IssueActionModel::LoadAuthorization,
            ),
            IssueEventModel::OrderFailed => {
                let e = "failed to create ACME order for "@ + debug_text(self.id);
                IssueStep {
                    session: IssueModel { phase: IssuePhase::Done, failure: Some(e), ..self },
                    action: IssueActionModel::Finish(Some(e)),
                }
            },
            IssueEventModel::AuthorizationLoaded(status, challenge) => self.authorized(
                status,
                challenge,
            ),
            IssueEventModel::AuthorizationFailed => self.failed(
                "failed to load ACME authorization"@,
            ),
            IssueEventModel::NoMoreAuthorizations => self.at(
                IssuePhase::AwaitingReady,
                IssueActionModel::AwaitReady,
            ),
            IssueEventModel::ServerStarted => IssueModel { server_running: true, ..self }.at(
                IssuePhase::Publishing,
                IssueActionModel::Publish(self.challenge->0),
            ),
            IssueEventModel::ServerFailed(e) => self.failed(e),
            IssueEventModel::Published => IssueModel {
                published: self.published.push(self.challenge->0.token),
                ..self
            }.at(IssuePhase::MarkingReady, IssueActionModel::MarkReady),
            IssueEventModel::MarkedReady => IssueModel { challenge: None, ..self }.at(
                IssuePhase::Authorizing,
                IssueActionModel::LoadAuthorization,
            ),
            IssueEventModel::MarkReadyFailed => self.failed(
                "failed to mark ACME HTTP-01 challenge ready"@,
            ),
            IssueEventModel::OrderReady => self.at(
                IssuePhase::Finalizing,
                IssueActionModel::Finalize,
            ),
            IssueEventModel::OrderUnexpected(status) => self.failed(
                "unexpected ACME order status after validation: "@ + status,
            ),
            IssueEventModel::ReadyFailed => self.failed(
                "failed while waiting for ACME authorizations"@,
            ),
            IssueEventModel::Finalized(key) => IssueModel { private_key: key, ..self }.at(
                IssuePhase::AwaitingCertificate,
                IssueActionModel::AwaitCertificate,
            ),
            IssueEventModel::FinalizeFailed => self.failed("failed to finalize ACME order"@),
            IssueEventModel::CertificateFailed => self.failed(
                "failed while waiting for ACME certificate"@,
            ),
            IssueEventModel::Saved => self.at(IssuePhase::Activating, IssueActionModel::Activate),
            IssueEventModel::SaveFailed(e) => self.failed(e),
            IssueEventModel::Activated => self.at(
                IssuePhase::CleaningUp,
                IssueActionModel::RemoveTokens(self.published),
            ),
            IssueEventModel::ActivateFailed => self.failed(
                "new certificate "@ + debug_text(self.id)
                    + " could not be published to the TLS store"@,
            ),
            IssueEventModel::CleanedUp => self.at(
                IssuePhase::Done,
                IssueActionModel::Finish(self.failure),
            ),
        }
    }

    /// What the issued certificate leads to, given what it comes to in the store: it is saved only
    /// if it can go into service and covers exactly the wanted names.
    pub open spec fn certificate_step(
        self,
        desired: CertificateModel,
        certificate: Seq<char>,
        candidate: Result<MetadataModel, Seq<char>>,
    ) -> IssueStep {
        match candidate {
            Err(_) => self.failed(
                "issued certificate "@ + debug_text(self.id)
                    + " failed pre-activation TLS validation"@,
            ),
            Ok(metadata) => if !same_domains(metadata.dns_names, desired.domains) {
                self.failed(
                    "issued certificate SANs do not match configured domains for "@ + debug_text(
                        self.id,
                    ),
                )
            } else {
                self.at(
                    IssuePhase::Saving,
                    IssueActionModel::Save { certificate, private_key: self.private_key },
                )
            },
        }
    }
}

pub open spec fn metadata_model(candidate: Result<CertificateMetadata, String>) -> Result<
    MetadataModel,
    Seq<char>,
> {
    match candidate {
        Ok(metadata) => Ok(metadata@),
        Err(e) => Err(e@),
    }
}

impl IssueSession {
    /// An order for a certificate. `server_running` says whether challenges can be answered.
    pub fn new(desired: &AcmeCertificateConfig, server_running: bool) -> (r: IssueSession)
        ensures
            r@ == (IssueModel {
                id: desired@.id,
                phase: IssuePhase::PlacingOrder,
                server_running,
                challenge: None,
                published: Seq::empty(),
                private_key: Seq::empty(),
                failure: None,
            }),
    {
        let published: Vec<String> = Vec::new();
        assert(texts(published@) =~= Seq::<Seq<char>>::empty());
        IssueSession {
            id: desired.id().to_owned(),
            phase: IssuePhase::PlacingOrder,
            server_running,
            challenge: None,
            published,
            private_key: String::new(),
            failure: None,
        }
    }

    pub fn phase(&self) -> (r: IssuePhase)
        ensures
            r == self@.phase,
    {
        self.phase
    }

    /// Whether challenges can be answered.
    pub fn server_running(&self) -> (r: bool)
        ensures
            r == self@.server_running,
    {
        self.server_running
    }

    fn fail(&mut self, e: String) -> (r: IssueAction)
        ensures
            (IssueStep { session: final(self)@, action: r@ }) == old(self)@.failed(e@),
    {
        self.phase = IssuePhase::CleaningUp;
        self.failure = Some(e);
        IssueAction::RemoveTokens(copy_texts(&self.published))
    }

    fn publish(&mut self) -> (r: IssueAction)
        requires
            old(self)@.challenge is Some,
        ensures
            (IssueStep { session: final(self)@, action: r@ }) == old(self)@.at(
                IssuePhase::Publishing,
                IssueActionModel::Publish(old(self)@.challenge->0),
            ),
    {
        self.phase = IssuePhase::Publishing;
        match &self.challenge {
            Some(challenge) => IssueAction::Publish(
                Challenge {
                    token: challenge.token.clone(),
                    key_authorization: challenge.key_authorization.clone(),
                },
            ),
            None => IssueAction::MarkReady,
        }
    }

    fn on_authorization(
        &mut self,
        status: AuthorizationStatus,
        challenge: Option<Challenge>,
    ) -> (r: IssueAction)
        ensures
            (IssueStep { session: final(self)@, action: r@ }) == old(self)@.authorized(
                status@,
                opt_challenge(challenge),
            ),
    {
        match status {
            AuthorizationStatus::Valid => {
                self.phase = IssuePhase::Authorizing;
                IssueAction::LoadAuthorization
            },
            AuthorizationStatus::Unexpected(status) => self.fail(
                join2("unexpected ACME authorization status ", &status),
            ),
            AuthorizationStatus::Pending => {
                let challenge = match challenge {
                    Some(challenge) => challenge,
                    None => {
                        return self.fail("ACME authorization has no HTTP-01 challenge".to_owned());
                    },
                };
                if challenge.token.as_str().is_empty() || contains_char(&challenge.token, '/') {
                    return self.fail("ACME server returned an invalid HTTP-01 token".to_owned());
                }
                self.challenge = Some(challenge);
                if self.server_running {
                    self.publish()
                } else {
                    self.phase = IssuePhase::StartingServer;
                    IssueAction::StartServer
                }
            },
        }
    }

    fn on_published(&mut self) -> (r: IssueAction)
        requires
            old(self)@.challenge is Some,
        ensures
            (IssueStep { session: final(self)@, action: r@ }) == old(self)@.step(
                IssueEventModel::Published,
            ),
    {
        let ghost before = self.published@;
        let token = match &self.challenge {
            Some(challenge) => challenge.token.clone(),
            None => String::new(),
        };
        let ghost added = token@;
        self.published.push(token);
        assert(texts(self.published@) =~= texts(before).push(added));
        self.phase = IssuePhase::MarkingReady;
        IssueAction::MarkReady
    }

    /// Whether an event can occur in the order's phase.
    pub fn expects(&self, event: &IssueEvent) -> (r: bool)
        ensures
            r == self@.accepts(event@),
    {
        let has_challenge = self.challenge.is_some();
        match event {
            IssueEvent::OrderCreated | IssueEvent::OrderFailed => self.phase
                == IssuePhase::PlacingOrder,
            IssueEvent::AuthorizationLoaded(_, _)
            | IssueEvent::AuthorizationFailed
            | IssueEvent::NoMoreAuthorizations => self.phase == IssuePhase::Authorizing,
            IssueEvent::ServerStarted | IssueEvent::ServerFailed(_) => has_challenge && self.phase
                == IssuePhase::StartingServer,
            IssueEvent::Published => has_challenge && self.phase == IssuePhase::Publishing,
            IssueEvent::MarkedReady | IssueEvent::MarkReadyFailed => self.phase
                == IssuePhase::MarkingReady,
            IssueEvent::OrderReady | IssueEvent::OrderUnexpected(_) | IssueEvent::ReadyFailed => {
                self.phase == IssuePhase::AwaitingReady
            },
            IssueEvent::Finalized(_) | IssueEvent::FinalizeFailed => self.phase
                == IssuePhase::Finalizing,
            IssueEvent::CertificateFailed => self.phase == IssuePhase::AwaitingCertificate,
            IssueEvent::Saved | IssueEvent::SaveFailed(_) => self.phase == IssuePhase::Saving,
            IssueEvent::Activated | IssueEvent::ActivateFailed => self.phase
                == IssuePhase::Activating,
            IssueEvent::CleanedUp => self.phase == IssuePhase::CleaningUp,
        }
    }

    /// Takes an event that the order accepts, and says what to do next.
    pub fn on_event(&mut self, event: IssueEvent) -> (r: IssueAction)
        requires
            old(self)@.accepts(event@),
        ensures
            (IssueStep { session: final(self)@, action: r@ }) == old(self)@.step(event@),
    {
        match event {
            IssueEvent::OrderCreated => {
                self.phase = IssuePhase::Authorizing;
                IssueAction::LoadAuthorization
            },
            IssueEvent::OrderFailed => {
                let e = join2("failed to create ACME order for ", &debug_of(&self.id));
                self.phase = IssuePhase::Done;
                self.failure = Some(e.clone());
                IssueAction::Finish(Some(e))
            },
            IssueEvent::AuthorizationLoaded(status, challenge) => self.on_authorization(
                status,
                challenge,
            ),
            IssueEvent::AuthorizationFailed => self.fail(
                "failed to load ACME authorization".to_owned(),
            ),
            IssueEvent::NoMoreAuthorizations => {
                self.phase = IssuePhase::AwaitingReady;
                IssueAction::AwaitReady
            },
            IssueEvent::ServerStarted => {
                self.server_running = true;
                self.publish()
            },
            IssueEvent::ServerFailed(e) => self.fail(e),
            IssueEvent::Published => self.on_published(),
            IssueEvent::MarkedReady => {
                self.challenge = None;
                self.phase = IssuePhase::Authorizing;
                IssueAction::LoadAuthorization
            },
            IssueEvent::MarkReadyFailed => self.fail(
                "failed to mark ACME HTTP-01 challenge ready".to_owned(),
            ),
            IssueEvent::OrderReady => {
                self.phase = IssuePhase::Finalizing;
                IssueAction::Finalize
            },
            IssueEvent::OrderUnexpected(status) => self.fail(
                join2("unexpected ACME order status after validation: ", &status),
            ),
            IssueEvent::ReadyFailed => self.fail(
                "failed while waiting for ACME authorizations".to_owned(),
            ),
            IssueEvent::Finalized(key) => {
                self.private_key = key;
                self.phase = IssuePhase::AwaitingCertificate;
                IssueAction::AwaitCertificate
            },
            IssueEvent::FinalizeFailed => self.fail("failed to finalize ACME order".to_owned()),
            IssueEvent::CertificateFailed => self.fail(
                "failed while waiting for ACME certificate".to_owned(),
            ),
            IssueEvent::Saved => {
                self.phase = IssuePhase::Activating;
                IssueAction::Activate
            },
            IssueEvent::SaveFailed(e) => self.fail(e),
            IssueEvent::Activated => {
                self.phase = IssuePhase::CleaningUp;
                IssueAction::RemoveTokens(copy_texts(&self.published))
            },
            IssueEvent::ActivateFailed => {
                let e = join3(
                    "new certificate ",
                    &debug_of(&self.id),
                    " could not be published to the TLS store",
                );
                self.fail(e)
            },
            IssueEvent::CleanedUp => {
                self.phase = IssuePhase::Done;
                IssueAction::Finish(
                    match &self.failure {
                        Some(e) => Some(e.clone()),
                        None => None,
                    },
                )
            },
        }
    }

    /// Takes the issued certificate, from what it comes to in the store.
    pub fn on_candidate(
        &mut self,
        desired: &AcmeCertificateConfig,
        certificate: String,
        candidate: Result<CertificateMetadata, String>,
    ) -> (r: IssueAction)
        requires
            old(self)@.phase == IssuePhase::AwaitingCertificate,
        ensures
            (IssueStep { session: final(self)@, action: r@ }) == old(self)@.certificate_step(
                desired@,
                certificate@,
                metadata_model(candidate),
            ),
    {
        match candidate {
            Err(_) => {
                let e = join3(
                    "issued certificate ",
                    &debug_of(&self.id),
                    " failed pre-activation TLS validation",
                );
                self.fail(e)
            },
            Ok(metadata) => {
                if !domains_match(&metadata, desired) {
                    let e = join2(
                        "issued certificate SANs do not match configured domains for ",
                        &debug_of(&self.id),
                    );
                    return self.fail(e);
                }
                self.phase = IssuePhase::Saving;
                IssueAction::Save { certificate, private_key: self.private_key.clone() }
            },
        }
    }

    /// Takes the issued certificate, and holds it against the certificates in service.
    pub fn on_certificate(
        &mut self,
        desired: &AcmeCertificateConfig,
        certificate: String,
        index: &CertificateIndex,
    ) -> (r: IssueAction)
        requires
            old(self)@.phase == IssuePhase::AwaitingCertificate,
        ensures
            (IssueStep { session: final(self)@, action: r@ }) == old(self)@.certificate_step(
                desired@,
                certificate@,
                replacement_result(
                    index@,
                    old(self)@.id,
                    pair_result(
                        old(self)@.id,
                        encode_utf8(certificate@),
                        encode_utf8(old(self)@.private_key),
                    ),
                ),
            ),
    {
        let candidate = index.validate_replacement(
            &self.id,
            certificate.as_str().as_bytes(),
            self.private_key.as_str().as_bytes(),
        );
        self.on_candidate(desired, certificate, candidate)
    }
}

/// The certificate authority is told that a challenge is answered only after it has been: the
/// step before that published the answer, and its token is among those to be removed.
pub proof fn law_published_before_marked_ready(session: IssueModel, event: IssueEventModel)
    requires
        session.accepts(event),
        session.step(event).action is MarkReady,
    ensures
        event is Published,
        session.phase == IssuePhase::Publishing,
        session.challenge matches Some(challenge) && session.step(
            event,
        ).session.published.contains(challenge.token),
{
    let challenge = session.challenge->0;
    let published = session.published.push(challenge.token);
    assert(published[session.published.len() as int] == challenge.token);
}

/// The answer that is published is that of the challenge at hand, whose token is a plain one.
pub proof fn law_published_answer_is_valid(session: IssueModel, event: IssueEventModel)
    requires
        session.accepts(event),
        session.step(event).action is Publish,
        session.challenge matches Some(challenge) ==> challenge_error(Some(challenge)) is None,
    ensures
        ({
            let step = session.step(event);
            &&& step.session.challenge == Some(step.action->Publish_0)
            &&& step.action->Publish_0.token.len() > 0
            &&& !step.action->Publish_0.token.contains('/')
            &&& step.session.server_running
        }),
{
}

/// Published tokens are never forgotten, and whatever the outcome, every one of them is removed
/// before the order is over.
pub proof fn law_published_tokens_are_removed(session: IssueModel, event: IssueEventModel)
    requires
        session.accepts(event),
    ensures
        session.published.is_prefix_of(session.step(event).session.published),
        session.step(event).session.phase == IssuePhase::CleaningUp ==> session.step(event).action
            == IssueActionModel::RemoveTokens(session.step(event).session.published),
        session.step(event).action is Finish ==> session.phase == IssuePhase::CleaningUp
            || session.phase == IssuePhase::PlacingOrder,
{
    assert(session.published.subrange(0, session.published.len() as int) =~= session.published);
    if event is Published && session.challenge is Some {
        let published = session.published.push(session.challenge->0.token);
        assert(published.subrange(0, session.published.len() as int) =~= session.published);
    }
}

/// An order succeeds only by way of a certificate that was validated, saved and activated: it is
/// activated only after it was saved, and saved only if it covers exactly the wanted names and
/// conflicts with no other certificate.
pub proof fn law_saved_certificates_are_valid(
    session: IssueModel,
    desired: CertificateModel,
    certificate: Seq<char>,
    candidate: Result<MetadataModel, Seq<char>>,
    event: IssueEventModel,
)
    ensures
        session.certificate_step(desired, certificate, candidate).action is Save
            ==> candidate is Ok && same_domains(candidate->Ok_0.dns_names, desired.domains),
        session.accepts(event) ==> !(session.step(event).action is Save),
        session.accepts(event) && session.step(event).action is Activate ==> session.phase
            == IssuePhase::Saving,
        session.accepts(event) && session.failure is None && session.step(event).session.phase
            == IssuePhase::CleaningUp && session.step(event).session.failure is None
            ==> event is Activated,
{
}

/// An order that nothing stops: each authorization that is valid is passed over, each challenge is
/// answered before the authority is told, and then the order is finalized with a key, whose
/// certificate is saved with that key, put into service, and reported without an error.
pub proof fn law_an_order_takes_its_course(
    session: IssueModel,
    challenge: ChallengeModel,
    status: Option<ChallengeModel>,
    key: Seq<char>,
    desired: CertificateModel,
    certificate: Seq<char>,
    metadata: MetadataModel,
)
    requires
        session.phase == IssuePhase::PlacingOrder,
        session.failure is None,
        session.server_running,
        challenge.token.len() > 0 && !challenge.token.contains('/'),
        same_domains(metadata.dns_names, desired.domains),
    ensures
        ({
            let s1 = session.step(IssueEventModel::OrderCreated);
            let valid = s1.session.step(
                IssueEventModel::AuthorizationLoaded(AuthorizationStatusModel::Valid, status),
            );
            let s2 = s1.session.step(
                IssueEventModel::AuthorizationLoaded(
                    AuthorizationStatusModel::Pending,
                    Some(challenge),
                ),
            );
            let s3 = s2.session.step(IssueEventModel::Published);
            let s4 = s3.session.step(IssueEventModel::MarkedReady);
            let s5 = s4.session.step(IssueEventModel::NoMoreAuthorizations);
            let s6 = s5.session.step(IssueEventModel::OrderReady);
            let s7 = s6.session.step(IssueEventModel::Finalized(key));
            let s8 = s7.session.certificate_step(desired, certificate, Ok(metadata));
            let s9 = s8.session.step(IssueEventModel::Saved);
            let s10 = s9.session.step(IssueEventModel::Activated);
            let s11 = s10.session.step(IssueEventModel::CleanedUp);
            &&& session.accepts(IssueEventModel::OrderCreated)
            &&& s1.action is LoadAuthorization
            &&& s1.session.accepts(
                IssueEventModel::AuthorizationLoaded(AuthorizationStatusModel::Valid, status),
            )
            &&& valid.action is LoadAuthorization && valid.session == s1.session
            &&& s2.action == IssueActionModel::Publish(challenge)
            &&& s2.session.accepts(IssueEventModel::Published) && s3.action is MarkReady
            &&& s3.session.accepts(IssueEventModel::MarkedReady) && s4.action is LoadAuthorization
            &&& s4.session.accepts(IssueEventModel::NoMoreAuthorizations) && s5.action is AwaitReady
            &&& s5.session.accepts(IssueEventModel::OrderReady) && s6.action is Finalize
            &&& s6.session.accepts(IssueEventModel::Finalized(key))
            &&& s7.action is AwaitCertificate && s7.session.phase
                == IssuePhase::AwaitingCertificate
            &&& s8.action == (IssueActionModel::Save { certificate, private_key: key })
            &&& s8.session.accepts(IssueEventModel::Saved) && s9.action is Activate
            &&& s9.session.accepts(IssueEventModel::Activated)
            &&& s10.action == IssueActionModel::RemoveTokens(
                session.published.push(challenge.token),
            )
            &&& s10.session.accepts(IssueEventModel::CleanedUp)
            &&& s11.action == IssueActionModel::Finish(None) && s11.session.phase
                == IssuePhase::Done
        }),
{
}

/// Without a server to answer challenges one is started first, and then the same challenge is
/// answered.
pub proof fn law_a_server_is_started_where_none_runs(session: IssueModel, challenge: ChallengeModel)
    requires
        session.phase == IssuePhase::Authorizing,
        !session.server_running,
        challenge.token.len() > 0 && !challenge.token.contains('/'),
    ensures
        ({
            let s1 = session.step(
                IssueEventModel::AuthorizationLoaded(
                    AuthorizationStatusModel::Pending,
                    Some(challenge),
                ),
            );
            let s2 = s1.session.step(IssueEventModel::ServerStarted);
            &&& s1.action is StartServer
            &&& s1.session.accepts(IssueEventModel::ServerStarted)
            &&& s2.action == IssueActionModel::Publish(challenge)
            &&& s2.session.server_running
            &&& s2.session.accepts(IssueEventModel::Published)
        }),
{
}

/// Which events fail an order, and with which words; every such failure removes all tokens that are
/// answered, and is reported when they are gone. No other event fails an order.
pub proof fn law_orders_fail_for_their_own_reason(session: IssueModel, event: IssueEventModel)
    requires
        session.accepts(event),
    ensures
        ({
            let step = session.step(event);
            let error = match event {
                IssueEventModel::OrderFailed => Some(
                    "failed to create ACME order for "@ + debug_text(session.id),
                ),
                IssueEventModel::AuthorizationLoaded(
                    AuthorizationStatusModel::Unexpected(status),
                    _,
                ) => Some("unexpected ACME authorization status "@ + status),
                IssueEventModel::AuthorizationLoaded(AuthorizationStatusModel::Pending, None) => {
                    Some("ACME authorization has no HTTP-01 challenge"@)
                },
                IssueEventModel::AuthorizationLoaded(
                    AuthorizationStatusModel::Pending,
                    Some(challenge),
                ) => if challenge.token.len() == 0 || challenge.token.contains('/') {
                    Some("ACME server returned an invalid HTTP-01 token"@)
                } else {
                    None
                },
                IssueEventModel::AuthorizationFailed => Some("failed to load ACME authorization"@),
                IssueEventModel::ServerFailed(e) => Some(e),
                IssueEventModel::MarkReadyFailed => Some(
                    "failed to mark ACME HTTP-01 challenge ready"@,
                ),
                IssueEventModel::OrderUnexpected(status) => Some(
                    "unexpected ACME order status after validation: "@ + status,
                ),
                IssueEventModel::ReadyFailed => Some(
                    "failed while waiting for ACME authorizations"@,
                ),
                IssueEventModel::FinalizeFailed => Some("failed to finalize ACME order"@),
                IssueEventModel::CertificateFailed => Some(
                    "failed while waiting for ACME certificate"@,
                ),
                IssueEventModel::SaveFailed(e) => Some(e),
                IssueEventModel::ActivateFailed => Some(
                    "new certificate "@ + debug_text(session.id)
                        + " could not be published to the TLS store"@,
                ),
                _ => None,
            };
            &&& error is Some ==> step.session.failure == error
            &&& error is None ==> step.session.failure == session.failure
            &&& error is Some && !(event is OrderFailed) ==> step.action
                == IssueActionModel::RemoveTokens(session.published) && step.session.phase
                == IssuePhase::CleaningUp
            &&& event is OrderFailed ==> step.action == IssueActionModel::Finish(error)
                && step.session.phase == IssuePhase::Done
            &&& event is CleanedUp ==> step.action == IssueActionModel::Finish(session.failure)
            &&& step.session.id == session.id
            &&& !(event is Finalized) ==> step.session.private_key == session.private_key
            &&& event matches IssueEventModel::Finalized(key) ==> step.session.private_key == key
            &&& step.session.server_running == (session.server_running || event is ServerStarted)
            &&& !(event is Published) ==> step.session.published == session.published
        }),
{
}

/// An issued certificate is saved, as it was issued and with the key of its order, exactly where it
/// can go into service and has the wanted names; otherwise the order fails.
pub proof fn law_issued_certificates_are_checked(
    session: IssueModel,
    desired: CertificateModel,
    certificate: Seq<char>,
    candidate: Result<MetadataModel, Seq<char>>,
)
    ensures
        ({
            let step = session.certificate_step(desired, certificate, candidate);
            let good = candidate is Ok && same_domains(candidate->Ok_0.dns_names, desired.domains);
            &&& good <==> step.action == (IssueActionModel::Save {
                certificate,
                private_key: session.private_key,
            })
            &&& good ==> step.session == (IssueModel { phase: IssuePhase::Saving, ..session })
            &&& !good ==> step.session.failure is Some && step.session.phase
                == IssuePhase::CleaningUp && step.action == IssueActionModel::RemoveTokens(
                session.published,
            )
        }),
{
}

/// Which events an order takes in which phase.
pub proof fn law_orders_take_events_in_order(session: IssueModel, event: IssueEventModel)
    ensures
        session.accepts(event) <==> match event {
            IssueEventModel::OrderCreated | IssueEventModel::OrderFailed => session.phase
                == IssuePhase::PlacingOrder,
            IssueEventModel::AuthorizationLoaded(_, _)
            | IssueEventModel::AuthorizationFailed
            | IssueEventModel::NoMoreAuthorizations => session.phase == IssuePhase::Authorizing,
            IssueEventModel::ServerStarted | IssueEventModel::ServerFailed(_) => session.phase
                == IssuePhase::StartingServer && session.challenge is Some,
            IssueEventModel::Published => session.phase == IssuePhase::Publishing
                && session.challenge is Some,
            IssueEventModel::MarkedReady | IssueEventModel::MarkReadyFailed => session.phase
                == IssuePhase::MarkingReady,
            IssueEventModel::OrderReady
            | IssueEventModel::OrderUnexpected(_)
            | IssueEventModel::ReadyFailed => session.phase == IssuePhase::AwaitingReady,
            IssueEventModel::Finalized(_) | IssueEventModel::FinalizeFailed => session.phase
                == IssuePhase::Finalizing,
            IssueEventModel::CertificateFailed => session.phase == IssuePhase::AwaitingCertificate,
            IssueEventModel::Saved | IssueEventModel::SaveFailed(_) => session.phase
                == IssuePhase::Saving,
            IssueEventModel::Activated | IssueEventModel::ActivateFailed => session.phase
                == IssuePhase::Activating,
            IssueEventModel::CleanedUp => session.phase == IssuePhase::CleaningUp,
        },
{
}

} // verus!
