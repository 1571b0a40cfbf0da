//! Maintenance cycles: which certificates are ordered, and what a cycle comes to.

use instant_acme::AccountCredentials;

use vstd::prelude::*;
use vstd::utf8::encode_utf8;

use crate::config::acme::{AcmeConfig, AcmeEnvironment};
use crate::paths::{join, join_path};
use crate::text::{append, join2, join3, opt_text, texts};

verus! {

/// Where the directory of the certificate authority is.
pub open spec fn directory_text(environment: AcmeEnvironment) -> Seq<char> {
    match environment {
        AcmeEnvironment::Production => "https://acme-v02.api.letsencrypt.org/directory"@,
        AcmeEnvironment::Staging => "https://acme-staging-v02.api.letsencrypt.org/directory"@,
    }
}

/// `instant_acme::LetsEncrypt::url`: where the directory of an environment is.
#[verifier::external_body]
fn lets_encrypt_url(environment: AcmeEnvironment) -> (r: &'static str)
    ensures
        r@ == directory_text(environment),
{
    match environment {
        AcmeEnvironment::Production => instant_acme::LetsEncrypt::Production.url(),
        AcmeEnvironment::Staging => instant_acme::LetsEncrypt::Staging.url(),
    }
}

pub fn directory_url(config: &AcmeConfig) -> (r: &'static str)
    ensures
        r@ == directory_text(config@.environment),
{
    lets_encrypt_url(config.environment())
}

/// The name of the file that holds the account of an environment.
pub open spec fn account_name(environment: AcmeEnvironment) -> Seq<char> {
    match environment {
        AcmeEnvironment::Production => "letsencrypt-"@ + "production"@ + "-account.json"@,
        AcmeEnvironment::Staging => "letsencrypt-"@ + "staging"@ + "-account.json"@,
    }
}

pub fn account_file_name(config: &AcmeConfig) -> (r: String)
    ensures
        r@ == account_name(config@.environment),
{
    let environment = match config.environment() {
        AcmeEnvironment::Production => "production",
        AcmeEnvironment::Staging => "staging",
    };
    join3("letsencrypt-", environment, "-account.json")
}

pub fn account_path(config: &AcmeConfig) -> (r: String)
    ensures
        r@ == join(config@.state_dir, account_name(config@.environment)),
{
    join_path(config.state_dir(), &account_file_name(config))
}

/// How the certificate authority can reach the operator.
pub fn account_contact(config: &AcmeConfig) -> (r: Option<String>)
    ensures
        opt_text(r) == (match config@.email {
            Some(email) => Some("mailto:"@ + email),
            None => None,
        }),
{
    match config.email() {
        Some(email) => Some(join2("mailto:", email)),
        None => None,
    }
}

#[verifier::external_type_specification]
#[verifier::external_body]
pub struct ExAccountCredentials(AccountCredentials);

/// The URLs of a directory, as files of older versions keep them, and the profiles that it offers.
pub struct DirectoryModel {
    pub new_nonce: Seq<char>,
    pub new_account: Seq<char>,
    pub new_order: Seq<char>,
    pub new_authz: Option<Seq<char>>,
    pub revoke_cert: Option<Seq<char>>,
    pub key_change: Option<Seq<char>>,
    pub renewal_info: Option<Seq<char>>,
    pub profiles: Map<Seq<char>, Seq<char>>,
}

/// An account at the certificate authority: its id, its private key in PKCS #8, and the directory
/// that it belongs to.
pub struct AccountModel {
    pub id: Seq<char>,
    pub key: Seq<u8>,
    pub directory: Option<Seq<char>>,
    pub urls: Option<DirectoryModel>,
}

/// The account that credentials are for.
pub uninterp spec fn credentials_of(credentials: AccountCredentials) -> AccountModel;

/// The account that a saved file holds, if it holds one.
pub uninterp spec fn account_of(saved: Seq<u8>) -> Option<AccountModel>;

pub open spec fn opt_account(credentials: Option<AccountCredentials>) -> Option<AccountModel> {
    match credentials {
        Some(credentials) => Some(credentials_of(credentials)),
        None => None,
    }
}

/// `serde_json::from_slice` for `instant_acme::AccountCredentials`, without the error. Whether a
/// file holds an account, and which, depends on its bytes alone, and `account_of` names it.
#[verifier::external_body]
fn parse_account(saved: &[u8]) -> (r: Option<AccountCredentials>)
    ensures
        opt_account(r) == account_of(saved@),
{
    serde_json::from_slice(saved).ok()
}

/// `serde_json::to_string_pretty` for `instant_acme::AccountCredentials`. Nothing in them keeps
/// them from being written: they hold texts, and maps whose keys are texts. From what is written
/// the same account is read again. The text itself is not told.
#[verifier::external_body]
fn write_account(credentials: &AccountCredentials) -> (r: Option<String>)
    ensures
        r is Some,
        account_of(encode_utf8(r->0@)) == Some(credentials_of(*credentials)),
{
    serde_json::to_string_pretty(credentials).ok()
}

/// What came of reading the file that holds the account.
pub enum AccountRead {
    Contents(Vec<u8>),
    Missing,
    Failed,
}

pub enum AccountReadModel {
    Contents(Seq<u8>),
    Missing,
    Failed,
}

impl View for AccountRead {
    type V = AccountReadModel;

    open spec fn view(&self) -> AccountReadModel {
        match self {
            AccountRead::Contents(saved) => AccountReadModel::Contents(saved@),
            AccountRead::Missing => AccountReadModel::Missing,
            AccountRead::Failed => AccountReadModel::Failed,
        }
    }
}

/// The steps that lead to the account after its file has been read.
#[derive(Clone, Copy, Debug, PartialEq, Eq, Structural)]
pub enum AccountStep {
    Connect,
    Parse,
    Restore,
    Create,
    Serialize,
}

/// What is said of a step that failed.
pub open spec fn account_error_text(step: AccountStep, path: Seq<char>) -> Seq<char> {
    match step {
        AccountStep::Connect => "failed to create ACME HTTP client"@,
        AccountStep::Parse => "failed to parse ACME account state "@ + path,
        AccountStep::Restore => "failed to restore ACME account"@,
        AccountStep::Create => "failed to create Let's Encrypt ACME account"@,
        AccountStep::Serialize => "failed to serialize ACME account state"@,
    }
}

pub fn account_error(config: &AcmeConfig, step: AccountStep) -> (r: String)
    ensures
        r@ == account_error_text(
            step,
            join(config@.state_dir, account_name(config@.environment)),
        ),
{
    match step {
        AccountStep::Connect => "failed to create ACME HTTP client".to_owned(),
        AccountStep::Parse => join2("failed to parse ACME account state ", &account_path(config)),
        AccountStep::Restore => "failed to restore ACME account".to_owned(),
        AccountStep::Create => "failed to create Let's Encrypt ACME account".to_owned(),
        AccountStep::Serialize => "failed to serialize ACME account state".to_owned(),
    }
}

/// What the file of the account comes to, given the account that it holds.
pub open spec fn parsed_account(path: Seq<char>, found: Option<AccountModel>) -> Result<
    AccountModel,
    Seq<char>,
> {
    match found {
        Some(account) => Ok(account),
        None => Err(account_error_text(AccountStep::Parse, path)),
    }
}

/// What reading the file of the account comes to: only a missing file means that there is no
/// account yet.
pub open spec fn loaded_account(path: Seq<char>, read: AccountReadModel) -> Result<
    Option<AccountModel>,
    Seq<char>,
> {
    match read {
        AccountReadModel::Contents(saved) => match parsed_account(path, account_of(saved)) {
            Ok(account) => Ok(Some(account)),
            Err(e) => Err(e),
        },
        AccountReadModel::Missing => Ok(None),
        AccountReadModel::Failed => Err("failed to read ACME account state "@ + path),
    }
}

/// Takes the credentials that the account's file was found to hold, if any.
pub fn check_account(config: &AcmeConfig, found: Option<AccountCredentials>) -> (r: Result<
    AccountCredentials,
    String,
>)
    ensures
        ({
            let path = join(config@.state_dir, account_name(config@.environment));
            match r {
                Ok(credentials) => found == Some(credentials),
                Err(e) => found is None && e@ == account_error_text(AccountStep::Parse, path),
            }
        }),
{
    match found {
        Some(credentials) => Ok(credentials),
        None => Err(account_error(config, AccountStep::Parse)),
    }
}

/// The credentials that are saved, if there are any.
pub fn load_account(config: &AcmeConfig, read: AccountRead) -> (r: Result<
    Option<AccountCredentials>,
    String,
>)
    ensures
        ({
            let path = join(config@.state_dir, account_name(config@.environment));
            match r {
                Ok(found) => loaded_account(path, read@) == Ok::<Option<AccountModel>, Seq<char>>(
                    opt_account(found),
                ),
                Err(e) => loaded_account(path, read@) == Err::<Option<AccountModel>, Seq<char>>(e@),
            }
        }),
{
    match read {
        AccountRead::Contents(saved) => match check_account(config, parse_account(&saved)) {
            Ok(credentials) => Ok(Some(credentials)),
            Err(e) => Err(e),
        },
        AccountRead::Missing => Ok(None),
        AccountRead::Failed => Err(
            join2("failed to read ACME account state ", &account_path(config)),
        ),
    }
}

/// What is written to the file of the account.
pub fn account_contents(config: &AcmeConfig, credentials: &AccountCredentials) -> (r: Result<
    String,
    String,
>)
    ensures
        r matches Ok(text) && account_of(encode_utf8(text@)) == Some(credentials_of(*credentials)),
{
    match write_account(credentials) {
        Some(text) => Ok(text),
        None => Err(account_error(config, AccountStep::Serialize)),
    }
}

/// An account is loaded from what was written for it.
pub proof fn law_saved_account_is_loaded(path: Seq<char>, text: Seq<char>, account: AccountModel)
    requires
        account_of(encode_utf8(text)) == Some(account),
    ensures
        loaded_account(path, AccountReadModel::Contents(encode_utf8(text))) == Ok::<
            Option<AccountModel>,
            Seq<char>,
        >(Some(account)),
{
}

/// Where the account comes from.
pub enum AccountPlan {
    /// It is restored from what was saved.
    Restore(AccountCredentials),
    /// There is none yet: it is created, and saved.
    Create {
        contact: Option<String>,
        directory: &'static str,
        terms_of_service_agreed: bool,
        only_return_existing: bool,
    },
}

pub enum AccountPlanModel {
    Restore(AccountModel),
    Create {
        contact: Option<Seq<char>>,
        directory: Seq<char>,
        terms_of_service_agreed: bool,
        only_return_existing: bool,
    },
}

impl View for AccountPlan {
    type V = AccountPlanModel;

    open spec fn view(&self) -> AccountPlanModel {
        match self {
            AccountPlan::Restore(credentials) => AccountPlanModel::Restore(
                credentials_of(*credentials),
            ),
            AccountPlan::Create {
                contact,
                directory,
                terms_of_service_agreed,
                only_return_existing,
            } => AccountPlanModel::Create {
                contact: opt_text(*contact),
                directory: directory@,
                terms_of_service_agreed: *terms_of_service_agreed,
                only_return_existing: *only_return_existing,
            },
        }
    }
}

/// How to come by the account, given the one that is saved.
pub fn account_plan(config: &AcmeConfig, saved: Option<AccountCredentials>) -> (r: AccountPlan)
    ensures
        r@ == (match opt_account(saved) {
            Some(account) => AccountPlanModel::Restore(account),
            None => AccountPlanModel::Create {
                contact: match config@.email {
                    Some(email) => Some("mailto:"@ + email),
                    None => None,
                },
                directory: directory_text(config@.environment),
                terms_of_service_agreed: true,
                only_return_existing: false,
            },
        }),
{
    match saved {
        Some(credentials) => AccountPlan::Restore(credentials),
        None => AccountPlan::Create {
            contact: account_contact(config),
            directory: directory_url(config),
            terms_of_service_agreed: true,
            only_return_existing: false,
        },
    }
}

/// Whether certificates are ordered before the gateway serves anyone: there is none yet, and ACME
/// can provide some.
pub fn needs_bootstrap(config: &AcmeConfig, store_is_empty: bool) -> (r: bool)
    ensures
        r == (config@.enabled && store_is_empty),
{
    config.enabled() && store_is_empty
}

/// What the first cycle comes to: the gateway starts if there is a certificate then, and with a
/// warning where the cycle had an error.
pub open spec fn bootstrap_result(store_is_empty: bool, error: Option<Seq<char>>) -> Result<
    Option<Seq<char>>,
    Seq<char>,
> {
    if store_is_empty {
        match error {
            Some(e) => Err(e),
            None => Err(
                "ACME bootstrap completed without producing a usable TLS certificate"@,
            ),
        }
    } else {
        Ok(error)
    }
}

pub fn bootstrap_outcome(store_is_empty: bool, error: Option<String>) -> (r: Result<
    Option<String>,
    String,
>)
    ensures
        match r {
            Ok(warning) => bootstrap_result(store_is_empty, opt_text(error)) == Ok::<
                Option<Seq<char>>,
                Seq<char>,
            >(opt_text(warning)),
            Err(e) => bootstrap_result(store_is_empty, opt_text(error)) == Err::<
                Option<Seq<char>>,
                Seq<char>,
            >(e@),
        },
{
    if store_is_empty {
        match error {
            Some(e) => Err(e),
            None => Err(
                "ACME bootstrap completed without producing a usable TLS certificate".to_owned(),
            ),
        }
    } else {
        Ok(error)
    }
}

/// How far a cycle has come.
#[derive(Clone, Copy, Debug, PartialEq, Eq, Structural)]
pub enum CyclePhase {
    EnsuringAccount,
    /// Each certificate is looked at.
    Checking,
    /// Each certificate that is due is ordered.
    Issuing,
    Done,
}

/// What is to be done in a cycle. Certificates go by their number in the configuration.
pub enum CycleAction {
    EnsureAccount,
    Check(usize),
    Issue(usize),
    /// The cycle is over: the error, or none.
    Finish(Option<String>),
}

pub enum CycleActionModel {
    EnsureAccount,
    Check(int),
    Issue(int),
    Finish(Option<Seq<char>>),
}

impl View for CycleAction {
    type V = CycleActionModel;

    open spec fn view(&self) -> CycleActionModel {
        match self {
            CycleAction::EnsureAccount => CycleActionModel::EnsureAccount,
            CycleAction::Check(i) => CycleActionModel::Check(*i as int),
            CycleAction::Issue(i) => CycleActionModel::Issue(*i as int),
            CycleAction::Finish(e) => CycleActionModel::Finish(opt_text(*e)),
        }
    }
}

/// A maintenance cycle.
pub struct Cycle {
    count: usize,
    phase: CyclePhase,
    checked: usize,
    due: Vec<usize>,
    issued: usize,
    failures: Vec<String>,
}

pub struct CycleModel {
    /// How many certificates are managed.
    pub count: int,
    pub phase: CyclePhase,
    /// How many of them have been looked at.
    pub checked: int,
    /// Those that are due.
    pub due: Seq<int>,
    /// How many of those have been ordered, with or without success.
    pub issued: int,
    pub failures: Seq<Seq<char>>,
}

pub open spec fn indices(v: Seq<usize>) -> Seq<int> {
    v.map_values(|i: usize| i as int)
}

impl View for Cycle {
    type V = CycleModel;

    closed spec fn view(&self) -> CycleModel {
        CycleModel {
            count: self.count as int,
            phase: self.phase,
            checked: self.checked as int,
            due: indices(self.due@),
            issued: self.issued as int,
            failures: texts(self.failures@),
        }
    }
}

/// The texts of a list with `; ` between them.
pub open spec fn joined_failures(failures: Seq<Seq<char>>) -> Seq<char>
    decreases failures.len(),
{
    if failures.len() == 0 {
        Seq::empty()
    } else if failures.len() == 1 {
        failures[0]
    } else {
        joined_failures(failures.drop_last()) + "; "@ + failures.last()
    }
}

/// What a cycle with these failures comes to.
pub open spec fn cycle_error(failures: Seq<Seq<char>>) -> Option<Seq<char>> {
    if failures.len() == 0 {
        None
    } else {
        Some(
            "one or more ACME certificate operations failed: "@ + joined_failures(failures),
        )
    }
}

fn join_failures(failures: &Vec<String>) -> (r: String)
    ensures
        r@ == joined_failures(texts(failures@)),
{
    let ghost all = texts(failures@);
    let mut s = String::new();
    let mut i: usize = 0;
    assert(s@ =~= joined_failures(all.take(0)));
    while i < failures.len()
        invariant
            i <= failures@.len(),
            all == texts(failures@),
            s@ == joined_failures(all.take(i as int)),
        decreases failures@.len() - i,
    {
        proof {
            assert(all.take(i + 1).drop_last() =~= all.take(i as int));
            assert(all.take(i + 1).last() == failures@[i as int]@);
        }
        let ghost before = s@;
        if i > 0 {
            append(&mut s, "; ");
        }
        append(&mut s, &failures[i]);
        proof {
            if i == 0 {
                assert(before =~= Seq::<char>::empty());
                assert(s@ =~= failures@[0]@);
                assert(all.take(1)[0] == failures@[0]@);
            }
            assert(s@ =~= joined_failures(all.take(i + 1)));
        }
        i += 1;
    }
    assert(all.take(i as int) =~= all);
    s
}

fn cycle_outcome(failures: &Vec<String>) -> (r: Option<String>)
    ensures
        opt_text(r) == cycle_error(texts(failures@)),
{
    assert(texts(failures@).len() == failures@.len());
    if failures.len() == 0 {
        return None;
    }
    Some(
        join2("one or more ACME certificate operations failed: ", &join_failures(failures)),
    )
}

impl CycleModel {
    /// The numbers in a cycle fit together.
    pub open spec fn well_formed(self) -> bool {
        &&& 0 <= self.checked <= self.count
        &&& 0 <= self.issued <= self.due.len()
        &&& self.phase == CyclePhase::EnsuringAccount ==> self.checked == 0 && self.issued == 0
        &&& self.phase == CyclePhase::Checking ==> self.checked < self.count && self.issued == 0
        &&& self.phase == CyclePhase::Issuing ==> self.checked == self.count && self.issued
            < self.due.len()
    }

    /// After the account is at hand, or is not.
    pub open spec fn after_account(self, error: Option<Seq<char>>) -> (
        CycleModel,
        CycleActionModel,
    ) {
        match error {
            Some(e) => (
                CycleModel { phase: CyclePhase::Done, ..self },
                CycleActionModel::Finish(Some(e)),
            ),
            None => if self.count == 0 {
                (
                    CycleModel { phase: CyclePhase::Done, ..self },
                    CycleActionModel::Finish(None),
                )
            } else {
                (
                    CycleModel { phase: CyclePhase::Checking, ..self },
                    CycleActionModel::Check(0),
                )
            },
        }
    }

    /// After one more certificate has been looked at.
    pub open spec fn after_check(self, is_due: bool) -> (CycleModel, CycleActionModel) {
        let due = if is_due {
            self.due.push(self.checked)
        } else {
            self.due
        };
        let checked = self.checked + 1;
        if checked < self.count {
            (CycleModel { checked, due, ..self }, CycleActionModel::Check(checked))
        } else if due.len() == 0 {
            (
                CycleModel { checked, due, phase: CyclePhase::Done, ..self },
                CycleActionModel::Finish(None),
            )
        } else {
            (
                CycleModel { checked, due, phase: CyclePhase::Issuing, ..self },
                CycleActionModel::Issue(due[0]),
            )
        }
    }

    /// After one more certificate has been ordered. A failure does not keep the others from being
    /// ordered.
    pub open spec fn after_issue(self, id: Seq<char>, error: Option<Seq<char>>) -> (
        CycleModel,
        CycleActionModel,
    ) {
        let failures = match error {
            Some(e) => self.failures.push(id + ": "@ + e),
            None => self.failures,
        };
        let issued = self.issued + 1;
        if issued < self.due.len() {
            (
                CycleModel { issued, failures, ..self },
                CycleActionModel::Issue(self.due[issued]),
            )
        } else {
            (
                CycleModel { issued, failures, phase: CyclePhase::Done, ..self },
                CycleActionModel::Finish(cycle_error(failures)),
            )
        }
    }
}

impl Cycle {
    /// A cycle over the certificates of a configuration; over none where ACME is disabled.
    pub fn begin(config: &AcmeConfig) -> (r: (Cycle, CycleAction))
        ensures
            r.0@.well_formed(),
            ({
                let phase = if config@.enabled {
                    CyclePhase::EnsuringAccount
                } else {
                    CyclePhase::Done
                };
                r.0@ == (CycleModel {
                    count: config@.certificates.len() as int,
                    phase,
                    checked: 0,
                    due: Seq::empty(),
                    issued: 0,
                    failures: Seq::empty(),
                })
            }),
            r.1@ == (if config@.enabled {
                CycleActionModel::EnsureAccount
            } else {
                CycleActionModel::Finish(None)
            }),
    {
        let due: Vec<usize> = Vec::new();
        let failures: Vec<String> = Vec::new();
        proof {
            assert(indices(due@) =~= Seq::<int>::empty());
            assert(texts(failures@) =~= Seq::<Seq<char>>::empty());
        }
        let certificates = config.certificates();
        assert(config@.certificates.len() == certificates@.len());
        let count: usize = certificates.len();
        let (phase, action) = if config.enabled() {
            (CyclePhase::EnsuringAccount, CycleAction::EnsureAccount)
        } else {
            (CyclePhase::Done, CycleAction::Finish(None))
        };
        (Cycle { count, phase, checked: 0, due, issued: 0, failures }, action)
    }

    pub fn phase(&self) -> (r: CyclePhase)
        ensures
            r == self@.phase,
    {
        self.phase
    }

    /// How many certificates are due.
    pub fn due_count(&self) -> (r: usize)
        ensures
            r == self@.due.len(),
    {
        self.due.len()
    }

    /// Takes whether the account is at hand: an error, or none.
    pub fn on_account(&mut self, error: Option<String>) -> (r: CycleAction)
        requires
            old(self)@.well_formed(),
            old(self)@.phase == CyclePhase::EnsuringAccount,
        ensures
            final(self)@.well_formed(),
            (final(self)@, r@) == old(self)@.after_account(opt_text(error)),
    {
        match error {
            Some(e) => {
                self.phase = CyclePhase::Done;
                CycleAction::Finish(Some(e))
            },
            None => {
                if self.count == 0 {
                    self.phase = CyclePhase::Done;
                    CycleAction::Finish(None)
                } else {
                    self.phase = CyclePhase::Checking;
                    CycleAction::Check(0)
                }
            },
        }
    }

    /// Takes whether the certificate at hand is due.
    pub fn on_checked(&mut self, is_due: bool) -> (r: CycleAction)
        requires
            old(self)@.well_formed(),
            old(self)@.phase == CyclePhase::Checking,
        ensures
            final(self)@.well_formed(),
            (final(self)@, r@) == old(self)@.after_check(is_due),
    {
        let ghost before = self.due@;
        let at: usize = self.checked;
        if is_due {
            self.due.push(at);
            assert(indices(self.due@) =~= indices(before).push(at as int));
        }
        assert(indices(self.due@).len() == self.due@.len());
        let checked: usize = at + 1;
        if checked < self.count {
            self.checked = checked;
            return CycleAction::Check(checked);
        }
        if self.due.len() == 0 {
            self.phase = CyclePhase::Done;
            self.checked = checked;
            CycleAction::Finish(None)
        } else {
            self.phase = CyclePhase::Issuing;
            self.checked = checked;
            assert(indices(self.due@)[0] == self.due@[0] as int);
            CycleAction::Issue(self.due[0])
        }
    }

    /// Takes what the order of the certificate `id` came to: an error, or none.
    pub fn on_issued(&mut self, id: &str, error: Option<String>) -> (r: CycleAction)
        requires
            old(self)@.well_formed(),
            old(self)@.phase == CyclePhase::Issuing,
        ensures
            final(self)@.well_formed(),
            (final(self)@, r@) == old(self)@.after_issue(id@, opt_text(error)),
    {
        assert(indices(self.due@).len() == self.due@.len());
        let count: usize = self.due.len();
        match error {
            Some(e) => {
                let ghost before = self.failures@;
                let line = join3(id, ": ", &e);
                let ghost added = line@;
                self.failures.push(line);
                assert(texts(self.failures@) =~= texts(before).push(added));
            },
            None => {},
        }
        let issued: usize = self.issued + 1;
        if issued < count {
            self.issued = issued;
            assert(indices(self.due@)[issued as int] == self.due@[issued as int] as int);
            return CycleAction::Issue(self.due[issued]);
        }
        self.phase = CyclePhase::Done;
        self.issued = issued;
        CycleAction::Finish(cycle_outcome(&self.failures))
    }
}

/// A cycle fails exactly if one of its orders failed, and it goes through all certificates that
/// are due whatever happens to one of them.
pub proof fn law_one_failure_stops_nothing(
    cycle: CycleModel,
    id: Seq<char>,
    error: Option<Seq<char>>,
)
    requires
        cycle.well_formed(),
        cycle.phase == CyclePhase::Issuing,
    ensures
        ({
            let (after, action) = cycle.after_issue(id, error);
            &&& cycle.issued + 1 < cycle.due.len() ==> action == CycleActionModel::Issue(
                cycle.due[cycle.issued + 1],
            )
            &&& cycle.issued + 1 == cycle.due.len() ==> action is Finish
            &&& action matches CycleActionModel::Finish(e) ==> (e is None <==> cycle.failures.len()
                == 0 && error is None)
        }),
{
}

/// Every managed certificate is looked at, in its turn, before any is ordered.
pub proof fn law_all_are_checked_first(cycle: CycleModel, is_due: bool)
    requires
        cycle.well_formed(),
        cycle.phase == CyclePhase::Checking,
    ensures
        ({
            let (after, action) = cycle.after_check(is_due);
            &&& after.checked == cycle.checked + 1
            &&& action is Issue ==> after.checked == cycle.count
            &&& action is Check ==> action == CycleActionModel::Check(after.checked)
            &&& is_due ==> after.due == cycle.due.push(cycle.checked)
            &&& !is_due ==> after.due == cycle.due
        }),
{
}

/// A cycle goes on where the account is at hand and there is a certificate to look at, with the
/// first; otherwise it ends, with the error of the account where there is one.
pub proof fn law_cycles_begin_with_the_account(cycle: CycleModel, error: Option<Seq<char>>)
    requires
        cycle.well_formed(),
        cycle.phase == CyclePhase::EnsuringAccount,
    ensures
        ({
            let (after, action) = cycle.after_account(error);
            &&& error is Some || cycle.count == 0 ==> action == CycleActionModel::Finish(error)
                && after.phase == CyclePhase::Done
            &&& error is None && cycle.count > 0 ==> action == CycleActionModel::Check(0)
                && after.phase == CyclePhase::Checking
            &&& after.count == cycle.count && after.due == cycle.due && after.failures
                == cycle.failures
        }),
{
}

/// When all certificates have been looked at the first that is due is ordered, and where none is
/// due the cycle ends without an error. What is due are certificates that were looked at, each once
/// and in their order.
pub proof fn law_due_certificates_are_ordered_in_turn(cycle: CycleModel, is_due: bool)
    requires
        cycle.well_formed(),
        cycle.phase == CyclePhase::Checking,
        forall|i: int| 0 <= i < cycle.due.len() ==> 0 <= #[trigger] cycle.due[i] < cycle.checked,
        forall|i: int, j: int| 0 <= i < j < cycle.due.len() ==> cycle.due[i] < cycle.due[j],
    ensures
        ({
            let (after, action) = cycle.after_check(is_due);
            &&& forall|i: int|
                0 <= i < after.due.len() ==> 0 <= #[trigger] after.due[i] < after.checked
            &&& forall|i: int, j: int| 0 <= i < j < after.due.len() ==> after.due[i] < after.due[j]
            &&& after.due.contains(cycle.checked) <==> is_due
            &&& cycle.checked + 1 < cycle.count ==> action == CycleActionModel::Check(
                cycle.checked + 1,
            ) && after.phase == CyclePhase::Checking
            &&& cycle.checked + 1 == cycle.count && after.due.len() > 0 ==> action
                == CycleActionModel::Issue(after.due[0]) && after.phase == CyclePhase::Issuing
                && after.issued == 0
            &&& cycle.checked + 1 == cycle.count && after.due.len() == 0 ==> action
                == CycleActionModel::Finish(None) && after.phase == CyclePhase::Done
            &&& after.failures == cycle.failures
        }),
{
    let (after, action) = cycle.after_check(is_due);
    if is_due {
        assert(after.due[cycle.due.len() as int] == cycle.checked);
    } else if after.due.contains(cycle.checked) {
        let k = after.due.index_of(cycle.checked);
        assert(cycle.due[k] == cycle.checked);
    }
}

/// A failed order is told by the certificate's id and its own error, behind those before it; an
/// order that succeeded adds nothing. At the end all failures are told together.
pub proof fn law_failures_are_told_by_id(cycle: CycleModel, id: Seq<char>, error: Option<Seq<char>>)
    requires
        cycle.well_formed(),
        cycle.phase == CyclePhase::Issuing,
    ensures
        ({
            let (after, action) = cycle.after_issue(id, error);
            &&& error matches Some(e) ==> after.failures.len() == cycle.failures.len() + 1
                && after.failures.last() == id + ": "@ + e && cycle.failures.is_prefix_of(
                after.failures,
            )
            &&& error is None ==> after.failures == cycle.failures
            &&& after.issued == cycle.issued + 1 && after.due == cycle.due
            &&& after.phase == CyclePhase::Done <==> after.issued == after.due.len()
            &&& action matches CycleActionModel::Finish(Some(told)) ==> told
                == "one or more ACME certificate operations failed: "@ + joined_failures(
                after.failures,
            )
        }),
{
    let (after, action) = cycle.after_issue(id, error);
    if error is Some {
        assert(after.failures.subrange(0, cycle.failures.len() as int) =~= cycle.failures);
    }
}

/// Failures are joined in their order, each once, with a semicolon between them.
pub proof fn law_failures_are_joined(failures: Seq<Seq<char>>, more: Seq<char>)
    ensures
        joined_failures(seq![more]) == more,
        failures.len() > 0 ==> joined_failures(failures.push(more)) == joined_failures(failures)
            + "; "@ + more,
        cycle_error(failures) is None <==> failures.len() == 0,
{
    assert(failures.push(more).drop_last() =~= failures);
}

/// Only a missing file means that there is no account yet: one that cannot be read, or holds none,
/// is an error, and one that holds an account gives exactly that account.
pub proof fn law_only_a_missing_file_means_no_account(path: Seq<char>, read: AccountReadModel)
    ensures
        ({
            let r = loaded_account(path, read);
            &&& r == Ok::<Option<AccountModel>, Seq<char>>(None) <==> read is Missing
            &&& read is Failed ==> r is Err
            &&& read matches AccountReadModel::Contents(saved) ==> (r is Ok <==> account_of(
                saved,
            ) is Some)
            &&& read matches AccountReadModel::Contents(saved) ==> (r matches Ok(found) ==> found
                == account_of(saved))
            &&& r matches Err(e) ==> e == (if read is Failed {
                "failed to read ACME account state "@
            } else {
                "failed to parse ACME account state "@
            }) + path
        }),
{
}

/// The gateway starts after its first cycle exactly where there is a certificate then; an error of
/// the cycle is a warning where it starts, and the reason where it does not.
pub proof fn law_a_gateway_starts_with_a_certificate(
    store_is_empty: bool,
    error: Option<Seq<char>>,
)
    ensures
        bootstrap_result(store_is_empty, error) is Ok <==> !store_is_empty,
        bootstrap_result(false, error) == Ok::<Option<Seq<char>>, Seq<char>>(error),
        error is Some ==> bootstrap_result(true, error) == Err::<Option<Seq<char>>, Seq<char>>(
            error->0,
        ),
{
}

/// The two environments keep their accounts in files of their own.
pub proof fn law_environments_keep_their_own_accounts()
    ensures
        account_name(AcmeEnvironment::Production) != account_name(AcmeEnvironment::Staging),
{
    reveal_strlit("letsencrypt-");
    reveal_strlit("production");
    reveal_strlit("staging");
    reveal_strlit("-account.json");
    let a = account_name(AcmeEnvironment::Production);
    let b = account_name(AcmeEnvironment::Staging);
    assert(a.len() == "letsencrypt-"@.len() + 10 + "-account.json"@.len());
    assert(b.len() == "letsencrypt-"@.len() + 7 + "-account.json"@.len());
}

/// Orders of the production environment go to the directory of the authority, those of staging to
/// its staging directory.
pub proof fn law_orders_go_to_the_directory_of_their_environment(environment: AcmeEnvironment)
    ensures
        environment is Production ==> directory_text(environment)
            == "https://acme-v02.api.letsencrypt.org/directory"@,
        environment is Staging ==> directory_text(environment)
            == "https://acme-staging-v02.api.letsencrypt.org/directory"@,
{
}

} // verus!
