//! How account state and certificates are written: aside first, and then in place.

use vstd::prelude::*;

use crate::config::tls::TlsConfig;
use crate::paths::{
    file_name, file_name_of, law_file_names_are_plain, law_renamed_file_stays_in_its_directory,
    parent, parent_path, path_with_file_name, with_file_name,
};
use crate::text::{append, append_decimal, decimal, join2, join3, opt_str, opt_text, texts};

verus! {

/// The name of the file that is written aside.
pub open spec fn temporary_file_name(name: Option<Seq<char>>, process: u32, nonce: u128) -> Seq<
    char,
> {
    "."@ + (match name {
        Some(name) => name,
        None => "acme-state"@,
    }) + ".tmp-"@ + decimal(process as nat) + "-"@ + decimal(nonce as nat)
}

pub fn temporary_name(name: Option<&str>, process: u32, nonce: u128) -> (r: String)
    ensures
        r@ == temporary_file_name(opt_str(name), process, nonce),
{
    let name = match name {
        Some(name) => name,
        None => "acme-state",
    };
    let mut s = join3(".", name, ".tmp-");
    append_decimal(&mut s, process as u128);
    append(&mut s, "-");
    append_decimal(&mut s, nonce);
    s
}

/// The path of the file that is written aside, next to the file at `path`.
pub open spec fn aside(path: Seq<char>, process: u32, nonce: u128) -> Seq<char> {
    with_file_name(path, temporary_file_name(file_name(path), process, nonce))
}

pub fn temporary_path(path: &str, process: u32, nonce: u128) -> (r: String)
    ensures
        r@ == aside(path@, process, nonce),
{
    let name = match file_name_of(path) {
        Some(name) => temporary_name(Some(name.as_str()), process, nonce),
        None => temporary_name(None, process, nonce),
    };
    path_with_file_name(path, &name)
}

proof fn lemma_decimal_is_no_slash(n: nat)
    ensures
        !decimal(n).contains('/'),
    decreases n,
{
    if n >= 10 {
        lemma_decimal_is_no_slash(n / 10);
        assert forall|i: int| 0 <= i < decimal(n).len() implies decimal(n)[i] != '/' by {
            if i < decimal(n / 10).len() {
                assert(decimal(n / 10).contains(decimal(n / 10)[i]));
            }
        }
    }
}

/// The file that is written aside stands in the directory of the file that it is to replace, and
/// not under its name.
pub proof fn law_aside_in_the_same_directory(path: Seq<char>, process: u32, nonce: u128)
    requires
        file_name(path) is Some,
    ensures
        parent(aside(path, process, nonce)) == parent(path),
        file_name(aside(path, process, nonce)) == Some(
            temporary_file_name(file_name(path), process, nonce),
        ),
        temporary_file_name(file_name(path), process, nonce) != file_name(path)->0,
{
    law_file_names_are_plain(path);
    let name = file_name(path)->0;
    let other = temporary_file_name(Some(name), process, nonce);
    let digits = decimal(process as nat);
    let more = decimal(nonce as nat);
    lemma_decimal_is_no_slash(process as nat);
    lemma_decimal_is_no_slash(nonce as nat);
    reveal_strlit(".");
    reveal_strlit(".tmp-");
    reveal_strlit("-");
    assert forall|i: int| 0 <= i < other.len() implies other[i] != '/' by {
        let start = 6 + name.len();
        if 1 <= i < 1 + name.len() {
            assert(name.contains(other[i]));
        } else if start <= i < start + digits.len() {
            assert(digits.contains(other[i]));
        } else if i > start + digits.len() {
            assert(more.contains(other[i]));
        }
    }
    law_renamed_file_stays_in_its_directory(path, other);
}

/// The permissions of a file: a private one is for its owner alone.
pub fn file_mode(private: bool) -> (r: u32)
    ensures
        r == (if private {
            0o600u32
        } else {
            0o644u32
        }),
{
    if private {
        0o600
    } else {
        0o644
    }
}

/// The steps in which a file is written.
#[derive(Clone, Copy, Debug, PartialEq, Eq, Structural)]
pub enum FileStep {
    Create,
    Write,
    Sync,
    SetPermissions,
}

/// What is said of a step that failed.
pub open spec fn file_error_text(step: FileStep, path: Seq<char>) -> Seq<char> {
    match step {
        FileStep::Create => "failed to create "@ + path,
        FileStep::Write => "failed to write "@ + path,
        FileStep::Sync => "failed to sync "@ + path,
        FileStep::SetPermissions => "failed to set permissions on "@ + path,
    }
}

pub fn file_error(step: FileStep, path: &str) -> (r: String)
    ensures
        r@ == file_error_text(step, path@),
{
    match step {
        FileStep::Create => join2("failed to create ", path),
        FileStep::Write => join2("failed to write ", path),
        FileStep::Sync => join2("failed to sync ", path),
        FileStep::SetPermissions => join2("failed to set permissions on ", path),
    }
}

/// What is said when a file could not be put in place.
pub fn replace_error(source: &str, destination: &str) -> (r: String)
    ensures
        r@ == "failed to replace "@ + destination@ + " with "@ + source@,
{
    let mut s = join3("failed to replace ", destination, " with ");
    append(&mut s, source);
    s
}

/// What is said when the directory of the certificates could not be created.
pub fn certificate_directory_error(directory: &str) -> (r: String)
    ensures
        r@ == "failed to create TLS certificate directory "@ + directory@,
{
    join2("failed to create TLS certificate directory ", directory)
}

/// What is said when the directory of a single file could not be created.
pub fn directory_error(directory: &str) -> (r: String)
    ensures
        r@ == "failed to create directory "@ + directory@,
{
    join2("failed to create directory ", directory)
}

/// What is to be done to save a file or a pair of files.
pub enum SaveAction {
    CreateDirectory(String),
    /// Write a file; a private one is for its owner alone.
    Write { path: String, contents: String, private: bool },
    /// Put one file in the place of another.
    Replace { source: String, destination: String },
    /// Remove these files, as far as that goes.
    Remove(Vec<String>),
    /// Everything is done: the error, or none.
    Finish(Option<String>),
}

pub enum SaveActionModel {
    CreateDirectory(Seq<char>),
    Write { path: Seq<char>, contents: Seq<char>, private: bool },
    Replace { source: Seq<char>, destination: Seq<char> },
    Remove(Seq<Seq<char>>),
    Finish(Option<Seq<char>>),
}

impl View for SaveAction {
    type V = SaveActionModel;

    open spec fn view(&self) -> SaveActionModel {
        match self {
            SaveAction::CreateDirectory(path) => SaveActionModel::CreateDirectory(path@),
            SaveAction::Write { path, contents, private } => SaveActionModel::Write {
                path: path@,
                contents: contents@,
                private: *private,
            },
            SaveAction::Replace { source, destination } => SaveActionModel::Replace {
                source: source@,
                destination: destination@,
            },
            SaveAction::Remove(paths) => SaveActionModel::Remove(texts(paths@)),
            SaveAction::Finish(e) => SaveActionModel::Finish(opt_text(*e)),
        }
    }
}

/// How far a certificate and its key have been saved.
#[derive(Clone, Copy, Debug, PartialEq, Eq, Structural)]
pub enum SavePhase {
    CreatingDirectory,
    WritingCertificate,
    WritingKey,
    ReplacingKey,
    ReplacingCertificate,
    Removing,
    Done,
}

/// A certificate and its key on their way to their files.
pub struct SavePair {
    directory: String,
    certificate_path: String,
    key_path: String,
    certificate_temporary: String,
    key_temporary: String,
    certificate: String,
    private_key: String,
    phase: SavePhase,
    failure: Option<String>,
}

pub struct SavePairModel {
    pub directory: Seq<char>,
    pub certificate_path: Seq<char>,
    pub key_path: Seq<char>,
    pub certificate_temporary: Seq<char>,
    pub key_temporary: Seq<char>,
    pub certificate: Seq<char>,
    pub private_key: Seq<char>,
    pub phase: SavePhase,
    pub failure: Option<Seq<char>>,
}

impl View for SavePair {
    type V = SavePairModel;

    closed spec fn view(&self) -> SavePairModel {
        SavePairModel {
            directory: self.directory@,
            certificate_path: self.certificate_path@,
            key_path: self.key_path@,
            certificate_temporary: self.certificate_temporary@,
            key_temporary: self.key_temporary@,
            certificate: self.certificate@,
            private_key: self.private_key@,
            phase: self.phase,
            failure: opt_text(self.failure),
        }
    }
}

impl SavePairModel {
    /// What follows a step that succeeded. The key is in place before the certificate.
    pub open spec fn succeeded(self) -> (SavePairModel, SaveActionModel) {
        match self.phase {
            SavePhase::CreatingDirectory => (
                SavePairModel { phase: SavePhase::WritingCertificate, ..self },
                SaveActionModel::Write {
                    path: self.certificate_temporary,
                    contents: self.certificate,
                    private: false,
                },
            ),
            SavePhase::WritingCertificate => (
                SavePairModel { phase: SavePhase::WritingKey, ..self },
                SaveActionModel::Write {
                    path: self.key_temporary,
                    contents: self.private_key,
                    private: true,
                },
            ),
            SavePhase::WritingKey => (
                SavePairModel { phase: SavePhase::ReplacingKey, ..self },
                SaveActionModel::Replace {
                    source: self.key_temporary,
                    destination: self.key_path,
                },
            ),
            SavePhase::ReplacingKey => (
                SavePairModel { phase: SavePhase::ReplacingCertificate, ..self },
                SaveActionModel::Replace {
                    source: self.certificate_temporary,
                    destination: self.certificate_path,
                },
            ),
            SavePhase::ReplacingCertificate | SavePhase::Removing | SavePhase::Done => (
                SavePairModel { phase: SavePhase::Done, ..self },
                SaveActionModel::Finish(self.failure),
            ),
        }
    }

    /// The files that a failed step leaves aside.
    pub open spec fn left_aside(self) -> Seq<Seq<char>> {
        match self.phase {
            SavePhase::WritingKey => seq![self.certificate_temporary],
            SavePhase::ReplacingKey => seq![self.certificate_temporary, self.key_temporary],
            SavePhase::ReplacingCertificate => seq![self.certificate_temporary],
            _ => Seq::empty(),
        }
    }

    /// What follows a step that failed: what was left aside is removed first.
    pub open spec fn failed(self, e: Seq<char>) -> (SavePairModel, SaveActionModel) {
        if self.phase == SavePhase::Removing {
            self.succeeded()
        } else if self.left_aside().len() == 0 {
            (
                SavePairModel { phase: SavePhase::Done, failure: Some(e), ..self },
                SaveActionModel::Finish(Some(e)),
            )
        } else {
            (
                SavePairModel { phase: SavePhase::Removing, failure: Some(e), ..self },
                SaveActionModel::Remove(self.left_aside()),
            )
        }
    }
}

impl SavePair {
    /// Starts to save the certificate `id` with its key. The process and the nonces tell the files
    /// that are written aside from any others.
    pub fn begin(
        tls: &TlsConfig,
        id: &str,
        certificate: String,
        private_key: String,
        process: u32,
        certificate_nonce: u128,
        key_nonce: u128,
    ) -> (r: (SavePair, SaveAction))
        ensures
            r.0@ == (SavePairModel {
                directory: tls@.cert_dir,
                certificate_path: tls@.cert_path(id@),
                key_path: tls@.key_path(id@),
                certificate_temporary: aside(tls@.cert_path(id@), process, certificate_nonce),
                key_temporary: aside(tls@.key_path(id@), process, key_nonce),
                certificate: certificate@,
                private_key: private_key@,
                phase: SavePhase::CreatingDirectory,
                failure: None,
            }),
            r.1@ == SaveActionModel::CreateDirectory(tls@.cert_dir),
    {
        let certificate_path = tls.cert_path(id);
        let key_path = tls.key_path(id);
        let certificate_temporary = temporary_path(&certificate_path, process, certificate_nonce);
        let key_temporary = temporary_path(&key_path, process, key_nonce);
        let save = SavePair {
            directory: tls.cert_dir().to_owned(),
            certificate_path,
            key_path,
            certificate_temporary,
            key_temporary,
            certificate,
            private_key,
            phase: SavePhase::CreatingDirectory,
            failure: None,
        };
        (save, SaveAction::CreateDirectory(tls.cert_dir().to_owned()))
    }

    /// Takes the success of the step at hand, and says what to do next.
    pub fn on_success(&mut self) -> (r: SaveAction)
        ensures
            (final(self)@, r@) == old(self)@.succeeded(),
    {
        match self.phase {
            SavePhase::CreatingDirectory => {
                self.phase = SavePhase::WritingCertificate;
                SaveAction::Write {
                    path: self.certificate_temporary.clone(),
                    contents: self.certificate.clone(),
                    private: false,
                }
            },
            SavePhase::WritingCertificate => {
                self.phase = SavePhase::WritingKey;
                SaveAction::Write {
                    path: self.key_temporary.clone(),
                    contents: self.private_key.clone(),
                    private: true,
                }
            },
            SavePhase::WritingKey => {
                self.phase = SavePhase::ReplacingKey;
                SaveAction::Replace {
                    source: self.key_temporary.clone(),
                    destination: self.key_path.clone(),
                }
            },
            SavePhase::ReplacingKey => {
                self.phase = SavePhase::ReplacingCertificate;
                SaveAction::Replace {
                    source: self.certificate_temporary.clone(),
                    destination: self.certificate_path.clone(),
                }
            },
            SavePhase::ReplacingCertificate | SavePhase::Removing | SavePhase::Done => {
                self.phase = SavePhase::Done;
                SaveAction::Finish(
                    match &self.failure {
                        Some(e) => Some(e.clone()),
                        None => None,
                    },
                )
            },
        }
    }

    /// Takes the failure of the step at hand, and says what to do next.
    pub fn on_failure(&mut self, e: String) -> (r: SaveAction)
        ensures
            (final(self)@, r@) == old(self)@.failed(e@),
    {
        if self.phase == SavePhase::Removing {
            return self.on_success();
        }
        let mut left: Vec<String> = Vec::new();
        match self.phase {
            SavePhase::WritingKey | SavePhase::ReplacingCertificate => {
                left.push(self.certificate_temporary.clone());
            },
            SavePhase::ReplacingKey => {
                left.push(self.certificate_temporary.clone());
                left.push(self.key_temporary.clone());
            },
            _ => {},
        }
        assert(texts(left@) =~= self@.left_aside());
        self.failure = Some(e.clone());
        if left.len() == 0 {
            self.phase = SavePhase::Done;
            SaveAction::Finish(Some(e))
        } else {
            self.phase = SavePhase::Removing;
            SaveAction::Remove(left)
        }
    }
}

/// Where every step succeeds, both files are written aside, the key for its owner alone, and put
/// in place, the key before the certificate.
pub proof fn law_key_is_in_place_first(save: SavePairModel)
    requires
        save.phase == SavePhase::CreatingDirectory,
        save.failure is None,
    ensures
        ({
            let (first, write_certificate) = save.succeeded();
            let (second, write_key) = first.succeeded();
            let (third, place_key) = second.succeeded();
            let (fourth, place_certificate) = third.succeeded();
            let (last, finish) = fourth.succeeded();
            &&& write_certificate == (SaveActionModel::Write {
                path: save.certificate_temporary,
                contents: save.certificate,
                private: false,
            })
            &&& write_key == (SaveActionModel::Write {
                path: save.key_temporary,
                contents: save.private_key,
                private: true,
            })
            &&& place_key == (SaveActionModel::Replace {
                source: save.key_temporary,
                destination: save.key_path,
            })
            &&& place_certificate == (SaveActionModel::Replace {
                source: save.certificate_temporary,
                destination: save.certificate_path,
            })
            &&& finish == SaveActionModel::Finish(None)
            &&& last.phase == SavePhase::Done
        }),
{
}

/// Whatever fails after the first file was written, every file that was completely written aside
/// and is still there is removed, and the failure is reported.
pub proof fn law_nothing_is_left_aside(save: SavePairModel, e: Seq<char>)
    requires
        save.failure is None,
        save.phase != SavePhase::Removing && save.phase != SavePhase::Done,
    ensures
        ({
            let (after, action) = save.failed(e);
            &&& after.failure == Some(e)
            &&& action is Remove || action == SaveActionModel::Finish(Some(e))
            &&& save.phase == SavePhase::WritingKey || save.phase == SavePhase::ReplacingKey
                || save.phase == SavePhase::ReplacingCertificate ==> action
                == SaveActionModel::Remove(save.left_aside()) && save.left_aside().contains(
                save.certificate_temporary,
            )
            &&& save.phase == SavePhase::ReplacingKey ==> save.left_aside().contains(
                save.key_temporary,
            )
            &&& action is Remove ==> after.succeeded().1 == SaveActionModel::Finish(Some(e))
        }),
{
    assert(seq![save.certificate_temporary][0] == save.certificate_temporary);
    assert(seq![save.certificate_temporary, save.key_temporary][0] == save.certificate_temporary);
    assert(seq![save.certificate_temporary, save.key_temporary][1] == save.key_temporary);
}

/// How far a single file has been saved.
#[derive(Clone, Copy, Debug, PartialEq, Eq, Structural)]
pub enum AtomicPhase {
    CreatingDirectory,
    Writing,
    Replacing,
    Removing,
    Done,
}

/// A file on its way to its place.
pub struct AtomicWrite {
    path: String,
    temporary: String,
    contents: String,
    private: bool,
    phase: AtomicPhase,
    failure: Option<String>,
}

pub struct AtomicWriteModel {
    pub path: Seq<char>,
    pub temporary: Seq<char>,
    pub contents: Seq<char>,
    pub private: bool,
    pub phase: AtomicPhase,
    pub failure: Option<Seq<char>>,
}

impl View for AtomicWrite {
    type V = AtomicWriteModel;

    closed spec fn view(&self) -> AtomicWriteModel {
        AtomicWriteModel {
            path: self.path@,
            temporary: self.temporary@,
            contents: self.contents@,
            private: self.private,
            phase: self.phase,
            failure: opt_text(self.failure),
        }
    }
}

impl AtomicWriteModel {
    /// What follows a step that succeeded.
    pub open spec fn succeeded(self) -> (AtomicWriteModel, SaveActionModel) {
        match self.phase {
            AtomicPhase::CreatingDirectory => (
                AtomicWriteModel { phase: AtomicPhase::Writing, ..self },
                SaveActionModel::Write {
                    path: self.temporary,
                    contents: self.contents,
                    private: self.private,
                },
            ),
            AtomicPhase::Writing => (
                AtomicWriteModel { phase: AtomicPhase::Replacing, ..self },
                SaveActionModel::Replace { source: self.temporary, destination: self.path },
            ),
            AtomicPhase::Replacing | AtomicPhase::Removing | AtomicPhase::Done => (
                AtomicWriteModel { phase: AtomicPhase::Done, ..self },
                SaveActionModel::Finish(self.failure),
            ),
        }
    }

    /// What follows a step that failed.
    pub open spec fn failed(self, e: Seq<char>) -> (AtomicWriteModel, SaveActionModel) {
        match self.phase {
            AtomicPhase::Removing => self.succeeded(),
            AtomicPhase::Replacing => (
                AtomicWriteModel { phase: AtomicPhase::Removing, failure: Some(e), ..self },
                SaveActionModel::Remove(seq![self.temporary]),
            ),
            _ => (
                AtomicWriteModel { phase: AtomicPhase::Done, failure: Some(e), ..self },
                SaveActionModel::Finish(Some(e)),
            ),
        }
    }
}

/// How the file at `path` begins to be written: its directory comes first, where it has one.
pub open spec fn atomic_write(
    path: Seq<char>,
    contents: Seq<char>,
    private: bool,
    process: u32,
    nonce: u128,
) -> (AtomicWriteModel, SaveActionModel) {
    let write = AtomicWriteModel {
        path,
        temporary: aside(path, process, nonce),
        contents,
        private,
        phase: AtomicPhase::CreatingDirectory,
        failure: None,
    };
    match parent(path) {
        Some(directory) => (write, SaveActionModel::CreateDirectory(directory)),
        None => write.succeeded(),
    }
}

impl AtomicWrite {
    /// Starts to write the file at `path`.
    pub fn begin(
        path: &str,
        contents: String,
        private: bool,
        process: u32,
        nonce: u128,
    ) -> (r: (AtomicWrite, SaveAction))
        ensures
            (r.0@, r.1@) == atomic_write(path@, contents@, private, process, nonce),
    {
        let write = AtomicWrite {
            path: path.to_owned(),
            temporary: temporary_path(path, process, nonce),
            contents,
            private,
            phase: AtomicPhase::CreatingDirectory,
            failure: None,
        };
        match parent_path(path) {
            Some(directory) => (write, SaveAction::CreateDirectory(directory)),
            None => {
                let mut write = write;
                let action = write.on_success();
                (write, action)
            },
        }
    }

    /// Takes the success of the step at hand, and says what to do next.
    pub fn on_success(&mut self) -> (r: SaveAction)
        ensures
            (final(self)@, r@) == old(self)@.succeeded(),
    {
        match self.phase {
            AtomicPhase::CreatingDirectory => {
                self.phase = AtomicPhase::Writing;
                SaveAction::Write {
                    path: self.temporary.clone(),
                    contents: self.contents.clone(),
                    private: self.private,
                }
            },
            AtomicPhase::Writing => {
                self.phase = AtomicPhase::Replacing;
                SaveAction::Replace {
                    source: self.temporary.clone(),
                    destination: self.path.clone(),
                }
            },
            AtomicPhase::Replacing | AtomicPhase::Removing | AtomicPhase::Done => {
                self.phase = AtomicPhase::Done;
                SaveAction::Finish(
                    match &self.failure {
                        Some(e) => Some(e.clone()),
                        None => None,
                    },
                )
            },
        }
    }

    /// Takes the failure of the step at hand, and says what to do next.
    pub fn on_failure(&mut self, e: String) -> (r: SaveAction)
        ensures
            (final(self)@, r@) == old(self)@.failed(e@),
    {
        match self.phase {
            AtomicPhase::Removing => self.on_success(),
            AtomicPhase::Replacing => {
                self.phase = AtomicPhase::Removing;
                self.failure = Some(e);
                let mut left: Vec<String> = Vec::new();
                left.push(self.temporary.clone());
                assert(texts(left@) =~= seq![self.temporary@]);
                SaveAction::Remove(left)
            },
            _ => {
                self.phase = AtomicPhase::Done;
                self.failure = Some(e.clone());
                SaveAction::Finish(Some(e))
            },
        }
    }
}

/// A file is put in place only when it has been written completely: until then what stood there
/// is untouched.
pub proof fn law_replaced_only_when_written(write: AtomicWriteModel)
    ensures
        write.succeeded().1 is Replace <==> write.phase == AtomicPhase::Writing,
        forall|e: Seq<char>| !((#[trigger] write.failed(e)).1 is Replace),
{
}

/// A step that fails while a pair is saved: nothing is done about a file that was not written
/// completely; every complete file that is not in place yet is removed, and no other; and the
/// failure is reported, once they are gone. Nothing is written or replaced after a failure.
pub proof fn law_a_failed_pair_is_given_up(save: SavePairModel, e: Seq<char>, other: Seq<char>)
    requires
        save.failure is None,
        save.phase != SavePhase::Removing && save.phase != SavePhase::Done,
    ensures
        ({
            let (after, action) = save.failed(e);
            let left = match save.phase {
                SavePhase::WritingKey | SavePhase::ReplacingCertificate => seq![
                    save.certificate_temporary,
                ],
                SavePhase::ReplacingKey => seq![save.certificate_temporary, save.key_temporary],
                _ => Seq::<Seq<char>>::empty(),
            };
            &&& left.len() == 0 ==> action == SaveActionModel::Finish(Some(e)) && after.phase
                == SavePhase::Done
            &&& left.len() > 0 ==> action == SaveActionModel::Remove(left) && after.phase
                == SavePhase::Removing
            &&& left.len() > 0 ==> after.succeeded().1 == SaveActionModel::Finish(Some(e))
                && after.failed(other).1 == SaveActionModel::Finish(Some(e))
            &&& after == (SavePairModel { phase: after.phase, failure: Some(e), ..save })
        }),
{
}

/// A single file whose every step succeeds is written aside as it is to be, put in place of the
/// file itself, and reported without an error.
pub proof fn law_a_file_is_written_aside_and_put_in_place(
    path: Seq<char>,
    contents: Seq<char>,
    private: bool,
    process: u32,
    nonce: u128,
)
    requires
        parent(path) is Some,
    ensures
        ({
            let (w1, a1) = atomic_write(path, contents, private, process, nonce);
            let (w2, a2) = w1.succeeded();
            let (w3, a3) = w2.succeeded();
            let (w4, a4) = w3.succeeded();
            &&& a1 == SaveActionModel::CreateDirectory(parent(path)->0)
            &&& a2 == (SaveActionModel::Write {
                path: aside(path, process, nonce),
                contents,
                private,
            })
            &&& a3 == (SaveActionModel::Replace {
                source: aside(path, process, nonce),
                destination: path,
            })
            &&& a4 == SaveActionModel::Finish(None) && w4.phase == AtomicPhase::Done
        }),
{
}

/// A single file that cannot be put in place is removed from aside; any failure is reported, and
/// nothing is put in place after it.
pub proof fn law_a_failed_file_is_given_up(
    write: AtomicWriteModel,
    e: Seq<char>,
    other: Seq<char>,
)
    requires
        write.failure is None,
        write.phase != AtomicPhase::Removing && write.phase != AtomicPhase::Done,
    ensures
        ({
            let (after, action) = write.failed(e);
            &&& write.phase == AtomicPhase::Replacing ==> action == SaveActionModel::Remove(
                seq![write.temporary],
            ) && after.succeeded().1 == SaveActionModel::Finish(Some(e)) && after.failed(other).1
                == SaveActionModel::Finish(Some(e))
            &&& write.phase != AtomicPhase::Replacing ==> action == SaveActionModel::Finish(Some(e))
            &&& after.failure == Some(e) && after.path == write.path && after.temporary
                == write.temporary
        }),
{
}

/// The name of a file that is written aside starts with a dot and tells the file, the process and
/// the moment; a path without a file name is told by a name of its own.
pub proof fn law_names_aside(name: Seq<char>, process: u32, nonce: u128)
    ensures
        temporary_file_name(Some(name), process, nonce) == seq!['.'] + name + ".tmp-"@ + decimal(
            process as nat,
        ) + seq!['-'] + decimal(nonce as nat),
        temporary_file_name(None, process, nonce) == temporary_file_name(
            Some("acme-state"@),
            process,
            nonce,
        ),
{
    reveal_strlit(".");
    reveal_strlit("-");
    assert("."@ =~= seq!['.']);
    assert("-"@ =~= seq!['-']);
}

/// A failed step is told by its kind and the path of the file.
pub proof fn law_file_errors_tell_the_path(a: FileStep, b: FileStep, path: Seq<char>)
    ensures
        file_error_text(a, path).len() > path.len(),
        path.is_suffix_of(file_error_text(a, path)),
        file_error_text(a, path) == file_error_text(b, path) ==> a == b,
{
    reveal_strlit("failed to create ");
    reveal_strlit("failed to write ");
    reveal_strlit("failed to sync ");
    reveal_strlit("failed to set permissions on ");
    assert("failed to create "@.len() == 17 && "failed to write "@.len() == 16
        && "failed to sync "@.len() == 15 && "failed to set permissions on "@.len() == 29);
    let text = file_error_text(a, path);
    assert(text.len() == file_error_text(a, Seq::empty()).len() + path.len());
    assert(text.subrange(text.len() - path.len(), text.len() as int) =~= path);
    assert(file_error_text(b, path).len() == file_error_text(b, Seq::empty()).len() + path.len());
}

/// Each step that succeeds is followed by the next one, and nothing but the phase changes. So a step
/// that fails is known for what it was: where the key is in place and the certificate cannot be put in
/// place, what was written aside for it is removed and the failure is reported.
pub proof fn law_steps_follow_one_another(save: SavePairModel, e: Seq<char>)
    ensures
        ({
            let after = save.succeeded().0;
            &&& after == (SavePairModel { phase: after.phase, ..save })
            &&& save.phase is CreatingDirectory ==> after.phase is WritingCertificate
            &&& save.phase is WritingCertificate ==> after.phase is WritingKey
            &&& save.phase is WritingKey ==> after.phase is ReplacingKey
            &&& save.phase is ReplacingKey ==> after.phase is ReplacingCertificate
            &&& save.phase is ReplacingCertificate || save.phase is Removing || save.phase is Done
                ==> after.phase is Done && save.succeeded().1 == SaveActionModel::Finish(
                save.failure,
            )
            &&& save.phase is ReplacingKey ==> after.failed(e).1 == SaveActionModel::Remove(
                seq![save.certificate_temporary],
            ) && after.failed(e).0.failure == Some(e)
        }),
{
}

} // verus!
