//! What pushing and pulling do before and after the mail sessions: whether
//! there is anything to do, what is sent, and how a profile is read from the
//! user's answers.

use vstd::prelude::*;
use vstd::string::*;
use crate::conf::{encryption_named, AppConfig, Encryption, RetrievalModeHint, SyncConfig};
use crate::error::SyncError;
use crate::subject::{build_test_subject, test_subject_text};
use crate::sync_data::{publish_failure, OutgoingMail, Snapshot, SyncData};
use crate::syncer::{begin_with, PullAction, Syncer};
use crate::text::{chars_of, parse_u16, parsed_u16, string_of, trim, trimmed};

verus! {

/// The profile of the mail account, where the user is signed in.
pub open spec fn signed_in(app_config: Option<AppConfig>) -> Option<SyncConfig> {
    match app_config {
        Some(config) => config.sync,
        None => None,
    }
}

/// The profile of the mail account, where the user is signed in.
pub fn sync_profile(app_config: Option<&AppConfig>) -> (profile: Option<&SyncConfig>)
    ensures
        match profile {
            Some(p) => signed_in(
                match app_config {
                    Some(c) => Some(*c),
                    None => None,
                },
            ) == Some(*p),
            None => signed_in(
                match app_config {
                    Some(c) => Some(*c),
                    None => None,
                },
            ) is None,
        },
{
    match app_config {
        Some(config) => match &config.sync {
            Some(profile) => Some(profile),
            None => None,
        },
        None => None,
    }
}

/// Frames the database file, read at `now`, for publishing. Without a
/// profile there is nothing to push: the result is `None`.
pub fn push_data_to_email(
    app_config: Option<&AppConfig>,
    password: Option<&str>,
    now: i64,
    db_bytes: Vec<u8>,
) -> (mail: Result<Option<OutgoingMail>, SyncError>)
    ensures
        match mail {
            Ok(None) => app_config is None || app_config->0.sync is None,
            Ok(Some(m)) => app_config is Some && app_config->0.sync is Some && password is Some
                && m.publishes(
                Snapshot { data_time: now, payload: db_bytes@ },
                app_config->0.sync->0,
                password->0@,
            ),
            Err(e) => app_config is Some && app_config->0.sync is Some && publish_failure(
                Snapshot { data_time: now, payload: db_bytes@ },
                true,
                password is Some,
            ) == Some(e),
        },
{
    let profile = match sync_profile(app_config) {
        Some(profile) => profile,
        None => return Ok(None),
    };
    let data = SyncData { data_time: now, db_bytes };
    match data.push_data(Some(profile), password) {
        Ok(mail) => Ok(Some(mail)),
        Err(e) => Err(e),
    }
}

/// Starts the retrieval of the latest snapshot. Without a profile there is
/// nothing to pull: the result is `None`.
pub fn pull_data_from_email(app_config: Option<&AppConfig>, has_password: bool) -> (started:
    Option<(Syncer, PullAction)>)
    ensures
        match started {
            None => app_config is None || app_config->0.sync is None,
            Some(s) => app_config is Some && app_config->0.sync is Some && (s.0@, s.1@)
                == begin_with(app_config->0.sync, has_password),
        },
{
    match sync_profile(app_config) {
        Some(profile) => Some(Syncer::begin(Some(profile), has_password)),
        None => None,
    }
}

/// The search key that finds a message by its subject.
pub fn subject_search_key(subject: &str) -> (key: String)
    ensures
        key@ == "SUBJECT "@ + subject@,
{
    let mut key = String::from_str("SUBJECT ");
    key.append(subject);
    key
}

/// What a test of a profile needs: an empty message that the account sends
/// to itself through the submission service, and the search that must find
/// it in the mailbox afterwards.
#[derive(Debug, Clone, PartialEq, Eq)]
pub struct TestMail {
    pub from: String,
    pub to: String,
    pub subject: String,
    pub host: String,
    pub port: u16,
    pub encryption: Encryption,
    pub username: String,
    pub password: String,
    pub search_key: String,
}

impl TestMail {
    /// Whether this is the test of the profile `config` at `now`.
    pub open spec fn tests(&self, config: SyncConfig, password: Seq<char>, now: i64) -> bool {
        &&& self.from@ == config.email@
        &&& self.to@ == config.email@
        &&& Some(self.subject@) == test_subject_text(now)
        &&& self.host@ == config.smtp_server_host@
        &&& self.port == config.smtp_server_port
        &&& self.encryption == config.smtp_encryption
        &&& self.username@ == config.email@
        &&& self.password@ == password
        &&& self.search_key@ == "SUBJECT "@ + self.subject@
    }
}

/// Frames the test of a profile at `now`. Without the secret, or where the
/// instant has no place in a subject line, there is no test.
pub fn test_sync_config(sync_config: &SyncConfig, password: Option<&str>, now: i64) -> (test:
    Option<TestMail>)
    ensures
        match test {
            Some(t) => password is Some && t.tests(*sync_config, password->0@, now),
            None => password is None || test_subject_text(now) is None,
        },
{
    let password = match password {
        Some(password) => password,
        None => return None,
    };
    let subject = match build_test_subject(now) {
        Some(subject) => subject,
        None => return None,
    };
    let search_key = subject_search_key(subject.as_str());
    Some(
        TestMail {
            from: sync_config.email.clone(),
            to: sync_config.email.clone(),
            subject,
            host: sync_config.smtp_server_host.clone(),
            port: sync_config.smtp_server_port,
            encryption: sync_config.smtp_encryption,
            username: sync_config.email.clone(),
            password: String::from_str(password),
            search_key,
        },
    )
}

/// Which answer of the user is no part of a profile.
#[derive(Debug, Clone, Copy, PartialEq, Eq, Structural)]
pub enum AnswerError {
    ImapPort,
    ImapEncryption,
    SmtpPort,
    SmtpEncryption,
}

/// The answers of the user as values of mathematics, in the order of the
/// questions.
pub struct Answers {
    pub imap_host: Seq<char>,
    pub imap_port: Seq<char>,
    pub imap_encryption: Seq<char>,
    pub smtp_host: Seq<char>,
    pub smtp_port: Seq<char>,
    pub smtp_encryption: Seq<char>,
    pub email: Seq<char>,
}

/// The first answer that is no part of a profile, if there is one.
pub open spec fn answer_error(answers: Answers) -> Option<AnswerError> {
    if parsed_u16(trimmed(answers.imap_port)) is None {
        Some(AnswerError::ImapPort)
    } else if encryption_named(answers.imap_encryption) is None {
        Some(AnswerError::ImapEncryption)
    } else if parsed_u16(trimmed(answers.smtp_port)) is None {
        Some(AnswerError::SmtpPort)
    } else if encryption_named(answers.smtp_encryption) is None {
        Some(AnswerError::SmtpEncryption)
    } else {
        None
    }
}

/// Whether a profile is what the answers say: hosts and address trimmed,
/// ports and encryptions read, and nothing known of the server's search.
pub open spec fn answered(config: SyncConfig, answers: Answers) -> bool {
    &&& config.imap_server_host@ == trimmed(answers.imap_host)
    &&& Some(config.imap_server_port) == parsed_u16(trimmed(answers.imap_port))
    &&& Some(config.imap_encryption) == encryption_named(answers.imap_encryption)
    &&& config.smtp_server_host@ == trimmed(answers.smtp_host)
    &&& Some(config.smtp_server_port) == parsed_u16(trimmed(answers.smtp_port))
    &&& Some(config.smtp_encryption) == encryption_named(answers.smtp_encryption)
    &&& config.email@ == trimmed(answers.email)
    &&& config.retrieval_hint == RetrievalModeHint::Unknown
}

/// An answer without the white space around it.
pub fn trimmed_answer(answer: &str) -> (text: String)
    ensures
        text@ == trimmed(answer@),
{
    string_of(&trim(&chars_of(answer)))
}

/// Reads a port from an answer.
pub fn parse_port(answer: &str) -> (port: Option<u16>)
    ensures
        port == parsed_u16(trimmed(answer@)),
{
    parse_u16(trimmed_answer(answer).as_str())
}

/// Reads a profile from the user's answers, in the order of the questions.
/// The first answer that cannot be read is the error.
pub fn read_sync_config(
    imap_host: &str,
    imap_port: &str,
    imap_encryption: &str,
    smtp_host: &str,
    smtp_port: &str,
    smtp_encryption: &str,
    email: &str,
) -> (config: Result<SyncConfig, AnswerError>)
    ensures
        match config {
            Ok(c) => answer_error(
                Answers {
                    imap_host: imap_host@,
                    imap_port: imap_port@,
                    imap_encryption: imap_encryption@,
                    smtp_host: smtp_host@,
                    smtp_port: smtp_port@,
                    smtp_encryption: smtp_encryption@,
                    email: email@,
                },
            ) is None && answered(
                c,
                Answers {
                    imap_host: imap_host@,
                    imap_port: imap_port@,
                    imap_encryption: imap_encryption@,
                    smtp_host: smtp_host@,
                    smtp_port: smtp_port@,
                    smtp_encryption: smtp_encryption@,
                    email: email@,
                },
            ),
            Err(e) => answer_error(
                Answers {
                    imap_host: imap_host@,
                    imap_port: imap_port@,
                    imap_encryption: imap_encryption@,
                    smtp_host: smtp_host@,
                    smtp_port: smtp_port@,
                    smtp_encryption: smtp_encryption@,
                    email: email@,
                },
            ) == Some(e),
        },
{
    let imap_server_port = match parse_port(imap_port) {
        Some(port) => port,
        None => return Err(AnswerError::ImapPort),
    };
    let imap_encryption = match Encryption::from_str(imap_encryption) {
        Ok(encryption) => encryption,
        Err(_) => return Err(AnswerError::ImapEncryption),
    };
    let smtp_server_port = match parse_port(smtp_port) {
        Some(port) => port,
        None => return Err(AnswerError::SmtpPort),
    };
    let smtp_encryption = match Encryption::from_str(smtp_encryption) {
        Ok(encryption) => encryption,
        Err(_) => return Err(AnswerError::SmtpEncryption),
    };
    Ok(
        SyncConfig {
            imap_server_host: trimmed_answer(imap_host),
            imap_server_port,
            imap_encryption,
            smtp_server_host: trimmed_answer(smtp_host),
            smtp_server_port,
            smtp_encryption,
            email: trimmed_answer(email),
            retrieval_hint: RetrievalModeHint::Unknown,
        },
    )
}

} // verus!
