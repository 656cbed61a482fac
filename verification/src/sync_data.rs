//! A snapshot of the database with the instant it was taken at, the message
//! that publishes it, and the reading of a snapshot from a fetched message.

use vstd::prelude::*;
use vstd::string::*;
use crate::codec::{pack, packed, unpack, unpacked, DB_FILE_NAME};
use crate::conf::{Encryption, SyncConfig};
use crate::error::SyncError;
use crate::subject::{
    build_subject,
    lemma_subject_round_trip,
    parse_timestamp,
    subject_instant,
    subject_text,
};
use crate::syncer::Syncer;
use crate::timestamp::{serializable, to_rfc3339_seconds};

verus! {

/// A snapshot: the bytes of the database file, and the instant they were
/// read at, in whole seconds since the Unix epoch.
#[derive(Debug, Clone, PartialEq, Eq)]
pub struct SyncData {
    pub data_time: i64,
    pub db_bytes: Vec<u8>,
}

/// A snapshot as a value of mathematics.
pub struct Snapshot {
    pub data_time: i64,
    pub payload: Seq<u8>,
}

impl View for SyncData {
    type V = Snapshot;

    open spec fn view(&self) -> Snapshot {
        Snapshot { data_time: self.data_time, payload: self.db_bytes@ }
    }
}

/// What a mail submission needs to publish a snapshot.
#[derive(Debug, Clone, PartialEq, Eq)]
pub struct OutgoingMail {
    pub from: String,
    pub to: String,
    pub subject: String,
    pub attachment_name: String,
    pub content_type: String,
    pub attachment: Vec<u8>,
    pub host: String,
    pub port: u16,
    pub encryption: Encryption,
    pub username: String,
    pub password: String,
}

/// What follows the database file's name in the attachment's name.
pub const ARCHIVE_SUFFIX: &'static str = ".tar.bz2";

/// The content type of the attachment.
pub const ATTACHMENT_TYPE: &'static str = "application/octet-stream";

/// The subject that the `mail-parser` crate reads from a raw message:
/// `MessageParser::parse` with the default settings, then `Message::subject`.
/// `None` where the bytes are no message or the message has no subject.
pub uninterp spec fn mail_subject_of(message: Seq<u8>) -> Option<Seq<char>>;

/// The decoded contents of the first attachment that the `mail-parser` crate
/// finds in a raw message: `MessageParser::parse` with the default settings,
/// `Message::attachment` at 0, then `MessagePart::contents`. `None` where the
/// bytes are no message or the message has no attachment.
pub uninterp spec fn mail_attachment_of(message: Seq<u8>) -> Option<Seq<u8>>;

/// `mail_parser::MessageParser::parse`, then `Message::subject`. The subject
/// is given the name `mail_subject_of`.
#[verifier::external_body]
pub(crate) fn mail_subject(message: &[u8]) -> (subject: Option<String>)
    ensures
        match subject {
            Some(s) => mail_subject_of(message@) == Some(s@),
            None => mail_subject_of(message@) is None,
        },
{
    match mail_parser::MessageParser::default().parse(message) {
        Some(parsed) => match parsed.subject() {
            Some(subject) => Some(subject.to_string()),
            None => None,
        },
        None => None,
    }
}

/// `mail_parser::MessageParser::parse`, then `Message::attachment` at 0 and
/// `MessagePart::contents`. The contents are given the name
/// `mail_attachment_of`.
#[verifier::external_body]
fn mail_attachment(message: &[u8]) -> (contents: Option<Vec<u8>>)
    ensures
        match contents {
            Some(c) => mail_attachment_of(message@) == Some(c@),
            None => mail_attachment_of(message@) is None,
        },
{
    match mail_parser::MessageParser::default().parse(message) {
        Some(parsed) => match parsed.attachment(0) {
            Some(part) => Some(part.contents().to_vec()),
            None => None,
        },
        None => None,
    }
}

/// The snapshot that a raw message carries: the instant of its subject and
/// the unpacked contents of its first attachment. A message without a
/// subject, without an instant in it or without an attachment is malformed.
pub open spec fn snapshot_in(message: Seq<u8>) -> Result<Snapshot, SyncError> {
    match mail_subject_of(message) {
        Some(subject) => match subject_instant(subject) {
            Ok(data_time) => match mail_attachment_of(message) {
                Some(archive) => match unpacked(archive) {
                    Ok(payload) => Ok(Snapshot { data_time, payload }),
                    Err(e) => Err(e),
                },
                None => Err(SyncError::MalformedEnvelope),
            },
            Err(e) => Err(e),
        },
        None => Err(SyncError::MalformedEnvelope),
    }
}

/// Why a snapshot cannot be published, if it cannot: the profile or the
/// secret is missing, the payload does not pack, or the instant has no place
/// in a subject line.
pub open spec fn publish_failure(
    snapshot: Snapshot,
    has_config: bool,
    has_password: bool,
) -> Option<SyncError> {
    if !has_config || !has_password {
        Some(SyncError::ConfigMissing)
    } else if packed(snapshot.payload) is Err {
        Some(SyncError::CorruptArchive)
    } else if subject_text(snapshot.data_time) is None {
        Some(SyncError::MalformedEnvelope)
    } else {
        None
    }
}

impl OutgoingMail {
    /// Whether this is the message that publishes `snapshot` through the
    /// account of `config`: sent by the account to itself, under the
    /// snapshot's subject line, with the packed payload as its one attachment.
    pub open spec fn publishes(
        &self,
        snapshot: Snapshot,
        config: SyncConfig,
        password: Seq<char>,
    ) -> bool {
        &&& self.from@ == config.email@
        &&& self.to@ == config.email@
        &&& Some(self.subject@) == subject_text(snapshot.data_time)
        &&& self.attachment_name@ == DB_FILE_NAME@ + ARCHIVE_SUFFIX@
        &&& self.content_type@ == ATTACHMENT_TYPE@
        &&& Ok::<Seq<u8>, SyncError>(self.attachment@) == packed(snapshot.payload)
        &&& self.host@ == config.smtp_server_host@
        &&& self.port == config.smtp_server_port
        &&& self.encryption == config.smtp_encryption
        &&& self.username@ == config.email@
        &&& self.password@ == password
    }
}

impl SyncData {
    /// Whether the snapshot can be published: its instant has a place in a
    /// subject line.
    pub open spec fn wf(&self) -> bool {
        serializable(self.data_time)
    }

    /// A snapshot of the database bytes read at `data_time`. `None` where
    /// the instant has no place in a subject line.
    pub fn new(data_time: i64, db_bytes: Vec<u8>) -> (data: Option<SyncData>)
        ensures
            match data {
                Some(d) => d.wf() && d.data_time == data_time && d.db_bytes@ == db_bytes@,
                None => !serializable(data_time),
            },
    {
        match to_rfc3339_seconds(data_time) {
            Some(_) => Some(SyncData { data_time, db_bytes }),
            None => None,
        }
    }

    /// Frames the snapshot for publishing: the message to send and the
    /// submission service to send it through. Nothing is sent here. A
    /// snapshot whose instant has no place in a subject line is malformed.
    pub fn push_data(&self, sync_config: Option<&SyncConfig>, password: Option<&str>) -> (mail:
        Result<OutgoingMail, SyncError>)
        ensures
            match mail {
                Ok(m) => sync_config is Some && password is Some && m.publishes(
                    self@,
                    *sync_config->0,
                    password->0@,
                ) && publish_failure(self@, true, true) is None,
                Err(e) => publish_failure(self@, sync_config is Some, password is Some) == Some(e),
            },
    {
        let config = match sync_config {
            Some(config) => config,
            None => return Err(SyncError::ConfigMissing),
        };
        let password = match password {
            Some(password) => password,
            None => return Err(SyncError::ConfigMissing),
        };
        let attachment = match pack(self.db_bytes.as_slice()) {
            Ok(archive) => archive,
            Err(_) => return Err(SyncError::CorruptArchive),
        };
        let subject = match build_subject(self.data_time) {
            Some(subject) => subject,
            None => return Err(SyncError::MalformedEnvelope),
        };
        let mut attachment_name = String::from_str(DB_FILE_NAME);
        attachment_name.append(ARCHIVE_SUFFIX);
        Ok(
            OutgoingMail {
                from: config.email.clone(),
                to: config.email.clone(),
                subject,
                attachment_name,
                content_type: String::from_str(ATTACHMENT_TYPE),
                attachment,
                host: config.smtp_server_host.clone(),
                port: config.smtp_server_port,
                encryption: config.smtp_encryption,
                username: config.email.clone(),
                password: String::from_str(password),
            },
        )
    }

}

/// A message that carries what was framed for a snapshot, its subject and
/// its attachment, is read back as that snapshot.
pub proof fn lemma_published_is_read_back(
    snapshot: Snapshot,
    mail: OutgoingMail,
    config: SyncConfig,
    password: Seq<char>,
    message: Seq<u8>,
)
    requires
        mail.publishes(snapshot, config, password),
        mail_subject_of(message) == Some(mail.subject@),
        mail_attachment_of(message) == Some(mail.attachment@),
    ensures
        snapshot_in(message) == Ok::<Snapshot, SyncError>(snapshot),
{
    lemma_subject_round_trip(snapshot.data_time);
}

impl Syncer {
    /// Reads the snapshot that a fetched message carries.
    pub fn get_data(message: &[u8]) -> (snapshot: Result<SyncData, SyncError>)
        ensures
            match snapshot {
                Ok(data) => snapshot_in(message@) == Ok::<Snapshot, SyncError>(data@),
                Err(e) => snapshot_in(message@) == Err::<Snapshot, SyncError>(e),
            },
    {
        let subject = match mail_subject(message) {
            Some(subject) => subject,
            None => return Err(SyncError::MalformedEnvelope),
        };
        let data_time = match parse_timestamp(subject.as_str()) {
            Ok(data_time) => data_time,
            Err(e) => return Err(e),
        };
        let archive = match mail_attachment(message) {
            Some(archive) => archive,
            None => return Err(SyncError::MalformedEnvelope),
        };
        match unpack(archive.as_slice()) {
            Ok(db_bytes) => Ok(SyncData { data_time, db_bytes }),
            Err(e) => Err(e),
        }
    }
}

} // verus!
