//! The stored profile of the mail account that snapshots travel through.

use vstd::prelude::*;
use vstd::string::*;
use crate::text::{chars_of, lowercase_of, string_of, trim, trimmed};

verus! {

/// How a session is secured.
#[derive(Debug, Clone, Copy, PartialEq, Eq, Structural)]
pub enum Encryption {
    /// The connection is encrypted from its first byte.
    SslTls,
    /// The connection starts in plain text and is upgraded before the login.
    StartTls,
}

/// What is known of the server's subject search.
#[derive(Debug, Clone, Copy, PartialEq, Eq, Structural)]
pub enum RetrievalModeHint {
    /// No search has found a snapshot yet.
    Unknown,
    /// The subject search found the snapshot.
    PrimarySearchWorks,
    /// The subject search missed a snapshot that a scan of the mailbox found.
    PrimarySearchBroken,
}

/// The encryption that a word names, whatever its case and the white space
/// around it.
pub open spec fn encryption_named(text: Seq<char>) -> Option<Encryption> {
    let word = lowercase_of(trimmed(text));
    if word == "ssltls"@ {
        Some(Encryption::SslTls)
    } else if word == "starttls"@ {
        Some(Encryption::StartTls)
    } else {
        None
    }
}

impl Encryption {
    /// The word that stands for this encryption in a profile.
    pub open spec fn name(self) -> Seq<char> {
        match self {
            Encryption::SslTls => "ssltls"@,
            Encryption::StartTls => "starttls"@,
        }
    }

    /// The word that stands for this encryption in a profile.
    pub fn to_string(&self) -> (word: String)
        ensures
            word@ == self.name(),
    {
        match self {
            Encryption::SslTls => String::from_str("ssltls"),
            Encryption::StartTls => String::from_str("starttls"),
        }
    }

    /// Reads an encryption from a word. The error is the message for the
    /// user.
    pub fn from_str(s: &str) -> (parsed: Result<Encryption, String>)
        ensures
            match parsed {
                Ok(encryption) => encryption_named(s@) == Some(encryption),
                Err(message) => encryption_named(s@) is None && message@
                    == "Unrecognized encryption method: "@ + s@,
            },
    {
        let word = string_of(&trim(&chars_of(s))).as_str().to_lowercase();
        if word == String::from_str("ssltls") {
            Ok(Encryption::SslTls)
        } else if word == String::from_str("starttls") {
            Ok(Encryption::StartTls)
        } else {
            let mut message = String::from_str("Unrecognized encryption method: ");
            message.append(s);
            Err(message)
        }
    }
}

/// The mail account that snapshots are sent to and read from.
#[derive(Debug, Clone, PartialEq, Eq)]
pub struct SyncConfig {
    pub imap_server_host: String,
    pub imap_server_port: u16,
    pub imap_encryption: Encryption,
    pub smtp_server_host: String,
    pub smtp_server_port: u16,
    pub smtp_encryption: Encryption,
    pub email: String,
    /// What earlier retrievals learned of the server's subject search.
    pub retrieval_hint: RetrievalModeHint,
}

/// The stored configuration of the program.
#[derive(Debug, Clone, PartialEq, Eq)]
pub struct AppConfig {
    pub sync: Option<SyncConfig>,
}

/// The directory of this program under a configuration directory.
pub const CONF_DIR_NAME: &'static str = "wordmem";

/// The name of the configuration file.
pub const CONF_FILE_NAME: &'static str = "wordmem.conf";

/// A path with one more component: the separator stands between the two
/// unless the path is empty or ends in one.
pub open spec fn path_join(base: Seq<char>, name: Seq<char>) -> Seq<char> {
    if base.len() == 0 || base.last() == '/' {
        base + name
    } else {
        base + seq!['/'] + name
    }
}

/// The configuration file's path under a platform's configuration directory.
pub open spec fn conf_path_under(config_dir: Seq<char>) -> Seq<char> {
    path_join(path_join(config_dir, CONF_DIR_NAME@), CONF_FILE_NAME@)
}

/// Appends a component to a path.
pub fn join_path(base: &str, name: &str) -> (path: String)
    ensures
        path@ == path_join(base@, name@),
{
    let chars = chars_of(base);
    let mut path = String::from_str(base);
    if chars.len() > 0 && chars[chars.len() - 1] != '/' {
        proof {
            reveal_strlit("/");
            assert("/"@ =~= seq!['/']);
        }
        path.append("/");
    }
    path.append(name);
    path
}

/// `dirs::config_dir`, with the path as a string: the configuration
/// directory of the user who runs the program, where the platform has one
/// and its path is valid Unicode. It is read from the environment, so
/// nothing is stated of it.
#[verifier::external_body]
fn platform_config_dir() -> (dir: Option<String>) {
    match dirs::config_dir() {
        Some(path) => path.into_os_string().into_string().ok(),
        None => None,
    }
}

impl AppConfig {
    /// This program's directory under the given configuration directory.
    pub fn conf_dir_under(config_dir: &str) -> (dir: String)
        ensures
            dir@ == path_join(config_dir@, CONF_DIR_NAME@),
    {
        join_path(config_dir, CONF_DIR_NAME)
    }

    /// The configuration file under the given configuration directory.
    pub fn conf_path_under(config_dir: &str) -> (path: String)
        ensures
            path@ == conf_path_under(config_dir@),
    {
        let dir = Self::conf_dir_under(config_dir);
        join_path(dir.as_str(), CONF_FILE_NAME)
    }

    /// This program's directory under the user's configuration directory,
    /// where the platform names one.
    pub fn get_default_conf_dir() -> (dir: Option<String>)
        ensures
            dir matches Some(d) ==> exists|base: Seq<char>| d@ == path_join(base, CONF_DIR_NAME@),
    {
        match platform_config_dir() {
            Some(base) => Some(Self::conf_dir_under(base.as_str())),
            None => None,
        }
    }

    /// The configuration file under the user's configuration directory,
    /// where the platform names one.
    pub fn get_default_conf_path() -> (path: Option<String>)
        ensures
            path matches Some(p) ==> exists|base: Seq<char>| p@ == conf_path_under(base),
    {
        match platform_config_dir() {
            Some(base) => Some(Self::conf_path_under(base.as_str())),
            None => None,
        }
    }
}

} // verus!
