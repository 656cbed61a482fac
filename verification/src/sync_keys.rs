//! The keys of the mail account as they are kept in the credential store,
//! one entry for each.

use vstd::prelude::*;
use vstd::string::*;

verus! {

/// The service that the entries are filed under.
pub const KEYRING_SERVICE: &'static str = "wordmem.lrs";

/// The entry of the mailbox service's host.
pub const IMAP_SERVER_ENTRY: &'static str = "imap_server";

/// The entry of the submission service's host.
pub const SMTP_SERVER_ENTRY: &'static str = "smtp_server";

/// The entry of the account's address.
pub const EMAIL_ENTRY: &'static str = "email";

/// The entry of the account's secret.
pub const PASSWORD_ENTRY: &'static str = "password";

/// The keys of the mail account.
#[derive(Debug, Clone, PartialEq, Eq)]
pub struct SyncKeys {
    pub imap_server: String,
    pub smtp_server: String,
    pub email: String,
    pub password: String,
}

/// The keys as values of mathematics.
pub struct Keys {
    pub imap_server: Seq<char>,
    pub smtp_server: Seq<char>,
    pub email: Seq<char>,
    pub password: Seq<char>,
}

impl View for SyncKeys {
    type V = Keys;

    open spec fn view(&self) -> Keys {
        Keys {
            imap_server: self.imap_server@,
            smtp_server: self.smtp_server@,
            email: self.email@,
            password: self.password@,
        }
    }
}

/// The text of an entry, if the entry was found.
pub open spec fn found(entry: Option<String>) -> Option<Seq<char>> {
    match entry {
        Some(text) => Some(text@),
        None => None,
    }
}

/// The keys that four entries make up: all of them must have been found.
pub open spec fn keys_from(
    imap_server: Option<Seq<char>>,
    smtp_server: Option<Seq<char>>,
    email: Option<Seq<char>>,
    password: Option<Seq<char>>,
) -> Option<Keys> {
    if imap_server is Some && smtp_server is Some && email is Some && password is Some {
        Some(
            Keys {
                imap_server: imap_server->0,
                smtp_server: smtp_server->0,
                email: email->0,
                password: password->0,
            },
        )
    } else {
        None
    }
}

/// The names of the four entries, in the order in which they are read.
pub open spec fn entry_names() -> Seq<Seq<char>> {
    seq![IMAP_SERVER_ENTRY@, SMTP_SERVER_ENTRY@, EMAIL_ENTRY@, PASSWORD_ENTRY@]
}

impl SyncKeys {
    /// The entries that are cleared when the keys are given up: all four.
    pub fn clear_keys() -> (names: Vec<String>)
        ensures
            names@.map_values(|n: String| n@) == entry_names(),
    {
        let mut names: Vec<String> = Vec::new();
        names.push(String::from_str(IMAP_SERVER_ENTRY));
        names.push(String::from_str(SMTP_SERVER_ENTRY));
        names.push(String::from_str(EMAIL_ENTRY));
        names.push(String::from_str(PASSWORD_ENTRY));
        assert(names@.map_values(|n: String| n@) =~= entry_names());
        names
    }

    /// The entries that are written when the keys are stored: each name
    /// with its text.
    pub fn set_keys(&self) -> (entries: Vec<(String, String)>)
        ensures
            entries@.map_values(|e: (String, String)| e.0@) == entry_names(),
            entries@.map_values(|e: (String, String)| e.1@) == seq![
                self.imap_server@,
                self.smtp_server@,
                self.email@,
                self.password@,
            ],
    {
        let mut entries: Vec<(String, String)> = Vec::new();
        entries.push((String::from_str(IMAP_SERVER_ENTRY), self.imap_server.clone()));
        entries.push((String::from_str(SMTP_SERVER_ENTRY), self.smtp_server.clone()));
        entries.push((String::from_str(EMAIL_ENTRY), self.email.clone()));
        entries.push((String::from_str(PASSWORD_ENTRY), self.password.clone()));
        assert(entries@.map_values(|e: (String, String)| e.0@) =~= entry_names());
        assert(entries@.map_values(|e: (String, String)| e.1@) =~= seq![
            self.imap_server@,
            self.smtp_server@,
            self.email@,
            self.password@,
        ]);
        entries
    }

    /// Puts the keys together from what the credential store holds under
    /// the four entries. Where one is missing there are no keys, and the
    /// caller clears the others.
    pub fn get_keys(
        imap_server: Option<String>,
        smtp_server: Option<String>,
        email: Option<String>,
        password: Option<String>,
    ) -> (keys: Option<SyncKeys>)
        ensures
            match keys {
                Some(k) => keys_from(
                    found(imap_server),
                    found(smtp_server),
                    found(email),
                    found(password),
                ) == Some(k@),
                None => keys_from(
                    found(imap_server),
                    found(smtp_server),
                    found(email),
                    found(password),
                ) is None,
            },
    {
        match (imap_server, smtp_server, email, password) {
            (Some(imap_server), Some(smtp_server), Some(email), Some(password)) => Some(
                SyncKeys { imap_server, smtp_server, email, password },
            ),
            _ => None,
        }
    }
}

} // verus!
