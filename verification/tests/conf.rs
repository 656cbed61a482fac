use wordmem::conf::{join_path, AppConfig, Encryption, RetrievalModeHint, SyncConfig};
use wordmem::db_syncer::{
    parse_port, push_data_to_email, read_sync_config, subject_search_key, sync_profile,
    test_sync_config, AnswerError, TestMail,
};
use wordmem::error::SyncError;
use wordmem::sync_data::SyncData;
use wordmem::sync_keys::{SyncKeys, KEYRING_SERVICE};

fn config() -> SyncConfig {
    SyncConfig {
        imap_server_host: "imap.example.com".to_string(),
        imap_server_port: 993,
        imap_encryption: Encryption::SslTls,
        smtp_server_host: "smtp.example.com".to_string(),
        smtp_server_port: 587,
        smtp_encryption: Encryption::StartTls,
        email: "me@example.com".to_string(),
        retrieval_hint: RetrievalModeHint::Unknown,
    }
}

#[test]
fn encryptions_are_read_from_words() {
    assert_eq!(Encryption::from_str("ssltls"), Ok(Encryption::SslTls));
    assert_eq!(Encryption::from_str("  StartTLS \n"), Ok(Encryption::StartTls));
    assert_eq!(Encryption::from_str("SSLTLS"), Ok(Encryption::SslTls));
    assert_eq!(
        Encryption::from_str(" tls "),
        Err("Unrecognized encryption method:  tls ".to_string())
    );
    assert_eq!(Encryption::from_str(""), Err("Unrecognized encryption method: ".to_string()));
}

#[test]
fn encryptions_are_written_as_words() {
    assert_eq!(Encryption::SslTls.to_string(), "ssltls");
    assert_eq!(Encryption::StartTls.to_string(), "starttls");
    for e in [Encryption::SslTls, Encryption::StartTls] {
        assert_eq!(Encryption::from_str(&e.to_string()), Ok(e));
    }
}

#[test]
fn paths_are_joined_with_one_separator() {
    assert_eq!(join_path("/home/me/.config", "wordmem"), "/home/me/.config/wordmem");
    assert_eq!(join_path("/home/me/.config/", "wordmem"), "/home/me/.config/wordmem");
    assert_eq!(join_path("", "wordmem"), "wordmem");
    assert_eq!(join_path("/", "wordmem"), "/wordmem");
    assert_eq!(AppConfig::conf_dir_under("/etc"), "/etc/wordmem");
    assert_eq!(AppConfig::conf_path_under("/etc"), "/etc/wordmem/wordmem.conf");
    assert_eq!(
        std::path::PathBuf::from("/etc").join("wordmem").join("wordmem.conf").to_str().unwrap(),
        AppConfig::conf_path_under("/etc")
    );
}

#[test]
fn the_default_paths_end_in_the_programs_names() {
    if let Some(dir) = AppConfig::get_default_conf_dir() {
        assert!(dir.ends_with("wordmem"));
        let path = AppConfig::get_default_conf_path().unwrap();
        assert_eq!(path, join_path(&dir, "wordmem.conf"));
    } else {
        assert_eq!(AppConfig::get_default_conf_path(), None);
    }
}

#[test]
fn keys_need_all_four_entries() {
    let some = |s: &str| Some(s.to_string());
    assert_eq!(
        SyncKeys::get_keys(some("imap"), some("smtp"), some("me@example.com"), some("pw")),
        Some(SyncKeys {
            imap_server: "imap".to_string(),
            smtp_server: "smtp".to_string(),
            email: "me@example.com".to_string(),
            password: "pw".to_string(),
        })
    );
    assert_eq!(SyncKeys::get_keys(None, some("smtp"), some("me"), some("pw")), None);
    assert_eq!(SyncKeys::get_keys(some("imap"), None, some("me"), some("pw")), None);
    assert_eq!(SyncKeys::get_keys(some("imap"), some("smtp"), None, some("pw")), None);
    assert_eq!(SyncKeys::get_keys(some("imap"), some("smtp"), some("me"), None), None);
    assert_eq!(SyncKeys::get_keys(None, None, None, None), None);
    assert_eq!(KEYRING_SERVICE, "wordmem.lrs");
    assert_eq!(SyncKeys::clear_keys(), vec!["imap_server", "smtp_server", "email", "password"]);
    let keys = SyncKeys::get_keys(some("i"), some("s"), some("e"), some("p")).unwrap();
    assert_eq!(
        keys.set_keys(),
        vec![
            ("imap_server".to_string(), "i".to_string()),
            ("smtp_server".to_string(), "s".to_string()),
            ("email".to_string(), "e".to_string()),
            ("password".to_string(), "p".to_string()),
        ]
    );
}

#[test]
fn a_snapshot_is_framed_for_the_account() {
    let data = SyncData { data_time: 1704067200, db_bytes: b"ABC".to_vec() };
    let mail = data.push_data(Some(&config()), Some("secret")).unwrap();
    assert_eq!(mail.from, "me@example.com");
    assert_eq!(mail.to, "me@example.com");
    assert_eq!(mail.subject, "[wordmem][sync][2024-01-01T00:00:00Z]");
    assert_eq!(mail.attachment_name, "wordmem.sqlite.tar.bz2");
    assert_eq!(mail.content_type, "application/octet-stream");
    assert_eq!(wordmem::codec::unpack(&mail.attachment), Ok(b"ABC".to_vec()));
    assert_eq!(mail.host, "smtp.example.com");
    assert_eq!(mail.port, 587);
    assert_eq!(mail.encryption, Encryption::StartTls);
    assert_eq!(mail.username, "me@example.com");
    assert_eq!(mail.password, "secret");
}

#[test]
fn nothing_is_framed_without_profile_or_secret() {
    let data = SyncData { data_time: 1704067200, db_bytes: b"ABC".to_vec() };
    assert_eq!(data.push_data(None, Some("secret")), Err(SyncError::ConfigMissing));
    assert_eq!(data.push_data(Some(&config()), None), Err(SyncError::ConfigMissing));
    assert_eq!(data.push_data(None, None), Err(SyncError::ConfigMissing));
}

#[test]
fn an_instant_that_has_no_subject_is_not_framed() {
    let data = SyncData { data_time: 253402300800, db_bytes: b"ABC".to_vec() };
    assert_eq!(data.push_data(Some(&config()), Some("secret")), Err(SyncError::MalformedEnvelope));
    assert_eq!(data.push_data(None, Some("secret")), Err(SyncError::ConfigMissing));
}

#[test]
fn pushing_needs_a_profile() {
    assert_eq!(push_data_to_email(None, Some("pw"), 0, Vec::new()), Ok(None));
    let signed_out = AppConfig { sync: None };
    assert_eq!(push_data_to_email(Some(&signed_out), Some("pw"), 0, Vec::new()), Ok(None));
    assert_eq!(sync_profile(Some(&signed_out)), None);
    assert_eq!(sync_profile(None), None);
    let app = AppConfig { sync: Some(config()) };
    assert_eq!(sync_profile(Some(&app)), Some(&config()));
    assert_eq!(
        push_data_to_email(Some(&app), None, 0, b"db".to_vec()),
        Err(SyncError::ConfigMissing)
    );
    let mail = push_data_to_email(Some(&app), Some("pw"), 86400, b"db".to_vec()).unwrap().unwrap();
    assert_eq!(mail.subject, "[wordmem][sync][1970-01-02T00:00:00Z]");
    assert_eq!(wordmem::codec::unpack(&mail.attachment), Ok(b"db".to_vec()));
    assert_eq!(mail.password, "pw");
}

#[test]
fn a_profile_is_tested_with_a_marked_message() {
    let test = test_sync_config(&config(), Some("secret"), 1704067200).unwrap();
    assert_eq!(
        test,
        TestMail {
            from: "me@example.com".to_string(),
            to: "me@example.com".to_string(),
            subject: "[wordmem][test][2024-01-01T00:00:00Z]".to_string(),
            host: "smtp.example.com".to_string(),
            port: 587,
            encryption: Encryption::StartTls,
            username: "me@example.com".to_string(),
            password: "secret".to_string(),
            search_key: "SUBJECT [wordmem][test][2024-01-01T00:00:00Z]".to_string(),
        }
    );
    assert_eq!(subject_search_key("a b"), "SUBJECT a b");
    assert_eq!(test_sync_config(&config(), None, 1704067200), None);
    assert_eq!(test_sync_config(&config(), Some("secret"), i64::MAX), None);
}

#[test]
fn a_profile_is_read_from_answers() {
    assert_eq!(
        read_sync_config(
            " imap.example.com ",
            " 993\n",
            "SslTls",
            "smtp.example.com",
            "587",
            " starttls ",
            " me@example.com\n"
        ),
        Ok(config())
    );
}

#[test]
fn the_first_bad_answer_is_reported() {
    let read = |ip: &str, ie: &str, sp: &str, se: &str| {
        read_sync_config("imap", ip, ie, "smtp", sp, se, "me@example.com")
    };
    assert_eq!(read("x", "y", "z", "w"), Err(AnswerError::ImapPort));
    assert_eq!(read("65536", "ssltls", "25", "ssltls"), Err(AnswerError::ImapPort));
    assert_eq!(read("", "ssltls", "25", "ssltls"), Err(AnswerError::ImapPort));
    assert_eq!(read("993", "y", "z", "w"), Err(AnswerError::ImapEncryption));
    assert_eq!(read("993", "ssltls", "-1", "w"), Err(AnswerError::SmtpPort));
    assert_eq!(read("993", "ssltls", "25", "w"), Err(AnswerError::SmtpEncryption));
    assert_eq!(parse_port(" 65535 "), Some(65535));
    assert_eq!(parse_port("0"), Some(0));
    assert_eq!(parse_port("9 9"), None);
}
