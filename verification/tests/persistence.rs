use nothing_core::persistence::{
    autostart_directory, autostart_entry, autostart_file, neutral_profile, redact_log_chunk,
    MAX_PROFILES,
};
use nothing_core::{redact_sensitive, AppConfig, EqProfileStore, Paths, PersistenceError};

#[test]
fn config_defaults_are_private() {
    assert_eq!(
        AppConfig::default(),
        AppConfig {
            start_at_login: false,
            first_close_explained: false,
            raw_protocol_logging: false
        }
    );
}

#[test]
fn redacts_addresses_and_serials() {
    let text = redact_sensitive("device AA:BB:CC:DD:EE:FF serial SH12345678901234");
    assert!(!text.contains("AA:BB"));
    assert!(!text.contains("SH123"));
}

#[test]
fn redaction_keeps_surrounding_punctuation_and_plain_words() {
    assert_eq!(
        redact_sensitive("connect (aa:bb:cc:dd:ee:ff), ok"),
        "connect (XX:XX:XX:XX:XX:XX), ok"
    );
    assert_eq!(
        redact_sensitive("  serial\tSH12345678901234\n done "),
        "serial SH[redacted-identifier] done"
    );
    assert_eq!(redact_sensitive("short 1234567890123"), "short 1234567890123");
    assert_eq!(redact_sensitive("AA:BB:CC:DD:EE"), "AA:BB:CC:DD:EE");
    assert_eq!(redact_sensitive(""), "");
    let once = redact_sensitive("AA:BB:CC:DD:EE:FF 0123456789abcdef");
    assert_eq!(redact_sensitive(&once), once);
}

#[test]
fn configuration_files_live_in_their_directories() {
    let paths = Paths {
        config_dir: "/home/u/.config/NothingLinux".into(),
        state_dir: "/home/u/.local/state/NothingLinux".into(),
        data_dir: "/home/u/.local/share/NothingLinux".into(),
    };
    assert_eq!(paths.config_file(), "/home/u/.config/NothingLinux/config.json");
    assert_eq!(
        paths.profiles_file(),
        "/home/u/.config/NothingLinux/eq-profiles.json"
    );
    assert_eq!(
        paths.diagnostics_file(),
        "/home/u/.local/state/NothingLinux/diagnostics.log"
    );
}

#[test]
fn autostart_entry_goes_to_the_xdg_autostart_directory() {
    assert_eq!(
        autostart_directory(Some("/cfg"), Some("/home/u")).as_deref(),
        Some("/cfg/autostart")
    );
    assert_eq!(
        autostart_directory(None, Some("/home/u")).as_deref(),
        Some("/home/u/.config/autostart")
    );
    assert_eq!(autostart_directory(None, None), None);
    assert_eq!(
        autostart_file("/cfg/autostart"),
        "/cfg/autostart/io.github.nothinglinux.nothinglinux.desktop"
    );
    let entry = autostart_entry();
    assert!(entry.starts_with("[Desktop Entry]\n"));
    assert!(entry.contains("Exec=nothing-linux --background\n"));
    assert!(entry.contains("Icon=io.github.nothinglinux.nothinglinux\n"));
    assert!(entry.ends_with("X-GNOME-Autostart-enabled=true\n"));
}

#[test]
fn the_store_holds_at_most_twenty_valid_profiles() {
    let mut store = EqProfileStore::default();
    for index in 0..MAX_PROFILES {
        assert!(store.push(neutral_profile(&format!("Profile {index}"))).is_ok());
    }
    assert_eq!(store.0.len(), 20);
    assert!(matches!(
        store.push(neutral_profile("One more")),
        Err(PersistenceError::TooManyProfiles)
    ));
    assert_eq!(store.0.len(), 20);
    assert!(store.validate().is_ok());
}

#[test]
fn invalid_profiles_are_refused_with_their_reason() {
    let mut store = EqProfileStore::default();
    match store.push(neutral_profile("  ")) {
        Err(PersistenceError::InvalidProfile(reason)) => assert_eq!(reason, "invalid profile name"),
        other => panic!("unexpected {other:?}"),
    }
    assert!(store.0.is_empty());
    let mut bad = neutral_profile("Loud");
    bad.bands[2].gain_db = 20.0f32.to_bits();
    let listed = EqProfileStore(vec![neutral_profile("Fine"), bad]);
    match listed.validate() {
        Err(error @ PersistenceError::InvalidProfile(_)) => {
            assert_eq!(error.message(), "invalid EQ profile: invalid advanced EQ band")
        }
        other => panic!("unexpected {other:?}"),
    }
    let crowded = EqProfileStore((0..21).map(|_| neutral_profile("Same")).collect());
    assert!(matches!(
        crowded.validate(),
        Err(PersistenceError::TooManyProfiles)
    ));
}

#[test]
fn an_empty_store_is_seeded_with_a_flat_profile() {
    let mut store = EqProfileStore::default();
    store.seed_default();
    assert_eq!(store.0.len(), 1);
    assert_eq!(store.0[0].name, "Custom 1");
    assert!(store.0[0].bands.iter().all(|band| band.gain_db == 0 && band.q == 1.0f32.to_bits()));
    store.seed_default();
    assert_eq!(store.0.len(), 1);
}

#[test]
fn persistence_errors_describe_themselves() {
    assert_eq!(
        PersistenceError::TooManyProfiles.message(),
        "at most 20 EQ profiles are supported"
    );
    assert_eq!(
        PersistenceError::NoXdgDirectories.message(),
        "XDG application directories are unavailable"
    );
    let io = PersistenceError::Io(std::io::Error::from(std::io::ErrorKind::NotFound));
    assert!(io.message().starts_with("I/O error: "));
}

#[test]
fn log_chunks_are_redacted_and_keep_their_final_newline() {
    assert_eq!(
        redact_log_chunk(b"peer AA:BB:CC:DD:EE:FF up\n"),
        "peer XX:XX:XX:XX:XX:XX up\n"
    );
    assert_eq!(redact_log_chunk(b"no newline"), "no newline");
    assert_eq!(redact_log_chunk(b"bad \xff byte\n"), "bad \u{fffd} byte\n");
}
