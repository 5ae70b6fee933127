use infinigit::command::{
    local_development, parse, reads_git_settings, AuthCommand, Environment, DEFAULT_APP, DEFAULT_AUTH,
    DEFAULT_IDENTITY, IMPORT_DESTINATION, IMPORT_USAGE, LOCAL_DEV_INVALID,
    MAIN_USAGE, SECRETS_USAGE,
};

fn strings(items: &[&str]) -> Vec<String> {
    items.iter().map(|s| s.to_string()).collect()
}

fn parse_plain(args: &[String]) -> Result<AuthCommand, String> {
    parse(args, &Environment::new())
}

#[test]
fn parses_login_defaults_and_overrides() {
    assert_eq!(
        parse_plain(&["auth".into(), "login".into()]).unwrap(),
        AuthCommand::Login {
            name: "infinigit".into(),
            auth: DEFAULT_AUTH.into(),
            app: DEFAULT_APP.into(),
            storage: "keyring".into(),
        }
    );
    assert_eq!(
        parse_plain(&[
            "auth".into(),
            "login".into(),
            "--name".into(),
            "work".into(),
            "--app".into(),
            "https://code.example".into(),
            "--storage".into(),
            "password".into()
        ])
        .unwrap(),
        AuthCommand::Login {
            name: "work".into(),
            auth: DEFAULT_AUTH.into(),
            app: "https://code.example".into(),
            storage: "password".into(),
        }
    );
}

#[test]
fn parses_lifecycle_commands_and_rejects_unsafe_values() {
    assert_eq!(
        parse_plain(&["auth".into(), "status".into()]).unwrap(),
        AuthCommand::Status {
            name: DEFAULT_IDENTITY.into()
        }
    );
    assert_eq!(
        parse_plain(&[
            "auth".into(),
            "reauth".into(),
            "--name".into(),
            "work_1".into()
        ])
        .unwrap(),
        AuthCommand::Reauth {
            name: "work_1".into()
        }
    );
    assert_eq!(
        parse_plain(&["auth".into(), "logout".into()]).unwrap(),
        AuthCommand::Logout {
            name: DEFAULT_IDENTITY.into()
        }
    );
    assert!(parse_plain(&[
        "auth".into(),
        "login".into(),
        "--name".into(),
        "../bad".into()
    ])
    .is_err());
    assert!(parse_plain(&[
        "auth".into(),
        "login".into(),
        "--auth".into(),
        "http://evil.example".into()
    ])
    .is_err());
    assert!(parse_plain(&[
        "auth".into(),
        "login".into(),
        "--storage".into(),
        "none".into()
    ])
    .is_err());
    assert!(parse_plain(&[
        "auth".into(),
        "link-device".into(),
        "--root-key".into(),
        "unsafe".into()
    ])
    .is_err());
    assert!(parse_plain(&["wrong".into()]).is_err());
}

#[test]
fn parses_repository_import_and_rejects_non_infinigit_destinations() {
    assert_eq!(
        parse_plain(&[
            "import".into(),
            "https://example.com/team/project.git".into(),
            "igit://infinigit.com/alice/project".into(),
        ])
        .unwrap(),
        AuthCommand::Import {
            source: "https://example.com/team/project.git".into(),
            destination: "igit://infinigit.com/alice/project".into(),
        }
    );
    assert!(parse_plain(&[
        "import".into(),
        "--upload-pack=evil".into(),
        "igit://infinigit.com/alice/project".into()
    ])
    .is_err());
    assert!(parse_plain(&[
        "import".into(),
        "https://example.com/repo.git".into(),
        "https://example.com/other.git".into()
    ])
    .is_err());
    assert!(parse_plain(&[
        "import".into(),
        "source".into(),
        "igit://host/repo".into(),
        "extra".into()
    ])
    .is_err());
}

#[test]
fn parses_secrets_commands_without_interpreting_secret_values() {
    assert_eq!(
        parse_plain(&[
            "secrets".into(),
            "pull".into(),
            "prod".into(),
            "--format".into(),
            "shell".into()
        ])
        .unwrap(),
        AuthCommand::Secrets {
            args: vec![
                "pull".into(),
                "prod".into(),
                "--format".into(),
                "shell".into()
            ]
        }
    );
    assert!(parse_plain(&["secrets".into()]).is_err());
}

#[test]
fn parse_reports_each_error_message() {
    assert_eq!(parse_plain(&[]), Err(MAIN_USAGE.to_string()));
    assert_eq!(parse_plain(&strings(&["secrets"])), Err(SECRETS_USAGE.to_string()));
    assert_eq!(parse_plain(&strings(&["import"])), Err(IMPORT_USAGE.to_string()));
    assert_eq!(
        parse_plain(&strings(&["import", "src", "https://x/y"])),
        Err(IMPORT_DESTINATION.to_string())
    );
    assert_eq!(
        parse_plain(&strings(&["import", "src", "igit://h/a b"])),
        Err(IMPORT_DESTINATION.to_string())
    );
    assert_eq!(parse_plain(&strings(&["auth"])), Err("missing auth command".to_string()));
    assert_eq!(
        parse_plain(&strings(&["auth", "login", "--name"])),
        Err("--name requires a value".to_string())
    );
    assert_eq!(
        parse_plain(&strings(&["auth", "status", "--name", ""])),
        Err("invalid identity name".to_string())
    );
    assert_eq!(
        parse_plain(&strings(&["auth", "login", "--storage", "none"])),
        Err("invalid identity storage".to_string())
    );
    assert_eq!(
        parse_plain(&strings(&["auth", "login", "--auth", "http://evil.example"])),
        Err("invalid auth origin".to_string())
    );
    assert_eq!(
        parse_plain(&strings(&["auth", "login", "--app", "ftp://x"])),
        Err("invalid app origin".to_string())
    );
    assert_eq!(
        parse_plain(&strings(&["auth", "dance"])),
        Err("usage: infinigit auth <login|status|reauth|logout> [options]".to_string())
    );
}

#[test]
fn identity_names_are_limited_to_64_safe_characters() {
    let long = "a".repeat(64);
    assert_eq!(
        parse_plain(&strings(&["auth", "status", "--name", &long])),
        Ok(AuthCommand::Status { name: long.clone() })
    );
    let too_long = "a".repeat(65);
    assert!(parse_plain(&strings(&["auth", "status", "--name", &too_long])).is_err());
    assert!(parse_plain(&strings(&["auth", "status", "--name", "a.b"])).is_err());
    assert!(parse_plain(&strings(&["auth", "status", "--name", "a-B_9"])).is_ok());
}

#[test]
fn login_origins_come_from_the_environment_before_the_defaults() {
    let mut env = Environment::new();
    env.auth_origin = Some("http://localhost:8080".into());
    env.app_origin = Some("http://127.0.0.1:5173".into());
    assert_eq!(
        parse(&strings(&["auth", "login"]), &env),
        Ok(AuthCommand::Login {
            name: "infinigit".into(),
            auth: "http://localhost:8080".into(),
            app: "http://127.0.0.1:5173".into(),
            storage: "keyring".into(),
        })
    );
    env.app_origin = Some("http://evil.example".into());
    assert_eq!(
        parse(&strings(&["auth", "login"]), &env),
        Err("invalid app origin".to_string())
    );
}

#[test]
fn device_links_default_to_mainnet_and_plaintext_storage() {
    assert_eq!(
        parse_plain(&strings(&["auth", "link-device", "--name", "laptop"])),
        Ok(AuthCommand::LinkDevice {
            name: "laptop".into(),
            label: "CLI device".into(),
            storage: "plaintext".into(),
            read_only: false,
            reuse_existing: false,
            directory: None,
            network: "ic".into(),
            root_key: "mainnet".into(),
        })
    );
    assert_eq!(
        parse_plain(&strings(&[
            "auth",
            "link-device",
            "--label",
            "Work laptop",
            "--read-only",
            "--reuse-existing",
            "--directory",
            "",
            "--network",
            "http://localhost:8000",
            "--root-key",
            "fetch",
        ])),
        Ok(AuthCommand::LinkDevice {
            name: "infinigit".into(),
            label: "Work laptop".into(),
            storage: "plaintext".into(),
            read_only: true,
            reuse_existing: true,
            directory: None,
            network: "http://localhost:8000".into(),
            root_key: "fetch".into(),
        })
    );
}

#[test]
fn device_links_check_label_network_and_root_key() {
    assert_eq!(
        parse_plain(&strings(&["auth", "link-device", "--label", "bad/label"])),
        Err("invalid device label".to_string())
    );
    assert_eq!(
        parse_plain(&strings(&["auth", "link-device", "--storage", "disk"])),
        Err("invalid identity storage".to_string())
    );
    assert_eq!(
        parse_plain(&strings(&["auth", "link-device", "--network", ""])),
        Err("invalid network or root key".to_string())
    );
    let pinned = "ab".repeat(133);
    assert!(parse_plain(&strings(&["auth", "link-device", "--root-key", &pinned])).is_ok());
    let short = "ab".repeat(132);
    assert!(parse_plain(&strings(&["auth", "link-device", "--root-key", &short])).is_err());
}

#[test]
fn local_development_uses_git_configuration_and_local_defaults() {
    let mut env = Environment::new();
    env.local_dev = Some("1".into());
    env.git_directory = Some("local-directory".into());
    assert_eq!(
        parse(&strings(&["auth", "link-device"]), &env),
        Ok(AuthCommand::LinkDevice {
            name: "infinigit".into(),
            label: "CLI device".into(),
            storage: "plaintext".into(),
            read_only: false,
            reuse_existing: false,
            directory: Some("local-directory".into()),
            network: "http://127.0.0.1:4943".into(),
            root_key: "fetch".into(),
        })
    );
    env.git_directory = None;
    env.network = Some("http://localhost:8000".into());
    env.root_key = Some("mainnet".into());
    match parse(&strings(&["auth", "link-device"]), &env) {
        Ok(AuthCommand::LinkDevice { directory, network, root_key, .. }) => {
            assert_eq!(directory, None);
            assert_eq!(network, "http://localhost:8000");
            assert_eq!(root_key, "mainnet");
        }
        other => panic!("unexpected {:?}", other),
    }
    env.local_dev = Some("yes".into());
    assert_eq!(
        parse(&strings(&["auth", "link-device"]), &env),
        Err(LOCAL_DEV_INVALID.to_string())
    );
}

#[test]
fn local_development_setting_accepts_only_documented_values() {
    assert_eq!(local_development(&None), Ok(false));
    for off in ["", "0", "false"] {
        assert_eq!(local_development(&Some(off.into())), Ok(false));
    }
    for on in ["1", "true"] {
        assert_eq!(local_development(&Some(on.into())), Ok(true));
    }
    assert_eq!(
        local_development(&Some("TRUE".into())),
        Err(LOCAL_DEV_INVALID.to_string())
    );
}

#[test]
fn git_settings_are_read_only_for_local_device_links() {
    let on = Some("true".to_string());
    assert!(reads_git_settings(&strings(&["auth", "link-device"]), &on));
    assert!(!reads_git_settings(&strings(&["auth", "link-device"]), &None));
    assert!(!reads_git_settings(&strings(&["auth", "link-device"]), &Some("maybe".into())));
    assert!(!reads_git_settings(&strings(&["auth", "login"]), &on));
    assert!(!reads_git_settings(&strings(&["auth"]), &on));
    let mut env = Environment::new();
    env.git_directory = Some("from-git".into());
    assert_eq!(
        parse(&strings(&["auth", "link-device"]), &env),
        parse(&strings(&["auth", "link-device"]), &Environment::new())
    );
}
