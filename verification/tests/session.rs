use infinigit::command::{parse, AuthCommand, Environment};
use infinigit::session::{request_id, Reply, Request, Session};

fn describe(q: &Request) -> String {
    match q {
        Request::Run { tool, args } => format!("run {} {}", tool.program(), args.join(" ")),
        Request::Prompt { tool, args } => format!("prompt {} {}", tool.program(), args.join(" ")),
        Request::Interactive { tool, args } => {
            format!("interactive {} {}", tool.program(), args.join(" "))
        }
        Request::TempDir => "tempdir".to_string(),
        Request::Entropy => "entropy".to_string(),
        Request::Done(Ok(m)) => format!("ok: {m}"),
        Request::Done(Err(e)) => format!("err: {e}"),
    }
}

fn step(s: &mut Session, reply: Reply) -> String {
    assert!(s.accepts(&reply));
    describe(&s.advance(reply))
}

fn text(t: &str) -> Reply {
    Reply::Text(Ok(t.to_string()))
}

fn login(name: &str) -> AuthCommand {
    AuthCommand::Login {
        name: name.into(),
        auth: "https://id.ai".into(),
        app: "https://code.example".into(),
        storage: "keyring".into(),
    }
}

fn link(name: &str, reuse: bool, directory: Option<&str>, network: &str) -> AuthCommand {
    AuthCommand::LinkDevice {
        name: name.into(),
        label: "Work laptop".into(),
        storage: "plaintext".into(),
        read_only: false,
        reuse_existing: reuse,
        directory: directory.map(|d| d.to_string()),
        network: network.into(),
        root_key: "fetch".into(),
    }
}

#[test]
fn login_links_a_web_identity_and_configures_git() {
    let mut s = Session::new(login("browser"));
    assert!(!s.accepts(&text("x")));
    assert_eq!(step(&mut s, Reply::Begin), "run icp identity list -q");
    assert_eq!(
        step(&mut s, text("default\nother")),
        "interactive icp identity link web browser --auth https://id.ai --app https://code.example --storage keyring"
    );
    assert_eq!(step(&mut s, text("")), "run git config --global infinigit.identity browser");
    assert_eq!(step(&mut s, text("")), "run git config --global infinigit.auth-origin https://id.ai");
    assert_eq!(
        step(&mut s, text("")),
        "run git config --global infinigit.app-origin https://code.example"
    );
    assert_eq!(step(&mut s, text("")), "run icp identity principal --identity browser");
    assert_eq!(
        step(&mut s, text("aaaaa-aa")),
        "ok: Signed in to infinigit as aaaaa-aa. Git will use the linked identity 'browser'."
    );
    assert!(s.finished());
    assert!(!s.accepts(&text("")));
}

#[test]
fn login_refuses_to_replace_an_existing_identity() {
    let mut s = Session::new(login("browser"));
    step(&mut s, Reply::Begin);
    assert_eq!(
        step(&mut s, text("default\nbrowser\n")),
        "err: identity 'browser' already exists; use 'infinigit auth reauth --name browser' or log out first"
    );
    assert!(s.finished());
}

#[test]
fn login_stops_at_the_first_failed_run() {
    let mut s = Session::new(login("browser"));
    step(&mut s, Reply::Begin);
    step(&mut s, text(""));
    assert_eq!(
        step(&mut s, Reply::Text(Err("icp authentication failed".into()))),
        "err: icp authentication failed"
    );
}

#[test]
fn status_and_reauth_report_the_principal() {
    let mut s = Session::new(AuthCommand::Status { name: "work".into() });
    assert_eq!(step(&mut s, Reply::Begin), "run icp identity principal --identity work");
    assert_eq!(step(&mut s, text("aaaaa-aa")), "ok: infinigit identity: work\nPrincipal: aaaaa-aa");

    let mut s = Session::new(AuthCommand::Reauth { name: "work".into() });
    assert_eq!(step(&mut s, Reply::Begin), "interactive icp identity reauth work");
    assert_eq!(step(&mut s, text("")), "run git config --global infinigit.identity work");
    assert_eq!(step(&mut s, text("")), "run icp identity principal --identity work");
    assert_eq!(step(&mut s, text("aaaaa-aa")), "ok: infinigit delegation refreshed for aaaaa-aa.");
}

#[test]
fn logout_deletes_only_the_configured_identity() {
    let mut s = Session::new(AuthCommand::Logout { name: "browser".into() });
    assert_eq!(step(&mut s, Reply::Begin), "run git config --global --get infinigit.identity");
    assert_eq!(step(&mut s, text("browser")), "run icp identity delete browser");
    assert_eq!(step(&mut s, text("")), "run git config --global --unset-all infinigit.identity");
    assert_eq!(
        step(&mut s, Reply::Text(Err("nothing to unset".into()))),
        "ok: Removed infinigit identity 'browser' from this device."
    );

    let mut s = Session::new(AuthCommand::Logout { name: "browser".into() });
    step(&mut s, Reply::Begin);
    assert_eq!(
        step(&mut s, text("other")),
        "err: refusing to delete identity 'browser' because it is not the configured infinigit identity"
    );
}

#[test]
fn import_mirrors_the_source_into_the_destination() {
    let mut s = Session::new(AuthCommand::Import {
        source: "https://example.com/a.git".into(),
        destination: "igit://h/alice/a".into(),
    });
    assert_eq!(step(&mut s, Reply::Begin), "tempdir");
    assert_eq!(
        step(&mut s, Reply::Dir(Ok(Some("/tmp/x/repository.git".into())))),
        "interactive git clone --mirror -- https://example.com/a.git /tmp/x/repository.git"
    );
    assert_eq!(
        step(&mut s, text("")),
        "interactive git --git-dir /tmp/x/repository.git push --mirror -- igit://h/alice/a"
    );
    assert_eq!(
        step(&mut s, text("")),
        "ok: Imported every branch and tag from https://example.com/a.git into igit://h/alice/a."
    );

    let mut s = Session::new(AuthCommand::Import { source: "s".into(), destination: "igit://d".into() });
    step(&mut s, Reply::Begin);
    assert_eq!(
        step(&mut s, Reply::Dir(Ok(None))),
        "err: temporary import path is not valid UTF-8"
    );
    let mut s = Session::new(AuthCommand::Import { source: "s".into(), destination: "igit://d".into() });
    step(&mut s, Reply::Begin);
    step(&mut s, Reply::Dir(Ok(Some("/p".into()))));
    assert_eq!(
        step(&mut s, Reply::Text(Err("git authentication failed".into()))),
        "err: source clone failed: git authentication failed"
    );
}

#[test]
fn device_link_creates_a_key_and_a_pairing_request() {
    let mut s = Session::new(link("laptop", false, Some("aaaaa-aa"), "http://127.0.0.1:4943"));
    assert_eq!(step(&mut s, Reply::Begin), "run icp identity list -q");
    assert_eq!(step(&mut s, text("default")), "interactive icp identity new laptop --storage plaintext");
    assert_eq!(step(&mut s, text("")), "entropy");
    let mut bytes = vec![0u8; 32];
    bytes[0] = 0xab;
    bytes[31] = 0x01;
    let digest = format!("ab{}01", "00".repeat(30));
    assert!(s.accepts(&Reply::Bytes(Ok(bytes.clone()))));
    assert_eq!(
        step(&mut s, Reply::Bytes(Ok(bytes))),
        format!("prompt icp canister call aaaaa-aa request_device_link (\"Work laptop\", \"{digest}\", true, true, null) --identity laptop --network http://127.0.0.1:4943 --root-key fetch")
    );
    assert_eq!(
        step(&mut s, text("variant { ok = record { id = 42 : nat } }")),
        "run git config --global infinigit.identity laptop"
    );
    assert_eq!(step(&mut s, text("")), "run git config --global --get infinigit.app-origin");
    assert_eq!(
        step(&mut s, Reply::Text(Err("unset".into()))),
        format!("ok: Device identity created.\n\nOpen https://infinigit.com/#/settings/devices and enter this pairing code:\n42:{digest}\n\nThe request expires in 15 minutes. Git will use 'laptop' after approval.")
    );
}

#[test]
fn device_link_on_the_default_network_passes_its_root_key() {
    let mut s = Session::new(AuthCommand::LinkDevice {
        name: "headless".into(),
        label: "Headless host".into(),
        storage: "plaintext".into(),
        read_only: true,
        reuse_existing: true,
        directory: Some("aaaaa-aa".into()),
        network: "ic".into(),
        root_key: "mainnet".into(),
    });
    step(&mut s, Reply::Begin);
    assert_eq!(step(&mut s, text("headless")), "entropy");
    assert!(!s.accepts(&Reply::Bytes(Ok(vec![0u8; 31]))));
    let q = step(&mut s, Reply::Bytes(Ok(vec![0u8; 32])));
    assert!(q.ends_with("true, false, null) --identity headless --network ic --root-key mainnet"), "{q}");
    assert_eq!(
        step(&mut s, text("no id here")),
        "err: directory returned no device request id"
    );
}

#[test]
fn device_link_refuses_an_existing_identity_or_a_missing_directory() {
    let mut s = Session::new(link("laptop", false, Some("d"), "ic"));
    step(&mut s, Reply::Begin);
    assert_eq!(
        step(&mut s, text("laptop")),
        "err: identity 'laptop' already exists; choose another --name, or add --reuse-existing only if a previous link-device attempt created it"
    );
    let mut s = Session::new(link("laptop", false, None, "ic"));
    assert_eq!(
        step(&mut s, Reply::Begin),
        "err: a directory canister is required; pass --directory <canister-id>"
    );
    let mut s = Session::new(link("laptop", false, Some("d"), "ic"));
    step(&mut s, Reply::Begin);
    step(&mut s, text(""));
    step(&mut s, text(""));
    assert_eq!(
        step(&mut s, Reply::Bytes(Err("no random source".into()))),
        "err: cannot generate pairing code: no random source"
    );
}

#[test]
fn request_ids_are_the_digits_after_the_first_marker() {
    assert_eq!(request_id("variant { ok = record { id = 42 : nat } }"), Some("42".to_string()));
    assert_eq!(request_id("id = 7"), Some("7".to_string()));
    assert_eq!(request_id("id = x; id = 9"), None);
    assert_eq!(request_id("no marker"), None);
    assert_eq!(request_id(""), None);
}

#[test]
fn device_links_without_a_directory_stop_before_running_anything() {
    let args: Vec<String> = ["auth", "link-device", "--name", "mainnet-device"]
        .iter()
        .map(|s| s.to_string())
        .collect();
    let command = parse(&args, &Environment::new()).unwrap();
    let mut s = Session::new(command);
    let q = step(&mut s, Reply::Begin);
    assert!(q.contains("pass --directory"), "{q}");

    let mut env = Environment::new();
    env.directory = Some("aaaaa-aa".into());
    let mut s = Session::new(parse(&args, &env).unwrap());
    assert_eq!(step(&mut s, Reply::Begin), "run icp identity list -q");
}
