use infinigit::secrets::{
    grant_lines, secret_name_lines, stale_secrets, summary_lines, without_newline, Answer,
    Payload, SecretsReply, SecretsRequest,
};
use infinigit::vault::{
    GrantSubject, Route, VaultGrant, VaultPermission, VaultSecret, VaultSnapshot, VaultSummary,
};
use infinigit::vault_session::{SecretsSession, KEY_RULES};

fn strings(items: &[&str]) -> Vec<String> {
    items.iter().map(|s| s.to_string()).collect()
}

fn describe(q: &SecretsRequest) -> String {
    match q {
        SecretsRequest::Run { tool, args } => format!("run {} {}", tool.program(), args.join(" ")),
        SecretsRequest::Call { canister, query, payload } => {
            let detail = match payload {
                Payload::ResolveRepository { namespace, name } => format!("{namespace}/{name}"),
                Payload::ListVaults { owner, storage_id } => format!("{owner} {storage_id}"),
                Payload::GetVault { vault, .. } => vault.clone(),
                Payload::CreateVault { vault, .. } => vault.clone(),
                Payload::VetkeyPublicKey => String::new(),
                Payload::EncryptedKey { vault, epoch, transport_public_key, .. } => {
                    format!("{vault} {epoch} {}", transport_public_key.len())
                }
                Payload::UpdateSecrets { vault, upserts, deletes, revision, .. } => format!(
                    "{vault} {} [{}] {revision}",
                    upserts.iter().map(|s| s.name.clone()).collect::<Vec<_>>().join(","),
                    deletes.join(",")
                ),
                Payload::RotateVault { vault, epoch, revision, .. } => {
                    format!("{vault} {epoch} {revision}")
                }
                Payload::DeleteVault { vault, revision, .. } => format!("{vault} {revision}"),
                Payload::ListGrants { vault, .. } => vault.clone(),
                Payload::ResolveNamespace { username } => username.clone(),
                Payload::SetUserGrant { vault, user, permission, .. } => format!(
                    "{vault} {user} {}",
                    infinigit::vault::permission_labels(permission)
                ),
                Payload::RevokeUserGrant { vault, user, .. } => format!("{vault} {user}"),
                Payload::GrantTeam { organization, team, namespace, name, vault, .. } => {
                    format!("{organization}/{team} {namespace}/{name} {vault}")
                }
                Payload::RevokeTeam { organization, team, namespace, name, vault } => {
                    format!("{organization}/{team} {namespace}/{name} {vault}")
                }
            };
            let kind = if *query { "query" } else { "update" };
            format!("{kind} {canister} {} {detail}", payload.method())
        }
        SecretsRequest::ReadStdin => "stdin".to_string(),
        SecretsRequest::Password { prompt } => format!("password {prompt}"),
        SecretsRequest::ReadFile { path } => format!("read {path}"),
        SecretsRequest::WriteFile { path, content, force } => format!("write {path} {force} {content}"),
        SecretsRequest::Spawn { program, args, .. } => format!("spawn {program} {}", args.join(" ")),
        SecretsRequest::Done(Ok(m)) => format!("ok: {m}"),
        SecretsRequest::Done(Err(e)) => format!("err: {e}"),
    }
}

fn step(s: &mut SecretsSession, reply: SecretsReply) -> String {
    assert!(s.accepts(&reply), "reply not expected");
    describe(&s.advance(reply))
}

fn route() -> Route {
    Route {
        namespace: "alice".into(),
        name: "project".into(),
        storage_id: "storage-1".into(),
        owner: "owner-principal".into(),
        shard: "shard-canister".into(),
    }
}

fn answer(a: Answer) -> SecretsReply {
    SecretsReply::Answer(Ok(a))
}

fn snapshot(name: &str, revision: u128, epoch: u128, keys: &[&str]) -> VaultSnapshot {
    VaultSnapshot {
        name: name.into(),
        revision,
        epoch,
        secrets: keys
            .iter()
            .map(|k| VaultSecret { name: k.to_string(), ciphertext: vec![0u8; 40] })
            .collect(),
    }
}

/// A session for `args` and `--repo` that has resolved its repository.
fn resolved(args: &[&str]) -> (SecretsSession, String) {
    let mut all = strings(args);
    all.push("--repo".into());
    all.push("igit://infinigit.com/alice/project".into());
    resolved_with(all)
}

/// A session for `args` that has resolved the repository of its `origin` remote.
fn resolved_by_origin(args: &[&str]) -> (SecretsSession, String) {
    let mut s = SecretsSession::new(strings(args), Some("dir".into()));
    assert_eq!(step(&mut s, SecretsReply::Begin), "run git remote get-url origin");
    assert_eq!(
        step(&mut s, SecretsReply::Text(Ok("igit://h/alice/project".into()))),
        "query dir resolve_repository alice/project"
    );
    let next = step(&mut s, answer(Answer::Route(Ok(route()))));
    (s, next)
}

fn resolved_with(all: Vec<String>) -> (SecretsSession, String) {
    let mut s = SecretsSession::new(all, Some("directory-canister".into()));
    assert_eq!(
        step(&mut s, SecretsReply::Begin),
        "query directory-canister resolve_repository alice/project"
    );
    let next = step(&mut s, answer(Answer::Route(Ok(route()))));
    (s, next)
}

#[test]
fn listing_vaults_shows_names_counts_and_revisions() {
    let (mut s, q) = resolved(&["vaults"]);
    assert_eq!(q, "query shard-canister list_vaults owner-principal storage-1");
    let vaults = vec![
        VaultSummary { name: "prod".into(), revision: 7, secret_names: strings(&["A", "B"]) },
        VaultSummary { name: "dev".into(), revision: 0, secret_names: vec![] },
    ];
    assert_eq!(
        step(&mut s, answer(Answer::Summaries(Ok(vaults)))),
        "ok: prod\t2 secrets\trevision 7\ndev\t0 secrets\trevision 0"
    );
    assert!(s.finished());
}

#[test]
fn the_repository_comes_from_the_origin_remote_and_git_configuration() {
    let mut s = SecretsSession::new(strings(&["vaults"]), None);
    assert_eq!(step(&mut s, SecretsReply::Begin), "run git remote get-url origin");
    assert_eq!(
        step(&mut s, SecretsReply::Text(Ok("igit://h/bob/tools".into()))),
        "run git config --global --get infinigit.directory-canister"
    );
    assert_eq!(
        step(&mut s, SecretsReply::Text(Err("unset".into()))),
        "query vc3gg-2qaaa-aaaae-qklda-cai resolve_repository bob/tools"
    );
    assert_eq!(
        step(&mut s, answer(Answer::Route(Err("no such repository".into())))),
        "err: repository not found"
    );

    let mut s = SecretsSession::new(strings(&["vaults"]), None);
    step(&mut s, SecretsReply::Begin);
    assert_eq!(
        step(&mut s, SecretsReply::Text(Err("not a git repository".into()))),
        "err: not in an infinigit checkout; pass --repo igit://host/namespace/repository"
    );
    let mut s = SecretsSession::new(vec![], None);
    assert_eq!(step(&mut s, SecretsReply::Begin), "err: missing secrets command");
}

#[test]
fn creating_a_vault_reports_its_name() {
    let (mut s, q) = resolved(&["create", "prod"]);
    assert_eq!(q, "update shard-canister create_vault prod");
    let created = VaultSummary { name: "prod".into(), revision: 0, secret_names: vec![] };
    assert_eq!(step(&mut s, answer(Answer::Summary(Ok(created)))), "ok: Created vault 'prod'.");
    let (mut s, _) = resolved(&["create", "prod"]);
    assert_eq!(
        step(&mut s, answer(Answer::Summary(Err("vault exists".into())))),
        "err: vault exists"
    );
}

#[test]
fn listing_a_vault_shows_its_keys() {
    let (mut s, q) = resolved(&["list", "prod"]);
    assert_eq!(q, "query shard-canister get_vault prod");
    assert_eq!(
        step(&mut s, answer(Answer::Snapshot(Ok(snapshot("prod", 3, 1, &["A", "B"]))))),
        "ok: A\nB"
    );
    let (mut s, _) = resolved(&["list", "prod"]);
    assert_eq!(step(&mut s, SecretsReply::Answer(Err("icp failed".into()))), "err: icp failed");
}

#[test]
fn deleting_a_vault_needs_confirmation() {
    let (_, q) = resolved(&["delete", "prod"]);
    assert_eq!(q, "err: refusing to delete a vault without --yes");
    let (mut s, q) = resolved(&["delete", "prod", "--yes"]);
    assert_eq!(q, "query shard-canister get_vault prod");
    assert_eq!(
        step(&mut s, answer(Answer::Snapshot(Ok(snapshot("prod", 9, 2, &[]))))),
        "update shard-canister delete_vault prod 9"
    );
    assert_eq!(step(&mut s, answer(Answer::Unit(Ok(())))), "ok: Deleted vault 'prod'.");
}

#[test]
fn unsetting_a_key_updates_the_vault_at_its_revision() {
    let (mut s, q) = resolved(&["unset", "prod", "OLD_KEY"]);
    assert_eq!(q, "query shard-canister get_vault prod");
    assert_eq!(
        step(&mut s, answer(Answer::Snapshot(Ok(snapshot("prod", 4, 2, &["OLD_KEY"]))))),
        "update shard-canister update_vault_secrets prod  [OLD_KEY] 4"
    );
    assert_eq!(
        step(&mut s, answer(Answer::Snapshot(Ok(snapshot("prod", 5, 2, &[]))))),
        "ok: Deleted OLD_KEY from prod at revision 5."
    );
}

#[test]
fn setting_a_key_checks_it_and_asks_for_the_vault_key() {
    let (_, q) = resolved(&["set", "prod", "lower"]);
    assert_eq!(q, format!("err: {KEY_RULES}"));
    let (_, q) = resolved(&["set", "prod", "TOKEN"]);
    assert_eq!(q, "password Value for TOKEN: ");
    let (mut s, q) = resolved(&["set", "prod", "TOKEN", "--stdin"]);
    assert_eq!(q, "stdin");
    assert_eq!(
        step(&mut s, SecretsReply::Text(Ok("value\r\n".into()))),
        "query shard-canister get_vault prod"
    );
    assert_eq!(
        step(&mut s, answer(Answer::Snapshot(Ok(snapshot("prod", 4, 12, &[]))))),
        "update shard-canister vault_vetkey_public_key "
    );
    assert_eq!(
        step(&mut s, answer(Answer::Bytes(Ok(vec![1u8; 96])))),
        "update shard-canister vault_encrypted_key prod 12 48"
    );
    assert_eq!(
        step(&mut s, answer(Answer::Bytes(Ok(vec![1u8; 10])))),
        "err: invalid encrypted vault key"
    );
}

#[test]
fn publishing_a_dotenv_file_reads_and_checks_it_first() {
    let (mut s, q) = resolved(&["put", "prod", "--from-dotenv", ".env"]);
    assert_eq!(q, "read .env");
    assert_eq!(
        step(&mut s, SecretsReply::Text(Ok("A=1\nA=2".into()))),
        "err: invalid or duplicate secret key A"
    );
    let (mut s, _) = resolved(&["put", "prod", "--from-dotenv", ".env"]);
    assert_eq!(
        step(&mut s, SecretsReply::Text(Err("No such file".into()))),
        "err: cannot read .env: No such file"
    );
    let (_, q) = resolved(&["put", "prod"]);
    assert_eq!(q, "err: --from-dotenv <file> is required");
    let (_, q) = resolved_with(strings(&[
        "put",
        "prod",
        "--repo",
        "igit://infinigit.com/alice/project",
        "--from-dotenv",
    ]));
    assert_eq!(q, "err: --from-dotenv requires a file");
}

#[test]
fn commands_check_their_arguments_after_resolving_the_repository() {
    assert_eq!(resolved(&["run", "prod"]).1, "err: separate the command with --");
    let run = strings(&["run", "prod", "--repo", "igit://infinigit.com/alice/project", "--"]);
    assert_eq!(resolved_with(run).1, "err: missing command");
    assert_eq!(resolved(&["pull", "prod"]).1, "query shard-canister get_vault prod");
    assert_eq!(resolved(&["rotate", "prod"]).1, "query shard-canister get_vault prod");
    assert_eq!(
        resolved(&["frobnicate"]).1,
        "err: usage: infinigit secrets <vaults|create|list|set|unset|put|pull|run|delete|access>"
    );
    assert_eq!(resolved_by_origin(&["access", "list"]).1, "err: vault name is required");
    assert_eq!(resolved_by_origin(&["access"]).1, format!("err: {}", infinigit::vault_session::ACCESS_USAGE));
    assert_eq!(resolved_by_origin(&["access", "grant-user", "prod"]).1, "err: username is required");
}

#[test]
fn access_grants_are_listed_and_changed() {
    let (mut s, q) = resolved(&["access", "list", "prod"]);
    assert_eq!(q, "query shard-canister list_vault_grants prod");
    let read = VaultPermission {
        read: true,
        write: false,
        delete_secret: false,
        delete_vault: false,
        manage_permissions: false,
    };
    let grants = vec![
        VaultGrant { subject: GrantSubject::User("user-principal".into()), permission: read },
        VaultGrant {
            subject: GrantSubject::Team { organization: "acme".into(), team: "ops".into() },
            permission: VaultPermission { write: true, ..read },
        },
    ];
    assert_eq!(
        step(&mut s, answer(Answer::Grants(Ok(grants)))),
        "ok: user-principal\tread\nacme/ops\tread,write"
    );

    let (mut s, q) = resolved(&["access", "grant-user", "prod", "bob", "--write"]);
    assert_eq!(q, "query directory-canister resolve_namespace bob");
    assert_eq!(
        step(&mut s, answer(Answer::Owner(Ok("bob-principal".into())))),
        "update shard-canister set_vault_user_grant prod bob-principal read,write"
    );
    assert_eq!(step(&mut s, answer(Answer::Unit(Ok(())))), "ok: Saved prod access for bob.");

    let (mut s, _) = resolved(&["access", "grant-user", "prod", "bob"]);
    assert_eq!(
        step(&mut s, answer(Answer::Owner(Ok("bob-principal".into())))),
        format!("err: {}", infinigit::vault::PERMISSION_REQUIRED)
    );

    let (mut s, q) = resolved(&["access", "revoke-team", "prod", "acme", "ops"]);
    assert_eq!(q, "update directory-canister revoke_vault_team acme/ops alice/project prod");
    assert_eq!(step(&mut s, answer(Answer::Unit(Ok(())))), "ok: Revoked prod access from acme/ops.");
    assert_eq!(resolved_by_origin(&["access", "grant-team", "prod", "acme"]).1, "err: team is required");
    assert_eq!(
        resolved_by_origin(&["access", "grant-team", "prod"]).1,
        "err: organization is required"
    );
}

#[test]
fn listings_are_joined_by_newlines() {
    assert_eq!(grant_lines(&vec![]), "");
    assert_eq!(summary_lines(&vec![]), "");
    assert_eq!(secret_name_lines(&snapshot("v", 0, 0, &["ONE"])), "ONE");
    assert_eq!(without_newline("v\r\n".into()), "v");
    assert_eq!(without_newline("v\n\n".into()), "v\n");
    assert_eq!(without_newline("v\r".into()), "v\r");
}

#[test]
fn publishing_deletes_only_keys_the_file_drops() {
    let vault = snapshot("prod", 1, 1, &["KEEP", "DROP", "ALSO_DROP"]);
    let values = vec![("KEEP".to_string(), "1".to_string()), ("NEW".to_string(), "2".to_string())];
    assert_eq!(stale_secrets(&vault, &values), strings(&["DROP", "ALSO_DROP"]));
    assert_eq!(stale_secrets(&vault, &vec![]), strings(&["KEEP", "DROP", "ALSO_DROP"]));
}
