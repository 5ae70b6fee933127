//! The canister calls of the secrets commands, their answers, and how
//! vault listings, grants and secret values are shown.
use vstd::prelude::*;
use crate::dotenv::Entry;
use crate::fmt::{decimal, push_decimal};
use crate::process::Tool;
use crate::text::{chars_of, push_str};
use crate::vault::{
    join, labels, permission_labels, GrantSubject, Route, VaultGrant, VaultPermission,
    VaultSecret, VaultSnapshot, VaultSummary,
};

verus! {

/// A canister method and its arguments.
pub enum Payload {
    ResolveRepository { namespace: String, name: String },
    ListVaults { owner: String, storage_id: String },
    GetVault { owner: String, storage_id: String, vault: String },
    CreateVault { owner: String, storage_id: String, vault: String },
    VetkeyPublicKey,
    EncryptedKey {
        owner: String,
        storage_id: String,
        vault: String,
        epoch: u128,
        transport_public_key: Vec<u8>,
    },
    UpdateSecrets {
        owner: String,
        storage_id: String,
        vault: String,
        upserts: Vec<VaultSecret>,
        deletes: Vec<String>,
        revision: u128,
    },
    RotateVault {
        owner: String,
        storage_id: String,
        vault: String,
        epoch: u128,
        replacements: Vec<VaultSecret>,
        revision: u128,
    },
    DeleteVault { owner: String, storage_id: String, vault: String, revision: u128 },
    ListGrants { owner: String, storage_id: String, vault: String },
    ResolveNamespace { username: String },
    SetUserGrant {
        owner: String,
        storage_id: String,
        vault: String,
        user: String,
        permission: VaultPermission,
    },
    RevokeUserGrant { owner: String, storage_id: String, vault: String, user: String },
    GrantTeam {
        organization: String,
        team: String,
        namespace: String,
        name: String,
        vault: String,
        permission: VaultPermission,
    },
    RevokeTeam {
        organization: String,
        team: String,
        namespace: String,
        name: String,
        vault: String,
    },
}

/// A canister's answer, decoded; the inner error is the canister's own.
pub enum Answer {
    Route(Result<Route, String>),
    Summaries(Result<Vec<VaultSummary>, String>),
    Summary(Result<VaultSummary, String>),
    Snapshot(Result<VaultSnapshot, String>),
    Bytes(Result<Vec<u8>, String>),
    Unit(Result<(), String>),
    Grants(Result<Vec<VaultGrant>, String>),
    Owner(Result<String, String>),
}

/// Something the caller must do for a secrets command, or its result.
pub enum SecretsRequest {
    /// Run the program and capture its trimmed standard output.
    Run { tool: Tool, args: Vec<String> },
    /// Call a canister method, as a query or as an update.
    Call { canister: String, query: bool, payload: Payload },
    /// Read all of standard input.
    ReadStdin,
    /// Read a value from the terminal without echo.
    Password { prompt: String },
    /// Read a text file.
    ReadFile { path: String },
    /// Write a file with owner-only permissions, replacing it only when `force`.
    WriteFile { path: String, content: String, force: bool },
    /// Run a program with these extra environment variables and wait for it.
    Spawn { program: String, args: Vec<String>, env: Vec<(String, String)> },
    /// The command is over, with this result.
    Done(Result<String, String>),
}

/// The outcome of the last [`SecretsRequest`].
pub enum SecretsReply {
    Begin,
    /// The outcome of a run or of reading or writing (empty after a write).
    Text(Result<String, String>),
    /// A canister call's answer; the error is that of encoding, calling or decoding.
    Answer(Result<Answer, String>),
    /// Whether a spawned program succeeded, with its exit status as text.
    Exit(Result<(bool, String), String>),
}

pub struct RouteView {
    pub namespace: Seq<char>,
    pub name: Seq<char>,
    pub storage_id: Seq<char>,
    pub owner: Seq<char>,
    pub shard: Seq<char>,
}

pub struct SecretView {
    pub name: Seq<char>,
    pub ciphertext: Seq<u8>,
}

pub struct SnapshotView {
    pub name: Seq<char>,
    pub revision: u128,
    pub epoch: u128,
    pub secrets: Seq<SecretView>,
}

pub struct SummaryView {
    pub name: Seq<char>,
    pub revision: u128,
    pub secret_names: Seq<Seq<char>>,
}

pub enum SubjectView {
    User(Seq<char>),
    Team { organization: Seq<char>, team: Seq<char> },
}

pub struct GrantView {
    pub subject: SubjectView,
    pub permission: VaultPermission,
}

impl View for Route {
    type V = RouteView;

    open spec fn view(&self) -> RouteView {
        RouteView {
            namespace: self.namespace@,
            name: self.name@,
            storage_id: self.storage_id@,
            owner: self.owner@,
            shard: self.shard@,
        }
    }
}

impl View for VaultSecret {
    type V = SecretView;

    open spec fn view(&self) -> SecretView {
        SecretView { name: self.name@, ciphertext: self.ciphertext@ }
    }
}

/// The views of a list of secrets.
pub open spec fn secrets_view(v: Seq<VaultSecret>) -> Seq<SecretView> {
    Seq::new(v.len(), |i: int| v[i]@)
}

impl View for VaultSnapshot {
    type V = SnapshotView;

    open spec fn view(&self) -> SnapshotView {
        SnapshotView {
            name: self.name@,
            revision: self.revision,
            epoch: self.epoch,
            secrets: secrets_view(self.secrets@),
        }
    }
}

impl View for VaultSummary {
    type V = SummaryView;

    open spec fn view(&self) -> SummaryView {
        SummaryView {
            name: self.name@,
            revision: self.revision,
            secret_names: self.secret_names.deep_view(),
        }
    }
}

impl View for VaultGrant {
    type V = GrantView;

    open spec fn view(&self) -> GrantView {
        GrantView {
            subject: match &self.subject {
                GrantSubject::User(u) => SubjectView::User(u@),
                GrantSubject::Team { organization, team } => SubjectView::Team {
                    organization: organization@,
                    team: team@,
                },
            },
            permission: self.permission,
        }
    }
}

pub enum PayloadView {
    ResolveRepository { namespace: Seq<char>, name: Seq<char> },
    ListVaults { owner: Seq<char>, storage_id: Seq<char> },
    GetVault { owner: Seq<char>, storage_id: Seq<char>, vault: Seq<char> },
    CreateVault { owner: Seq<char>, storage_id: Seq<char>, vault: Seq<char> },
    VetkeyPublicKey,
    EncryptedKey {
        owner: Seq<char>,
        storage_id: Seq<char>,
        vault: Seq<char>,
        epoch: u128,
        transport_public_key: Seq<u8>,
    },
    UpdateSecrets {
        owner: Seq<char>,
        storage_id: Seq<char>,
        vault: Seq<char>,
        upserts: Seq<SecretView>,
        deletes: Seq<Seq<char>>,
        revision: u128,
    },
    RotateVault {
        owner: Seq<char>,
        storage_id: Seq<char>,
        vault: Seq<char>,
        epoch: u128,
        replacements: Seq<SecretView>,
        revision: u128,
    },
    DeleteVault { owner: Seq<char>, storage_id: Seq<char>, vault: Seq<char>, revision: u128 },
    ListGrants { owner: Seq<char>, storage_id: Seq<char>, vault: Seq<char> },
    ResolveNamespace { username: Seq<char> },
    SetUserGrant {
        owner: Seq<char>,
        storage_id: Seq<char>,
        vault: Seq<char>,
        user: Seq<char>,
        permission: VaultPermission,
    },
    RevokeUserGrant { owner: Seq<char>, storage_id: Seq<char>, vault: Seq<char>, user: Seq<char> },
    GrantTeam {
        organization: Seq<char>,
        team: Seq<char>,
        namespace: Seq<char>,
        name: Seq<char>,
        vault: Seq<char>,
        permission: VaultPermission,
    },
    RevokeTeam {
        organization: Seq<char>,
        team: Seq<char>,
        namespace: Seq<char>,
        name: Seq<char>,
        vault: Seq<char>,
    },
}

impl View for Payload {
    type V = PayloadView;

    open spec fn view(&self) -> PayloadView {
        match self {
            Payload::ResolveRepository { namespace, name } => PayloadView::ResolveRepository {
                namespace: namespace@,
                name: name@,
            },
            Payload::ListVaults { owner, storage_id } => PayloadView::ListVaults {
                owner: owner@,
                storage_id: storage_id@,
            },
            Payload::GetVault { owner, storage_id, vault } => PayloadView::GetVault {
                owner: owner@,
                storage_id: storage_id@,
                vault: vault@,
            },
            Payload::CreateVault { owner, storage_id, vault } => PayloadView::CreateVault {
                owner: owner@,
                storage_id: storage_id@,
                vault: vault@,
            },
            Payload::VetkeyPublicKey => PayloadView::VetkeyPublicKey,
            Payload::EncryptedKey { owner, storage_id, vault, epoch, transport_public_key } =>
            PayloadView::EncryptedKey {
                owner: owner@,
                storage_id: storage_id@,
                vault: vault@,
                epoch: *epoch,
                transport_public_key: transport_public_key@,
            },
            Payload::UpdateSecrets { owner, storage_id, vault, upserts, deletes, revision } =>
            PayloadView::UpdateSecrets {
                owner: owner@,
                storage_id: storage_id@,
                vault: vault@,
                upserts: secrets_view(upserts@),
                deletes: deletes.deep_view(),
                revision: *revision,
            },
            Payload::RotateVault { owner, storage_id, vault, epoch, replacements, revision } =>
            PayloadView::RotateVault {
                owner: owner@,
                storage_id: storage_id@,
                vault: vault@,
                epoch: *epoch,
                replacements: secrets_view(replacements@),
                revision: *revision,
            },
            Payload::DeleteVault { owner, storage_id, vault, revision } =>
            PayloadView::DeleteVault {
                owner: owner@,
                storage_id: storage_id@,
                vault: vault@,
                revision: *revision,
            },
            Payload::ListGrants { owner, storage_id, vault } => PayloadView::ListGrants {
                owner: owner@,
                storage_id: storage_id@,
                vault: vault@,
            },
            Payload::ResolveNamespace { username } => PayloadView::ResolveNamespace {
                username: username@,
            },
            Payload::SetUserGrant { owner, storage_id, vault, user, permission } =>
            PayloadView::SetUserGrant {
                owner: owner@,
                storage_id: storage_id@,
                vault: vault@,
                user: user@,
                permission: *permission,
            },
            Payload::RevokeUserGrant { owner, storage_id, vault, user } =>
            PayloadView::RevokeUserGrant {
                owner: owner@,
                storage_id: storage_id@,
                vault: vault@,
                user: user@,
            },
            Payload::GrantTeam { organization, team, namespace, name, vault, permission } =>
            PayloadView::GrantTeam {
                organization: organization@,
                team: team@,
                namespace: namespace@,
                name: name@,
                vault: vault@,
                permission: *permission,
            },
            Payload::RevokeTeam { organization, team, namespace, name, vault } =>
            PayloadView::RevokeTeam {
                organization: organization@,
                team: team@,
                namespace: namespace@,
                name: name@,
                vault: vault@,
            },
        }
    }
}

/// The name of the canister method that a payload calls.
pub open spec fn method_name(p: PayloadView) -> Seq<char> {
    match p {
        PayloadView::ResolveRepository { .. } => "resolve_repository"@,
        PayloadView::ListVaults { .. } => "list_vaults"@,
        PayloadView::GetVault { .. } => "get_vault"@,
        PayloadView::CreateVault { .. } => "create_vault"@,
        PayloadView::VetkeyPublicKey => "vault_vetkey_public_key"@,
        PayloadView::EncryptedKey { .. } => "vault_encrypted_key"@,
        PayloadView::UpdateSecrets { .. } => "update_vault_secrets"@,
        PayloadView::RotateVault { .. } => "rotate_vault"@,
        PayloadView::DeleteVault { .. } => "delete_vault"@,
        PayloadView::ListGrants { .. } => "list_vault_grants"@,
        PayloadView::ResolveNamespace { .. } => "resolve_namespace"@,
        PayloadView::SetUserGrant { .. } => "set_vault_user_grant"@,
        PayloadView::RevokeUserGrant { .. } => "revoke_vault_user_grant"@,
        PayloadView::GrantTeam { .. } => "grant_vault_team"@,
        PayloadView::RevokeTeam { .. } => "revoke_vault_team"@,
    }
}

impl Payload {
    /// The name of the canister method that this payload calls.
    pub fn method(&self) -> (r: &'static str)
        ensures
            r@ == method_name(self@),
    {
        match self {
            Payload::ResolveRepository { .. } => "resolve_repository",
            Payload::ListVaults { .. } => "list_vaults",
            Payload::GetVault { .. } => "get_vault",
            Payload::CreateVault { .. } => "create_vault",
            Payload::VetkeyPublicKey => "vault_vetkey_public_key",
            Payload::EncryptedKey { .. } => "vault_encrypted_key",
            Payload::UpdateSecrets { .. } => "update_vault_secrets",
            Payload::RotateVault { .. } => "rotate_vault",
            Payload::DeleteVault { .. } => "delete_vault",
            Payload::ListGrants { .. } => "list_vault_grants",
            Payload::ResolveNamespace { .. } => "resolve_namespace",
            Payload::SetUserGrant { .. } => "set_vault_user_grant",
            Payload::RevokeUserGrant { .. } => "revoke_vault_user_grant",
            Payload::GrantTeam { .. } => "grant_vault_team",
            Payload::RevokeTeam { .. } => "revoke_vault_team",
        }
    }
}

/// How a grant is listed: its subject, a tab, and its permission labels.
pub open spec fn grant_line(g: GrantView) -> Seq<char> {
    subject_text(g.subject) + seq!['\t'] + join(labels(g.permission), ","@)
}

/// A grant's subject: the user's principal, or `organization/team`.
pub open spec fn subject_text(s: SubjectView) -> Seq<char> {
    match s {
        SubjectView::User(u) => u,
        SubjectView::Team { organization, team } => organization + seq!['/'] + team,
    }
}

/// How a vault is listed: name, number of secrets and revision.
pub open spec fn summary_line(s: SummaryView) -> Seq<char> {
    s.name + seq!['\t'] + decimal(s.secret_names.len()) + " secrets\trevision "@ + decimal(
        s.revision as nat,
    )
}

/// `s` without one final `\n`, and then without one final `\r` before it.
pub open spec fn strip_newline(s: Seq<char>) -> Seq<char> {
    if s.len() > 0 && s.last() == '\n' {
        let t = s.drop_last();
        if t.len() > 0 && t.last() == '\r' {
            t.drop_last()
        } else {
            t
        }
    } else {
        s
    }
}

/// The keys of `secrets` that `values` does not set, in order.
pub open spec fn stale_names(secrets: Seq<SecretView>, values: Seq<Entry>) -> Seq<Seq<char>>
    decreases secrets.len(),
{
    if secrets.len() == 0 {
        seq![]
    } else {
        let rest = stale_names(secrets.drop_last(), values);
        if crate::dotenv::has_key(values, secrets.last().name) {
            rest
        } else {
            rest.push(secrets.last().name)
        }
    }
}

proof fn lemma_join_push(parts: Seq<Seq<char>>, x: Seq<char>, sep: Seq<char>)
    ensures
        join(parts.push(x), sep) == if parts.len() == 0 {
            x
        } else {
            join(parts, sep) + sep + x
        },
{
    assert(parts.push(x).drop_last() == parts);
}

/// The grants, one line each.
pub fn grant_lines(grants: &Vec<VaultGrant>) -> (r: String)
    ensures
        r@ == join(Seq::new(grants@.len(), |i: int| grant_line(grants@[i]@)), "\n"@),
{
    let ghost parts = Seq::new(grants@.len(), |i: int| grant_line(grants@[i]@));
    let mut r = String::new();
    let mut i: usize = 0;
    while i < grants.len()
        invariant
            i <= grants.len(),
            parts == Seq::new(grants@.len(), |i: int| grant_line(grants@[i]@)),
            r@ == join(parts.take(i as int), "\n"@),
        decreases grants.len() - i,
    {
        let g = &grants[i];
        let ghost before = r@;
        if i > 0 {
            r.push('\n');
        }
        match &g.subject {
            GrantSubject::User(u) => push_str(&mut r, u.as_str()),
            GrantSubject::Team { organization, team } => {
                push_str(&mut r, organization.as_str());
                r.push('/');
                push_str(&mut r, team.as_str());
            },
        }
        r.push('\t');
        let l = permission_labels(&g.permission);
        push_str(&mut r, l.as_str());
        proof {
            lemma_join_push(parts.take(i as int), parts[i as int], "\n"@);
            assert(parts.take(i + 1) == parts.take(i as int).push(parts[i as int]));
            if i == 0 {
                assert(r@ =~= parts[i as int]);
            } else {
                assert(r@ =~= before + "\n"@ + parts[i as int]) by {
                    reveal_strlit("\n");
                }
            }
        }
        i = i + 1;
    }
    assert(parts.take(grants.len() as int) == parts);
    r
}

/// The vault summaries, one line each.
pub fn summary_lines(summaries: &Vec<VaultSummary>) -> (r: String)
    ensures
        r@ == join(Seq::new(summaries@.len(), |i: int| summary_line(summaries@[i]@)), "\n"@),
{
    let ghost parts = Seq::new(summaries@.len(), |i: int| summary_line(summaries@[i]@));
    let mut r = String::new();
    let mut i: usize = 0;
    while i < summaries.len()
        invariant
            i <= summaries.len(),
            parts == Seq::new(summaries@.len(), |i: int| summary_line(summaries@[i]@)),
            r@ == join(parts.take(i as int), "\n"@),
        decreases summaries.len() - i,
    {
        let v = &summaries[i];
        let ghost before = r@;
        if i > 0 {
            r.push('\n');
        }
        let ghost mark = r@;
        push_str(&mut r, v.name.as_str());
        r.push('\t');
        push_decimal(&mut r, v.secret_names.len() as u128);
        push_str(&mut r, " secrets\trevision ");
        push_decimal(&mut r, v.revision);
        proof {
            assert(v.secret_names.deep_view().len() == v.secret_names@.len());
            lemma_join_push(parts.take(i as int), parts[i as int], "\n"@);
            assert(parts.take(i + 1) == parts.take(i as int).push(parts[i as int]));
            assert(r@ =~= mark + parts[i as int]);
            if i == 0 {
                assert(r@ =~= parts[i as int]);
            } else {
                assert(r@ =~= before + "\n"@ + parts[i as int]) by {
                    reveal_strlit("\n");
                }
            }
        }
        i = i + 1;
    }
    assert(parts.take(summaries.len() as int) == parts);
    r
}

/// The keys of a vault's secrets, one per line.
pub fn secret_name_lines(vault: &VaultSnapshot) -> (r: String)
    ensures
        r@ == join(Seq::new(vault.secrets@.len(), |i: int| vault.secrets@[i].name@), "\n"@),
{
    let ghost parts = Seq::new(vault.secrets@.len(), |i: int| vault.secrets@[i].name@);
    let mut r = String::new();
    let mut i: usize = 0;
    while i < vault.secrets.len()
        invariant
            i <= vault.secrets.len(),
            parts == Seq::new(vault.secrets@.len(), |i: int| vault.secrets@[i].name@),
            r@ == join(parts.take(i as int), "\n"@),
        decreases vault.secrets.len() - i,
    {
        let ghost before = r@;
        if i > 0 {
            r.push('\n');
        }
        push_str(&mut r, vault.secrets[i].name.as_str());
        proof {
            lemma_join_push(parts.take(i as int), parts[i as int], "\n"@);
            assert(parts.take(i + 1) == parts.take(i as int).push(parts[i as int]));
            if i == 0 {
                assert(r@ =~= parts[i as int]);
            } else {
                assert(r@ =~= before + "\n"@ + parts[i as int]) by {
                    reveal_strlit("\n");
                }
            }
        }
        i = i + 1;
    }
    assert(parts.take(vault.secrets.len() as int) == parts);
    r
}

/// A value read from standard input, without its final line ending.
pub fn without_newline(s: String) -> (r: String)
    ensures
        r@ == strip_newline(s@),
{
    let cs = chars_of(s.as_str());
    let mut end = cs.len();
    if end > 0 && cs[end - 1] == '\n' {
        end = end - 1;
        assert(cs@.drop_last() == cs@.subrange(0, end as int));
        if end > 0 && cs[end - 1] == '\r' {
            end = end - 1;
            assert(cs@.drop_last().drop_last() =~= cs@.subrange(0, end as int));
        }
    } else {
        assert(cs@.subrange(0, cs@.len() as int) == cs@);
    }
    crate::text::string_of_range(cs.as_slice(), 0, end)
}

/// The keys of the vault's secrets that `values` does not set, in order.
pub fn stale_secrets(vault: &VaultSnapshot, values: &Vec<(String, String)>) -> (r: Vec<String>)
    ensures
        r.deep_view() == stale_names(secrets_view(vault.secrets@), values.deep_view()),
{
    let ghost all = secrets_view(vault.secrets@);
    let mut r: Vec<String> = Vec::new();
    let mut i: usize = 0;
    assert(all.take(0) =~= Seq::<SecretView>::empty());
    while i < vault.secrets.len()
        invariant
            i <= vault.secrets.len(),
            all == secrets_view(vault.secrets@),
            r.deep_view() == stale_names(all.take(i as int), values.deep_view()),
        decreases vault.secrets.len() - i,
    {
        let name = &vault.secrets[i].name;
        let cs = chars_of(name.as_str());
        let taken = has_entry(values, &cs);
        proof {
            assert(all.take(i + 1).drop_last() == all.take(i as int));
            assert(all.take(i + 1).last() == vault.secrets@[i as int]@);
        }
        if !taken {
            let ghost before = r.deep_view();
            r.push(name.clone());
            assert(r.deep_view() =~= before.push(name@));
        }
        i = i + 1;
    }
    assert(all.take(vault.secrets.len() as int) == all);
    r
}

/// Whether some entry of `values` has the key `name`.
fn has_entry(values: &Vec<(String, String)>, name: &Vec<char>) -> (r: bool)
    ensures
        r == crate::dotenv::has_key(values.deep_view(), name@),
{
    let mut i: usize = 0;
    while i < values.len()
        invariant
            i <= values.len(),
            forall|j: int| 0 <= j < i ==> (#[trigger] values.deep_view()[j]).0 != name@,
        decreases values.len() - i,
    {
        let k = chars_of(values[i].0.as_str());
        assert(values.deep_view()[i as int].0 == values@[i as int].0@);
        if crate::text::range_eq(k.as_slice(), 0, k.len(), name.as_slice()) {
            assert(k@.subrange(0, k@.len() as int) == k@);
            return true;
        }
        assert(k@.subrange(0, k@.len() as int) == k@);
        i = i + 1;
    }
    false
}

} // verus!
