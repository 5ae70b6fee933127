//! Carrying out a `secrets` command: finding the repository's vaults, the
//! canister calls, the vault key, and encrypting or decrypting secrets. The
//! caller performs each [`SecretsRequest`] and hands its outcome back as a
//! [`SecretsReply`].
use vstd::prelude::*;
use crate::args::{first_index, has_flag, position, text_result, value};
use crate::command::{copy_option, DEFAULT_DIRECTORY, SECRETS_USAGE};
use crate::dotenv::{dotenv_entries, parse_dotenv, pulled_text, render_values, Entry};
use crate::fmt::{decimal, push_decimal};
use crate::names::{is_secret_name, valid_secret_name};
use crate::process::{config, config_args, config_value, Tool};
use crate::secrets::{
    grant_line, grant_lines, secret_name_lines, secrets_view, stale_names, stale_secrets,
    strip_newline, summary_line, summary_lines, without_newline, Answer, GrantView, Payload,
    PayloadView, RouteView, SecretView, SecretsReply, SecretsRequest, SnapshotView, SummaryView,
};
use crate::text::{concat, push_str, same, trim_end};
use crate::vault::{
    join, permission_of, repository_arg, repository_spec, requested_permission, key_input,
    key_input_text,
    Route, VaultGrant, VaultSecret, VaultSnapshot, VaultSummary, PERMISSION_REQUIRED,
};
use crate::vetkeys::{
    decrypt_vault, encrypt_values, key_failure, new_transport, opened_all, random_epoch, sealable,
    sealed, transport_public, transport_public_key, utf8_of, vault_key, verified_vetkey,
    SECRET_TOO_LARGE,
};

verus! {

pub const ACCESS_USAGE: &'static str =
    "usage: infinigit secrets access <list|grant-user|revoke-user|grant-team|revoke-team> <vault>";

pub const CREATE_USAGE: &'static str = "usage: infinigit secrets create <vault>";

pub const LIST_USAGE: &'static str = "usage: infinigit secrets list <vault>";

pub const SET_USAGE: &'static str = "usage: infinigit secrets set <vault> <KEY> [--stdin]";

pub const UNSET_USAGE: &'static str = "usage: infinigit secrets unset <vault> <KEY>";

pub const PUT_USAGE: &'static str = "usage: infinigit secrets put <vault> --from-dotenv <file>";

pub const PULL_USAGE: &'static str =
    "usage: infinigit secrets pull <vault> --format <dotenv|shell> [--output file]";

pub const RUN_USAGE: &'static str = "usage: infinigit secrets run <vault> -- <command>";

pub const ROTATE_USAGE: &'static str = "usage: infinigit secrets rotate <vault>";

pub const DELETE_USAGE: &'static str = "usage: infinigit secrets delete <vault> --yes";

pub const KEY_RULES: &'static str =
    "secret keys must use uppercase letters, digits, and underscores";

/// The step after which a secrets session has finished.
pub const DONE: u32 = 200;

pub enum AnswerView {
    Route(Result<RouteView, Seq<char>>),
    Summaries(Result<Seq<SummaryView>, Seq<char>>),
    Summary(Result<SummaryView, Seq<char>>),
    Snapshot(Result<SnapshotView, Seq<char>>),
    Bytes(Result<Seq<u8>, Seq<char>>),
    Unit(Result<(), Seq<char>>),
    Grants(Result<Seq<GrantView>, Seq<char>>),
    Owner(Result<Seq<char>, Seq<char>>),
}

pub enum ReplyView {
    Begin,
    Text(Result<Seq<char>, Seq<char>>),
    Answer(Result<AnswerView, Seq<char>>),
    Exit(Result<(bool, Seq<char>), Seq<char>>),
}

pub enum RequestView {
    Run { tool: Tool, args: Seq<Seq<char>> },
    Call { canister: Seq<char>, query: bool, payload: PayloadView },
    ReadStdin,
    Password { prompt: Seq<char> },
    ReadFile { path: Seq<char> },
    WriteFile { path: Seq<char>, content: Seq<char>, force: bool },
    Spawn { program: Seq<char>, args: Seq<Seq<char>>, env: Seq<Entry> },
    Done(Result<Seq<char>, Seq<char>>),
}

pub open spec fn inner<T, V>(r: Result<T, String>, f: spec_fn(T) -> V) -> Result<V, Seq<char>> {
    match r {
        Ok(v) => Ok(f(v)),
        Err(e) => Err(e@),
    }
}

impl View for Answer {
    type V = AnswerView;

    open spec fn view(&self) -> AnswerView {
        match self {
            Answer::Route(r) => AnswerView::Route(inner(*r, |v: Route| v@)),
            Answer::Summaries(r) => AnswerView::Summaries(
                inner(*r, |v: Vec<VaultSummary>| Seq::new(v@.len(), |i: int| v@[i]@)),
            ),
            Answer::Summary(r) => AnswerView::Summary(inner(*r, |v: VaultSummary| v@)),
            Answer::Snapshot(r) => AnswerView::Snapshot(inner(*r, |v: VaultSnapshot| v@)),
            Answer::Bytes(r) => AnswerView::Bytes(inner(*r, |v: Vec<u8>| v@)),
            Answer::Unit(r) => AnswerView::Unit(inner(*r, |v: ()| v)),
            Answer::Grants(r) => AnswerView::Grants(
                inner(*r, |v: Vec<VaultGrant>| Seq::new(v@.len(), |i: int| v@[i]@)),
            ),
            Answer::Owner(r) => AnswerView::Owner(inner(*r, |v: String| v@)),
        }
    }
}

impl View for SecretsReply {
    type V = ReplyView;

    open spec fn view(&self) -> ReplyView {
        match self {
            SecretsReply::Begin => ReplyView::Begin,
            SecretsReply::Text(r) => ReplyView::Text(text_result(*r)),
            SecretsReply::Answer(r) => ReplyView::Answer(inner(*r, |a: Answer| a@)),
            SecretsReply::Exit(r) => ReplyView::Exit(inner(*r, |x: (bool, String)| (x.0, x.1@))),
        }
    }
}

impl View for SecretsRequest {
    type V = RequestView;

    open spec fn view(&self) -> RequestView {
        match self {
            SecretsRequest::Run { tool, args } => RequestView::Run {
                tool: *tool,
                args: args.deep_view(),
            },
            SecretsRequest::Call { canister, query, payload } => RequestView::Call {
                canister: canister@,
                query: *query,
                payload: payload@,
            },
            SecretsRequest::ReadStdin => RequestView::ReadStdin,
            SecretsRequest::Password { prompt } => RequestView::Password { prompt: prompt@ },
            SecretsRequest::ReadFile { path } => RequestView::ReadFile { path: path@ },
            SecretsRequest::WriteFile { path, content, force } => RequestView::WriteFile {
                path: path@,
                content: content@,
                force: *force,
            },
            SecretsRequest::Spawn { program, args, env } => RequestView::Spawn {
                program: program@,
                args: args.deep_view(),
                env: env.deep_view(),
            },
            SecretsRequest::Done(r) => RequestView::Done(text_result(*r)),
        }
    }
}

/// A secrets command being carried out.
pub struct SecretsSession {
    args: Vec<String>,
    env_directory: Option<String>,
    step: u32,
    directory: String,
    route: Route,
    vault: VaultSnapshot,
    values: Vec<(String, String)>,
    user: String,
    epoch: u128,
    public_key: Vec<u8>,
    deletes: Vec<String>,
    transport_seed: Vec<u8>,
}

pub struct SessionView {
    pub args: Seq<Seq<char>>,
    pub env_directory: Option<Seq<char>>,
    pub step: u32,
    pub directory: Seq<char>,
    pub route: RouteView,
    pub vault: SnapshotView,
    pub values: Seq<Entry>,
    pub user: Seq<char>,
    pub epoch: u128,
    pub public_key: Seq<u8>,
    pub deletes: Seq<Seq<char>>,
    pub transport_seed: Seq<u8>,
}

impl View for SecretsSession {
    type V = SessionView;

    closed spec fn view(&self) -> SessionView {
        SessionView {
            args: self.args.deep_view(),
            env_directory: self.env_directory.deep_view(),
            step: self.step,
            directory: self.directory@,
            route: self.route@,
            vault: self.vault@,
            values: self.values.deep_view(),
            user: self.user@,
            epoch: self.epoch,
            public_key: self.public_key@,
            deletes: self.deletes.deep_view(),
            transport_seed: self.transport_seed@,
        }
    }
}

// ---------------------------------------------------------------------
// The protocol
// ---------------------------------------------------------------------
/// A session that has done nothing yet: no route, vault, values, user,
/// epoch, keys or pending deletes.
pub open spec fn fresh_session(args: Seq<Seq<char>>, env_directory: Option<Seq<char>>) -> SessionView {
    SessionView {
        args,
        env_directory,
        step: 0,
        directory: seq![],
        route: RouteView {
            namespace: seq![],
            name: seq![],
            storage_id: seq![],
            owner: seq![],
            shard: seq![],
        },
        vault: SnapshotView { name: seq![], revision: 0, epoch: 0, secrets: seq![] },
        values: seq![],
        user: seq![],
        epoch: 0,
        public_key: seq![],
        deletes: seq![],
        transport_seed: seq![],
    }
}

pub open spec fn at(s: SessionView, step: u32) -> SessionView {
    SessionView { step, ..s }
}

pub open spec fn done(s: SessionView, r: Result<Seq<char>, Seq<char>>) -> (SessionView, RequestView) {
    (at(s, DONE), RequestView::Done(r))
}

pub open spec fn call(s: SessionView, step: u32, canister: Seq<char>, query: bool, payload: PayloadView) -> (
    SessionView,
    RequestView,
) {
    (at(s, step), RequestView::Call { canister, query, payload })
}

/// The error in a canister's reply, its own or that of the call.
pub open spec fn answer_error(r: ReplyView) -> Option<Seq<char>> {
    match r {
        ReplyView::Answer(Err(e)) => Some(e),
        ReplyView::Answer(Ok(a)) => match a {
            AnswerView::Route(Err(e)) => Some(e),
            AnswerView::Summaries(Err(e)) => Some(e),
            AnswerView::Summary(Err(e)) => Some(e),
            AnswerView::Snapshot(Err(e)) => Some(e),
            AnswerView::Bytes(Err(e)) => Some(e),
            AnswerView::Unit(Err(e)) => Some(e),
            AnswerView::Grants(Err(e)) => Some(e),
            AnswerView::Owner(Err(e)) => Some(e),
            _ => None,
        },
        _ => None,
    }
}

pub open spec fn got_snapshot(r: ReplyView) -> SnapshotView {
    match r {
        ReplyView::Answer(Ok(AnswerView::Snapshot(Ok(v)))) => v,
        _ => vstd::pervasive::arbitrary(),
    }
}

pub open spec fn got_bytes(r: ReplyView) -> Seq<u8> {
    match r {
        ReplyView::Answer(Ok(AnswerView::Bytes(Ok(v)))) => v,
        _ => vstd::pervasive::arbitrary(),
    }
}

/// The kind of answer a step waits for.
pub open spec fn answer_kind(step: u32, a: AnswerView) -> bool {
    if step == 3 {
        a is Route
    } else if step == 10 {
        a is Grants
    } else if step == 11 {
        a is Owner
    } else if step == 12 || step == 91 {
        a is Unit
    } else if step == 20 {
        a is Summaries
    } else if step == 21 {
        a is Summary
    } else if is_key_step(step) {
        a is Bytes
    } else {
        a is Snapshot
    }
}

pub open spec fn is_public_key_step(step: u32) -> bool {
    step == 32 || step == 52 || step == 61 || step == 71 || step == 81 || step == 83
}

pub open spec fn is_encrypted_key_step(step: u32) -> bool {
    step == 33 || step == 53 || step == 62 || step == 72 || step == 82 || step == 84
}

pub open spec fn is_key_step(step: u32) -> bool {
    is_public_key_step(step) || is_encrypted_key_step(step)
}

pub open spec fn is_step(step: u32) -> bool {
    ||| 0 <= step <= 3
    ||| 10 <= step <= 12
    ||| 20 <= step <= 22
    ||| 30 <= step <= 34
    ||| 40 <= step <= 41
    ||| 50 <= step <= 54
    ||| 60 <= step <= 63
    ||| 70 <= step <= 73
    ||| 80 <= step <= 85
    ||| 90 <= step <= 91
}

/// The argument after the first `flag` exists.
pub open spec fn flag_has_value(a: Seq<Seq<char>>, flag: Seq<char>) -> bool {
    first_index(a, flag) matches Some(i) && i + 1 < a.len()
}

/// What the arguments are known to hold at each step.
pub open spec fn args_fit(s: SessionView) -> bool {
    let a = s.args;
    &&& s.step == 0 || a.len() > 0
    &&& (10 <= s.step <= 12 || 30 <= s.step <= 34 || 40 <= s.step <= 41) ==> a.len() >= 3
    &&& s.step == 11 ==> a.len() >= 4 && (a[1] == "grant-user"@ || a[1] == "revoke-user"@)
    &&& s.step == 12 ==> a.len() >= 5 || (a.len() >= 4 && (a[1] == "grant-user"@ || a[1]
        == "revoke-user"@))
    &&& (20 <= s.step <= 22 || 50 <= s.step <= 91) ==> a.len() >= 2
    &&& 50 <= s.step <= 54 ==> flag_has_value(a, "--from-dotenv"@)
    &&& s.step == 63 ==> flag_has_value(a, "--output"@)
    &&& 70 <= s.step <= 73 ==> flag_has_value(a, "--"@)
}

/// Whether a session waits for this reply.
pub open spec fn expects(s: SessionView, r: ReplyView) -> bool {
    &&& is_step(s.step)
    &&& args_fit(s)
    &&& is_encrypted_key_step(s.step) ==> s.transport_seed.len() == 32
    &&& if s.step == 0 {
        r is Begin
    } else if s.step == 1 || s.step == 2 || s.step == 30 || s.step == 50 || s.step == 63 {
        r is Text
    } else if s.step == 73 {
        r is Exit
    } else {
        r is Answer && (r->Answer_0 matches Ok(a) ==> answer_kind(s.step, a))
    }
}

/// After the repository is known: where the directory canister is.
pub open spec fn find_directory(s: SessionView, repo: (Seq<char>, Seq<char>)) -> (
    SessionView,
    RequestView,
) {
    let s1 = SessionView {
        route: RouteView { namespace: repo.0, name: repo.1, ..s.route },
        ..s
    };
    match s.env_directory {
        Some(d) => call(
            SessionView { directory: d, ..s1 },
            3,
            d,
            true,
            PayloadView::ResolveRepository { namespace: repo.0, name: repo.1 },
        ),
        None => (
            at(s1, 2),
            RequestView::Run {
                tool: Tool::Git,
                args: seq!["config"@, "--global"@, "--get"@, "infinigit.directory-canister"@],
            },
        ),
    }
}

pub open spec fn get_vault(s: SessionView, step: u32) -> (SessionView, RequestView) {
    call(
        s,
        step,
        s.route.shard,
        true,
        PayloadView::GetVault { owner: s.route.owner, storage_id: s.route.storage_id, vault: s.args[1] },
    )
}

pub open spec fn access_dispatch(s: SessionView) -> (SessionView, RequestView) {
    let a = s.args;
    if a.len() < 2 {
        done(s, Err(ACCESS_USAGE@))
    } else if a.len() < 3 {
        done(s, Err("vault name is required"@))
    } else if a[1] == "list"@ {
        call(
            s,
            10,
            s.route.shard,
            true,
            PayloadView::ListGrants { owner: s.route.owner, storage_id: s.route.storage_id, vault: a[2] },
        )
    } else if a[1] == "grant-user"@ || a[1] == "revoke-user"@ {
        if a.len() < 4 {
            done(s, Err("username is required"@))
        } else {
            call(s, 11, s.directory, true, PayloadView::ResolveNamespace { username: a[3] })
        }
    } else if a[1] == "grant-team"@ || a[1] == "revoke-team"@ {
        if a.len() < 4 {
            done(s, Err("organization is required"@))
        } else if a.len() < 5 {
            done(s, Err("team is required"@))
        } else if a[1] == "grant-team"@ {
            if !permission_of(a).read {
                done(s, Err(PERMISSION_REQUIRED@))
            } else {
                call(
                    s,
                    12,
                    s.directory,
                    false,
                    PayloadView::GrantTeam {
                        organization: a[3],
                        team: a[4],
                        namespace: s.route.namespace,
                        name: s.route.name,
                        vault: a[2],
                        permission: permission_of(a),
                    },
                )
            }
        } else {
            call(
                s,
                12,
                s.directory,
                false,
                PayloadView::RevokeTeam {
                    organization: a[3],
                    team: a[4],
                    namespace: s.route.namespace,
                    name: s.route.name,
                    vault: a[2],
                },
            )
        }
    } else {
        done(s, Err(ACCESS_USAGE@))
    }
}

/// What the command asks for, once the repository's route is known.
pub open spec fn dispatch(s: SessionView) -> (SessionView, RequestView) {
    let a = s.args;
    let action = a[0];
    if action == "access"@ {
        access_dispatch(s)
    } else if action == "vaults"@ {
        call(
            s,
            20,
            s.route.shard,
            true,
            PayloadView::ListVaults { owner: s.route.owner, storage_id: s.route.storage_id },
        )
    } else if action == "create"@ {
        if a.len() < 2 {
            done(s, Err(CREATE_USAGE@))
        } else {
            call(
                s,
                21,
                s.route.shard,
                false,
                PayloadView::CreateVault {
                    owner: s.route.owner,
                    storage_id: s.route.storage_id,
                    vault: a[1],
                },
            )
        }
    } else if action == "list"@ {
        if a.len() < 2 {
            done(s, Err(LIST_USAGE@))
        } else {
            get_vault(s, 22)
        }
    } else if action == "set"@ {
        if a.len() < 3 {
            done(s, Err(SET_USAGE@))
        } else if !is_secret_name(a[2]) {
            done(s, Err(KEY_RULES@))
        } else if a.contains("--stdin"@) {
            (at(s, 30), RequestView::ReadStdin)
        } else {
            (at(s, 30), RequestView::Password { prompt: "Value for "@ + a[2] + ": "@ })
        }
    } else if action == "unset"@ {
        if a.len() < 3 {
            done(s, Err(UNSET_USAGE@))
        } else {
            get_vault(s, 40)
        }
    } else if action == "put"@ {
        if a.len() < 2 {
            done(s, Err(PUT_USAGE@))
        } else {
            match first_index(a, "--from-dotenv"@) {
                None => done(s, Err("--from-dotenv <file> is required"@)),
                Some(i) => if i + 1 < a.len() {
                    (at(s, 50), RequestView::ReadFile { path: a[i + 1] })
                } else {
                    done(s, Err("--from-dotenv requires a file"@))
                },
            }
        }
    } else if action == "pull"@ {
        if a.len() < 2 {
            done(s, Err(PULL_USAGE@))
        } else {
            get_vault(s, 60)
        }
    } else if action == "run"@ {
        if a.len() < 2 {
            done(s, Err(RUN_USAGE@))
        } else {
            match first_index(a, "--"@) {
                None => done(s, Err("separate the command with --"@)),
                Some(i) => if i + 1 < a.len() {
                    get_vault(s, 70)
                } else {
                    done(s, Err("missing command"@))
                },
            }
        }
    } else if action == "rotate"@ {
        if a.len() < 2 {
            done(s, Err(ROTATE_USAGE@))
        } else {
            get_vault(s, 80)
        }
    } else if action == "delete"@ {
        if a.len() < 2 {
            done(s, Err(DELETE_USAGE@))
        } else if !a.contains("--yes"@) {
            done(s, Err("refusing to delete a vault without --yes"@))
        } else {
            get_vault(s, 90)
        }
    } else {
        done(s, Err(SECRETS_USAGE@))
    }
}

/// Starting a vault key request for `epoch`: the call for the vault's
/// verification key.
pub open spec fn begin_key(s: SessionView, step: u32, epoch: u128) -> (SessionView, RequestView) {
    call(
        SessionView { epoch, ..s },
        step,
        s.route.shard,
        false,
        PayloadView::VetkeyPublicKey,
    )
}

/// The call for the encrypted vault key, once the verification key is known:
/// a fresh transport key (a random 32-byte seed) is kept, and the call
/// carries its public key.
pub open spec fn key_call(s: SessionView, r: ReplyView, s2: SessionView, q: RequestView) -> bool {
    match answer_error(r) {
        Some(e) => (s2, q) == done(s, Err(e)),
        None => {
            &&& s2.transport_seed.len() == 32
            &&& s2 == SessionView {
                step: (s.step + 1) as u32,
                public_key: got_bytes(r),
                transport_seed: s2.transport_seed,
                ..s
            }
            &&& q == RequestView::Call {
                canister: s.route.shard,
                query: false,
                payload: PayloadView::EncryptedKey {
                    owner: s.route.owner,
                    storage_id: s.route.storage_id,
                    vault: s.vault.name,
                    epoch: s.epoch,
                    transport_public_key: transport_public(s2.transport_seed),
                },
            }
        },
    }
}

/// The input that the vault key of the session's vault and epoch is derived for.
pub open spec fn session_key_input(s: SessionView) -> Seq<char> {
    key_input_text(s.route.owner, s.route.storage_id, s.vault.name, s.epoch)
}

/// What `pull` does with the decrypted values.
pub open spec fn pull_values(s: SessionView, values: Seq<Entry>) -> (SessionView, RequestView) {
    let s1 = SessionView { values, ..s };
    let a = s.args;
    match flag_value_of(a, "--format"@, "dotenv"@) {
        Err(e) => done(s1, Err(e)),
        Ok(format) => if format != "dotenv"@ && format != "shell"@ {
            done(s1, Err("--format must be dotenv or shell"@))
        } else {
            let content = pulled_text(values, format == "shell"@);
            match first_index(a, "--output"@) {
                None => done(s1, Ok(trim_end(content))),
                Some(i) => if i + 1 < a.len() {
                    (
                        at(s1, 63),
                        RequestView::WriteFile {
                            path: a[i + 1],
                            content,
                            force: a.contains("--force"@),
                        },
                    )
                } else {
                    done(s1, Err("--output requires a file"@))
                },
            }
        },
    }
}

pub open spec fn flag_value_of(a: Seq<Seq<char>>, flag: Seq<char>, fallback: Seq<char>) -> Result<
    Seq<char>,
    Seq<char>,
> {
    crate::args::flag_value(a, flag, fallback)
}

/// What `run` does with the decrypted values: the command after `--`, with
/// the values as environment variables.
pub open spec fn run_values(s: SessionView, values: Seq<Entry>) -> (SessionView, RequestView) {
    let i = first_index(s.args, "--"@)->0;
    (
        SessionView { step: 73, values, ..s },
        RequestView::Spawn { program: s.args[i + 1], args: s.args.skip(i + 2), env: values },
    )
}

/// What decrypting the session's vault with the vault key `k` leads to.
pub open spec fn after_decrypt(s: SessionView, k: Seq<u8>, s2: SessionView, q: RequestView) -> bool {
    match opened_all(k, s.route.owner, s.route.storage_id, s.vault.name, s.vault.epoch, s.vault.secrets) {
        Err(e) => (s2, q) == done(s, Err(e)),
        Ok(values) => if s.step == 62 {
            (s2, q) == pull_values(s, values)
        } else if s.step == 72 {
            (s2, q) == run_values(s, values)
        } else {
            exists|epoch: u128|
                (epoch != 0 || s.vault.epoch == u128::MAX) && (epoch != s.vault.epoch
                    || s.vault.epoch == 1) && (s2, q) == #[trigger] begin_key(
                    SessionView { values, ..s },
                    83,
                    epoch,
                )
        },
    }
}

/// What encrypting the session's values with the vault key `k` leads to:
/// the update (or rotation) with the values sealed under their contexts in
/// the session's vault and epoch, or, when they cannot be sealed, an error.
pub open spec fn after_encrypt(s: SessionView, k: Seq<u8>, s2: SessionView, q: RequestView) -> bool {
    let owner = s.route.owner;
    let storage_id = s.route.storage_id;
    ||| !sealable(k, owner, storage_id, s.vault.name, s.epoch, s.values) && (s2, q) == done(
        s,
        Err(SECRET_TOO_LARGE@),
    )
    ||| exists|upserts: Seq<SecretView>|
        #[trigger] sealed(k, owner, storage_id, s.vault.name, s.epoch, s.values, upserts) && if s.step
            == 84 {
            (s2, q) == call(
                s,
                85,
                s.route.shard,
                false,
                PayloadView::RotateVault {
                    owner: s.route.owner,
                    storage_id: s.route.storage_id,
                    vault: s.args[1],
                    epoch: s.epoch,
                    replacements: upserts,
                    revision: s.vault.revision,
                },
            )
        } else {
            (s2, q) == call(
                s,
                (s.step + 1) as u32,
                s.route.shard,
                false,
                PayloadView::UpdateSecrets {
                    owner: s.route.owner,
                    storage_id: s.route.storage_id,
                    vault: s.vault.name,
                    upserts,
                    deletes: s.deletes,
                    revision: s.vault.revision,
                },
            )
        }
}

/// What the encrypted vault key leads to: the canister's error; a refusal
/// exactly when the key does not decrypt and verify with the session's
/// transport key and verification key for the session's derivation input;
/// else the step that uses the vault key.
pub open spec fn key_outcome(s: SessionView, r: ReplyView, s2: SessionView, q: RequestView) -> bool {
    match answer_error(r) {
        Some(e) => (s2, q) == done(s, Err(e)),
        None => match verified_vetkey(
            s.transport_seed,
            got_bytes(r),
            s.public_key,
            utf8_of(session_key_input(s)),
        ) {
            None => exists|e: Seq<char>|
                #[trigger] key_failure(got_bytes(r), s.public_key, e) && (s2, q) == done(s, Err(e)),
            Some(k) => if s.step == 33 || s.step == 53 || s.step == 84 {
                after_encrypt(s, k, s2, q)
            } else {
                after_decrypt(s, k, s2, q)
            },
        },
    }
}

pub open spec fn got_route(r: ReplyView) -> Result<RouteView, Seq<char>> {
    match r {
        ReplyView::Answer(Ok(AnswerView::Route(x))) => x,
        _ => vstd::pervasive::arbitrary(),
    }
}

pub open spec fn got_grants(r: ReplyView) -> Seq<GrantView> {
    match r {
        ReplyView::Answer(Ok(AnswerView::Grants(Ok(v)))) => v,
        _ => vstd::pervasive::arbitrary(),
    }
}

pub open spec fn got_owner(r: ReplyView) -> Seq<char> {
    match r {
        ReplyView::Answer(Ok(AnswerView::Owner(Ok(v)))) => v,
        _ => vstd::pervasive::arbitrary(),
    }
}

pub open spec fn got_summaries(r: ReplyView) -> Seq<SummaryView> {
    match r {
        ReplyView::Answer(Ok(AnswerView::Summaries(Ok(v)))) => v,
        _ => vstd::pervasive::arbitrary(),
    }
}

pub open spec fn got_summary(r: ReplyView) -> SummaryView {
    match r {
        ReplyView::Answer(Ok(AnswerView::Summary(Ok(v)))) => v,
        _ => vstd::pervasive::arbitrary(),
    }
}

pub open spec fn got_text(r: ReplyView) -> Result<Seq<char>, Seq<char>> {
    match r {
        ReplyView::Text(t) => t,
        _ => vstd::pervasive::arbitrary(),
    }
}

/// The message after a successful access change.
pub open spec fn access_message(a: Seq<Seq<char>>) -> Seq<char> {
    if a[1] == "grant-user"@ {
        "Saved "@ + a[2] + " access for "@ + a[3] + "."@
    } else if a[1] == "revoke-user"@ {
        "Revoked "@ + a[2] + " access from "@ + a[3] + "."@
    } else if a[1] == "grant-team"@ {
        "Saved "@ + a[2] + " access for "@ + a[3] + seq!['/'] + a[4] + "."@
    } else {
        "Revoked "@ + a[2] + " access from "@ + a[3] + seq!['/'] + a[4] + "."@
    }
}

/// The argument after the first `flag`.
pub open spec fn after_flag(a: Seq<Seq<char>>, flag: Seq<char>) -> Seq<char> {
    a[first_index(a, flag)->0 + 1]
}

/// The step after a reply, for the steps that do not involve a vault key.
pub open spec fn next_plain(s: SessionView, r: ReplyView) -> (SessionView, RequestView) {
    let a = s.args;
    if s.step == 0 {
        if a.len() == 0 {
            done(s, Err("missing secrets command"@))
        } else if first_index(a, "--repo"@) is Some {
            match repository_spec(a, None) {
                Err(e) => done(s, Err(e)),
                Ok(repo) => find_directory(s, repo),
            }
        } else {
            (
                at(s, 1),
                RequestView::Run { tool: Tool::Git, args: seq!["remote"@, "get-url"@, "origin"@] },
            )
        }
    } else if s.step == 1 {
        let origin = match got_text(r) {
            Ok(u) => Some(u),
            Err(_) => None,
        };
        match repository_spec(a, origin) {
            Err(e) => done(s, Err(e)),
            Ok(repo) => find_directory(s, repo),
        }
    } else if s.step == 2 {
        let d = config_value(got_text(r), DEFAULT_DIRECTORY@);
        call(
            SessionView { directory: d, ..s },
            3,
            d,
            true,
            PayloadView::ResolveRepository { namespace: s.route.namespace, name: s.route.name },
        )
    } else if s.step == 30 {
        match got_text(r) {
            Err(e) => done(s, Err(e)),
            Ok(v) => {
                let value = if a.contains("--stdin"@) {
                    strip_newline(v)
                } else {
                    v
                };
                get_vault(SessionView { values: seq![(a[2], value)], ..s }, 31)
            },
        }
    } else if s.step == 50 {
        match got_text(r) {
            Err(e) => done(s, Err("cannot read "@ + after_flag(a, "--from-dotenv"@) + ": "@ + e)),
            Ok(text) => match dotenv_entries(text) {
                Err(e) => done(s, Err(e)),
                Ok(values) => get_vault(SessionView { values, ..s }, 51),
            },
        }
    } else if s.step == 63 {
        match got_text(r) {
            Err(e) => done(s, Err("cannot write "@ + after_flag(a, "--output"@) + ": "@ + e)),
            Ok(_) => done(
                s,
                Ok(
                    "Wrote "@ + decimal(s.values.len()) + " secrets to "@ + after_flag(
                        a,
                        "--output"@,
                    ) + "."@,
                ),
            ),
        }
    } else if s.step == 73 {
        let program = after_flag(a, "--"@);
        match r {
            ReplyView::Exit(Err(e)) => done(s, Err("cannot run "@ + program + ": "@ + e)),
            ReplyView::Exit(Ok((true, _))) => done(s, Ok(seq![])),
            ReplyView::Exit(Ok((false, status))) => done(s, Err("command exited with "@ + status)),
            _ => done(s, Err(seq![])),
        }
    } else if s.step == 3 {
        match r {
            ReplyView::Answer(Err(e)) => done(s, Err(e)),
            _ => match got_route(r) {
                Err(_) => done(s, Err("repository not found"@)),
                Ok(route) => dispatch(SessionView { route, ..s }),
            },
        }
    } else {
        match answer_error(r) {
            Some(e) => done(s, Err(e)),
            None => next_answer(s, r),
        }
    }
}

/// The step after a canister's successful answer.
pub open spec fn next_answer(s: SessionView, r: ReplyView) -> (SessionView, RequestView) {
    let a = s.args;
    if s.step == 10 {
        let gs = got_grants(r);
        done(s, Ok(join(Seq::new(gs.len(), |i: int| grant_line(gs[i])), "\n"@)))
    } else if s.step == 11 {
        let user = got_owner(r);
        let s1 = SessionView { user, ..s };
        if a[1] == "grant-user"@ {
            if !permission_of(a).read {
                done(s1, Err(PERMISSION_REQUIRED@))
            } else {
                call(
                    s1,
                    12,
                    s.route.shard,
                    false,
                    PayloadView::SetUserGrant {
                        owner: s.route.owner,
                        storage_id: s.route.storage_id,
                        vault: a[2],
                        user,
                        permission: permission_of(a),
                    },
                )
            }
        } else {
            call(
                s1,
                12,
                s.route.shard,
                false,
                PayloadView::RevokeUserGrant {
                    owner: s.route.owner,
                    storage_id: s.route.storage_id,
                    vault: a[2],
                    user,
                },
            )
        }
    } else if s.step == 12 {
        done(s, Ok(access_message(a)))
    } else if s.step == 20 {
        let vs = got_summaries(r);
        done(s, Ok(join(Seq::new(vs.len(), |i: int| summary_line(vs[i])), "\n"@)))
    } else if s.step == 21 {
        done(s, Ok("Created vault '"@ + got_summary(r).name + "'."@))
    } else if s.step == 22 {
        let v = got_snapshot(r);
        done(s, Ok(join(Seq::new(v.secrets.len(), |i: int| v.secrets[i].name), "\n"@)))
    } else if s.step == 31 || s.step == 60 || s.step == 70 || s.step == 80 {
        let v = got_snapshot(r);
        begin_key(SessionView { vault: v, ..s }, (s.step + 1) as u32, v.epoch)
    } else if s.step == 51 {
        let v = got_snapshot(r);
        begin_key(
            SessionView { vault: v, deletes: stale_names(v.secrets, s.values), ..s },
            52,
            v.epoch,
        )
    } else if s.step == 40 {
        let v = got_snapshot(r);
        call(
            SessionView { vault: v, deletes: seq![a[2]], ..s },
            41,
            s.route.shard,
            false,
            PayloadView::UpdateSecrets {
                owner: s.route.owner,
                storage_id: s.route.storage_id,
                vault: v.name,
                upserts: seq![],
                deletes: seq![a[2]],
                revision: v.revision,
            },
        )
    } else if s.step == 90 {
        let v = got_snapshot(r);
        call(
            SessionView { vault: v, ..s },
            91,
            s.route.shard,
            false,
            PayloadView::DeleteVault {
                owner: s.route.owner,
                storage_id: s.route.storage_id,
                vault: a[1],
                revision: v.revision,
            },
        )
    } else if s.step == 34 {
        done(
            s,
            Ok(
                "Saved "@ + a[2] + " in "@ + s.vault.name + " at revision "@ + decimal(
                    got_snapshot(r).revision as nat,
                ) + "."@,
            ),
        )
    } else if s.step == 41 {
        done(
            s,
            Ok(
                "Deleted "@ + a[2] + " from "@ + s.vault.name + " at revision "@ + decimal(
                    got_snapshot(r).revision as nat,
                ) + "."@,
            ),
        )
    } else if s.step == 54 {
        done(
            s,
            Ok(
                "Published "@ + decimal(s.values.len()) + " secrets to "@ + s.vault.name
                    + " at revision "@ + decimal(got_snapshot(r).revision as nat) + "."@,
            ),
        )
    } else if s.step == 85 {
        let v = got_snapshot(r);
        done(s, Ok("Rotated vault '"@ + v.name + "' to revision "@ + decimal(v.revision as nat) + "."@))
    } else {
        done(s, Ok("Deleted vault '"@ + a[1] + "'."@))
    }
}

/// How a session in state `s` that receives `r` may move to `s2` with request `q`.
pub open spec fn step_relation(s: SessionView, r: ReplyView, s2: SessionView, q: RequestView) -> bool {
    if is_public_key_step(s.step) {
        key_call(s, r, s2, q)
    } else if is_encrypted_key_step(s.step) {
        key_outcome(s, r, s2, q)
    } else {
        (s2, q) == next_plain(s, r)
    }
}

// ---------------------------------------------------------------------
// Reading answers
// ---------------------------------------------------------------------
fn take_snapshot(reply: SecretsReply) -> (r: Result<VaultSnapshot, String>)
    requires
        reply@ is Answer,
        reply@->Answer_0 matches Ok(a) ==> a is Snapshot,
    ensures
        match r {
            Ok(v) => answer_error(reply@) is None && v@ == got_snapshot(reply@),
            Err(e) => answer_error(reply@) == Some(e@),
        },
{
    match reply {
        SecretsReply::Answer(Err(e)) => Err(e),
        SecretsReply::Answer(Ok(Answer::Snapshot(x))) => x,
        _ => Err(String::new()),
    }
}

fn take_bytes(reply: SecretsReply) -> (r: Result<Vec<u8>, String>)
    requires
        reply@ is Answer,
        reply@->Answer_0 matches Ok(a) ==> a is Bytes,
    ensures
        match r {
            Ok(v) => answer_error(reply@) is None && v@ == got_bytes(reply@),
            Err(e) => answer_error(reply@) == Some(e@),
        },
{
    match reply {
        SecretsReply::Answer(Err(e)) => Err(e),
        SecretsReply::Answer(Ok(Answer::Bytes(x))) => x,
        _ => Err(String::new()),
    }
}

fn take_grants(reply: SecretsReply) -> (r: Result<Vec<VaultGrant>, String>)
    requires
        reply@ is Answer,
        reply@->Answer_0 matches Ok(a) ==> a is Grants,
    ensures
        match r {
            Ok(v) => answer_error(reply@) is None && Seq::new(v@.len(), |i: int| v@[i]@)
                == got_grants(reply@),
            Err(e) => answer_error(reply@) == Some(e@),
        },
{
    match reply {
        SecretsReply::Answer(Err(e)) => Err(e),
        SecretsReply::Answer(Ok(Answer::Grants(x))) => x,
        _ => Err(String::new()),
    }
}

fn take_summaries(reply: SecretsReply) -> (r: Result<Vec<VaultSummary>, String>)
    requires
        reply@ is Answer,
        reply@->Answer_0 matches Ok(a) ==> a is Summaries,
    ensures
        match r {
            Ok(v) => answer_error(reply@) is None && Seq::new(v@.len(), |i: int| v@[i]@)
                == got_summaries(reply@),
            Err(e) => answer_error(reply@) == Some(e@),
        },
{
    match reply {
        SecretsReply::Answer(Err(e)) => Err(e),
        SecretsReply::Answer(Ok(Answer::Summaries(x))) => x,
        _ => Err(String::new()),
    }
}

fn take_summary(reply: SecretsReply) -> (r: Result<VaultSummary, String>)
    requires
        reply@ is Answer,
        reply@->Answer_0 matches Ok(a) ==> a is Summary,
    ensures
        match r {
            Ok(v) => answer_error(reply@) is None && v@ == got_summary(reply@),
            Err(e) => answer_error(reply@) == Some(e@),
        },
{
    match reply {
        SecretsReply::Answer(Err(e)) => Err(e),
        SecretsReply::Answer(Ok(Answer::Summary(x))) => x,
        _ => Err(String::new()),
    }
}

fn take_owner(reply: SecretsReply) -> (r: Result<String, String>)
    requires
        reply@ is Answer,
        reply@->Answer_0 matches Ok(a) ==> a is Owner,
    ensures
        match r {
            Ok(v) => answer_error(reply@) is None && v@ == got_owner(reply@),
            Err(e) => answer_error(reply@) == Some(e@),
        },
{
    match reply {
        SecretsReply::Answer(Err(e)) => Err(e),
        SecretsReply::Answer(Ok(Answer::Owner(x))) => x,
        _ => Err(String::new()),
    }
}

fn take_unit(reply: SecretsReply) -> (r: Result<(), String>)
    requires
        reply@ is Answer,
        reply@->Answer_0 matches Ok(a) ==> a is Unit,
    ensures
        match r {
            Ok(_) => answer_error(reply@) is None,
            Err(e) => answer_error(reply@) == Some(e@),
        },
{
    match reply {
        SecretsReply::Answer(Err(e)) => Err(e),
        SecretsReply::Answer(Ok(Answer::Unit(x))) => x,
        _ => Err(String::new()),
    }
}

fn copy_route(r: &Route) -> (c: Route)
    ensures
        c@ == r@,
{
    Route {
        namespace: r.namespace.clone(),
        name: r.name.clone(),
        storage_id: r.storage_id.clone(),
        owner: r.owner.clone(),
        shard: r.shard.clone(),
    }
}

impl SecretsSession {
    /// The state in which the secrets command with arguments `args` starts;
    /// `env_directory` is `INFINIGIT_DIRECTORY_CANISTER_ID` when it is set.
    pub fn new(args: Vec<String>, env_directory: Option<String>) -> (r: SecretsSession)
        ensures
            r@ == fresh_session(args.deep_view(), env_directory.deep_view()),
    {
        let r = SecretsSession {
            args,
            env_directory,
            step: 0,
            directory: String::new(),
            route: Route {
                namespace: String::new(),
                name: String::new(),
                storage_id: String::new(),
                owner: String::new(),
                shard: String::new(),
            },
            vault: VaultSnapshot { name: String::new(), revision: 0, epoch: 0, secrets: Vec::new() },
            values: Vec::new(),
            user: String::new(),
            epoch: 0,
            public_key: Vec::new(),
            deletes: Vec::new(),
            transport_seed: Vec::new(),
        };
        assert(r@.values =~= Seq::<Entry>::empty());
        assert(r@.deletes =~= Seq::<Seq<char>>::empty());
        assert(r@.vault.secrets =~= Seq::<SecretView>::empty());
        assert(r@ =~= fresh_session(r.args.deep_view(), r.env_directory.deep_view()));
        r
    }

    /// Whether the command is over.
    pub fn finished(&self) -> (r: bool)
        ensures
            r == (self@.step == DONE),
    {
        self.step == DONE
    }

    fn finish(&mut self, r: Result<String, String>) -> (q: SecretsRequest)
        ensures
            final(self)@ == at(old(self)@, DONE),
            q@ == RequestView::Done(text_result(r)),
    {
        self.step = DONE;
        SecretsRequest::Done(r)
    }

    fn goto(&mut self, step: u32)
        ensures
            final(self)@ == at(old(self)@, step),
    {
        self.step = step;
    }

    fn shard_call(&mut self, step: u32, query: bool, payload: Payload) -> (q: SecretsRequest)
        ensures
            (final(self)@, q@) == call(old(self)@, step, old(self)@.route.shard, query, payload@),
    {
        self.step = step;
        SecretsRequest::Call { canister: self.route.shard.clone(), query, payload }
    }

    fn request_vault(&mut self, step: u32) -> (q: SecretsRequest)
        requires
            old(self)@.args.len() > 1,
        ensures
            (final(self)@, q@) == get_vault(old(self)@, step),
    {
        assert(self.args.deep_view()[1] == self.args@[1]@);
        let payload = Payload::GetVault {
            owner: self.route.owner.clone(),
            storage_id: self.route.storage_id.clone(),
            vault: self.args[1].clone(),
        };
        self.shard_call(step, true, payload)
    }

    fn locate(&mut self, namespace: String, name: String) -> (q: SecretsRequest)
        ensures
            (final(self)@, q@) == find_directory(old(self)@, (namespace@, name@)),
    {
        self.route.namespace = namespace;
        self.route.name = name;
        match copy_option(&self.env_directory) {
            Some(d) => {
                self.directory = d.clone();
                self.step = 3;
                let payload = Payload::ResolveRepository {
                    namespace: self.route.namespace.clone(),
                    name: self.route.name.clone(),
                };
                SecretsRequest::Call { canister: d, query: true, payload }
            },
            None => {
                self.step = 2;
                let args = config_args("infinigit.directory-canister");
                SecretsRequest::Run { tool: Tool::Git, args }
            },
        }
    }

    fn message(&mut self, m: String) -> (q: SecretsRequest)
        ensures
            (final(self)@, q@) == done(old(self)@, Ok(m@)),
    {
        self.finish(Ok(m))
    }

    fn access(&mut self) -> (q: SecretsRequest)
        requires
            old(self)@.args.len() > 0,
        ensures
            (final(self)@, q@) == access_dispatch(old(self)@),
    {
        let n = self.args.len();
        if n < 2 {
            return self.finish(Err(ACCESS_USAGE.to_owned()));
        }
        if n < 3 {
            return self.finish(Err("vault name is required".to_owned()));
        }
        let ghost a = self.args.deep_view();
        assert(a[1] == self.args@[1]@ && a[2] == self.args@[2]@);
        let action = self.args[1].clone();
        if same(action.as_str(), "list") {
            let payload = Payload::ListGrants {
                owner: self.route.owner.clone(),
                storage_id: self.route.storage_id.clone(),
                vault: self.args[2].clone(),
            };
            return self.shard_call(10, true, payload);
        }
        if same(action.as_str(), "grant-user") || same(action.as_str(), "revoke-user") {
            if n < 4 {
                return self.finish(Err("username is required".to_owned()));
            }
            assert(a[3] == self.args@[3]@);
            self.step = 11;
            let payload = Payload::ResolveNamespace { username: self.args[3].clone() };
            return SecretsRequest::Call { canister: self.directory.clone(), query: true, payload };
        }
        if same(action.as_str(), "grant-team") || same(action.as_str(), "revoke-team") {
            if n < 4 {
                return self.finish(Err("organization is required".to_owned()));
            }
            if n < 5 {
                return self.finish(Err("team is required".to_owned()));
            }
            assert(a[3] == self.args@[3]@ && a[4] == self.args@[4]@);
            if same(action.as_str(), "grant-team") {
                let permission = match requested_permission(self.args.as_slice()) {
                    Ok(p) => p,
                    Err(e) => {
                        return self.finish(Err(e));
                    },
                };
                self.step = 12;
                let payload = Payload::GrantTeam {
                    organization: self.args[3].clone(),
                    team: self.args[4].clone(),
                    namespace: self.route.namespace.clone(),
                    name: self.route.name.clone(),
                    vault: self.args[2].clone(),
                    permission,
                };
                return SecretsRequest::Call {
                    canister: self.directory.clone(),
                    query: false,
                    payload,
                };
            }
            self.step = 12;
            let payload = Payload::RevokeTeam {
                organization: self.args[3].clone(),
                team: self.args[4].clone(),
                namespace: self.route.namespace.clone(),
                name: self.route.name.clone(),
                vault: self.args[2].clone(),
            };
            return SecretsRequest::Call { canister: self.directory.clone(), query: false, payload };
        }
        self.finish(Err(ACCESS_USAGE.to_owned()))
    }

    fn dispatch(&mut self) -> (q: SecretsRequest)
        requires
            old(self)@.args.len() > 0,
        ensures
            (final(self)@, q@) == dispatch(old(self)@),
    {
        let ghost a = self.args.deep_view();
        assert(a[0] == self.args@[0]@);
        let action = self.args[0].clone();
        let n = self.args.len();
        if same(action.as_str(), "access") {
            return self.access();
        }
        if same(action.as_str(), "vaults") {
            let payload = Payload::ListVaults {
                owner: self.route.owner.clone(),
                storage_id: self.route.storage_id.clone(),
            };
            return self.shard_call(20, true, payload);
        }
        if same(action.as_str(), "create") {
            if n < 2 {
                return self.finish(Err(CREATE_USAGE.to_owned()));
            }
            assert(a[1] == self.args@[1]@);
            let payload = Payload::CreateVault {
                owner: self.route.owner.clone(),
                storage_id: self.route.storage_id.clone(),
                vault: self.args[1].clone(),
            };
            return self.shard_call(21, false, payload);
        }
        if same(action.as_str(), "list") {
            if n < 2 {
                return self.finish(Err(LIST_USAGE.to_owned()));
            }
            return self.request_vault(22);
        }
        if same(action.as_str(), "set") {
            if n < 3 {
                return self.finish(Err(SET_USAGE.to_owned()));
            }
            assert(a[2] == self.args@[2]@);
            if !valid_secret_name(self.args[2].as_str()) {
                return self.finish(Err(KEY_RULES.to_owned()));
            }
            self.goto(30);
            if has_flag(self.args.as_slice(), "--stdin") {
                return SecretsRequest::ReadStdin;
            }
            let mut prompt = "Value for ".to_owned();
            push_str(&mut prompt, self.args[2].as_str());
            push_str(&mut prompt, ": ");
            return SecretsRequest::Password { prompt };
        }
        if same(action.as_str(), "unset") {
            if n < 3 {
                return self.finish(Err(UNSET_USAGE.to_owned()));
            }
            return self.request_vault(40);
        }
        if same(action.as_str(), "put") {
            if n < 2 {
                return self.finish(Err(PUT_USAGE.to_owned()));
            }
            return match position(self.args.as_slice(), "--from-dotenv") {
                None => self.finish(Err("--from-dotenv <file> is required".to_owned())),
                Some(i) => {
                    if i + 1 < n {
                        assert(a[i + 1] == self.args@[i + 1]@);
                        self.goto(50);
                        SecretsRequest::ReadFile { path: self.args[i + 1].clone() }
                    } else {
                        self.finish(Err("--from-dotenv requires a file".to_owned()))
                    }
                },
            };
        }
        if same(action.as_str(), "pull") {
            if n < 2 {
                return self.finish(Err(PULL_USAGE.to_owned()));
            }
            return self.request_vault(60);
        }
        if same(action.as_str(), "run") {
            if n < 2 {
                return self.finish(Err(RUN_USAGE.to_owned()));
            }
            return match position(self.args.as_slice(), "--") {
                None => self.finish(Err("separate the command with --".to_owned())),
                Some(i) => {
                    if i + 1 < n {
                        self.request_vault(70)
                    } else {
                        self.finish(Err("missing command".to_owned()))
                    }
                },
            };
        }
        if same(action.as_str(), "rotate") {
            if n < 2 {
                return self.finish(Err(ROTATE_USAGE.to_owned()));
            }
            return self.request_vault(80);
        }
        if same(action.as_str(), "delete") {
            if n < 2 {
                return self.finish(Err(DELETE_USAGE.to_owned()));
            }
            if !has_flag(self.args.as_slice(), "--yes") {
                return self.finish(Err("refusing to delete a vault without --yes".to_owned()));
            }
            return self.request_vault(90);
        }
        self.finish(Err(SECRETS_USAGE.to_owned()))
    }

    fn begin_key(&mut self, step: u32, epoch: u128) -> (q: SecretsRequest)
        ensures
            (final(self)@, q@) == begin_key(old(self)@, step, epoch),
    {
        self.epoch = epoch;
        self.shard_call(step, false, Payload::VetkeyPublicKey)
    }

    fn key_call(&mut self, reply: SecretsReply) -> (q: SecretsRequest)
        requires
            is_public_key_step(old(self)@.step),
            expects(old(self)@, reply@),
        ensures
            key_call(old(self)@, reply@, final(self)@, q@),
    {
        let pk = match take_bytes(reply) {
            Ok(v) => v,
            Err(e) => {
                return self.finish(Err(e));
            },
        };
        let seed = new_transport();
        let tpk = transport_public_key(seed.as_slice());
        self.transport_seed = seed;
        self.public_key = pk;
        self.step = self.step + 1;
        let payload = Payload::EncryptedKey {
            owner: self.route.owner.clone(),
            storage_id: self.route.storage_id.clone(),
            vault: self.vault.name.clone(),
            epoch: self.epoch,
            transport_public_key: tpk,
        };
        SecretsRequest::Call { canister: self.route.shard.clone(), query: false, payload }
    }

    fn after_encrypt(&mut self, upserts: Vec<VaultSecret>) -> (q: SecretsRequest)
        requires
            old(self)@.step == 33 || old(self)@.step == 53 || old(self)@.step == 84,
            args_fit(old(self)@),
            old(self)@.step == 84 ==> old(self)@.args.len() >= 2,
        ensures
            old(self)@.step == 84 ==> (final(self)@, q@) == call(
                old(self)@,
                85,
                old(self)@.route.shard,
                false,
                PayloadView::RotateVault {
                    owner: old(self)@.route.owner,
                    storage_id: old(self)@.route.storage_id,
                    vault: old(self)@.args[1],
                    epoch: old(self)@.epoch,
                    replacements: secrets_view(upserts@),
                    revision: old(self)@.vault.revision,
                },
            ),
            old(self)@.step != 84 ==> (final(self)@, q@) == call(
                old(self)@,
                (old(self)@.step + 1) as u32,
                old(self)@.route.shard,
                false,
                PayloadView::UpdateSecrets {
                    owner: old(self)@.route.owner,
                    storage_id: old(self)@.route.storage_id,
                    vault: old(self)@.vault.name,
                    upserts: secrets_view(upserts@),
                    deletes: old(self)@.deletes,
                    revision: old(self)@.vault.revision,
                },
            ),
    {
        if self.step == 84 {
            assert(self.args.deep_view()[1] == self.args@[1]@);
            let payload = Payload::RotateVault {
                owner: self.route.owner.clone(),
                storage_id: self.route.storage_id.clone(),
                vault: self.args[1].clone(),
                epoch: self.epoch,
                replacements: upserts,
                revision: self.vault.revision,
            };
            self.shard_call(85, false, payload)
        } else {
            let deletes = crate::command::args_from(self.deletes.as_slice(), 0);
            let payload = Payload::UpdateSecrets {
                owner: self.route.owner.clone(),
                storage_id: self.route.storage_id.clone(),
                vault: self.vault.name.clone(),
                upserts,
                deletes,
                revision: self.vault.revision,
            };
            let next = self.step + 1;
            self.shard_call(next, false, payload)
        }
    }

    fn pull(&mut self, values: Vec<(String, String)>) -> (q: SecretsRequest)
        requires
            args_fit(old(self)@),
            old(self)@.args.len() >= 2,
        ensures
            (final(self)@, q@) == pull_values(old(self)@, values.deep_view()),
    {
        self.values = values;
        let format = match value(self.args.as_slice(), "--format", "dotenv") {
            Ok(f) => f,
            Err(e) => {
                return self.finish(Err(e));
            },
        };
        let shell = same(format.as_str(), "shell");
        if !same(format.as_str(), "dotenv") && !shell {
            return self.finish(Err("--format must be dotenv or shell".to_owned()));
        }
        let content = render_values(&self.values, shell);
        match position(self.args.as_slice(), "--output") {
            None => self.finish(Ok(crate::text::trimmed_end(content.as_str()))),
            Some(i) => {
                if i + 1 < self.args.len() {
                    assert(self.args.deep_view()[i + 1] == self.args@[i + 1]@);
                    self.step = 63;
                    SecretsRequest::WriteFile {
                        path: self.args[i + 1].clone(),
                        content,
                        force: has_flag(self.args.as_slice(), "--force"),
                    }
                } else {
                    self.finish(Err("--output requires a file".to_owned()))
                }
            },
        }
    }

    fn spawn(&mut self, values: Vec<(String, String)>) -> (q: SecretsRequest)
        requires
            flag_has_value(old(self)@.args, "--"@),
        ensures
            (final(self)@, q@) == run_values(old(self)@, values.deep_view()),
    {
        let i = match position(self.args.as_slice(), "--") {
            Some(i) => i,
            None => 0,
        };
        assert(self.args.deep_view()[i + 1] == self.args@[i + 1]@);
        let program = self.args[i + 1].clone();
        let rest = crate::command::args_from(self.args.as_slice(), i + 2);
        let env = crate::dotenv::copy_entries(&values);
        self.values = values;
        self.step = 73;
        SecretsRequest::Spawn { program, args: rest, env }
    }

    fn key_outcome(&mut self, reply: SecretsReply) -> (q: SecretsRequest)
        requires
            is_encrypted_key_step(old(self)@.step),
            expects(old(self)@, reply@),
        ensures
            key_outcome(old(self)@, reply@, final(self)@, q@),
    {
        let ghost s = self@;
        let ek = match take_bytes(reply) {
            Ok(v) => v,
            Err(e) => {
                return self.finish(Err(e));
            },
        };
        let input = key_input(&self.route, self.vault.name.as_str(), self.epoch);
        let vetkey = match vault_key(
            self.transport_seed.as_slice(),
            ek.as_slice(),
            self.public_key.as_slice(),
            input.as_str(),
        ) {
            Ok(k) => k,
            Err(e) => {
                let q = self.finish(Err(e));
                assert(key_failure(ek@, s.public_key, e@) && (self@, q@) == done(s, Err(e@)));
                return q;
            },
        };
        let ghost k = vetkey@;
        if self.step == 33 || self.step == 53 || self.step == 84 {
            match encrypt_values(
                &self.route,
                self.vault.name.as_str(),
                self.epoch,
                &self.values,
                vetkey.as_slice(),
            ) {
                Err(e) => {
                    let q = self.finish(Err(e));
                    assert(after_encrypt(s, k, self@, q@));
                    q
                },
                Ok(upserts) => {
                    let ghost w = secrets_view(upserts@);
                    let q = self.after_encrypt(upserts);
                    assert(sealed(
                        k,
                        s.route.owner,
                        s.route.storage_id,
                        s.vault.name,
                        s.epoch,
                        s.values,
                        w,
                    ));
                    assert(after_encrypt(s, k, self@, q@));
                    q
                },
            }
        } else {
            match decrypt_vault(&self.route, &self.vault, vetkey.as_slice()) {
                Err(e) => self.finish(Err(e)),
                Ok(values) => {
                    let ghost w = values.deep_view();
                    if self.step == 62 {
                        self.pull(values)
                    } else if self.step == 72 {
                        self.spawn(values)
                    } else {
                        self.values = values;
                        let epoch = random_epoch(self.vault.epoch);
                        let q = self.begin_key(83, epoch);
                        assert((self@, q@) == begin_key(SessionView { values: w, ..s }, 83, epoch));
                        assert(after_decrypt(s, k, self@, q@));
                        q
                    }
                },
            }
        }
    }

    fn text_of(reply: SecretsReply) -> (r: Result<String, String>)
        requires
            reply@ is Text,
        ensures
            text_result(r) == got_text(reply@),
    {
        match reply {
            SecretsReply::Text(t) => t,
            _ => Err(String::new()),
        }
    }

    /// The argument after the first `flag`, which is known to exist.
    fn flag_argument(&self, flag: &str) -> (r: String)
        requires
            flag_has_value(self@.args, flag@),
        ensures
            r@ == after_flag(self@.args, flag@),
    {
        match position(self.args.as_slice(), flag) {
            Some(i) => {
                assert(self.args.deep_view()[i + 1] == self.args@[i + 1]@);
                self.args[i + 1].clone()
            },
            None => String::new(),
        }
    }

    fn step_plain(&mut self, reply: SecretsReply) -> (q: SecretsRequest)
        requires
            expects(old(self)@, reply@),
            !is_key_step(old(self)@.step),
            old(self)@.step == 0 || old(self)@.step == 1 || old(self)@.step == 2 || old(self)@.step
                == 3 || old(self)@.step == 30 || old(self)@.step == 50 || old(self)@.step == 63
                || old(self)@.step == 73,
        ensures
            (final(self)@, q@) == next_plain(old(self)@, reply@),
    {
        if self.step == 0 {
            if self.args.len() == 0 {
                return self.finish(Err("missing secrets command".to_owned()));
            }
            return match position(self.args.as_slice(), "--repo") {
                Some(_) => match repository_arg(self.args.as_slice(), None) {
                    Err(e) => self.finish(Err(e)),
                    Ok((namespace, name)) => self.locate(namespace, name),
                },
                None => {
                    self.goto(1);
                    let args = vec!["remote".to_owned(), "get-url".to_owned(), "origin".to_owned()];
                    assert(args.deep_view() =~= seq!["remote"@, "get-url"@, "origin"@]);
                    SecretsRequest::Run { tool: Tool::Git, args }
                },
            };
        }
        if self.step == 1 {
            let origin = match Self::text_of(reply) {
                Ok(u) => Some(u),
                Err(_) => None,
            };
            return match repository_arg(self.args.as_slice(), origin) {
                Err(e) => self.finish(Err(e)),
                Ok((namespace, name)) => self.locate(namespace, name),
            };
        }
        if self.step == 2 {
            let d = config(Self::text_of(reply), DEFAULT_DIRECTORY);
            self.directory = d.clone();
            self.step = 3;
            let payload = Payload::ResolveRepository {
                namespace: self.route.namespace.clone(),
                name: self.route.name.clone(),
            };
            return SecretsRequest::Call { canister: d, query: true, payload };
        }
        if self.step == 3 {
            return match reply {
                SecretsReply::Answer(Err(e)) => self.finish(Err(e)),
                SecretsReply::Answer(Ok(Answer::Route(Err(_)))) => self.finish(
                    Err("repository not found".to_owned()),
                ),
                SecretsReply::Answer(Ok(Answer::Route(Ok(route)))) => {
                    self.route = route;
                    self.dispatch()
                },
                _ => self.finish(Err(String::new())),
            };
        }
        if self.step == 30 {
            return match Self::text_of(reply) {
                Err(e) => self.finish(Err(e)),
                Ok(v) => {
                    let value = if has_flag(self.args.as_slice(), "--stdin") {
                        without_newline(v)
                    } else {
                        v
                    };
                    assert(self.args.deep_view()[2] == self.args@[2]@);
                    let entry = (self.args[2].clone(), value);
                    let values = vec![entry];
                    assert(values.deep_view() =~= seq![(self@.args[2], entry.1@)]);
                    self.values = values;
                    self.request_vault(31)
                },
            };
        }
        if self.step == 50 {
            return match Self::text_of(reply) {
                Err(e) => {
                    let mut m = "cannot read ".to_owned();
                    let path = self.flag_argument("--from-dotenv");
                    push_str(&mut m, path.as_str());
                    push_str(&mut m, ": ");
                    push_str(&mut m, e.as_str());
                    self.finish(Err(m))
                },
                Ok(text) => match parse_dotenv(text.as_str()) {
                    Err(e) => self.finish(Err(e)),
                    Ok(values) => {
                        self.values = values;
                        self.request_vault(51)
                    },
                },
            };
        }
        if self.step == 63 {
            let path = self.flag_argument("--output");
            return match Self::text_of(reply) {
                Err(e) => {
                    let mut m = "cannot write ".to_owned();
                    push_str(&mut m, path.as_str());
                    push_str(&mut m, ": ");
                    push_str(&mut m, e.as_str());
                    self.finish(Err(m))
                },
                Ok(_) => {
                    let mut m = "Wrote ".to_owned();
                    push_decimal(&mut m, self.values.len() as u128);
                    push_str(&mut m, " secrets to ");
                    push_str(&mut m, path.as_str());
                    push_str(&mut m, ".");
                    assert(self.values.deep_view().len() == self.values@.len());
                    self.finish(Ok(m))
                },
            };
        }
        let program = self.flag_argument("--");
        match reply {
            SecretsReply::Exit(Err(e)) => {
                let mut m = "cannot run ".to_owned();
                push_str(&mut m, program.as_str());
                push_str(&mut m, ": ");
                push_str(&mut m, e.as_str());
                self.finish(Err(m))
            },
            SecretsReply::Exit(Ok((success, status))) => {
                if success {
                    self.finish(Ok(String::new()))
                } else {
                    self.finish(Err(concat("command exited with ", status.as_str())))
                }
            },
            _ => self.finish(Err(String::new())),
        }
    }

    fn revision_message(
        &mut self,
        reply: SecretsReply,
        lead: &str,
        middle: &str,
        key: String,
    ) -> (q: SecretsRequest)
        requires
            reply@ is Answer,
            reply@->Answer_0 matches Ok(a) ==> a is Snapshot,
        ensures
            (final(self)@, q@) == match answer_error(reply@) {
                Some(e) => done(old(self)@, Err(e)),
                None => done(
                    old(self)@,
                    Ok(
                        lead@ + key@ + middle@ + old(self)@.vault.name + " at revision "@
                            + decimal(got_snapshot(reply@).revision as nat) + "."@,
                    ),
                ),
            },
    {
        match take_snapshot(reply) {
            Err(e) => self.finish(Err(e)),
            Ok(updated) => {
                let mut m = lead.to_owned();
                push_str(&mut m, key.as_str());
                push_str(&mut m, middle);
                push_str(&mut m, self.vault.name.as_str());
                push_str(&mut m, " at revision ");
                push_decimal(&mut m, updated.revision);
                push_str(&mut m, ".");
                self.finish(Ok(m))
            },
        }
    }

    fn access_text(&self) -> (m: String)
        requires
            self@.args.len() >= 5 || (self@.args.len() >= 4 && (self@.args[1] == "grant-user"@
                || self@.args[1] == "revoke-user"@)),
        ensures
            m@ == access_message(self@.args),
    {
        let ghost a = self.args.deep_view();
        assert(a[1] == self.args@[1]@ && a[2] == self.args@[2]@ && a[3] == self.args@[3]@);
        proof {
            reveal_strlit("grant-user");
            reveal_strlit("revoke-user");
            reveal_strlit("grant-team");
        }
        let action = self.args[1].as_str();
        let grant = same(action, "grant-user") || same(action, "grant-team");
        let user = same(action, "grant-user") || same(action, "revoke-user");
        let mut m = if grant {
            "Saved ".to_owned()
        } else {
            "Revoked ".to_owned()
        };
        push_str(&mut m, self.args[2].as_str());
        if grant {
            push_str(&mut m, " access for ");
        } else {
            push_str(&mut m, " access from ");
        }
        push_str(&mut m, self.args[3].as_str());
        if !user {
            assert(a[4] == self.args@[4]@);
            m.push('/');
            push_str(&mut m, self.args[4].as_str());
        }
        push_str(&mut m, ".");
        m
    }

    fn step_answer(&mut self, reply: SecretsReply) -> (q: SecretsRequest)
        requires
            expects(old(self)@, reply@),
            !is_key_step(old(self)@.step),
            !(old(self)@.step == 0 || old(self)@.step == 1 || old(self)@.step == 2 || old(self)@.step
                == 3 || old(self)@.step == 30 || old(self)@.step == 50 || old(self)@.step == 63
                || old(self)@.step == 73),
        ensures
            (final(self)@, q@) == next_plain(old(self)@, reply@),
    {
        let ghost a = self.args.deep_view();
        let step = self.step;
        if step == 10 {
            return match take_grants(reply) {
                Err(e) => self.finish(Err(e)),
                Ok(gs) => {
                    let text = grant_lines(&gs);
                    proof {
                        let g = got_grants(reply@);
                        assert(Seq::new(g.len(), |i: int| grant_line(g[i])) =~= Seq::new(
                            gs@.len(),
                            |i: int| grant_line(gs@[i]@),
                        ));
                    }
                    self.finish(Ok(text))
                },
            };
        }
        if step == 11 {
            return match take_owner(reply) {
                Err(e) => self.finish(Err(e)),
                Ok(user) => {
                    assert(a[1] == self.args@[1]@ && a[2] == self.args@[2]@);
                    self.user = user.clone();
                    if same(self.args[1].as_str(), "grant-user") {
                        match requested_permission(self.args.as_slice()) {
                            Err(e) => self.finish(Err(e)),
                            Ok(permission) => {
                                let payload = Payload::SetUserGrant {
                                    owner: self.route.owner.clone(),
                                    storage_id: self.route.storage_id.clone(),
                                    vault: self.args[2].clone(),
                                    user,
                                    permission,
                                };
                                self.shard_call(12, false, payload)
                            },
                        }
                    } else {
                        let payload = Payload::RevokeUserGrant {
                            owner: self.route.owner.clone(),
                            storage_id: self.route.storage_id.clone(),
                            vault: self.args[2].clone(),
                            user,
                        };
                        self.shard_call(12, false, payload)
                    }
                },
            };
        }
        if step == 91 {
            return match take_unit(reply) {
                Err(e) => self.finish(Err(e)),
                Ok(_) => {
                    assert(a[1] == self.args@[1]@);
                    let mut m = "Deleted vault '".to_owned();
                    push_str(&mut m, self.args[1].as_str());
                    push_str(&mut m, "'.");
                    self.finish(Ok(m))
                },
            };
        }
        if step == 12 {
            return match take_unit(reply) {
                Err(e) => self.finish(Err(e)),
                Ok(_) => {
                    let m = self.access_text();
                    self.finish(Ok(m))
                },
            };
        }
        if step == 20 {
            return match take_summaries(reply) {
                Err(e) => self.finish(Err(e)),
                Ok(vs) => {
                    let text = summary_lines(&vs);
                    proof {
                        let g = got_summaries(reply@);
                        assert(Seq::new(g.len(), |i: int| summary_line(g[i])) =~= Seq::new(
                            vs@.len(),
                            |i: int| summary_line(vs@[i]@),
                        ));
                    }
                    self.finish(Ok(text))
                },
            };
        }
        if step == 21 {
            return match take_summary(reply) {
                Err(e) => self.finish(Err(e)),
                Ok(v) => {
                    let mut m = "Created vault '".to_owned();
                    push_str(&mut m, v.name.as_str());
                    push_str(&mut m, "'.");
                    self.finish(Ok(m))
                },
            };
        }
        if step == 34 {
            assert(a[2] == self.args@[2]@);
            let key = self.args[2].clone();
            return self.revision_message(reply, "Saved ", " in ", key);
        }
        if step == 41 {
            assert(a[2] == self.args@[2]@);
            let key = self.args[2].clone();
            return self.revision_message(reply, "Deleted ", " from ", key);
        }
        if step == 54 {
            let mut count = String::new();
            push_decimal(&mut count, self.values.len() as u128);
            assert(self.values.deep_view().len() == self.values@.len());
            return self.revision_message(reply, "Published ", " secrets to ", count);
        }
        let v = match take_snapshot(reply) {
            Err(e) => {
                return self.finish(Err(e));
            },
            Ok(v) => v,
        };
        if step == 22 {
            let text = secret_name_lines(&v);
            assert(Seq::new(v@.secrets.len(), |i: int| v@.secrets[i].name) =~= Seq::new(
                v.secrets@.len(),
                |i: int| v.secrets@[i].name@,
            ));
            return self.finish(Ok(text));
        }
        if step == 85 {
            let mut m = "Rotated vault '".to_owned();
            push_str(&mut m, v.name.as_str());
            push_str(&mut m, "' to revision ");
            push_decimal(&mut m, v.revision);
            push_str(&mut m, ".");
            return self.finish(Ok(m));
        }
        if step == 40 {
            assert(a[2] == self.args@[2]@);
            let deletes = vec![self.args[2].clone()];
            assert(deletes.deep_view() =~= seq![a[2]]);
            let payload = Payload::UpdateSecrets {
                owner: self.route.owner.clone(),
                storage_id: self.route.storage_id.clone(),
                vault: v.name.clone(),
                upserts: Vec::new(),
                deletes: crate::command::args_from(deletes.as_slice(), 0),
                revision: v.revision,
            };
            assert(secrets_view(Seq::<VaultSecret>::empty()) =~= Seq::<SecretView>::empty());
            self.vault = v;
            self.deletes = deletes;
            return self.shard_call(41, false, payload);
        }
        if step == 90 {
            assert(a[1] == self.args@[1]@);
            let payload = Payload::DeleteVault {
                owner: self.route.owner.clone(),
                storage_id: self.route.storage_id.clone(),
                vault: self.args[1].clone(),
                revision: v.revision,
            };
            self.vault = v;
            return self.shard_call(91, false, payload);
        }
        if step == 51 {
            let deletes = stale_secrets(&v, &self.values);
            let epoch = v.epoch;
            self.vault = v;
            self.deletes = deletes;
            return self.begin_key(52, epoch);
        }
        let epoch = v.epoch;
        self.vault = v;
        self.begin_key(step + 1, epoch)
    }

    /// Whether the session waits for a reply of this kind.
    pub fn accepts(&self, reply: &SecretsReply) -> (r: bool)
        ensures
            r == expects(self@, reply@),
    {
        let step = self.step;
        let known = (step <= 3) || (10 <= step && step <= 12) || (20 <= step && step <= 22) || (30
            <= step && step <= 34) || (40 <= step && step <= 41) || (50 <= step && step <= 54) || (60
            <= step && step <= 63) || (70 <= step && step <= 73) || (80 <= step && step <= 85) || (90
            <= step && step <= 91);
        if !known || !self.args_fit() {
            return false;
        }
        let encrypted_key_step = step == 33 || step == 53 || step == 62 || step == 72 || step == 82
            || step == 84;
        if encrypted_key_step && self.transport_seed.len() != 32 {
            return false;
        }
        if step == 0 {
            matches!(reply, SecretsReply::Begin)
        } else if step == 1 || step == 2 || step == 30 || step == 50 || step == 63 {
            matches!(reply, SecretsReply::Text(_))
        } else if step == 73 {
            matches!(reply, SecretsReply::Exit(_))
        } else {
            match reply {
                SecretsReply::Answer(Err(_)) => true,
                SecretsReply::Answer(Ok(a)) => {
                    if step == 3 {
                        matches!(a, Answer::Route(_))
                    } else if step == 10 {
                        matches!(a, Answer::Grants(_))
                    } else if step == 11 {
                        matches!(a, Answer::Owner(_))
                    } else if step == 12 || step == 91 {
                        matches!(a, Answer::Unit(_))
                    } else if step == 20 {
                        matches!(a, Answer::Summaries(_))
                    } else if step == 21 {
                        matches!(a, Answer::Summary(_))
                    } else if step == 32 || step == 52 || step == 61 || step == 71 || step == 81
                        || step == 83 || encrypted_key_step {
                        matches!(a, Answer::Bytes(_))
                    } else {
                        matches!(a, Answer::Snapshot(_))
                    }
                },
                _ => false,
            }
        }
    }

    fn args_fit(&self) -> (r: bool)
        ensures
            r == args_fit(self@),
    {
        let step = self.step;
        let n = self.args.len();
        let ghost a = self.args.deep_view();
        if step != 0 && n == 0 {
            return false;
        }
        if ((10 <= step && step <= 12) || (30 <= step && step <= 34) || (40 <= step && step <= 41))
            && n < 3 {
            return false;
        }
        if (20 <= step && step <= 22 || 50 <= step && step <= 91) && n < 2 {
            return false;
        }
        if step == 11 || step == 12 {
            assert(a[1] == self.args@[1]@);
            let user = n >= 4 && (same(self.args[1].as_str(), "grant-user") || same(
                self.args[1].as_str(),
                "revoke-user",
            ));
            if step == 11 && !user {
                return false;
            }
            if step == 12 && !(n >= 5 || user) {
                return false;
            }
        }
        if 50 <= step && step <= 54 && !self.flag_fits("--from-dotenv") {
            return false;
        }
        if step == 63 && !self.flag_fits("--output") {
            return false;
        }
        if 70 <= step && step <= 73 && !self.flag_fits("--") {
            return false;
        }
        true
    }

    fn flag_fits(&self, flag: &str) -> (r: bool)
        ensures
            r == flag_has_value(self@.args, flag@),
    {
        match position(self.args.as_slice(), flag) {
            Some(i) => i + 1 < self.args.len(),
            None => false,
        }
    }

    /// Takes the outcome of the last request and says what to do next.
    pub fn advance(&mut self, reply: SecretsReply) -> (q: SecretsRequest)
        requires
            expects(old(self)@, reply@),
        ensures
            step_relation(old(self)@, reply@, final(self)@, q@),
    {
        let step = self.step;
        if step == 32 || step == 52 || step == 61 || step == 71 || step == 81 || step == 83 {
            self.key_call(reply)
        } else if step == 33 || step == 53 || step == 62 || step == 72 || step == 82 || step == 84 {
            self.key_outcome(reply)
        } else if step == 0 || step == 1 || step == 2 || step == 3 || step == 30 || step == 50
            || step == 63 || step == 73 {
            self.step_plain(reply)
        } else {
            self.step_answer(reply)
        }
    }
}

} // verus!
