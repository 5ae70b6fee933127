//! The command line of `infinigit`: which command an argument list asks for,
//! with its defaults, and which argument lists are refused.
use vstd::prelude::*;
use crate::args::{flag_value, has_flag, value};
use crate::names::{
    is_device_label, is_identity_name, is_root_key, is_storage, is_trusted_origin, valid_label,
    valid_name, valid_root_key, valid_storage, trusted_origin,
};
use crate::text::{chars_of, has_ws, is_prefix, range_has_ws, same, starts_with};

verus! {

pub const DEFAULT_IDENTITY: &'static str = "infinigit";

pub const DEFAULT_AUTH: &'static str = "https://id.ai";

pub const DEFAULT_APP: &'static str = "https://infinigit.com";

pub const DEFAULT_NETWORK: &'static str = "ic";

/// The directory canister that `secrets` commands use when none is configured.
pub const DEFAULT_DIRECTORY: &'static str = "vc3gg-2qaaa-aaaae-qklda-cai";

pub const LOCAL_NETWORK: &'static str = "http://127.0.0.1:4943";

pub const MAIN_USAGE: &'static str = "usage: infinigit <auth|import|secrets> [options]";

pub const SECRETS_USAGE: &'static str =
    "usage: infinigit secrets <vaults|create|list|set|unset|put|pull|run|delete|access>";

pub const IMPORT_USAGE: &'static str =
    "usage: infinigit import <source-git-url> <igit://host/namespace/repository>";

pub const IMPORT_DESTINATION: &'static str =
    "import destination must be an igit:// repository URL";

pub const AUTH_USAGE: &'static str = "usage: infinigit auth <login|status|reauth|logout> [options]";

pub const LOCAL_DEV_INVALID: &'static str = "INFINIGIT_LOCAL_DEV must be 1, true, 0, or false";

/// A command that the argument list asks for.
#[derive(Debug, PartialEq, Eq)]
pub enum AuthCommand {
    Secrets { args: Vec<String> },
    Import { source: String, destination: String },
    Login { name: String, auth: String, app: String, storage: String },
    Status { name: String },
    Reauth { name: String },
    Logout { name: String },
    LinkDevice {
        name: String,
        label: String,
        storage: String,
        read_only: bool,
        reuse_existing: bool,
        directory: Option<String>,
        network: String,
        root_key: String,
    },
}

/// The mathematical value of an [`AuthCommand`].
pub enum CommandView {
    Secrets { args: Seq<Seq<char>> },
    Import { source: Seq<char>, destination: Seq<char> },
    Login { name: Seq<char>, auth: Seq<char>, app: Seq<char>, storage: Seq<char> },
    Status { name: Seq<char> },
    Reauth { name: Seq<char> },
    Logout { name: Seq<char> },
    LinkDevice {
        name: Seq<char>,
        label: Seq<char>,
        storage: Seq<char>,
        read_only: bool,
        reuse_existing: bool,
        directory: Option<Seq<char>>,
        network: Seq<char>,
        root_key: Seq<char>,
    },
}

impl View for AuthCommand {
    type V = CommandView;

    open spec fn view(&self) -> CommandView {
        match self {
            AuthCommand::Secrets { args } => CommandView::Secrets { args: args.deep_view() },
            AuthCommand::Import { source, destination } => CommandView::Import {
                source: source@,
                destination: destination@,
            },
            AuthCommand::Login { name, auth, app, storage } => CommandView::Login {
                name: name@,
                auth: auth@,
                app: app@,
                storage: storage@,
            },
            AuthCommand::Status { name } => CommandView::Status { name: name@ },
            AuthCommand::Reauth { name } => CommandView::Reauth { name: name@ },
            AuthCommand::Logout { name } => CommandView::Logout { name: name@ },
            AuthCommand::LinkDevice {
                name,
                label,
                storage,
                read_only,
                reuse_existing,
                directory,
                network,
                root_key,
            } => CommandView::LinkDevice {
                name: name@,
                label: label@,
                storage: storage@,
                read_only: *read_only,
                reuse_existing: *reuse_existing,
                directory: directory.deep_view(),
                network: network@,
                root_key: root_key@,
            },
        }
    }
}

/// What the parser reads besides the arguments: environment variables, and
/// the global Git configuration entries that local development falls back to.
/// `None` stands for a variable that is unset (or not Unicode), and for a Git
/// lookup that failed.
pub struct Environment {
    /// `INFINIGIT_AUTH_ORIGIN`
    pub auth_origin: Option<String>,
    /// `INFINIGIT_APP_ORIGIN`
    pub app_origin: Option<String>,
    /// `INFINIGIT_LOCAL_DEV`
    pub local_dev: Option<String>,
    /// `INFINIGIT_DIRECTORY_CANISTER_ID`
    pub directory: Option<String>,
    /// `INFINIGIT_NETWORK`
    pub network: Option<String>,
    /// `INFINIGIT_ROOT_KEY`
    pub root_key: Option<String>,
    /// `git config --global --get infinigit.directory-canister`
    pub git_directory: Option<String>,
    /// `git config --global --get infinigit.network`
    pub git_network: Option<String>,
    /// `git config --global --get infinigit.root-key`
    pub git_root_key: Option<String>,
}

impl Environment {
    /// An environment where nothing is set.
    pub fn new() -> (r: Environment)
        ensures
            r.auth_origin is None,
            r.app_origin is None,
            r.local_dev is None,
            r.directory is None,
            r.network is None,
            r.root_key is None,
            r.git_directory is None,
            r.git_network is None,
            r.git_root_key is None,
    {
        Environment {
            auth_origin: None,
            app_origin: None,
            local_dev: None,
            directory: None,
            network: None,
            root_key: None,
            git_directory: None,
            git_network: None,
            git_root_key: None,
        }
    }
}

/// The view of a parse result.
pub open spec fn command_result(r: Result<AuthCommand, String>) -> Result<CommandView, Seq<char>> {
    match r {
        Ok(c) => Ok(c@),
        Err(e) => Err(e@),
    }
}

/// `o.unwrap_or(d)`.
pub open spec fn or_default(o: Option<Seq<char>>, d: Seq<char>) -> Seq<char> {
    match o {
        Some(v) => v,
        None => d,
    }
}

/// How `INFINIGIT_LOCAL_DEV` is read.
pub open spec fn local_dev_setting(s: Option<Seq<char>>) -> Result<bool, Seq<char>> {
    match s {
        None => Ok(false),
        Some(v) => if v == ""@ || v == "0"@ || v == "false"@ {
            Ok(false)
        } else if v == "1"@ || v == "true"@ {
            Ok(true)
        } else {
            Err(LOCAL_DEV_INVALID@)
        },
    }
}

/// A device-link setting: the environment variable, else (in local
/// development) the Git configuration entry or `local_default`, else `default`.
pub open spec fn fallback_setting(
    env_value: Option<Seq<char>>,
    git_value: Option<Seq<char>>,
    local: bool,
    local_default: Seq<char>,
    default: Seq<char>,
) -> Seq<char> {
    match env_value {
        Some(v) => v,
        None => if local {
            or_default(git_value, local_default)
        } else {
            default
        },
    }
}

pub open spec fn import_spec(args: Seq<Seq<char>>) -> Result<CommandView, Seq<char>> {
    if !(args.len() > 1 && !is_prefix("-"@, args[1])) {
        Err(IMPORT_USAGE@)
    } else if !(args.len() > 2 && is_prefix("igit://"@, args[2]) && !has_ws(args[2])) {
        Err(IMPORT_DESTINATION@)
    } else if args.len() != 3 {
        Err(IMPORT_USAGE@)
    } else {
        Ok(CommandView::Import { source: args[1], destination: args[2] })
    }
}

pub open spec fn login_spec(args: Seq<Seq<char>>, env: Environment, name: Seq<char>) -> Result<
    CommandView,
    Seq<char>,
> {
    match flag_value(args, "--auth"@, or_default(env.auth_origin.deep_view(), DEFAULT_AUTH@)) {
        Err(e) => Err(e),
        Ok(auth) => match flag_value(
            args,
            "--app"@,
            or_default(env.app_origin.deep_view(), DEFAULT_APP@),
        ) {
            Err(e) => Err(e),
            Ok(app) => match flag_value(args, "--storage"@, "keyring"@) {
                Err(e) => Err(e),
                Ok(storage) => if !is_storage(storage) {
                    Err("invalid identity storage"@)
                } else if !is_trusted_origin(auth) {
                    Err("invalid auth origin"@)
                } else if !is_trusted_origin(app) {
                    Err("invalid app origin"@)
                } else {
                    Ok(CommandView::Login { name, auth, app, storage })
                },
            },
        },
    }
}

pub open spec fn link_device_checked(
    args: Seq<Seq<char>>,
    name: Seq<char>,
    label: Seq<char>,
    storage: Seq<char>,
    directory: Seq<char>,
    network: Seq<char>,
    root_key: Seq<char>,
) -> Result<CommandView, Seq<char>> {
    if !is_device_label(label) {
        Err("invalid device label"@)
    } else if !is_storage(storage) {
        Err("invalid identity storage"@)
    } else if network.len() == 0 || !is_root_key(root_key) {
        Err("invalid network or root key"@)
    } else {
        Ok(
            CommandView::LinkDevice {
                name,
                label,
                storage,
                read_only: args.contains("--read-only"@),
                reuse_existing: args.contains("--reuse-existing"@),
                directory: if directory.len() == 0 {
                    None
                } else {
                    Some(directory)
                },
                network,
                root_key,
            },
        )
    }
}

/// A device link. Its directory canister comes from `--directory`, else
/// `INFINIGIT_DIRECTORY_CANISTER_ID`, else (in local development) Git's
/// configuration; there is no built-in one, so without any the command has
/// no directory and linking stops with an error.
pub open spec fn link_device_spec(args: Seq<Seq<char>>, env: Environment, name: Seq<char>) -> Result<
    CommandView,
    Seq<char>,
> {
    match local_dev_setting(env.local_dev.deep_view()) {
        Err(e) => Err(e),
        Ok(local) => match flag_value(args, "--label"@, "CLI device"@) {
            Err(e) => Err(e),
            Ok(label) => match flag_value(args, "--storage"@, "plaintext"@) {
                Err(e) => Err(e),
                Ok(storage) => {
                    let dir_fallback = fallback_setting(
                        env.directory.deep_view(),
                        env.git_directory.deep_view(),
                        local,
                        ""@,
                        ""@,
                    );
                    let net_fallback = fallback_setting(
                        env.network.deep_view(),
                        env.git_network.deep_view(),
                        local,
                        LOCAL_NETWORK@,
                        DEFAULT_NETWORK@,
                    );
                    let key_fallback = fallback_setting(
                        env.root_key.deep_view(),
                        env.git_root_key.deep_view(),
                        local,
                        "fetch"@,
                        "mainnet"@,
                    );
                    match flag_value(args, "--directory"@, dir_fallback) {
                        Err(e) => Err(e),
                        Ok(directory) => match flag_value(args, "--network"@, net_fallback) {
                            Err(e) => Err(e),
                            Ok(network) => match flag_value(args, "--root-key"@, key_fallback) {
                                Err(e) => Err(e),
                                Ok(root_key) => link_device_checked(
                                    args,
                                    name,
                                    label,
                                    storage,
                                    directory,
                                    network,
                                    root_key,
                                ),
                            },
                        },
                    }
                },
            },
        },
    }
}

pub open spec fn auth_spec(args: Seq<Seq<char>>, env: Environment) -> Result<
    CommandView,
    Seq<char>,
> {
    if args.len() < 2 {
        Err("missing auth command"@)
    } else {
        match flag_value(args, "--name"@, DEFAULT_IDENTITY@) {
            Err(e) => Err(e),
            Ok(name) => if !is_identity_name(name) {
                Err("invalid identity name"@)
            } else if args[1] == "login"@ {
                login_spec(args, env, name)
            } else if args[1] == "status"@ {
                Ok(CommandView::Status { name })
            } else if args[1] == "reauth"@ {
                Ok(CommandView::Reauth { name })
            } else if args[1] == "logout"@ {
                Ok(CommandView::Logout { name })
            } else if args[1] == "link-device"@ {
                link_device_spec(args, env, name)
            } else {
                Err(AUTH_USAGE@)
            },
        }
    }
}

/// What `parse` answers for an argument list (the program name excluded).
pub open spec fn parse_spec(args: Seq<Seq<char>>, env: Environment) -> Result<
    CommandView,
    Seq<char>,
> {
    if args.len() > 0 && args[0] == "secrets"@ {
        if args.len() < 2 {
            Err(SECRETS_USAGE@)
        } else {
            Ok(CommandView::Secrets { args: args.skip(1) })
        }
    } else if args.len() > 0 && args[0] == "import"@ {
        import_spec(args)
    } else if !(args.len() > 0 && args[0] == "auth"@) {
        Err(MAIN_USAGE@)
    } else {
        auth_spec(args, env)
    }
}

/// Reads the `INFINIGIT_LOCAL_DEV` setting.
pub fn local_development(setting: &Option<String>) -> (r: Result<bool, String>)
    ensures
        match r {
            Ok(b) => local_dev_setting(setting.deep_view()) == Ok::<bool, Seq<char>>(b),
            Err(e) => local_dev_setting(setting.deep_view()) == Err::<bool, Seq<char>>(e@),
        },
{
    match setting {
        None => Ok(false),
        Some(v) => {
            if same(v.as_str(), "") || same(v.as_str(), "0") || same(v.as_str(), "false") {
                Ok(false)
            } else if same(v.as_str(), "1") || same(v.as_str(), "true") {
                Ok(true)
            } else {
                Err(LOCAL_DEV_INVALID.to_owned())
            }
        },
    }
}

/// Whether parsing `args` may use Git's configuration: only a device link in
/// local development falls back to it.
pub open spec fn git_settings_used(args: Seq<Seq<char>>, local_dev: Option<Seq<char>>) -> bool {
    &&& args.len() >= 2
    &&& args[0] == "auth"@
    &&& args[1] == "link-device"@
    &&& local_dev_setting(local_dev) == Ok::<bool, Seq<char>>(true)
}

/// Whether the Git configuration entries of [`Environment`] matter for `args`.
pub fn reads_git_settings(args: &[String], local_dev: &Option<String>) -> (r: bool)
    ensures
        r == git_settings_used(args.deep_view(), local_dev.deep_view()),
{
    if args.len() < 2 {
        return false;
    }
    assert(args.deep_view()[0] == args@[0]@ && args.deep_view()[1] == args@[1]@);
    let local = match local_development(local_dev) {
        Ok(local) => local,
        Err(_) => false,
    };
    same(args[0].as_str(), "auth") && same(args[1].as_str(), "link-device") && local
}

/// A copy of a command.
pub fn copy_command(c: &AuthCommand) -> (r: AuthCommand)
    ensures
        r@ == c@,
{
    match c {
        AuthCommand::Secrets { args } => AuthCommand::Secrets { args: args_from(args.as_slice(), 0) },
        AuthCommand::Import { source, destination } => AuthCommand::Import {
            source: source.clone(),
            destination: destination.clone(),
        },
        AuthCommand::Login { name, auth, app, storage } => AuthCommand::Login {
            name: name.clone(),
            auth: auth.clone(),
            app: app.clone(),
            storage: storage.clone(),
        },
        AuthCommand::Status { name } => AuthCommand::Status { name: name.clone() },
        AuthCommand::Reauth { name } => AuthCommand::Reauth { name: name.clone() },
        AuthCommand::Logout { name } => AuthCommand::Logout { name: name.clone() },
        AuthCommand::LinkDevice {
            name,
            label,
            storage,
            read_only,
            reuse_existing,
            directory,
            network,
            root_key,
        } => AuthCommand::LinkDevice {
            name: name.clone(),
            label: label.clone(),
            storage: storage.clone(),
            read_only: *read_only,
            reuse_existing: *reuse_existing,
            directory: copy_option(directory),
            network: network.clone(),
            root_key: root_key.clone(),
        },
    }
}

/// A copy of `v`.
pub fn copy_option(v: &Option<String>) -> (r: Option<String>)
    ensures
        r.deep_view() == v.deep_view(),
{
    match v {
        Some(s) => Some(s.clone()),
        None => None,
    }
}

/// Computes [`fallback_setting`].
pub fn fallback(
    env_value: &Option<String>,
    git_value: &Option<String>,
    local: bool,
    local_default: &str,
    default: &str,
) -> (r: String)
    ensures
        r@ == fallback_setting(
            env_value.deep_view(),
            git_value.deep_view(),
            local,
            local_default@,
            default@,
        ),
{
    match env_value {
        Some(v) => v.clone(),
        None => if local {
            match git_value {
                Some(g) => g.clone(),
                None => local_default.to_owned(),
            }
        } else {
            default.to_owned()
        },
    }
}

/// `args[from..]` as a new vector.
pub fn args_from(args: &[String], from: usize) -> (r: Vec<String>)
    requires
        from <= args.len(),
    ensures
        r.deep_view() == args.deep_view().skip(from as int),
        from == 0 ==> r.deep_view() == args.deep_view(),
{
    let mut r: Vec<String> = Vec::new();
    let mut i = from;
    while i < args.len()
        invariant
            from <= i <= args.len(),
            r@.len() == i - from,
            forall|j: int| 0 <= j < r@.len() ==> #[trigger] r@[j]@ == args@[from + j]@,
        decreases args.len() - i,
    {
        r.push(args[i].clone());
        i = i + 1;
    }
    assert(r.deep_view() =~= args.deep_view().skip(from as int));
    r
}

fn parse_import(args: &[String]) -> (r: Result<AuthCommand, String>)
    requires
        args.len() > 0,
    ensures
        command_result(r) == import_spec(args.deep_view()),
{
    let ghost a = args.deep_view();
    if !(args.len() > 1 && !starts_with(args[1].as_str(), "-")) {
        return Err(IMPORT_USAGE.to_owned());
    }
    let source = args[1].clone();
    if !(args.len() > 2 && starts_with(args[2].as_str(), "igit://") && !{
        let cs = chars_of(args[2].as_str());
        let w = range_has_ws(cs.as_slice(), 0, cs.len());
        assert(cs@.subrange(0, cs@.len() as int) == cs@);
        w
    }) {
        return Err(IMPORT_DESTINATION.to_owned());
    }
    let destination = args[2].clone();
    if args.len() != 3 {
        return Err(IMPORT_USAGE.to_owned());
    }
    Ok(AuthCommand::Import { source, destination })
}

fn parse_login(args: &[String], env: &Environment, name: String) -> (r: Result<
    AuthCommand,
    String,
>)
    ensures
        command_result(r) == login_spec(args.deep_view(), *env, name@),
{
    let auth_fallback = match &env.auth_origin {
        Some(v) => v.clone(),
        None => DEFAULT_AUTH.to_owned(),
    };
    let auth = value(args, "--auth", auth_fallback.as_str())?;
    let app_fallback = match &env.app_origin {
        Some(v) => v.clone(),
        None => DEFAULT_APP.to_owned(),
    };
    let app = value(args, "--app", app_fallback.as_str())?;
    let storage = value(args, "--storage", "keyring")?;
    if !valid_storage(storage.as_str()) {
        return Err("invalid identity storage".to_owned());
    }
    if !trusted_origin(auth.as_str()) {
        return Err("invalid auth origin".to_owned());
    }
    if !trusted_origin(app.as_str()) {
        return Err("invalid app origin".to_owned());
    }
    Ok(AuthCommand::Login { name, auth, app, storage })
}

fn parse_link_device(args: &[String], env: &Environment, name: String) -> (r: Result<
    AuthCommand,
    String,
>)
    ensures
        command_result(r) == link_device_spec(args.deep_view(), *env, name@),
{
    let local = local_development(&env.local_dev)?;
    let label = value(args, "--label", "CLI device")?;
    let storage = value(args, "--storage", "plaintext")?;
    let dir_fallback = fallback(&env.directory, &env.git_directory, local, "", "");
    let net_fallback = fallback(
        &env.network,
        &env.git_network,
        local,
        LOCAL_NETWORK,
        DEFAULT_NETWORK,
    );
    let key_fallback = fallback(&env.root_key, &env.git_root_key, local, "fetch", "mainnet");
    let directory = value(args, "--directory", dir_fallback.as_str())?;
    let network = value(args, "--network", net_fallback.as_str())?;
    let root_key = value(args, "--root-key", key_fallback.as_str())?;
    if !valid_label(label.as_str()) {
        return Err("invalid device label".to_owned());
    }
    if !valid_storage(storage.as_str()) {
        return Err("invalid identity storage".to_owned());
    }
    if network.as_str().is_empty() || !valid_root_key(root_key.as_str()) {
        return Err("invalid network or root key".to_owned());
    }
    let read_only = has_flag(args, "--read-only");
    let reuse_existing = has_flag(args, "--reuse-existing");
    let directory = if directory.as_str().is_empty() {
        None
    } else {
        Some(directory)
    };
    Ok(
        AuthCommand::LinkDevice {
            name,
            label,
            storage,
            read_only,
            reuse_existing,
            directory,
            network,
            root_key,
        },
    )
}

fn parse_auth(args: &[String], env: &Environment) -> (r: Result<AuthCommand, String>)
    ensures
        command_result(r) == auth_spec(args.deep_view(), *env),
{
    if args.len() < 2 {
        return Err("missing auth command".to_owned());
    }
    let name = value(args, "--name", DEFAULT_IDENTITY)?;
    if !valid_name(name.as_str()) {
        return Err("invalid identity name".to_owned());
    }
    let action = args[1].as_str();
    if same(action, "login") {
        parse_login(args, env, name)
    } else if same(action, "status") {
        Ok(AuthCommand::Status { name })
    } else if same(action, "reauth") {
        Ok(AuthCommand::Reauth { name })
    } else if same(action, "logout") {
        Ok(AuthCommand::Logout { name })
    } else if same(action, "link-device") {
        parse_link_device(args, env, name)
    } else {
        Err(AUTH_USAGE.to_owned())
    }
}

/// The command that `args` (the program name excluded) asks for, or the
/// message that refuses it.
pub fn parse(args: &[String], env: &Environment) -> (r: Result<AuthCommand, String>)
    ensures
        command_result(r) == parse_spec(args.deep_view(), *env),
{
    if args.len() > 0 && same(args[0].as_str(), "secrets") {
        if args.len() < 2 {
            return Err(SECRETS_USAGE.to_owned());
        }
        return Ok(AuthCommand::Secrets { args: args_from(args, 1) });
    }
    if args.len() > 0 && same(args[0].as_str(), "import") {
        return parse_import(args);
    }
    if !(args.len() > 0 && same(args[0].as_str(), "auth")) {
        return Err(MAIN_USAGE.to_owned());
    }
    parse_auth(args, env)
}

} // verus!
