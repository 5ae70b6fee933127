//! What the outcome of running `git` or `icp` means, the Git configuration
//! commands, and the argument list of an ICP canister call.
use vstd::prelude::*;
use crate::command::{DEFAULT_IDENTITY, DEFAULT_NETWORK};
use crate::fmt::hex_lower;
use crate::text::{chars_of, concat, push_str, range_eq, trim, trimmed};

verus! {

/// The programs that the command line drives.
#[derive(Clone, Copy, Debug, PartialEq, Eq, Structural)]
pub enum Tool {
    Git,
    Icp,
}

pub open spec fn tool_name(t: Tool) -> Seq<char> {
    match t {
        Tool::Git => "git"@,
        Tool::Icp => "icp"@,
    }
}

impl Tool {
    /// The program's name on `PATH`.
    pub fn program(&self) -> (r: &'static str)
        ensures
            r@ == tool_name(*self),
    {
        match self {
            Tool::Git => "git",
            Tool::Icp => "icp",
        }
    }
}

/// A finished process, its output already decoded as (lossy) UTF-8.
pub struct Output {
    pub success: bool,
    pub stdout: String,
    pub stderr: String,
}

/// `cannot run {program}: {error}`.
pub open spec fn spawn_failure(program: Seq<char>, error: Seq<char>) -> Seq<char> {
    "cannot run "@ + program + ": "@ + error
}

/// The result of a captured run: trimmed standard output, or the trimmed
/// standard error (`{program} failed` when that is empty).
pub open spec fn run_result(program: Seq<char>, spawned: Result<Output, String>) -> Result<
    Seq<char>,
    Seq<char>,
> {
    match spawned {
        Err(e) => Err(spawn_failure(program, e@)),
        Ok(out) => if !out.success {
            if trim(out.stderr@).len() == 0 {
                Err(program + " failed"@)
            } else {
                Err(trim(out.stderr@))
            }
        } else {
            Ok(trim(out.stdout@))
        },
    }
}

/// The result of a run whose standard input and error go to the terminal.
pub open spec fn prompt_result(program: Seq<char>, spawned: Result<(bool, String), String>) -> Result<
    Seq<char>,
    Seq<char>,
> {
    match spawned {
        Err(e) => Err(spawn_failure(program, e@)),
        Ok(out) => if !out.0 {
            Err(program + " failed"@)
        } else {
            Ok(trim(out.1@))
        },
    }
}

/// The result of an interactive run: nothing on success.
pub open spec fn interactive_result(program: Seq<char>, spawned: Result<bool, String>) -> Result<
    Seq<char>,
    Seq<char>,
> {
    match spawned {
        Err(e) => Err(spawn_failure(program, e@)),
        Ok(success) => if success {
            Ok(seq![])
        } else {
            Err(program + " authentication failed"@)
        },
    }
}

/// The value of a Git configuration entry, or `fallback` when Git reported none.
pub open spec fn config_value(found: Result<Seq<char>, Seq<char>>, fallback: Seq<char>) -> Seq<
    char,
> {
    match found {
        Ok(v) => v,
        Err(_) => fallback,
    }
}

/// The Git commands that make `name` the identity for infinigit, and record
/// the auth and app origins when they are given.
pub open spec fn configure_plan(name: Seq<char>, auth: Option<Seq<char>>, app: Option<Seq<char>>) -> Seq<
    Seq<Seq<char>>,
> {
    seq![seq!["config"@, "--global"@, "infinigit.identity"@, name]] + match auth {
        Some(a) => seq![seq!["config"@, "--global"@, "infinigit.auth-origin"@, a]],
        None => seq![],
    } + match app {
        Some(a) => seq![seq!["config"@, "--global"@, "infinigit.app-origin"@, a]],
        None => seq![],
    }
}

/// `s.contains(p)` for a string pattern.
pub open spec fn has_substring(s: Seq<char>, p: Seq<char>) -> bool {
    exists|i: int| 0 <= i <= s.len() - p.len() && #[trigger] s.subrange(i, i + p.len()) == p
}

/// The arguments of `icp` for one canister call with hex-encoded Candid.
pub open spec fn call_args(
    canister: Seq<char>,
    method: Seq<char>,
    payload: Seq<u8>,
    query: bool,
    identity: Seq<char>,
    network: Seq<char>,
    root_key: Seq<char>,
) -> Seq<Seq<char>> {
    seq![
        "canister"@,
        "call"@,
        canister,
        method,
        hex_lower(payload),
        "--args-format"@,
        "hex"@,
        "--output"@,
        "hex"@,
        "--identity"@,
        identity,
        "--network"@,
        network,
    ] + (if query {
        seq!["--query"@]
    } else {
        seq![]
    }) + (if has_substring(network, "://"@) {
        seq!["--root-key"@, root_key]
    } else {
        seq![]
    })
}

/// The value of a hexadecimal digit.
pub open spec fn hex_value(c: char) -> int {
    if '0' <= c && c <= '9' {
        c as int - 48
    } else if 'a' <= c && c <= 'f' {
        c as int - 87
    } else {
        c as int - 55
    }
}

/// Text that `hex::decode` accepts: an even number of hexadecimal digits.
pub open spec fn is_hex_text(s: Seq<char>) -> bool {
    s.len() % 2 == 0 && forall|i: int| 0 <= i < s.len() ==> crate::text::is_hex(#[trigger] s[i])
}

/// The bytes that hexadecimal text stands for, two digits per byte.
pub open spec fn hex_bytes(s: Seq<char>) -> Seq<u8> {
    Seq::new(
        (s.len() / 2) as nat,
        |i: int| (hex_value(s[2 * i]) * 16 + hex_value(s[2 * i + 1])) as u8,
    )
}

pub const INVALID_RESPONSE: &'static str = "ICP returned an invalid Candid response";

/// The error of `hex::decode`, held opaque.
#[verifier::external_type_specification]
#[verifier::external_body]
pub struct ExFromHexError(hex::FromHexError);

/// `hex::encode`: lower-case hexadecimal, two digits per byte, in order.
#[verifier::external_body]
fn hex_encode(bytes: &[u8]) -> (r: String)
    ensures
        r@ == hex_lower(bytes@),
{
    hex::encode(bytes)
}

/// `hex::decode`: succeeds exactly on an even number of hexadecimal digits
/// (either case), with two digits per byte.
#[verifier::external_body]
fn hex_decode(text: &str) -> (r: Result<Vec<u8>, hex::FromHexError>)
    ensures
        r is Ok <==> is_hex_text(text@),
        r matches Ok(v) ==> v@ == hex_bytes(text@),
{
    hex::decode(text)
}

/// Interprets a captured run of `program`.
pub fn run_outcome(program: &str, spawned: Result<Output, String>) -> (r: Result<String, String>)
    ensures
        crate::args::text_result(r) == run_result(program@, spawned),
{
    match spawned {
        Err(e) => {
            let mut m = concat("cannot run ", program);
            push_str(&mut m, ": ");
            push_str(&mut m, e.as_str());
            Err(m)
        },
        Ok(out) => {
            if !out.success {
                let message = trimmed(out.stderr.as_str());
                if message.as_str().is_empty() {
                    Err(concat(program, " failed"))
                } else {
                    Err(message)
                }
            } else {
                Ok(trimmed(out.stdout.as_str()))
            }
        },
    }
}

/// Interprets a run of `program` whose standard output alone was captured.
pub fn prompt_outcome(program: &str, spawned: Result<(bool, String), String>) -> (r: Result<
    String,
    String,
>)
    ensures
        crate::args::text_result(r) == prompt_result(program@, spawned),
{
    match spawned {
        Err(e) => {
            let mut m = concat("cannot run ", program);
            push_str(&mut m, ": ");
            push_str(&mut m, e.as_str());
            Err(m)
        },
        Ok(out) => {
            if !out.0 {
                Err(concat(program, " failed"))
            } else {
                Ok(trimmed(out.1.as_str()))
            }
        },
    }
}

/// Interprets an interactive run of `program`.
pub fn interactive_outcome(program: &str, spawned: Result<bool, String>) -> (r: Result<
    String,
    String,
>)
    ensures
        crate::args::text_result(r) == interactive_result(program@, spawned),
{
    match spawned {
        Err(e) => {
            let mut m = concat("cannot run ", program);
            push_str(&mut m, ": ");
            push_str(&mut m, e.as_str());
            Err(m)
        },
        Ok(success) => {
            if success {
                Ok(String::new())
            } else {
                Err(concat(program, " authentication failed"))
            }
        },
    }
}

/// The arguments of `git` that read the global configuration entry `key`.
pub fn config_args(key: &str) -> (r: Vec<String>)
    ensures
        r.deep_view() == seq!["config"@, "--global"@, "--get"@, key@],
{
    let r = vec!["config".to_owned(), "--global".to_owned(), "--get".to_owned(), key.to_owned()];
    assert(r.deep_view() =~= seq!["config"@, "--global"@, "--get"@, key@]);
    r
}

/// A Git configuration value: what Git reported, or `fallback` when the
/// lookup failed.
pub fn config(found: Result<String, String>, fallback: &str) -> (r: String)
    ensures
        r@ == config_value(crate::args::text_result(found), fallback@),
{
    match found {
        Ok(v) => v,
        Err(_) => fallback.to_owned(),
    }
}

/// A canister-call setting: the environment variable when it is set, else
/// Git's configuration entry, else `default`.
pub open spec fn call_setting(
    env_value: Option<Seq<char>>,
    git_value: Result<Seq<char>, Seq<char>>,
    default: Seq<char>,
) -> Seq<char> {
    match env_value {
        Some(v) => v,
        None => config_value(git_value, default),
    }
}

/// The identity, network and root key of a canister call: the identity from
/// Git's configuration (else `infinigit`); the network and root key from
/// `INFINIGIT_NETWORK` and `INFINIGIT_ROOT_KEY` when set, else from Git's
/// configuration, else `ic` and `mainnet`.
pub fn call_settings(
    identity_git: Result<String, String>,
    network_env: Option<String>,
    network_git: Result<String, String>,
    root_key_env: Option<String>,
    root_key_git: Result<String, String>,
) -> (r: (String, String, String))
    ensures
        r.0@ == config_value(crate::args::text_result(identity_git), DEFAULT_IDENTITY@),
        r.1@ == call_setting(
            network_env.deep_view(),
            crate::args::text_result(network_git),
            DEFAULT_NETWORK@,
        ),
        r.2@ == call_setting(
            root_key_env.deep_view(),
            crate::args::text_result(root_key_git),
            "mainnet"@,
        ),
{
    let identity = config(identity_git, DEFAULT_IDENTITY);
    let network = match network_env {
        Some(v) => v,
        None => config(network_git, DEFAULT_NETWORK),
    };
    let root_key = match root_key_env {
        Some(v) => v,
        None => config(root_key_git, "mainnet"),
    };
    (identity, network, root_key)
}

/// The Git commands (arguments of `git`, in order) that configure the identity.
pub fn configure(name: &str, auth: Option<&str>, app: Option<&str>) -> (r: Vec<Vec<String>>)
    ensures
        r.deep_view() == configure_plan(
            name@,
            match auth {
                Some(a) => Some(a@),
                None => None,
            },
            match app {
                Some(a) => Some(a@),
                None => None,
            },
        ),
{
    let mut r: Vec<Vec<String>> = Vec::new();
    let first = vec![
        "config".to_owned(),
        "--global".to_owned(),
        "infinigit.identity".to_owned(),
        name.to_owned(),
    ];
    assert(first.deep_view() =~= seq!["config"@, "--global"@, "infinigit.identity"@, name@]);
    r.push(first);
    if let Some(a) = auth {
        let cmd = vec![
            "config".to_owned(),
            "--global".to_owned(),
            "infinigit.auth-origin".to_owned(),
            a.to_owned(),
        ];
        assert(cmd.deep_view() =~= seq!["config"@, "--global"@, "infinigit.auth-origin"@, a@]);
        r.push(cmd);
    }
    if let Some(a) = app {
        let cmd = vec![
            "config".to_owned(),
            "--global".to_owned(),
            "infinigit.app-origin".to_owned(),
            a.to_owned(),
        ];
        assert(cmd.deep_view() =~= seq!["config"@, "--global"@, "infinigit.app-origin"@, a@]);
        r.push(cmd);
    }
    assert(r.deep_view() =~= configure_plan(
        name@,
        match auth {
            Some(a) => Some(a@),
            None => None,
        },
        match app {
            Some(a) => Some(a@),
            None => None,
        },
    ));
    r
}

/// Whether `s` contains `p`.
pub fn contains_str(s: &str, p: &str) -> (r: bool)
    ensures
        r == has_substring(s@, p@),
{
    let cs = chars_of(s);
    let cp = chars_of(p);
    if cp.len() > cs.len() {
        proof {
            assert forall|i: int| 0 <= i <= s@.len() - p@.len() implies !(#[trigger] s@.subrange(
                i,
                i + p@.len(),
            ) == p@) by {}
        }
        return false;
    }
    if cp.len() == 0 {
        assert(s@.subrange(0int, 0int + p@.len()) =~= p@);
        return true;
    }
    let mut i: usize = 0;
    while i <= cs.len() - cp.len()
        invariant
            cs@ == s@,
            cp@ == p@,
            0 < cp.len() <= cs.len(),
            i <= cs.len() - cp.len() + 1,
            forall|j: int| 0 <= j < i ==> #[trigger] s@.subrange(j, j + p@.len()) != p@,
        decreases cs.len() - cp.len() + 1 - i,
    {
        if range_eq(cs.as_slice(), i, i + cp.len(), cp.as_slice()) {
            return true;
        }
        i = i + 1;
    }
    false
}

/// The arguments of `icp` that call `method` on `canister` with the Candid
/// bytes `payload`, as the given identity on the given network.
pub fn icp_call_args(
    canister: &str,
    method: &str,
    payload: &[u8],
    query: bool,
    identity: &str,
    network: &str,
    root_key: &str,
) -> (r: Vec<String>)
    ensures
        r.deep_view() == call_args(
            canister@,
            method@,
            payload@,
            query,
            identity@,
            network@,
            root_key@,
        ),
{
    let encoded = hex_encode(payload);
    let mut owned = vec![
        "canister".to_owned(),
        "call".to_owned(),
        canister.to_owned(),
        method.to_owned(),
        encoded,
        "--args-format".to_owned(),
        "hex".to_owned(),
        "--output".to_owned(),
        "hex".to_owned(),
        "--identity".to_owned(),
        identity.to_owned(),
        "--network".to_owned(),
        network.to_owned(),
    ];
    let ghost base = owned.deep_view();
    if query {
        owned.push("--query".to_owned());
    }
    let ghost with_query = owned.deep_view();
    assert(with_query =~= base + (if query {
        seq!["--query"@]
    } else {
        seq![]
    }));
    if contains_str(network, "://") {
        owned.push("--root-key".to_owned());
        owned.push(root_key.to_owned());
    }
    assert(owned.deep_view() =~= call_args(
        canister@,
        method@,
        payload@,
        query,
        identity@,
        network@,
        root_key@,
    ));
    owned
}

/// The Candid bytes in an `icp` hex response, or the error that rejects it.
pub fn decode_response(response: &str) -> (r: Result<Vec<u8>, String>)
    ensures
        match r {
            Ok(v) => is_hex_text(trim(response@)) && v@ == hex_bytes(trim(response@)),
            Err(e) => !is_hex_text(trim(response@)) && e@ == INVALID_RESPONSE@,
        },
{
    let t = trimmed(response);
    match hex_decode(t.as_str()) {
        Ok(v) => Ok(v),
        Err(_) => Err(INVALID_RESPONSE.to_owned()),
    }
}

} // verus!
