//! Carrying out an `auth` or `import` command: which program runs next, with
//! which arguments, and what its outcome means. The caller performs each
//! [`Request`] and hands its outcome back as a [`Reply`].
use vstd::prelude::*;
use crate::command::{AuthCommand, CommandView, DEFAULT_APP};
use crate::fmt::{bool_text, hex_digest, hex_lower, push_bool};
use crate::process::{configure, configure_plan, has_substring, Tool};
use crate::text::{chars_of, digit, has_line, is_digit, lines, push_str, range_eq, string_of_range};

verus! {

/// Something the caller must do, or the command's result.
pub enum Request {
    /// Run the program and capture its trimmed standard output.
    Run { tool: Tool, args: Vec<String> },
    /// Run the program with the terminal for input and errors, capturing its output.
    Prompt { tool: Tool, args: Vec<String> },
    /// Run the program with the terminal.
    Interactive { tool: Tool, args: Vec<String> },
    /// Create a temporary directory and report the path of `repository.git` in it.
    TempDir,
    /// Read 32 bytes from the system's random source (a reply of another
    /// length is not accepted).
    Entropy,
    /// The command is over, with this result.
    Done(Result<String, String>),
}

/// The outcome of the last [`Request`].
pub enum Reply {
    /// No request has been made yet.
    Begin,
    /// The outcome of a run (an empty text for an interactive run).
    Text(Result<String, String>),
    /// The repository path in a new temporary directory (`None` when it is not Unicode).
    Dir(Result<Option<String>, String>),
    /// Random bytes.
    Bytes(Result<Vec<u8>, String>),
}

pub enum RequestView {
    Run { tool: Tool, args: Seq<Seq<char>> },
    Prompt { tool: Tool, args: Seq<Seq<char>> },
    Interactive { tool: Tool, args: Seq<Seq<char>> },
    TempDir,
    Entropy,
    Done(Result<Seq<char>, Seq<char>>),
}

pub enum ReplyView {
    Begin,
    Text(Result<Seq<char>, Seq<char>>),
    Dir(Result<Option<Seq<char>>, Seq<char>>),
    Bytes(Result<Seq<u8>, Seq<char>>),
}

impl View for Request {
    type V = RequestView;

    open spec fn view(&self) -> RequestView {
        match self {
            Request::Run { tool, args } => RequestView::Run { tool: *tool, args: args.deep_view() },
            Request::Prompt { tool, args } => RequestView::Prompt {
                tool: *tool,
                args: args.deep_view(),
            },
            Request::Interactive { tool, args } => RequestView::Interactive {
                tool: *tool,
                args: args.deep_view(),
            },
            Request::TempDir => RequestView::TempDir,
            Request::Entropy => RequestView::Entropy,
            Request::Done(r) => RequestView::Done(crate::args::text_result(*r)),
        }
    }
}

impl View for Reply {
    type V = ReplyView;

    open spec fn view(&self) -> ReplyView {
        match self {
            Reply::Begin => ReplyView::Begin,
            Reply::Text(r) => ReplyView::Text(crate::args::text_result(*r)),
            Reply::Dir(r) => ReplyView::Dir(
                match r {
                    Ok(p) => Ok(p.deep_view()),
                    Err(e) => Err(e@),
                },
            ),
            Reply::Bytes(r) => ReplyView::Bytes(
                match r {
                    Ok(b) => Ok(b@),
                    Err(e) => Err(e@),
                },
            ),
        }
    }
}

/// The step after which a session has finished.
pub const FINISHED: u32 = 100;

/// A command being carried out.
pub struct Session {
    command: AuthCommand,
    step: u32,
    path: String,
    digest: String,
    id: String,
}

pub struct SessionView {
    pub command: CommandView,
    pub step: u32,
    pub path: Seq<char>,
    pub digest: Seq<char>,
    pub id: Seq<char>,
}

impl View for Session {
    type V = SessionView;

    closed spec fn view(&self) -> SessionView {
        SessionView {
            command: self.command@,
            step: self.step,
            path: self.path@,
            digest: self.digest@,
            id: self.id@,
        }
    }
}

/// The first index at which `p` occurs in `s`.
pub open spec fn find_sub(s: Seq<char>, p: Seq<char>) -> Option<int> {
    if has_substring(s, p) {
        Some(
            choose|i: int|
                0 <= i <= s.len() - p.len() && #[trigger] s.subrange(i, i + p.len()) == p
                    && forall|j: int| 0 <= j < i ==> #[trigger] s.subrange(j, j + p.len()) != p,
        )
    } else {
        None
    }
}

/// The ASCII digits at the start of `s`.
pub open spec fn digit_run(s: Seq<char>) -> Seq<char>
    decreases s.len(),
{
    if s.len() > 0 && is_digit(s[0]) {
        seq![s[0]] + digit_run(s.drop_first())
    } else {
        seq![]
    }
}

/// The device request id in the directory's reply: the digits after the
/// first `id = `.
pub open spec fn request_id_of(response: Seq<char>) -> Option<Seq<char>> {
    match find_sub(response, "id = "@) {
        None => None,
        Some(i) => {
            let d = digit_run(response.skip(i + "id = "@.len()));
            if d.len() == 0 {
                None
            } else {
                Some(d)
            }
        },
    }
}

/// The Candid arguments of `request_device_link`.
pub open spec fn link_request_text(label: Seq<char>, digest: Seq<char>, read_only: bool) -> Seq<
    char,
> {
    "(\""@ + label + "\", \""@ + digest + "\", true, "@ + bool_text(!read_only) + ", null)"@
}

/// The arguments of `icp` that ask the directory to link a device.
pub open spec fn link_request_args(
    directory: Seq<char>,
    candid: Seq<char>,
    name: Seq<char>,
    network: Seq<char>,
    root_key: Seq<char>,
) -> Seq<Seq<char>> {
    seq![
        "canister"@,
        "call"@,
        directory,
        "request_device_link"@,
        candid,
        "--identity"@,
        name,
        "--network"@,
        network,
    ] + seq!["--root-key"@, root_key]
}

pub open spec fn principal_args(name: Seq<char>) -> Seq<Seq<char>> {
    seq!["identity"@, "principal"@, "--identity"@, name]
}

pub open spec fn list_args() -> Seq<Seq<char>> {
    seq!["identity"@, "list"@, "-q"@]
}

/// The message that ends a device link.
pub open spec fn linked_message(app: Seq<char>, id: Seq<char>, digest: Seq<char>, name: Seq<char>) -> Seq<
    char,
> {
    "Device identity created.\n\nOpen "@ + app
        + "/#/settings/devices and enter this pairing code:\n"@ + id + seq![':'] + digest
        + "\n\nThe request expires in 15 minutes. Git will use '"@ + name + "' after approval."@
}

/// The state after `s` with a new step and the same data.
pub open spec fn at(s: SessionView, step: u32) -> SessionView {
    SessionView { step, ..s }
}

/// The session finished with `r`.
pub open spec fn finish(s: SessionView, r: Result<Seq<char>, Seq<char>>) -> (
    SessionView,
    RequestView,
) {
    (at(s, FINISHED), RequestView::Done(r))
}

/// Which reply a session waits for.
pub open spec fn expects(s: SessionView, reply: ReplyView) -> bool {
    if s.step == FINISHED {
        false
    } else if s.step == 0 {
        reply is Begin
    } else if s.command is Import && s.step == 1 {
        reply is Dir
    } else if s.command is LinkDevice && s.step == 3 {
        reply is Bytes && (reply->Bytes_0 matches Ok(b) ==> b.len() == 32)
    } else {
        reply is Text
    }
}

pub open spec fn import_next(s: SessionView, reply: ReplyView) -> (SessionView, RequestView) {
    let source = s.command->Import_source;
    let destination = s.command->Import_destination;
    if s.step == 0 {
        (at(s, 1), RequestView::TempDir)
    } else if s.step == 1 {
        match reply->Dir_0 {
            Err(e) => finish(s, Err("cannot create temporary import directory: "@ + e)),
            Ok(None) => finish(s, Err("temporary import path is not valid UTF-8"@)),
            Ok(Some(p)) => (
                SessionView { step: 2, path: p, ..s },
                RequestView::Interactive {
                    tool: Tool::Git,
                    args: seq!["clone"@, "--mirror"@, "--"@, source, p],
                },
            ),
        }
    } else if s.step == 2 {
        match reply->Text_0 {
            Err(e) => finish(s, Err("source clone failed: "@ + e)),
            Ok(_) => (
                at(s, 3),
                RequestView::Interactive {
                    tool: Tool::Git,
                    args: seq!["--git-dir"@, s.path, "push"@, "--mirror"@, "--"@, destination],
                },
            ),
        }
    } else {
        match reply->Text_0 {
            Err(e) => finish(s, Err("infinigit push failed: "@ + e)),
            Ok(_) => finish(
                s,
                Ok(
                    "Imported every branch and tag from "@ + source + " into "@ + destination
                        + "."@,
                ),
            ),
        }
    }
}

pub open spec fn login_next(s: SessionView, reply: ReplyView) -> (SessionView, RequestView) {
    let name = s.command->Login_name;
    let auth = s.command->Login_auth;
    let app = s.command->Login_app;
    let storage = s.command->Login_storage;
    let plan = configure_plan(name, Some(auth), Some(app));
    if s.step == 0 {
        (at(s, 1), RequestView::Run { tool: Tool::Icp, args: list_args() })
    } else {
        match reply->Text_0 {
            Err(e) => finish(s, Err(e)),
            Ok(out) => if s.step == 1 {
                if lines(out).contains(name) {
                    finish(
                        s,
                        Err(
                            "identity '"@ + name + "' already exists; use 'infinigit auth reauth --name "@
                                + name + "' or log out first"@,
                        ),
                    )
                } else {
                    (
                        at(s, 2),
                        RequestView::Interactive {
                            tool: Tool::Icp,
                            args: seq![
                                "identity"@,
                                "link"@,
                                "web"@,
                                name,
                                "--auth"@,
                                auth,
                                "--app"@,
                                app,
                                "--storage"@,
                                storage,
                            ],
                        },
                    )
                }
            } else if s.step == 2 {
                (at(s, 3), RequestView::Run { tool: Tool::Git, args: plan[0] })
            } else if s.step == 3 {
                (at(s, 4), RequestView::Run { tool: Tool::Git, args: plan[1] })
            } else if s.step == 4 {
                (at(s, 5), RequestView::Run { tool: Tool::Git, args: plan[2] })
            } else if s.step == 5 {
                (at(s, 6), RequestView::Run { tool: Tool::Icp, args: principal_args(name) })
            } else {
                finish(
                    s,
                    Ok(
                        "Signed in to infinigit as "@ + out + ". Git will use the linked identity '"@
                            + name + "'."@,
                    ),
                )
            },
        }
    }
}

pub open spec fn status_next(s: SessionView, reply: ReplyView) -> (SessionView, RequestView) {
    let name = s.command->Status_name;
    if s.step == 0 {
        (at(s, 1), RequestView::Run { tool: Tool::Icp, args: principal_args(name) })
    } else {
        match reply->Text_0 {
            Err(e) => finish(s, Err(e)),
            Ok(p) => finish(s, Ok("infinigit identity: "@ + name + "\nPrincipal: "@ + p)),
        }
    }
}

pub open spec fn reauth_next(s: SessionView, reply: ReplyView) -> (SessionView, RequestView) {
    let name = s.command->Reauth_name;
    if s.step == 0 {
        (
            at(s, 1),
            RequestView::Interactive { tool: Tool::Icp, args: seq!["identity"@, "reauth"@, name] },
        )
    } else {
        match reply->Text_0 {
            Err(e) => finish(s, Err(e)),
            Ok(out) => if s.step == 1 {
                (
                    at(s, 2),
                    RequestView::Run { tool: Tool::Git, args: configure_plan(name, None, None)[0] },
                )
            } else if s.step == 2 {
                (at(s, 3), RequestView::Run { tool: Tool::Icp, args: principal_args(name) })
            } else {
                finish(s, Ok("infinigit delegation refreshed for "@ + out + "."@))
            },
        }
    }
}

pub open spec fn logout_next(s: SessionView, reply: ReplyView) -> (SessionView, RequestView) {
    let name = s.command->Logout_name;
    if s.step == 0 {
        (
            at(s, 1),
            RequestView::Run {
                tool: Tool::Git,
                args: seq!["config"@, "--global"@, "--get"@, "infinigit.identity"@],
            },
        )
    } else if s.step == 3 {
        finish(s, Ok("Removed infinigit identity '"@ + name + "' from this device."@))
    } else {
        match reply->Text_0 {
            Err(e) => finish(s, Err(e)),
            Ok(out) => if s.step == 1 {
                if out != name {
                    finish(
                        s,
                        Err(
                            "refusing to delete identity '"@ + name
                                + "' because it is not the configured infinigit identity"@,
                        ),
                    )
                } else {
                    (
                        at(s, 2),
                        RequestView::Run {
                            tool: Tool::Icp,
                            args: seq!["identity"@, "delete"@, name],
                        },
                    )
                }
            } else {
                (
                    at(s, 3),
                    RequestView::Run {
                        tool: Tool::Git,
                        args: seq!["config"@, "--global"@, "--unset-all"@, "infinigit.identity"@],
                    },
                )
            },
        }
    }
}

pub open spec fn link_next(s: SessionView, reply: ReplyView) -> (SessionView, RequestView) {
    let name = s.command->LinkDevice_name;
    let label = s.command->LinkDevice_label;
    let storage = s.command->LinkDevice_storage;
    let read_only = s.command->LinkDevice_read_only;
    let reuse = s.command->LinkDevice_reuse_existing;
    let directory = s.command->LinkDevice_directory;
    let network = s.command->LinkDevice_network;
    let root_key = s.command->LinkDevice_root_key;
    if s.step == 0 {
        match directory {
            None => finish(s, Err("a directory canister is required; pass --directory <canister-id>"@)),
            Some(_) => (at(s, 1), RequestView::Run { tool: Tool::Icp, args: list_args() }),
        }
    } else if s.step == 3 {
        match reply->Bytes_0 {
            Err(e) => finish(s, Err("cannot generate pairing code: "@ + e)),
            Ok(bytes) => {
                let digest = hex_lower(bytes);
                (
                    SessionView { step: 4, digest, ..s },
                    RequestView::Prompt {
                        tool: Tool::Icp,
                        args: link_request_args(
                            crate::command::or_default(directory, seq![]),
                            link_request_text(label, digest, read_only),
                            name,
                            network,
                            root_key,
                        ),
                    },
                )
            },
        }
    } else if s.step == 6 {
        let app = match reply->Text_0 {
            Ok(a) => a,
            Err(_) => DEFAULT_APP@,
        };
        finish(s, Ok(linked_message(app, s.id, s.digest, name)))
    } else {
        match reply->Text_0 {
            Err(e) => finish(s, Err(e)),
            Ok(out) => if s.step == 1 {
                let exists = lines(out).contains(name);
                if exists && !reuse {
                    finish(
                        s,
                        Err(
                            "identity '"@ + name
                                + "' already exists; choose another --name, or add --reuse-existing only if a previous link-device attempt created it"@,
                        ),
                    )
                } else if !exists {
                    (
                        at(s, 2),
                        RequestView::Interactive {
                            tool: Tool::Icp,
                            args: seq!["identity"@, "new"@, name, "--storage"@, storage],
                        },
                    )
                } else {
                    (at(s, 3), RequestView::Entropy)
                }
            } else if s.step == 2 {
                (at(s, 3), RequestView::Entropy)
            } else if s.step == 4 {
                match request_id_of(out) {
                    None => finish(s, Err("directory returned no device request id"@)),
                    Some(id) => (
                        SessionView { step: 5, id, ..s },
                        RequestView::Run {
                            tool: Tool::Git,
                            args: configure_plan(name, None, None)[0],
                        },
                    ),
                }
            } else {
                (
                    at(s, 6),
                    RequestView::Run {
                        tool: Tool::Git,
                        args: seq!["config"@, "--global"@, "--get"@, "infinigit.app-origin"@],
                    },
                )
            },
        }
    }
}

/// The next state and request of a session in state `s` that receives `reply`.
pub open spec fn next(s: SessionView, reply: ReplyView) -> (SessionView, RequestView) {
    match s.command {
        CommandView::Import { .. } => import_next(s, reply),
        CommandView::Login { .. } => login_next(s, reply),
        CommandView::Status { .. } => status_next(s, reply),
        CommandView::Reauth { .. } => reauth_next(s, reply),
        CommandView::Logout { .. } => logout_next(s, reply),
        CommandView::LinkDevice { .. } => link_next(s, reply),
        CommandView::Secrets { .. } => finish(s, Err(seq![])),
    }
}

pub proof fn lemma_digit_run(s: Seq<char>, k: int)
    requires
        0 <= k <= s.len(),
        forall|j: int| 0 <= j < k ==> is_digit(#[trigger] s[j]),
        k == s.len() || !is_digit(s[k]),
    ensures
        digit_run(s) == s.take(k),
    decreases k,
{
    if k > 0 {
        assert forall|j: int| 0 <= j < k - 1 implies is_digit(#[trigger] s.drop_first()[j]) by {
            assert(s.drop_first()[j] == s[j + 1]);
        }
        lemma_digit_run(s.drop_first(), k - 1);
        assert(seq![s[0]] + s.drop_first().take(k - 1) == s.take(k));
    } else {
        assert(s.take(0) == Seq::<char>::empty());
    }
}

proof fn lemma_find_sub(s: Seq<char>, p: Seq<char>, i: int)
    requires
        0 <= i <= s.len() - p.len(),
        s.subrange(i, i + p.len()) == p,
        forall|j: int| 0 <= j < i ==> #[trigger] s.subrange(j, j + p.len()) != p,
    ensures
        find_sub(s, p) == Some(i),
{
    assert(has_substring(s, p));
    let k = choose|k: int|
        0 <= k <= s.len() - p.len() && #[trigger] s.subrange(k, k + p.len()) == p && forall|j: int|
            0 <= j < k ==> #[trigger] s.subrange(j, j + p.len()) != p;
    assert(s.subrange(k, k + p.len()) == p);
    if k < i {
        assert(s.subrange(k, k + p.len()) != p);
    }
    if i < k {
        assert(s.subrange(i, i + p.len()) != p);
    }
}

/// The device request id in the directory's reply to `request_device_link`.
pub fn request_id(response: &str) -> (r: Option<String>)
    ensures
        match r {
            Some(id) => request_id_of(response@) == Some(id@),
            None => request_id_of(response@) is None,
        },
{
    let cs = chars_of(response);
    let marker = chars_of("id = ");
    proof {
        reveal_strlit("id = ");
    }
    let n = cs.len();
    let m = marker.len();
    if m > n {
        assert(!has_substring(response@, "id = "@));
        return None;
    }
    let mut i: usize = 0;
    while i <= n - m
        invariant
            cs@ == response@,
            marker@ == "id = "@,
            n == cs.len(),
            m == marker.len(),
            0 < m <= n,
            i <= n - m + 1,
            forall|j: int| 0 <= j < i ==> #[trigger] response@.subrange(j, j + m) != "id = "@,
        decreases n - m + 1 - i,
    {
        if range_eq(cs.as_slice(), i, i + m, marker.as_slice()) {
            proof {
                lemma_find_sub(response@, "id = "@, i as int);
            }
            let start = i + m;
            let mut k = start;
            while k < n && digit(cs[k])
                invariant
                    start <= k <= n == cs.len(),
                    forall|j: int| start <= j < k ==> is_digit(#[trigger] cs@[j]),
                decreases n - k,
            {
                k = k + 1;
            }
            proof {
                let rest = response@.skip(start as int);
                assert forall|j: int| 0 <= j < k - start implies is_digit(#[trigger] rest[j]) by {
                    assert(rest[j] == cs@[start + j]);
                }
                if k < n {
                    assert(rest[k - start] == cs@[k as int]);
                }
                lemma_digit_run(rest, k - start);
                assert(rest.take(k - start) == cs@.subrange(start as int, k as int));
            }
            if k == start {
                return None;
            }
            return Some(string_of_range(cs.as_slice(), start, k));
        }
        i = i + 1;
    }
    proof {
        if has_substring(response@, "id = "@) {
            let w = choose|w: int|
                0 <= w <= response@.len() - m && #[trigger] response@.subrange(w, w + m)
                    == "id = "@;
            assert(response@.subrange(w, w + m) != "id = "@);
        }
    }
    None
}

/// The arguments of a run, as a vector of owned strings.
fn owned(parts: &[&str]) -> (r: Vec<String>)
    ensures
        r.deep_view() == Seq::new(parts@.len(), |i: int| parts@[i]@),
{
    let mut r: Vec<String> = Vec::new();
    let mut i: usize = 0;
    while i < parts.len()
        invariant
            i <= parts.len(),
            r@.len() == i,
            forall|j: int| 0 <= j < i ==> #[trigger] r@[j]@ == parts@[j]@,
        decreases parts.len() - i,
    {
        r.push(parts[i].to_owned());
        i = i + 1;
    }
    assert(r.deep_view() =~= Seq::new(parts@.len(), |i: int| parts@[i]@));
    r
}

/// A copy of a list of arguments.
fn copy_args(v: &Vec<String>) -> (r: Vec<String>)
    ensures
        r.deep_view() == v.deep_view(),
{
    let r = crate::command::args_from(v.as_slice(), 0);
    assert(v.deep_view().skip(0) == v.deep_view());
    r
}

/// The first Git command that [`configure`] plans for `name` alone.
fn identity_config(name: &str) -> (r: Vec<String>)
    ensures
        r.deep_view() == configure_plan(name@, None, None)[0],
{
    let plan = configure(name, None, None);
    assert(plan.deep_view()[0] == plan@[0].deep_view());
    copy_args(&plan[0])
}

impl Session {
    /// The state in which `command` starts.
    pub fn new(command: AuthCommand) -> (r: Session)
        requires
            !(command is Secrets),
        ensures
            r@.command == command@,
            r@.step == 0,
    {
        Session { command, step: 0, path: String::new(), digest: String::new(), id: String::new() }
    }

    /// Whether the session waits for a reply of this kind.
    pub fn accepts(&self, reply: &Reply) -> (r: bool)
        ensures
            r == expects(self@, reply@),
    {
        if self.step == FINISHED {
            false
        } else if self.step == 0 {
            matches!(reply, Reply::Begin)
        } else if matches!(self.command, AuthCommand::Import { .. }) && self.step == 1 {
            matches!(reply, Reply::Dir(_))
        } else if matches!(self.command, AuthCommand::LinkDevice { .. }) && self.step == 3 {
            match reply {
                Reply::Bytes(Ok(b)) => b.len() == 32,
                Reply::Bytes(Err(_)) => true,
                _ => false,
            }
        } else {
            matches!(reply, Reply::Text(_))
        }
    }

    /// Whether the command is over.
    pub fn finished(&self) -> (r: bool)
        ensures
            r == (self@.step == FINISHED),
    {
        self.step == FINISHED
    }

    fn done(&mut self, r: Result<String, String>) -> (q: Request)
        ensures
            final(self)@ == at(old(self)@, FINISHED),
            q@ == RequestView::Done(crate::args::text_result(r)),
    {
        self.step = FINISHED;
        Request::Done(r)
    }

    fn goto(&mut self, step: u32)
        ensures
            final(self)@ == at(old(self)@, step),
    {
        self.step = step;
    }

    fn advance_import(&mut self, source: String, destination: String, reply: Reply) -> (q: Request)
        requires
            old(self)@.command == (CommandView::Import { source: source@, destination: destination@ }),
            expects(old(self)@, reply@),
        ensures
            (final(self)@, q@) == import_next(old(self)@, reply@),
    {
        if self.step == 0 {
            self.goto(1);
            return Request::TempDir;
        }
        if self.step == 1 {
            return match reply {
                Reply::Dir(Err(e)) => self.done(
                    Err(crate::text::concat("cannot create temporary import directory: ", e.as_str())),
                ),
                Reply::Dir(Ok(None)) => self.done(
                    Err("temporary import path is not valid UTF-8".to_owned()),
                ),
                Reply::Dir(Ok(Some(p))) => {
                    self.step = 2;
                    self.path = p.clone();
                    let args = vec!["clone".to_owned(), "--mirror".to_owned(), "--".to_owned(), source, p];
                    assert(args.deep_view() =~= seq!["clone"@, "--mirror"@, "--"@, source@, args[4]@]);
                    Request::Interactive { tool: Tool::Git, args }
                },
                _ => self.done(Err(String::new())),
            };
        }
        let out = match reply {
            Reply::Text(r) => r,
            _ => Err(String::new()),
        };
        if self.step == 2 {
            match out {
                Err(e) => self.done(Err(crate::text::concat("source clone failed: ", e.as_str()))),
                Ok(_) => {
                    self.goto(3);
                    let args = vec![
                        "--git-dir".to_owned(),
                        self.path.clone(),
                        "push".to_owned(),
                        "--mirror".to_owned(),
                        "--".to_owned(),
                        destination,
                    ];
                    assert(args.deep_view() =~= seq![
                        "--git-dir"@,
                        self.path@,
                        "push"@,
                        "--mirror"@,
                        "--"@,
                        destination@,
                    ]);
                    Request::Interactive { tool: Tool::Git, args }
                },
            }
        } else {
            match out {
                Err(e) => self.done(Err(crate::text::concat("infinigit push failed: ", e.as_str()))),
                Ok(_) => {
                    let mut m = "Imported every branch and tag from ".to_owned();
                    push_str(&mut m, source.as_str());
                    push_str(&mut m, " into ");
                    push_str(&mut m, destination.as_str());
                    push_str(&mut m, ".");
                    self.done(Ok(m))
                },
            }
        }
    }

    fn advance_login(
        &mut self,
        name: String,
        auth: String,
        app: String,
        storage: String,
        reply: Reply,
    ) -> (q: Request)
        requires
            old(self)@.command == (CommandView::Login {
                name: name@,
                auth: auth@,
                app: app@,
                storage: storage@,
            }),
            expects(old(self)@, reply@),
        ensures
            (final(self)@, q@) == login_next(old(self)@, reply@),
    {
        if self.step == 0 {
            self.goto(1);
            let args = owned(&["identity", "list", "-q"]);
            assert(args.deep_view() =~= list_args());
            return Request::Run { tool: Tool::Icp, args };
        }
        let out = match reply {
            Reply::Text(r) => r,
            _ => Err(String::new()),
        };
        let out = match out {
            Err(e) => {
                return self.done(Err(e));
            },
            Ok(o) => o,
        };
        if self.step == 1 {
            if has_line(out.as_str(), name.as_str()) {
                let mut m = "identity '".to_owned();
                push_str(&mut m, name.as_str());
                push_str(&mut m, "' already exists; use 'infinigit auth reauth --name ");
                push_str(&mut m, name.as_str());
                push_str(&mut m, "' or log out first");
                return self.done(Err(m));
            }
            self.goto(2);
            let args = vec![
                "identity".to_owned(),
                "link".to_owned(),
                "web".to_owned(),
                name.clone(),
                "--auth".to_owned(),
                auth,
                "--app".to_owned(),
                app,
                "--storage".to_owned(),
                storage,
            ];
            assert(args.deep_view() =~= seq![
                "identity"@,
                "link"@,
                "web"@,
                name@,
                "--auth"@,
                args[5]@,
                "--app"@,
                args[7]@,
                "--storage"@,
                args[9]@,
            ]);
            return Request::Interactive { tool: Tool::Icp, args };
        }
        if self.step >= 2 && self.step <= 4 {
            let plan = configure(name.as_str(), Some(auth.as_str()), Some(app.as_str()));
            let k = (self.step - 2) as usize;
            assert(configure_plan(name@, Some(auth@), Some(app@)).len() == 3);
            assert(plan@.len() == plan.deep_view().len());
            assert(plan.deep_view()[k as int] == plan@[k as int].deep_view());
            let args = copy_args(&plan[k]);
            let next_step = self.step + 1;
            self.goto(next_step);
            return Request::Run { tool: Tool::Git, args };
        }
        if self.step == 5 {
            self.goto(6);
            let args = vec![
                "identity".to_owned(),
                "principal".to_owned(),
                "--identity".to_owned(),
                name,
            ];
            assert(args.deep_view() =~= principal_args(args[3]@));
            return Request::Run { tool: Tool::Icp, args };
        }
        let mut m = "Signed in to infinigit as ".to_owned();
        push_str(&mut m, out.as_str());
        push_str(&mut m, ". Git will use the linked identity '");
        push_str(&mut m, name.as_str());
        push_str(&mut m, "'.");
        self.done(Ok(m))
    }

    fn advance_status(&mut self, name: String, reply: Reply) -> (q: Request)
        requires
            old(self)@.command == (CommandView::Status { name: name@ }),
            expects(old(self)@, reply@),
        ensures
            (final(self)@, q@) == status_next(old(self)@, reply@),
    {
        if self.step == 0 {
            self.goto(1);
            let args = vec![
                "identity".to_owned(),
                "principal".to_owned(),
                "--identity".to_owned(),
                name,
            ];
            assert(args.deep_view() =~= principal_args(args[3]@));
            return Request::Run { tool: Tool::Icp, args };
        }
        match reply {
            Reply::Text(Ok(p)) => {
                let mut m = "infinigit identity: ".to_owned();
                push_str(&mut m, name.as_str());
                push_str(&mut m, "\nPrincipal: ");
                push_str(&mut m, p.as_str());
                self.done(Ok(m))
            },
            Reply::Text(Err(e)) => self.done(Err(e)),
            _ => self.done(Err(String::new())),
        }
    }

    fn advance_reauth(&mut self, name: String, reply: Reply) -> (q: Request)
        requires
            old(self)@.command == (CommandView::Reauth { name: name@ }),
            expects(old(self)@, reply@),
        ensures
            (final(self)@, q@) == reauth_next(old(self)@, reply@),
    {
        if self.step == 0 {
            self.goto(1);
            let args = vec!["identity".to_owned(), "reauth".to_owned(), name];
            assert(args.deep_view() =~= seq!["identity"@, "reauth"@, args[2]@]);
            return Request::Interactive { tool: Tool::Icp, args };
        }
        let out = match reply {
            Reply::Text(Ok(o)) => o,
            Reply::Text(Err(e)) => {
                return self.done(Err(e));
            },
            _ => {
                return self.done(Err(String::new()));
            },
        };
        if self.step == 1 {
            self.goto(2);
            let args = identity_config(name.as_str());
            return Request::Run { tool: Tool::Git, args };
        }
        if self.step == 2 {
            self.goto(3);
            let args = vec![
                "identity".to_owned(),
                "principal".to_owned(),
                "--identity".to_owned(),
                name,
            ];
            assert(args.deep_view() =~= principal_args(args[3]@));
            return Request::Run { tool: Tool::Icp, args };
        }
        let mut m = "infinigit delegation refreshed for ".to_owned();
        push_str(&mut m, out.as_str());
        push_str(&mut m, ".");
        self.done(Ok(m))
    }

    fn advance_logout(&mut self, name: String, reply: Reply) -> (q: Request)
        requires
            old(self)@.command == (CommandView::Logout { name: name@ }),
            expects(old(self)@, reply@),
        ensures
            (final(self)@, q@) == logout_next(old(self)@, reply@),
    {
        if self.step == 0 {
            self.goto(1);
            let args = owned(&["config", "--global", "--get", "infinigit.identity"]);
            assert(args.deep_view() =~= seq!["config"@, "--global"@, "--get"@, "infinigit.identity"@]);
            return Request::Run { tool: Tool::Git, args };
        }
        if self.step == 3 {
            let mut m = "Removed infinigit identity '".to_owned();
            push_str(&mut m, name.as_str());
            push_str(&mut m, "' from this device.");
            return self.done(Ok(m));
        }
        let out = match reply {
            Reply::Text(Ok(o)) => o,
            Reply::Text(Err(e)) => {
                return self.done(Err(e));
            },
            _ => {
                return self.done(Err(String::new()));
            },
        };
        if self.step == 1 {
            if !crate::text::same(out.as_str(), name.as_str()) {
                let mut m = "refusing to delete identity '".to_owned();
                push_str(&mut m, name.as_str());
                push_str(&mut m, "' because it is not the configured infinigit identity");
                return self.done(Err(m));
            }
            self.goto(2);
            let args = vec!["identity".to_owned(), "delete".to_owned(), name];
            assert(args.deep_view() =~= seq!["identity"@, "delete"@, args[2]@]);
            return Request::Run { tool: Tool::Icp, args };
        }
        self.goto(3);
        let args = owned(&["config", "--global", "--unset-all", "infinigit.identity"]);
        assert(args.deep_view() =~= seq!["config"@, "--global"@, "--unset-all"@, "infinigit.identity"@]);
        Request::Run { tool: Tool::Git, args }
    }

    fn advance_link(&mut self, reply: Reply) -> (q: Request)
        requires
            old(self)@.command is LinkDevice,
            expects(old(self)@, reply@),
        ensures
            (final(self)@, q@) == link_next(old(self)@, reply@),
    {
        let command = crate::command::copy_command(&self.command);
        let (name, label, storage, read_only, reuse, directory, network, root_key) = match command {
            AuthCommand::LinkDevice {
                name,
                label,
                storage,
                read_only,
                reuse_existing,
                directory,
                network,
                root_key,
            } => (name, label, storage, read_only, reuse_existing, directory, network, root_key),
            _ => {
                return self.done(Err(String::new()));
            },
        };
        if self.step == 0 {
            return match directory {
                None => self.done(
                    Err("a directory canister is required; pass --directory <canister-id>".to_owned()),
                ),
                Some(_) => {
                    self.goto(1);
                    let args = owned(&["identity", "list", "-q"]);
                    assert(args.deep_view() =~= list_args());
                    Request::Run { tool: Tool::Icp, args }
                },
            };
        }
        if self.step == 3 {
            return match reply {
                Reply::Bytes(Err(e)) => self.done(
                    Err(crate::text::concat("cannot generate pairing code: ", e.as_str())),
                ),
                Reply::Bytes(Ok(bytes)) => {
                    let digest = hex_digest(bytes.as_slice());
                    let mut candid = "(\"".to_owned();
                    push_str(&mut candid, label.as_str());
                    push_str(&mut candid, "\", \"");
                    push_str(&mut candid, digest.as_str());
                    push_str(&mut candid, "\", true, ");
                    push_bool(&mut candid, !read_only);
                    push_str(&mut candid, ", null)");
                    assert(candid@ =~= link_request_text(label@, digest@, read_only));
                    let dir = match directory {
                        Some(d) => d,
                        None => String::new(),
                    };
                    let mut args = vec![
                        "canister".to_owned(),
                        "call".to_owned(),
                        dir,
                        "request_device_link".to_owned(),
                        candid,
                        "--identity".to_owned(),
                        name,
                        "--network".to_owned(),
                        network.clone(),
                    ];
                    let ghost base = args.deep_view();
                    args.push("--root-key".to_owned());
                    args.push(root_key);
                    assert(args.deep_view() =~= link_request_args(
                        base[2],
                        base[4],
                        base[6],
                        network@,
                        old(self)@.command->LinkDevice_root_key,
                    ));
                    assert(base[4] == link_request_text(label@, digest@, read_only));
                    assert(base[6] == old(self)@.command->LinkDevice_name);
                    assert(digest@ == hex_lower(bytes@));
                    self.step = 4;
                    self.digest = digest;
                    assert(self@ == SessionView { step: 4, digest: digest@, ..old(self)@ });
                    Request::Prompt { tool: Tool::Icp, args }
                },
                _ => self.done(Err(String::new())),
            };
        }
        if self.step == 6 {
            let app = match reply {
                Reply::Text(Ok(a)) => a,
                _ => DEFAULT_APP.to_owned(),
            };
            let mut m = "Device identity created.\n\nOpen ".to_owned();
            push_str(&mut m, app.as_str());
            push_str(&mut m, "/#/settings/devices and enter this pairing code:\n");
            push_str(&mut m, self.id.as_str());
            m.push(':');
            push_str(&mut m, self.digest.as_str());
            push_str(&mut m, "\n\nThe request expires in 15 minutes. Git will use '");
            push_str(&mut m, name.as_str());
            push_str(&mut m, "' after approval.");
            assert(m@ =~= linked_message(app@, self.id@, self.digest@, name@));
            return self.done(Ok(m));
        }
        let out = match reply {
            Reply::Text(Ok(o)) => o,
            Reply::Text(Err(e)) => {
                return self.done(Err(e));
            },
            _ => {
                return self.done(Err(String::new()));
            },
        };
        if self.step == 1 {
            let exists = has_line(out.as_str(), name.as_str());
            if exists && !reuse {
                let mut m = "identity '".to_owned();
                push_str(&mut m, name.as_str());
                push_str(
                    &mut m,
                    "' already exists; choose another --name, or add --reuse-existing only if a previous link-device attempt created it",
                );
                return self.done(Err(m));
            }
            if !exists {
                self.goto(2);
                let args = vec![
                    "identity".to_owned(),
                    "new".to_owned(),
                    name,
                    "--storage".to_owned(),
                    storage,
                ];
                assert(args.deep_view() =~= seq!["identity"@, "new"@, args[2]@, "--storage"@, args[4]@]);
                return Request::Interactive { tool: Tool::Icp, args };
            }
            self.goto(3);
            return Request::Entropy;
        }
        if self.step == 2 {
            self.goto(3);
            return Request::Entropy;
        }
        if self.step == 4 {
            return match request_id(out.as_str()) {
                None => self.done(Err("directory returned no device request id".to_owned())),
                Some(id) => {
                    self.step = 5;
                    self.id = id;
                    let args = identity_config(name.as_str());
                    Request::Run { tool: Tool::Git, args }
                },
            };
        }
        self.goto(6);
        let args = owned(&["config", "--global", "--get", "infinigit.app-origin"]);
        assert(args.deep_view() =~= seq!["config"@, "--global"@, "--get"@, "infinigit.app-origin"@]);
        Request::Run { tool: Tool::Git, args }
    }

    /// Takes the outcome of the last request and says what to do next.
    pub fn advance(&mut self, reply: Reply) -> (q: Request)
        requires
            expects(old(self)@, reply@),
        ensures
            (final(self)@, q@) == next(old(self)@, reply@),
    {
        let command = crate::command::copy_command(&self.command);
        match command {
            AuthCommand::Import { source, destination } => self.advance_import(
                source,
                destination,
                reply,
            ),
            AuthCommand::Login { name, auth, app, storage } => self.advance_login(
                name,
                auth,
                app,
                storage,
                reply,
            ),
            AuthCommand::Status { name } => self.advance_status(name, reply),
            AuthCommand::Reauth { name } => self.advance_reauth(name, reply),
            AuthCommand::Logout { name } => self.advance_logout(name, reply),
            AuthCommand::LinkDevice { .. } => self.advance_link(reply),
            AuthCommand::Secrets { .. } => self.done(Err(String::new())),
        }
    }
}

} // verus!
