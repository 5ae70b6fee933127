//! Properties of the library that span its functions: what every accepted
//! command line guarantees, and what the command sessions never do.
use vstd::prelude::*;
use crate::command::{git_settings_used, parse_spec, CommandView, Environment};
use crate::dotenv::{
    dotenv_entries, dotenv_escape, dotenv_line, dotenv_lines, dotenv_quoted, has_key, pulled_text,
    rendered,
    shell_escape, shell_quoted, unquote, Entry,
};
use crate::names::{
    is_device_label, is_identity_name, is_root_key, is_secret_name, is_storage,
    is_trusted_origin,
};
use crate::process::Tool;
use crate::secrets::{stale_names, PayloadView, SecretView};
use crate::fmt::hex_lower;
use crate::session::{
    digit_run, expects, link_request_text, next, request_id_of, ReplyView, RequestView,
    SessionView, FINISHED,
};
use crate::text::{
    find_char, has_ws, is_digit, is_prefix, is_ws, lemma_find_char, lemma_lines_step,
    lemma_trim_end, lemma_trim_start, lines, split_once, strip_cr, trim,
};
use crate::vault::{context_text, join, labels, permission_of, repository_of_url, VaultPermission};
use crate::vetkeys::{ciphertext_overhead, opened, opened_all, sealed, utf8_of};
use crate::vault_session as vs;

verus! {

/// Every identity that an accepted `auth` command names is a valid identity
/// name: 1 to 64 ASCII letters, digits, `-` or `_`.
pub proof fn parsed_identity_is_valid(args: Seq<Seq<char>>, env: Environment)
    ensures
        parse_spec(args, env) matches Ok(c) ==> match c {
            CommandView::Login { name, .. } => is_identity_name(name),
            CommandView::Status { name } => is_identity_name(name),
            CommandView::Reauth { name } => is_identity_name(name),
            CommandView::Logout { name } => is_identity_name(name),
            CommandView::LinkDevice { name, .. } => is_identity_name(name),
            _ => true,
        },
{
}

/// An accepted login uses a permitted storage backend and only HTTPS or
/// loopback origins for both the identity provider and the app.
pub proof fn parsed_login_is_trusted(args: Seq<Seq<char>>, env: Environment)
    ensures
        parse_spec(args, env) matches Ok(CommandView::Login { auth, app, storage, .. }) ==> {
            &&& is_trusted_origin(auth)
            &&& is_trusted_origin(app)
            &&& is_storage(storage)
        },
{
}

/// An accepted import has exactly a source and a destination; the source is
/// not an option and the destination is an `igit://` URL without whitespace.
pub proof fn parsed_import_is_safe(args: Seq<Seq<char>>, env: Environment)
    ensures
        parse_spec(args, env) matches Ok(CommandView::Import { source, destination }) ==> {
            &&& args.len() == 3
            &&& source == args[1] && destination == args[2]
            &&& !is_prefix("-"@, source)
            &&& is_prefix("igit://"@, destination)
            &&& !has_ws(destination)
        },
{
}

/// A `secrets` command with an action is accepted as it stands: its
/// arguments after `secrets` are handed on unchanged, secret values included.
pub proof fn parsed_secrets_are_verbatim(args: Seq<Seq<char>>, env: Environment)
    requires
        args.len() >= 2,
        args[0] == "secrets"@,
    ensures
        parse_spec(args, env) == Ok::<CommandView, Seq<char>>(
            CommandView::Secrets { args: args.skip(1) },
        ),
{
}

/// An accepted device link has a valid label and storage, a network, a
/// permitted root key, and a directory only when one was given non-empty.
pub proof fn parsed_link_device_is_checked(args: Seq<Seq<char>>, env: Environment)
    ensures
        parse_spec(args, env) matches Ok(
            CommandView::LinkDevice { label, storage, directory, network, root_key, .. },
        ) ==> {
            &&& is_device_label(label)
            &&& is_storage(storage)
            &&& network.len() > 0
            &&& is_root_key(root_key)
            &&& directory matches Some(d) ==> d.len() > 0
        },
{
}

/// Git's configuration is consulted for a device link in local development
/// only: elsewhere the Git entries of the environment change nothing.
pub proof fn git_settings_matter_only_when_used(args: Seq<Seq<char>>, env: Environment)
    requires
        !git_settings_used(args, env.local_dev.deep_view()),
    ensures
        parse_spec(args, env) == parse_spec(
            args,
            Environment { git_directory: None, git_network: None, git_root_key: None, ..env },
        ),
{
}

/// Permission flags imply each other: managing access implies writing, and
/// every permission implies reading.
pub proof fn permission_implications(args: Seq<Seq<char>>)
    ensures
        permission_of(args).manage_permissions ==> permission_of(args).write,
        permission_of(args).write ==> permission_of(args).read,
        permission_of(args).delete_secret ==> permission_of(args).read,
        permission_of(args).delete_vault ==> permission_of(args).read,
        permission_of(args).read <== args.contains("--read"@),
{
}

/// A repository URL is accepted only with a non-empty namespace and a
/// non-empty name that holds no `/`.
pub proof fn repository_parts_are_plain(url: Seq<char>)
    ensures
        repository_of_url(url) matches Ok(p) ==> {
            &&& is_prefix("igit://"@, url)
            &&& p.0.len() > 0
            &&& p.1.len() > 0
            &&& !p.1.contains('/')
        },
{
}

/// A login never links a web identity under a name that `icp` already
/// lists: the only request that links one follows a listing without it.
pub proof fn login_never_replaces_an_identity(s: SessionView, r: ReplyView)
    requires
        s.command is Login,
        expects(s, r),
    ensures
        next(s, r).1 matches RequestView::Interactive { tool, args } ==> {
            &&& tool == Tool::Icp
            &&& s.step == 1
            &&& r matches ReplyView::Text(Ok(out)) && !lines(out).contains(s.command->Login_name)
            &&& args[3] == s.command->Login_name
        },
{
}

/// A login stops with an error when `icp` already lists the identity's name.
pub proof fn login_refuses_a_listed_name(s: SessionView, out: Seq<char>)
    requires
        s.command is Login,
        s.step == 1,
        lines(out).contains(s.command->Login_name),
    ensures
        next(s, ReplyView::Text(Ok(out))).1 matches RequestView::Done(Err(_)),
{
}

/// Logging out deletes an identity only when it is the one Git is
/// configured with, and only that identity.
pub proof fn logout_deletes_only_the_configured_identity(s: SessionView, r: ReplyView)
    requires
        s.command is Logout,
        expects(s, r),
    ensures
        next(s, r).1 matches RequestView::Run { tool: Tool::Icp, args } ==> {
            &&& args == seq!["identity"@, "delete"@, s.command->Logout_name]
            &&& r == ReplyView::Text(Ok(s.command->Logout_name))
        },
{
}

/// Linking a device without a directory canister ends at once with an error.
pub proof fn link_device_requires_a_directory(s: SessionView, r: ReplyView)
    requires
        s.command is LinkDevice,
        s.command->LinkDevice_directory is None,
        s.step == 0,
    ensures
        next(s, r).1 matches RequestView::Done(Err(_)),
{
}

/// Linking a device creates a new identity only when `icp` does not list
/// the name, and stops with an error when it does unless asked to reuse it.
pub proof fn link_device_never_recreates_an_identity(s: SessionView, r: ReplyView)
    requires
        s.command is LinkDevice,
        expects(s, r),
    ensures
        next(s, r).1 matches RequestView::Interactive { args, .. } ==> {
            &&& s.step == 1
            &&& r matches ReplyView::Text(Ok(out)) && !lines(out).contains(
                s.command->LinkDevice_name,
            )
            &&& args == seq![
                "identity"@,
                "new"@,
                s.command->LinkDevice_name,
                "--storage"@,
                s.command->LinkDevice_storage,
            ]
        },
{
}

/// Linking a device stops with an error when `icp` already lists the name and
/// reusing it was not asked for.
pub proof fn link_device_refuses_a_listed_name(s: SessionView, out: Seq<char>)
    requires
        s.command is LinkDevice,
        s.step == 1,
        !s.command->LinkDevice_reuse_existing,
        lines(out).contains(s.command->LinkDevice_name),
    ensures
        next(s, ReplyView::Text(Ok(out))).1 matches RequestView::Done(Err(_)),
{
}

proof fn lemma_hex_lower_digits(bs: Seq<u8>)
    ensures
        hex_lower(bs).len() == 2 * bs.len(),
        forall|i: int|
            0 <= i < hex_lower(bs).len() ==> is_digit(#[trigger] hex_lower(bs)[i]) || ('a'
                <= hex_lower(bs)[i] && hex_lower(bs)[i] <= 'f'),
    decreases bs.len(),
{
    if bs.len() > 0 {
        lemma_hex_lower_digits(bs.drop_last());
        let a = hex_lower(bs.drop_last());
        let b = crate::fmt::hex_byte(bs.last());
        assert(hex_lower(bs) == a + b);
        assert forall|i: int| 0 <= i < (a + b).len() implies is_digit(#[trigger] (a + b)[i]) || (
        'a' <= (a + b)[i] && (a + b)[i] <= 'f') by {
            if i < a.len() {
                assert((a + b)[i] == a[i]);
            } else {
                assert((a + b)[i] == b[i - a.len()]);
            }
        }
    }
}

/// A device link asks the directory with a pairing digest of 64 lower-case
/// hexadecimal digits (the 32 random bytes), with the label, `!read_only`,
/// and always the root key after the network.
pub proof fn link_request_carries_a_full_digest(s: SessionView, bytes: Seq<u8>)
    requires
        s.command is LinkDevice,
        s.step == 3,
        expects(s, ReplyView::Bytes(Ok(bytes))),
    ensures
        ({
            let digest = hex_lower(bytes);
            &&& digest.len() == 64
            &&& forall|i: int|
                0 <= i < 64 ==> is_digit(#[trigger] digest[i]) || ('a' <= digest[i] && digest[i]
                    <= 'f')
            &&& next(s, ReplyView::Bytes(Ok(bytes))).1 matches RequestView::Prompt { tool, args }
                && tool == Tool::Icp && args.len() == 11 && args[4] == link_request_text(
                s.command->LinkDevice_label,
                digest,
                s.command->LinkDevice_read_only,
            ) && args[7] == "--network"@ && args[8] == s.command->LinkDevice_network && args[9]
                == "--root-key"@ && args[10] == s.command->LinkDevice_root_key
        }),
{
    lemma_hex_lower_digits(bytes);
}

/// A session that has given its result waits for nothing more.
pub proof fn finished_sessions_stay_finished(s: SessionView, r: ReplyView, r2: ReplyView)
    requires
        expects(s, r),
        next(s, r).1 is Done,
    ensures
        next(s, r).0.step == FINISHED,
        !expects(next(s, r).0, r2),
{
}

/// Whether a secrets session that is about to fetch or delete a vault for
/// `delete` was given `--yes`.
pub open spec fn deletion_confirmed(s: vs::SessionView) -> bool {
    (s.step == 90 || s.step == 91) ==> s.args.contains("--yes"@)
}

/// A vault is deleted only on a command line that holds `--yes`: every step
/// of a secrets session keeps its arguments and keeps [`deletion_confirmed`]
/// (which a new session, at step 0, has), and the only step that asks a
/// canister to delete a vault starts from a confirmed state.
#[verifier::spinoff_prover]
#[verifier::rlimit(50)]
pub proof fn vault_deletion_needs_confirmation(
    s: vs::SessionView,
    r: vs::ReplyView,
    s2: vs::SessionView,
    q: vs::RequestView,
)
    requires
        vs::expects(s, r),
        deletion_confirmed(s),
        vs::step_relation(s, r, s2, q),
    ensures
        s2.args == s.args,
        deletion_confirmed(s2),
        q matches vs::RequestView::Call { payload: PayloadView::DeleteVault { .. }, .. }
            ==> s.args.contains("--yes"@),
{
}

/// Whether every entry has a valid secret key and no key occurs twice.
pub open spec fn keys_valid_and_distinct(es: Seq<Entry>) -> bool {
    &&& forall|i: int| 0 <= i < es.len() ==> is_secret_name(#[trigger] es[i].0)
    &&& forall|i: int, j: int| 0 <= i < j < es.len() ==> (#[trigger] es[i]).0 != (#[trigger] es[j]).0
}

proof fn lemma_dotenv_lines_keys(ls: Seq<Seq<char>>, done: nat, acc: Seq<Entry>)
    requires
        keys_valid_and_distinct(acc),
    ensures
        dotenv_lines(ls, done, acc) matches Ok(es) ==> keys_valid_and_distinct(es),
    decreases ls.len(),
{
    if ls.len() > 0 {
        match crate::dotenv::dotenv_line(ls[0], done + 1, acc) {
            Err(_) => {},
            Ok(None) => lemma_dotenv_lines_keys(ls.drop_first(), done + 1, acc),
            Ok(Some(entry)) => {
                let acc2 = acc.push(entry);
                assert(!has_key(acc, entry.0));
                assert forall|i: int, j: int| 0 <= i < j < acc2.len() implies (#[trigger] acc2[i]).0
                    != (#[trigger] acc2[j]).0 by {
                    if j == acc.len() {
                        assert(acc2[i] == acc[i]);
                    } else {
                        assert(acc2[i] == acc[i] && acc2[j] == acc[j]);
                    }
                }
                assert forall|i: int| 0 <= i < acc2.len() implies is_secret_name(
                    #[trigger] acc2[i].0,
                ) by {
                    if i < acc.len() {
                        assert(acc2[i] == acc[i]);
                    }
                }
                lemma_dotenv_lines_keys(ls.drop_first(), done + 1, acc2);
            },
        }
    }
}

/// Every key that a dotenv file sets is a valid secret key, and no key is
/// set twice.
pub proof fn dotenv_keys_are_valid_and_distinct(contents: Seq<char>)
    ensures
        dotenv_entries(contents) matches Ok(es) ==> keys_valid_and_distinct(es),
{
    lemma_dotenv_lines_keys(crate::text::lines(contents), 0, seq![]);
}

proof fn lemma_escape_has_no_line_break(s: Seq<char>)
    ensures
        forall|i: int|
            0 <= i < dotenv_escape(s).len() ==> #[trigger] dotenv_escape(s)[i] != '\n'
                && dotenv_escape(s)[i] != '\r',
    decreases s.len(),
{
    if s.len() > 0 {
        lemma_escape_has_no_line_break(s.drop_last());
        let a = dotenv_escape(s.drop_last());
        let b = crate::dotenv::dotenv_escape_char(s.last());
        assert(dotenv_escape(s) == a + b);
        assert forall|i: int| 0 <= i < (a + b).len() implies #[trigger] (a + b)[i] != '\n' && (a
            + b)[i] != '\r' by {
            if i < a.len() {
                assert((a + b)[i] == a[i]);
            } else {
                assert((a + b)[i] == b[i - a.len()]);
            }
        }
    }
}

/// A value quoted for a dotenv file stays on one line: it holds no line
/// feed and no carriage return, and it is enclosed in double quotes.
pub proof fn dotenv_quoting_stays_on_one_line(v: Seq<char>)
    ensures
        forall|i: int|
            0 <= i < dotenv_quoted(v).len() ==> #[trigger] dotenv_quoted(v)[i] != '\n'
                && dotenv_quoted(v)[i] != '\r',
        dotenv_quoted(v).len() >= 2,
        dotenv_quoted(v)[0] == '"',
        dotenv_quoted(v).last() == '"',
{
    lemma_escape_has_no_line_break(v);
    let e = dotenv_escape(v);
    assert forall|i: int| 0 <= i < dotenv_quoted(v).len() implies #[trigger] dotenv_quoted(v)[i]
        != '\n' && dotenv_quoted(v)[i] != '\r' by {
        if 0 < i < dotenv_quoted(v).len() - 1 {
            assert(dotenv_quoted(v)[i] == e[i - 1]);
        }
    }
}

/// Publishing a dotenv file deletes exactly the vault's keys that the file
/// does not set: each stale key is a key of the vault that the file does not
/// set, and each such key of the vault is stale.
pub proof fn stale_names_are_exactly_the_unset_keys(secrets: Seq<SecretView>, values: Seq<Entry>)
    ensures
        forall|k: int|
            0 <= k < stale_names(secrets, values).len() ==> {
                &&& !has_key(values, #[trigger] stale_names(secrets, values)[k])
                &&& exists|i: int|
                    0 <= i < secrets.len() && (#[trigger] secrets[i]).name == stale_names(
                        secrets,
                        values,
                    )[k]
            },
        forall|i: int|
            0 <= i < secrets.len() && !has_key(values, (#[trigger] secrets[i]).name)
                ==> stale_names(secrets, values).contains(secrets[i].name),
    decreases secrets.len(),
{
    if secrets.len() > 0 {
        let init = secrets.drop_last();
        stale_names_are_exactly_the_unset_keys(init, values);
        let rest = stale_names(init, values);
        let st = stale_names(secrets, values);
        assert forall|k: int| 0 <= k < st.len() implies {
            &&& !has_key(values, #[trigger] st[k])
            &&& exists|i: int| 0 <= i < secrets.len() && (#[trigger] secrets[i]).name == st[k]
        } by {
            if k < rest.len() {
                assert(st[k] == rest[k]);
                let i = choose|i: int| 0 <= i < init.len() && (#[trigger] init[i]).name == rest[k];
                assert(secrets[i] == init[i]);
            } else {
                assert(secrets[secrets.len() - 1] == secrets.last());
            }
        }
        assert forall|i: int|
            0 <= i < secrets.len() && !has_key(values, (#[trigger] secrets[i]).name) implies st.contains(
            secrets[i].name,
        ) by {
            if i < init.len() {
                assert(init[i] == secrets[i]);
                assert(rest.contains(init[i].name));
                let k = choose|k: int| 0 <= k < rest.len() && rest[k] == init[i].name;
                assert(st[k] == rest[k]);
            } else {
                assert(st[st.len() - 1] == secrets.last().name);
            }
        }
    }
}

proof fn lemma_digit_run_digits(s: Seq<char>)
    ensures
        forall|i: int| 0 <= i < digit_run(s).len() ==> is_digit(#[trigger] digit_run(s)[i]),
    decreases s.len(),
{
    if s.len() > 0 && is_digit(s[0]) {
        lemma_digit_run_digits(s.drop_first());
        let d = digit_run(s);
        assert forall|i: int| 0 <= i < d.len() implies is_digit(#[trigger] d[i]) by {
            if i > 0 {
                assert(d[i] == digit_run(s.drop_first())[i - 1]);
            }
        }
    }
}

/// A device request id read from the directory's reply is a non-empty run
/// of ASCII digits.
pub proof fn request_ids_are_digits(response: Seq<char>)
    ensures
        request_id_of(response) matches Some(id) ==> id.len() > 0 && forall|i: int|
            0 <= i < id.len() ==> is_digit(#[trigger] id[i]),
{
    if let Some(i) = crate::session::find_sub(response, "id = "@) {
        lemma_digit_run_digits(response.skip(i + "id = "@.len()));
    }
}

/// A value that its quoting form leaves as it is and that stays on one line:
/// no line feed, and no apostrophe in shell form, or no backslash, double
/// quote or carriage return in dotenv form.
pub open spec fn plain_value(v: Seq<char>, shell: bool) -> bool {
    forall|i: int|
        0 <= i < v.len() ==> #[trigger] v[i] != '\n' && if shell {
            v[i] != '\''
        } else {
            v[i] != '\\' && v[i] != '"' && v[i] != '\r'
        }
}

/// The line that `pull` writes for one entry.
pub open spec fn entry_line(e: Entry, shell: bool) -> Seq<char> {
    if shell {
        "export "@ + e.0 + seq!['='] + shell_quoted(e.1)
    } else {
        e.0 + seq!['='] + dotenv_quoted(e.1)
    }
}

proof fn lemma_plain_escapes(v: Seq<char>, shell: bool)
    requires
        plain_value(v, shell),
    ensures
        shell ==> shell_escape(v) == v,
        !shell ==> dotenv_escape(v) == v,
    decreases v.len(),
{
    if v.len() > 0 {
        let init = v.drop_last();
        assert(plain_value(init, shell));
        lemma_plain_escapes(init, shell);
        assert(init + seq![v.last()] =~= v);
    }
}

proof fn lemma_lines_concat(a: Seq<char>, b: Seq<char>)
    requires
        a.len() == 0 || a.last() == '\n',
    ensures
        lines(a + b) == lines(a) + lines(b),
    decreases a.len(),
{
    if a.len() == 0 {
        assert(a + b =~= b);
        assert(lines(a) + lines(b) =~= lines(b));
    } else {
        crate::text::lemma_find_char_bounds(a, '\n');
        let i = find_char(a, '\n');
        assert(i < a.len());
        let ab = a + b;
        assert forall|j: int| 0 <= j < i implies ab[j] != '\n' by {
            assert(ab[j] == a[j]);
        }
        lemma_find_char(ab, '\n', i);
        lemma_lines_step(ab);
        lemma_lines_step(a);
        let rest = a.skip(i + 1);
        assert(ab.take(i) =~= a.take(i));
        assert(ab.skip(i + 1) =~= rest + b);
        if rest.len() > 0 {
            assert(rest.last() == a.last());
        }
        lemma_lines_concat(rest, b);
        assert(lines(ab) =~= lines(a) + lines(b));
    }
}

proof fn lemma_lines_one(l: Seq<char>)
    requires
        forall|j: int| 0 <= j < l.len() ==> l[j] != '\n',
    ensures
        lines(l + seq!['\n']) == seq![strip_cr(l)],
{
    let s = l + seq!['\n'];
    assert forall|j: int| 0 <= j < l.len() implies s[j] != '\n' by {
        assert(s[j] == l[j]);
    }
    lemma_find_char(s, '\n', l.len() as int);
    lemma_lines_step(s);
    assert(s.take(l.len() as int) =~= l);
    assert(s.skip(l.len() as int + 1) =~= Seq::<char>::empty());
    assert(seq![strip_cr(l)] + lines(Seq::<char>::empty()) =~= seq![strip_cr(l)]);
}

/// The line of an entry with a valid key and a plain value reads back as
/// that entry, and is one line.
#[verifier::spinoff_prover]
#[verifier::rlimit(80)]
proof fn lemma_entry_line(e: Entry, shell: bool, number: nat, acc: Seq<Entry>)
    requires
        is_secret_name(e.0),
        plain_value(e.1, shell),
        !has_key(acc, e.0),
    ensures
        forall|j: int| 0 <= j < entry_line(e, shell).len() ==> entry_line(e, shell)[j] != '\n',
        strip_cr(entry_line(e, shell)) == entry_line(e, shell),
        dotenv_line(entry_line(e, shell), number, acc) == Ok::<Option<Entry>, Seq<char>>(Some(e)),
{
    reveal_strlit("export ");
    reveal_strlit("#");
    lemma_plain_escapes(e.1, shell);
    let k = e.0;
    let v = e.1;
    let quote = if shell { '\'' } else { '"' };
    let q = seq![quote] + v + seq![quote];
    assert(q =~= if shell { shell_quoted(v) } else { dotenv_quoted(v) });
    let body = k + seq!['='] + q;
    let line = entry_line(e, shell);
    assert(line =~= if shell { "export "@ + body } else { body });
    assert(k[0] == '_' || crate::text::is_upper(k[0]));
    // One line, with no carriage return at its end.
    assert forall|j: int| 0 <= j < line.len() implies line[j] != '\n' by {
        let off: int = if shell { 7 } else { 0 };
        if j < off {
            assert(line[j] == "export "@[j]);
        } else if j - off < k.len() {
            assert(line[j] == k[j - off]);
        } else if j - off == k.len() {
            assert(line[j] == '=');
        } else if j - off == k.len() + 1 {
            assert(line[j] == quote);
        } else if j == line.len() - 1 {
            assert(line[j] == quote);
        } else {
            assert(line[j] == v[j - off - k.len() - 2]);
        }
    }
    assert(line.last() == quote);
    // Trimming changes nothing.
    assert(!is_ws(line[0]));
    lemma_trim_start(line, 0);
    assert(line.skip(0) =~= line);
    lemma_trim_end(line, line.len() as int);
    assert(line.take(line.len() as int) =~= line);
    assert(trim(line) == line);
    assert(!is_prefix("#"@, line)) by {
        if is_prefix("#"@, line) {
            assert(line.take(1)[0] == line[0]);
        }
    }
    if shell {
        assert(line.take(7) =~= "export "@);
        assert(line.skip(7) =~= body);
    } else {
        assert(!is_prefix("export "@, line)) by {
            if is_prefix("export "@, line) {
                assert(line.take(7)[0] == line[0]);
            }
        }
    }
    // The key ends at the first `=`.
    assert forall|j: int| 0 <= j < k.len() implies body[j] != '=' by {
        assert(body[j] == k[j]);
    }
    assert(body[k.len() as int] == '=');
    lemma_find_char(body, '=', k.len() as int);
    assert(body.take(k.len() as int) =~= k);
    assert(body.skip(k.len() as int + 1) =~= q);
    assert(split_once(body, '=') == Some((k, q)));
    // Neither the key nor the quoted value has surrounding whitespace.
    lemma_trim_start(k, 0);
    assert(k.skip(0) =~= k);
    assert(!is_ws(k.last()));
    lemma_trim_end(k, k.len() as int);
    assert(k.take(k.len() as int) =~= k);
    lemma_trim_start(q, 0);
    assert(q.skip(0) =~= q);
    lemma_trim_end(q, q.len() as int);
    assert(q.take(q.len() as int) =~= q);
    assert(q.subrange(1, q.len() - 1) =~= v);
    assert(unquote(trim(q)) == v);
}

#[verifier::spinoff_prover]
proof fn lemma_rendered_lines(values: Seq<Entry>, shell: bool)
    requires
        forall|i: int|
            0 <= i < values.len() ==> is_secret_name(#[trigger] values[i].0) && plain_value(
                values[i].1,
                shell,
            ),
    ensures
        lines(rendered(values, shell)) == Seq::new(
            values.len(),
            |i: int| entry_line(values[i], shell),
        ),
        rendered(values, shell).len() == 0 || rendered(values, shell).last() == '\n',
    decreases values.len(),
{
    if values.len() > 0 {
        let init = values.drop_last();
        let e = values.last();
        assert(is_secret_name(values[values.len() - 1].0));
        assert forall|i: int| 0 <= i < init.len() implies is_secret_name(#[trigger] init[i].0)
            && plain_value(init[i].1, shell) by {
            assert(init[i] == values[i]);
        }
        lemma_rendered_lines(init, shell);
        lemma_entry_line(e, shell, 0, seq![]);
        let line = entry_line(e, shell);
        let a = rendered(init, shell);
        assert(rendered(values, shell) =~= a + (line + seq!['\n']));
        lemma_lines_concat(a, line + seq!['\n']);
        lemma_lines_one(line);
        assert(lines(rendered(values, shell)) =~= Seq::new(
            values.len(),
            |i: int| entry_line(values[i], shell),
        ));
    }
}

proof fn lemma_read_back(values: Seq<Entry>, shell: bool, k: nat)
    requires
        keys_valid_and_distinct(values),
        forall|i: int| 0 <= i < values.len() ==> plain_value(#[trigger] values[i].1, shell),
        k <= values.len(),
    ensures
        dotenv_lines(
            Seq::new(values.len(), |i: int| entry_line(values[i], shell)).skip(k as int),
            k,
            values.take(k as int),
        ) == Ok::<Seq<Entry>, Seq<char>>(values),
    decreases values.len() - k,
{
    let ls = Seq::new(values.len(), |i: int| entry_line(values[i], shell));
    if k == values.len() {
        assert(ls.skip(k as int) =~= Seq::<Seq<char>>::empty());
        assert(values.take(k as int) =~= values);
    } else {
        let acc = values.take(k as int);
        assert(!has_key(acc, values[k as int].0)) by {
            if has_key(acc, values[k as int].0) {
                let i = choose|i: int| 0 <= i < acc.len() && (#[trigger] acc[i]).0 == values[k as int].0;
                assert(acc[i] == values[i]);
            }
        }
        assert(is_secret_name(values[k as int].0));
        lemma_entry_line(values[k as int], shell, k + 1, acc);
        lemma_read_back(values, shell, k + 1);
        assert(ls.skip(k as int)[0] == entry_line(values[k as int], shell));
        assert(ls.skip(k as int).drop_first() =~= ls.skip(k as int + 1));
        assert(acc.push(values[k as int]) =~= values.take(k as int + 1));
    }
}

/// What `pull` writes comes back unchanged through `put`: reading the dotenv
/// or shell text of entries with valid, distinct keys gives those entries,
/// in order, as long as no value holds a line feed or a character that its
/// form escapes (an apostrophe in shell form; a backslash, a double quote or
/// a carriage return in dotenv form).
pub proof fn pulled_values_publish_back(values: Seq<Entry>, shell: bool)
    requires
        keys_valid_and_distinct(values),
        forall|i: int| 0 <= i < values.len() ==> plain_value(#[trigger] values[i].1, shell),
    ensures
        dotenv_entries(pulled_text(values, shell)) == Ok::<Seq<Entry>, Seq<char>>(values),
{
    if values.len() == 0 {
        lemma_lines_one(Seq::<char>::empty());
        assert(Seq::<char>::empty() + seq!['\n'] =~= seq!['\n']);
        let ls = lines(seq!['\n']);
        assert(ls == seq![Seq::<char>::empty()]);
        assert(strip_cr(Seq::<char>::empty()) =~= Seq::<char>::empty());
        assert(ls =~= seq![Seq::<char>::empty()]);
        assert(crate::text::trim_start(Seq::<char>::empty()) =~= Seq::<char>::empty());
        assert(trim(Seq::<char>::empty()).len() == 0);
        let none: Seq<Entry> = seq![];
        assert(dotenv_line(ls[0], 1, none) == Ok::<Option<Entry>, Seq<char>>(None));
        assert(ls.drop_first() =~= Seq::<Seq<char>>::empty());
        assert(dotenv_lines(ls.drop_first(), 1, none) == Ok::<Seq<Entry>, Seq<char>>(none));
        assert(dotenv_lines(ls, 0, none) == Ok::<Seq<Entry>, Seq<char>>(none));
        assert(values =~= Seq::<Entry>::empty());
    } else {
        lemma_rendered_lines(values, shell);
        lemma_read_back(values, shell, 0);
        let ls = Seq::new(values.len(), |i: int| entry_line(values[i], shell));
        assert(ls.skip(0) =~= ls);
        assert(values.take(0) =~= Seq::<Entry>::empty());
    }
}

/// End-to-end encryption: secrets sealed from `values` under a vault key,
/// each under its own context (owner, storage, vault, epoch and key), open
/// again under that key and the same vault and epoch to exactly `values`, in
/// order.
pub proof fn sealed_secrets_open_to_their_values(
    vetkey: Seq<u8>,
    owner: Seq<char>,
    storage_id: Seq<char>,
    vault: Seq<char>,
    epoch: u128,
    values: Seq<Entry>,
    secrets: Seq<SecretView>,
)
    requires
        sealed(vetkey, owner, storage_id, vault, epoch, values, secrets),
    ensures
        opened_all(vetkey, owner, storage_id, vault, epoch, secrets) == Ok::<Seq<Entry>, Seq<char>>(
            values,
        ),
    decreases secrets.len(),
{
    if secrets.len() > 0 {
        let n = secrets.len() - 1;
        let vs = values.drop_last();
        let ss = secrets.drop_last();
        assert(sealed(vetkey, owner, storage_id, vault, epoch, vs, ss)) by {
            assert forall|i: int| 0 <= i < ss.len() implies {
                &&& (#[trigger] ss[i]).name == vs[i].0
                &&& ss[i].ciphertext.len() == utf8_of(vs[i].1).len() + ciphertext_overhead()
                &&& opened(
                    vetkey,
                    ss[i].ciphertext,
                    context_text(owner, storage_id, vault, epoch, vs[i].0),
                ) == Some(utf8_of(vs[i].1))
            } by {
                assert(ss[i] == secrets[i] && vs[i] == values[i]);
            }
        }
        sealed_secrets_open_to_their_values(vetkey, owner, storage_id, vault, epoch, vs, ss);
        let last = secrets.last();
        assert(last == secrets[n]);
        assert(last.name == values[n].0);
        vstd::utf8::encode_utf8_valid_utf8(values[n].1);
        vstd::utf8::encode_utf8_decode_utf8(values[n].1);
        assert(vs.push(values[n]) =~= values);
    } else {
        assert(values =~= Seq::<Entry>::empty());
    }
}

/// Whether a `secrets set` session keeps to its steps, has no pending
/// deletes, and holds exactly the one value for its key once it has read it.
pub open spec fn set_confined(s: vs::SessionView) -> bool {
    s.args.len() > 0 && s.args[0] == "set"@ ==> {
        &&& s.step <= 3 || (30 <= s.step <= 34) || s.step == vs::DONE
        &&& s.deletes.len() == 0
        &&& 31 <= s.step <= 34 ==> s.values.len() == 1 && s.values[0].0 == s.args[2]
    }
}

/// `secrets set` writes only its own key: a new session (which has no
/// pending deletes) is confined, every step keeps it so, and every update it
/// sends holds exactly one secret, for the key on the command line, and no
/// deletes.
#[verifier::spinoff_prover]
#[verifier::rlimit(80)]
pub proof fn secrets_set_writes_only_its_key(
    s: vs::SessionView,
    r: vs::ReplyView,
    s2: vs::SessionView,
    q: vs::RequestView,
)
    requires
        vs::expects(s, r),
        set_confined(s),
        vs::step_relation(s, r, s2, q),
    ensures
        set_confined(s2),
        s.args.len() > 0 && s.args[0] == "set"@ ==> (q matches vs::RequestView::Call {
            payload: PayloadView::UpdateSecrets { upserts, deletes, .. },
            ..
        } ==> deletes.len() == 0 && upserts.len() == 1 && upserts[0].name == s.args[2]),
{
    if s.args.len() > 0 && s.args[0] == "set"@ {
        if s.step == 30 {
            assert(set_confined(s2));
        } else if s.step == 31 {
            assert(set_confined(s2));
        } else if s.step == 32 {
            assert(set_confined(s2));
        } else if s.step == 33 {
            assert(set_confined(s2));
        } else if s.step == 3 {
            reveal_strlit("set");
            reveal_strlit("access");
            reveal_strlit("vaults");
            reveal_strlit("create");
            reveal_strlit("list");
            assert("set"@.len() == 3 && "access"@.len() == 6 && "vaults"@.len() == 6);
            assert("create"@.len() == 6 && "list"@.len() == 4);
            assert(set_confined(s2));
        } else {
            assert(set_confined(s2));
        }
    }
}

/// A new secrets session is confined in the sense of [`set_confined`].
pub proof fn new_sessions_are_confined(args: Seq<Seq<char>>, env_directory: Option<Seq<char>>)
    ensures
        set_confined(vs::fresh_session(args, env_directory)),
        deletion_confirmed(vs::fresh_session(args, env_directory)),
{
}

/// Reading the inside of a double-quoted dotenv value back, left to right:
/// `\\`, `\"`, `\n` and `\r` stand for a backslash, a double quote, a
/// line feed and a carriage return; any other escape, a lone backslash or a
/// bare double quote makes it unreadable.
pub open spec fn dotenv_unescape(s: Seq<char>) -> Option<Seq<char>>
    decreases s.len(),
{
    if s.len() == 0 {
        Some(seq![])
    } else if s[0] == '\\' {
        if s.len() < 2 {
            None
        } else {
            let c = if s[1] == '\\' {
                Some('\\')
            } else if s[1] == '"' {
                Some('"')
            } else if s[1] == 'n' {
                Some('\n')
            } else if s[1] == 'r' {
                Some('\r')
            } else {
                None
            };
            match (c, dotenv_unescape(s.skip(2))) {
                (Some(c), Some(rest)) => Some(seq![c] + rest),
                _ => None,
            }
        }
    } else if s[0] == '"' {
        None
    } else {
        match dotenv_unescape(s.drop_first()) {
            Some(rest) => Some(seq![s[0]] + rest),
            None => None,
        }
    }
}

proof fn lemma_unescape_one(c: char, t: Seq<char>)
    ensures
        dotenv_unescape(crate::dotenv::dotenv_escape_char(c) + t) == match dotenv_unescape(t) {
            Some(r) => Some(seq![c] + r),
            None => None,
        },
{
    let e = crate::dotenv::dotenv_escape_char(c);
    let s = e + t;
    if e.len() == 2 {
        assert(s[0] == e[0] && s[1] == e[1]);
        assert(s.skip(2) =~= t);
    } else {
        assert(s[0] == c);
        assert(s.drop_first() =~= t);
    }
}

proof fn lemma_unescape_concat(v: Seq<char>, t: Seq<char>)
    ensures
        dotenv_unescape(dotenv_escape(v) + t) == match dotenv_unescape(t) {
            Some(r) => Some(v + r),
            None => None,
        },
    decreases v.len(),
{
    if v.len() == 0 {
        assert(dotenv_escape(v) + t =~= t);
        if let Some(r) = dotenv_unescape(t) {
            assert(v + r =~= r);
        }
    } else {
        let init = v.drop_last();
        let c = v.last();
        let e = crate::dotenv::dotenv_escape_char(c);
        assert(dotenv_escape(v) + t =~= dotenv_escape(init) + (e + t));
        lemma_unescape_concat(init, e + t);
        lemma_unescape_one(c, t);
        if let Some(r) = dotenv_unescape(t) {
            assert(init + (seq![c] + r) =~= v + r);
        }
    }
}

/// Dotenv quoting can be undone: the quoted value is enclosed in double
/// quotes, and reading its inside back gives the value.
pub proof fn dotenv_quoting_can_be_undone(v: Seq<char>)
    ensures
        dotenv_quoted(v).len() >= 2,
        dotenv_quoted(v)[0] == '"',
        dotenv_quoted(v).last() == '"',
        dotenv_unescape(dotenv_quoted(v).subrange(1, dotenv_quoted(v).len() - 1)) == Some(v),
{
    lemma_unescape_concat(v, seq![]);
    assert(dotenv_escape(v) + Seq::<char>::empty() =~= dotenv_escape(v));
    assert(dotenv_quoted(v).subrange(1, dotenv_quoted(v).len() - 1) =~= dotenv_escape(v));
    assert(v + Seq::<char>::empty() =~= v);
}

/// Different values quote to different dotenv text.
pub proof fn dotenv_quoting_is_injective(a: Seq<char>, b: Seq<char>)
    requires
        dotenv_quoted(a) == dotenv_quoted(b),
    ensures
        a == b,
{
    dotenv_quoting_can_be_undone(a);
    dotenv_quoting_can_be_undone(b);
}

/// How a POSIX shell reads a word made of single-quoted parts and, outside
/// quotes, backslash escapes: inside single quotes every character stands
/// for itself up to the closing quote; outside, `'` opens a quote and `\`
/// keeps the next character. Any other unquoted character (where the shell
/// could expand something) or an unclosed quote makes the reading `None`.
pub open spec fn shell_read(s: Seq<char>, quoted: bool) -> Option<Seq<char>>
    decreases s.len(),
{
    if s.len() == 0 {
        if quoted {
            None
        } else {
            Some(seq![])
        }
    } else if quoted {
        if s[0] == '\'' {
            shell_read(s.drop_first(), false)
        } else {
            match shell_read(s.drop_first(), true) {
                Some(rest) => Some(seq![s[0]] + rest),
                None => None,
            }
        }
    } else if s[0] == '\'' {
        shell_read(s.drop_first(), true)
    } else if s[0] == '\\' && s.len() >= 2 {
        match shell_read(s.skip(2), false) {
            Some(rest) => Some(seq![s[1]] + rest),
            None => None,
        }
    } else {
        None
    }
}

proof fn lemma_shell_read_concat(v: Seq<char>, t: Seq<char>)
    ensures
        shell_read(shell_escape(v) + t, true) == match shell_read(t, true) {
            Some(r) => Some(v + r),
            None => None,
        },
    decreases v.len(),
{
    if v.len() == 0 {
        assert(shell_escape(v) + t =~= t);
        if let Some(r) = shell_read(t, true) {
            assert(v + r =~= r);
        }
    } else {
        let init = v.drop_last();
        let c = v.last();
        let e = crate::dotenv::shell_escape_char(c);
        assert(shell_escape(v) + t =~= shell_escape(init) + (e + t));
        lemma_shell_read_concat(init, e + t);
        let s = e + t;
        if c == '\'' {
            let s1 = s.drop_first();
            let s2 = s1.skip(2);
            assert(s[0] == '\'');
            assert(s1[0] == '\\' && s1[1] == '\'' && s1.len() >= 2);
            assert(s2[0] == '\'');
            assert(s2.drop_first() =~= t);
            assert(shell_read(s2, false) == shell_read(t, true));
            assert(shell_read(s1, false) == match shell_read(s2, false) {
                Some(rest) => Some(seq!['\''] + rest),
                None => None,
            });
            assert(shell_read(s, true) == shell_read(s1, false));
        } else {
            assert(s[0] == c);
            assert(s.drop_first() =~= t);
        }
        if let Some(r) = shell_read(t, true) {
            assert(init + (seq![c] + r) =~= v + r);
        }
    }
}

/// What `shell_quote` writes reads back, in a POSIX shell, as exactly the
/// value, with nothing unquoted that the shell could expand; so
/// `export KEY=<quoted>` from `pull --format shell` restores each value.
pub proof fn shell_quoting_reads_back(v: Seq<char>)
    ensures
        shell_read(shell_quoted(v), false) == Some(v),
{
    let q = shell_quoted(v);
    assert(q[0] == '\'');
    assert(q.drop_first() =~= shell_escape(v) + seq!['\'']);
    lemma_shell_read_concat(v, seq!['\'']);
    let one = seq!['\''];
    assert(one[0] == '\'');
    assert(one.drop_first() =~= Seq::<char>::empty());
    assert(shell_read(Seq::<char>::empty(), false) == Some(Seq::<char>::empty()));
    assert(shell_read(one, true) == shell_read(one.drop_first(), false));
    assert(shell_read(q, false) == shell_read(q.drop_first(), true));
    assert(v + Seq::<char>::empty() =~= v);
}

proof fn lemma_join_shape(parts: Seq<Seq<char>>, c: char)
    requires
        parts.len() > 0,
    ensures
        parts.len() == 1 ==> join(parts, seq![c]) == parts[0],
        parts.len() > 1 ==> join(parts, seq![c]) == join(parts.drop_last(), seq![c]) + seq![c]
            + parts.last(),
{
}

proof fn lemma_join_without(parts: Seq<Seq<char>>, c: char)
    requires
        forall|i: int, j: int| 0 <= i < parts.len() && 0 <= j < parts[i].len() ==> parts[i][j] != c,
    ensures
        parts.len() <= 1 ==> forall|j: int|
            0 <= j < join(parts, seq![c]).len() ==> join(parts, seq![c])[j] != c,
        parts.len() > 1 ==> join(parts, seq![c])[join(parts, seq![c]).len() - parts.last().len() - 1]
            == c,
{
    if parts.len() == 1 {
        lemma_join_shape(parts, c);
    } else if parts.len() > 1 {
        lemma_join_shape(parts, c);
        let a = join(parts.drop_last(), seq![c]);
        assert((a + seq![c] + parts.last())[a.len() as int] == c);
    }
}

proof fn lemma_join_injective(a: Seq<Seq<char>>, b: Seq<Seq<char>>, c: char)
    requires
        forall|i: int| 0 <= i < a.len() ==> (#[trigger] a[i]).len() > 0,
        forall|i: int| 0 <= i < b.len() ==> (#[trigger] b[i]).len() > 0,
        forall|i: int, j: int| 0 <= i < a.len() && 0 <= j < a[i].len() ==> a[i][j] != c,
        forall|i: int, j: int| 0 <= i < b.len() && 0 <= j < b[i].len() ==> b[i][j] != c,
        join(a, seq![c]) == join(b, seq![c]),
    ensures
        a == b,
    decreases a.len() + b.len(),
{
    let t = join(a, seq![c]);
    lemma_join_without(a, c);
    lemma_join_without(b, c);
    if a.len() == 0 || b.len() == 0 {
        if a.len() > 0 {
            lemma_join_shape(a, c);
            if a.len() > 1 {
                assert(t.len() >= 1);
            } else {
                assert(a[0].len() > 0);
            }
            assert(false);
        }
        if b.len() > 0 {
            lemma_join_shape(b, c);
            if b.len() == 1 {
                assert(b[0].len() > 0);
            }
            assert(false);
        }
        assert(a =~= b);
    } else {
        lemma_join_shape(a, c);
        lemma_join_shape(b, c);
        if a.len() == 1 && b.len() > 1 {
            let k = t.len() - b.last().len() - 1;
            assert(t[k] == c);
            assert(false);
        } else if b.len() == 1 && a.len() > 1 {
            let k = t.len() - a.last().len() - 1;
            assert(t[k] == c);
            assert(false);
        } else if a.len() == 1 && b.len() == 1 {
            assert(a =~= b);
        } else {
            let la = a.last();
            let lb = b.last();
            let ja = join(a.drop_last(), seq![c]);
            let jb = join(b.drop_last(), seq![c]);
            // The last part is what follows the last separator.
            if la.len() < lb.len() {
                let k = t.len() - la.len() - 1;
                assert(t[k] == c);
                assert(t[k] == lb[k - (jb.len() + 1)]);
                assert(false);
            }
            if lb.len() < la.len() {
                let k = t.len() - lb.len() - 1;
                assert(t[k] == c);
                assert(t[k] == la[k - (ja.len() + 1)]);
                assert(false);
            }
            assert(la =~= t.skip(t.len() - la.len()));
            assert(lb =~= t.skip(t.len() - lb.len()));
            assert(ja =~= t.take(ja.len() as int));
            assert(jb =~= t.take(jb.len() as int));
            lemma_join_injective(a.drop_last(), b.drop_last(), c);
            assert(a =~= a.drop_last().push(la));
            assert(b =~= b.drop_last().push(lb));
        }
    }
}

proof fn lemma_label_lengths()
    ensures
        "read"@.len() == 4,
        "write"@.len() == 5,
        "delete-secrets"@.len() == 14,
        "delete-vault"@.len() == 12,
        "manage-access"@.len() == 13,
        forall|j: int| 0 <= j < 4 ==> "read"@[j] != ',',
        forall|j: int| 0 <= j < 5 ==> "write"@[j] != ',',
        forall|j: int| 0 <= j < 14 ==> "delete-secrets"@[j] != ',',
        forall|j: int| 0 <= j < 12 ==> "delete-vault"@[j] != ',',
        forall|j: int| 0 <= j < 13 ==> "manage-access"@[j] != ',',
{
    reveal_strlit("read");
    reveal_strlit("write");
    reveal_strlit("delete-secrets");
    reveal_strlit("delete-vault");
    reveal_strlit("manage-access");
}

/// Each label of `p` is the label of one of its permissions, and each of its
/// permissions has its label there.
#[verifier::spinoff_prover]
proof fn lemma_labels_of(p: VaultPermission)
    ensures
        forall|i: int|
            0 <= i < labels(p).len() ==> {
                &&& #[trigger] labels(p)[i] == "read"@ ==> p.read
                &&& labels(p)[i] == "write"@ ==> p.write
                &&& labels(p)[i] == "delete-secrets"@ ==> p.delete_secret
                &&& labels(p)[i] == "delete-vault"@ ==> p.delete_vault
                &&& labels(p)[i] == "manage-access"@ ==> p.manage_permissions
                &&& labels(p)[i].len() > 0
                &&& forall|j: int| 0 <= j < labels(p)[i].len() ==> labels(p)[i][j] != ','
            },
        p.read == labels(p).contains("read"@),
        p.write == labels(p).contains("write"@),
        p.delete_secret == labels(p).contains("delete-secrets"@),
        p.delete_vault == labels(p).contains("delete-vault"@),
        p.manage_permissions == labels(p).contains("manage-access"@),
{
    lemma_label_lengths();
    let r = if p.read { seq!["read"@] } else { seq![] };
    let w = if p.write { seq!["write"@] } else { seq![] };
    let ds = if p.delete_secret { seq!["delete-secrets"@] } else { seq![] };
    let dv = if p.delete_vault { seq!["delete-vault"@] } else { seq![] };
    let m = if p.manage_permissions { seq!["manage-access"@] } else { seq![] };
    let l = labels(p);
    assert(l == r + w + ds + dv + m);
    let (a1, a2, a3, a4) = (r.len() as int, (r.len() + w.len()) as int, (r.len() + w.len()
        + ds.len()) as int, (r.len() + w.len() + ds.len() + dv.len()) as int);
    assert forall|i: int| 0 <= i < l.len() implies {
        &&& #[trigger] l[i] == "read"@ ==> p.read
        &&& l[i] == "write"@ ==> p.write
        &&& l[i] == "delete-secrets"@ ==> p.delete_secret
        &&& l[i] == "delete-vault"@ ==> p.delete_vault
        &&& l[i] == "manage-access"@ ==> p.manage_permissions
        &&& l[i].len() > 0
        &&& forall|j: int| 0 <= j < l[i].len() ==> l[i][j] != ','
    } by {
        if i < a1 {
            assert(l[i] == r[i]);
        } else if i < a2 {
            assert(l[i] == w[i - a1]);
        } else if i < a3 {
            assert(l[i] == ds[i - a2]);
        } else if i < a4 {
            assert(l[i] == dv[i - a3]);
        } else {
            assert(l[i] == m[i - a4]);
        }
    }
    if p.read {
        assert(l[0] == "read"@);
    }
    if p.write {
        assert(l[a1] == "write"@);
    }
    if p.delete_secret {
        assert(l[a2] == "delete-secrets"@);
    }
    if p.delete_vault {
        assert(l[a3] == "delete-vault"@);
    }
    if p.manage_permissions {
        assert(l[a4] == "manage-access"@);
    }
}

/// Different permissions are listed differently: the comma-separated labels
/// that `permission_labels` gives determine every permission.
pub proof fn permission_labels_are_distinct(p: VaultPermission, q: VaultPermission)
    requires
        join(labels(p), ","@) == join(labels(q), ","@),
    ensures
        p == q,
{
    reveal_strlit(",");
    assert(","@ =~= seq![',']);
    lemma_labels_of(p);
    lemma_labels_of(q);
    lemma_join_injective(labels(p), labels(q), ',');
}

} // verus!
