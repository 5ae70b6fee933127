//! What the `secrets` commands do with what they read: which flags grant
//! which permissions, what `set` stores, what `put` deletes, what `pull`
//! writes and what `run` hands to the command.
use vstd::prelude::*;
use crate::args::{first_index, flag_value};
use crate::dotenv::{dotenv_quoted, has_key, rendered, shell_quoted, Entry};
use crate::secrets::{PayloadView, SecretView};
use crate::vault::permission_of;
use crate::vault_session as vs;
use crate::vetkeys::{opened_all, utf8_of, verified_vetkey};

verus! {

/// Each permission is granted exactly by its own flags: `--read` or any
/// other flag grants read; `--write` or `--manage-access` grants write;
/// `--delete-secrets`, `--delete-vault` and `--manage-access` grant only
/// themselves (and what they imply).
pub proof fn permission_flags_grant_exactly(args: Seq<Seq<char>>)
    ensures
        permission_of(args).read <==> (args.contains("--read"@) || args.contains("--write"@)
            || args.contains("--delete-secrets"@) || args.contains("--delete-vault"@)
            || args.contains("--manage-access"@)),
        permission_of(args).write <==> (args.contains("--write"@) || args.contains(
            "--manage-access"@,
        )),
        permission_of(args).delete_secret <==> args.contains("--delete-secrets"@),
        permission_of(args).delete_vault <==> args.contains("--delete-vault"@),
        permission_of(args).manage_permissions <==> args.contains("--manage-access"@),
{
}

/// How `set` reads a value from standard input: `value` is `text` with one
/// final line feed removed, and then one carriage return before it; text
/// without a final line feed is taken as it is.
pub open spec fn stdin_value(text: Seq<char>, value: Seq<char>) -> bool {
    if text.len() >= 2 && text[text.len() - 2] == '\r' && text.last() == '\n' {
        value + seq!['\r', '\n'] == text
    } else if text.len() >= 1 && text.last() == '\n' {
        value + seq!['\n'] == text
    } else {
        value == text
    }
}

/// `secrets set` stores, for the key on its command line, the value it read:
/// the prompt's answer as it is, or standard input without its final line
/// break (`\n` or `\r\n`) when `--stdin` is given.
pub proof fn set_stores_the_value_read(s: vs::SessionView, text: Seq<char>, s2: vs::SessionView, q: vs::RequestView)
    requires
        s.step == 30,
        vs::expects(s, vs::ReplyView::Text(Ok(text))),
        vs::step_relation(s, vs::ReplyView::Text(Ok(text)), s2, q),
    ensures
        s2.values.len() == 1,
        s2.values[0].0 == s.args[2],
        s.args.contains("--stdin"@) ==> stdin_value(text, s2.values[0].1),
        !s.args.contains("--stdin"@) ==> s2.values[0].1 == text,
{
    if text.len() >= 1 && text.last() == '\n' {
        assert(text.drop_last() + seq!['\n'] =~= text);
        if text.len() >= 2 && text[text.len() - 2] == '\r' {
            assert(text.drop_last().last() == '\r');
            assert(text.drop_last().drop_last() + seq!['\r', '\n'] =~= text);
        }
    }
}

/// The vault's entries as a session at an encrypted-key step decrypts them
/// from the reply `r`: the vault key that the reply's encrypted key verifies
/// to, and each secret opened under its own context.
pub open spec fn decrypted_entries(s: vs::SessionView, r: vs::ReplyView) -> Result<Seq<Entry>, Seq<char>> {
    match verified_vetkey(
        s.transport_seed,
        vs::got_bytes(r),
        s.public_key,
        utf8_of(vs::session_key_input(s)),
    ) {
        None => Err(seq![]),
        Some(k) => opened_all(
            k,
            s.route.owner,
            s.route.storage_id,
            s.vault.name,
            s.vault.epoch,
            s.vault.secrets,
        ),
    }
}

/// `secrets run` runs the command after `--`, with its arguments, and with
/// every decrypted secret of the vault, in order, as an environment variable.
pub proof fn run_passes_the_secrets_to_the_command(
    s: vs::SessionView,
    r: vs::ReplyView,
    s2: vs::SessionView,
    q: vs::RequestView,
)
    requires
        s.step == 72,
        vs::expects(s, r),
        vs::step_relation(s, r, s2, q),
    ensures
        q matches vs::RequestView::Spawn { program, args, env } ==> {
            &&& decrypted_entries(s, r) is Ok
            &&& env == decrypted_entries(s, r)->Ok_0
            &&& first_index(s.args, "--"@) matches Some(i) && program == s.args[i + 1] && args
                == s.args.skip(i + 2)
        },
{
}

/// The line that `pull` writes for one entry: `KEY="value"` (escaped), or
/// `export KEY='value'` (escaped) in shell form.
pub open spec fn pull_line(e: Entry, shell: bool) -> Seq<char> {
    if shell {
        "export "@ + e.0 + "="@ + shell_quoted(e.1)
    } else {
        e.0 + "="@ + dotenv_quoted(e.1)
    }
}

/// The lines of the entries, first to last, each ended by a line break.
pub open spec fn pull_lines(values: Seq<Entry>, shell: bool) -> Seq<char>
    decreases values.len(),
{
    if values.len() == 0 {
        seq![]
    } else {
        pull_line(values[0], shell) + seq!['\n'] + pull_lines(values.drop_first(), shell)
    }
}

/// The text that `pull` writes: the lines of the entries, or one line break
/// when there are none.
pub open spec fn pull_file(values: Seq<Entry>, shell: bool) -> Seq<char> {
    if values.len() == 0 {
        seq!['\n']
    } else {
        pull_lines(values, shell)
    }
}

/// The format that `--format` asks for: `Some(false)` for dotenv (also the
/// default), `Some(true)` for shell, `None` for anything else.
pub open spec fn requested_shell(args: Seq<Seq<char>>) -> Option<bool> {
    match flag_value(args, "--format"@, "dotenv"@) {
        Ok(f) => if f == "dotenv"@ {
            Some(false)
        } else if f == "shell"@ {
            Some(true)
        } else {
            None
        },
        Err(_) => None,
    }
}

proof fn lemma_pull_lines_push(values: Seq<Entry>, e: Entry, shell: bool)
    ensures
        pull_lines(values.push(e), shell) == pull_lines(values, shell) + pull_line(e, shell) + seq![
            '\n',
        ],
    decreases values.len(),
{
    if values.len() == 0 {
        let one = values.push(e);
        assert(one.drop_first() =~= Seq::<Entry>::empty());
        assert(pull_lines(one.drop_first(), shell) == Seq::<char>::empty());
        assert(one[0] == e);
        assert(pull_lines(one, shell) == pull_line(e, shell) + seq!['\n'] + Seq::<char>::empty());
        assert(pull_line(e, shell) + seq!['\n'] + Seq::<char>::empty() =~= pull_line(e, shell)
            + seq!['\n']);
        assert(values =~= Seq::<Entry>::empty());
        assert(pull_lines(values, shell) == Seq::<char>::empty());
        assert(Seq::<char>::empty() + pull_line(e, shell) + seq!['\n'] =~= pull_line(e, shell)
            + seq!['\n']);
    } else {
        lemma_pull_lines_push(values.drop_first(), e, shell);
        assert(values.push(e).drop_first() =~= values.drop_first().push(e));
        assert(values.push(e)[0] == values[0]);
        assert(pull_lines(values.push(e), shell) =~= pull_lines(values, shell) + pull_line(e, shell)
            + seq!['\n']);
    }
}

proof fn lemma_rendered_is_pull_lines(values: Seq<Entry>, shell: bool)
    ensures
        rendered(values, shell) == pull_lines(values, shell),
    decreases values.len(),
{
    reveal_strlit("=");
    assert("="@ =~= seq!['=']);
    if values.len() > 0 {
        lemma_rendered_is_pull_lines(values.drop_last(), shell);
        lemma_pull_lines_push(values.drop_last(), values.last(), shell);
        assert(values.drop_last().push(values.last()) =~= values);
        assert(rendered(values, shell) =~= pull_lines(values, shell));
    }
}

/// `secrets pull` writes (with `--output`) or gives back (without it, with
/// trailing whitespace removed) the vault's decrypted entries in the form
/// that `--format` asks for: `KEY="value"` lines for dotenv, `export
/// KEY='value'` lines for shell.
pub proof fn pull_writes_the_requested_form(
    s: vs::SessionView,
    r: vs::ReplyView,
    s2: vs::SessionView,
    q: vs::RequestView,
)
    requires
        s.step == 62,
        vs::expects(s, r),
        vs::step_relation(s, r, s2, q),
    ensures
        q matches vs::RequestView::WriteFile { content, path, force } ==> {
            &&& force == s.args.contains("--force"@)
            &&& decrypted_entries(s, r) is Ok
            &&& requested_shell(s.args) is Some
            &&& content == pull_file(decrypted_entries(s, r)->Ok_0, requested_shell(s.args)->Some_0)
            &&& first_index(s.args, "--output"@) matches Some(i) && path == s.args[i + 1]
        },
        q matches vs::RequestView::Done(Ok(text)) ==> {
            &&& decrypted_entries(s, r) is Ok
            &&& requested_shell(s.args) is Some
            &&& text == crate::text::trim_end(
                pull_file(decrypted_entries(s, r)->Ok_0, requested_shell(s.args)->Some_0),
            )
        },
{
    reveal_strlit("dotenv");
    reveal_strlit("shell");
    assert("dotenv"@.len() == 6 && "shell"@.len() == 5);
    if let Ok(values) = decrypted_entries(s, r) {
        lemma_rendered_is_pull_lines(values, true);
        lemma_rendered_is_pull_lines(values, false);
    }
}

/// Whether `deletes` are exactly the keys of `secrets` that `values` does
/// not set: each is such a key, and each such key is among them.
pub open spec fn deletes_unset_keys(
    deletes: Seq<Seq<char>>,
    secrets: Seq<SecretView>,
    values: Seq<Entry>,
) -> bool {
    &&& forall|k: int|
        0 <= k < deletes.len() ==> {
            &&& !has_key(values, #[trigger] deletes[k])
            &&& exists|i: int| 0 <= i < secrets.len() && (#[trigger] secrets[i]).name == deletes[k]
        }
    &&& forall|i: int|
        0 <= i < secrets.len() && !has_key(values, (#[trigger] secrets[i]).name)
            ==> deletes.contains(secrets[i].name)
}

/// Whether a `secrets put` session keeps to its steps and, once it knows
/// the vault, holds as pending deletes exactly the vault's keys that the
/// file does not set.
pub open spec fn put_confined(s: vs::SessionView) -> bool {
    s.args.len() > 0 && s.args[0] == "put"@ ==> {
        &&& s.step <= 3 || (50 <= s.step <= 54) || s.step == vs::DONE
        &&& 52 <= s.step <= 53 ==> deletes_unset_keys(s.deletes, s.vault.secrets, s.values)
    }
}

/// A new session is confined in the sense of [`put_confined`].
pub proof fn new_sessions_are_put_confined(args: Seq<Seq<char>>, env_directory: Option<Seq<char>>)
    ensures
        put_confined(vs::fresh_session(args, env_directory)),
{
}

/// `secrets put` publishes the file and deletes exactly the vault's keys
/// that the file drops: every step of a put session keeps it
/// [`put_confined`], and the update it sends upserts one secret for each
/// entry of the file, in order, and deletes exactly the keys of the vault
/// (as read before the update) that the file does not set.
#[verifier::spinoff_prover]
#[verifier::rlimit(80)]
pub proof fn put_deletes_exactly_the_dropped_keys(
    s: vs::SessionView,
    r: vs::ReplyView,
    s2: vs::SessionView,
    q: vs::RequestView,
)
    requires
        vs::expects(s, r),
        put_confined(s),
        vs::step_relation(s, r, s2, q),
    ensures
        put_confined(s2),
        s.args.len() > 0 && s.args[0] == "put"@ ==> (q matches vs::RequestView::Call {
            payload: PayloadView::UpdateSecrets { upserts, deletes, vault, .. },
            ..
        } ==> {
            &&& deletes_unset_keys(deletes, s.vault.secrets, s.values)
            &&& vault == s.vault.name
            &&& upserts.len() == s.values.len()
            &&& forall|i: int| 0 <= i < upserts.len() ==> (#[trigger] upserts[i]).name == s.values[i].0
        }),
{
    if s.args.len() > 0 && s.args[0] == "put"@ {
        if s.step == 51 {
            let v = vs::got_snapshot(r);
            crate::laws::stale_names_are_exactly_the_unset_keys(v.secrets, s.values);
            assert(put_confined(s2));
        } else if s.step == 3 {
            reveal_strlit("put");
            reveal_strlit("access");
            reveal_strlit("vaults");
            reveal_strlit("create");
            reveal_strlit("list");
            reveal_strlit("set");
            reveal_strlit("unset");
            assert("put"@.len() == 3 && "access"@.len() == 6 && "vaults"@.len() == 6);
            assert("create"@.len() == 6 && "list"@.len() == 4 && "set"@.len() == 3);
            assert("unset"@.len() == 5 && "put"@[0] != "set"@[0]);
            assert(put_confined(s2));
        } else {
            assert(put_confined(s2));
        }
    }
}

/// `secrets set` reads its value from standard input exactly when `--stdin`
/// is given, and otherwise asks for it without echo, naming the key; a key
/// that breaks the key rules is refused before anything is read.
pub proof fn set_asks_for_its_value(
    s: vs::SessionView,
    r: vs::ReplyView,
    s2: vs::SessionView,
    q: vs::RequestView,
)
    requires
        s.step == 3,
        s.args.len() >= 3,
        s.args[0] == "set"@,
        vs::expects(s, r),
        vs::step_relation(s, r, s2, q),
    ensures
        q is ReadStdin ==> s.args.contains("--stdin"@) && crate::names::is_secret_name(s.args[2]),
        q matches vs::RequestView::Password { prompt } ==> !s.args.contains("--stdin"@)
            && crate::names::is_secret_name(s.args[2]) && prompt == "Value for "@ + s.args[2]
            + ": "@,
        !crate::names::is_secret_name(s.args[2]) ==> q is Done,
{
    reveal_strlit("set");
    reveal_strlit("access");
    reveal_strlit("vaults");
    reveal_strlit("create");
    reveal_strlit("list");
    assert("set"@.len() == 3 && "access"@.len() == 6 && "vaults"@.len() == 6);
    assert("create"@.len() == 6 && "list"@.len() == 4);
}

} // verus!
