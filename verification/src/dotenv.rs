//! Reading and writing secrets as dotenv files and shell assignments.
use vstd::prelude::*;
use crate::fmt::{decimal, push_decimal};
use crate::names::{is_secret_name, valid_secret_name};
use crate::text::{
    chars_of, find_in_range, is_prefix, lemma_lines_step, lines, push_str, range_eq,
    range_starts_with, split_once, string_of_range, strip_cr, trim, trim_range,
};

verus! {

/// A secret key with its value.
pub type Entry = (Seq<char>, Seq<char>);

/// Whether some entry of `acc` has the key `name`.
pub open spec fn has_key(acc: Seq<Entry>, name: Seq<char>) -> bool {
    exists|i: int| 0 <= i < acc.len() && (#[trigger] acc[i]).0 == name
}

/// A value without one pair of matching surrounding quotes (`"` or `'`).
pub open spec fn unquote(v: Seq<char>) -> Seq<char> {
    if v.len() >= 2 && ((v[0] == '"' && v.last() == '"') || (v[0] == '\'' && v.last() == '\'')) {
        v.subrange(1, v.len() - 1)
    } else {
        v
    }
}

/// What one line of a dotenv file contributes: nothing (blank or comment),
/// an entry, or the error that rejects the file. `number` counts from 1.
pub open spec fn dotenv_line(line: Seq<char>, number: nat, acc: Seq<Entry>) -> Result<
    Option<Entry>,
    Seq<char>,
> {
    let l = trim(line);
    if l.len() == 0 || is_prefix("#"@, l) {
        Ok(None)
    } else {
        let body = if is_prefix("export "@, l) {
            l.skip("export "@.len() as int)
        } else {
            l
        };
        match split_once(body, '=') {
            None => Err("invalid dotenv line "@ + decimal(number)),
            Some(parts) => {
                let name = trim(parts.0);
                if !is_secret_name(name) || has_key(acc, name) {
                    Err("invalid or duplicate secret key "@ + name)
                } else {
                    Ok(Some((name, unquote(trim(parts.1)))))
                }
            },
        }
    }
}

/// The entries of the lines `ls`, whose first line has number `done + 1`,
/// after the entries `acc` of the lines before them.
pub open spec fn dotenv_lines(ls: Seq<Seq<char>>, done: nat, acc: Seq<Entry>) -> Result<
    Seq<Entry>,
    Seq<char>,
>
    decreases ls.len(),
{
    if ls.len() == 0 {
        Ok(acc)
    } else {
        match dotenv_line(ls[0], done + 1, acc) {
            Err(e) => Err(e),
            Ok(None) => dotenv_lines(ls.drop_first(), done + 1, acc),
            Ok(Some(entry)) => dotenv_lines(ls.drop_first(), done + 1, acc.push(entry)),
        }
    }
}

/// The entries of a dotenv file, in file order, or the error that rejects it.
pub open spec fn dotenv_entries(contents: Seq<char>) -> Result<Seq<Entry>, Seq<char>> {
    dotenv_lines(lines(contents), 0, seq![])
}

/// The view of the result of [`parse_dotenv`].
pub open spec fn entries_result(r: Result<Vec<(String, String)>, String>) -> Result<
    Seq<Entry>,
    Seq<char>,
> {
    match r {
        Ok(v) => Ok(v.deep_view()),
        Err(e) => Err(e@),
    }
}

/// How one character is written inside double quotes in a dotenv file.
pub open spec fn dotenv_escape_char(c: char) -> Seq<char> {
    if c == '\\' {
        seq!['\\', '\\']
    } else if c == '"' {
        seq!['\\', '"']
    } else if c == '\n' {
        seq!['\\', 'n']
    } else if c == '\r' {
        seq!['\\', 'r']
    } else {
        seq![c]
    }
}

/// `s` with each character escaped for a double-quoted dotenv value.
pub open spec fn dotenv_escape(s: Seq<char>) -> Seq<char>
    decreases s.len(),
{
    if s.len() == 0 {
        seq![]
    } else {
        dotenv_escape(s.drop_last()) + dotenv_escape_char(s.last())
    }
}

/// How one character is written inside single quotes for a POSIX shell.
pub open spec fn shell_escape_char(c: char) -> Seq<char> {
    if c == '\'' {
        seq!['\'', '\\', '\'', '\'']
    } else {
        seq![c]
    }
}

/// `s` with each single quote closed, escaped and reopened.
pub open spec fn shell_escape(s: Seq<char>) -> Seq<char>
    decreases s.len(),
{
    if s.len() == 0 {
        seq![]
    } else {
        shell_escape(s.drop_last()) + shell_escape_char(s.last())
    }
}

/// A dotenv value in double quotes.
pub open spec fn dotenv_quoted(s: Seq<char>) -> Seq<char> {
    seq!['"'] + dotenv_escape(s) + seq!['"']
}

/// A shell word in single quotes.
pub open spec fn shell_quoted(s: Seq<char>) -> Seq<char> {
    seq!['\''] + shell_escape(s) + seq!['\'']
}

/// The text of the entries in dotenv form (`KEY="value"`) or shell form
/// (`export KEY='value'`), one per line, each line ended by `\n`.
pub open spec fn rendered(values: Seq<Entry>, shell: bool) -> Seq<char>
    decreases values.len(),
{
    if values.len() == 0 {
        seq![]
    } else {
        let e = values.last();
        let line = if shell {
            "export "@ + e.0 + seq!['='] + shell_quoted(e.1)
        } else {
            e.0 + seq!['='] + dotenv_quoted(e.1)
        };
        rendered(values.drop_last(), shell) + line + seq!['\n']
    }
}

/// Whether some entry of `values` has the key `name[lo..hi]`.
fn key_taken(values: &Vec<(String, String)>, name: &[char], lo: usize, hi: usize) -> (r: bool)
    requires
        lo <= hi <= name.len(),
    ensures
        r == has_key(values.deep_view(), name@.subrange(lo as int, hi as int)),
{
    let ghost key = name@.subrange(lo as int, hi as int);
    let mut i: usize = 0;
    while i < values.len()
        invariant
            i <= values.len(),
            lo <= hi <= name.len(),
            key == name@.subrange(lo as int, hi as int),
            forall|j: int| 0 <= j < i ==> (#[trigger] values.deep_view()[j]).0 != key,
        decreases values.len() - i,
    {
        let existing = chars_of(values[i].0.as_str());
        let hit = range_eq(name, lo, hi, existing.as_slice());
        assert(values.deep_view()[i as int].0 == values@[i as int].0@);
        if hit {
            assert(values.deep_view()[i as int].0 == key);
            return true;
        }
        i = i + 1;
    }
    false
}

/// Parses one line, `cs[lo..hi]`, with line number `number`.
fn parse_line(
    cs: &[char],
    lo: usize,
    hi: usize,
    number: usize,
    values: &Vec<(String, String)>,
) -> (r: Result<Option<(String, String)>, String>)
    requires
        lo <= hi <= cs.len(),
    ensures
        match r {
            Err(e) => dotenv_line(
                cs@.subrange(lo as int, hi as int),
                number as nat,
                values.deep_view(),
            ) == Err::<Option<Entry>, Seq<char>>(e@),
            Ok(None) => dotenv_line(
                cs@.subrange(lo as int, hi as int),
                number as nat,
                values.deep_view(),
            ) == Ok::<Option<Entry>, Seq<char>>(None),
            Ok(Some(e)) => dotenv_line(
                cs@.subrange(lo as int, hi as int),
                number as nat,
                values.deep_view(),
            ) == Ok::<Option<Entry>, Seq<char>>(Some((e.0@, e.1@))),
        },
{
    let ghost line = cs@.subrange(lo as int, hi as int);
    let (a, b) = trim_range(cs, lo, hi);
    let ghost l = cs@.subrange(a as int, b as int);
    assert(l == trim(line));
    if a == b || range_starts_with(cs, a, b, "#") {
        return Ok(None);
    }
    let export = chars_of("export ");
    let mut start = a;
    if range_starts_with(cs, a, b, "export ") {
        start = a + export.len();
        assert(l.skip("export "@.len() as int) == cs@.subrange(start as int, b as int));
    }
    let ghost body = cs@.subrange(start as int, b as int);
    let eq = find_in_range(cs, start, b, '=');
    if eq >= b {
        let mut msg = String::new();
        push_str(&mut msg, "invalid dotenv line ");
        push_decimal(&mut msg, number as u128);
        assert(msg@ == Seq::<char>::empty() + "invalid dotenv line "@ + decimal(number as nat));
        assert(Seq::<char>::empty() + "invalid dotenv line "@ == "invalid dotenv line "@);
        return Err(msg);
    }
    assert(body.take(eq - start) == cs@.subrange(start as int, eq as int));
    assert(body.skip(eq - start + 1) == cs@.subrange(eq + 1, b as int));
    let (na, nb) = trim_range(cs, start, eq);
    let name = string_of_range(cs, na, nb);
    if !valid_secret_name(name.as_str()) || key_taken(values, cs, na, nb) {
        let mut msg = String::new();
        push_str(&mut msg, "invalid or duplicate secret key ");
        push_str(&mut msg, name.as_str());
        assert(Seq::<char>::empty() + "invalid or duplicate secret key "@
            == "invalid or duplicate secret key "@);
        return Err(msg);
    }
    let (va, vb) = trim_range(cs, eq + 1, b);
    let ghost v = cs@.subrange(va as int, vb as int);
    let quoted = vb - va >= 2 && ((cs[va] == '"' && cs[vb - 1] == '"') || (cs[va] == '\''
        && cs[vb - 1] == '\''));
    let value = if quoted {
        assert(v.subrange(1, v.len() - 1) == cs@.subrange(va + 1, vb - 1));
        string_of_range(cs, va + 1, vb - 1)
    } else {
        string_of_range(cs, va, vb)
    };
    assert(value@ == unquote(v));
    Ok(Some((name, value)))
}

/// Reads a dotenv file: blank lines and `#` comments are skipped, `export `
/// is allowed before a key, keys must be valid secret names and unique, and
/// one pair of surrounding quotes is removed from a value.
pub fn parse_dotenv(contents: &str) -> (r: Result<Vec<(String, String)>, String>)
    ensures
        entries_result(r) == dotenv_entries(contents@),
{
    let cs = chars_of(contents);
    let n = cs.len();
    let mut values: Vec<(String, String)> = Vec::new();
    let mut p: usize = 0;
    let mut number: usize = 0;
    assert(cs@.skip(0) == cs@);
    assert(values.deep_view() =~= Seq::<Entry>::empty());
    while p < n
        invariant
            n == cs.len(),
            cs@ == contents@,
            number <= p <= n,
            dotenv_entries(contents@) == dotenv_lines(
                lines(cs@.skip(p as int)),
                number as nat,
                values.deep_view(),
            ),
        decreases n - p,
    {
        let ghost rest = cs@.skip(p as int);
        let ghost acc = values.deep_view();
        let i = find_in_range(cs.as_slice(), p, n, '\n');
        proof {
            lemma_lines_step(rest);
            assert(cs@.subrange(p as int, n as int) == rest);
        }
        let mut e = i;
        if i < n && i > p && cs[i - 1] == '\r' {
            e = i - 1;
        }
        let ghost line = cs@.subrange(p as int, e as int);
        proof {
            if i < n {
                assert(rest.take(i - p) == cs@.subrange(p as int, i as int));
                assert(strip_cr(rest.take(i - p)) == line);
                assert(rest.skip(i - p + 1) == cs@.skip(i + 1));
            } else {
                assert(rest == line);
            }
        }
        let ghost ls = lines(rest);
        assert(ls.len() > 0 && ls[0] == line);
        let step = parse_line(cs.as_slice(), p, e, number + 1, &values);
        match step {
            Err(msg) => {
                return Err(msg);
            },
            Ok(None) => {},
            Ok(Some(entry)) => {
                values.push(entry);
                assert(values.deep_view() =~= acc.push((entry.0@, entry.1@)));
            },
        }
        number = number + 1;
        if i >= n {
            assert(ls.drop_first() =~= Seq::<Seq<char>>::empty());
            return Ok(values);
        }
        p = i + 1;
        assert(ls.drop_first() == lines(cs@.skip(p as int)));
    }
    assert(cs@.skip(n as int) =~= Seq::<char>::empty());
    Ok(values)
}

/// A copy of a list of entries.
pub fn copy_entries(values: &Vec<(String, String)>) -> (r: Vec<(String, String)>)
    ensures
        r.deep_view() == values.deep_view(),
{
    let mut r: Vec<(String, String)> = Vec::new();
    let mut i: usize = 0;
    while i < values.len()
        invariant
            i <= values.len(),
            r@.len() == i,
            forall|j: int|
                0 <= j < i ==> (#[trigger] r@[j]).0@ == values@[j].0@ && r@[j].1@ == values@[j].1@,
        decreases values.len() - i,
    {
        r.push((values[i].0.clone(), values[i].1.clone()));
        i = i + 1;
    }
    assert(r.deep_view() =~= values.deep_view());
    r
}

/// A value in double quotes, with backslash, double quote, newline and
/// carriage return escaped, as a dotenv file holds it.
pub fn dotenv_quote(value: &str) -> (r: String)
    ensures
        r@ == dotenv_quoted(value@),
{
    let cs = chars_of(value);
    let mut r = String::new();
    r.push('"');
    let mut i: usize = 0;
    assert(cs@.take(0) =~= Seq::<char>::empty());
    while i < cs.len()
        invariant
            i <= cs.len(),
            cs@ == value@,
            r@ == seq!['"'] + dotenv_escape(cs@.take(i as int)),
        decreases cs.len() - i,
    {
        let c = cs[i];
        if c == '\\' {
            r.push('\\');
            r.push('\\');
        } else if c == '"' {
            r.push('\\');
            r.push('"');
        } else if c == '\n' {
            r.push('\\');
            r.push('n');
        } else if c == '\r' {
            r.push('\\');
            r.push('r');
        } else {
            r.push(c);
        }
        i = i + 1;
        assert(cs@.take(i as int).drop_last() == cs@.take(i - 1));
        assert(r@ =~= seq!['"'] + dotenv_escape(cs@.take(i as int)));
    }
    r.push('"');
    assert(cs@.take(cs.len() as int) == cs@);
    r
}

/// A value in single quotes for a POSIX shell, each `'` written as `'\''`.
pub fn shell_quote(value: &str) -> (r: String)
    ensures
        r@ == shell_quoted(value@),
{
    let cs = chars_of(value);
    let mut r = String::new();
    r.push('\'');
    let mut i: usize = 0;
    assert(cs@.take(0) =~= Seq::<char>::empty());
    while i < cs.len()
        invariant
            i <= cs.len(),
            cs@ == value@,
            r@ == seq!['\''] + shell_escape(cs@.take(i as int)),
        decreases cs.len() - i,
    {
        let c = cs[i];
        if c == '\'' {
            r.push('\'');
            r.push('\\');
            r.push('\'');
            r.push('\'');
        } else {
            r.push(c);
        }
        i = i + 1;
        assert(cs@.take(i as int).drop_last() == cs@.take(i - 1));
        assert(r@ =~= seq!['\''] + shell_escape(cs@.take(i as int)));
    }
    r.push('\'');
    assert(cs@.take(cs.len() as int) == cs@);
    r
}

/// What `pull` writes: the lines of the entries joined by `\n`, and a final
/// `\n`; with no entries, that is a single line break.
pub open spec fn pulled_text(values: Seq<Entry>, shell: bool) -> Seq<char> {
    if values.len() == 0 {
        seq!['\n']
    } else {
        rendered(values, shell)
    }
}

/// The entries as a dotenv file, or as shell `export` lines when `shell`,
/// as `pull` writes them.
pub fn render_values(values: &Vec<(String, String)>, shell: bool) -> (r: String)
    ensures
        r@ == pulled_text(values.deep_view(), shell),
{
    if values.len() == 0 {
        let mut r = String::new();
        r.push('\n');
        return r;
    }
    let mut r = String::new();
    let mut i: usize = 0;
    assert(values.deep_view().take(0) =~= Seq::<Entry>::empty());
    while i < values.len()
        invariant
            i <= values.len(),
            r@ == rendered(values.deep_view().take(i as int), shell),
        decreases values.len() - i,
    {
        let ghost before = r@;
        let (k, v) = (&values[i].0, &values[i].1);
        if shell {
            push_str(&mut r, "export ");
            push_str(&mut r, k.as_str());
            r.push('=');
            let q = shell_quote(v.as_str());
            push_str(&mut r, q.as_str());
        } else {
            push_str(&mut r, k.as_str());
            r.push('=');
            let q = dotenv_quote(v.as_str());
            push_str(&mut r, q.as_str());
        }
        r.push('\n');
        i = i + 1;
        let ghost t = values.deep_view().take(i as int);
        assert(t.drop_last() == values.deep_view().take(i - 1));
        assert(t.last() == (k@, v@));
        assert(r@ =~= rendered(t, shell));
    }
    assert(values.deep_view().take(values.len() as int) == values.deep_view());
    assert(values.deep_view().len() == values@.len());
    r
}

} // verus!
