//! Vault permissions, repository routes and the strings that bind secrets to
//! their vault.
use vstd::prelude::*;
use crate::args::{first_index, has_flag, position};
use crate::fmt::{decimal, push_decimal};
use crate::text::{
    chars_of, find_in_range, is_prefix, push_str, range_starts_with, split_once,
    string_of_range,
};

verus! {

/// What a grant allows on a vault.
#[derive(Clone, Copy, Debug, PartialEq, Eq, Structural)]
pub struct VaultPermission {
    pub read: bool,
    pub write: bool,
    pub delete_secret: bool,
    pub delete_vault: bool,
    pub manage_permissions: bool,
}

/// Where a repository's vaults live. Principals are held in their text form.
pub struct Route {
    pub namespace: String,
    pub name: String,
    pub storage_id: String,
    pub owner: String,
    pub shard: String,
}

/// A secret as a vault stores it: its key and its ciphertext.
pub struct VaultSecret {
    pub name: String,
    pub ciphertext: Vec<u8>,
}

/// A vault as `list_vaults` and `create_vault` describe it.
pub struct VaultSummary {
    pub name: String,
    pub revision: u128,
    pub secret_names: Vec<String>,
}

/// A vault with its secrets, as `get_vault` returns it.
pub struct VaultSnapshot {
    pub name: String,
    pub revision: u128,
    pub epoch: u128,
    pub secrets: Vec<VaultSecret>,
}

/// Whom a grant is for: a user (a principal, in text form) or an organization's team.
pub enum GrantSubject {
    User(String),
    Team { organization: String, team: String },
}

/// An access grant on a vault.
pub struct VaultGrant {
    pub subject: GrantSubject,
    pub permission: VaultPermission,
}

/// The keys of a vault's secrets, in order.
pub open spec fn secret_names(v: VaultSnapshot) -> Seq<Seq<char>> {
    Seq::new(v.secrets@.len(), |i: int| v.secrets@[i].name@)
}

pub const PERMISSION_REQUIRED: &'static str =
    "select at least one permission: --read, --write, --delete-secrets, --delete-vault, or --manage-access";

/// The permission that the flags ask for: every permission implies `read`,
/// and `manage_permissions` implies `write`.
pub open spec fn permission_of(args: Seq<Seq<char>>) -> VaultPermission {
    let write = args.contains("--write"@);
    let delete_secret = args.contains("--delete-secrets"@);
    let delete_vault = args.contains("--delete-vault"@);
    let manage = args.contains("--manage-access"@);
    VaultPermission {
        read: args.contains("--read"@) || write || delete_secret || delete_vault || manage,
        write: write || manage,
        delete_secret,
        delete_vault,
        manage_permissions: manage,
    }
}

/// `parts.join(sep)`.
pub open spec fn join(parts: Seq<Seq<char>>, sep: Seq<char>) -> Seq<char>
    decreases parts.len(),
{
    if parts.len() == 0 {
        seq![]
    } else if parts.len() == 1 {
        parts[0]
    } else {
        join(parts.drop_last(), sep) + sep + parts.last()
    }
}

/// The names of the permissions that `p` grants, in a fixed order.
pub open spec fn labels(p: VaultPermission) -> Seq<Seq<char>> {
    (if p.read {
        seq!["read"@]
    } else {
        seq![]
    }) + (if p.write {
        seq!["write"@]
    } else {
        seq![]
    }) + (if p.delete_secret {
        seq!["delete-secrets"@]
    } else {
        seq![]
    }) + (if p.delete_vault {
        seq!["delete-vault"@]
    } else {
        seq![]
    }) + (if p.manage_permissions {
        seq!["manage-access"@]
    } else {
        seq![]
    })
}

/// `s` without trailing `/` characters.
pub open spec fn trim_slashes(s: Seq<char>) -> Seq<char>
    decreases s.len(),
{
    if s.len() > 0 && s.last() == '/' {
        trim_slashes(s.drop_last())
    } else {
        s
    }
}

/// The namespace and repository name in an `igit://host/namespace/name` URL.
pub open spec fn repository_of_url(url: Seq<char>) -> Result<(Seq<char>, Seq<char>), Seq<char>> {
    if !is_prefix("igit://"@, url) {
        Err("repository must use an igit:// URL"@)
    } else {
        match split_once(url.skip("igit://"@.len() as int), '/') {
            None => Err("invalid igit repository URL"@),
            Some(host_path) => match split_once(trim_slashes(host_path.1), '/') {
                None => Err("invalid igit repository URL"@),
                Some(parts) => if parts.0.len() == 0 || parts.1.len() == 0 || parts.1.contains(
                    '/',
                ) {
                    Err("invalid igit repository URL"@)
                } else {
                    Ok(parts)
                },
            },
        }
    }
}

/// The repository that a secrets command names with `--repo`, or else the
/// checkout's `origin` remote (`None` when Git could not report one).
pub open spec fn repository_spec(args: Seq<Seq<char>>, origin: Option<Seq<char>>) -> Result<
    (Seq<char>, Seq<char>),
    Seq<char>,
> {
    match first_index(args, "--repo"@) {
        Some(i) => if i + 1 < args.len() {
            repository_of_url(args[i + 1])
        } else {
            Err("--repo requires an igit URL"@)
        },
        None => match origin {
            None => Err("not in an infinigit checkout; pass --repo igit://host/namespace/repository"@),
            Some(url) => repository_of_url(url),
        },
    }
}

/// `infinigit-secret-v1:{owner}/{storage}:{vault}:{epoch}:{name}`.
pub open spec fn context_text(
    owner: Seq<char>,
    storage_id: Seq<char>,
    vault: Seq<char>,
    epoch: u128,
    name: Seq<char>,
) -> Seq<char> {
    "infinigit-secret-v1:"@ + owner + seq!['/'] + storage_id + seq![':'] + vault + seq![':']
        + decimal(epoch as nat) + seq![':'] + name
}

/// `{owner}/{storage}\0{vault}\0{epoch}`, the input that a vault key is derived for.
pub open spec fn key_input_text(
    owner: Seq<char>,
    storage_id: Seq<char>,
    vault: Seq<char>,
    epoch: u128,
) -> Seq<char> {
    owner + seq!['/'] + storage_id + seq!['\0'] + vault + seq!['\0'] + decimal(epoch as nat)
}

/// The permission that `args` asks for, or an error when it asks for none.
pub fn requested_permission(args: &[String]) -> (r: Result<VaultPermission, String>)
    ensures
        match r {
            Ok(p) => p == permission_of(args.deep_view()) && p.read,
            Err(e) => !permission_of(args.deep_view()).read && e@ == PERMISSION_REQUIRED@,
        },
{
    let mut permission = VaultPermission {
        read: has_flag(args, "--read"),
        write: has_flag(args, "--write"),
        delete_secret: has_flag(args, "--delete-secrets"),
        delete_vault: has_flag(args, "--delete-vault"),
        manage_permissions: has_flag(args, "--manage-access"),
    };
    if permission.write || permission.delete_secret || permission.delete_vault
        || permission.manage_permissions {
        permission.read = true;
    }
    if permission.manage_permissions {
        permission.write = true;
    }
    if !permission.read {
        return Err(PERMISSION_REQUIRED.to_owned());
    }
    Ok(permission)
}

proof fn lemma_join_push(parts: Seq<Seq<char>>, x: Seq<char>, sep: Seq<char>)
    ensures
        join(parts.push(x), sep) == if parts.len() == 0 {
            x
        } else {
            join(parts, sep) + sep + x
        },
{
    assert(parts.push(x).drop_last() == parts);
}

/// The comma-separated names of the permissions that `permission` grants.
pub fn permission_labels(permission: &VaultPermission) -> (r: String)
    ensures
        r@ == join(labels(*permission), ","@),
{
    let mut r = String::new();
    let ghost mut parts: Seq<Seq<char>> = seq![];
    let flags = [
        permission.read,
        permission.write,
        permission.delete_secret,
        permission.delete_vault,
        permission.manage_permissions,
    ];
    let mut i: usize = 0;
    let mut any = false;
    while i < 5
        invariant
            i <= 5,
            any == (parts.len() > 0),
            flags@ == seq![
                permission.read,
                permission.write,
                permission.delete_secret,
                permission.delete_vault,
                permission.manage_permissions,
            ],
            r@ == join(parts, ","@),
            parts == labels_upto(*permission, i as int),
        decreases 5 - i,
    {
        if flags[i] {
            let name = if i == 0 {
                "read"
            } else if i == 1 {
                "write"
            } else if i == 2 {
                "delete-secrets"
            } else if i == 3 {
                "delete-vault"
            } else {
                "manage-access"
            };
            proof {
                lemma_join_push(parts, name@, ","@);
            }
            if any {
                push_str(&mut r, ",");
            }
            push_str(&mut r, name);
            any = true;
            proof {
                parts = parts.push(name@);
            }
        }
        i = i + 1;
    }
    assert(labels_upto(*permission, 5) =~= labels(*permission)) by {
        reveal_with_fuel(labels_upto, 6);
    }
    r
}

/// The names of the first `k` permission flags that `p` sets.
pub open spec fn labels_upto(p: VaultPermission, k: int) -> Seq<Seq<char>>
    decreases k,
{
    if k <= 0 {
        seq![]
    } else {
        let (flag, name) = if k == 1 {
            (p.read, "read"@)
        } else if k == 2 {
            (p.write, "write"@)
        } else if k == 3 {
            (p.delete_secret, "delete-secrets"@)
        } else if k == 4 {
            (p.delete_vault, "delete-vault"@)
        } else {
            (p.manage_permissions, "manage-access"@)
        };
        if flag {
            labels_upto(p, k - 1).push(name)
        } else {
            labels_upto(p, k - 1)
        }
    }
}

/// The namespace and name of an `igit://host/namespace/name` URL.
pub fn repository_of(url: &str) -> (r: Result<(String, String), String>)
    ensures
        match r {
            Ok(p) => repository_of_url(url@) == Ok::<(Seq<char>, Seq<char>), Seq<char>>(
                (p.0@, p.1@),
            ),
            Err(e) => repository_of_url(url@) == Err::<(Seq<char>, Seq<char>), Seq<char>>(e@),
        },
{
    let cs = chars_of(url);
    let n = cs.len();
    assert(cs@.subrange(0, n as int) == cs@);
    if !range_starts_with(cs.as_slice(), 0, n, "igit://") {
        return Err("repository must use an igit:// URL".to_owned());
    }
    let start = chars_of("igit://").len();
    let ghost rest = cs@.skip(start as int);
    assert(rest == cs@.subrange(start as int, n as int));
    let slash = find_in_range(cs.as_slice(), start, n, '/');
    if slash >= n {
        return Err("invalid igit repository URL".to_owned());
    }
    assert(rest.skip(slash - start + 1) == cs@.subrange(slash + 1, n as int));
    let mut end = n;
    while end > slash + 1 && cs[end - 1] == '/'
        invariant
            slash + 1 <= end <= n == cs.len(),
            trim_slashes(cs@.subrange(slash + 1, n as int)) == trim_slashes(
                cs@.subrange(slash + 1, end as int),
            ),
        decreases end,
    {
        assert(cs@.subrange(slash + 1, end as int).drop_last() == cs@.subrange(
            slash + 1,
            end - 1,
        ));
        end = end - 1;
    }
    let ghost path = cs@.subrange(slash + 1, end as int);
    assert(trim_slashes(path) == path);
    let mid = find_in_range(cs.as_slice(), slash + 1, end, '/');
    if mid >= end {
        return Err("invalid igit repository URL".to_owned());
    }
    assert(path.take(mid - slash - 1) == cs@.subrange(slash + 1, mid as int));
    assert(path.skip(mid - slash - 1 + 1) == cs@.subrange(mid + 1, end as int));
    let later = find_in_range(cs.as_slice(), mid + 1, end, '/');
    proof {
        let tail = cs@.subrange(mid + 1, end as int);
        if later < end {
            assert(tail[later - mid - 1] == '/');
            assert(tail.contains('/'));
        } else {
            assert forall|j: int| 0 <= j < tail.len() implies tail[j] != '/' by {
                assert(tail[j] == cs@[mid + 1 + j]);
            }
        }
    }
    if mid == slash + 1 || mid + 1 == end || later < end {
        return Err("invalid igit repository URL".to_owned());
    }
    Ok((string_of_range(cs.as_slice(), slash + 1, mid), string_of_range(cs.as_slice(), mid + 1, end)))
}

/// The namespace and name of the repository that a secrets command acts on:
/// the `--repo` URL, or else `origin`, the URL of the checkout's `origin`
/// remote (`None` when Git could not report it).
pub fn repository_arg(args: &[String], origin: Option<String>) -> (r: Result<
    (String, String),
    String,
>)
    ensures
        match r {
            Ok(p) => repository_spec(args.deep_view(), origin.deep_view()) == Ok::<
                (Seq<char>, Seq<char>),
                Seq<char>,
            >((p.0@, p.1@)),
            Err(e) => repository_spec(args.deep_view(), origin.deep_view()) == Err::<
                (Seq<char>, Seq<char>),
                Seq<char>,
            >(e@),
        },
{
    match position(args, "--repo") {
        Some(index) => {
            if index + 1 < args.len() {
                assert(args.deep_view()[index + 1] == args[index + 1 as int]@);
                repository_of(args[index + 1].as_str())
            } else {
                Err("--repo requires an igit URL".to_owned())
            }
        },
        None => match origin {
            Some(url) => repository_of(url.as_str()),
            None => Err(
                "not in an infinigit checkout; pass --repo igit://host/namespace/repository".to_owned(),
            ),
        },
    }
}

/// The context that binds a secret's ciphertext to its vault, epoch and name.
pub fn secret_context(route: &Route, vault: &str, epoch: u128, name: &str) -> (r: String)
    ensures
        r@ == context_text(route.owner@, route.storage_id@, vault@, epoch, name@),
{
    let mut r = String::new();
    push_str(&mut r, "infinigit-secret-v1:");
    push_str(&mut r, route.owner.as_str());
    r.push('/');
    push_str(&mut r, route.storage_id.as_str());
    r.push(':');
    push_str(&mut r, vault);
    r.push(':');
    push_decimal(&mut r, epoch);
    r.push(':');
    push_str(&mut r, name);
    assert(r@ =~= context_text(route.owner@, route.storage_id@, vault@, epoch, name@));
    r
}

/// The input that a vault's key is derived for.
pub fn key_input(route: &Route, vault: &str, epoch: u128) -> (r: String)
    ensures
        r@ == key_input_text(route.owner@, route.storage_id@, vault@, epoch),
{
    let mut r = String::new();
    push_str(&mut r, route.owner.as_str());
    r.push('/');
    push_str(&mut r, route.storage_id.as_str());
    r.push('\0');
    push_str(&mut r, vault);
    r.push('\0');
    push_decimal(&mut r, epoch);
    assert(r@ =~= key_input_text(route.owner@, route.storage_id@, vault@, epoch));
    r
}

} // verus!
