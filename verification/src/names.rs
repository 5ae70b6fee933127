//! Which identity names, secret keys, device labels, storages, origins and
//! root keys are accepted.
use vstd::prelude::*;
use crate::text::{
    alnum, chars_of, digit, hex_char, is_alnum, is_digit, is_hex, is_prefix, is_upper, same,
    starts_with, upper,
};

verus! {

/// An identity name: 1 to 64 ASCII letters, digits, `-` or `_`.
pub open spec fn is_identity_name(s: Seq<char>) -> bool {
    &&& 0 < s.len() <= 64
    &&& forall|i: int| 0 <= i < s.len() ==> is_alnum(#[trigger] s[i]) || s[i] == '-' || s[i] == '_'
}

/// A secret key: 1 to 128 characters, each `_` or an upper-case ASCII letter,
/// or an ASCII digit anywhere but first.
pub open spec fn is_secret_name(s: Seq<char>) -> bool {
    &&& 0 < s.len() <= 128
    &&& forall|i: int|
        0 <= i < s.len() ==> #[trigger] s[i] == '_' || is_upper(s[i]) || (i > 0 && is_digit(s[i]))
}

/// A device label: 1 to 80 ASCII letters, digits, spaces, `-`, `_` or `.`.
pub open spec fn is_device_label(s: Seq<char>) -> bool {
    &&& 0 < s.len() <= 80
    &&& forall|i: int|
        0 <= i < s.len() ==> is_alnum(#[trigger] s[i]) || s[i] == ' ' || s[i] == '-' || s[i]
            == '_' || s[i] == '.'
}

/// One of the identity storages that ICP CLI offers.
pub open spec fn is_storage(s: Seq<char>) -> bool {
    s == "keyring"@ || s == "password"@ || s == "plaintext"@
}

/// An origin that is HTTPS or a loopback HTTP address.
pub open spec fn is_trusted_origin(s: Seq<char>) -> bool {
    is_prefix("https://"@, s) || is_prefix("http://localhost"@, s) || is_prefix(
        "http://127.0.0.1"@,
        s,
    )
}

/// A root key setting: `mainnet`, `fetch`, or 266 hexadecimal digits.
pub open spec fn is_root_key(s: Seq<char>) -> bool {
    ||| s == "mainnet"@
    ||| s == "fetch"@
    ||| s.len() == 266 && forall|i: int| 0 <= i < s.len() ==> is_hex(#[trigger] s[i])
}

/// Whether `value` is an acceptable identity name.
pub fn valid_name(value: &str) -> (r: bool)
    ensures
        r == is_identity_name(value@),
{
    let cs = chars_of(value);
    if cs.len() == 0 || cs.len() > 64 {
        return false;
    }
    let mut i: usize = 0;
    while i < cs.len()
        invariant
            i <= cs.len(),
            cs@ == value@,
            forall|j: int| 0 <= j < i ==> is_alnum(#[trigger] cs@[j]) || cs@[j] == '-' || cs@[j]
                == '_',
        decreases cs.len() - i,
    {
        let c = cs[i];
        if !(alnum(c) || c == '-' || c == '_') {
            return false;
        }
        i = i + 1;
    }
    true
}

/// Whether `name` is an acceptable secret key.
pub fn valid_secret_name(name: &str) -> (r: bool)
    ensures
        r == is_secret_name(name@),
{
    let cs = chars_of(name);
    if cs.len() == 0 || cs.len() > 128 {
        return false;
    }
    let mut i: usize = 0;
    while i < cs.len()
        invariant
            i <= cs.len(),
            cs@ == name@,
            forall|j: int|
                0 <= j < i ==> #[trigger] cs@[j] == '_' || is_upper(cs@[j]) || (j > 0 && is_digit(
                    cs@[j],
                )),
        decreases cs.len() - i,
    {
        let c = cs[i];
        if !(c == '_' || upper(c) || (i > 0 && digit(c))) {
            return false;
        }
        i = i + 1;
    }
    true
}

/// Whether `label` is an acceptable device label.
pub fn valid_label(label: &str) -> (r: bool)
    ensures
        r == is_device_label(label@),
{
    let cs = chars_of(label);
    if cs.len() == 0 || cs.len() > 80 {
        return false;
    }
    let mut i: usize = 0;
    while i < cs.len()
        invariant
            i <= cs.len(),
            cs@ == label@,
            forall|j: int|
                0 <= j < i ==> is_alnum(#[trigger] cs@[j]) || cs@[j] == ' ' || cs@[j] == '-'
                    || cs@[j] == '_' || cs@[j] == '.',
        decreases cs.len() - i,
    {
        let c = cs[i];
        if !(alnum(c) || c == ' ' || c == '-' || c == '_' || c == '.') {
            return false;
        }
        i = i + 1;
    }
    true
}

/// Whether `storage` names an identity storage.
pub fn valid_storage(storage: &str) -> (r: bool)
    ensures
        r == is_storage(storage@),
{
    same(storage, "keyring") || same(storage, "password") || same(storage, "plaintext")
}

/// Whether `origin` is HTTPS or a loopback HTTP address.
pub fn trusted_origin(origin: &str) -> (r: bool)
    ensures
        r == is_trusted_origin(origin@),
{
    starts_with(origin, "https://") || starts_with(origin, "http://localhost") || starts_with(
        origin,
        "http://127.0.0.1",
    )
}

/// Whether `root_key` is an acceptable root key setting.
pub fn valid_root_key(root_key: &str) -> (r: bool)
    ensures
        r == is_root_key(root_key@),
{
    if same(root_key, "mainnet") || same(root_key, "fetch") {
        return true;
    }
    let cs = chars_of(root_key);
    if cs.len() != 266 {
        return false;
    }
    let mut i: usize = 0;
    while i < cs.len()
        invariant
            i <= cs.len(),
            cs@ == root_key@,
            root_key@ != "mainnet"@,
            root_key@ != "fetch"@,
            forall|j: int| 0 <= j < i ==> is_hex(#[trigger] cs@[j]),
        decreases cs.len() - i,
    {
        if !hex_char(cs[i]) {
            return false;
        }
        i = i + 1;
    }
    true
}

} // verus!
