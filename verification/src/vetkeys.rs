//! Vault encryption with VetKD-derived keys (`ic_vetkeys`), and the random
//! numbers that it and key rotation take. Keys are held as plain bytes: a
//! transport key as its 32-byte seed, and a vault key as the bytes of its
//! VetKey.
use vstd::prelude::*;
use rand::RngCore;
use crate::dotenv::Entry;
use crate::secrets::{secrets_view, SecretView};
use crate::text::concat;
use crate::vault::{context_text, secret_context, Route, VaultSecret, VaultSnapshot};

verus! {

/// The bytes of a string, as UTF-8.
pub open spec fn utf8_of(s: Seq<char>) -> Seq<u8> {
    vstd::utf8::encode_utf8(s)
}

/// The extra bytes of an `ic_vetkeys` ciphertext: an 8-byte header, a
/// 12-byte nonce and a 16-byte tag.
pub open spec fn ciphertext_overhead() -> nat {
    36
}

/// The longest message and associated data that AES-GCM takes: 2^36 bytes.
pub open spec fn gcm_limit() -> nat {
    0x10_0000_0000
}

/// The public key (48 bytes) of the transport key that
/// `TransportSecretKey::from_seed` makes from `seed`.
pub uninterp spec fn transport_public(seed: Seq<u8>) -> Seq<u8>;

/// Whether `VetKey::deserialize` accepts `bytes`.
pub uninterp spec fn is_vetkey(bytes: Seq<u8>) -> bool;

/// The bytes of the VetKey that `EncryptedVetKey::decrypt_and_verify` yields
/// for the encrypted key `encrypted`, the transport key of `seed`, the
/// verification key `public` and the derivation input `input`; `None` when
/// any of them is rejected.
pub uninterp spec fn verified_vetkey(
    seed: Seq<u8>,
    encrypted: Seq<u8>,
    public: Seq<u8>,
    input: Seq<u8>,
) -> Option<Seq<u8>>;

/// The plaintext that `DerivedKeyMaterial::decrypt_message` yields with the
/// key material of the VetKey `vetkey`, with `context` as domain separator
/// and (as UTF-8) associated data; `None` when it fails.
pub uninterp spec fn opened(vetkey: Seq<u8>, ciphertext: Seq<u8>, context: Seq<char>) -> Option<
    Seq<u8>,
>;

/// `OsRng.fill_bytes` on 32 bytes.
#[verifier::external_body]
fn random_32() -> (r: Vec<u8>)
    ensures
        r@.len() == 32,
{
    let mut seed = [0u8; 32];
    rand::rngs::OsRng.fill_bytes(&mut seed);
    seed.to_vec()
}

/// `OsRng.fill_bytes` on 16 bytes.
#[verifier::external_body]
fn random_16() -> (r: [u8; 16])
{
    let mut random = [0u8; 16];
    rand::rngs::OsRng.fill_bytes(&mut random);
    random
}

/// `TransportSecretKey::from_seed` and its `public_key`: a compressed G1
/// point, 48 bytes, fixed by the seed (from which the key is drawn with
/// ChaCha20).
#[verifier::external_body]
pub(crate) fn transport_public_key(seed: &[u8]) -> (r: Vec<u8>)
    requires
        seed@.len() == 32,
    ensures
        r@ == transport_public(seed@),
        r@.len() == 48,
{
    match ic_vetkeys::TransportSecretKey::from_seed(seed.to_vec()) {
        Ok(key) => key.public_key(),
        Err(_) => Vec::new(),
    }
}

/// Why the encrypted vault key was refused.
pub enum VetKeyFailure {
    /// `EncryptedVetKey::deserialize` refused it.
    EncryptedKey,
    /// `DerivedPublicKey::deserialize` refused the verification key.
    VerificationKey,
    /// Decryption or verification failed, with this message.
    Verification(String),
}

/// `EncryptedVetKey::decrypt_and_verify` of `encrypted` (deserialized) with
/// the transport key of `seed` and the verification key `public`
/// (deserialized) for `input`, giving `VetKey::serialize`. It depends on its
/// arguments alone (named [`verified_vetkey`]); a key that is not 192 bytes
/// is refused first, then a verification key that is not 96 bytes; the
/// VetKey it gives is one that `VetKey::deserialize` accepts again.
#[verifier::external_body]
fn open_vetkey(seed: &[u8], encrypted: &[u8], public: &[u8], input: &[u8]) -> (r: Result<
    Vec<u8>,
    VetKeyFailure,
>)
    requires
        seed@.len() == 32,
    ensures
        match r {
            Ok(k) => verified_vetkey(seed@, encrypted@, public@, input@) == Some(k@) && is_vetkey(
                k@,
            ),
            Err(_) => verified_vetkey(seed@, encrypted@, public@, input@) is None,
        },
        encrypted@.len() != 192 ==> r matches Err(VetKeyFailure::EncryptedKey),
        r is Err && !(r matches Err(VetKeyFailure::EncryptedKey)) && public@.len() != 96 ==> r matches Err(
            VetKeyFailure::VerificationKey,
        ),
{
    let t = ic_vetkeys::TransportSecretKey::from_seed(seed.to_vec()).map_err(VetKeyFailure::Verification)?;
    let key = ic_vetkeys::EncryptedVetKey::deserialize(encrypted).map_err(|_| VetKeyFailure::EncryptedKey)?;
    let p = ic_vetkeys::DerivedPublicKey::deserialize(public).map_err(|_| VetKeyFailure::VerificationKey)?;
    let vetkey = key.decrypt_and_verify(&t, &p, input).map_err(VetKeyFailure::Verification)?;
    Ok(vetkey.serialize().to_vec())
}

/// `DerivedKeyMaterial::decrypt_message` with the key material of the VetKey
/// `vetkey` (`VetKey::deserialize`, `as_derived_key_material`), `context` as
/// domain separator and its UTF-8 as associated data (named [`opened`]). A
/// ciphertext shorter than 36 bytes fails; with a non-empty context a
/// plaintext is 36 bytes shorter than its ciphertext.
#[verifier::external_body]
fn open_message(vetkey: &[u8], ciphertext: &[u8], context: &str) -> (r: Option<Vec<u8>>)
    ensures
        match r {
            Some(p) => opened(vetkey@, ciphertext@, context@) == Some(p@),
            None => opened(vetkey@, ciphertext@, context@) is None,
        },
        !is_vetkey(vetkey@) ==> r is None,
        ciphertext@.len() < ciphertext_overhead() ==> r is None,
        context@.len() > 0 && r is Some ==> r->Some_0@.len() + ciphertext_overhead()
            == ciphertext@.len(),
{
    let key = ic_vetkeys::VetKey::deserialize(vetkey).ok()?;
    key.as_derived_key_material().decrypt_message(ciphertext, context, context.as_bytes()).ok()
}

/// `DerivedKeyMaterial::encrypt_message` with `OsRng`, the key material of
/// the VetKey `vetkey` and `context` as in [`open_message`]. Whatever nonce it
/// draws, the ciphertext (header, nonce, AES-GCM ciphertext and tag, 36 bytes
/// more than the message) decrypts under the same key and context to the
/// message; it fails only for a message or associated data over AES-GCM's
/// limit.
#[verifier::external_body]
fn seal_message(vetkey: &[u8], message: &[u8], context: &str) -> (r: Option<Vec<u8>>)
    ensures
        r matches Some(c) ==> opened(vetkey@, c@, context@) == Some(message@) && c@.len()
            == message@.len() + ciphertext_overhead(),
        !is_vetkey(vetkey@) ==> r is None,
        is_vetkey(vetkey@) && message@.len() <= gcm_limit() && utf8_of(context@).len() + 8
            <= gcm_limit() ==> r is Some,
{
    let key = ic_vetkeys::VetKey::deserialize(vetkey).ok()?;
    let material = key.as_derived_key_material();
    material.encrypt_message(message, context, context.as_bytes(), &mut rand::rngs::OsRng).ok()
}

/// `String::from_utf8`: succeeds exactly on valid UTF-8, with the string
/// that the bytes encode.
#[verifier::external_body]
fn utf8_string(bytes: Vec<u8>) -> (r: Result<String, std::string::FromUtf8Error>)
    ensures
        r is Ok <==> vstd::utf8::valid_utf8(bytes@),
        r matches Ok(s) ==> utf8_of(s@) == bytes@,
{
    String::from_utf8(bytes)
}

/// The error of `String::from_utf8`, held opaque.
#[verifier::external_type_specification]
#[verifier::external_body]
pub struct ExFromUtf8Error(std::string::FromUtf8Error);

pub const INVALID_ENCRYPTED_KEY: &'static str = "invalid encrypted vault key";

pub const INVALID_VERIFICATION_KEY: &'static str = "invalid vault verification key";

pub const SECRET_TOO_LARGE: &'static str = "secret is too large";

/// A fresh transport key, held as its 32-byte random seed.
pub fn new_transport() -> (r: Vec<u8>)
    ensures
        r@.len() == 32,
{
    random_32()
}

/// A fresh random epoch: 16 random bytes read big-endian, moved off 0 and
/// off `current` by adding 1 (wrapping).
pub fn random_epoch(current: u128) -> (r: u128)
    ensures
        r != 0 || current == u128::MAX,
        r != current || current == 1,
{
    next_epoch(random_16(), current)
}

/// The big-endian value of `bytes`.
pub open spec fn be_value(bytes: Seq<u8>) -> nat
    decreases bytes.len(),
{
    if bytes.len() == 0 {
        0
    } else {
        be_value(bytes.drop_last()) * 256 + bytes.last() as nat
    }
}

/// `256` to the power `n`.
pub open spec fn byte_range(n: nat) -> nat
    decreases n,
{
    if n == 0 {
        1
    } else {
        byte_range((n - 1) as nat) * 256
    }
}

proof fn lemma_be_value_bound(bytes: Seq<u8>)
    ensures
        be_value(bytes) < byte_range(bytes.len()),
    decreases bytes.len(),
{
    if bytes.len() > 0 {
        lemma_be_value_bound(bytes.drop_last());
        let p = byte_range((bytes.len() - 1) as nat);
        let v = be_value(bytes.drop_last());
        assert(v * 256 + bytes.last() < p * 256) by (nonlinear_arith)
            requires
                v < p,
                bytes.last() < 256,
        ;
    }
}

proof fn lemma_byte_range_monotonic(a: nat, b: nat)
    requires
        a <= b,
    ensures
        byte_range(a) <= byte_range(b),
    decreases b - a,
{
    if a < b {
        lemma_byte_range_monotonic(a, (b - 1) as nat);
    }
}

/// The epoch that rotation moves to from the random bytes `random`: their
/// big-endian value, plus 1 (wrapping) when that is 0 or `current`.
pub fn next_epoch(random: [u8; 16], current: u128) -> (r: u128)
    ensures
        r == if be_value(random@) == 0 || be_value(random@) == current {
            if be_value(random@) == u128::MAX {
                0
            } else {
                (be_value(random@) + 1) as u128
            }
        } else {
            be_value(random@) as u128
        },
        r != 0 || (be_value(random@) == u128::MAX && current == u128::MAX),
        r != current || (be_value(random@) == 0 && current == 1),
{
    let mut v: u128 = 0;
    let mut i: usize = 0;
    proof {
        assert(random@.take(0) =~= Seq::<u8>::empty());
    }
    while i < 16
        invariant
            i <= 16,
            v == be_value(random@.take(i as int)),
        decreases 16 - i,
    {
        proof {
            assert(random@.take(i + 1).drop_last() =~= random@.take(i as int));
            lemma_be_value_bound(random@.take(i + 1));
            lemma_byte_range_monotonic((i + 1) as nat, 16);
            reveal_with_fuel(byte_range, 17);
            assert(byte_range(16) == (u128::MAX as nat + 1));
        }
        v = v * 256 + random[i] as u128;
        i = i + 1;
    }
    assert(random@.take(16) =~= random@);
    if v == 0 || v == current {
        v.wrapping_add(1)
    } else {
        v
    }
}

/// How a refused vault key is reported: a key that is not 192 bytes as an
/// invalid encrypted key, and otherwise a verification key that is not 96
/// bytes as an invalid verification key.
pub open spec fn key_failure(encrypted: Seq<u8>, public: Seq<u8>, e: Seq<char>) -> bool {
    &&& encrypted.len() != 192 ==> e == INVALID_ENCRYPTED_KEY@
    &&& e != INVALID_ENCRYPTED_KEY@ && public.len() != 96 ==> e == INVALID_VERIFICATION_KEY@
}

/// The vault key for `input`: the encrypted key that the canister returned,
/// decrypted with the transport key of `seed` and verified against `public`,
/// as the bytes of its VetKey.
pub fn vault_key(seed: &[u8], encrypted: &[u8], public: &[u8], input: &str) -> (r: Result<
    Vec<u8>,
    String,
>)
    requires
        seed@.len() == 32,
    ensures
        match r {
            Ok(k) => verified_vetkey(seed@, encrypted@, public@, utf8_of(input@)) == Some(k@)
                && is_vetkey(k@),
            Err(e) => verified_vetkey(seed@, encrypted@, public@, utf8_of(input@)) is None
                && key_failure(encrypted@, public@, e@),
        },
{
    match open_vetkey(seed, encrypted, public, input.as_bytes()) {
        Ok(k) => Ok(k),
        Err(VetKeyFailure::EncryptedKey) => Err(INVALID_ENCRYPTED_KEY.to_owned()),
        Err(VetKeyFailure::VerificationKey) => Err(INVALID_VERIFICATION_KEY.to_owned()),
        Err(VetKeyFailure::Verification(e)) => Err(e),
    }
}

/// What one secret of a vault decrypts to under the vault key `vetkey`, with
/// its own context (owner, storage, vault, epoch and key): its key and the
/// UTF-8 text of its plaintext, or the message that refuses it.
pub open spec fn opened_secret(
    vetkey: Seq<u8>,
    owner: Seq<char>,
    storage_id: Seq<char>,
    vault: Seq<char>,
    epoch: u128,
    s: SecretView,
) -> Result<Entry, Seq<char>> {
    match opened(vetkey, s.ciphertext, context_text(owner, storage_id, vault, epoch, s.name)) {
        None => Err(s.name + " failed authentication"@),
        Some(p) => if vstd::utf8::valid_utf8(p) {
            Ok((s.name, vstd::utf8::decode_utf8(p)))
        } else {
            Err(s.name + " is not UTF-8"@)
        },
    }
}

/// The values of a vault's secrets in order, or the refusal of the first
/// secret that does not decrypt.
pub open spec fn opened_all(
    vetkey: Seq<u8>,
    owner: Seq<char>,
    storage_id: Seq<char>,
    vault: Seq<char>,
    epoch: u128,
    secrets: Seq<SecretView>,
) -> Result<Seq<Entry>, Seq<char>>
    decreases secrets.len(),
{
    if secrets.len() == 0 {
        Ok(seq![])
    } else {
        match opened_all(vetkey, owner, storage_id, vault, epoch, secrets.drop_last()) {
            Err(e) => Err(e),
            Ok(values) => match opened_secret(
                vetkey,
                owner,
                storage_id,
                vault,
                epoch,
                secrets.last(),
            ) {
                Err(e) => Err(e),
                Ok(x) => Ok(values.push(x)),
            },
        }
    }
}

/// The view of a list of values or the message that refuses it.
pub open spec fn entries_of(r: Result<Vec<(String, String)>, String>) -> Result<Seq<Entry>, Seq<char>> {
    match r {
        Ok(v) => Ok(v.deep_view()),
        Err(e) => Err(e@),
    }
}

proof fn lemma_opened_all_push(
    vetkey: Seq<u8>,
    owner: Seq<char>,
    storage_id: Seq<char>,
    vault: Seq<char>,
    epoch: u128,
    secrets: Seq<SecretView>,
    i: int,
)
    requires
        0 <= i < secrets.len(),
    ensures
        opened_all(vetkey, owner, storage_id, vault, epoch, secrets.take(i + 1)) == match opened_all(
            vetkey,
            owner,
            storage_id,
            vault,
            epoch,
            secrets.take(i),
        ) {
            Err(e) => Err(e),
            Ok(values) => match opened_secret(vetkey, owner, storage_id, vault, epoch, secrets[i]) {
                Err(e) => Err(e),
                Ok(x) => Ok(values.push(x)),
            },
        },
{
    assert(secrets.take(i + 1).drop_last() =~= secrets.take(i));
}

proof fn lemma_opened_all_err(
    vetkey: Seq<u8>,
    owner: Seq<char>,
    storage_id: Seq<char>,
    vault: Seq<char>,
    epoch: u128,
    secrets: Seq<SecretView>,
    j: int,
)
    requires
        0 <= j <= secrets.len(),
        opened_all(vetkey, owner, storage_id, vault, epoch, secrets.take(j)) is Err,
    ensures
        opened_all(vetkey, owner, storage_id, vault, epoch, secrets) == opened_all(
            vetkey,
            owner,
            storage_id,
            vault,
            epoch,
            secrets.take(j),
        ),
    decreases secrets.len() - j,
{
    if j < secrets.len() {
        lemma_opened_all_push(vetkey, owner, storage_id, vault, epoch, secrets, j);
        lemma_opened_all_err(vetkey, owner, storage_id, vault, epoch, secrets, j + 1);
    } else {
        assert(secrets.take(j) =~= secrets);
    }
}

/// The values of a vault's secrets, each decrypted under its own context
/// with the vault key `vetkey`.
pub fn decrypt_vault(route: &Route, vault: &VaultSnapshot, vetkey: &[u8]) -> (r: Result<
    Vec<(String, String)>,
    String,
>)
    ensures
        entries_of(r) == opened_all(
            vetkey@,
            route.owner@,
            route.storage_id@,
            vault.name@,
            vault.epoch,
            secrets_view(vault.secrets@),
        ),
{
    let ghost all = secrets_view(vault.secrets@);
    let ghost (o, st, vn, ep) = (route.owner@, route.storage_id@, vault.name@, vault.epoch);
    let mut values: Vec<(String, String)> = Vec::new();
    let mut i: usize = 0;
    assert(all.take(0) =~= Seq::<SecretView>::empty());
    assert(values.deep_view() =~= Seq::<Entry>::empty());
    while i < vault.secrets.len()
        invariant
            i <= vault.secrets.len(),
            all == secrets_view(vault.secrets@),
            o == route.owner@ && st == route.storage_id@ && vn == vault.name@ && ep == vault.epoch,
            opened_all(vetkey@, o, st, vn, ep, all.take(i as int)) == Ok::<Seq<Entry>, Seq<char>>(
                values.deep_view(),
            ),
        decreases vault.secrets.len() - i,
    {
        let secret = &vault.secrets[i];
        proof {
            lemma_opened_all_push(vetkey@, o, st, vn, ep, all, i as int);
            assert(all[i as int] == secret@);
        }
        let context = secret_context(route, vault.name.as_str(), vault.epoch, secret.name.as_str());
        let plain = match open_message(vetkey, secret.ciphertext.as_slice(), context.as_str()) {
            Some(p) => p,
            None => {
                let e = concat(secret.name.as_str(), " failed authentication");
                proof {
                    lemma_opened_all_err(vetkey@, o, st, vn, ep, all, i as int + 1);
                }
                return Err(e);
            },
        };
        let text = match utf8_string(plain) {
            Ok(t) => t,
            Err(_) => {
                let e = concat(secret.name.as_str(), " is not UTF-8");
                proof {
                    lemma_opened_all_err(vetkey@, o, st, vn, ep, all, i as int + 1);
                }
                return Err(e);
            },
        };
        proof {
            vstd::utf8::encode_utf8_decode_utf8(text@);
        }
        let ghost before = values.deep_view();
        values.push((secret.name.clone(), text));
        assert(values.deep_view() =~= before.push((secret.name@, text@)));
        i = i + 1;
    }
    assert(all.take(i as int) =~= all);
    Ok(values)
}

/// Whether every value can be sealed: a valid vault key, and each value and
/// context within AES-GCM's limit.
pub open spec fn sealable(
    vetkey: Seq<u8>,
    owner: Seq<char>,
    storage_id: Seq<char>,
    vault: Seq<char>,
    epoch: u128,
    values: Seq<Entry>,
) -> bool {
    &&& is_vetkey(vetkey)
    &&& forall|i: int|
        0 <= i < values.len() ==> utf8_of((#[trigger] values[i]).1).len() <= gcm_limit() && utf8_of(
            context_text(owner, storage_id, vault, epoch, values[i].0),
        ).len() + 8 <= gcm_limit()
}

/// Whether `secrets` are `values` sealed under the vault key `vetkey`, each
/// under its own context: same keys in order, and each ciphertext, 36 bytes
/// longer than its value's UTF-8, decrypts to it.
pub open spec fn sealed(
    vetkey: Seq<u8>,
    owner: Seq<char>,
    storage_id: Seq<char>,
    vault: Seq<char>,
    epoch: u128,
    values: Seq<Entry>,
    secrets: Seq<SecretView>,
) -> bool {
    &&& secrets.len() == values.len()
    &&& forall|i: int|
        0 <= i < secrets.len() ==> {
            &&& (#[trigger] secrets[i]).name == values[i].0
            &&& secrets[i].ciphertext.len() == utf8_of(values[i].1).len() + ciphertext_overhead()
            &&& opened(
                vetkey,
                secrets[i].ciphertext,
                context_text(owner, storage_id, vault, epoch, values[i].0),
            ) == Some(utf8_of(values[i].1))
        }
}

/// The values, each encrypted under its context in vault `vault` at `epoch`
/// with the vault key `vetkey`.
pub fn encrypt_values(
    route: &Route,
    vault: &str,
    epoch: u128,
    values: &Vec<(String, String)>,
    vetkey: &[u8],
) -> (r: Result<Vec<VaultSecret>, String>)
    ensures
        r matches Ok(s) ==> sealed(
            vetkey@,
            route.owner@,
            route.storage_id@,
            vault@,
            epoch,
            values.deep_view(),
            secrets_view(s@),
        ),
        r matches Err(e) ==> e@ == SECRET_TOO_LARGE@ && !sealable(
            vetkey@,
            route.owner@,
            route.storage_id@,
            vault@,
            epoch,
            values.deep_view(),
        ),
        sealable(vetkey@, route.owner@, route.storage_id@, vault@, epoch, values.deep_view())
            ==> r is Ok,
{
    let ghost vs = values.deep_view();
    let ghost (o, st) = (route.owner@, route.storage_id@);
    let mut secrets: Vec<VaultSecret> = Vec::new();
    let mut i: usize = 0;
    while i < values.len()
        invariant
            i <= values.len(),
            vs == values.deep_view(),
            o == route.owner@ && st == route.storage_id@,
            secrets@.len() == i,
            forall|j: int|
                0 <= j < i ==> {
                    &&& (#[trigger] secrets@[j]).name@ == vs[j].0
                    &&& secrets@[j].ciphertext@.len() == utf8_of(vs[j].1).len()
                        + ciphertext_overhead()
                    &&& opened(
                        vetkey@,
                        secrets@[j].ciphertext@,
                        context_text(o, st, vault@, epoch, vs[j].0),
                    ) == Some(utf8_of(vs[j].1))
                },
        decreases values.len() - i,
    {
        let (name, value) = (&values[i].0, &values[i].1);
        assert(vs[i as int] == (name@, value@));
        let context = secret_context(route, vault, epoch, name.as_str());
        let ciphertext = match seal_message(vetkey, value.as_str().as_bytes(), context.as_str()) {
            Some(c) => c,
            None => {
                return Err(SECRET_TOO_LARGE.to_owned());
            },
        };
        secrets.push(VaultSecret { name: name.clone(), ciphertext });
        i = i + 1;
    }
    assert(secrets_view(secrets@).len() == vs.len());
    Ok(secrets)
}

} // verus!
