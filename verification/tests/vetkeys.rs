use infinigit::vault::{Route, VaultSecret, VaultSnapshot};
use infinigit::vetkeys::{
    decrypt_vault, encrypt_values, new_transport, next_epoch, random_epoch, vault_key,
    INVALID_ENCRYPTED_KEY,
};

fn route() -> Route {
    Route {
        namespace: "alice".into(),
        name: "project".into(),
        storage_id: "storage-1".into(),
        owner: "aaaaa-aa".into(),
        shard: "bbbbb-bb".into(),
    }
}

/// The bytes of a valid VetKey (any compressed G1 point will do).
fn material() -> Vec<u8> {
    let transport = ic_vetkeys::TransportSecretKey::from_seed(vec![7u8; 32]).unwrap();
    let point = transport.public_key();
    ic_vetkeys::VetKey::deserialize(&point).unwrap().serialize().to_vec()
}

fn entry(k: &str, v: &str) -> (String, String) {
    (k.to_string(), v.to_string())
}

#[test]
fn epochs_are_read_big_endian_and_moved_off_zero_and_the_current_one() {
    let mut bytes = [0u8; 16];
    bytes[15] = 5;
    bytes[14] = 1;
    assert_eq!(next_epoch(bytes, 9), 261);
    assert_eq!(next_epoch(bytes, 261), 262);
    assert_eq!(next_epoch([0u8; 16], 9), 1);
    assert_eq!(next_epoch([0u8; 16], 1), 1);
    assert_eq!(next_epoch([0xffu8; 16], u128::MAX), 0);
    assert_eq!(next_epoch([0xffu8; 16], 3), u128::MAX);
    let mut top = [0u8; 16];
    top[0] = 0x80;
    assert_eq!(next_epoch(top, 0), 1u128 << 127);
}

#[test]
fn random_epochs_avoid_zero_and_the_current_epoch() {
    for current in [0u128, 2, 1 << 64] {
        let e = random_epoch(current);
        assert_ne!(e, 0);
        assert_ne!(e, current);
    }
}

#[test]
fn transport_keys_are_random_32_byte_seeds() {
    let t = new_transport();
    assert_eq!(t.len(), 32);
    assert_ne!(t, new_transport());
    assert_eq!(ic_vetkeys::TransportSecretKey::from_seed(t).unwrap().public_key().len(), 48);
}

#[test]
fn encrypted_values_decrypt_to_themselves_under_the_same_context() {
    let material = material();
    let values = vec![entry("API_TOKEN", "s3cr3t"), entry("EMPTY", ""), entry("UNICODE", "é✓")];
    let secrets = encrypt_values(&route(), "prod", 4, &values, &material[..]).unwrap();
    assert_eq!(secrets.len(), 3);
    for (secret, (name, value)) in secrets.iter().zip(values.iter()) {
        assert_eq!(&secret.name, name);
        assert_eq!(secret.ciphertext.len(), value.len() + 36);
    }
    let vault = VaultSnapshot { name: "prod".into(), revision: 1, epoch: 4, secrets };
    assert_eq!(decrypt_vault(&route(), &vault, &material[..]).unwrap(), values);
}

#[test]
fn secrets_fail_authentication_under_another_context() {
    let material = material();
    let values = vec![entry("API_TOKEN", "s3cr3t")];
    let secrets = encrypt_values(&route(), "prod", 4, &values, &material[..]).unwrap();
    let other_epoch = VaultSnapshot { name: "prod".into(), revision: 1, epoch: 5, secrets };
    assert_eq!(
        decrypt_vault(&route(), &other_epoch, &material[..]),
        Err("API_TOKEN failed authentication".to_string())
    );
    let short = VaultSnapshot {
        name: "prod".into(),
        revision: 1,
        epoch: 4,
        secrets: vec![VaultSecret { name: "CUT".into(), ciphertext: vec![1, 2, 3] }],
    };
    assert_eq!(
        decrypt_vault(&route(), &short, &material[..]),
        Err("CUT failed authentication".to_string())
    );
    let empty = VaultSnapshot { name: "prod".into(), revision: 1, epoch: 4, secrets: vec![] };
    assert_eq!(decrypt_vault(&route(), &empty, &material[..]), Ok(vec![]));
}

#[test]
fn vault_keys_reject_malformed_key_bytes() {
    let seed = new_transport();
    assert_eq!(
        vault_key(&seed, &[0u8; 10], &[0u8; 96], "input").err(),
        Some(INVALID_ENCRYPTED_KEY.to_string())
    );
    assert_eq!(
        vault_key(&seed, &[0u8; 192], &[0u8; 96], "input").err(),
        Some(INVALID_ENCRYPTED_KEY.to_string())
    );
}

#[test]
fn secrets_are_bound_to_their_name_and_vault() {
    let material = material();
    let values = vec![entry("A", "one"), entry("B", "two")];
    let mut secrets = encrypt_values(&route(), "prod", 4, &values, &material[..]).unwrap();
    let moved = VaultSnapshot { name: "staging".into(), revision: 1, epoch: 4, secrets: vec![] };
    let moved = VaultSnapshot {
        secrets: encrypt_values(&route(), "prod", 4, &values, &material[..]).unwrap(),
        ..moved
    };
    assert_eq!(
        decrypt_vault(&route(), &moved, &material[..]),
        Err("A failed authentication".to_string())
    );
    secrets.swap(0, 1);
    let swapped = secrets
        .into_iter()
        .zip(["A", "B"])
        .map(|(s, n)| VaultSecret { name: n.to_string(), ciphertext: s.ciphertext })
        .collect();
    let vault = VaultSnapshot { name: "prod".into(), revision: 1, epoch: 4, secrets: swapped };
    assert_eq!(
        decrypt_vault(&route(), &vault, &material[..]),
        Err("A failed authentication".to_string())
    );
}

#[test]
fn sealing_needs_a_valid_vault_key() {
    assert_eq!(
        encrypt_values(&route(), "prod", 4, &vec![entry("A", "one")], &[0u8; 48]).err(),
        Some(infinigit::vetkeys::SECRET_TOO_LARGE.to_string())
    );
    assert!(encrypt_values(&route(), "prod", 4, &vec![], &[0u8; 48]).unwrap().is_empty());
}
