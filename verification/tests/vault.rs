use infinigit::vault::{
    key_input, permission_labels, repository_arg, repository_of, requested_permission,
    secret_context, Route, VaultPermission, PERMISSION_REQUIRED,
};

fn strings(items: &[&str]) -> Vec<String> {
    items.iter().map(|s| s.to_string()).collect()
}

fn route() -> Route {
    Route {
        namespace: "alice".into(),
        name: "project".into(),
        storage_id: "storage-1".into(),
        owner: "aaaaa-aa".into(),
        shard: "bbbbb-bb".into(),
    }
}

#[test]
fn permission_flags_apply_required_implications() {
    let permission = requested_permission(&["--manage-access".into()]).unwrap();
    assert!(permission.read && permission.write && permission.manage_permissions);
    assert!(requested_permission(&[]).is_err());
}

#[test]
fn each_permission_flag_implies_read() {
    for flag in ["--write", "--delete-secrets", "--delete-vault"] {
        let p = requested_permission(&strings(&["grant-user", "v", "bob", flag])).unwrap();
        assert!(p.read);
        assert!(!p.manage_permissions);
    }
    let p = requested_permission(&strings(&["--delete-vault"])).unwrap();
    assert_eq!(
        p,
        VaultPermission {
            read: true,
            write: false,
            delete_secret: false,
            delete_vault: true,
            manage_permissions: false
        }
    );
    assert_eq!(
        requested_permission(&strings(&["grant-user", "v", "bob", "--admin"])),
        Err(PERMISSION_REQUIRED.to_string())
    );
}

#[test]
fn permission_labels_list_granted_permissions_in_order() {
    let all = VaultPermission {
        read: true,
        write: true,
        delete_secret: true,
        delete_vault: true,
        manage_permissions: true,
    };
    assert_eq!(
        permission_labels(&all),
        "read,write,delete-secrets,delete-vault,manage-access"
    );
    let some = VaultPermission {
        read: true,
        write: false,
        delete_secret: true,
        delete_vault: false,
        manage_permissions: false,
    };
    assert_eq!(permission_labels(&some), "read,delete-secrets");
    let none = VaultPermission {
        read: false,
        write: false,
        delete_secret: false,
        delete_vault: false,
        manage_permissions: false,
    };
    assert_eq!(permission_labels(&none), "");
    let p = requested_permission(&strings(&["--manage-access"])).unwrap();
    assert_eq!(permission_labels(&p), "read,write,manage-access");
}

#[test]
fn repository_urls_name_a_namespace_and_a_repository() {
    assert_eq!(
        repository_of("igit://infinigit.com/alice/project"),
        Ok(("alice".to_string(), "project".to_string()))
    );
    assert_eq!(
        repository_of("igit://infinigit.com/alice/project///"),
        Ok(("alice".to_string(), "project".to_string()))
    );
    assert_eq!(
        repository_of("https://infinigit.com/alice/project"),
        Err("repository must use an igit:// URL".to_string())
    );
    for bad in [
        "igit://host",
        "igit://host/alice",
        "igit://host//project",
        "igit://host/alice/",
        "igit://host/alice/a/b",
    ] {
        assert_eq!(repository_of(bad), Err("invalid igit repository URL".to_string()), "{bad}");
    }
}

#[test]
fn repository_argument_wins_over_the_origin_remote() {
    assert_eq!(
        repository_arg(
            &strings(&["vaults", "--repo", "igit://h/bob/tools"]),
            Some("igit://h/alice/project".into())
        ),
        Ok(("bob".to_string(), "tools".to_string()))
    );
    assert_eq!(
        repository_arg(&strings(&["vaults"]), Some("igit://h/alice/project".into())),
        Ok(("alice".to_string(), "project".to_string()))
    );
    assert_eq!(
        repository_arg(&strings(&["vaults", "--repo"]), None),
        Err("--repo requires an igit URL".to_string())
    );
    assert_eq!(
        repository_arg(&strings(&["vaults"]), None),
        Err("not in an infinigit checkout; pass --repo igit://host/namespace/repository".to_string())
    );
}

#[test]
fn secret_contexts_bind_owner_storage_vault_epoch_and_key() {
    assert_eq!(
        secret_context(&route(), "prod", 42, "API_TOKEN"),
        "infinigit-secret-v1:aaaaa-aa/storage-1:prod:42:API_TOKEN"
    );
    assert_eq!(key_input(&route(), "prod", 0), "aaaaa-aa/storage-1\0prod\00");
    assert_eq!(
        key_input(&route(), "prod", u128::MAX),
        format!("aaaaa-aa/storage-1\0prod\0{}", u128::MAX)
    );
}
