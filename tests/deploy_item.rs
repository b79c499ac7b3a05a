use std::cmp::Ordering;

use deploy_item::{
    Account, ArgumentDecodeError, ContractHash, ContractPackageHash, ExecutableDeployItem, Key,
    LoadedItem, ResolveError, RuntimeArgs, DEFAULT_ENTRY_POINT_NAME,
};

fn sample_args() -> RuntimeArgs {
    let mut args = RuntimeArgs::new();
    args.insert("amount".to_string(), vec![5, 0, 0, 0]);
    args.insert("target".to_string(), vec![0xaa; 3]);
    args
}

fn empty_args_bytes() -> Vec<u8> {
    RuntimeArgs::new().to_bytes()
}

fn all_variants(args: &[u8]) -> Vec<ExecutableDeployItem> {
    vec![
        ExecutableDeployItem::ModuleBytes { module_bytes: vec![0x01], args: args.to_vec() },
        ExecutableDeployItem::StoredContractByHash {
            hash: ContractHash([7; 32]),
            entry_point: "transfer".to_string(),
            args: args.to_vec(),
        },
        ExecutableDeployItem::StoredContractByName {
            name: "pos".to_string(),
            entry_point: "bond".to_string(),
            args: args.to_vec(),
        },
        ExecutableDeployItem::StoredVersionedContractByName {
            name: "pos".to_string(),
            version: Some(3),
            entry_point: "unbond".to_string(),
            args: args.to_vec(),
        },
        ExecutableDeployItem::StoredVersionedContractByHash {
            hash: ContractPackageHash([9; 32]),
            version: None,
            entry_point: "mint".to_string(),
            args: args.to_vec(),
        },
        ExecutableDeployItem::Transfer { args: args.to_vec() },
    ]
}

#[test]
fn module_bytes_resolves_to_default_entry_point_and_no_key() {
    let item = ExecutableDeployItem::ModuleBytes { module_bytes: vec![0x01], args: empty_args_bytes() };
    assert_eq!(item.entry_point_name(), DEFAULT_ENTRY_POINT_NAME);
    assert_eq!(item.entry_point_name(), "call");
    assert_eq!(item.to_contract_hash_key(&Account::new()), Ok(None));
}

#[test]
fn self_contained_items_ignore_their_arguments_for_the_entry_point() {
    let bytes = sample_args().to_bytes();
    for args in [vec![], vec![1, 2, 3], bytes] {
        let m = ExecutableDeployItem::ModuleBytes { module_bytes: vec![], args: args.clone() };
        let t = ExecutableDeployItem::Transfer { args };
        assert_eq!(m.entry_point_name(), "call");
        assert_eq!(t.entry_point_name(), "call");
    }
}

#[test]
fn stored_items_return_their_entry_point_unchanged() {
    let items = all_variants(&[]);
    assert_eq!(items[1].entry_point_name(), "transfer");
    assert_eq!(items[2].entry_point_name(), "bond");
    assert_eq!(items[3].entry_point_name(), "unbond");
    assert_eq!(items[4].entry_point_name(), "mint");
    let mixed = ExecutableDeployItem::StoredContractByName {
        name: "x".to_string(),
        entry_point: "Do_It ".to_string(),
        args: vec![],
    };
    assert_eq!(mixed.entry_point_name(), "Do_It ");
}

#[test]
fn contract_hash_resolves_without_the_account() {
    let item = ExecutableDeployItem::StoredContractByHash {
        hash: ContractHash([0x11; 32]),
        entry_point: "transfer".to_string(),
        args: vec![1, 2],
    };
    let mut account = Account::new();
    assert_eq!(item.to_contract_hash_key(&account), Ok(Some(Key::Hash([0x11; 32]))));
    account.insert_named_key("transfer".to_string(), Key::Account([3; 32]));
    assert_eq!(item.to_contract_hash_key(&account), Ok(Some(Key::Hash([0x11; 32]))));
}

#[test]
fn package_hash_resolves_without_the_account() {
    let item = ExecutableDeployItem::StoredVersionedContractByHash {
        hash: ContractPackageHash([0x22; 32]),
        version: Some(1),
        entry_point: "go".to_string(),
        args: vec![],
    };
    assert_eq!(item.to_contract_hash_key(&Account::new()), Ok(Some(Key::Hash([0x22; 32]))));
}

#[test]
fn missing_name_fails_with_that_name() {
    let item = ExecutableDeployItem::StoredContractByName {
        name: "pos".to_string(),
        entry_point: "bond".to_string(),
        args: empty_args_bytes(),
    };
    let mut account = Account::new();
    account.insert_named_key("mint".to_string(), Key::Hash([1; 32]));
    assert_eq!(
        item.to_contract_hash_key(&account),
        Err(ResolveError::NamedKeyNotFound("pos".to_string()))
    );
}

#[test]
fn versioned_name_missing_fails_with_that_name() {
    let item = ExecutableDeployItem::StoredVersionedContractByName {
        name: "auction".to_string(),
        version: None,
        entry_point: "bid".to_string(),
        args: vec![],
    };
    assert_eq!(
        item.to_contract_hash_key(&Account::new()),
        Err(ResolveError::NamedKeyNotFound("auction".to_string()))
    );
}

#[test]
fn present_name_resolves_to_the_namespace_entry() {
    let mut account = Account::new();
    account.insert_named_key("pos".to_string(), Key::Hash([4; 32]));
    account.insert_named_key("mint".to_string(), Key::URef([5; 32], 7));
    let items = all_variants(&[]);
    assert_eq!(items[2].to_contract_hash_key(&account), Ok(Some(Key::Hash([4; 32]))));
    assert_eq!(items[3].to_contract_hash_key(&account), Ok(Some(Key::Hash([4; 32]))));
    account.insert_named_key("pos".to_string(), Key::Hash([6; 32]));
    assert_eq!(items[2].to_contract_hash_key(&account), Ok(Some(Key::Hash([6; 32]))));
    assert_eq!(account.named_key(&"mint".to_string()), Some(Key::URef([5; 32], 7)));
    assert_eq!(account.named_key(&"pot".to_string()), None);
}

#[test]
fn no_key_exactly_for_module_bytes_and_transfer() {
    let mut account = Account::new();
    account.insert_named_key("pos".to_string(), Key::Hash([4; 32]));
    let results: Vec<bool> = all_variants(&[])
        .iter()
        .map(|i| i.to_contract_hash_key(&account) == Ok(None))
        .collect();
    assert_eq!(results, vec![true, false, false, false, false, true]);
}

#[test]
fn arguments_encode_to_the_expected_bytes() {
    let mut args = RuntimeArgs::new();
    args.insert("a".to_string(), vec![9]);
    assert_eq!(args.to_bytes(), vec![1, 0, 0, 0, 1, 0, 0, 0, b'a', 1, 0, 0, 0, 9]);
    assert_eq!(RuntimeArgs::new().to_bytes(), vec![0, 0, 0, 0]);
    assert_eq!(args.len(), 1);
}

#[test]
fn arguments_round_trip_for_every_variant() {
    let args = sample_args();
    let bytes = args.to_bytes();
    for item in all_variants(&bytes) {
        assert_eq!(item.into_runtime_args(), Ok(args.clone()));
    }
    for item in all_variants(&empty_args_bytes()) {
        assert_eq!(item.into_runtime_args(), Ok(RuntimeArgs::new()));
    }
}

#[test]
fn non_ascii_names_round_trip() {
    let mut args = RuntimeArgs::new();
    args.insert("größe→ß".to_string(), vec![]);
    args.insert(String::new(), vec![0; 40]);
    let bytes = args.to_bytes();
    assert_eq!(RuntimeArgs::from_bytes(&bytes), Ok(args));
}

#[test]
fn truncated_arguments_fail_to_decode() {
    let mut bytes = sample_args().to_bytes();
    bytes.pop();
    let item = ExecutableDeployItem::Transfer { args: bytes };
    assert_eq!(item.into_runtime_args(), Err(ArgumentDecodeError::EarlyEndOfStream));
    let empty = ExecutableDeployItem::Transfer { args: vec![] };
    assert_eq!(empty.into_runtime_args(), Err(ArgumentDecodeError::EarlyEndOfStream));
}

#[test]
fn trailing_bytes_fail_to_decode() {
    let mut bytes = sample_args().to_bytes();
    bytes.push(0);
    assert_eq!(RuntimeArgs::from_bytes(&bytes), Err(ArgumentDecodeError::LeftOverBytes));
}

#[test]
fn invalid_utf8_name_fails_to_decode() {
    let bytes = vec![1, 0, 0, 0, 1, 0, 0, 0, 0xff, 0, 0, 0, 0];
    assert_eq!(RuntimeArgs::from_bytes(&bytes), Err(ArgumentDecodeError::Formatting));
}

#[test]
fn compare_agrees_with_derived_order() {
    let mut items = all_variants(&[1, 2]);
    items.extend(all_variants(&[1, 3]));
    items.extend(all_variants(&[1]));
    items.push(ExecutableDeployItem::StoredVersionedContractByName {
        name: "pos".to_string(),
        version: None,
        entry_point: "unbond".to_string(),
        args: vec![1, 2],
    });
    items.push(ExecutableDeployItem::StoredVersionedContractByName {
        name: "pos".to_string(),
        version: Some(2),
        entry_point: "unbond".to_string(),
        args: vec![1, 2],
    });
    items.push(ExecutableDeployItem::StoredContractByName {
        name: "po".to_string(),
        entry_point: "zz".to_string(),
        args: vec![],
    });
    for a in &items {
        for b in &items {
            assert_eq!(a.compare(b), a.cmp(b));
            assert_eq!(a.compare(b) == Ordering::Equal, a == b);
            assert_eq!(b.compare(a), a.compare(b).reverse());
        }
    }
}

#[test]
fn variant_rank_dominates_fields() {
    let module = ExecutableDeployItem::ModuleBytes { module_bytes: vec![0xff; 10], args: vec![0xff] };
    let transfer = ExecutableDeployItem::Transfer { args: vec![] };
    assert_eq!(module.compare(&transfer), Ordering::Less);
    assert_eq!(transfer.compare(&module), Ordering::Greater);
    assert_eq!(transfer.compare(&transfer.clone()), Ordering::Equal);
}

#[test]
fn summary_of_module_bytes() {
    let item = ExecutableDeployItem::ModuleBytes {
        module_bytes: vec![1, 2, 3, 4, 5, 6, 7, 8],
        args: vec![0x01],
    };
    assert_eq!(item.summary(), "execute module bytes 0102..0708, args     01    ");
}

#[test]
fn summary_of_stored_items() {
    let by_hash = ExecutableDeployItem::StoredContractByHash {
        hash: ContractHash([0xab; 32]),
        entry_point: "transfer".to_string(),
        args: vec![],
    };
    assert_eq!(
        by_hash.summary(),
        format!("execute stored contract by hash {}, entry point transfer, args           ", "ab".repeat(32))
    );
    let by_name = ExecutableDeployItem::StoredContractByName {
        name: "pos".to_string(),
        entry_point: "bond".to_string(),
        args: vec![0xde, 0xad, 0xbe, 0xef, 0x00],
    };
    assert_eq!(by_name.summary(), "execute stored contract by name pos, entry point bond, args deadbeef00");
    let transfer = ExecutableDeployItem::Transfer { args: vec![0xde, 0xad, 0xbe, 0xef, 0x00, 0x11] };
    assert_eq!(transfer.summary(), "execute transfer args dead..0011");
}

#[test]
fn summary_states_the_version_or_latest() {
    let latest = ExecutableDeployItem::StoredVersionedContractByName {
        name: "pos".to_string(),
        version: None,
        entry_point: "bond".to_string(),
        args: vec![],
    };
    let text = latest.summary();
    assert!(text.contains("latest version"));
    assert_eq!(
        text,
        "execute stored versioned contract pos, latest version, entry point bond, args           "
    );
    let third = ExecutableDeployItem::StoredVersionedContractByName {
        name: "pos".to_string(),
        version: Some(3),
        entry_point: "bond".to_string(),
        args: vec![],
    };
    assert!(third.summary().contains("version 3"));
    let by_hash = ExecutableDeployItem::StoredVersionedContractByHash {
        hash: ContractPackageHash([0; 32]),
        version: Some(1024),
        entry_point: "e".to_string(),
        args: vec![],
    };
    assert_eq!(
        by_hash.summary(),
        format!(
            "execute stored versioned contract by hash {}, version 1024, entry point e, args           ",
            "00".repeat(32)
        )
    );
}

#[test]
fn debug_dump_of_each_shape() {
    let module = ExecutableDeployItem::ModuleBytes { module_bytes: vec![0; 1234], args: vec![0x0a, 0xff] };
    assert_eq!(module.debug_dump(), "ModuleBytes { module_bytes: \"[1234 bytes]\", args: \"0aff\" }");
    let named = ExecutableDeployItem::StoredVersionedContractByName {
        name: "p\"s".to_string(),
        version: Some(70),
        entry_point: "bond".to_string(),
        args: vec![1],
    };
    assert_eq!(
        named.debug_dump(),
        "StoredVersionedContractByName { name: \"p\\\"s\", version: Some(70), entry_point: \"bond\", args: 01 }"
    );
    let by_hash = ExecutableDeployItem::StoredVersionedContractByHash {
        hash: ContractPackageHash([1; 32]),
        version: None,
        entry_point: "e".to_string(),
        args: vec![],
    };
    assert_eq!(
        by_hash.debug_dump(),
        format!(
            "StoredVersionedContractByHash {{ hash: {}, version: None, entry_point: \"e\", args:  }}",
            "01".repeat(32)
        )
    );
    let transfer = ExecutableDeployItem::Transfer { args: vec![0x10] };
    assert_eq!(transfer.debug_dump(), "Transfer { args: 10 }");
}

#[test]
fn loaded_item_holds_and_returns_its_object() {
    let item = LoadedItem::owned_new(vec![1, 2, 3]);
    assert_eq!(item.len(), 3);
    assert_eq!(*item.get(), vec![1, 2, 3]);
    assert_eq!(item.into_inner(), vec![1, 2, 3]);
    assert!(LoadedItem::owned_new(1) < LoadedItem::owned_new(2));
}
