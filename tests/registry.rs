use collection_minter::claim::{balance_of, create_token_uri, minter_of, to_decimal};
use collection_minter::error::ContractError;
use collection_minter::execute::{
    claim_tokens, confirm_registration, instantiate, mint_native, register_collection,
    update_collection, update_config,
};
use collection_minter::merkle::{hash_address, hash_children, le_bytes, validate_merkle_proof};
use collection_minter::mint::count_grants;
use collection_minter::msg::InstantiateMsg;
use collection_minter::state::{Coin, Empty, MintGroup, Outbound, Registry};

fn s(x: &str) -> String {
    x.to_string()
}

fn group(name: &str, price: u128, max_tokens: u32, root: Option<Vec<u8>>) -> MintGroup {
    MintGroup {
        name: s(name),
        merkle_root: root,
        max_tokens,
        unit_price: price,
        start_time: 1_000,
        end_time: 0,
    }
}

fn pay(amount: u128) -> Vec<Coin> {
    vec![Coin { denom: s("ustars"), amount }]
}

fn setup(fee: u128, supply: u32, groups: Vec<MintGroup>) -> Registry {
    let mut reg = instantiate(
        &s("admin"),
        InstantiateMsg { extension: None, fee, registeration_open: true, denom: s("ustars") },
    );
    let out = register_collection(
        &mut reg,
        &s("creator"),
        7,
        s("Apes"),
        s("APE"),
        supply,
        s("ipfs://apes/"),
        5,
        s("royalty"),
        s("creator_wallet"),
        groups,
        true,
        None,
    )
    .unwrap();
    let ticket = match out {
        Outbound::InstantiateCollection { ticket, code_id, name, symbol } => {
            assert_eq!(code_id, 7);
            assert_eq!(name, "Apes");
            assert_eq!(symbol, "APE");
            ticket
        }
        _ => panic!("expected a creation request"),
    };
    confirm_registration(&mut reg, ticket, s("coll1")).unwrap();
    reg
}

fn mint(reg: &mut Registry, who: &str, funds: Vec<Coin>, now: u64) -> Result<u32, ContractError> {
    mint_native(reg, &s(who), now, &funds, &s("coll1"), &s("public"), None, None, None)
        .map(|m| m.token_id)
}

#[test]
fn payment_must_be_exact() {
    let mut reg = setup(5, 100, vec![group("public", 100, 0, None)]);
    assert_eq!(mint(&mut reg, "alice", pay(104), 2_000), Err(ContractError::InvalidFunds));
    assert_eq!(mint(&mut reg, "alice", pay(106), 2_000), Err(ContractError::InvalidFunds));
    let other = vec![Coin { denom: s("uatom"), amount: 105 }];
    assert_eq!(mint(&mut reg, "alice", other, 2_000), Err(ContractError::InvalidFunds));
    let two = vec![
        Coin { denom: s("ustars"), amount: 105 },
        Coin { denom: s("uatom"), amount: 1 },
    ];
    assert_eq!(mint(&mut reg, "alice", two, 2_000), Err(ContractError::InvalidFunds));
    assert_eq!(mint(&mut reg, "alice", vec![], 2_000), Err(ContractError::InvalidFunds));
    assert_eq!(reg.collections[0].collection.next_token_id, 1);
    let r = mint_native(&mut reg, &s("alice"), 2_000, &pay(105), &s("coll1"), &s("public"), None, None, None)
        .unwrap();
    assert_eq!(r.token_id, 1);
    assert_eq!(r.price, 100);
    assert_eq!(r.recipient, "alice");
    assert_eq!(r.group, "public");
    assert_eq!(r.collection, "coll1");
    assert_eq!(r.messages.len(), 2);
    match &r.messages[0] {
        Outbound::Transfer { to, amount, denom } => {
            assert_eq!(to, "creator_wallet");
            assert_eq!(*amount, 100);
            assert_eq!(denom, "ustars");
        }
        _ => panic!("expected a transfer"),
    }
    match &r.messages[1] {
        Outbound::Transfer { to, amount, denom } => {
            assert_eq!(to, "admin");
            assert_eq!(*amount, 5);
            assert_eq!(denom, "ustars");
        }
        _ => panic!("expected a transfer"),
    }
}

#[test]
fn free_group_charges_only_fee() {
    let mut reg = setup(5, 10, vec![group("public", 0, 0, None)]);
    assert_eq!(mint(&mut reg, "bob", pay(0), 2_000), Err(ContractError::InvalidFunds));
    let r = mint_native(&mut reg, &s("bob"), 2_000, &pay(5), &s("coll1"), &s("public"), None, None, None)
        .unwrap();
    assert_eq!(r.messages.len(), 1);
    match &r.messages[0] {
        Outbound::Transfer { to, amount, .. } => {
            assert_eq!(to, "admin");
            assert_eq!(*amount, 5);
        }
        _ => panic!("expected a transfer"),
    }
}

#[test]
fn sequence_stops_at_supply() {
    let mut reg = setup(1, 2, vec![group("public", 0, 0, None)]);
    assert_eq!(mint(&mut reg, "a", pay(1), 2_000), Ok(1));
    assert_eq!(mint(&mut reg, "b", pay(1), 2_000), Ok(2));
    assert_eq!(reg.collections[0].collection.next_token_id, 3);
    assert_eq!(mint(&mut reg, "c", pay(1), 2_000), Err(ContractError::SoldOut));
    assert_eq!(mint(&mut reg, "c", pay(1), 2_000), Err(ContractError::SoldOut));
    assert_eq!(reg.collections[0].collection.next_token_id, 3);
}

#[test]
fn wallet_cap_per_group() {
    let mut reg = setup(1, 100, vec![group("public", 0, 2, None)]);
    assert_eq!(mint(&mut reg, "a", pay(1), 2_000), Ok(1));
    assert_eq!(mint(&mut reg, "b", pay(1), 2_000), Ok(2));
    assert_eq!(mint(&mut reg, "a", pay(1), 2_000), Ok(3));
    assert_eq!(mint(&mut reg, "a", pay(1), 2_000), Err(ContractError::MaxTokensMinted));
    let log = &reg.collections[0].mint_log;
    assert_eq!(count_grants(log, &s("a"), &s("public")), 2);
    assert_eq!(count_grants(log, &s("b"), &s("public")), 1);
    let r = mint_native(&mut reg, &s("b"), 2_000, &pay(1), &s("coll1"), &s("public"), Some(s("a")), None, None);
    assert_eq!(r.map(|m| m.token_id), Err(ContractError::MaxTokensMinted));
}

#[test]
fn group_window_and_lookup() {
    let mut g = group("public", 0, 0, None);
    g.end_time = 5_000;
    let mut reg = setup(1, 100, vec![g]);
    assert_eq!(mint(&mut reg, "a", pay(1), 999), Err(ContractError::GroupNotOpenToMint));
    assert_eq!(mint(&mut reg, "a", pay(1), 5_000), Err(ContractError::GroupNotOpenToMint));
    assert_eq!(mint(&mut reg, "a", pay(1), 1_000), Ok(1));
    assert_eq!(mint(&mut reg, "a", pay(1), 4_999), Ok(2));
    let r = mint_native(&mut reg, &s("a"), 2_000, &pay(1), &s("coll1"), &s("vip"), None, None, None);
    assert_eq!(r.map(|m| m.token_id), Err(ContractError::InvalidMintGroup));
    let r = mint_native(&mut reg, &s("a"), 2_000, &pay(1), &s("nope"), &s("public"), None, None, None);
    assert_eq!(r.map(|m| m.token_id), Err(ContractError::CollectionNotFound));
}

#[test]
fn known_digest_of_address() {
    let h = hash_address("abc");
    let hex: String = h.iter().map(|b| format!("{:02x}", b)).collect();
    assert_eq!(hex, "ba7816bf8f01cfea414140de5dae2223b00361a396177a9cb410ff61f20015ad");
}

#[test]
fn byte_order_and_pair_hash() {
    assert!(le_bytes(&[1, 2], &[1, 3]));
    assert!(!le_bytes(&[2], &[1, 9]));
    assert!(le_bytes(&[1], &[1, 0]));
    let a = vec![1u8, 2];
    let b = vec![0u8, 9];
    assert_eq!(hash_children(&a, &b), hash_children(&b, &a));
    assert_ne!(hash_children(&a, &b), a);
}

#[test]
fn allowlist_proofs() {
    let leaf_a = hash_address("alice");
    let leaf_b = hash_address("bob");
    let leaf_c = hash_address("carol");
    let ab = hash_children(&leaf_a, &leaf_b);
    let root = hash_children(&ab, &leaf_c);
    assert!(validate_merkle_proof(&vec![leaf_b.clone(), leaf_c.clone()], &root, &leaf_a));
    assert!(validate_merkle_proof(&vec![leaf_a.clone(), leaf_c.clone()], &root, &leaf_b));
    assert!(validate_merkle_proof(&vec![ab.clone()], &root, &leaf_c));
    let mut reg = setup(1, 100, vec![group("public", 0, 0, Some(root.clone()))]);
    let proof = vec![leaf_b.clone(), leaf_c.clone()];
    let none = mint_native(&mut reg, &s("alice"), 2_000, &pay(1), &s("coll1"), &s("public"), None, None, Some(leaf_a.clone()));
    assert_eq!(none.map(|m| m.token_id), Err(ContractError::InvalidMerkleProof));
    let mut bad_leaf = leaf_a.clone();
    bad_leaf[0] ^= 1;
    let r = mint_native(&mut reg, &s("alice"), 2_000, &pay(1), &s("coll1"), &s("public"), None, Some(proof.clone()), Some(bad_leaf));
    assert_eq!(r.map(|m| m.token_id), Err(ContractError::InvalidSender));
    let mut bad_proof = proof.clone();
    bad_proof[1][31] ^= 0x80;
    let r = mint_native(&mut reg, &s("alice"), 2_000, &pay(1), &s("coll1"), &s("public"), None, Some(bad_proof), Some(leaf_a.clone()));
    assert_eq!(r.map(|m| m.token_id), Err(ContractError::InvalidMerkleProof));
    let r = mint_native(&mut reg, &s("dave"), 2_000, &pay(1), &s("coll1"), &s("public"), None, Some(proof.clone()), Some(leaf_a.clone()));
    assert_eq!(r.map(|m| m.token_id), Err(ContractError::InvalidSender));
    let r = mint_native(&mut reg, &s("alice"), 2_000, &pay(1), &s("coll1"), &s("public"), None, Some(proof.clone()), Some(leaf_a.clone()));
    assert_eq!(r.map(|m| m.token_id), Ok(1));
    let r = mint_native(&mut reg, &s("dave"), 2_000, &pay(1), &s("coll1"), &s("public"), Some(s("carol")), Some(vec![ab.clone()]), Some(leaf_c.clone()));
    assert_eq!(r.map(|m| m.token_id), Ok(2));
    assert_eq!(reg.collections[0].mint_log[1].recipient, "carol");
}

#[test]
fn config_update_is_partial_and_admin_only() {
    let mut reg = setup(5, 10, vec![]);
    assert_eq!(update_config(&mut reg, &s("mallory"), None, Some(9), Some(false)), Err(ContractError::Unauthorized));
    assert_eq!(reg.config.fee, 5);
    assert!(reg.config.registeration_open);
    update_config(&mut reg, &s("admin"), None, None, None).unwrap();
    assert_eq!(reg.config.fee, 5);
    assert!(reg.config.registeration_open);
    update_config(&mut reg, &s("admin"), None, Some(9), None).unwrap();
    assert_eq!(reg.config.fee, 9);
    assert!(reg.config.registeration_open);
    update_config(&mut reg, &s("admin"), None, None, Some(false)).unwrap();
    assert_eq!(reg.config.fee, 9);
    assert!(!reg.config.registeration_open);
    assert_eq!(reg.config.extension, None);
    update_config(&mut reg, &s("admin"), Some(Some(Empty {})), None, None).unwrap();
    assert_eq!(reg.config.extension, Some(Empty {}));
    assert_eq!(reg.config.fee, 9);
    assert!(!reg.config.registeration_open);
    update_config(&mut reg, &s("admin"), None, Some(4), None).unwrap();
    assert_eq!(reg.config.extension, Some(Empty {}));
    let r = register_collection(
        &mut reg, &s("x"), 1, s("n"), s("s"), 3, s("u"), 0, s("r"), s("c"), vec![], false, None,
    );
    assert!(matches!(r, Err(ContractError::RegistrationClosed)));
    assert_eq!(reg.pending.len(), 0);
}

#[test]
fn collection_update_is_partial_and_admin_only() {
    let mut reg = setup(1, 10, vec![group("public", 0, 0, None)]);
    assert_eq!(mint(&mut reg, "a", pay(1), 2_000), Ok(1));
    assert_eq!(mint(&mut reg, "a", pay(1), 2_000), Ok(2));
    let r = update_collection(&mut reg, &s("admin"), &s("coll1"), Some(s("X")), None, None, None, None, None, None, None, None);
    assert_eq!(r, Err(ContractError::Unauthorized));
    let r = update_collection(&mut reg, &s("creator"), &s("coll1"), None, None, Some(1), None, None, None, None, None, None);
    assert_eq!(r, Err(ContractError::SupplyLowerThanMinted));
    assert_eq!(reg.collections[0].collection.supply, 10);
    update_collection(&mut reg, &s("creator"), &s("coll1"), None, None, Some(2), None, None, None, None, None, None).unwrap();
    let c = &reg.collections[0].collection;
    assert_eq!(c.supply, 2);
    assert_eq!(c.name, "Apes");
    assert_eq!(c.symbol, "APE");
    assert_eq!(c.token_uri, "ipfs://apes/");
    assert_eq!(c.mint_groups.len(), 1);
    assert_eq!(c.royalty_percent, 5);
    update_collection(&mut reg, &s("creator"), &s("coll1"), Some(s("Bees")), None, None, None, Some(7), None, None, Some(vec![]), Some(false)).unwrap();
    let c = &reg.collections[0].collection;
    assert_eq!(c.name, "Bees");
    assert_eq!(c.symbol, "APE");
    assert_eq!(c.supply, 2);
    assert_eq!(c.royalty_percent, 7);
    assert_eq!(c.mint_groups.len(), 0);
    assert!(!c.iterated_uri);
    let r = update_collection(&mut reg, &s("creator"), &s("nope"), None, None, None, None, None, None, None, None, None);
    assert_eq!(r, Err(ContractError::CollectionNotFound));
}

fn provisioned(msgs: &[Outbound]) -> Vec<(u32, String, String)> {
    msgs.iter()
        .map(|m| match m {
            Outbound::MintToken { contract, token_id, owner, token_uri, royalty_wallet, royalty_percent } => {
                assert_eq!(contract, "coll1");
                assert_eq!(royalty_wallet, "royalty");
                assert_eq!(*royalty_percent, 5);
                (*token_id, owner.clone(), token_uri.clone())
            }
            _ => panic!("expected a provisioning call"),
        })
        .collect()
}

#[test]
fn claims_walk_the_log_in_order() {
    let mut reg = setup(1, 10, vec![group("public", 0, 0, None)]);
    for who in ["a", "b", "c", "d"] {
        mint(&mut reg, who, pay(1), 2_000).unwrap();
    }
    let first = claim_tokens(&mut reg, &s("coll1"), 3).unwrap();
    assert_eq!(
        provisioned(&first),
        vec![
            (1, s("a"), s("ipfs://apes/1")),
            (2, s("b"), s("ipfs://apes/2")),
            (3, s("c"), s("ipfs://apes/3")),
        ]
    );
    assert_eq!(reg.collections[0].collection.claimed, 3);
    let second = claim_tokens(&mut reg, &s("coll1"), 1).unwrap();
    assert_eq!(provisioned(&second), vec![(4, s("d"), s("ipfs://apes/4"))]);
    assert_eq!(reg.collections[0].collection.claimed, 4);
    assert!(matches!(claim_tokens(&mut reg, &s("coll1"), 1), Err(ContractError::MintRecordNotFound)));
    assert_eq!(reg.collections[0].collection.claimed, 4);
    assert_eq!(claim_tokens(&mut reg, &s("coll1"), 0).unwrap().len(), 0);
    assert!(matches!(claim_tokens(&mut reg, &s("zzz"), 1), Err(ContractError::CollectionNotFound)));
}

#[test]
fn claim_past_granted_is_refused_whole() {
    let mut reg = setup(1, 10, vec![group("public", 0, 0, None)]);
    mint(&mut reg, "a", pay(1), 2_000).unwrap();
    assert!(matches!(claim_tokens(&mut reg, &s("coll1"), 2), Err(ContractError::MintRecordNotFound)));
    assert_eq!(reg.collections[0].collection.claimed, 0);
}

#[test]
fn token_uri_with_and_without_number() {
    let reg = setup(1, 10, vec![]);
    let mut c = reg.collections[0].collection.clone();
    assert_eq!(create_token_uri(&c, 12), "ipfs://apes/12");
    assert_eq!(create_token_uri(&c, 0), "ipfs://apes/0");
    assert_eq!(create_token_uri(&c, 4294967295), "ipfs://apes/4294967295");
    c.iterated_uri = false;
    assert_eq!(create_token_uri(&c, 12), "ipfs://apes/");
}

#[test]
fn register_then_confirm_once() {
    let mut reg = instantiate(&s("admin"), InstantiateMsg { extension: None, fee: 1, registeration_open: true, denom: s("ustars") });
    let out = register_collection(
        &mut reg, &s("creator"), 3, s("A"), s("B"), 5, s("u"), 0, s("r"), s("c"), vec![], false, None,
    )
    .unwrap();
    assert!(matches!(out, Outbound::InstantiateCollection { ticket: 0, code_id: 3, .. }));
    assert_eq!(reg.config.next_reply_id, 1);
    assert_eq!(reg.pending.len(), 1);
    assert_eq!(reg.collections.len(), 0);
    let r = mint_native(&mut reg, &s("a"), 2_000, &pay(1), &s("addr"), &s("g"), None, None, None);
    assert_eq!(r.map(|m| m.token_id), Err(ContractError::CollectionNotFound));
    assert_eq!(confirm_registration(&mut reg, 9, s("addr")), Err(ContractError::UnknownTicket));
    assert_eq!(confirm_registration(&mut reg, 0, s("addr")), Ok(()));
    assert_eq!(reg.collections.len(), 1);
    assert_eq!(reg.pending.len(), 0);
    assert_eq!(reg.collections[0].address, "addr");
    assert_eq!(reg.collections[0].collection.cw721_address, Some(s("addr")));
    assert_eq!(reg.collections[0].collection.next_token_id, 1);
    assert_eq!(confirm_registration(&mut reg, 0, s("addr2")), Err(ContractError::UnknownTicket));
    assert_eq!(reg.collections.len(), 1);
    let out = register_collection(
        &mut reg, &s("creator"), 3, s("A"), s("B"), 5, s("u"), 0, s("r"), s("c"), vec![], false, None,
    )
    .unwrap();
    assert!(matches!(out, Outbound::InstantiateCollection { ticket: 1, .. }));
    assert_eq!(confirm_registration(&mut reg, 1, s("addr")), Err(ContractError::CollectionExists));
    assert_eq!(reg.pending.len(), 1);
    assert_eq!(reg.collections.len(), 1);
}

#[test]
fn minter_and_balance_lookups() {
    let mut reg = setup(1, 10, vec![group("public", 0, 0, None), group("vip", 0, 0, None)]);
    mint(&mut reg, "a", pay(1), 2_000).unwrap();
    mint(&mut reg, "b", pay(1), 2_000).unwrap();
    mint_native(&mut reg, &s("a"), 2_000, &pay(1), &s("coll1"), &s("vip"), None, None, None).unwrap();
    let rec = &reg.collections[0];
    assert_eq!(minter_of(rec, 0), None);
    assert_eq!(minter_of(rec, 1), Some(s("a")));
    assert_eq!(minter_of(rec, 2), Some(s("b")));
    assert_eq!(minter_of(rec, 3), Some(s("a")));
    assert_eq!(minter_of(rec, 4), None);
    assert_eq!(balance_of(&rec.mint_log, &s("a")), 2);
    assert_eq!(balance_of(&rec.mint_log, &s("z")), 0);
    assert_eq!(count_grants(&rec.mint_log, &s("a"), &s("vip")), 1);
}

#[test]
fn decimal_digits() {
    assert_eq!(to_decimal(0), "0");
    assert_eq!(to_decimal(7), "7");
    assert_eq!(to_decimal(10), "10");
    assert_eq!(to_decimal(1203), "1203");
    assert_eq!(to_decimal(u32::MAX), "4294967295");
}

#[test]
fn registration_keeps_extension() {
    let mut reg = instantiate(&s("admin"), InstantiateMsg { extension: Some(Empty {}), fee: 1, registeration_open: true, denom: s("ustars") });
    assert_eq!(reg.config.extension, Some(Empty {}));
    register_collection(
        &mut reg, &s("creator"), 3, s("A"), s("B"), 5, s("u"), 0, s("r"), s("c"), vec![], false, Some(Empty {}),
    )
    .unwrap();
    assert_eq!(confirm_registration(&mut reg, 0, s("addr")), Ok(()));
    assert_eq!(reg.collections[0].collection.extension, Some(Empty {}));
}
