use crypto_wallet::address_book::AddressBook;
use crypto_wallet::crypto::{
    generate_mnemonic, hash_message, mnemonic_from_entropy, mnemonic_to_seed, public_key_to_address, validate_address,
    validate_mnemonic, AdvancedCrypto,
};
use crypto_wallet::encryption::WalletEncryption;
use crypto_wallet::error::WalletError;
use crypto_wallet::fee_estimation::{
    estimate_from_fields, select_fee_estimate, service_format, FeeEstimate, FeeEstimator, FeeRate, Priority,
    ServiceFormat, Urgency,
};
use crypto_wallet::keys::{derive_child, derive_key_from_seed, derive_keypair, master_from_seed, receiving_path, ChildNumber};
use crypto_wallet::network::base_url_for;
use crypto_wallet::storage::WalletStorage;
use crypto_wallet::text::{contains_text, decimal_text, signed_decimal_text};
use crypto_wallet::transaction::{Transaction, TransactionHistory, TransactionStatus};
use crypto_wallet::wallet::{total_balance, Wallet};

const ABANDON: &str =
    "abandon abandon abandon abandon abandon abandon abandon abandon abandon abandon abandon about";

fn hex(s: &str) -> Vec<u8> {
    (0..s.len()).step_by(2).map(|i| u8::from_str_radix(&s[i..i + 2], 16).unwrap()).collect()
}

fn seed_of(phrase: &str) -> [u8; 64] {
    mnemonic_to_seed(phrase).unwrap()
}

#[test]
fn mnemonic_seed_matches_reference_vector() {
    let seed = seed_of(ABANDON);
    assert_eq!(
        seed.to_vec(),
        hex("5eb00bbddcf069084889a8ab9155568165f5c453ccb85e70811aaed6f6da5fc19a5ac40b389cd370d086206dec8aa6c43daea6690f20ad3d8d48b2d2ce9e38e4")
    );
}

#[test]
fn mnemonic_seed_is_deterministic_and_case_insensitive() {
    assert_eq!(seed_of(ABANDON), seed_of(ABANDON));
    assert_eq!(seed_of(&ABANDON.to_uppercase()), seed_of(ABANDON));
}

#[test]
fn malformed_mnemonics_are_rejected() {
    // wrong checksum word
    let bad = ABANDON.replace("about", "abandon");
    assert_eq!(mnemonic_to_seed(&bad), Err(WalletError::InvalidSeedPhrase));
    // unknown word
    assert_eq!(mnemonic_to_seed("hello world"), Err(WalletError::InvalidSeedPhrase));
    assert_eq!(mnemonic_to_seed(""), Err(WalletError::InvalidSeedPhrase));
    // a valid 24-word phrase is still not a 12-word mnemonic
    let long = format!("{}art", "abandon ".repeat(23));
    assert_eq!(mnemonic_to_seed(&long), Err(WalletError::InvalidSeedPhrase));
    // extra whitespace between words is accepted
    let spaced = ABANDON.replace(' ', " \t\n ");
    assert_eq!(mnemonic_to_seed(&spaced).unwrap(), seed_of(ABANDON));
    assert!(!validate_mnemonic(&bad));
    assert!(validate_mnemonic(ABANDON));
}

#[test]
fn entropy_of_zeros_gives_the_reference_phrase() {
    assert_eq!(mnemonic_from_entropy(&vec![0u8; 16]).unwrap(), ABANDON);
    assert!(matches!(mnemonic_from_entropy(&vec![0u8; 5]), Err(WalletError::Crypto(_))));
}

#[test]
fn generated_mnemonic_has_twelve_valid_words() {
    let phrase = generate_mnemonic().unwrap();
    assert_eq!(phrase.split_whitespace().count(), 12);
    assert!(validate_mnemonic(&phrase));
}

#[test]
fn bip32_reference_vector_one() {
    let seed = hex("000102030405060708090a0b0c0d0e0f");
    let master = master_from_seed(&seed).unwrap();
    assert_eq!(master.secret, hex("e8f32e723decf4051aefac8e2c93c9c5b214313817cdb01a1494b917c8436b35"));
    assert_eq!(master.chain_code, hex("873dff81c02f525623fd1fe5167eac3a55a049de3d314bb42ee227ffed37d508"));
    let child = derive_child(&master, ChildNumber { index: 0, hardened: true }).unwrap();
    assert_eq!(child.secret, hex("edb2e14f9ee77d26dd93b4ecede8d16ed408ce149b6cd80b0715a2d911a0afea"));
    let grandchild = derive_child(&child, ChildNumber { index: 1, hardened: false }).unwrap();
    assert_eq!(grandchild.secret, hex("3c6cb8d0f6a264c91ea8b5030fadaa8e538b020f0a387421a12de9319dc93368"));
}

#[test]
fn derivation_is_deterministic_and_index_sensitive() {
    let seed = seed_of(ABANDON);
    let path0 = receiving_path(0);
    let path1 = receiving_path(1);
    let a = derive_keypair(&seed, &path0).unwrap();
    let b = derive_keypair(&seed, &path0).unwrap();
    let c = derive_keypair(&seed, &path1).unwrap();
    assert_eq!(a.secret_key, b.secret_key);
    assert_eq!(a.public_key, b.public_key);
    assert_ne!(a.secret_key, c.secret_key);
    assert_eq!(derive_key_from_seed(&seed, &path0).unwrap(), a.secret_key);
    assert_eq!(a.public_key[0], 4);
}

// Addresses hash the uncompressed public key without its 0x04 format byte.
#[test]
fn bip44_first_address_of_reference_phrase() {
    let wallet = Wallet::from_seed_phrase(ABANDON, "reference").unwrap();
    assert_eq!(wallet.addresses, vec!["1AgBD5kE3jQpM4kPduoy2gfAuD28VEAY9n".to_string()]);
}

#[test]
fn scenario_generate_derive_two_addresses() {
    let phrase = generate_mnemonic().unwrap();
    let mut wallet = Wallet::from_seed_phrase(&phrase, "fresh").unwrap();
    let second = wallet.add_new_address().unwrap();
    assert_eq!(wallet.addresses.len(), 2);
    assert_ne!(wallet.addresses[0], second);
    assert!(validate_address(&wallet.addresses[0]));
    assert!(validate_address(&second));
    assert_eq!(wallet.generate_address(1).unwrap(), second);
    assert!(wallet.addresses_consistent());
    wallet.addresses[1] = wallet.addresses[0].clone();
    assert!(!wallet.addresses_consistent());
}

#[test]
fn importing_a_bad_phrase_fails() {
    assert!(matches!(Wallet::from_seed_phrase("not a phrase", "x"), Err(WalletError::InvalidSeedPhrase)));
}

#[test]
fn genesis_public_key_address_skips_format_byte() {
    let pk = hex("04678afdb0fe5548271967f1a67130b7105cd6a828e03909a67962e0ea1f61deb649f6bc3f4cef38c4f35504e51ec112de5c384df7ba0b8d578a4c702b6bf11d5f");
    let address = public_key_to_address(&pk, "mainnet").unwrap();
    assert_eq!(address, "1BHvjdMGeyN1BWKMcCnyWEg7KM3uMWrWFB");
    assert!(validate_address(&address));
    let testnet = public_key_to_address(&pk, "testnet").unwrap();
    assert_eq!(testnet, "mqot2gSFTzoFxcnyKmmML9tSBLecJEPfa6");
    assert!(validate_address(&testnet));
    assert!(matches!(public_key_to_address(&pk, "regtest"), Err(WalletError::InvalidAddress(_))));
    assert!(matches!(public_key_to_address(&[], "regtest"), Err(WalletError::InvalidAddress(_))));
    assert!(matches!(public_key_to_address(&[], "mainnet"), Err(WalletError::Crypto(_))));
}

#[test]
fn single_character_changes_break_the_checksum() {
    let valid = "1A1zP1eP5QGefi2DMPTfTL5SLmv7DivfNa";
    let alphabet = "123456789ABCDEFGHJKLMNPQRSTUVWXYZabcdefghijkmnopqrstuvwxyz";
    for (i, c) in valid.chars().enumerate() {
        let replacement = if c == 'z' { 'y' } else { 'z' };
        assert!(alphabet.contains(replacement));
        let mut changed: Vec<char> = valid.chars().collect();
        changed[i] = replacement;
        let changed: String = changed.into_iter().collect();
        assert!(!validate_address(&changed), "{}", changed);
    }
    assert!(!validate_address("0OIl"));
}

#[test]
fn sha256_of_abc() {
    assert_eq!(
        hash_message(b"abc").to_vec(),
        hex("ba7816bf8f01cfea414140de5dae2223b00361a396177a9cb410ff61f20015ad")
    );
}

#[test]
fn ecdsa_sign_and_verify() {
    let (sk, pk) = AdvancedCrypto::generate_keypair().unwrap();
    let sig = AdvancedCrypto::sign_message(b"message", &sk).unwrap();
    assert!(AdvancedCrypto::verify_signature(b"message", &sig, &pk).unwrap());
    assert!(!AdvancedCrypto::verify_signature(b"other", &sig, &pk).unwrap());
    let bytes = pk.serialize_uncompressed();
    let address = AdvancedCrypto::public_key_to_bitcoin_address(&bytes, "mainnet").unwrap();
    assert!(validate_address(&address));
    assert_eq!(address, public_key_to_address(&bytes, "mainnet").unwrap());
    assert!(matches!(AdvancedCrypto::public_key_to_bitcoin_address(&bytes, "moon"), Err(WalletError::InvalidAddress(_))));
}

#[test]
fn scenario_seal_and_open_secret() {
    let blob = WalletEncryption::encrypt_wallet(b"secret", "pw").unwrap();
    assert_eq!(WalletEncryption::decrypt_wallet(&blob, "pw").unwrap(), b"secret".to_vec());
    assert_eq!(WalletEncryption::decrypt_wallet(&blob, "wrong"), Err(WalletError::AuthenticationFailure));
    assert!(WalletEncryption::verify_password(&blob, "pw"));
    assert!(!WalletEncryption::verify_password(&blob, "wrong"));
    assert_ne!(blob.encrypted_data, b"secret".to_vec());
}

#[test]
fn sealing_with_fixed_salt_and_nonce_is_deterministic() {
    let a = WalletEncryption::seal_with(b"", "pw", vec![7u8; 16], vec![9u8; 12]).unwrap();
    let b = WalletEncryption::seal_with(b"", "pw", vec![7u8; 16], vec![9u8; 12]).unwrap();
    assert_eq!(a.encrypted_data, b.encrypted_data);
    assert_eq!(a.encrypted_data.len(), 16);
    assert_eq!(WalletEncryption::decrypt_wallet(&a, "pw").unwrap(), Vec::<u8>::new());
    assert_eq!(a.argon2_params.memory_cost, 4096);
}

#[test]
fn fresh_salt_and_nonce_per_seal() {
    let a = WalletEncryption::encrypt_wallet(b"data", "pw").unwrap();
    let b = WalletEncryption::encrypt_wallet(b"data", "pw").unwrap();
    assert_eq!(a.salt.len(), 16);
    assert_eq!(a.nonce.len(), 12);
    assert_ne!(a.salt, b.salt);
    assert_ne!(a.nonce, b.nonce);
}

#[test]
fn tampered_envelope_fails_authentication() {
    let mut blob = WalletEncryption::encrypt_wallet(b"payload", "pw").unwrap();
    blob.encrypted_data[0] ^= 1;
    assert_eq!(WalletEncryption::decrypt_wallet(&blob, "pw"), Err(WalletError::AuthenticationFailure));
    let mut short_nonce = WalletEncryption::encrypt_wallet(b"payload", "pw").unwrap();
    short_nonce.nonce.pop();
    assert_eq!(WalletEncryption::decrypt_wallet(&short_nonce, "pw"), Err(WalletError::AuthenticationFailure));
    let mut many_lanes = WalletEncryption::encrypt_wallet(b"payload", "pw").unwrap();
    many_lanes.argon2_params.parallelism = 1 << 29;
    assert_eq!(WalletEncryption::decrypt_wallet(&many_lanes, "pw"), Err(WalletError::AuthenticationFailure));
}

fn book_with_two() -> AddressBook {
    let mut book = AddressBook::new();
    book.add_address("alice".to_string(), "1A1zP1eP5QGefi2DMPTfTL5SLmv7DivfNa".to_string(), None, None).unwrap();
    book.add_address("bob".to_string(), "1BvBMSEYstWetqTFn5Au4m4GFg7xJaNVN2".to_string(), Some("Bob".to_string()), None)
        .unwrap();
    book
}

#[test]
fn scenario_add_alice_then_search() {
    let mut book = AddressBook::new();
    book.add_address("alice".to_string(), "1A1zP1eP5QGefi2DMPTfTL5SLmv7DivfNa".to_string(), None, None).unwrap();
    let found = book.search_addresses("alice");
    assert_eq!(found.len(), 1);
    assert_eq!(found[0].name, "alice");
    assert_eq!(book.search_addresses("ALICE").len(), 1);
    assert_eq!(book.search_addresses("1a1zp1").len(), 1);
}

#[test]
fn duplicate_name_is_refused_and_first_entry_kept() {
    let mut book = book_with_two();
    let r = book.add_address("alice".to_string(), "1BvBMSEYstWetqTFn5Au4m4GFg7xJaNVN2".to_string(), None, None);
    assert_eq!(r, Err(WalletError::DuplicateName("alice".to_string())));
    assert_eq!(book.get_address("alice").unwrap().address, "1A1zP1eP5QGefi2DMPTfTL5SLmv7DivfNa");
    assert_eq!(book.list_addresses().len(), 2);
}

#[test]
fn invalid_address_is_refused() {
    let mut book = AddressBook::new();
    let r = book.add_address("x".to_string(), "1A1zP1eP5QGefi2DMPTfTL5SLmv7DivfNb".to_string(), None, None);
    assert!(matches!(r, Err(WalletError::InvalidAddress(_))));
    assert!(book.list_addresses().is_empty());
}

#[test]
fn favorites_follow_toggle_remove_and_rename() {
    let mut book = book_with_two();
    assert_eq!(book.toggle_favorite("bob"), Ok(true));
    assert_eq!(book.toggle_favorite("alice"), Ok(true));
    let favs: Vec<String> = book.get_favorites().iter().map(|e| e.name.clone()).collect();
    assert_eq!(favs, vec!["bob".to_string(), "alice".to_string()]);
    assert_eq!(book.toggle_favorite("bob"), Ok(false));
    assert_eq!(book.get_favorites().len(), 1);
    book.update_entry("alice", Some("carol".to_string()), None, Some("friend".to_string()), None).unwrap();
    let favs = book.get_favorites();
    assert_eq!(favs.len(), 1);
    assert_eq!(favs[0].name, "carol");
    assert_eq!(favs[0].label, Some("friend".to_string()));
    book.remove_address("carol").unwrap();
    assert!(book.get_favorites().is_empty());
    assert!(matches!(book.remove_address("carol"), Err(WalletError::NotFound(_))));
    assert!(matches!(book.toggle_favorite("nobody"), Err(WalletError::NotFound(_))));
}

#[test]
fn failed_update_changes_nothing() {
    let mut book = book_with_two();
    let r = book.update_entry("alice", Some("bob".to_string()), None, None, None);
    assert!(matches!(r, Err(WalletError::DuplicateName(_))));
    let r = book.update_entry("alice", Some("zed".to_string()), Some("bad".to_string()), None, None);
    assert!(matches!(r, Err(WalletError::InvalidAddress(_))));
    assert!(book.get_address("alice").is_some());
    assert!(book.get_address("zed").is_none());
    assert!(matches!(book.update_entry("nobody", None, None, None, None), Err(WalletError::NotFound(_))));
}

#[test]
fn usage_orderings_are_stable() {
    let mut book = book_with_two();
    book.add_address("carol".to_string(), "1LqBGSKuX5yYUonjxT5qGfpUsXKYYWeabA".to_string(), None, None).unwrap();
    book.mark_as_used("carol").unwrap();
    book.mark_as_used("carol").unwrap();
    book.mark_as_used("bob").unwrap();
    let top: Vec<String> = book.get_frequently_used(10).iter().map(|e| e.name.clone()).collect();
    assert_eq!(top, vec!["carol".to_string(), "bob".to_string(), "alice".to_string()]);
    assert_eq!(book.get_frequently_used(1).len(), 1);
    let recent = book.get_recently_used(10);
    assert_eq!(recent.len(), 2);
    assert!(recent.iter().all(|e| e.last_used.is_some()));
    assert_eq!(book.get_address_by_address("1BvBMSEYstWetqTFn5Au4m4GFg7xJaNVN2").unwrap().name, "bob");
    assert!(book.get_address_by_address("1Nope").is_none());
}

#[test]
fn address_book_csv_layout() {
    let mut book = AddressBook::new();
    book.add_address("a".to_string(), "1A1zP1eP5QGefi2DMPTfTL5SLmv7DivfNa".to_string(), None, None).unwrap();
    let csv = book.export_to_csv();
    let mut lines = csv.lines();
    assert_eq!(lines.next().unwrap(), "Name,Address,Label,Notes,Created,Last Used,Use Count,Is Favorite");
    let row = lines.next().unwrap();
    assert!(row.starts_with("a,1A1zP1eP5QGefi2DMPTfTL5SLmv7DivfNa,,,"));
    assert!(row.ends_with(" UTC,Never,0,false"));
}

fn tx_at(hash: &str, amount: i64, fee: u64, timestamp: i64) -> Transaction {
    let mut tx = Transaction::new(hash.to_string(), "from".to_string(), "to".to_string(), amount, fee, None);
    tx.timestamp = timestamp;
    tx
}

#[test]
fn ledger_totals_and_order() {
    let mut history = TransactionHistory::new();
    history.add_transaction(tx_at("a", 500, 10, 100));
    history.add_transaction(tx_at("b", -200, 5, 300));
    history.add_transaction(tx_at("c", -50, 1, 100));
    history.add_transaction(tx_at("d", 0, 0, 200));
    assert_eq!(history.total_received, 500);
    assert_eq!(history.total_sent, 250);
    assert_eq!(history.total_fees, 16);
    let order: Vec<&str> = history.transactions.iter().map(|t| t.hash.as_str()).collect();
    assert_eq!(order, vec!["b", "d", "a", "c"]);
    assert_eq!(history.get_balance_at_time(150), 450);
    assert_eq!(history.get_balance_at_time(1000), 250);
    assert_eq!(history.get_recent_transactions(2).len(), 2);
    assert_eq!(history.get_pending_transactions().len(), 4);
    assert_eq!(history.get_transactions_by_address("to").len(), 4);
    assert_eq!(history.get_transactions_by_address("elsewhere").len(), 0);
}

#[test]
fn ledger_csv_layout() {
    let mut history = TransactionHistory::new();
    history.add_transaction(tx_at("h", -42, 7, 0));
    let csv = history.export_to_csv().unwrap();
    let row = csv.lines().nth(1).unwrap();
    assert!(row.ends_with(",h,from,to,-42,7,Pending,1970-01-01 00:00:00 UTC,0,0,"));
    assert_eq!(row.split(',').next().unwrap().len(), 36);
}

#[test]
fn status_machine_terminal_states() {
    let mut tx = tx_at("x", 1, 0, 0);
    tx.mark_confirmed(10, 3);
    tx.mark_confirmed(11, 1);
    assert_eq!(tx.confirmations, 3);
    assert_eq!(tx.block_height, Some(10));
    tx.mark_confirmed(12, 5);
    assert_eq!(tx.confirmations, 5);
    tx.mark_cancelled();
    assert_eq!(tx.status, TransactionStatus::Confirmed);

    let mut failed = tx_at("y", 1, 0, 0);
    failed.mark_failed();
    failed.mark_confirmed(1, 1);
    assert_eq!(failed.status, TransactionStatus::Failed);
    assert_eq!(failed.confirmations, 0);

    let mut cancelled = tx_at("z", 1, 0, 0);
    cancelled.mark_cancelled();
    assert_eq!(cancelled.status, TransactionStatus::Cancelled);
}

#[test]
fn scenario_size_table() {
    let estimator = FeeEstimator::new();
    assert_eq!(estimator.estimate_transaction_size(1, 2, false), 151);
    assert_eq!(estimator.estimate_transaction_size(1, 2, true), 226);
    assert_eq!(estimator.estimate_transaction_size(0, 0, false), 10);
    assert_eq!(estimator.estimate_transaction_size(0, 0, true), 12);
}

#[test]
fn scenario_no_sources_gives_defaults() {
    let e = select_fee_estimate(&vec![None, None], 77);
    assert_eq!(e, FeeEstimate { slow: 1, medium: 5, fast: 10, timestamp: 77 });
    let e = select_fee_estimate(&vec![], 5);
    assert_eq!((e.slow, e.medium, e.fast), (1, 5, 10));
    let sample = FeeEstimate { slow: 2, medium: 3, fast: 4, timestamp: 1 };
    let other = FeeEstimate { slow: 9, medium: 9, fast: 9, timestamp: 2 };
    assert_eq!(select_fee_estimate(&vec![None, Some(sample), Some(other)], 5), sample);
}

#[test]
fn fee_quotes_and_priorities() {
    let estimator = FeeEstimator::new();
    let e = FeeEstimate { slow: 2, medium: 4, fast: 8, timestamp: 0 };
    let quote = estimator.calculate_transaction_fee(&e, FeeRate::Fast, 100);
    assert_eq!((quote.fee_rate, quote.total_fee), (8, 800));
    assert_eq!(quote.estimated_time, "1-10 minutes");
    let custom = estimator.calculate_transaction_fee(&e, FeeRate::Custom(3), 10);
    assert_eq!((custom.total_fee, custom.estimated_time.as_str()), (30, "Unknown"));
    assert_eq!(estimator.get_optimal_fee_rate(&e, Priority::Urgent), FeeRate::Custom(16));
    assert_eq!(estimator.get_optimal_fee_rate(&e, Priority::Low), FeeRate::Slow);
    assert_eq!(e.get_recommended_rate(Urgency::Urgent), 16);
    assert_eq!(e.get_recommended_rate(Urgency::Medium), 4);
}

#[test]
fn staleness_compares_seconds() {
    let e = FeeEstimate { slow: 1, medium: 1, fast: 1, timestamp: 1000 };
    assert!(!e.is_stale_at(1000 + 600, 10));
    assert!(e.is_stale_at(1000 + 601, 10));
    assert!(e.is_stale_at(1000 + 630, 10));
    assert!(!e.is_stale_at(0, 0));
}

#[test]
fn service_responses_are_read_by_layout() {
    let estimator = FeeEstimator::new();
    let mempool: serde_json::Value =
        serde_json::from_str("{\"fastestFee\": 20, \"hourFee\": 7, \"economyFee\": 2}").unwrap();
    let e = estimator.parse_mempool_response(&mempool, 9).unwrap();
    assert_eq!((e.slow, e.medium, e.fast, e.timestamp), (2, 7, 20, 9));
    let blockstream: serde_json::Value = serde_json::from_str("{\"1\": 30, \"144\": 1}").unwrap();
    let e = estimator.parse_blockstream_response(&blockstream, 9).unwrap();
    assert_eq!((e.slow, e.medium, e.fast), (1, 5, 30));
    assert_eq!(service_format("https://mempool.space/api/v1/fees/recommended"), Some(ServiceFormat::Mempool));
    assert_eq!(service_format("https://blockstream.info/api/fee-estimates"), Some(ServiceFormat::Blockstream));
    assert_eq!(service_format("https://example.org"), None);
    assert!(matches!(
        estimator.parse_service_response("https://example.org", &mempool, 0),
        Err(WalletError::Network(_))
    ));
    let e = estimate_from_fields(None, Some(6), None, 3);
    assert_eq!((e.slow, e.medium, e.fast), (1, 6, 10));
}

#[test]
fn text_helpers() {
    assert_eq!(decimal_text(0), "0");
    assert_eq!(decimal_text(1234567890), "1234567890");
    assert_eq!(signed_decimal_text(-42), "-42");
    assert_eq!(signed_decimal_text(i64::MIN), "-9223372036854775808");
    assert!(contains_text("hello", "ell"));
    assert!(contains_text("hello", ""));
    assert!(!contains_text("hello", "olleh"));
}

#[test]
fn wallet_file_naming() {
    assert_eq!(WalletStorage::get_wallet_path("/home/u/.crypto-wallet", "main"), "/home/u/.crypto-wallet/main.json");
    assert_eq!(WalletStorage::wallet_name_of_file("main.json"), Some("main".to_string()));
    assert_eq!(WalletStorage::wallet_name_of_file(".json"), None);
    assert_eq!(WalletStorage::wallet_name_of_file("notes.txt"), None);
}

#[test]
fn network_bases_and_send_checks() {
    assert_eq!(base_url_for("mainnet").unwrap(), "https://blockstream.info/api");
    assert_eq!(base_url_for("testnet").unwrap(), "https://blockstream.info/testnet/api");
    assert!(matches!(base_url_for("other"), Err(WalletError::Network(_))));
    let wallet = Wallet::from_seed_phrase(ABANDON, "w").unwrap();
    assert!(matches!(wallet.check_send("nope", 1, 10), Err(WalletError::InvalidAddress(_))));
    assert_eq!(wallet.check_send("1A1zP1eP5QGefi2DMPTfTL5SLmv7DivfNa", 11, 10), Err(WalletError::InsufficientFunds));
    assert_eq!(
        wallet.check_send("1A1zP1eP5QGefi2DMPTfTL5SLmv7DivfNa", 10, 10).unwrap(),
        "1AgBD5kE3jQpM4kPduoy2gfAuD28VEAY9n"
    );
    assert_eq!(total_balance(&vec![u64::MAX, u64::MAX]), 2 * (u64::MAX as u128));
}
