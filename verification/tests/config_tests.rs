use tipjar::config::contracts::ContractAddresses;
use tipjar::config::networks::{network_from_lowercase, Network};

#[test]
fn test_network_rpc_urls() {
    assert_eq!(Network::Testnet.rpc_url(), "https://soroban-testnet.stellar.org");
    assert_eq!(Network::Mainnet.rpc_url(), "https://soroban.stellar.org");
    assert_eq!(Network::Futurenet.rpc_url(), "https://rpc-futurenet.stellar.org");
}

#[test]
fn test_network_passphrases() {
    assert_eq!(Network::Testnet.passphrase(), "Test SDF Network ; September 2015");
    assert_eq!(Network::Mainnet.passphrase(), "Public Global Stellar Network ; September 2015");
    assert_eq!(Network::Futurenet.passphrase(), "Test SDF Future Network ; October 2022");
}

#[test]
fn test_network_parsing() {
    assert_eq!(Network::from_str("testnet"), Some(Network::Testnet));
    assert_eq!(Network::from_str("mainnet"), Some(Network::Mainnet));
    assert_eq!(Network::from_str("futurenet"), Some(Network::Futurenet));
    assert_eq!(Network::from_str("invalid"), None);
}

#[test]
fn test_set_and_get_address() {
    let mut addresses = ContractAddresses::new();
    let testnet_addr = "CAAAAAAAAAAAAAAAAAAAAAAAAAAAAAAAAAAAAAAAAAAAAAAAAAAABSC4";

    addresses.set(&Network::Testnet, testnet_addr.to_string());
    assert_eq!(addresses.get(&Network::Testnet), Some(testnet_addr));
}

#[test]
fn test_get_nonexistent_address() {
    let addresses = ContractAddresses::new();
    assert_eq!(addresses.get(&Network::Testnet), None);
}

#[test]
fn test_multiple_networks() {
    let mut addresses = ContractAddresses::new();
    let testnet_addr = "CAAAAAAAAAAAAAAAAAAAAAAAAAAAAAAAAAAAAAAAAAAAAAAAAAAABSC4";
    let mainnet_addr = "CBBBBBBBBBBBBBBBBBBBBBBBBBBBBBBBBBBBBBBBBBBBBBBBBBBBSC4";

    addresses.set(&Network::Testnet, testnet_addr.to_string());
    addresses.set(&Network::Mainnet, mainnet_addr.to_string());

    assert_eq!(addresses.get(&Network::Testnet), Some(testnet_addr));
    assert_eq!(addresses.get(&Network::Mainnet), Some(mainnet_addr));
}

// ── Further cases ────────────────────────────────────────────────────────────

#[test]
fn parsing_ignores_letter_case_and_names_round_trip() {
    assert_eq!(Network::from_str("TestNet"), Some(Network::Testnet));
    assert_eq!(Network::from_str("MAINNET"), Some(Network::Mainnet));
    assert_eq!(Network::from_str(" mainnet"), None);
    assert_eq!(network_from_lowercase("MAINNET"), None);
    for n in [Network::Testnet, Network::Mainnet, Network::Futurenet] {
        assert_eq!(Network::from_str(n.name()), Some(n));
        assert_eq!(network_from_lowercase(n.name()), Some(n));
    }
}

#[test]
fn network_ids_and_names() {
    assert_eq!(Network::Testnet.network_id(), 0);
    assert_eq!(Network::Mainnet.network_id(), 1);
    assert_eq!(Network::Futurenet.network_id(), 2);
    assert_eq!(Network::Testnet.name(), "testnet");
    assert_eq!(Network::Mainnet.name(), "mainnet");
    assert_eq!(Network::Futurenet.name(), "futurenet");
}

#[test]
fn setting_again_replaces_and_all_lists_by_name() {
    let mut addresses = ContractAddresses::default();
    assert!(addresses.all().is_empty());
    addresses.set(&Network::Futurenet, "F1".to_string());
    addresses.set(&Network::Testnet, "T1".to_string());
    addresses.set(&Network::Futurenet, "F2".to_string());
    assert_eq!(addresses.get(&Network::Futurenet), Some("F2"));
    assert_eq!(addresses.get(&Network::Mainnet), None);
    assert_eq!(
        addresses.all(),
        vec![("testnet".to_string(), "T1".to_string()), ("futurenet".to_string(), "F2".to_string())]
    );
}
