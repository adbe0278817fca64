use tipjar::config::networks::Network;

#[test]
fn test_testnet_configuration() {
    let network = "testnet";
    let rpc_url = "https://soroban-testnet.stellar.org";
    let passphrase = "Test SDF Network ; September 2015";

    assert_eq!(network, "testnet");
    assert_eq!(rpc_url, "https://soroban-testnet.stellar.org");
    assert_eq!(passphrase, "Test SDF Network ; September 2015");

    let n = Network::from_str(network).unwrap();
    assert_eq!(n.rpc_url(), rpc_url);
    assert_eq!(n.passphrase(), passphrase);
}

#[test]
fn test_mainnet_configuration() {
    let network = "mainnet";
    let rpc_url = "https://soroban.stellar.org";
    let passphrase = "Public Global Stellar Network ; September 2015";

    assert_eq!(network, "mainnet");
    assert_eq!(rpc_url, "https://soroban.stellar.org");
    assert_eq!(passphrase, "Public Global Stellar Network ; September 2015");

    let n = Network::from_str(network).unwrap();
    assert_eq!(n.rpc_url(), rpc_url);
    assert_eq!(n.passphrase(), passphrase);
}

#[test]
fn test_futurenet_configuration() {
    let network = "futurenet";
    let rpc_url = "https://rpc-futurenet.stellar.org";
    let passphrase = "Test SDF Future Network ; October 2022";

    assert_eq!(network, "futurenet");
    assert_eq!(rpc_url, "https://rpc-futurenet.stellar.org");
    assert_eq!(passphrase, "Test SDF Future Network ; October 2022");

    let n = Network::from_str(network).unwrap();
    assert_eq!(n.rpc_url(), rpc_url);
    assert_eq!(n.passphrase(), passphrase);
}

#[test]
fn test_network_switching() {
    let networks = vec!["testnet", "mainnet", "futurenet"];
    assert_eq!(networks.len(), 3);
    assert!(networks.contains(&"testnet"));
    assert!(networks.contains(&"mainnet"));
    assert!(networks.contains(&"futurenet"));

    for name in &networks {
        assert_eq!(Network::from_str(name).unwrap().name(), *name);
    }
}

#[test]
fn test_network_detection() {
    let networks = vec!["testnet", "mainnet", "futurenet"];
    for network in networks {
        assert!(!network.is_empty());
        assert!(Network::from_str(network).is_some());
    }
}

#[test]
fn test_rpc_connectivity_config() {
    let rpc_urls = vec![
        "https://soroban-testnet.stellar.org",
        "https://soroban.stellar.org",
        "https://rpc-futurenet.stellar.org",
    ];

    for url in rpc_urls {
        assert!(url.starts_with("https://"));
        assert!(url.contains("stellar"));
    }

    for n in [Network::Testnet, Network::Mainnet, Network::Futurenet] {
        assert!(n.rpc_url().starts_with("https://"));
        assert!(n.rpc_url().contains("stellar"));
    }
}
