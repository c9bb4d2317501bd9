use local_swarm::network::{detach_public_network, NetworkConfig, NetworkId, PublicNetworkFault};

fn net(network_id: NetworkId, document: &str) -> NetworkConfig {
    NetworkConfig::new(network_id, document.to_string())
}

fn ids(networks: &[NetworkConfig]) -> Vec<(NetworkId, String)> {
    networks.iter().map(|n| (n.network_id, n.document.clone())).collect()
}

#[test]
fn the_public_network_is_taken_out() {
    let mut networks = vec![net(NetworkId::Vfn, "vfn"), net(NetworkId::Public, "public")];
    let detached = detach_public_network(&mut networks).expect("there is one public network");
    assert_eq!(detached.network_id, NetworkId::Public);
    assert_eq!(detached.document, "public");
    assert_eq!(ids(&networks), vec![(NetworkId::Vfn, "vfn".to_string())]);
}

#[test]
fn the_public_network_is_taken_out_wherever_it_stands() {
    for place in 0..4usize {
        let mut networks = vec![
            net(NetworkId::Validator, "a"),
            net(NetworkId::Vfn, "b"),
            net(NetworkId::Vfn, "c"),
        ];
        networks.insert(place, net(NetworkId::Public, "public"));
        let detached = detach_public_network(&mut networks).expect("there is one public network");
        assert_eq!(detached.document, "public");
        assert_eq!(
            ids(&networks),
            vec![
                (NetworkId::Validator, "a".to_string()),
                (NetworkId::Vfn, "b".to_string()),
                (NetworkId::Vfn, "c".to_string()),
            ]
        );
        assert!(networks.iter().all(|n| n.network_id != NetworkId::Public));
    }
}

#[test]
fn more_than_one_public_network_is_refused_and_nothing_changes() {
    let mut networks = vec![
        net(NetworkId::Validator, "v"),
        net(NetworkId::Public, "first"),
        net(NetworkId::Vfn, "vfn"),
        net(NetworkId::Public, "second"),
    ];
    assert_eq!(detach_public_network(&mut networks).unwrap_err(), PublicNetworkFault::Several);
    assert_eq!(
        ids(&networks),
        vec![
            (NetworkId::Validator, "v".to_string()),
            (NetworkId::Public, "first".to_string()),
            (NetworkId::Vfn, "vfn".to_string()),
            (NetworkId::Public, "second".to_string()),
        ]
    );
    let mut twins = vec![net(NetworkId::Public, "a"), net(NetworkId::Public, "b")];
    assert_eq!(detach_public_network(&mut twins).unwrap_err(), PublicNetworkFault::Several);
    assert_eq!(twins.len(), 2);
}

#[test]
fn without_a_public_network_nothing_changes() {
    let mut networks = vec![net(NetworkId::Vfn, "vfn"), net(NetworkId::Validator, "v")];
    assert_eq!(detach_public_network(&mut networks).unwrap_err(), PublicNetworkFault::Missing);
    assert_eq!(
        ids(&networks),
        vec![(NetworkId::Vfn, "vfn".to_string()), (NetworkId::Validator, "v".to_string())]
    );
    let mut none: Vec<NetworkConfig> = Vec::new();
    assert_eq!(detach_public_network(&mut none).unwrap_err(), PublicNetworkFault::Missing);
    assert!(none.is_empty());
}

#[test]
fn a_copy_of_a_network_is_the_same_network() {
    let first = net(NetworkId::Public, "doc");
    let copy = first.duplicate();
    assert_eq!(copy.network_id, NetworkId::Public);
    assert_eq!(copy.document, "doc");
}
