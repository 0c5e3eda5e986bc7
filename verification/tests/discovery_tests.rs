use ndnm_hermes::config::NodeConfig;
use ndnm_hermes::discovery::DiscoveryService;

fn config(id: &str) -> NodeConfig {
    NodeConfig {
        node_id_hash: id.to_string(),
        label: "Test Node".to_string(),
        node_type: "test".to_string(),
        sections: vec![],
        input_fields: vec![],
    }
}

#[test]
fn test_assemble_registry_empty() {
    let service = DiscoveryService::new("./nodes");
    let registry = service.assemble_registry(vec![]);
    assert_eq!(registry.count(), 0);
}

#[test]
fn test_assemble_registry_assigns_sequential_ports() {
    let service = DiscoveryService::new("./nodes");
    let registry = service.assemble_registry(vec![
        ("./nodes/alpha".to_string(), config("alpha")),
        ("./nodes/beta".to_string(), config("beta")),
    ]);

    assert_eq!(registry.count(), 2);
    let alpha = registry.get_node("alpha").unwrap();
    assert_eq!(alpha.port, 3001);
    assert_eq!(alpha.path, "./nodes/alpha");
    assert!(!alpha.is_running);
    assert_eq!(registry.get_node("beta").unwrap().port, 3002);
}

#[test]
fn test_assemble_registry_skips_duplicate_identifier() {
    let service = DiscoveryService::new("./nodes");
    let registry = service.assemble_registry(vec![
        ("./nodes/alpha".to_string(), config("alpha")),
        ("./nodes/alpha-copy".to_string(), config("alpha")),
        ("./nodes/gamma".to_string(), config("gamma")),
    ]);

    assert_eq!(registry.count(), 2);
    assert_eq!(registry.get_node("alpha").unwrap().path, "./nodes/alpha");
    // The duplicate still consumed a port: the next worker gets the third
    // port, not the second.
    assert_eq!(registry.get_node("gamma").unwrap().port, 3003);
}

#[test]
fn test_discovery_service_base_port() {
    let service = DiscoveryService::new("./somewhere");
    assert_eq!(service.nodes_dir, "./somewhere");
    assert_eq!(service.base_port, 3001);
}
