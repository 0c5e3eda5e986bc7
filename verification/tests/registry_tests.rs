use ndnm_hermes::config::NodeConfig;
use ndnm_hermes::registry::{NodeInfo, NodeRegistry};

fn create_test_node_info(node_id: &str) -> NodeInfo {
    NodeInfo {
        node_id: node_id.to_string(),
        config: NodeConfig {
            node_id_hash: node_id.to_string(),
            label: "Test Node".to_string(),
            node_type: "test".to_string(),
            sections: vec![],
            input_fields: vec![],
        },
        path: "/test".to_string(),
        port: 3001,
        is_running: false,
    }
}

#[test]
fn test_register_node() {
    let mut registry = NodeRegistry::new();
    let node = create_test_node_info("test_node");

    assert!(registry.register(node).is_ok());
    assert_eq!(registry.count(), 1);
}

#[test]
fn test_duplicate_registration() {
    let mut registry = NodeRegistry::new();
    let node = create_test_node_info("test_node");

    registry.register(node.clone()).unwrap();
    let result = registry.register(node);

    assert!(result.is_err());
}

#[test]
fn test_duplicate_registration_keeps_registry_unchanged() {
    let mut registry = NodeRegistry::new();
    registry.register(create_test_node_info("test_node")).unwrap();
    let count_before = registry.count();

    let result = registry.register(create_test_node_info("test_node"));

    assert!(result.is_err());
    assert_eq!(registry.count(), count_before);
    assert_eq!(
        result.unwrap_err(),
        "Node 'test_node' already registered".to_string()
    );
}

#[test]
fn test_get_node() {
    let mut registry = NodeRegistry::new();
    let node = create_test_node_info("test_node");

    registry.register(node.clone()).unwrap();

    let retrieved = registry.get_node("test_node");
    assert!(retrieved.is_some());
    assert_eq!(retrieved.unwrap().node_id, "test_node");
}

#[test]
fn test_get_node_absent() {
    let mut registry = NodeRegistry::new();
    registry.register(create_test_node_info("test_node")).unwrap();

    assert!(registry.get_node("other_node").is_none());
    assert!(!registry.contains("other_node"));
    assert!(registry.contains("test_node"));
}

#[test]
fn test_set_node_running() {
    let mut registry = NodeRegistry::new();
    let node = create_test_node_info("test_node");

    registry.register(node).unwrap();
    registry.set_node_running("test_node", true);

    let retrieved = registry.get_node("test_node").unwrap();
    assert!(retrieved.is_running);
}

#[test]
fn test_set_node_running_unknown_id_is_noop() {
    let mut registry = NodeRegistry::new();
    registry.register(create_test_node_info("test_node")).unwrap();

    registry.set_node_running("missing", true);

    assert_eq!(registry.count(), 1);
    assert!(!registry.get_node("test_node").unwrap().is_running);
}

#[test]
fn test_get_all_nodes_lists_every_entry() {
    let mut registry = NodeRegistry::new();
    registry.register(create_test_node_info("a")).unwrap();
    registry.register(create_test_node_info("b")).unwrap();

    let all = registry.get_all_nodes();
    assert_eq!(all.len(), 2);
    assert!(all.iter().any(|n| n.node_id == "a"));
    assert!(all.iter().any(|n| n.node_id == "b"));
}
