use ndnm_hermes::config::NodeConfig;
use ndnm_hermes::error::AppError;
use ndnm_hermes::graph::{node_ids_are_unique, validate_graph, Connection, GraphDefinition, GraphNode};
use ndnm_hermes::orchestrator::{
    apply_failure, apply_success, begin_execution, current_call, finish, ExecutionStatus,
    GraphExecutionRequest,
};
use ndnm_hermes::order::build_execution_order;
use ndnm_hermes::registry::{overall_status, NodeInfo, NodeRegistry};
use ndnm_hermes::strmap::StrMap;
use ndnm_hermes::value::DataValue;

fn registry_with(types: &[&str]) -> NodeRegistry {
    let mut registry = NodeRegistry::new();
    let mut port = 3001u16;
    for t in types {
        registry
            .register(NodeInfo {
                node_id: t.to_string(),
                config: NodeConfig {
                    node_id_hash: t.to_string(),
                    label: "Test Node".to_string(),
                    node_type: "test".to_string(),
                    sections: vec![],
                    input_fields: vec![],
                },
                path: format!("./nodes/{}", t),
                port,
                is_running: false,
            })
            .unwrap();
        port += 1;
    }
    registry
}

fn node(instance_id: &str, node_type_id: &str) -> GraphNode {
    GraphNode {
        instance_id: instance_id.to_string(),
        node_type_id: node_type_id.to_string(),
        input_values: StrMap::new(),
    }
}

fn conn(from: &str, from_handle: &str, to: &str, to_handle: &str) -> Connection {
    Connection {
        from_node: from.to_string(),
        from_handle: from_handle.to_string(),
        to_node: to.to_string(),
        to_handle: to_handle.to_string(),
    }
}

#[test]
fn test_validate_graph_empty() {
    let registry = NodeRegistry::new();

    let graph = GraphDefinition { nodes: vec![], connections: vec![] };

    assert!(validate_graph(&registry, &graph).is_ok());
}

#[test]
fn test_validate_graph_unknown_type() {
    let registry = registry_with(&["echo"]);
    let graph = GraphDefinition { nodes: vec![node("n1", "ghost-type")], connections: vec![] };

    let err = validate_graph(&registry, &graph).unwrap_err();
    assert_eq!(err.message(), "Bad request: Unknown node type: ghost-type");
}

#[test]
fn test_validate_graph_dangling_connection() {
    let registry = registry_with(&["echo"]);
    let graph = GraphDefinition {
        nodes: vec![node("n1", "echo")],
        connections: vec![conn("n1", "out", "n9", "in")],
    };

    let err = validate_graph(&registry, &graph).unwrap_err();
    assert_eq!(err.message(), "Bad request: Connection references unknown node: n9");
}

#[test]
fn test_build_execution_order_simple() {
    let graph = GraphDefinition {
        nodes: vec![node("node1", "type1"), node("node2", "type2")],
        connections: vec![conn("node1", "output", "node2", "input")],
    };

    let result = build_execution_order(&graph);
    assert!(result.is_ok());

    let order = result.unwrap();
    assert_eq!(order.len(), 2);
    assert_eq!(order[0], "node1");
    assert_eq!(order[1], "node2");
}

#[test]
fn test_build_execution_order_respects_all_connections() {
    // A diamond: d depends on b and c, which both depend on a.
    let graph = GraphDefinition {
        nodes: vec![node("d", "t"), node("b", "t"), node("c", "t"), node("a", "t")],
        connections: vec![
            conn("a", "out", "b", "in"),
            conn("a", "out", "c", "in"),
            conn("b", "out", "d", "left"),
            conn("c", "out", "d", "right"),
        ],
    };

    let order = build_execution_order(&graph).unwrap();
    assert_eq!(order.len(), 4);
    let pos = |id: &str| order.iter().position(|x| x == id).unwrap();
    assert!(pos("a") < pos("b"));
    assert!(pos("a") < pos("c"));
    assert!(pos("b") < pos("d"));
    assert!(pos("c") < pos("d"));
}

#[test]
fn test_cycle_is_rejected_before_any_call() {
    let registry = registry_with(&["echo"]);
    let graph = GraphDefinition {
        nodes: vec![node("n1", "echo"), node("n2", "echo")],
        connections: vec![conn("n1", "out", "n2", "in"), conn("n2", "out", "n1", "in")],
    };

    let result = begin_execution(
        &registry,
        GraphExecutionRequest { execution_id: None, graph },
    );
    let err = result.unwrap_err();
    assert_eq!(err.message(), "Bad request: Circular dependency detected in graph");
}

#[test]
fn test_self_loop_is_rejected() {
    let registry = registry_with(&["echo"]);
    let graph = GraphDefinition {
        nodes: vec![node("n1", "echo")],
        connections: vec![conn("n1", "out", "n1", "in")],
    };

    let err = begin_execution(
        &registry,
        GraphExecutionRequest { execution_id: None, graph },
    )
    .unwrap_err();
    assert!(matches!(err, AppError::BadRequest(_)));
}

#[test]
fn test_execution_success_flows_outputs_downstream() {
    let registry = registry_with(&["echo"]);
    let graph = GraphDefinition {
        nodes: vec![node("n1", "echo"), node("n2", "echo")],
        connections: vec![conn("n1", "out", "n2", "in")],
    };

    let mut state = begin_execution(
        &registry,
        GraphExecutionRequest { execution_id: Some("exec-1".to_string()), graph },
    )
    .unwrap();

    // First call: n1, no inputs.
    let call1 = current_call(&state, &registry).unwrap().unwrap();
    assert_eq!(call1.instance_id, "n1");
    assert_eq!(call1.port, 3001);
    assert_eq!(call1.inputs.len(), 0);
    let mut outputs1: StrMap<DataValue> = StrMap::new();
    outputs1.insert("out".to_string(), DataValue::Text("payload from n1".to_string()));
    apply_success(&mut state, outputs1);

    // Second call: n2, receives n1's output under its input handle.
    let call2 = current_call(&state, &registry).unwrap().unwrap();
    assert_eq!(call2.instance_id, "n2");
    let received = call2.inputs.get("in").unwrap();
    assert_eq!(*received, DataValue::Text("payload from n1".to_string()));
    apply_success(&mut state, StrMap::new());

    assert!(current_call(&state, &registry).unwrap().is_none());
    let response = finish(state);
    assert_eq!(response.execution_id, "exec-1");
    assert!(matches!(response.status, ExecutionStatus::Success));
    assert!(response.error.is_none());
    assert_eq!(response.node_results.len(), 2);
    assert_eq!(response.node_results.get("n1").unwrap().status, "success");
    assert_eq!(response.node_results.get("n2").unwrap().status, "success");
}

#[test]
fn test_execution_failure_reports_partial_results() {
    let registry = registry_with(&["echo"]);
    let graph = GraphDefinition {
        nodes: vec![node("n1", "echo"), node("n2", "echo")],
        connections: vec![conn("n1", "out", "n2", "in")],
    };

    let state = begin_execution(
        &registry,
        GraphExecutionRequest { execution_id: Some("exec-2".to_string()), graph },
    )
    .unwrap();

    let call1 = current_call(&state, &registry).unwrap().unwrap();
    assert_eq!(call1.instance_id, "n1");
    // The worker answered with a non-success status: close the execution.
    let response = apply_failure(state, "Node 'n1' returned error: boom".to_string());

    assert!(matches!(response.status, ExecutionStatus::Failed));
    assert_eq!(response.error.unwrap(), "Node 'n1' returned error: boom");
    let n1 = response.node_results.get("n1").unwrap();
    assert_eq!(n1.status, "failed");
    assert!(n1.error.is_some());
    assert!(n1.outputs.is_none());
    assert!(response.node_results.get("n2").is_none());
    assert_eq!(response.node_results.len(), 1);
}

#[test]
fn test_missing_output_handle_is_silently_omitted() {
    let registry = registry_with(&["echo"]);
    let graph = GraphDefinition {
        nodes: vec![node("n1", "echo"), node("n2", "echo")],
        connections: vec![conn("n1", "out", "n2", "in")],
    };

    let mut state = begin_execution(
        &registry,
        GraphExecutionRequest { execution_id: None, graph },
    )
    .unwrap();

    current_call(&state, &registry).unwrap().unwrap();
    let mut outputs1: StrMap<DataValue> = StrMap::new();
    outputs1.insert("something_else".to_string(), DataValue::Bool(true));
    apply_success(&mut state, outputs1);

    let call2 = current_call(&state, &registry).unwrap().unwrap();
    assert_eq!(call2.instance_id, "n2");
    assert_eq!(call2.inputs.len(), 0);
    assert!(call2.inputs.get("in").is_none());
}

#[test]
fn test_target_directory_setting_is_forwarded() {
    let registry = registry_with(&["echo"]);
    let mut settings: StrMap<DataValue> = StrMap::new();
    settings.insert(
        "target_directory".to_string(),
        DataValue::Text("./managed_files".to_string()),
    );
    let graph = GraphDefinition {
        nodes: vec![GraphNode {
            instance_id: "n1".to_string(),
            node_type_id: "echo".to_string(),
            input_values: settings,
        }],
        connections: vec![],
    };

    let state = begin_execution(
        &registry,
        GraphExecutionRequest { execution_id: None, graph },
    )
    .unwrap();
    let call = current_call(&state, &registry).unwrap().unwrap();
    assert_eq!(call.target_directory.unwrap(), "./managed_files");
}

#[test]
fn test_non_text_target_directory_is_ignored() {
    let registry = registry_with(&["echo"]);
    let mut settings: StrMap<DataValue> = StrMap::new();
    settings.insert("target_directory".to_string(), DataValue::Number("7".to_string()));
    let graph = GraphDefinition {
        nodes: vec![GraphNode {
            instance_id: "n1".to_string(),
            node_type_id: "echo".to_string(),
            input_values: settings,
        }],
        connections: vec![],
    };

    let state = begin_execution(
        &registry,
        GraphExecutionRequest { execution_id: None, graph },
    )
    .unwrap();
    let call = current_call(&state, &registry).unwrap().unwrap();
    assert!(call.target_directory.is_none());
}

#[test]
fn test_duplicate_values_replace_in_map() {
    let mut m: StrMap<DataValue> = StrMap::new();
    m.insert("k".to_string(), DataValue::Text("first".to_string()));
    m.insert("k".to_string(), DataValue::Text("second".to_string()));
    assert_eq!(m.len(), 1);
    assert_eq!(*m.get("k").unwrap(), DataValue::Text("second".to_string()));
    assert!(m.get("other").is_none());
}

#[test]
fn test_data_value_duplicate_is_deep_equal() {
    let value = DataValue::Object(vec![
        ("name".to_string(), DataValue::Text("demo".to_string())),
        (
            "items".to_string(),
            DataValue::Array(vec![
                DataValue::Number("1".to_string()),
                DataValue::Null,
                DataValue::Bool(false),
            ]),
        ),
    ]);
    assert_eq!(value.duplicate(), value);
}

#[test]
fn test_node_ids_are_unique_detects_duplicates() {
    let unique = GraphDefinition {
        nodes: vec![node("n1", "echo"), node("n2", "echo")],
        connections: vec![],
    };
    assert!(node_ids_are_unique(&unique));

    let duplicated = GraphDefinition {
        nodes: vec![node("n1", "echo"), node("n1", "echo")],
        connections: vec![],
    };
    assert!(!node_ids_are_unique(&duplicated));
}

#[test]
fn test_overall_status_aggregates_node_health() {
    assert_eq!(overall_status(&vec![]), "healthy");
    assert_eq!(overall_status(&vec![true, true]), "healthy");
    assert_eq!(overall_status(&vec![true, false, true]), "degraded");
}

#[test]
fn test_supplied_execution_id_is_kept() {
    let registry = registry_with(&["echo"]);
    let graph = GraphDefinition { nodes: vec![node("n1", "echo")], connections: vec![] };
    let state = begin_execution(
        &registry,
        GraphExecutionRequest { execution_id: Some("my-id".to_string()), graph },
    )
    .unwrap();
    assert_eq!(state.execution_id, "my-id");
}
