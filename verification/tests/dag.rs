use mcloving_controller_store::dag::{
    admitted_node_status, check_existing_dag, check_existing_dag_nodes, compile_matrix,
    effective_capabilities, validate_dag_contract, validate_node_key, DagContractError, DagContractErrorCode, DagDependency,
    DagNodeKind, DependencyCondition, NewDagBuild, NewDagNode, normalized_dependency_order,
    normalized_node_order,
};

use mcloving_controller_store::StoreError;

fn node(key: &str, deps: &[&str]) -> NewDagNode {
    NewDagNode {
        node_key: key.to_owned(),
        kind: DagNodeKind::Work,
        dependencies: deps
            .iter()
            .map(|d| DagDependency { node_key: (*d).to_owned(), condition: DependencyCondition::Succeeded })
            .collect(),
        required_capabilities: Vec::new(),
        required_platform: "linux".to_owned(),
        required_trust_pool: "default".to_owned(),
        priority: 0,
        execution_spec: b"{}".to_vec(),
        fail_fast: false,
        max_attempts: 1,
    }
}

fn build(nodes: Vec<NewDagNode>) -> NewDagBuild {
    NewDagBuild {
        organization_id: 1,
        project_id: 2,
        idempotency_key: "admit-1".to_owned(),
        pipeline_digest: [3; 32],
        priority: 0,
        nodes,
    }
}

#[test]
fn a_chain_of_nodes_is_a_valid_dag() {
    let input = build(vec![node("a", &[]), node("b", &["a"]), node("c", &["a", "b"])]);
    assert!(validate_dag_contract(&input).is_ok());
}

#[test]
fn cycles_are_rejected() {
    let input = build(vec![node("a", &["b"]), node("b", &["a"])]);
    let error = validate_dag_contract(&input).unwrap_err();
    assert_eq!(error.code, DagContractErrorCode::Cycle);
}

#[test]
fn missing_and_duplicate_nodes_are_rejected() {
    let missing = build(vec![node("a", &["ghost"])]);
    assert_eq!(validate_dag_contract(&missing).unwrap_err().code, DagContractErrorCode::MissingDependency);
    let duplicate = build(vec![node("a", &[]), node("a", &[])]);
    assert_eq!(validate_dag_contract(&duplicate).unwrap_err().code, DagContractErrorCode::DuplicateNode);
}

#[test]
fn matrix_cells_enumerate_the_sorted_product() {
    let axes = vec![
        ("os".to_owned(), vec!["macos".to_owned(), "linux".to_owned()]),
        ("rust".to_owned(), vec!["stable".to_owned()]),
    ];
    let cells = compile_matrix("test", &axes).unwrap();
    let keys: Vec<String> = cells.iter().map(|cell| cell.node_key.clone()).collect();
    assert_eq!(keys, vec!["test[os=linux,rust=stable]".to_owned(), "test[os=macos,rust=stable]".to_owned()]);
    assert_eq!(cells[1].values, vec![("os".to_owned(), "macos".to_owned()), ("rust".to_owned(), "stable".to_owned())]);
}

#[test]
fn matrix_values_must_be_unique_and_bounded() {
    let duplicated = vec![("os".to_owned(), vec!["linux".to_owned(), "linux".to_owned()])];
    assert_eq!(
        compile_matrix("test", &duplicated).unwrap_err().code,
        DagContractErrorCode::DuplicateMatrixValue
    );
    let empty: Vec<(String, Vec<String>)> = Vec::new();
    assert_eq!(compile_matrix("test", &empty).unwrap_err().code, DagContractErrorCode::MatrixAxisLimit);
}

#[test]
fn node_keys_use_a_restricted_alphabet() {
    assert!(validate_node_key("$.key", "build.linux-x86_64").is_ok());
    assert!(validate_node_key("$.key", "has space").is_err());
}

#[test]
fn capabilities_include_the_platform_once_in_order() {
    let mut n = node("build", &[]);
    n.required_capabilities = vec!["docker".to_owned(), "arm64".to_owned(), "docker".to_owned()];
    n.required_platform = "linux".to_owned();
    assert_eq!(
        effective_capabilities(&n),
        vec!["arm64".to_owned(), "docker".to_owned(), "platform:linux".to_owned()]
    );
    n.required_capabilities = vec!["platform:linux".to_owned()];
    assert_eq!(effective_capabilities(&n), vec!["platform:linux".to_owned()]);
}

#[test]
fn nodes_with_dependencies_are_admitted_blocked() {
    assert_eq!(admitted_node_status(&node("a", &[])), "queued");
    assert_eq!(admitted_node_status(&node("b", &["a"])), "blocked");
}

#[test]
fn idempotent_readmission_must_match_the_stored_contract() {
    assert_eq!(check_existing_dag(true, true, true), Ok(()));
    assert_eq!(
        check_existing_dag(false, true, true),
        Err(StoreError::InvalidDag("idempotency key already belongs to a different build contract".to_owned()))
    );
    let build = NewDagBuild {
        organization_id: 1,
        project_id: 2,
        idempotency_key: "k".to_owned(),
        pipeline_digest: [0; 32],
        priority: 0,
        nodes: vec![node("a", &[]), node("b", &["a"])],
    };
    assert_eq!(check_existing_dag_nodes(&vec!["b".to_owned(), "a".to_owned()], &build), Ok(()));
    let refused = Err(StoreError::InvalidDag("idempotent DAG exists with a different node contract".to_owned()));
    assert_eq!(check_existing_dag_nodes(&vec!["a".to_owned()], &build), refused);
    assert_eq!(check_existing_dag_nodes(&vec!["a".to_owned(), "c".to_owned()], &build), refused);
    assert_eq!(check_existing_dag_nodes(&vec!["a".to_owned(), "a".to_owned()], &build), refused);
}

#[test]
fn contract_errors_read_as_path_and_message() {
    let e = DagContractError::new(DagContractErrorCode::InvalidText, "nodes[0].node_key".to_owned(), "text is empty");
    assert_eq!(e.to_text(), "nodes[0].node_key: text is empty");
}

#[test]
fn the_normalized_contract_lists_nodes_by_key() {
    let input = build(vec![node("deploy", &["test"]), node("build", &[]), node("test", &["build"])]);
    assert_eq!(normalized_node_order(&input), vec![1, 0, 2]);
}

#[test]
fn the_normalized_contract_lists_dependencies_by_key_then_condition() {
    let mut n = node("z", &["b", "a", "a"]);
    n.dependencies[2].condition = DependencyCondition::Completed;
    // ("a", "completed") < ("a", "succeeded") < ("b", "succeeded")
    assert_eq!(normalized_dependency_order(&n), vec![2, 1, 0]);
    let twice = node("z", &["a", "a"]);
    assert_eq!(normalized_dependency_order(&twice), vec![0, 1]);
}

fn contract_error(code: DagContractErrorCode, path: &str, message: &str) -> DagContractError {
    DagContractError { code, path: path.to_owned(), message: message.to_owned() }
}

#[test]
fn dag_errors_name_their_path_and_message() {
    let cycle = build(vec![node("a", &["b"]), node("b", &["a"])]);
    assert_eq!(
        validate_dag_contract(&cycle),
        Err(contract_error(DagContractErrorCode::Cycle, "$.nodes", "DAG contains a dependency cycle"))
    );
    assert_eq!(
        validate_dag_contract(&build(Vec::new())),
        Err(contract_error(DagContractErrorCode::NodeLimit, "$.nodes", "DAG node count must be between 1 and 256"))
    );
    let mut post = node("post", &["a"]);
    post.kind = DagNodeKind::Post;
    assert_eq!(
        validate_dag_contract(&build(vec![node("a", &[]), post])),
        Err(contract_error(
            DagContractErrorCode::InvalidNodeKind,
            "$.nodes.post.dependencies",
            "post nodes require one or more completion dependencies"
        ))
    );
    assert_eq!(
        validate_dag_contract(&build(vec![node("a", &[]), node("a", &[])])),
        Err(contract_error(DagContractErrorCode::DuplicateNode, "$.nodes.a", "DAG node keys must be unique"))
    );
}

#[test]
fn matrix_errors_name_their_path_and_message() {
    let duplicated = vec![("os".to_owned(), vec!["linux".to_owned(), "linux".to_owned()])];
    assert_eq!(
        compile_matrix("m", &duplicated),
        Err(contract_error(DagContractErrorCode::DuplicateMatrixValue, "$.axes.os", "matrix values must be unique"))
    );
    let values = |n: usize| (0..n).map(|i| format!("v{i}")).collect::<Vec<String>>();
    let fits = vec![("a".to_owned(), values(16)), ("b".to_owned(), values(16))];
    assert_eq!(compile_matrix("m", &fits).map(|cells| cells.len()), Ok(256));
    let over = vec![("a".to_owned(), values(17)), ("b".to_owned(), values(16))];
    assert_eq!(
        compile_matrix("m", &over),
        Err(contract_error(DagContractErrorCode::MatrixCellLimit, "$.axes", "matrix product exceeds 256 cells"))
    );
}

#[test]
fn matrix_cells_ignore_the_order_of_axis_values() {
    let a = vec![("os".to_owned(), vec!["macos".to_owned(), "linux".to_owned()])];
    let b = vec![("os".to_owned(), vec!["linux".to_owned(), "macos".to_owned()])];
    assert_eq!(compile_matrix("m", &a), compile_matrix("m", &b));
}
