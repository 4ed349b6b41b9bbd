//! Namespace trie tests: build, lookup, list, paths, children.

use mcp_wallet::namespace::NamespaceTree;
use mcp_wallet::optypes::{ApiOperation, HttpMethod};

fn op(operation_id: &str, normalized_id: &str, method: HttpMethod, path: &str) -> ApiOperation {
    ApiOperation {
        operation_id: operation_id.to_string(),
        normalized_id: normalized_id.to_string(),
        method,
        path: path.to_string(),
        summary: None,
        description: None,
        tags: vec![],
        deprecated: false,
        parameters: vec![],
        request_body: None,
        responses: vec![],
        security: vec![],
    }
}

fn test_tree() -> NamespaceTree {
    let operations = vec![
        op("createCustomer", "customers.create", HttpMethod::Post, "/v1/customers"),
        op("getCustomer", "customers.get", HttpMethod::Get, "/v1/customers/{id}"),
        op("listCustomers", "customers.list", HttpMethod::Get, "/v1/customers"),
    ];
    NamespaceTree::build(&operations)
}

#[test]
fn test_lookup() {
    let tree = test_tree();

    let op = tree.lookup("customers.create").unwrap();
    assert_eq!(op.operation_id, "createCustomer");
    assert_eq!(op.method, HttpMethod::Post);
}

#[test]
fn test_lookup_not_found() {
    let tree = test_tree();
    assert!(tree.lookup("orders.create").is_none());
}

#[test]
fn test_list() {
    let tree = test_tree();

    let ops = tree.list("customers");
    assert_eq!(ops.len(), 3);
}

#[test]
fn test_paths() {
    let tree = test_tree();

    let paths = tree.paths();
    assert!(paths.contains(&"customers.create".to_string()));
    assert!(paths.contains(&"customers.get".to_string()));
    assert!(paths.contains(&"customers.list".to_string()));
}

#[test]
fn test_children_at() {
    let tree = test_tree();

    let children = tree.children_at("");
    assert!(children.contains(&"customers".to_string()));

    let children = tree.children_at("customers");
    assert!(children.contains(&"create".to_string()));
    assert!(children.contains(&"get".to_string()));
    assert!(children.contains(&"list".to_string()));
}

#[test]
fn test_last_insert_wins_on_collision() {
    let operations = vec![
        op("first", "same.path", HttpMethod::Get, "/a"),
        op("second", "same.path", HttpMethod::Post, "/b"),
    ];
    let tree = NamespaceTree::build(&operations);
    let found = tree.lookup("same.path").unwrap();
    assert_eq!(found.operation_id, "second");
    assert_eq!(found.index, 1);
}

#[test]
fn test_lookup_index_points_to_operation() {
    let operations = vec![
        op("alpha", "alpha", HttpMethod::Get, "/alpha"),
        op("beta", "beta.one", HttpMethod::Post, "/beta"),
    ];
    let tree = NamespaceTree::build(&operations);
    let found = tree.lookup("beta.one").unwrap();
    assert_eq!(found.index, 1);
    assert_eq!(operations[found.index].operation_id, "beta");
}
