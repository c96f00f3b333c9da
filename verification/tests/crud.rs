use kv_api::handlers::ApiResponse;
use kv_api::handlers::handle_delete;
use kv_api::handlers::handle_get;
use kv_api::handlers::handle_post;
use kv_api::handlers::handle_put;
use kv_api::table::KvTable;

#[test]
fn test_crud_operations() {
    let mut table = KvTable::new();

    // POST /api/data with {"test_key": "test_value"}: 201, echoing the body.
    let pairs = vec![("test_key".to_string(), "test_value".to_string())];
    let resp = handle_post(&mut table, pairs);
    assert_eq!(resp.status_code(), 201);
    match resp {
        ApiResponse::Created { pairs } => {
            assert_eq!(pairs, vec![("test_key".to_string(), "test_value".to_string())]);
        }
        _ => panic!("expected Created"),
    }

    // GET /api/data/test_key: 200 with {"test_key": "test_value"}.
    let resp = handle_get(&table, &"test_key".to_string());
    assert_eq!(resp.status_code(), 200);
    match resp {
        ApiResponse::OkPair { key, value } => {
            assert_eq!(key, "test_key");
            assert_eq!(value, "test_value");
        }
        _ => panic!("expected OkPair"),
    }

    // PUT /api/data/test_key with {"value": "new_value"}: 200 with
    // {"test_key": "new_value"}.
    let resp = handle_put(&mut table, &"test_key".to_string(), "new_value".to_string());
    assert_eq!(resp.status_code(), 200);
    match resp {
        ApiResponse::OkPair { key, value } => {
            assert_eq!(key, "test_key");
            assert_eq!(value, "new_value");
        }
        _ => panic!("expected OkPair"),
    }

    // DELETE /api/data/test_key: 200 with {"message": "Deleted"}.
    let resp = handle_delete(&mut table, &"test_key".to_string());
    assert_eq!(resp.status_code(), 200);
    match resp {
        ApiResponse::Deleted { message } => {
            assert_eq!(message, "Deleted");
        }
        _ => panic!("expected Deleted"),
    }

    // GET /api/data/test_key again: 404 with {"error": "Key not found"}.
    let resp = handle_get(&table, &"test_key".to_string());
    assert_eq!(resp.status_code(), 404);
    match resp {
        ApiResponse::NotFound { error } => {
            assert_eq!(error, "Key not found");
        }
        _ => panic!("expected NotFound"),
    }
}

#[test]
fn read_absent_key_returns_not_found() {
    let table = KvTable::new();
    let resp = handle_get(&table, &"missing".to_string());
    assert_eq!(resp.status_code(), 404);
    match resp {
        ApiResponse::NotFound { error } => assert_eq!(error, "Key not found"),
        _ => panic!("expected NotFound"),
    }
}

#[test]
fn update_absent_key_returns_not_found_and_stores_nothing() {
    let mut table = KvTable::new();
    let resp = handle_put(&mut table, &"ghostly".to_string(), "value".to_string());
    assert_eq!(resp.status_code(), 404);
    match resp {
        ApiResponse::NotFound { error } => assert_eq!(error, "Key not found"),
        _ => panic!("expected NotFound"),
    }
    assert!(table.get(&"ghostly".to_string()).is_none());
}

#[test]
fn delete_absent_key_returns_not_found() {
    let mut table = KvTable::new();
    let resp = handle_delete(&mut table, &"missing".to_string());
    assert_eq!(resp.status_code(), 404);
    match resp {
        ApiResponse::NotFound { error } => assert_eq!(error, "Key not found"),
        _ => panic!("expected NotFound"),
    }
}

#[test]
fn create_with_empty_body_is_a_no_op_but_still_created() {
    let mut table = KvTable::new();
    let resp = handle_post(&mut table, Vec::new());
    assert_eq!(resp.status_code(), 201);
    match resp {
        ApiResponse::Created { pairs } => assert!(pairs.is_empty()),
        _ => panic!("expected Created"),
    }
    assert!(table.get(&"anything".to_string()).is_none());
}

#[test]
fn create_stores_and_echoes_several_pairs() {
    let mut table = KvTable::new();
    let pairs = vec![
        ("one".to_string(), "1".to_string()),
        ("two".to_string(), "2".to_string()),
        ("three".to_string(), "3".to_string()),
    ];
    let resp = handle_post(&mut table, pairs.clone());
    assert_eq!(resp.status_code(), 201);
    match resp {
        ApiResponse::Created { pairs: echoed } => assert_eq!(echoed, pairs),
        _ => panic!("expected Created"),
    }
    assert_eq!(table.get(&"one".to_string()), Some(&"1".to_string()));
    assert_eq!(table.get(&"two".to_string()), Some(&"2".to_string()));
    assert_eq!(table.get(&"three".to_string()), Some(&"3".to_string()));
}
