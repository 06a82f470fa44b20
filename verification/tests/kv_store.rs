use mochiclaw::kv::{HistoryStore, KVGetInput, KVRemoveInput, KVSetInput, LambdaKV, LambdaKVContext, PluginKV};
use mochiclaw::strmap::StrMap;

fn create_test_kv() -> LambdaKV {
    LambdaKV::new()
}

#[test]
fn test_lambda_kv_new_is_empty() {
    let kv = create_test_kv();
    assert!(kv.get_raw("lambda_a", "key").is_none());
}

#[test]
fn test_lambda_kv_set_and_get_raw() {
    let mut kv = create_test_kv();
    kv.set_raw("lambda_a", "key1", vec![1, 2, 3]);
    let value = kv.get_raw("lambda_a", "key1");
    assert_eq!(value, Some(vec![1, 2, 3]));
}

#[test]
fn test_lambda_kv_get_nonexistent_key() {
    let mut kv = create_test_kv();
    kv.set_raw("lambda_a", "key1", vec![1, 2, 3]);
    let value = kv.get_raw("lambda_a", "nonexistent");
    assert_eq!(value, None);
}

#[test]
fn test_lambda_kv_get_nonexistent_lambda() {
    let mut kv = create_test_kv();
    kv.set_raw("lambda_a", "key1", vec![1, 2, 3]);
    let value = kv.get_raw("lambda_b", "key1");
    assert_eq!(value, None);
}

#[test]
fn test_lambda_kv_remove_existing() {
    let mut kv = create_test_kv();
    kv.set_raw("lambda_a", "key1", vec![1, 2, 3]);
    assert_eq!(kv.get_raw("lambda_a", "key1"), Some(vec![1, 2, 3]));
    kv.remove("lambda_a", "key1");
    assert_eq!(kv.get_raw("lambda_a", "key1"), None);
}

#[test]
fn test_lambda_kv_remove_nonexistent() {
    let mut kv = create_test_kv();
    kv.remove("lambda_a", "nonexistent");
}

#[test]
fn test_lambda_kv_remove_from_nonexistent_lambda() {
    let mut kv = create_test_kv();
    kv.set_raw("lambda_a", "key1", vec![1, 2, 3]);
    kv.remove("lambda_b", "key1");
    assert_eq!(kv.get_raw("lambda_a", "key1"), Some(vec![1, 2, 3]));
}

#[test]
fn test_lambda_kv_multiple_lambdas_isolated() {
    let mut kv = create_test_kv();
    kv.set_raw("lambda_a", "key1", vec![1]);
    kv.set_raw("lambda_b", "key1", vec![2]);
    kv.set_raw("lambda_a", "key2", vec![3]);
    assert_eq!(kv.get_raw("lambda_a", "key1"), Some(vec![1]));
    assert_eq!(kv.get_raw("lambda_b", "key1"), Some(vec![2]));
    assert_eq!(kv.get_raw("lambda_a", "key2"), Some(vec![3]));
    assert_eq!(kv.get_raw("lambda_b", "key2"), None);
}

#[test]
fn test_lambda_kv_same_key_overwrites() {
    let mut kv = create_test_kv();
    kv.set_raw("lambda_a", "key1", vec![1, 2, 3]);
    kv.set_raw("lambda_a", "key1", vec![4, 5, 6]);
    let value = kv.get_raw("lambda_a", "key1");
    assert_eq!(value, Some(vec![4, 5, 6]));
}

#[test]
fn test_lambda_kv_context_can_read_self() {
    let ctx = LambdaKVContext::new("my_lambda", vec![]);
    assert!(ctx.can_read("my_lambda"));
}

#[test]
fn test_lambda_kv_context_can_read_allowed() {
    let ctx = LambdaKVContext::new("my_lambda", vec!["lambda_a".to_string(), "lambda_b".to_string()]);
    assert!(ctx.can_read("lambda_a"));
    assert!(ctx.can_read("lambda_b"));
}

#[test]
fn test_lambda_kv_context_cannot_read_unlisted() {
    let ctx = LambdaKVContext::new("my_lambda", vec!["lambda_a".to_string()]);
    assert!(!ctx.can_read("lambda_b"));
    assert!(!ctx.can_read("other_lambda"));
}

#[test]
fn test_lambda_kv_context_clone_is_independent() {
    let ctx1 = LambdaKVContext::new("lambda_a", vec![]);
    let ctx2 = ctx1.clone();
    assert_eq!(ctx1.lambda_name(), "lambda_a");
    assert_eq!(ctx2.lambda_name(), "lambda_a");
}

#[test]
fn context_get_reads_own_namespace_by_default() {
    let mut kv = LambdaKV::new();
    let ctx = LambdaKVContext::new("me", vec!["friend".to_string()]);
    assert_eq!(ctx.kv_set(&mut kv, KVSetInput { key: "k".to_string(), value: vec![7] }), 0);
    assert_eq!(kv.get_raw("me", "k"), Some(vec![7]));
    assert_eq!(ctx.kv_get(&kv, &KVGetInput { lambda: None, key: "k".to_string() }), Some(vec![7]));
    assert_eq!(ctx.kv_get(&kv, &KVGetInput { lambda: Some(String::new()), key: "k".to_string() }), Some(vec![7]));
}

#[test]
fn context_get_denied_for_unlisted_lambda() {
    let mut kv = LambdaKV::new();
    kv.set_raw("stranger", "k", vec![1]);
    kv.set_raw("friend", "k", vec![2]);
    let ctx = LambdaKVContext::new("me", vec!["friend".to_string()]);
    assert_eq!(ctx.kv_get(&kv, &KVGetInput { lambda: Some("stranger".to_string()), key: "k".to_string() }), None);
    assert_eq!(ctx.kv_get(&kv, &KVGetInput { lambda: Some("friend".to_string()), key: "k".to_string() }), Some(vec![2]));
}

#[test]
fn context_remove_only_touches_own_namespace() {
    let mut kv = LambdaKV::new();
    kv.set_raw("me", "k", vec![1]);
    kv.set_raw("other", "k", vec![2]);
    let ctx = LambdaKVContext::new("me", vec![]);
    assert_eq!(ctx.kv_remove(&mut kv, &KVRemoveInput { key: "k".to_string() }), 0);
    assert_eq!(kv.get_raw("me", "k"), None);
    assert_eq!(kv.get_raw("other", "k"), Some(vec![2]));
    assert_eq!(ctx.kv_remove(&mut kv, &KVRemoveInput { key: "k".to_string() }), -1);
    assert_eq!(kv.get_raw("other", "k"), Some(vec![2]));
}

#[test]
fn context_lists_readable_and_writable() {
    let ctx = LambdaKVContext::new("my-lambda", vec!["other-lambda".to_string()]);
    assert_eq!(ctx.list_readable(), vec!["my-lambda", "other-lambda"]);
    assert_eq!(ctx.list_writable(), vec!["my-lambda"]);
}

#[test]
fn plugin_kv_users_are_isolated() {
    let mut kv = PluginKV::new();
    kv.set_raw("p", "alice", "k", vec![1]);
    kv.set_raw("p", "bob", "k", vec![2]);
    assert_eq!(kv.get_raw("p", "alice", "k"), Some(vec![1]));
    assert_eq!(kv.get_raw("p", "bob", "k"), Some(vec![2]));
    assert_eq!(kv.get_raw("q", "alice", "k"), None);
    kv.remove("p", "alice", "k");
    assert_eq!(kv.get_raw("p", "alice", "k"), None);
    assert_eq!(kv.get_raw("p", "bob", "k"), Some(vec![2]));
}

#[test]
fn test_history_store_basic() {
    let mut store = HistoryStore::new();
    let execution_id = "test-execution-1";
    assert!(store.get(execution_id).is_none());
    let mut history = StrMap::new();
    history.insert("step1".to_string(), b"result1".to_vec());
    history.insert("step2".to_string(), b"result2".to_vec());
    store.set(execution_id, history);
    let retrieved = store.get(execution_id).unwrap();
    assert_eq!(retrieved.get("step1"), Some(&b"result1".to_vec()));
    assert_eq!(retrieved.get("step2"), Some(&b"result2".to_vec()));
    let mut new_history = StrMap::new();
    new_history.insert("step3".to_string(), b"result3".to_vec());
    store.merge(execution_id, &new_history);
    let merged = store.get(execution_id).unwrap();
    assert_eq!(merged.len(), 3);
    store.clear(execution_id);
    assert!(store.get(execution_id).is_none());
}
