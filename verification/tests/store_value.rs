use crakv::store::CasError;
use crakv::store::KvStore;
use crakv::value::Value;

fn text(s: &str) -> Value {
    Value::Text(s.to_string())
}

#[test]
fn value_equals_scalars() {
    assert!(Value::Null.equals(&Value::Null));
    assert!(Value::Bool(true).equals(&Value::Bool(true)));
    assert!(!Value::Bool(true).equals(&Value::Bool(false)));
    assert!(Value::Int(7).equals(&Value::Int(7)));
    assert!(!Value::Int(7).equals(&Value::Int(-7)));
    assert!(text("abc").equals(&text("abc")));
    assert!(!text("abc").equals(&text("abd")));
    assert!(!Value::Null.equals(&Value::Bool(false)));
    assert!(!Value::Int(0).equals(&Value::Null));
}

#[test]
fn value_equals_nested_lists() {
    let a = Value::List(vec![Value::Int(1), Value::List(vec![text("x"), Value::Null])]);
    let b = Value::List(vec![Value::Int(1), Value::List(vec![text("x"), Value::Null])]);
    let c = Value::List(vec![Value::Int(1), Value::List(vec![text("x"), Value::Bool(false)])]);
    let shorter = Value::List(vec![Value::Int(1)]);
    assert!(a.equals(&b));
    assert!(!a.equals(&c));
    assert!(!a.equals(&shorter));
    assert!(!a.equals(&Value::Int(1)));
}

#[test]
fn value_duplicate_is_structurally_equal() {
    let a = Value::List(vec![Value::Int(-3), text("k"), Value::List(vec![Value::Bool(true)])]);
    let d = a.duplicate();
    assert!(a.equals(&d));
    assert!(d.equals(&a));
}

#[test]
fn store_get_absent_is_none() {
    let store = KvStore::new();
    assert!(store.get(&text("missing")).is_none());
}

#[test]
fn store_insert_then_get() {
    let mut store = KvStore::new();
    store.insert(text("k"), Value::Int(5));
    let got = store.get(&text("k")).expect("key must be present");
    assert!(got.equals(&Value::Int(5)));
}

#[test]
fn store_insert_overwrites() {
    let mut store = KvStore::new();
    store.insert(text("k"), Value::Int(5));
    store.insert(text("k"), text("five"));
    let got = store.get(&text("k")).expect("key must be present");
    assert!(got.equals(&text("five")));
}

#[test]
fn store_cas_absent_key_not_found() {
    let mut store = KvStore::new();
    let r = store.compare_and_swap(&text("k"), &Value::Int(0), Value::Int(1));
    assert!(matches!(r, Err(CasError::KeyNotFound)));
    assert!(store.get(&text("k")).is_none());
}

#[test]
fn store_cas_mismatch_precondition_failed() {
    let mut store = KvStore::new();
    store.insert(text("k"), Value::Int(5));
    let r = store.compare_and_swap(&text("k"), &Value::Int(4), Value::Int(9));
    assert!(matches!(r, Err(CasError::PreconditionFailed)));
    let got = store.get(&text("k")).expect("key must be present");
    assert!(got.equals(&Value::Int(5)));
}

#[test]
fn store_cas_match_applies() {
    let mut store = KvStore::new();
    store.insert(text("k"), Value::Int(5));
    let r = store.compare_and_swap(&text("k"), &Value::Int(5), Value::Int(9));
    assert!(r.is_ok());
    let got = store.get(&text("k")).expect("key must be present");
    assert!(got.equals(&Value::Int(9)));
}

#[test]
fn store_cas_applies_at_most_once() {
    let mut store = KvStore::new();
    store.insert(text("k"), Value::Int(1));
    let first = store.compare_and_swap(&text("k"), &Value::Int(1), Value::Int(2));
    let second = store.compare_and_swap(&text("k"), &Value::Int(1), Value::Int(3));
    assert!(first.is_ok());
    assert!(matches!(second, Err(CasError::PreconditionFailed)));
    let got = store.get(&text("k")).expect("key must be present");
    assert!(got.equals(&Value::Int(2)));
}

#[test]
fn store_empty_text_key_works() {
    let mut store = KvStore::new();
    store.insert(text(""), Value::Int(1));
    assert!(store.get(&text("")).expect("present").equals(&Value::Int(1)));
    assert!(store.get(&text(" ")).is_none());
}

#[test]
fn store_cas_equal_expected_and_new_applies_repeatedly() {
    // With the new value equal to the expected one the swap leaves the store
    // unchanged, so a later identical swap finds its precondition again.
    let mut store = KvStore::new();
    store.insert(text("k"), Value::Int(1));
    assert!(store.compare_and_swap(&text("k"), &Value::Int(1), Value::Int(1)).is_ok());
    assert!(store.compare_and_swap(&text("k"), &Value::Int(1), Value::Int(1)).is_ok());
    assert!(store.get(&text("k")).expect("present").equals(&Value::Int(1)));
}

#[test]
fn store_keys_compare_structurally() {
    let mut store = KvStore::new();
    store.insert(Value::List(vec![Value::Int(1), Value::Int(2)]), text("a"));
    let same_key = Value::List(vec![Value::Int(1), Value::Int(2)]);
    let other_key = Value::List(vec![Value::Int(1), Value::Int(3)]);
    assert!(store.get(&same_key).expect("present").equals(&text("a")));
    assert!(store.get(&other_key).is_none());
}
