use monkey::environment::{Environment, Runtime};
use monkey::object::{HashKey, HashPair, HashPairs, Object, ObjectType};

#[test]
fn test_string_hash_key() {
    let hello1 = Object::String("Hello World".to_string());
    let hello2 = Object::String("Hello World".to_string());
    let diff1 = Object::String("My name is johnny".to_string());
    let diff2 = Object::String("My name is johnny".to_string());
    assert_eq!(hello1.hash_key(), hello2.hash_key());
    assert_eq!(diff1.hash_key(), diff2.hash_key());
    assert_ne!(hello1.hash_key(), diff1.hash_key());
}

#[test]
fn hash_keys_of_integers_and_booleans() {
    assert_eq!(Object::Integer(7).hash_key(), Ok(HashKey::new(ObjectType::Integer, 7)));
    assert_eq!(Object::Integer(-1).hash_key(), Ok(HashKey::new(ObjectType::Integer, u64::MAX)));
    assert_eq!(Object::Boolean(true).hash_key(), Ok(HashKey::new(ObjectType::Boolean, 1)));
    assert_eq!(Object::Boolean(false).hash_key(), Ok(HashKey::new(ObjectType::Boolean, 0)));
    assert_eq!(Object::Null.hash_key(), Err("unusable as hash key: NULL".to_string()));
    let key = HashKey::new(ObjectType::String, 3);
    assert_eq!(*key.object_type(), ObjectType::String);
    assert_eq!(key.value(), 3);
}

#[test]
fn a_later_insert_replaces_the_value_in_place() {
    let mut pairs = HashPairs::new();
    let one = Object::Integer(1).hash_key().unwrap();
    let two = Object::Integer(2).hash_key().unwrap();
    pairs.insert(one, HashPair::new(Object::Integer(1), Object::Integer(10)));
    pairs.insert(two, HashPair::new(Object::Integer(2), Object::Integer(20)));
    pairs.insert(one, HashPair::new(Object::Integer(1), Object::Integer(11)));
    assert_eq!(pairs.len(), 2);
    assert_eq!(pairs.get(&one).unwrap().value(), &Object::Integer(11));
    assert_eq!(pairs.get(&two).unwrap().key(), &Object::Integer(2));
    assert!(pairs.get(&Object::Integer(3).hash_key().unwrap()).is_none());
    assert_eq!(Object::Hash(pairs).inspect(), "{1: 11, 2: 20}");
}

#[test]
fn a_copy_is_equal_and_keeps_the_environment() {
    let mut runtime = Runtime::new();
    let env = runtime.add(Environment::new());
    let value = Object::Array(vec![Object::Integer(1), Object::String("a".to_string())]);
    assert_eq!(value.duplicate(), value);
    runtime.set(env, "v", value);
    assert_eq!(
        runtime.get(env, "v"),
        Some(Object::Array(vec![Object::Integer(1), Object::String("a".to_string())]))
    );
    assert_eq!(ObjectType::ReturnValue.name(), "RETURN_VALUE");
}
