use sled_orm::codec::Value;
use sled_orm::tx::TxError;
use sled_orm::Connection;

fn fresh_db(name: &str) -> String {
    let nanos = std::time::SystemTime::now()
        .duration_since(std::time::UNIX_EPOCH)
        .unwrap()
        .as_nanos();
    format!("/tmp/sled_orm_tests/{}_{}", name, nanos)
}

fn user(name: &str, email: &str, age: u64) -> Value {
    Value::Pair(
        Box::new(Value::Pair(
            Box::new(Value::Bytes(name.as_bytes().to_vec())),
            Box::new(Value::Bytes(email.as_bytes().to_vec())),
        )),
        Box::new(Value::U64(age)),
    )
}

fn user_age(v: &Value) -> u64 {
    match v {
        Value::Pair(_, age) => match age.as_ref() {
            Value::U64(a) => *a,
            _ => panic!("age field is not a number"),
        },
        _ => panic!("value is not a user record"),
    }
}

fn user_name(v: &Value) -> Vec<u8> {
    match v {
        Value::Pair(fields, _) => match fields.as_ref() {
            Value::Pair(name, _) => match name.as_ref() {
                Value::Bytes(n) => n.clone(),
                _ => panic!("name field is not a byte string"),
            },
            _ => panic!("value is not a user record"),
        },
        _ => panic!("value is not a user record"),
    }
}

#[test]
fn test_connection() {
    let path = fresh_db("test_db_connection");
    let conn = Connection::new(&path).expect("connection should open");
    let orm = conn.get_orm();
    let mut tree = orm.tree("test_connection").expect("tree should open");
    tree.insert(b"key", &Value::Bytes(b"value".to_vec()))
        .expect("insert should succeed");
    let got = tree.get(b"key").expect("get should succeed");
    assert_eq!(got, Some(Value::Bytes(b"value".to_vec())));
}

#[test]
fn test_orm_and_trees() {
    let path = fresh_db("test_db_orm");
    let conn = Connection::new(&path).expect("connection should open");
    let orm = conn.get_orm();
    let mut users = orm.tree("users").expect("users tree should open");
    let mut products = orm.tree("products").expect("products tree should open");
    users
        .insert(b"u", &Value::U64(1))
        .expect("insert into users should succeed");
    products
        .insert(b"p", &Value::U64(2))
        .expect("insert into products should succeed");
    assert_eq!(users.get(b"u").unwrap(), Some(Value::U64(1)));
    assert_eq!(products.get(b"p").unwrap(), Some(Value::U64(2)));
    assert_eq!(users.get(b"p").unwrap(), None);
}

#[test]
fn test_crud_operations() {
    let path = fresh_db("test_db_crud");
    let conn = Connection::new(&path).expect("connection should open");
    let orm = conn.get_orm();
    let mut users = orm.tree("users").expect("tree should open");

    let alice = user("Alice", "alice@example.com", 25);
    users.insert(b"user_1", &alice).expect("insert should succeed");

    let got = users.get(b"user_1").expect("get should succeed");
    let got = got.expect("user should exist");
    assert_eq!(user_age(&got), 25);
    assert_eq!(user_name(&got), b"Alice".to_vec());

    assert_eq!(users.get(b"non_existent").expect("get should succeed"), None);

    let alice_older = user("Alice", "alice@example.com", 26);
    users
        .update(b"user_1", &alice_older)
        .expect("update should succeed");
    let got = users
        .get(b"user_1")
        .expect("get should succeed")
        .expect("user should exist after update");
    assert_eq!(user_age(&got), 26);

    users.delete(b"user_1").expect("delete should succeed");
    assert_eq!(users.get(b"user_1").expect("get should succeed"), None);
}

#[test]
fn test_find_operations() {
    let path = fresh_db("test_db_find");
    let conn = Connection::new(&path).expect("connection should open");
    let orm = conn.get_orm();
    let mut users = orm.tree("users").expect("tree should open");

    users
        .insert(b"user_1", &user("Alice", "alice@example.com", 25))
        .unwrap();
    users
        .insert(b"user_2", &user("Bob", "bob@example.com", 30))
        .unwrap();
    users
        .insert(b"user_3", &user("Charlie", "charlie@example.com", 22))
        .unwrap();
    users
        .insert(b"user_4", &user("Diana", "diana@example.com", 35))
        .unwrap();

    let young = users
        .find(|v: &Value| user_age(v) < 30)
        .expect("find should succeed");
    assert_eq!(young.len(), 2);
    assert!(young.iter().all(|v| user_age(v) < 30));

    let alices = users
        .find(|v: &Value| user_name(v) == b"Alice".to_vec())
        .expect("find should succeed");
    assert_eq!(alices.len(), 1);
    assert_eq!(user_age(&alices[0]), 25);

    let everyone = users.all().expect("all should succeed");
    assert_eq!(everyone.len(), 4);
}

#[test]
fn test_serialization() {
    let path = fresh_db("test_db_serialization");
    let conn = Connection::new(&path).expect("connection should open");
    let orm = conn.get_orm();
    let mut tree = orm.tree("serialization").expect("tree should open");

    let items: Vec<(&[u8], Value)> = vec![
        (b"string", Value::Bytes(b"hello world".to_vec())),
        (b"number", Value::U64(42)),
        (b"signed", Value::I64(-42)),
        (b"boolean", Value::Bool(true)),
        (b"vector", Value::Bytes(vec![1, 2, 3])),
        (b"array", Value::Bytes(vec![4, 5, 6])),
        (
            b"tuple",
            Value::Pair(
                Box::new(Value::U64(1)),
                Box::new(Value::Bytes(b"two".to_vec())),
            ),
        ),
    ];
    for (key, value) in &items {
        tree.insert(key, value).expect("insert should succeed");
    }
    for (key, value) in &items {
        let got = tree
            .get(key)
            .expect("get should succeed")
            .expect("item should exist");
        assert_eq!(&got, value);
    }
}

#[test]
fn test_transactions() {
    let path = fresh_db("test_db_transactions");
    let conn = Connection::new(&path).expect("connection should open");
    let orm = conn.get_orm();
    let mut tree = orm.tree("transactions").expect("tree should open");

    let r: Result<u64, TxError<String>> = tree.transaction(|w| {
        let (w, r) = w.insert(b"test_key", &Value::Bytes(b"test_value".to_vec()));
        match r {
            Ok(()) => (w, Ok(7)),
            Err(e) => (w, Err(e)),
        }
    });
    assert_eq!(r.ok(), Some(7));
    assert_eq!(
        tree.get(b"test_key").expect("get should succeed"),
        Some(Value::Bytes(b"test_value".to_vec()))
    );
}

#[test]
fn test_performance() {
    let path = fresh_db("test_db_performance");
    let conn = Connection::new(&path).expect("connection should open");
    let orm = conn.get_orm();
    let mut tree = orm.tree("performance").expect("tree should open");

    let total: usize = 1000;
    for i in 0..total {
        let key = format!("key_{:04}", i);
        let value = Value::Bytes(format!("value_{}", i).into_bytes());
        tree.insert(key.as_bytes(), &value)
            .expect("insert should succeed");
    }
    for i in 0..total {
        let key = format!("key_{:04}", i);
        let got = tree
            .get(key.as_bytes())
            .expect("get should succeed")
            .expect("item should exist");
        assert_eq!(got, Value::Bytes(format!("value_{}", i).into_bytes()));
    }
    assert_eq!(tree.all().expect("all should succeed").len(), total);
}

#[test]
fn test_stress() {
    let path = fresh_db("test_db_stress");
    let conn = Connection::new(&path).expect("connection should open");
    let orm = conn.get_orm();
    let names = ["users", "products", "orders", "logs", "config"];
    for name in names {
        let mut tree = orm.tree(name).expect("tree should open");
        for i in 0..100u64 {
            let key = format!("{}_{}", name, i);
            let value = Value::Bytes(format!("value_{}_{}", name, i).into_bytes());
            tree.insert(key.as_bytes(), &value)
                .expect("insert should succeed");
        }
        for i in 0..100u64 {
            let key = format!("{}_{}", name, i);
            let got = tree
                .get(key.as_bytes())
                .expect("get should succeed")
                .expect("item should exist");
            assert_eq!(
                got,
                Value::Bytes(format!("value_{}_{}", name, i).into_bytes())
            );
        }
    }
}
