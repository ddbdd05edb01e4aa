use persistence::registry::{resolve, IntoPersistentId};
use persistence::PersistentId;

#[test]
fn resolve_is_deterministic() {
    let a = resolve("postgres.orders");
    let b = resolve("postgres.orders");
    assert_eq!(a, b);
    let again = String::from("postgres.orders").into_persistent_id();
    assert_eq!(a, again);
}

#[test]
fn distinct_names_get_distinct_ids() {
    let a = resolve("kafka.topic.a");
    let b = resolve("kafka.topic.b");
    assert_ne!(a, b);
    assert_ne!(resolve(""), resolve(" "));
}

#[test]
fn no_collision_over_large_corpus() {
    let mut ids: Vec<PersistentId> = Vec::new();
    for i in 0..20000u32 {
        ids.push(resolve(&format!("source-{}", i)));
        ids.push(resolve(&format!("operator/{}/state", i)));
    }
    ids.sort();
    for w in ids.windows(2) {
        assert_ne!(w[0], w[1]);
    }
}

#[test]
fn empty_name_is_accepted() {
    let a = resolve("");
    let b = String::new().into_persistent_id();
    assert_eq!(a, b);
}
