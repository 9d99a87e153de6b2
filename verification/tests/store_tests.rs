use user_store::store::UserStore;
use user_store::user::{CreateUser, UpdateUser};

fn create_req(name: &str, email: &str) -> CreateUser {
    CreateUser { name: String::from(name), email: String::from(email) }
}

fn update_req(name: &str, email: &str) -> UpdateUser {
    UpdateUser { name: String::from(name), email: String::from(email) }
}

#[test]
fn create_assigns_sequential_ids() {
    let mut store = UserStore::new();
    let a = store.create(create_req("alice", "a@x.com"));
    let b = store.create(create_req("bob", "b@x.com"));
    let c = store.create(create_req("carol", "c@x.com"));
    assert_eq!(a.id, 1);
    assert_eq!(b.id, 2);
    assert_eq!(c.id, 3);
    assert_ne!(a.id, b.id);
    assert_ne!(b.id, c.id);
}

#[test]
fn create_returns_given_fields() {
    let mut store = UserStore::new();
    let u = store.create(create_req("alice", "a@x.com"));
    assert_eq!(u.name, "alice");
    assert_eq!(u.email, "a@x.com");
    assert!(u.address.is_none());
}

#[test]
fn get_after_create_returns_same_fields() {
    let mut store = UserStore::new();
    let created = store.create(create_req("alice", "a@x.com"));
    let found = store.get(created.id).expect("created record must be found");
    assert_eq!(found.id, created.id);
    assert_eq!(found.name, "alice");
    assert_eq!(found.email, "a@x.com");
}

#[test]
fn get_missing_id_returns_none() {
    let mut store = UserStore::new();
    store.create(create_req("alice", "a@x.com"));
    assert!(store.get(42).is_none());
}

#[test]
fn update_existing_overwrites_fields() {
    let mut store = UserStore::new();
    let created = store.create(create_req("alice", "a@x.com"));
    let rows = store.update(created.id, update_req("alicia", "alicia@x.com"));
    assert_eq!(rows, 1);
    let found = store.get(created.id).expect("updated record must be found");
    assert_eq!(found.id, created.id);
    assert_eq!(found.name, "alicia");
    assert_eq!(found.email, "alicia@x.com");
}

#[test]
fn update_nonexistent_returns_zero_and_keeps_size() {
    let mut store = UserStore::new();
    store.create(create_req("alice", "a@x.com"));
    store.create(create_req("bob", "b@x.com"));
    let before = store.list().len();
    let rows = store.update(99, update_req("mallory", "m@x.com"));
    assert_eq!(rows, 0);
    assert_eq!(store.list().len(), before);
    let alice = store.get(1).expect("record 1 must remain");
    assert_eq!(alice.name, "alice");
}

#[test]
fn delete_then_get_yields_not_found() {
    let mut store = UserStore::new();
    let created = store.create(create_req("alice", "a@x.com"));
    let rows = store.delete(created.id);
    assert_eq!(rows, 1);
    assert!(store.get(created.id).is_none());
}

#[test]
fn delete_nonexistent_returns_zero() {
    let mut store = UserStore::new();
    store.create(create_req("alice", "a@x.com"));
    let rows = store.delete(7);
    assert_eq!(rows, 0);
    assert_eq!(store.list().len(), 1);
}

#[test]
fn list_length_tracks_creates_and_deletes() {
    let mut store = UserStore::new();
    assert_eq!(store.list().len(), 0);
    let a = store.create(create_req("alice", "a@x.com"));
    assert_eq!(store.list().len(), 1);
    let b = store.create(create_req("bob", "b@x.com"));
    assert_eq!(store.list().len(), 2);
    assert_eq!(store.delete(a.id), 1);
    assert_eq!(store.list().len(), 1);
    assert_eq!(store.delete(b.id), 1);
    assert_eq!(store.list().len(), 0);
}

#[test]
fn list_keeps_insertion_order() {
    let mut store = UserStore::new();
    store.create(create_req("alice", "a@x.com"));
    store.create(create_req("bob", "b@x.com"));
    store.create(create_req("carol", "c@x.com"));
    let snapshot = store.list();
    assert_eq!(snapshot.len(), 3);
    assert_eq!(snapshot[0].name, "alice");
    assert_eq!(snapshot[1].name, "bob");
    assert_eq!(snapshot[2].name, "carol");
}

#[test]
fn id_is_not_reused_after_delete() {
    let mut store = UserStore::new();
    let a = store.create(create_req("alice", "a@x.com"));
    let b = store.create(create_req("bob", "b@x.com"));
    assert_eq!(store.delete(b.id), 1);
    let c = store.create(create_req("carol", "c@x.com"));
    assert_ne!(c.id, a.id);
    assert_ne!(c.id, b.id);
    assert_eq!(c.id, 3);
}

#[test]
fn serialized_creates_receive_distinct_ids() {
    let mut store = UserStore::new();
    let mut ids = Vec::new();
    let mut i = 0;
    while i < 20 {
        let u = store.create(create_req("user", "u@x.com"));
        assert!(!ids.contains(&u.id));
        ids.push(u.id);
        i += 1;
    }
    assert_eq!(store.list().len(), 20);
}

#[test]
fn update_does_not_touch_other_records() {
    let mut store = UserStore::new();
    store.create(create_req("alice", "a@x.com"));
    store.create(create_req("bob", "b@x.com"));
    assert_eq!(store.update(2, update_req("robert", "r@x.com")), 1);
    let alice = store.get(1).expect("record 1 must remain");
    assert_eq!(alice.name, "alice");
    assert_eq!(alice.email, "a@x.com");
}
