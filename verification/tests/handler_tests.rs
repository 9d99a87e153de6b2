use user_store::handler::{
    mutation_response, user_response, users_response, STATUS_INTERNAL_SERVER_ERROR, STATUS_OK,
};
use user_store::store::UserStore;
use user_store::user::{CreateUser, User};

fn as_text(bytes: Vec<u8>) -> String {
    String::from_utf8(bytes).expect("body must be valid UTF-8")
}

#[test]
fn user_response_found_record() {
    let u = User {
        id: 1,
        name: String::from("alice"),
        email: String::from("a@x.com"),
        address: None,
    };
    let (status, body) = user_response(Ok(Some(u)));
    assert_eq!(status, STATUS_OK);
    assert_eq!(
        as_text(body),
        "{\"id\":1,\"name\":\"alice\",\"email\":\"a@x.com\",\"address\":null}"
    );
}

#[test]
fn user_response_missing_record_is_null() {
    let (status, body) = user_response(Ok(None));
    assert_eq!(status, STATUS_OK);
    assert_eq!(as_text(body), "null");
}

#[test]
fn user_response_store_error_reports_message() {
    let (status, body) = user_response(Err(String::from("disk gone")));
    assert_eq!(status, STATUS_INTERNAL_SERVER_ERROR);
    assert_eq!(as_text(body), "{\"error\":\"disk gone\"}");
}

#[test]
fn users_response_store_error_reports_message() {
    let (status, body) = users_response(Err(String::from("connection lost")));
    assert_eq!(status, STATUS_INTERNAL_SERVER_ERROR);
    assert_eq!(as_text(body), "{\"error\":\"connection lost\"}");
}

#[test]
fn mutation_response_reports_rows_affected() {
    let (status, body) = mutation_response(Ok(1));
    assert_eq!(status, STATUS_OK);
    assert_eq!(as_text(body), "{\"rows_affected\":1}");
}

#[test]
fn mutation_response_store_error_reports_message() {
    let (status, body) = mutation_response(Err(String::from("constraint violation")));
    assert_eq!(status, STATUS_INTERNAL_SERVER_ERROR);
    assert_eq!(as_text(body), "{\"error\":\"constraint violation\"}");
}

#[test]
fn scenario_post_then_list_shows_one_alice() {
    let mut store = UserStore::new();
    let created = store.create(CreateUser {
        name: String::from("alice"),
        email: String::from("a@x.com"),
    });
    let (status, body) = users_response(Ok(store.list()));
    assert_eq!(status, STATUS_OK);
    let parsed: serde_json::Value =
        serde_json::from_slice(&body).expect("body must parse as JSON");
    let arr = parsed.as_array().expect("body must be an array");
    assert_eq!(arr.len(), 1);
    assert_eq!(arr[0].get("name").and_then(|v| v.as_str()), Some("alice"));
    let id = arr[0].get("id").expect("record must carry an id");
    assert!(!id.is_null());
    assert_eq!(id.as_i64(), Some(created.id));
}

#[test]
fn scenario_delete_user_one_then_get_is_null() {
    let mut store = UserStore::new();
    let created = store.create(CreateUser {
        name: String::from("alice"),
        email: String::from("a@x.com"),
    });
    assert_eq!(created.id, 1);
    let (status, body) = mutation_response(Ok(store.delete(1)));
    assert_eq!(status, STATUS_OK);
    assert_eq!(as_text(body), "{\"rows_affected\":1}");
    let (status, body) = user_response(Ok(store.get(1)));
    assert_eq!(status, STATUS_OK);
    assert_eq!(as_text(body), "null");
}

#[test]
fn insert_response_to_json() {
    let confirmation = user_store::user::InsertResponse { rows_affected: 2 };
    assert_eq!(as_text(confirmation.to_json()), "{\"rows_affected\":2}");
}
