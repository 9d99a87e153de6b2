use vstd::prelude::*;
use crate::json::{
    ascii_bytes, error_to_json, json_error, json_rows_affected, json_user, json_users, null_json,
    rows_affected_to_json, user_to_json, users_to_json,
};
use crate::store::views_of;
use crate::user::{InsertResponse, User};

verus! {

/// The status code for a successful operation.
pub const STATUS_OK: u16 = 200;

/// The status code reported when the store itself fails.
pub const STATUS_INTERNAL_SERVER_ERROR: u16 = 500;

impl InsertResponse {
    /// Serializes the confirmation as `{"rows_affected":<n>}`.
    pub fn to_json(&self) -> (r: Vec<u8>)
        ensures
            r@ == json_rows_affected(self.rows_affected as int),
    {
        rows_affected_to_json(self.rows_affected)
    }
}

/// Maps the outcome of a single-record lookup to an HTTP response: 200
/// with the record's JSON; 200 with `null` when no record matches; 500
/// with a JSON error object carrying the store's message when the store
/// failed.
pub fn user_response(outcome: Result<Option<User>, String>) -> (r: (u16, Vec<u8>))
    ensures
        (match outcome {
            Ok(Some(u)) => r.0 == STATUS_OK && r.1@ == json_user(u@),
            Ok(None) => r.0 == STATUS_OK && r.1@ == ascii_bytes("null"@),
            Err(msg) => r.0 == STATUS_INTERNAL_SERVER_ERROR && r.1@ == json_error(msg@),
        }),
{
    match outcome {
        Ok(Some(u)) => (STATUS_OK, user_to_json(&u)),
        Ok(None) => (STATUS_OK, null_json()),
        Err(msg) => (STATUS_INTERNAL_SERVER_ERROR, error_to_json(msg.as_str())),
    }
}

/// Maps the outcome of a list operation to an HTTP response: 200 with the
/// JSON array of all records; 500 with a JSON error object carrying the
/// store's message when the store failed.
pub fn users_response(outcome: Result<Vec<User>, String>) -> (r: (u16, Vec<u8>))
    ensures
        (match outcome {
            Ok(users) => r.0 == STATUS_OK && r.1@ == json_users(views_of(users@)),
            Err(msg) => r.0 == STATUS_INTERNAL_SERVER_ERROR && r.1@ == json_error(msg@),
        }),
{
    match outcome {
        Ok(users) => (STATUS_OK, users_to_json(&users)),
        Err(msg) => (STATUS_INTERNAL_SERVER_ERROR, error_to_json(msg.as_str())),
    }
}

/// Maps the outcome of a create, update or delete operation to an HTTP
/// response: 200 with a rows-affected confirmation; 500 with a JSON error
/// object carrying the store's message when the store failed.
pub fn mutation_response(outcome: Result<u64, String>) -> (r: (u16, Vec<u8>))
    ensures
        (match outcome {
            Ok(n) => r.0 == STATUS_OK && r.1@ == json_rows_affected(n as int),
            Err(msg) => r.0 == STATUS_INTERNAL_SERVER_ERROR && r.1@ == json_error(msg@),
        }),
{
    match outcome {
        Ok(n) => {
            let confirmation = InsertResponse { rows_affected: n };
            (STATUS_OK, confirmation.to_json())
        },
        Err(msg) => (STATUS_INTERNAL_SERVER_ERROR, error_to_json(msg.as_str())),
    }
}

} // verus!
