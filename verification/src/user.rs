use vstd::prelude::*;

verus! {

/// A user record as the store holds it. `id` is unique within a store and
/// immutable once assigned; `address` is optional extra data that the
/// operations never overwrite after creation.
pub struct User {
    pub id: i64,
    pub name: String,
    pub email: String,
    pub address: Option<String>,
}

/// The mathematical content of a `User`: its id and its character data.
pub ghost struct UserView {
    pub id: int,
    pub name: Seq<char>,
    pub email: Seq<char>,
    pub address: Option<Seq<char>>,
}

impl View for User {
    type V = UserView;

    open spec fn view(&self) -> UserView {
        UserView {
            id: self.id as int,
            name: self.name@,
            email: self.email@,
            address: match self.address {
                Some(a) => Some(a@),
                None => None,
            },
        }
    }
}

impl User {
    /// An owned copy with the same view; the store hands copies out so that
    /// callers never hold a reference into the shared collection.
    pub fn duplicate(&self) -> (r: User)
        ensures
            r@ == self@,
    {
        User {
            id: self.id,
            name: self.name.clone(),
            email: self.email.clone(),
            address: match &self.address {
                Some(a) => Some(a.clone()),
                None => None,
            },
        }
    }
}

/// Typed request shape for the create operation: the caller supplies the
/// name and email, the store assigns the id.
pub struct CreateUser {
    pub name: String,
    pub email: String,
}

/// Typed request shape for the update operation: the two mutable fields
/// that an update overwrites.
pub struct UpdateUser {
    pub name: String,
    pub email: String,
}

/// Confirmation of a mutating operation: how many records it touched.
pub struct InsertResponse {
    pub rows_affected: u64,
}

} // verus!
