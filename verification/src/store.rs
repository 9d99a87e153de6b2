use vstd::prelude::*;
use crate::user::{CreateUser, UpdateUser, User, UserView};

verus! {

/// True when no two records in `s` carry the same id.
pub open spec fn ids_unique(s: Seq<UserView>) -> bool {
    forall|i: int, j: int| 0 <= i < j < s.len() ==> s[i].id != s[j].id
}

/// True when every id in `s` lies in `1 .. bound`, i.e. strictly below the
/// next id the store will assign.
pub open spec fn ids_below(s: Seq<UserView>, bound: int) -> bool {
    forall|i: int| 0 <= i < s.len() ==> 1 <= #[trigger] s[i].id < bound
}

/// True when some record in `s` carries `id`.
pub open spec fn contains_id(s: Seq<UserView>, id: int) -> bool {
    exists|i: int| 0 <= i < s.len() && s[i].id == id
}

/// The views of the records in `v`, in order.
pub open spec fn views_of(v: Seq<User>) -> Seq<UserView> {
    v.map_values(|u: User| u@)
}

/// The authoritative collection of user records. Each operation runs under
/// exclusive access to the whole collection (the caller holds the store, or
/// a lock over it, for the operation's duration), so no operation observes
/// another's partial effect. Ids are assigned monotonically and never
/// reused, as a database auto-increment column behaves.
pub struct UserStore {
    users: Vec<User>,
    next_id: i64,
}

impl View for UserStore {
    type V = Seq<UserView>;

    closed spec fn view(&self) -> Seq<UserView> {
        views_of(self.users@)
    }
}

impl UserStore {
    /// The id the next create will assign.
    pub closed spec fn next_id(&self) -> int {
        self.next_id as int
    }

    /// The store's invariant: ids are unique and every assigned id lies
    /// strictly below the next one.
    pub open spec fn wf(&self) -> bool {
        &&& 1 <= self.next_id()
        &&& ids_below(self@, self.next_id())
        &&& ids_unique(self@)
    }

    /// Whether another id can still be assigned: the id counter has not
    /// yet reached its ceiling. Callers that cannot see the ghost counter
    /// test this before a create.
    pub fn has_capacity(&self) -> (r: bool)
        ensures
            r == (self.next_id() < i64::MAX),
    {
        self.next_id < i64::MAX
    }

    /// An empty store; the first created record receives id 1.
    pub fn new() -> (r: UserStore)
        ensures
            r.wf(),
            r@ =~= Seq::<UserView>::empty(),
            r.next_id() == 1,
    {
        UserStore { users: Vec::new(), next_id: 1 }
    }

    /// A snapshot of all records, in insertion order. No side effects.
    pub fn list(&self) -> (r: Vec<User>)
        ensures
            views_of(r@) =~= self@,
            r@.len() == self@.len(),
    {
        let mut out: Vec<User> = Vec::new();
        let mut i: usize = 0;
        while i < self.users.len()
            invariant
                i <= self.users.len(),
                out@.len() == i,
                forall|k: int| 0 <= k < i ==> out@[k]@ == self.users@[k]@,
            decreases self.users.len() - i,
        {
            out.push(self.users[i].duplicate());
            i += 1;
        }
        out
    }

    /// The record carrying `id`, as an owned copy, or `None` when no record
    /// matches. No side effects.
    pub fn get(&self, id: i64) -> (r: Option<User>)
        ensures
            (match r {
                Some(u) => contains_id(self@, id as int) && u@.id == id as int
                    && exists|k: int| 0 <= k < self@.len() && self@[k] == u@,
                None => !contains_id(self@, id as int),
            }),
    {
        let n = self.users.len();
        let mut i: usize = 0;
        while i < n
            invariant
                n == self.users@.len(),
                i <= n,
                forall|k: int| 0 <= k < i ==> self@[k].id != id as int,
            decreases n - i,
        {
            if self.users[i].id == id {
                proof {
                    assert(self@[i as int] == self.users@[i as int]@);
                    assert(contains_id(self@, id as int));
                }
                return Some(self.users[i].duplicate());
            }
            i += 1;
        }
        None
    }

    /// Allocates a fresh id, appends a record with the requested name and
    /// email, and returns a copy of the created record. The collection grows
    /// by exactly one, and the assigned id differs from the id of every
    /// record already present.
    pub fn create(&mut self, req: CreateUser) -> (r: User)
        requires
            old(self).wf(),
            old(self).next_id() < i64::MAX,
        ensures
            final(self).wf(),
            r@.id == old(self).next_id(),
            r@.name == req.name@,
            r@.email == req.email@,
            r@.address is None,
            !contains_id(old(self)@, r@.id),
            final(self)@ =~= old(self)@.push(r@),
            final(self)@.len() == old(self)@.len() + 1,
            final(self).next_id() == old(self).next_id() + 1,
    {
        let id = self.next_id;
        let stored = User {
            id,
            name: req.name.clone(),
            email: req.email.clone(),
            address: None,
        };
        let returned = User { id, name: req.name, email: req.email, address: None };
        self.users.push(stored);
        self.next_id = id + 1;
        proof {
            assert(self@ =~= old(self)@.push(returned@));
        }
        returned
    }

    /// Overwrites name and email of the record carrying `id` and reports one
    /// row affected; reports zero rows affected and leaves the collection
    /// unchanged when no record matches. The collection's size never changes.
    pub fn update(&mut self, id: i64, req: UpdateUser) -> (r: u64)
        requires
            old(self).wf(),
        ensures
            final(self).wf(),
            final(self).next_id() == old(self).next_id(),
            final(self)@.len() == old(self)@.len(),
            !contains_id(old(self)@, id as int) ==> r == 0 && final(self)@ =~= old(self)@,
            contains_id(old(self)@, id as int) ==> r == 1 && exists|k: int|
                0 <= k < old(self)@.len() && old(self)@[k].id == id as int && final(self)@ =~= old(
                    self,
                )@.update(
                    k,
                    (UserView {
                        id: id as int,
                        name: req.name@,
                        email: req.email@,
                        address: old(self)@[k].address,
                    }),
                ),
    {
        let n = self.users.len();
        let mut i: usize = 0;
        while i < n
            invariant
                old(self).wf(),
                *self == *old(self),
                n == self.users@.len(),
                i <= n,
                forall|k: int| 0 <= k < i ==> self@[k].id != id as int,
            decreases n - i,
        {
            if self.users[i].id == id {
                proof {
                    assert(old(self)@[i as int] == self.users@[i as int]@);
                    assert(contains_id(old(self)@, id as int));
                }
                let found = self.users.remove(i);
                let replaced = User {
                    id: found.id,
                    name: req.name.clone(),
                    email: req.email.clone(),
                    address: found.address,
                };
                self.users.insert(i, replaced);
                proof {
                    let ghost nv = UserView {
                        id: id as int,
                        name: req.name@,
                        email: req.email@,
                        address: old(self)@[i as int].address,
                    };
                    assert(self@ =~= old(self)@.update(i as int, nv));
                    assert forall|k: int|
                        0 <= k < self@.len() implies #[trigger] self@[k].id == old(
                        self,
                    )@[k].id by {}
                }
                return 1;
            }
            i += 1;
        }
        0
    }

    /// Removes the record carrying `id`, keeping the order of the others,
    /// and reports one row affected; reports zero rows affected and leaves
    /// the collection unchanged when no record matches.
    pub fn delete(&mut self, id: i64) -> (r: u64)
        requires
            old(self).wf(),
        ensures
            final(self).wf(),
            final(self).next_id() == old(self).next_id(),
            !contains_id(old(self)@, id as int) ==> r == 0 && final(self)@ =~= old(self)@,
            contains_id(old(self)@, id as int) ==> r == 1 && final(self)@.len() == old(self)@.len()
                - 1 && exists|k: int|
                0 <= k < old(self)@.len() && old(self)@[k].id == id as int && final(self)@ =~= old(
                    self,
                )@.remove(k),
    {
        let n = self.users.len();
        let mut i: usize = 0;
        while i < n
            invariant
                old(self).wf(),
                *self == *old(self),
                n == self.users@.len(),
                i <= n,
                forall|k: int| 0 <= k < i ==> self@[k].id != id as int,
            decreases n - i,
        {
            if self.users[i].id == id {
                proof {
                    assert(old(self)@[i as int] == self.users@[i as int]@);
                    assert(contains_id(old(self)@, id as int));
                }
                self.users.remove(i);
                proof {
                    assert(self@ =~= old(self)@.remove(i as int));
                    assert forall|k: int|
                        0 <= k < self@.len() implies 1 <= #[trigger] self@[k].id < old(
                        self,
                    ).next_id() by {
                        if k < i {
                            assert(self@[k] == old(self)@[k]);
                        } else {
                            assert(self@[k] == old(self)@[k + 1]);
                        }
                    }
                }
                return 1;
            }
            i += 1;
        }
        0
    }
}

/// Law: a record created with the store's next id carries an id that no
/// record still present carries, and the id bound is restored for the id
/// after it. Every operation runs under exclusive access to the whole
/// collection, so creations — concurrent ones included — are serialized,
/// and by this law each of them receives a distinct, fresh id.
pub proof fn lemma_create_id_fresh(s: Seq<UserView>, bound: int, u: UserView)
    requires
        ids_unique(s),
        ids_below(s, bound),
        1 <= bound,
        u.id == bound,
    ensures
        !contains_id(s, u.id),
        ids_unique(s.push(u)),
        ids_below(s.push(u), bound + 1),
{
    assert forall|i: int, j: int|
        0 <= i < j < s.push(u).len() implies s.push(u)[i].id != s.push(u)[j].id by {
        if j < s.len() {
            assert(s.push(u)[i] == s[i]);
            assert(s.push(u)[j] == s[j]);
        } else {
            assert(s.push(u)[i] == s[i]);
            assert(s.push(u)[j] == u);
            assert(s[i].id < bound);
        }
    }
    assert forall|i: int|
        0 <= i < s.push(u).len() implies 1 <= #[trigger] s.push(u)[i].id < bound + 1 by {
        if i < s.len() {
            assert(s.push(u)[i] == s[i]);
            assert(1 <= s[i].id < bound);
        } else {
            assert(s.push(u)[i] == u);
        }
    }
}

/// Law: after a creation appends record `u` under a fresh id, a lookup of
/// that id finds a record, and every record carrying it is `u` itself —
/// same name, same email.
pub proof fn lemma_get_after_create(s: Seq<UserView>, u: UserView)
    requires
        !contains_id(s, u.id),
    ensures
        contains_id(s.push(u), u.id),
        forall|k: int|
            0 <= k < s.push(u).len() && #[trigger] s.push(u)[k].id == u.id ==> s.push(u)[k] == u,
{
    assert(s.push(u)[s.len() as int] == u);
    assert forall|k: int|
        0 <= k < s.push(u).len() && #[trigger] s.push(u)[k].id == u.id implies s.push(u)[k]
        == u by {
        if k < s.len() {
            assert(s.push(u)[k] == s[k]);
        }
    }
}

/// Law: a deletion removes the only record carrying its id, so a lookup of
/// that id in the shrunken collection reports not-found.
pub proof fn lemma_get_after_delete(s: Seq<UserView>, k: int)
    requires
        ids_unique(s),
        0 <= k < s.len(),
    ensures
        !contains_id(s.remove(k), s[k].id),
{
    assert forall|j: int| 0 <= j < s.remove(k).len() implies s.remove(k)[j].id != s[k].id by {
        if j < k {
            assert(s.remove(k)[j] == s[j]);
            assert(s[j].id != s[k].id);
        } else {
            assert(s.remove(k)[j] == s[j + 1]);
            assert(s[j + 1].id != s[k].id);
        }
    }
}

/// In a run of create operations, the counter advances by exactly one per
/// operation, so between the `i`-th and the `j`-th it has advanced by
/// `j - i`.
proof fn lemma_counter_advances(ids: Seq<int>, counters: Seq<int>, i: int, j: int)
    requires
        counters.len() == ids.len() + 1,
        forall|k: int|
            0 <= k < ids.len() ==> #[trigger] ids[k] == counters[k] && counters[k + 1]
                == counters[k] + 1,
        0 <= i <= j <= ids.len(),
    ensures
        counters[j] == counters[i] + (j - i),
    decreases j - i,
{
    if i < j {
        lemma_counter_advances(ids, counters, i, j - 1);
        assert(ids[j - 1] == counters[j - 1]);
    }
}

/// Law: in any serialized run of create operations — and every run is
/// serialized, because each operation holds exclusive access to the whole
/// collection for its duration — the assigned ids are pairwise distinct.
/// Here `ids[k]` is the id the `k`-th create returned and `counters[k]`
/// the store's next id before it ran: each create returns the counter's
/// value and advances it by one, exactly as `create`'s contract states,
/// so the assigned ids strictly increase in run order.
pub proof fn lemma_serialized_creates_distinct(ids: Seq<int>, counters: Seq<int>)
    requires
        counters.len() == ids.len() + 1,
        forall|k: int|
            0 <= k < ids.len() ==> #[trigger] ids[k] == counters[k] && counters[k + 1]
                == counters[k] + 1,
    ensures
        forall|i: int, j: int| 0 <= i < j < ids.len() ==> ids[i] != ids[j],
{
    assert forall|i: int, j: int| 0 <= i < j < ids.len() implies ids[i] != ids[j] by {
        lemma_counter_advances(ids, counters, i, j);
        assert(ids[i] == counters[i]);
        assert(ids[j] == counters[j]);
    }
}

} // verus!
