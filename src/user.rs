use vstd::prelude::*;

use crate::clock::now_timestamp;
use crate::error::{ErrorView, ServiceError};

verus! {

/// A stored user. `password` holds the hash of the password, never the
/// password itself; times are seconds since the Unix epoch.
#[derive(Debug)]
pub struct User {
    pub id: u64,
    pub name: String,
    pub email: String,
    pub password: Vec<u8>,
    pub avatar_url: String,
    pub created_at: i64,
    pub updated_at: i64,
}

pub struct UserView {
    pub id: u64,
    pub name: Seq<char>,
    pub email: Seq<char>,
    pub password: Seq<u8>,
    pub avatar_url: Seq<char>,
    pub created_at: i64,
    pub updated_at: i64,
}

impl View for User {
    type V = UserView;

    open spec fn view(&self) -> UserView {
        UserView {
            id: self.id,
            name: self.name@,
            email: self.email@,
            password: self.password@,
            avatar_url: self.avatar_url@,
            created_at: self.created_at,
            updated_at: self.updated_at,
        }
    }
}

/// What callers see of a user: everything but the password hash.
#[derive(Debug)]
pub struct UserDTO {
    pub id: u64,
    pub name: String,
    pub email: String,
    pub avatar_url: String,
    pub created_at: i64,
    pub updated_at: i64,
}

pub struct UserDtoView {
    pub id: u64,
    pub name: Seq<char>,
    pub email: Seq<char>,
    pub avatar_url: Seq<char>,
    pub created_at: i64,
    pub updated_at: i64,
}

impl View for UserDTO {
    type V = UserDtoView;

    open spec fn view(&self) -> UserDtoView {
        UserDtoView {
            id: self.id,
            name: self.name@,
            email: self.email@,
            avatar_url: self.avatar_url@,
            created_at: self.created_at,
            updated_at: self.updated_at,
        }
    }
}

/// The projection of a user that leaves out the password hash.
pub open spec fn dto_of(u: UserView) -> UserDtoView {
    UserDtoView {
        id: u.id,
        name: u.name,
        email: u.email,
        avatar_url: u.avatar_url,
        created_at: u.created_at,
        updated_at: u.updated_at,
    }
}

impl User {
    /// The caller's view of this user.
    pub fn to_dto(&self) -> (r: UserDTO)
        ensures
            r@ == dto_of(self@),
    {
        UserDTO {
            id: self.id,
            name: self.name.clone(),
            email: self.email.clone(),
            avatar_url: self.avatar_url.clone(),
            created_at: self.created_at,
            updated_at: self.updated_at,
        }
    }
}

/// The mathematical value of a user table: its rows in insertion order and
/// the id that the next row gets.
pub struct UserTable {
    pub rows: Seq<UserView>,
    pub next_id: u64,
}

/// Some row has this id.
pub open spec fn has_id(rows: Seq<UserView>, id: u64) -> bool {
    exists|i: int| 0 <= i < rows.len() && #[trigger] rows[i].id == id
}

/// Some row has this email.
pub open spec fn has_email(rows: Seq<UserView>, email: Seq<char>) -> bool {
    exists|i: int| 0 <= i < rows.len() && #[trigger] rows[i].email == email
}

/// `u` is a freshly inserted row with these fields, created and updated at
/// the same moment.
pub open spec fn is_new_row(
    u: UserView,
    id: u64,
    name: Seq<char>,
    email: Seq<char>,
    password: Seq<u8>,
    avatar_url: Seq<char>,
) -> bool {
    &&& u.id == id
    &&& u.name == name
    &&& u.email == email
    &&& u.password == password
    &&& u.avatar_url == avatar_url
    &&& u.created_at == u.updated_at
}

/// `n` is `u` with the given fields replaced; a field given as `None` keeps
/// its value, and only the update time may change besides.
pub open spec fn is_patched(
    u: UserView,
    n: UserView,
    name: Option<Seq<char>>,
    password: Option<Seq<u8>>,
    avatar_url: Option<Seq<char>>,
) -> bool {
    &&& n.id == u.id
    &&& n.email == u.email
    &&& n.created_at == u.created_at
    &&& n.name == match name {
        Some(v) => v,
        None => u.name,
    }
    &&& n.password == match password {
        Some(v) => v,
        None => u.password,
    }
    &&& n.avatar_url == match avatar_url {
        Some(v) => v,
        None => u.avatar_url,
    }
}

/// The view of an optional text.
pub open spec fn opt_text(o: Option<String>) -> Option<Seq<char>> {
    match o {
        Some(v) => Some(v@),
        None => None,
    }
}

/// The view of optional bytes.
pub open spec fn opt_bytes(o: Option<Vec<u8>>) -> Option<Seq<u8>> {
    match o {
        Some(v) => Some(v@),
        None => None,
    }
}

/// The rows after removing the one with this id, and before updating it, line up.
pub open spec fn removed_row(old_rows: Seq<UserView>, new_rows: Seq<UserView>, id: u64) -> bool {
    exists|i: int| 0 <= i < old_rows.len() && #[trigger] old_rows[i].id == id && new_rows == old_rows.remove(i)
}

/// The relational table of users: ids and emails are unique.
pub struct UserStore {
    rows: Vec<User>,
    next_id: u64,
}

impl View for UserStore {
    type V = UserTable;

    closed spec fn view(&self) -> UserTable {
        UserTable { rows: self.rows@.map_values(|u: User| u@), next_id: self.next_id }
    }
}

impl UserStore {
    /// Ids and emails are unique, and every id is below the next one.
    pub closed spec fn wf(&self) -> bool {
        &&& forall|i: int, j: int|
            0 <= i < self.rows@.len() && 0 <= j < self.rows@.len() && i != j ==> #[trigger] self.rows@[i].id
                != #[trigger] self.rows@[j].id
        &&& forall|i: int, j: int|
            0 <= i < self.rows@.len() && 0 <= j < self.rows@.len() && i != j ==> (#[trigger] self.rows@[i]).email@
                != (#[trigger] self.rows@[j]).email@
        &&& forall|i: int| 0 <= i < self.rows@.len() ==> #[trigger] self.rows@[i].id < self.next_id
    }

    /// Ids and emails are unique.
    pub proof fn lemma_unique(&self, i: int, j: int)
        requires
            self.wf(),
            0 <= i < self@.rows.len(),
            0 <= j < self@.rows.len(),
            self@.rows[i].id == self@.rows[j].id || self@.rows[i].email == self@.rows[j].email,
        ensures
            i == j,
    {
        assert(self@.rows[i] == self.rows@[i]@);
        assert(self@.rows[j] == self.rows@[j]@);
    }

    /// An empty table whose first id is 1.
    pub fn new() -> (r: UserStore)
        ensures
            r.wf(),
            r@.rows == Seq::<UserView>::empty(),
            r@.next_id == 1,
    {
        let r = UserStore { rows: Vec::new(), next_id: 1 };
        assert(r@.rows =~= Seq::<UserView>::empty());
        r
    }

    /// The number of rows.
    pub fn len(&self) -> (r: usize)
        ensures
            r == self@.rows.len(),
    {
        self.rows.len()
    }

    /// The row at position `i`.
    pub fn row(&self, i: usize) -> (r: &User)
        requires
            i < self@.rows.len(),
        ensures
            r@ == self@.rows[i as int],
    {
        &self.rows[i]
    }

    /// The position of the row with this id.
    pub fn index_of_id(&self, id: u64) -> (r: Option<usize>)
        ensures
            match r {
                Some(i) => i < self@.rows.len() && self@.rows[i as int].id == id,
                None => !has_id(self@.rows, id),
            },
    {
        let mut i: usize = 0;
        while i < self.rows.len()
            invariant
                i <= self.rows@.len(),
                forall|j: int| 0 <= j < i ==> #[trigger] self.rows@[j].id != id,
            decreases self.rows@.len() - i,
        {
            if self.rows[i].id == id {
                return Some(i);
            }
            i = i + 1;
        }
        assert forall|j: int| 0 <= j < self@.rows.len() implies #[trigger] self@.rows[j].id != id by {
            assert(self@.rows[j] == self.rows@[j]@);
        }
        None
    }

    /// The position of the row with this email.
    pub fn index_of_email(&self, email: &str) -> (r: Option<usize>)
        ensures
            match r {
                Some(i) => i < self@.rows.len() && self@.rows[i as int].email == email@,
                None => !has_email(self@.rows, email@),
            },
    {
        let target = String::from_str(email);
        let mut i: usize = 0;
        while i < self.rows.len()
            invariant
                target@ == email@,
                i <= self.rows@.len(),
                forall|j: int| 0 <= j < i ==> #[trigger] self.rows@[j].email@ != email@,
            decreases self.rows@.len() - i,
        {
            if self.rows[i].email.eq(&target) {
                return Some(i);
            }
            i = i + 1;
        }
        assert forall|j: int| 0 <= j < self@.rows.len() implies #[trigger] self@.rows[j].email != email@ by {
            assert(self@.rows[j] == self.rows@[j]@);
        }
        None
    }

    /// Inserts a row under the next id. A taken email, or ids run out, is
    /// reported and changes nothing.
    pub fn insert(&mut self, name: String, email: String, password: Vec<u8>, avatar_url: String) -> (r: Result<
        u64,
        ServiceError,
    >)
        requires
            old(self).wf(),
        ensures
            final(self).wf(),
            r is Ok <==> (!has_email(old(self)@.rows, email@) && old(self)@.next_id < u64::MAX),
            match r {
                Ok(id) => {
                    &&& id == old(self)@.next_id
                    &&& !has_id(old(self)@.rows, id)
                    &&& final(self)@.next_id == id + 1
                    &&& final(self)@.rows.len() == old(self)@.rows.len() + 1
                    &&& final(self)@.rows.drop_last() == old(self)@.rows
                    &&& is_new_row(final(self)@.rows.last(), id, name@, email@, password@, avatar_url@)
                },
                Err(e) => e@ == ErrorView::QueryExecutionFailure && final(self)@ == old(self)@,
            },
    {
        if self.index_of_email(email.as_str()).is_some() || self.next_id == u64::MAX {
            return Err(ServiceError::QueryExecutionFailure);
        }
        let id = self.next_id;
        proof {
            if has_id(old(self)@.rows, id) {
                let j = choose|j: int| 0 <= j < old(self)@.rows.len() && #[trigger] old(self)@.rows[j].id == id;
                assert(old(self)@.rows[j] == old(self).rows@[j]@);
            }
        }
        let now = now_timestamp();
        self.rows.push(User { id, name, email, password, avatar_url, created_at: now, updated_at: now });
        self.next_id = id + 1;
        proof {
            let n = self.rows@.len() - 1;
            assert forall|i: int| 0 <= i < n implies #[trigger] self.rows@[i].email@ != self.rows@[n].email@ by {
                assert(self.rows@[i] == old(self).rows@[i]);
                assert(old(self)@.rows[i] == old(self).rows@[i]@);
                assert(old(self)@.rows[i].email != email@);
            }
            assert forall|i: int| 0 <= i < n implies #[trigger] self.rows@[i].id != self.rows@[n].id by {
                assert(old(self).rows@[i].id < id);
            }
            assert(self@.rows.drop_last() =~= old(self)@.rows);
        }
        Ok(id)
    }

    /// Removes the row with this id.
    pub fn remove(&mut self, id: u64) -> (r: Result<bool, ServiceError>)
        requires
            old(self).wf(),
        ensures
            final(self).wf(),
            final(self)@.next_id == old(self)@.next_id,
            r is Ok <==> has_id(old(self)@.rows, id),
            match r {
                Ok(b) => b && removed_row(old(self)@.rows, final(self)@.rows, id),
                Err(e) => e@ == ErrorView::NotFound(id) && final(self)@ == old(self)@,
            },
    {
        match self.index_of_id(id) {
            None => Err(ServiceError::NotFound(id)),
            Some(i) => {
                self.rows.remove(i);
                proof {
                    assert(self@.rows =~= old(self)@.rows.remove(i as int));
                    assert forall|a: int, b: int|
                        0 <= a < self.rows@.len() && 0 <= b < self.rows@.len() && a != b implies
                            #[trigger] self.rows@[a].id != #[trigger] self.rows@[b].id by {
                        let oa = if a < i { a } else { a + 1 };
                        let ob = if b < i { b } else { b + 1 };
                        assert(self.rows@[a] == old(self).rows@[oa]);
                        assert(self.rows@[b] == old(self).rows@[ob]);
                    }
                    assert forall|a: int, b: int|
                        0 <= a < self.rows@.len() && 0 <= b < self.rows@.len() && a != b implies
                            (#[trigger] self.rows@[a]).email@ != (#[trigger] self.rows@[b]).email@ by {
                        let oa = if a < i { a } else { a + 1 };
                        let ob = if b < i { b } else { b + 1 };
                        assert(self.rows@[a] == old(self).rows@[oa]);
                        assert(self.rows@[b] == old(self).rows@[ob]);
                    }
                    assert forall|a: int| 0 <= a < self.rows@.len() implies #[trigger] self.rows@[a].id < self.next_id by {
                        let oa = if a < i { a } else { a + 1 };
                        assert(self.rows@[a] == old(self).rows@[oa]);
                    }
                }
                Ok(true)
            },
        }
    }

    /// Replaces the given fields of the row with this id and stamps its
    /// update time.
    pub fn update(
        &mut self,
        id: u64,
        name: Option<String>,
        password: Option<Vec<u8>>,
        avatar_url: Option<String>,
    ) -> (r: Result<bool, ServiceError>)
        requires
            old(self).wf(),
        ensures
            final(self).wf(),
            final(self)@.next_id == old(self)@.next_id,
            r is Ok <==> has_id(old(self)@.rows, id),
            match r {
                Ok(b) => b && exists|i: int|
                    0 <= i < old(self)@.rows.len() && #[trigger] old(self)@.rows[i].id == id
                        && final(self)@.rows == old(self)@.rows.update(i, final(self)@.rows[i])
                        && is_patched(
                        old(self)@.rows[i],
                        final(self)@.rows[i],
                        opt_text(name),
                        opt_bytes(password),
                        opt_text(avatar_url),
                    ),
                Err(e) => e@ == ErrorView::NotFound(id) && final(self)@ == old(self)@,
            },
    {
        match self.index_of_id(id) {
            None => Err(ServiceError::NotFound(id)),
            Some(i) => {
                let ghost gname = opt_text(name);
                let ghost gpw = opt_bytes(password);
                let ghost gav = opt_text(avatar_url);
                let old_row = &self.rows[i];
                let new_name = match name {
                    Some(v) => v,
                    None => old_row.name.clone(),
                };
                let new_password = match password {
                    Some(v) => v,
                    None => self.rows[i].password.clone(),
                };
                let new_avatar = match avatar_url {
                    Some(v) => v,
                    None => self.rows[i].avatar_url.clone(),
                };
                let now = now_timestamp();
                let row = User {
                    id,
                    name: new_name,
                    email: self.rows[i].email.clone(),
                    password: new_password,
                    avatar_url: new_avatar,
                    created_at: self.rows[i].created_at,
                    updated_at: now,
                };
                self.rows.set(i, row);
                proof {
                    assert(self@.rows =~= old(self)@.rows.update(i as int, self@.rows[i as int]));
                    assert(is_patched(old(self)@.rows[i as int], self@.rows[i as int], gname, gpw, gav));
                    assert forall|a: int, b: int|
                        0 <= a < self.rows@.len() && 0 <= b < self.rows@.len() && a != b implies
                            #[trigger] self.rows@[a].id != #[trigger] self.rows@[b].id by {
                        assert(old(self).rows@[a].id != old(self).rows@[b].id);
                    }
                    assert forall|a: int, b: int|
                        0 <= a < self.rows@.len() && 0 <= b < self.rows@.len() && a != b implies
                            (#[trigger] self.rows@[a]).email@ != (#[trigger] self.rows@[b]).email@ by {
                        assert(old(self).rows@[a].email@ != old(self).rows@[b].email@);
                    }
                    assert forall|a: int| 0 <= a < self.rows@.len() implies #[trigger] self.rows@[a].id < self.next_id by {
                        assert(old(self).rows@[a].id < self.next_id);
                    }
                }
                Ok(true)
            },
        }
    }
}

/// A binding of a client's public key to a user.
#[derive(Debug)]
pub struct UserKey {
    pub user_id: u64,
    pub public_key: String,
}

pub struct UserKeyView {
    pub user_id: u64,
    pub public_key: Seq<char>,
}

impl View for UserKey {
    type V = UserKeyView;

    open spec fn view(&self) -> UserKeyView {
        UserKeyView { user_id: self.user_id, public_key: self.public_key@ }
    }
}

/// The relational table of key bindings, in insertion order.
pub struct UserKeyStore {
    keys: Vec<UserKey>,
}

impl View for UserKeyStore {
    type V = Seq<UserKeyView>;

    closed spec fn view(&self) -> Seq<UserKeyView> {
        self.keys@.map_values(|k: UserKey| k@)
    }
}

impl UserKeyStore {
    /// An empty table.
    pub fn new() -> (r: UserKeyStore)
        ensures
            r@ == Seq::<UserKeyView>::empty(),
    {
        let r = UserKeyStore { keys: Vec::new() };
        assert(r@ =~= Seq::<UserKeyView>::empty());
        r
    }

    /// The number of bindings.
    pub fn len(&self) -> (r: usize)
        ensures
            r == self@.len(),
    {
        self.keys.len()
    }

    /// The binding at position `i`.
    pub fn binding(&self, i: usize) -> (r: &UserKey)
        requires
            i < self@.len(),
        ensures
            r@ == self@[i as int],
    {
        &self.keys[i]
    }

    /// Binds `public_key` to the user `user_id`.
    pub fn create(&mut self, user_id: u64, public_key: &str) -> (r: Result<bool, ServiceError>)
        ensures
            r == Ok::<bool, ServiceError>(true),
            final(self)@ == old(self)@.push(UserKeyView { user_id, public_key: public_key@ }),
    {
        self.keys.push(UserKey { user_id, public_key: String::from_str(public_key) });
        assert(self@ =~= old(self)@.push(UserKeyView { user_id, public_key: public_key@ }));
        Ok(true)
    }
}

} // verus!
