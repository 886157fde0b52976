//! The credential store and the project resource store, held in plain
//! in-memory structures. Accounts are keyed by email (exactly one account per
//! email), projects by an immutable id; project updates are guarded by an
//! optimistic-concurrency check on `last_updated`.

use vstd::prelude::*;
use vstd::string::StringExecFns;
use crate::crypto::hash_wf;
use crate::crypto::verifies;
use crate::crypto::parse_hash_ok;
use crate::crypto::verify_password;
use crate::crypto::hash_password;
use crate::crypto::MAX_HASH_PASSWORD_CHARS;
use crate::errors::StoreError;
use crate::ids::fresh_id;

verus! {

/// One stored account: the email is the identity, `password` holds the
/// salted PHC hash string, never the plaintext.
#[derive(Debug)]
pub struct Account {
    pub email: String,
    pub password: String,
}

/// One stored project. `id`, `user_email` and `created_at` are immutable
/// after creation; `last_updated` strictly advances on every successful
/// update and is the reference for the optimistic-concurrency check.
#[derive(Debug)]
pub struct Project {
    pub id: u128,
    pub user_email: String,
    pub name: String,
    pub description: Option<String>,
    pub created_at: u64,
    pub last_updated: u64,
}

impl Clone for Project {
    fn clone(&self) -> (r: Self)
        ensures
            r == *self,
    {
        let description = match &self.description {
            Some(d) => Some(d.clone()),
            None => None,
        };
        Project {
            id: self.id,
            user_email: self.user_email.clone(),
            name: self.name.clone(),
            description,
            created_at: self.created_at,
            last_updated: self.last_updated,
        }
    }
}

/// A patch for a project: only the fields that are present are applied;
/// `update_timestamp` must equal the persisted `last_updated`.
#[derive(Debug)]
pub struct UpdateProject {
    pub name: Option<String>,
    pub description: Option<String>,
    pub update_timestamp: u64,
}

/// The store owning all account and project records.
#[derive(Debug)]
pub struct Store {
    pub accounts: Vec<Account>,
    pub projects: Vec<Project>,
}

/// Whether some stored account has this email.
pub open spec fn has_email(accs: Seq<Account>, email: Seq<char>) -> bool {
    exists|i: int| 0 <= i < accs.len() && accs[i].email@ == email
}

/// The index of the account with this email (meaningful when one exists and
/// emails are unique).
pub open spec fn account_index(accs: Seq<Account>, email: Seq<char>) -> int {
    choose|i: int| 0 <= i < accs.len() && accs[i].email@ == email
}

/// The hash stored for this email.
pub open spec fn stored_hash(accs: Seq<Account>, email: Seq<char>) -> Seq<char> {
    accs[account_index(accs, email)].password@
}

/// Exactly one account per email.
pub open spec fn emails_unique(accs: Seq<Account>) -> bool {
    forall|i: int, j: int|
        0 <= i < j < accs.len() ==> accs[i].email@ != accs[j].email@
}

/// Whether some stored project has this id.
pub open spec fn has_project(ps: Seq<Project>, id: u128) -> bool {
    exists|i: int| 0 <= i < ps.len() && ps[i].id == id
}

/// The index of the project with this id (meaningful when one exists and
/// ids are unique).
pub open spec fn project_index(ps: Seq<Project>, id: u128) -> int {
    choose|i: int| 0 <= i < ps.len() && ps[i].id == id
}

/// The project stored under this id.
pub open spec fn stored_project(ps: Seq<Project>, id: u128) -> Project {
    ps[project_index(ps, id)]
}

/// Exactly one project per id.
pub open spec fn ids_unique(ps: Seq<Project>) -> bool {
    forall|i: int, j: int| 0 <= i < j < ps.len() ==> ps[i].id != ps[j].id
}

/// Every project's `last_updated` is at or after its `created_at`.
pub open spec fn timestamps_ordered(ps: Seq<Project>) -> bool {
    forall|i: int| 0 <= i < ps.len() ==> ps[i].last_updated >= ps[i].created_at
}

/// The outcome `authenticate_user` owes for a given store state: not-found,
/// malformed stored hash, incorrect password, or success, in that order of
/// discrimination.
pub open spec fn spec_authenticate(
    accs: Seq<Account>,
    email: Seq<char>,
    password: Seq<char>,
) -> Result<bool, StoreError> {
    if !has_email(accs, email) {
        Err(StoreError::UserNotFound)
    } else if !hash_wf(stored_hash(accs, email)) {
        Err(StoreError::MalformedStoreHash)
    } else if verifies(password, stored_hash(accs, email)) {
        Ok(true)
    } else {
        Err(StoreError::IncorrectPassword)
    }
}

impl Store {
    /// The store's invariant: unique emails, unique project ids, ordered
    /// project timestamps.
    pub open spec fn wf(self) -> bool {
        &&& emails_unique(self.accounts@)
        &&& ids_unique(self.projects@)
        &&& timestamps_ordered(self.projects@)
    }

    /// An empty store.
    pub fn new() -> (r: Store)
        ensures
            r.wf(),
            r.accounts@.len() == 0,
            r.projects@.len() == 0,
    {
        Store { accounts: Vec::new(), projects: Vec::new() }
    }

    /// Finds the position of the account with this email, if any.
    fn find_account(&self, email: &String) -> (r: Option<usize>)
        ensures
            match r {
                Some(i) => i < self.accounts@.len()
                    && self.accounts@[i as int].email@ == email@,
                None => !has_email(self.accounts@, email@),
            },
    {
        let mut i: usize = 0;
        while i < self.accounts.len()
            invariant
                i <= self.accounts@.len(),
                forall|j: int| 0 <= j < i ==> self.accounts@[j].email@ != email@,
            decreases self.accounts@.len() - i,
        {
            if self.accounts[i].email == *email {
                return Some(i);
            }
            i += 1;
        }
        None
    }

    /// Authenticates a user against the stored hash. Fails with
    /// `UserNotFound` when no account matches, `MalformedStoreHash` when the
    /// stored hash cannot be parsed (data corruption, distinguished from a
    /// wrong password), `IncorrectPassword` when verification fails;
    /// succeeds otherwise.
    pub fn authenticate_user(&self, username: &str, password: &str) -> (r: Result<
        bool,
        StoreError,
    >)
        requires
            self.wf(),
        ensures
            r == spec_authenticate(self.accounts@, username@, password@),
    {
        let needle = String::from_str(username);
        match self.find_account(&needle) {
            None => Err(StoreError::UserNotFound),
            Some(i) => {
                proof {
                    let k = account_index(self.accounts@, username@);
                    assert(0 <= k < self.accounts@.len()
                        && self.accounts@[k].email@ == username@);
                    assert(k == i);
                }
                let hashed = &self.accounts[i].password;
                if !parse_hash_ok(hashed.as_str()) {
                    Err(StoreError::MalformedStoreHash)
                } else if verify_password(password, hashed.as_str()) {
                    Ok(true)
                } else {
                    Err(StoreError::IncorrectPassword)
                }
            },
        }
    }

    /// Registers a new account. Fails with `DuplicateAccount` exactly when
    /// an account with this email already exists (never overwriting it);
    /// otherwise stores the email with a freshly salted hash of the
    /// password, and is owed to succeed for any password within the
    /// hashing length cap. The plaintext password is never stored.
    pub fn register_user(&mut self, username: &str, password: &str) -> (r: Result<
        (),
        StoreError,
    >)
        requires
            old(self).wf(),
        ensures
            final(self).wf(),
            final(self).projects@ == old(self).projects@,
            (r matches Err(e) && e == StoreError::DuplicateAccount) <==> has_email(
                old(self).accounts@,
                username@,
            ),
            r matches Err(_) ==> final(self).accounts@ == old(self).accounts@,
            r matches Err(e) ==> (e == StoreError::DuplicateAccount || e
                == StoreError::HashError),
            (!has_email(old(self).accounts@, username@) && password@.len()
                <= MAX_HASH_PASSWORD_CHARS) ==> r is Ok,
            r matches Ok(_) ==> {
                &&& final(self).accounts@.len() == old(self).accounts@.len() + 1
                &&& final(self).accounts@.subrange(0, old(self).accounts@.len() as int)
                    == old(self).accounts@
                &&& final(self).accounts@.last().email@ == username@
                &&& hash_wf(final(self).accounts@.last().password@)
                &&& verifies(password@, final(self).accounts@.last().password@)
                &&& has_email(final(self).accounts@, username@)
            },
    {
        let needle = String::from_str(username);
        if let Some(_) = self.find_account(&needle) {
            return Err(StoreError::DuplicateAccount);
        }
        let hashed = match hash_password(password) {
            Ok(h) => h,
            Err(e) => {
                return Err(e);
            },
        };
        self.accounts.push(Account { email: needle, password: hashed });
        proof {
            let accs = final(self).accounts@;
            let n = old(self).accounts@.len() as int;
            assert(accs.subrange(0, n) =~= old(self).accounts@);
            assert(accs[n].email@ == username@);
            assert(emails_unique(accs)) by {
                assert(forall|i: int, j: int|
                    0 <= i < j < accs.len() && j < n ==> accs[i].email@ != accs[j].email@);
                assert(forall|i: int| 0 <= i < n ==> accs[i] == old(self).accounts@[i]);
                assert(forall|i: int| 0 <= i < n ==> accs[i].email@ != username@);
            }
        }
        Ok(())
    }

    /// Finds the position of the project with this id, if any.
    fn find_project(&self, id: u128) -> (r: Option<usize>)
        ensures
            match r {
                Some(i) => i < self.projects@.len() && self.projects@[i as int].id == id,
                None => !has_project(self.projects@, id),
            },
    {
        let mut i: usize = 0;
        while i < self.projects.len()
            invariant
                i <= self.projects@.len(),
                forall|j: int| 0 <= j < i ==> self.projects@[j].id != id,
            decreases self.projects@.len() - i,
        {
            if self.projects[i].id == id {
                return Some(i);
            }
            i += 1;
        }
        None
    }

    /// Inserts a project under a caller-supplied id: succeeds exactly when
    /// no project has that id yet, storing it owned by `user_email` with
    /// `created_at == last_updated == now` and returning the stored record;
    /// a taken id is refused with nothing changed.
    pub fn insert_project_with_id(
        &mut self,
        id: u128,
        user_email: String,
        name: String,
        description: Option<String>,
        now: u64,
    ) -> (r: Result<Project, StoreError>)
        requires
            old(self).wf(),
        ensures
            final(self).wf(),
            final(self).accounts@ == old(self).accounts@,
            r is Ok <==> !has_project(old(self).projects@, id),
            r matches Err(e) ==> e == StoreError::FailedProjectCreation && final(self).projects@
                == old(self).projects@,
            r matches Ok(p) ==> {
                &&& p.id == id
                &&& p.user_email == user_email
                &&& p.name == name
                &&& p.description == description
                &&& p.created_at == now
                &&& p.last_updated == now
                &&& final(self).projects@ == old(self).projects@.push(p)
            },
    {
        if let Some(_) = self.find_project(id) {
            return Err(StoreError::FailedProjectCreation);
        }
        let p = Project {
            id,
            user_email,
            name,
            description,
            created_at: now,
            last_updated: now,
        };
        let ret = p.clone();
        self.projects.push(p);
        proof {
            let ps = final(self).projects@;
            let n = old(self).projects@.len() as int;
            assert(forall|i: int| 0 <= i < n ==> ps[i] == old(self).projects@[i]);
            assert(forall|i: int| 0 <= i < n ==> ps[i].id != id);
        }
        Ok(ret)
    }

    /// Creates a project owned by `user_email`, with a freshly drawn id and
    /// `created_at == last_updated == now`, and returns the stored record.
    /// The id is random, so only this call site cannot owe success: it
    /// succeeds exactly when the drawn id is fresh, which
    /// `insert_project_with_id` states.
    pub fn create_project(
        &mut self,
        user_email: String,
        name: String,
        description: Option<String>,
        now: u64,
    ) -> (r: Result<Project, StoreError>)
        requires
            old(self).wf(),
        ensures
            final(self).wf(),
            final(self).accounts@ == old(self).accounts@,
            r matches Err(e) ==> e == StoreError::FailedProjectCreation && final(self).projects@
                == old(self).projects@,
            r matches Ok(p) ==> {
                &&& !has_project(old(self).projects@, p.id)
                &&& p.user_email == user_email
                &&& p.name == name
                &&& p.description == description
                &&& p.created_at == now
                &&& p.last_updated == now
                &&& final(self).projects@ == old(self).projects@.push(p)
            },
    {
        let id = fresh_id();
        self.insert_project_with_id(id, user_email, name, description, now)
    }

    /// Returns every stored project, in storage order. The listing is not
    /// scoped to an owner: any authenticated principal sees all projects.
    pub fn list_projects(&self) -> (r: Vec<Project>)
        ensures
            r@ == self.projects@,
    {
        let mut r: Vec<Project> = Vec::new();
        let mut i: usize = 0;
        while i < self.projects.len()
            invariant
                i <= self.projects@.len(),
                r@ =~= self.projects@.subrange(0, i as int),
            decreases self.projects@.len() - i,
        {
            r.push(self.projects[i].clone());
            i += 1;
        }
        proof {
            assert(r@ =~= self.projects@);
        }
        r
    }

    /// Point lookup: the stored project under this id, or `ProjectNotFound`.
    pub fn get_project_by_id(&self, id: u128) -> (r: Result<Project, StoreError>)
        requires
            self.wf(),
        ensures
            r == spec_get(self.projects@, id),
    {
        match self.find_project(id) {
            None => Err(StoreError::ProjectNotFound),
            Some(i) => {
                proof {
                    lemma_project_index_agrees(self.projects@, id, i as int);
                }
                Ok(self.projects[i].clone())
            },
        }
    }

    /// Applies a patch under the optimistic-concurrency rule: fails with
    /// `ProjectNotFound` when no project has this id, with `Conflict` when
    /// the patch's `update_timestamp` does not equal the persisted
    /// `last_updated`; otherwise applies exactly the fields present in the
    /// patch, strictly advances `last_updated`, and returns the new state.
    pub fn update_project(&mut self, update: UpdateProject, id: u128, now: u64) -> (r: Result<
        Project,
        StoreError,
    >)
        requires
            old(self).wf(),
        ensures
            final(self).wf(),
            final(self).accounts@ == old(self).accounts@,
            r == spec_update_result(old(self).projects@, update, id, now),
            final(self).projects@ == spec_update_state(old(self).projects@, update, id, now),
    {
        let idx = match self.find_project(id) {
            None => {
                return Err(StoreError::ProjectNotFound);
            },
            Some(i) => i,
        };
        proof {
            lemma_project_index_agrees(self.projects@, id, idx as int);
        }
        let p = self.projects.remove(idx);
        if update.update_timestamp != p.last_updated {
            self.projects.insert(idx, p);
            proof {
                assert(final(self).projects@ =~= old(self).projects@);
            }
            return Err(StoreError::Conflict);
        }
        let lu = if now > p.last_updated {
            now
        } else if p.last_updated < u64::MAX {
            p.last_updated + 1
        } else {
            p.last_updated
        };
        let np = Project {
            id: p.id,
            user_email: p.user_email,
            name: match update.name {
                Some(n) => n,
                None => p.name,
            },
            description: match update.description {
                Some(d) => Some(d),
                None => p.description,
            },
            created_at: p.created_at,
            last_updated: lu,
        };
        let ret = np.clone();
        proof {
            assert(np == spec_patched(stored_project(old(self).projects@, id), update, now));
        }
        self.projects.insert(idx, np);
        proof {
            let ups = old(self).projects@.update(
                idx as int,
                spec_patched(stored_project(old(self).projects@, id), update, now),
            );
            assert(final(self).projects@ =~= ups);
            lemma_update_preserves_wf(old(self).projects@, idx as int, np);
        }
        Ok(ret)
    }

    /// Removes the project under this id; fails with `ProjectNotFound` when
    /// none matches, so a repeated delete of the same id surfaces the error
    /// rather than silently succeeding.
    pub fn delete_project(&mut self, id: u128) -> (r: Result<(), StoreError>)
        requires
            old(self).wf(),
        ensures
            final(self).wf(),
            final(self).accounts@ == old(self).accounts@,
            r == spec_delete_result(old(self).projects@, id),
            final(self).projects@ == spec_delete_state(old(self).projects@, id),
    {
        match self.find_project(id) {
            None => Err(StoreError::ProjectNotFound),
            Some(i) => {
                proof {
                    lemma_project_index_agrees(self.projects@, id, i as int);
                }
                self.projects.remove(i);
                proof {
                    lemma_remove_preserves_wf(old(self).projects@, i as int);
                }
                Ok(())
            },
        }
    }
}

/// Point-lookup outcome for a given store state.
pub open spec fn spec_get(ps: Seq<Project>, id: u128) -> Result<Project, StoreError> {
    if has_project(ps, id) {
        Ok(stored_project(ps, id))
    } else {
        Err(StoreError::ProjectNotFound)
    }
}

/// The timestamp a successful update stamps: the current clock, but always
/// strictly past the previous `last_updated` (saturating at the largest
/// representable instant).
pub open spec fn spec_advance(last_updated: u64, now: u64) -> u64 {
    if now > last_updated {
        now
    } else if last_updated < u64::MAX {
        (last_updated + 1) as u64
    } else {
        last_updated
    }
}

/// The record a successful update leaves: exactly the fields present in the
/// patch replaced, identity and `created_at` untouched, `last_updated`
/// advanced.
pub open spec fn spec_patched(p: Project, upd: UpdateProject, now: u64) -> Project {
    Project {
        name: match upd.name {
            Some(n) => n,
            None => p.name,
        },
        description: match upd.description {
            Some(d) => Some(d),
            None => p.description,
        },
        last_updated: spec_advance(p.last_updated, now),
        ..p
    }
}

/// Update outcome for a given store state.
pub open spec fn spec_update_result(
    ps: Seq<Project>,
    upd: UpdateProject,
    id: u128,
    now: u64,
) -> Result<Project, StoreError> {
    if !has_project(ps, id) {
        Err(StoreError::ProjectNotFound)
    } else if upd.update_timestamp != stored_project(ps, id).last_updated {
        Err(StoreError::Conflict)
    } else {
        Ok(spec_patched(stored_project(ps, id), upd, now))
    }
}

/// Store state after an update: changed only on success.
pub open spec fn spec_update_state(
    ps: Seq<Project>,
    upd: UpdateProject,
    id: u128,
    now: u64,
) -> Seq<Project> {
    if spec_update_result(ps, upd, id, now) is Ok {
        ps.update(project_index(ps, id), spec_patched(stored_project(ps, id), upd, now))
    } else {
        ps
    }
}

/// Delete outcome for a given store state.
pub open spec fn spec_delete_result(ps: Seq<Project>, id: u128) -> Result<(), StoreError> {
    if has_project(ps, id) {
        Ok(())
    } else {
        Err(StoreError::ProjectNotFound)
    }
}

/// Store state after a delete: the matched row removed, nothing else.
pub open spec fn spec_delete_state(ps: Seq<Project>, id: u128) -> Seq<Project> {
    if has_project(ps, id) {
        ps.remove(project_index(ps, id))
    } else {
        ps
    }
}

/// With unique ids, any position holding `id` is the `project_index`.
proof fn lemma_project_index_agrees(ps: Seq<Project>, id: u128, i: int)
    requires
        ids_unique(ps),
        0 <= i < ps.len(),
        ps[i].id == id,
    ensures
        project_index(ps, id) == i,
        stored_project(ps, id) == ps[i],
        has_project(ps, id),
{
    let k = project_index(ps, id);
    assert(0 <= k < ps.len() && ps[k].id == id);
    if k < i {
        assert(ps[k].id != ps[i].id);
    } else if i < k {
        assert(ps[i].id != ps[k].id);
    }
}

/// Removing a row preserves the store invariant.
proof fn lemma_remove_preserves_wf(ps: Seq<Project>, k: int)
    requires
        ids_unique(ps),
        timestamps_ordered(ps),
        0 <= k < ps.len(),
    ensures
        ids_unique(ps.remove(k)),
        timestamps_ordered(ps.remove(k)),
{
    let q = ps.remove(k);
    assert forall|i: int, j: int| 0 <= i < j < q.len() implies q[i].id != q[j].id by {
        let oi = if i < k { i } else { i + 1 };
        let oj = if j < k { j } else { j + 1 };
        assert(q[i] == ps[oi]);
        assert(q[j] == ps[oj]);
    }
    assert forall|i: int| 0 <= i < q.len() implies q[i].last_updated >= q[i].created_at by {
        let oi = if i < k { i } else { i + 1 };
        assert(q[i] == ps[oi]);
    }
}

/// Replacing a row with one of the same id and ordered timestamps preserves
/// the store invariant.
proof fn lemma_update_preserves_wf(ps: Seq<Project>, k: int, np: Project)
    requires
        ids_unique(ps),
        timestamps_ordered(ps),
        0 <= k < ps.len(),
        np.id == ps[k].id,
        np.last_updated >= np.created_at,
    ensures
        ids_unique(ps.update(k, np)),
        timestamps_ordered(ps.update(k, np)),
{
    let q = ps.update(k, np);
    assert forall|i: int, j: int| 0 <= i < j < q.len() implies q[i].id != q[j].id by {
        assert(q[i].id == ps[i].id);
        assert(q[j].id == ps[j].id);
    }
}

/// Registering an account for an email makes that email present, so a
/// second registration of the same email is refused as a duplicate — see
/// `register_user`, whose contract states that a duplicate registration
/// returns `DuplicateAccount` and leaves every stored account exactly as it
/// was; nothing is ever overwritten.
pub proof fn lemma_registered_email_is_present(accs: Seq<Account>, a: Account)
    ensures
        has_email(accs.push(a), a.email@),
{
    assert(accs.push(a)[accs.len() as int] == a);
}

/// A freshly registered account authenticates: adding an account for a new
/// email whose stored hash verifies a password makes authentication with
/// that email and password succeed — the shape `register_user` leaves on
/// success.
pub proof fn lemma_fresh_registration_authenticates(
    accs: Seq<Account>,
    a: Account,
    password: Seq<char>,
)
    requires
        emails_unique(accs),
        !has_email(accs, a.email@),
        hash_wf(a.password@),
        verifies(password, a.password@),
    ensures
        spec_authenticate(accs.push(a), a.email@, password) == Ok::<bool, StoreError>(true),
{
    let q = accs.push(a);
    let n = accs.len() as int;
    assert(q[n] == a);
    assert(has_email(q, a.email@));
    assert(forall|i: int| 0 <= i < n ==> q[i] == accs[i]);
    let k = account_index(q, a.email@);
    assert(0 <= k < q.len() && q[k].email@ == a.email@);
    if k != n {
        assert(q[k] == accs[k]);
        assert(has_email(accs, a.email@));
    }
    assert(stored_hash(q, a.email@) == a.password@);
}

/// Once an account with this email exists and its stored hash is well
/// formed, authentication with a password that does not verify fails with
/// `IncorrectPassword` — never with `UserNotFound`.
pub proof fn lemma_wrong_password_is_incorrect_password(
    accs: Seq<Account>,
    email: Seq<char>,
    password: Seq<char>,
)
    requires
        has_email(accs, email),
        hash_wf(stored_hash(accs, email)),
        !verifies(password, stored_hash(accs, email)),
    ensures
        spec_authenticate(accs, email, password) == Err::<bool, StoreError>(
            StoreError::IncorrectPassword,
        ),
{
}

/// An update whose reference timestamp equals the persisted `last_updated`
/// succeeds and strictly advances `last_updated`; a second update that still
/// carries the original (now stale) timestamp fails with `Conflict`.
pub proof fn lemma_stale_update_conflicts(
    ps: Seq<Project>,
    upd1: UpdateProject,
    upd2: UpdateProject,
    id: u128,
    now1: u64,
    now2: u64,
)
    requires
        ids_unique(ps),
        has_project(ps, id),
        upd1.update_timestamp == stored_project(ps, id).last_updated,
        upd2.update_timestamp == upd1.update_timestamp,
        stored_project(ps, id).last_updated < u64::MAX,
    ensures
        spec_update_result(ps, upd1, id, now1) is Ok,
        has_project(spec_update_state(ps, upd1, id, now1), id),
        stored_project(spec_update_state(ps, upd1, id, now1), id).last_updated > stored_project(
            ps,
            id,
        ).last_updated,
        spec_update_result(spec_update_state(ps, upd1, id, now1), upd2, id, now2) == Err::<
            Project,
            StoreError,
        >(StoreError::Conflict),
{
    let k = project_index(ps, id);
    assert(0 <= k < ps.len() && ps[k].id == id);
    let np = spec_patched(stored_project(ps, id), upd1, now1);
    let ps2 = spec_update_state(ps, upd1, id, now1);
    assert(ps2 == ps.update(k, np));
    assert(ps2[k] == np);
    assert(has_project(ps2, id));
    lemma_project_index_agrees2(ps, k, np, id);
}

/// After replacing the row at the index of `id` with a row of the same id,
/// that index is still the one `project_index` picks.
proof fn lemma_project_index_agrees2(ps: Seq<Project>, k: int, np: Project, id: u128)
    requires
        ids_unique(ps),
        0 <= k < ps.len(),
        ps[k].id == id,
        np.id == id,
    ensures
        project_index(ps.update(k, np), id) == k,
        stored_project(ps.update(k, np), id) == np,
{
    let q = ps.update(k, np);
    assert(q[k].id == id);
    assert(has_project(q, id));
    let j = project_index(q, id);
    assert(0 <= j < q.len() && q[j].id == id);
    if j != k {
        assert(q[j] == ps[j]);
        assert(ps[j].id == ps[k].id);
        if j < k {
            assert(ps[j].id != ps[k].id);
        } else {
            assert(ps[k].id != ps[j].id);
        }
    }
}

/// Deleting an id removes it, and a repeated delete of the same id fails
/// with `ProjectNotFound` rather than silently succeeding.
pub proof fn lemma_delete_then_delete(ps: Seq<Project>, id: u128)
    requires
        ids_unique(ps),
        has_project(ps, id),
    ensures
        spec_delete_result(ps, id) is Ok,
        !has_project(spec_delete_state(ps, id), id),
        spec_delete_result(spec_delete_state(ps, id), id) == Err::<(), StoreError>(
            StoreError::ProjectNotFound,
        ),
{
    let k = project_index(ps, id);
    assert(0 <= k < ps.len() && ps[k].id == id);
    let q = ps.remove(k);
    assert forall|i: int| 0 <= i < q.len() implies q[i].id != id by {
        let oi = if i < k { i } else { i + 1 };
        assert(q[i] == ps[oi]);
        if oi < k {
            assert(ps[oi].id != ps[k].id);
        } else {
            assert(ps[k].id != ps[oi].id);
        }
    }
}

} // verus!
