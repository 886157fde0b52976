//! The request-level gateway: one function per route, composing the rate
//! limiter, the credential store, the session manager and the project store
//! in the order the routes demand. The principal scoping an operation is
//! always the one the authorization gate derived from the session — never a
//! client-supplied field. Clocks and client identities arrive as explicit
//! plain values; the surrounding process reads them at its edge.

use vstd::prelude::*;
use crate::errors::StoreError;
use crate::ratelimit::RateLimiter;
use crate::ratelimit::spec_check_allowed;
use crate::ratelimit::spec_check_state;
use crate::sessions::Sessions;
use crate::sessions::spec_touch_result;
use crate::sessions::spec_touch_state;
use crate::sessions::spec_clear_state;
use crate::sessions::has_token;
use crate::store::Store;
use crate::store::Project;
use crate::store::UpdateProject;
use crate::store::has_email;
use crate::store::spec_authenticate;
use crate::store::spec_get;
use crate::store::spec_update_result;
use crate::store::spec_update_state;
use crate::store::spec_delete_result;
use crate::store::spec_delete_state;
use crate::store::has_project;
use crate::crypto::hash_wf;
use crate::crypto::MAX_HASH_PASSWORD_CHARS;
use crate::crypto::verifies;
use crate::validate::valid_email;
use crate::validate::password_ok;
use crate::validate::email_ok;
use crate::validate::check_password;

verus! {

/// The authorization gate: touches the session under `token` and returns
/// the principal it binds, or `Unauthenticated` when the token names no
/// live session. Every protected operation calls this first and scopes
/// itself by the returned principal.
pub fn require_login(sessions: &mut Sessions, token: u128, now: u64) -> (r: Result<
    String,
    StoreError,
>)
    requires
        old(sessions).wf(),
    ensures
        final(sessions).wf(),
        final(sessions).window == old(sessions).window,
        final(sessions).sessions@ == spec_touch_state(
            old(sessions).sessions@,
            old(sessions).window,
            token,
            now,
        ),
        match r {
            Ok(p) => spec_touch_result(old(sessions).sessions@, old(sessions).window, token, now)
                == Some(p@),
            Err(e) => e == StoreError::Unauthenticated && spec_touch_result(
                old(sessions).sessions@,
                old(sessions).window,
                token,
                now,
            ) is None,
        },
{
    match sessions.touch_and_read(token, now) {
        Some(p) => Ok(p),
        None => Err(StoreError::Unauthenticated),
    }
}

/// The login route: counts the attempt against the client's rate-limit
/// window, authenticates the credentials, and on success issues a session
/// bound to the email, returning its token. Refused attempts and failed
/// authentications leave the session state untouched.
pub fn login(
    store: &Store,
    sessions: &mut Sessions,
    limiter: &mut RateLimiter,
    client: u64,
    email: &str,
    password: &str,
    now: u64,
) -> (r: Result<u128, StoreError>)
    requires
        store.wf(),
        old(sessions).wf(),
        old(limiter).wf(),
    ensures
        final(sessions).wf(),
        final(sessions).window == old(sessions).window,
        final(limiter).wf(),
        final(limiter).ceiling == old(limiter).ceiling,
        final(limiter).window == old(limiter).window,
        final(limiter).entries@ == spec_check_state(
            old(limiter).entries@,
            old(limiter).window,
            client,
            now,
        ),
        !spec_check_allowed(
            old(limiter).entries@,
            old(limiter).ceiling,
            old(limiter).window,
            client,
            now,
        ) ==> (r matches Err(e) && e == StoreError::RateLimited && final(sessions).sessions@
            == old(sessions).sessions@),
        spec_check_allowed(
            old(limiter).entries@,
            old(limiter).ceiling,
            old(limiter).window,
            client,
            now,
        ) ==> match spec_authenticate(store.accounts@, email@, password@) {
            Err(e) => r matches Err(re) && re == e && final(sessions).sessions@ == old(
                sessions,
            ).sessions@,
            Ok(_) => match r {
                Ok(t) => {
                    &&& !has_token(old(sessions).sessions@, t)
                    &&& final(sessions).sessions@.len() == old(sessions).sessions@.len() + 1
                    &&& final(sessions).sessions@.subrange(
                        0,
                        old(sessions).sessions@.len() as int,
                    ) == old(sessions).sessions@
                    &&& final(sessions).sessions@.last().token == t
                    &&& final(sessions).sessions@.last().user_email@ == email@
                    &&& final(sessions).sessions@.last().last_activity == now
                },
                Err(e) => e == StoreError::SessionError && final(sessions).sessions@ == old(
                    sessions,
                ).sessions@,
            },
        },
{
    limiter.check(client, now)?;
    store.authenticate_user(email, password)?;
    let token = sessions.create(email, now)?;
    Ok(token)
}

/// The logout route: counts the attempt against the client's rate-limit
/// window, then clears the session under `token` unconditionally (clearing
/// an absent session is a no-op).
pub fn logout(
    sessions: &mut Sessions,
    limiter: &mut RateLimiter,
    client: u64,
    token: u128,
    now: u64,
) -> (r: Result<(), StoreError>)
    requires
        old(sessions).wf(),
        old(limiter).wf(),
    ensures
        final(sessions).wf(),
        final(sessions).window == old(sessions).window,
        final(limiter).wf(),
        final(limiter).ceiling == old(limiter).ceiling,
        final(limiter).window == old(limiter).window,
        final(limiter).entries@ == spec_check_state(
            old(limiter).entries@,
            old(limiter).window,
            client,
            now,
        ),
        r is Ok <==> spec_check_allowed(
            old(limiter).entries@,
            old(limiter).ceiling,
            old(limiter).window,
            client,
            now,
        ),
        r matches Err(e) ==> e == StoreError::RateLimited && final(sessions).sessions@ == old(
            sessions,
        ).sessions@,
        r is Ok ==> final(sessions).sessions@ == spec_clear_state(old(sessions).sessions@, token),
{
    limiter.check(client, now)?;
    sessions.clear(token);
    Ok(())
}

/// The signup route: rejects a payload whose email does not have a valid
/// shape or whose password is shorter than the policy minimum as
/// `InvalidInput`, and otherwise registers the account (refusing a
/// duplicate email without overwriting anything).
pub fn add_user(store: &mut Store, email: &str, password: &str) -> (r: Result<(), StoreError>)
    requires
        old(store).wf(),
    ensures
        final(store).wf(),
        final(store).projects@ == old(store).projects@,
        (!valid_email(email@) || !password_ok(password@)) ==> (r matches Err(e) && e
            == StoreError::InvalidInput && final(store).accounts@ == old(store).accounts@),
        (valid_email(email@) && password_ok(password@) && !has_email(old(store).accounts@, email@)
            && password@.len() <= MAX_HASH_PASSWORD_CHARS) ==> r is Ok,
        (valid_email(email@) && password_ok(password@)) ==> {
            &&& ((r matches Err(e) && e == StoreError::DuplicateAccount) <==> has_email(
                old(store).accounts@,
                email@,
            ))
            &&& (r matches Err(_) ==> final(store).accounts@ == old(store).accounts@)
            &&& (r matches Err(e) ==> e == StoreError::DuplicateAccount || e
                == StoreError::HashError)
            &&& (r matches Ok(_) ==> {
                &&& final(store).accounts@.len() == old(store).accounts@.len() + 1
                &&& final(store).accounts@.subrange(0, old(store).accounts@.len() as int) == old(
                    store,
                ).accounts@
                &&& final(store).accounts@.last().email@ == email@
                &&& hash_wf(final(store).accounts@.last().password@)
                &&& verifies(password@, final(store).accounts@.last().password@)
                &&& has_email(final(store).accounts@, email@)
            })
        },
{
    if !email_ok(email) || !check_password(password) {
        return Err(StoreError::InvalidInput);
    }
    store.register_user(email, password)
}

/// The project-creation route: resolves the principal through the
/// authorization gate and creates a project owned by that principal —
/// never by a client-supplied identity.
pub fn create_project_handler(
    store: &mut Store,
    sessions: &mut Sessions,
    token: u128,
    name: String,
    description: Option<String>,
    now: u64,
) -> (r: Result<Project, StoreError>)
    requires
        old(store).wf(),
        old(sessions).wf(),
    ensures
        final(store).wf(),
        final(sessions).wf(),
        final(sessions).window == old(sessions).window,
        final(sessions).sessions@ == spec_touch_state(
            old(sessions).sessions@,
            old(sessions).window,
            token,
            now,
        ),
        final(store).accounts@ == old(store).accounts@,
        spec_touch_result(old(sessions).sessions@, old(sessions).window, token, now) is None
            ==> (r matches Err(e) && e == StoreError::Unauthenticated && final(store).projects@
            == old(store).projects@),
        match spec_touch_result(old(sessions).sessions@, old(sessions).window, token, now) {
            None => true,
            Some(principal) => match r {
                Ok(p) => {
                    &&& !has_project(old(store).projects@, p.id)
                    &&& p.user_email@ == principal
                    &&& p.name == name
                    &&& p.description == description
                    &&& p.created_at == now
                    &&& p.last_updated == now
                    &&& final(store).projects@ == old(store).projects@.push(p)
                },
                Err(e) => e == StoreError::FailedProjectCreation && final(store).projects@ == old(
                    store,
                ).projects@,
            },
        },
{
    let principal = require_login(sessions, token, now)?;
    store.create_project(principal, name, description, now)
}

/// The project-listing route: resolves the principal, then returns every
/// stored project (the listing is not scoped to the owner).
pub fn list_project_handler(
    store: &Store,
    sessions: &mut Sessions,
    token: u128,
    now: u64,
) -> (r: Result<Vec<Project>, StoreError>)
    requires
        old(sessions).wf(),
    ensures
        final(sessions).wf(),
        final(sessions).window == old(sessions).window,
        final(sessions).sessions@ == spec_touch_state(
            old(sessions).sessions@,
            old(sessions).window,
            token,
            now,
        ),
        match r {
            Ok(ps) => spec_touch_result(old(sessions).sessions@, old(sessions).window, token, now)
                is Some && ps@ == store.projects@,
            Err(e) => e == StoreError::Unauthenticated && spec_touch_result(
                old(sessions).sessions@,
                old(sessions).window,
                token,
                now,
            ) is None,
        },
{
    require_login(sessions, token, now)?;
    Ok(store.list_projects())
}

/// The project-lookup route: resolves the principal, then returns the
/// project under `id` or `ProjectNotFound`.
pub fn get_project_by_id_handler(
    store: &Store,
    sessions: &mut Sessions,
    token: u128,
    id: u128,
    now: u64,
) -> (r: Result<Project, StoreError>)
    requires
        store.wf(),
        old(sessions).wf(),
    ensures
        final(sessions).wf(),
        final(sessions).window == old(sessions).window,
        final(sessions).sessions@ == spec_touch_state(
            old(sessions).sessions@,
            old(sessions).window,
            token,
            now,
        ),
        spec_touch_result(old(sessions).sessions@, old(sessions).window, token, now) is None
            ==> (r matches Err(e) && e == StoreError::Unauthenticated),
        spec_touch_result(old(sessions).sessions@, old(sessions).window, token, now) is Some ==> r
            == spec_get(store.projects@, id),
{
    require_login(sessions, token, now)?;
    store.get_project_by_id(id)
}

/// The project-update route: resolves the principal, then applies the
/// patch under the optimistic-concurrency rule.
pub fn update_project_handler(
    store: &mut Store,
    sessions: &mut Sessions,
    token: u128,
    id: u128,
    update: UpdateProject,
    now: u64,
) -> (r: Result<Project, StoreError>)
    requires
        old(store).wf(),
        old(sessions).wf(),
    ensures
        final(store).wf(),
        final(sessions).wf(),
        final(sessions).window == old(sessions).window,
        final(sessions).sessions@ == spec_touch_state(
            old(sessions).sessions@,
            old(sessions).window,
            token,
            now,
        ),
        final(store).accounts@ == old(store).accounts@,
        spec_touch_result(old(sessions).sessions@, old(sessions).window, token, now) is None
            ==> (r matches Err(e) && e == StoreError::Unauthenticated && final(store).projects@
            == old(store).projects@),
        spec_touch_result(old(sessions).sessions@, old(sessions).window, token, now) is Some ==> {
            &&& r == spec_update_result(old(store).projects@, update, id, now)
            &&& final(store).projects@ == spec_update_state(old(store).projects@, update, id, now)
        },
{
    require_login(sessions, token, now)?;
    store.update_project(update, id, now)
}

/// The project-deletion route: resolves the principal, then removes the
/// project under `id`; a repeated delete surfaces `ProjectNotFound`.
pub fn delete_project_handler(
    store: &mut Store,
    sessions: &mut Sessions,
    token: u128,
    id: u128,
    now: u64,
) -> (r: Result<(), StoreError>)
    requires
        old(store).wf(),
        old(sessions).wf(),
    ensures
        final(store).wf(),
        final(sessions).wf(),
        final(sessions).window == old(sessions).window,
        final(sessions).sessions@ == spec_touch_state(
            old(sessions).sessions@,
            old(sessions).window,
            token,
            now,
        ),
        final(store).accounts@ == old(store).accounts@,
        spec_touch_result(old(sessions).sessions@, old(sessions).window, token, now) is None
            ==> (r matches Err(e) && e == StoreError::Unauthenticated && final(store).projects@
            == old(store).projects@),
        spec_touch_result(old(sessions).sessions@, old(sessions).window, token, now) is Some ==> {
            &&& r == spec_delete_result(old(store).projects@, id)
            &&& final(store).projects@ == spec_delete_state(old(store).projects@, id)
        },
{
    require_login(sessions, token, now)?;
    store.delete_project(id)
}

} // verus!
