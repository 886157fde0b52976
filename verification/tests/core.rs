use session_gate::errors::StoreError;
use session_gate::gateway::add_user;
use session_gate::gateway::create_project_handler;
use session_gate::gateway::get_project_by_id_handler;
use session_gate::gateway::list_project_handler;
use session_gate::gateway::login;
use session_gate::gateway::logout;
use session_gate::gateway::require_login;
use session_gate::ratelimit::RateLimiter;
use session_gate::sessions::Sessions;
use session_gate::store::Account;
use session_gate::store::Store;
use session_gate::store::UpdateProject;
use session_gate::validate::MIN_PASSWORD_LEN;

#[test]
fn duplicate_registration_is_refused() {
    let mut store = Store::new();
    assert!(store.register_user("a@x.com", "password123").is_ok());
    let first_hash = store.accounts[0].password.clone();

    let second = store.register_user("a@x.com", "otherpassword");
    assert!(matches!(second, Err(StoreError::DuplicateAccount)));

    // Nothing was overwritten: still one account, same stored hash.
    assert_eq!(store.accounts.len(), 1);
    assert_eq!(store.accounts[0].password, first_hash);
}

#[test]
fn wrong_password_is_incorrect_password_not_user_not_found() {
    let mut store = Store::new();
    store.register_user("a@x.com", "password123").unwrap();

    let wrong = store.authenticate_user("a@x.com", "password124");
    assert!(matches!(wrong, Err(StoreError::IncorrectPassword)));

    let missing = store.authenticate_user("b@x.com", "password123");
    assert!(matches!(missing, Err(StoreError::UserNotFound)));

    let right = store.authenticate_user("a@x.com", "password123");
    assert!(matches!(right, Ok(true)));
}

#[test]
fn corrupted_stored_hash_is_distinguished() {
    let mut store = Store::new();
    store.accounts.push(Account {
        email: "a@x.com".to_string(),
        password: "not-a-phc-hash".to_string(),
    });
    let res = store.authenticate_user("a@x.com", "password123");
    assert!(matches!(res, Err(StoreError::MalformedStoreHash)));
    assert_eq!(res.unwrap_err().status_code(), 400);
}

#[test]
fn session_returns_principal_then_expires() {
    let mut sessions = Sessions::new(10);
    let token = sessions.create("a@x.com", 100).unwrap();

    // Immediately readable, and the principal is the one bound at creation.
    let read = sessions.touch_and_read(token, 100);
    assert_eq!(read.as_deref(), Some("a@x.com"));

    // A touch inside the window slides it forward.
    let read = sessions.touch_and_read(token, 105);
    assert_eq!(read.as_deref(), Some("a@x.com"));

    // Exactly at the window boundary the session is treated as absent.
    let read = sessions.touch_and_read(token, 115);
    assert_eq!(read, None);

    // And it stays absent thereafter.
    assert_eq!(sessions.touch_and_read(token, 116), None);
}

#[test]
fn clear_is_idempotent() {
    let mut sessions = Sessions::new(10);
    let token = sessions.create("a@x.com", 0).unwrap();
    sessions.clear(token);
    assert_eq!(sessions.touch_and_read(token, 1), None);
    sessions.clear(token);
    assert_eq!(sessions.sessions.len(), 0);
}

#[test]
fn update_advances_and_stale_timestamp_conflicts() {
    let mut store = Store::new();
    let p = store
        .create_project("a@x.com".to_string(), "P1".to_string(), None, 50)
        .unwrap();
    assert_eq!(p.created_at, 50);
    assert_eq!(p.last_updated, 50);

    let first = store
        .update_project(
            UpdateProject {
                name: Some("P1b".to_string()),
                description: None,
                update_timestamp: 50,
            },
            p.id,
            60,
        )
        .unwrap();
    assert_eq!(first.name, "P1b");
    assert_eq!(first.last_updated, 60);
    assert_eq!(first.created_at, 50);

    // The original timestamp is now stale.
    let second = store.update_project(
        UpdateProject {
            name: Some("P1c".to_string()),
            description: None,
            update_timestamp: 50,
        },
        p.id,
        70,
    );
    assert!(matches!(second, Err(StoreError::Conflict)));

    // The stored record kept the first update's fields.
    let stored = store.get_project_by_id(p.id).unwrap();
    assert_eq!(stored.name, "P1b");
    assert_eq!(stored.last_updated, 60);
}

#[test]
fn update_with_stalled_clock_still_advances() {
    let mut store = Store::new();
    let p = store
        .create_project("a@x.com".to_string(), "P1".to_string(), None, 50)
        .unwrap();
    let updated = store
        .update_project(
            UpdateProject { name: None, description: None, update_timestamp: 50 },
            p.id,
            50,
        )
        .unwrap();
    assert_eq!(updated.last_updated, 51);
    assert_eq!(updated.name, "P1");
}

#[test]
fn update_applies_only_present_fields() {
    let mut store = Store::new();
    let p = store
        .create_project(
            "a@x.com".to_string(),
            "P1".to_string(),
            Some("d0".to_string()),
            0,
        )
        .unwrap();
    assert_eq!(p.description.as_deref(), Some("d0"));

    let first = store
        .update_project(
            UpdateProject {
                name: None,
                description: Some("d1".to_string()),
                update_timestamp: 0,
            },
            p.id,
            5,
        )
        .unwrap();
    assert_eq!(first.name, "P1");
    assert_eq!(first.description.as_deref(), Some("d1"));
    assert_eq!(first.created_at, 0);

    let second = store
        .update_project(
            UpdateProject {
                name: Some("P2".to_string()),
                description: None,
                update_timestamp: first.last_updated,
            },
            p.id,
            9,
        )
        .unwrap();
    assert_eq!(second.name, "P2");
    assert_eq!(second.description.as_deref(), Some("d1"));
    assert_eq!(second.user_email, "a@x.com");
}

#[test]
fn delete_then_delete_is_not_found() {
    let mut store = Store::new();
    let p = store
        .create_project("a@x.com".to_string(), "P1".to_string(), None, 0)
        .unwrap();
    assert!(store.delete_project(p.id).is_ok());
    let again = store.delete_project(p.id);
    assert!(matches!(again, Err(StoreError::ProjectNotFound)));
    assert!(matches!(
        store.get_project_by_id(p.id),
        Err(StoreError::ProjectNotFound)
    ));
}

#[test]
fn rate_limit_ceiling_then_window_rollover() {
    let mut limiter = RateLimiter::new(3, 100);
    assert!(limiter.check(7, 0).is_ok());
    assert!(limiter.check(7, 10).is_ok());
    assert!(limiter.check(7, 20).is_ok());

    // The ceiling is exceeded inside the window.
    assert!(matches!(limiter.check(7, 30), Err(StoreError::RateLimited)));
    assert!(matches!(limiter.check(7, 40), Err(StoreError::RateLimited)));

    // Another client is counted separately.
    assert!(limiter.check(8, 40).is_ok());

    // Once the window boundary is crossed, attempts are admitted again.
    assert!(limiter.check(7, 100).is_ok());
}

#[test]
fn login_is_rate_limited() {
    let mut store = Store::new();
    let mut sessions = Sessions::new(10_000);
    let mut limiter = RateLimiter::new(2, 1_000);
    add_user(&mut store, "a@x.com", "password123").unwrap();

    assert!(login(&store, &mut sessions, &mut limiter, 1, "a@x.com", "bad-password", 0).is_err());
    assert!(login(&store, &mut sessions, &mut limiter, 1, "a@x.com", "password123", 1).is_ok());
    let refused = login(&store, &mut sessions, &mut limiter, 1, "a@x.com", "password123", 2);
    assert!(matches!(refused, Err(StoreError::RateLimited)));
    assert_eq!(refused.unwrap_err().status_code(), 429);

    // After the window rolls over the client may log in again.
    assert!(
        login(&store, &mut sessions, &mut limiter, 1, "a@x.com", "password123", 1_000).is_ok()
    );
}

#[test]
fn signup_rejects_invalid_input() {
    let mut store = Store::new();
    let bad_email = add_user(&mut store, "not-an-email", "password123");
    assert!(matches!(bad_email, Err(StoreError::InvalidInput)));

    let short_password = add_user(&mut store, "a@x.com", "short");
    assert!(matches!(short_password, Err(StoreError::InvalidInput)));
    assert_eq!(store.accounts.len(), 0);

    // A password of exactly the minimum length is accepted.
    let at_minimum = "p".repeat(MIN_PASSWORD_LEN);
    assert!(add_user(&mut store, "a@x.com", &at_minimum).is_ok());
}

#[test]
fn insert_with_taken_id_is_refused() {
    let mut store = Store::new();
    let p = store
        .insert_project_with_id(42, "a@x.com".to_string(), "P1".to_string(), None, 0)
        .unwrap();
    assert_eq!(p.id, 42);
    let clash =
        store.insert_project_with_id(42, "b@x.com".to_string(), "P2".to_string(), None, 1);
    assert!(matches!(clash, Err(StoreError::FailedProjectCreation)));
    assert_eq!(store.projects.len(), 1);
    assert_eq!(store.projects[0].name, "P1");
}

#[test]
fn create_with_taken_token_is_refused() {
    let mut sessions = Sessions::new(10);
    assert_eq!(sessions.create_with_token(9, "a@x.com", 0).unwrap(), 9);
    let clash = sessions.create_with_token(9, "b@x.com", 1);
    assert!(matches!(clash, Err(StoreError::SessionError)));
    assert_eq!(sessions.sessions.len(), 1);
    // The original binding was not overwritten.
    assert_eq!(sessions.touch_and_read(9, 2).as_deref(), Some("a@x.com"));
}

#[test]
fn fresh_ids_differ_across_creations() {
    let mut store = Store::new();
    let p1 = store
        .create_project("a@x.com".to_string(), "P1".to_string(), None, 0)
        .unwrap();
    let p2 = store
        .create_project("a@x.com".to_string(), "P2".to_string(), None, 0)
        .unwrap();
    assert_ne!(p1.id, p2.id);
    assert_eq!(store.list_projects().len(), 2);
}

#[test]
fn error_kinds_map_to_stable_statuses() {
    assert_eq!(StoreError::UserNotFound.status_code(), 401);
    assert_eq!(StoreError::IncorrectPassword.status_code(), 401);
    assert_eq!(StoreError::Unauthenticated.status_code(), 401);
    assert_eq!(StoreError::MalformedStoreHash.status_code(), 400);
    assert_eq!(StoreError::ProjectNotFound.status_code(), 400);
    assert_eq!(StoreError::DuplicateAccount.status_code(), 400);
    assert_eq!(StoreError::FailedProjectCreation.status_code(), 400);
    assert_eq!(StoreError::Conflict.status_code(), 400);
    assert_eq!(StoreError::InvalidInput.status_code(), 400);
    assert_eq!(StoreError::RateLimited.status_code(), 429);
    assert_eq!(StoreError::HashError.status_code(), 500);
    assert_eq!(StoreError::SessionError.status_code(), 500);
}

#[test]
fn error_kinds_carry_stable_messages() {
    assert_eq!(StoreError::UserNotFound.message(), "User not found");
    assert_eq!(StoreError::IncorrectPassword.message(), "Incorrect Password");
    assert_eq!(StoreError::Conflict.message(), "Project was modified concurrently");
    assert_eq!(StoreError::RateLimited.message(), "Too many attempts");
}

#[test]
fn end_to_end_signup_login_create_get_logout() {
    let mut store = Store::new();
    let mut sessions = Sessions::new(10_000);
    let mut limiter = RateLimiter::new(5, 60_000);

    // signup
    assert!(add_user(&mut store, "a@x.com", "password123").is_ok());

    // login yields a session
    let token = login(
        &store,
        &mut sessions,
        &mut limiter,
        1,
        "a@x.com",
        "password123",
        0,
    )
    .unwrap();

    // create a project while authenticated: the owner is the session's
    // principal, not anything the client supplied
    let created =
        create_project_handler(&mut store, &mut sessions, token, "P1".to_string(), None, 1)
            .unwrap();
    assert_eq!(created.user_email, "a@x.com");
    assert_eq!(created.name, "P1");

    // fetch it back: the stored fields match the created ones
    let fetched = get_project_by_id_handler(&store, &mut sessions, token, created.id, 2).unwrap();
    assert_eq!(fetched.id, created.id);
    assert_eq!(fetched.user_email, "a@x.com");
    assert_eq!(fetched.name, "P1");
    assert_eq!(fetched.description, None);
    assert_eq!(fetched.created_at, 1);
    assert_eq!(fetched.last_updated, 1);

    // logout clears the session
    assert!(logout(&mut sessions, &mut limiter, 1, token, 3).is_ok());

    // the listing now requires authentication again
    let unauth = list_project_handler(&store, &mut sessions, token, 4);
    assert!(matches!(unauth, Err(StoreError::Unauthenticated)));
    assert_eq!(unauth.unwrap_err().status_code(), 401);
}

#[test]
fn require_login_refreshes_the_window() {
    let mut sessions = Sessions::new(10);
    let token = sessions.create("a@x.com", 0).unwrap();
    // Touches at 8 and 16 each slide the window, so the session survives
    // past the original deadline...
    assert!(require_login(&mut sessions, token, 8).is_ok());
    assert!(require_login(&mut sessions, token, 16).is_ok());
    // ...but not a silence longer than the window.
    let expired = require_login(&mut sessions, token, 26);
    assert!(matches!(expired, Err(StoreError::Unauthenticated)));
}
