use session_gate::errors::StoreError;
use session_gate::gateway::add_user;
use session_gate::gateway::list_project_handler;
use session_gate::gateway::login;
use session_gate::ratelimit::RateLimiter;
use session_gate::sessions::Sessions;
use session_gate::store::Store;

#[test]
fn signup_and_login_flow() {
    let mut store = Store::new();
    let mut sessions = Sessions::new(10_000);
    let mut limiter = RateLimiter::new(5, 60_000);

    // 1. Register new user
    let signup_res = add_user(&mut store, "test@example.com", "password123");
    assert!(signup_res.is_ok());

    // 2. Login with same credentials
    let login_res = login(
        &store,
        &mut sessions,
        &mut limiter,
        1,
        "test@example.com",
        "password123",
        0,
    );
    assert!(login_res.is_ok());
}

#[test]
fn project_access_requires_auth() {
    let store = Store::new();
    let mut sessions = Sessions::new(10_000);

    let res = list_project_handler(&store, &mut sessions, 12345, 0);

    assert!(matches!(res, Err(StoreError::Unauthenticated)));
    assert_eq!(res.unwrap_err().status_code(), 401);
}
