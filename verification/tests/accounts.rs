use chat_hub::auth::{
    bearer_token, claims_for, token_from_query, validate_registration, RegisterRequest, User,
    UserResponse, TOKEN_LIFETIME_SECS,
};
use chat_hub::errors::HubError;
use chat_hub::ids::UserId;
use chat_hub::store::{Message, MessageResponse};

fn req(u: &str, p: &str) -> RegisterRequest {
    RegisterRequest { username: u.to_string(), password: p.to_string() }
}

#[test]
fn registration_bounds_are_enforced() {
    assert!(validate_registration(&req("bob", "secret")).is_ok());
    assert_eq!(validate_registration(&req("bo", "secret")), Err(HubError::Validation));
    assert_eq!(
        validate_registration(&req(&"x".repeat(51), "secret")),
        Err(HubError::Validation)
    );
    assert!(validate_registration(&req(&"x".repeat(50), "secret")).is_ok());
    assert_eq!(validate_registration(&req("bob", "short")), Err(HubError::Validation));
    assert!(validate_registration(&req("bob", "sixsix")).is_ok());
}

#[test]
fn claims_expire_one_lifetime_ahead() {
    let c = claims_for("user-1".to_string(), "bob".to_string(), 1_000_000);
    assert_eq!(c.sub, "user-1");
    assert_eq!(c.username, "bob");
    assert_eq!(c.exp, 1_000_000 + TOKEN_LIFETIME_SECS);
    assert_eq!(c.exp, 1_000_000 + 604_800);
}

#[test]
fn bearer_tokens_are_extracted_exactly() {
    assert_eq!(bearer_token("Bearer abc.def"), Some("abc.def".to_string()));
    assert_eq!(bearer_token("Bearer "), Some("".to_string()));
    assert_eq!(bearer_token("Basic abc"), None);
    assert_eq!(bearer_token("Bearer"), None);
    assert_eq!(bearer_token(""), None);
    assert_eq!(bearer_token("bearer abc"), None);
}

#[test]
fn query_tokens_are_extracted_like_a_param_split() {
    assert_eq!(token_from_query("token=abc"), Some("abc".to_string()));
    assert_eq!(token_from_query("a=1&token=abc&b=2"), Some("abc".to_string()));
    assert_eq!(token_from_query("token=abc&token=def"), Some("abc".to_string()));
    // the value reaches only to the parameter's next `=`
    assert_eq!(token_from_query("token=abc=tail"), Some("abc".to_string()));
    assert_eq!(token_from_query("token="), Some("".to_string()));
    // a parameter named token with no `=` carries no value
    assert_eq!(token_from_query("token"), None);
    assert_eq!(token_from_query("a=1&token"), None);
    assert_eq!(token_from_query("tokens=abc"), None);
    assert_eq!(token_from_query(""), None);
    assert_eq!(token_from_query("a=1&b=2"), None);
}

#[test]
fn user_response_hides_the_credential_hash() {
    let u = User {
        id: "id-1".to_string(),
        username: "bob".to_string(),
        password_hash: "hashed-credential".to_string(),
        friend_code: "GC-ABCD-EFGH".to_string(),
        avatar_url: None,
        status: "online".to_string(),
        created_at: 5,
        updated_at: 6,
    };
    let r = UserResponse::of_user(u);
    assert_eq!(r.id, "id-1");
    assert_eq!(r.username, "bob");
    assert_eq!(r.friend_code, "GC-ABCD-EFGH");
    assert_eq!(r.avatar_url, None);
    assert_eq!(r.status, "online");
}

#[test]
fn message_response_mirrors_the_row() {
    let m = Message {
        id: 7,
        sender_id: UserId::new(0, 1),
        receiver_id: UserId::new(0, 2),
        content: "hello".to_string(),
        created_at: 42,
        read_at: Some(50),
    };
    let r = MessageResponse::of_message(&m);
    assert_eq!(r.id, 7);
    assert_eq!(r.sender_id, UserId::new(0, 1));
    assert_eq!(r.receiver_id, UserId::new(0, 2));
    assert_eq!(r.content, "hello");
    assert_eq!(r.created_at, 42);
    assert_eq!(r.read_at, Some(50));
}
