use shop_backend::config::AppConfig;
use shop_backend::controllers::user::{login, register, validate_password, LoginData, RegisterData};
use shop_backend::db::Database;
use shop_backend::error::ApiError;
use shop_backend::middleware::auth::{subject_is_user, Access, AuthMiddleware, Gate};
use shop_backend::money::Money;
use shop_backend::services::auth::{
    claims_at, generate_jwt, hash_password, sign_claims, verify_password, Claims,
};
use shop_backend::services::cart_service::{
    add_to_cart, calculate_cart_total, clear_cart, get_cart, remove_from_cart,
};
use shop_backend::services::order_service::{
    create_order, get_order_details, get_order_history, update_order_status,
};
use shop_backend::services::product_service::{
    create_product, delete_product, get_all_products, get_product_by_id, update_product,
    update_product_status,
};

fn money(mantissa: i128, scale: u32) -> Money {
    Money::from_parts(mantissa, scale).unwrap()
}

fn registration(username: &str, email: &str, password: &str) -> RegisterData {
    RegisterData {
        username: username.to_string(),
        email: email.to_string(),
        password: password.to_string(),
    }
}

fn new_product(db: &mut Database, name: &str, price: Money) -> u128 {
    create_product(db, name.to_string(), None, price, None).unwrap().id
}

#[test]
fn second_registration_with_same_username_fails() {
    let mut db = Database::new();
    register(&mut db, &registration("alice", "alice@example.com", "Secret123")).unwrap();
    let again = register(&mut db, &registration("alice", "other@example.com", "Secret123"));
    assert!(matches!(again, Err(ApiError::DatabaseError(_))));
    assert_eq!(db.users.len(), 1);
}

#[test]
fn second_registration_with_same_email_fails() {
    let mut db = Database::new();
    register(&mut db, &registration("alice", "alice@example.com", "Secret123")).unwrap();
    let again = register(&mut db, &registration("bob", "alice@example.com", "Secret123"));
    assert!(matches!(again, Err(ApiError::DatabaseError(_))));
    assert_eq!(db.users.len(), 1);
}

#[test]
fn registration_stores_a_hash_not_the_password() {
    let mut db = Database::new();
    register(&mut db, &registration("carol", "carol@example.com", "Secret123")).unwrap();
    let stored = &db.users[0];
    assert_eq!(stored.username, "carol");
    assert_ne!(stored.hashed_password, "Secret123");
    assert_eq!(verify_password("Secret123", &stored.hashed_password), Ok(true));
}

#[test]
fn registration_rejects_bad_fields() {
    let mut db = Database::new();
    let long_name = register(&mut db, &registration("abcdefghijklmnop", "a@example.com", "Secret123"));
    assert!(matches!(long_name, Err(ApiError::ValidationError(_))));
    let empty_name = register(&mut db, &registration("", "a@example.com", "Secret123"));
    assert!(matches!(empty_name, Err(ApiError::ValidationError(_))));
    let bad_email = register(&mut db, &registration("dave", "not-an-email", "Secret123"));
    assert!(matches!(bad_email, Err(ApiError::ValidationError(_))));
    let weak = register(&mut db, &registration("dave", "dave@example.com", "secret"));
    assert!(matches!(weak, Err(ApiError::ValidationError(_))));
    assert_eq!(db.users.len(), 0);
}

#[test]
fn password_rules_name_the_first_broken_rule() {
    assert_eq!(
        validate_password("Ab1"),
        Err("Password must be at least 8 characters long".to_string())
    );
    assert_eq!(
        validate_password("ABCDEFG1"),
        Err("Password must contain at least one lowercase letter".to_string())
    );
    assert_eq!(
        validate_password("abcdefg1"),
        Err("Password must contain at least one uppercase letter".to_string())
    );
    assert_eq!(
        validate_password("Abcdefgh"),
        Err("Password must contain at least one digit".to_string())
    );
    assert_eq!(validate_password("Abcdefg1"), Ok(()));
}

#[test]
fn login_issues_claims_for_the_account() {
    let mut db = Database::new();
    register(&mut db, &registration("erin", "erin@example.com", "Secret123")).unwrap();
    let claims = login(
        &db,
        &LoginData { username: "erin".to_string(), password: "Secret123".to_string() },
    )
    .unwrap();
    let sub = claims.get_sub().to_string();
    assert_eq!(sub.len(), 36);
    assert_eq!(sub.matches('-').count(), 4);
    assert!(claims.get_exp() >= 3600);
}

#[test]
fn login_rejects_bad_credentials() {
    let mut db = Database::new();
    register(&mut db, &registration("frank", "frank@example.com", "Secret123")).unwrap();
    let wrong = login(
        &db,
        &LoginData { username: "frank".to_string(), password: "Secret124".to_string() },
    );
    assert!(matches!(wrong, Err(ApiError::AuthenticationError(_))));
    let unknown = login(
        &db,
        &LoginData { username: "nobody".to_string(), password: "Secret123".to_string() },
    );
    assert!(matches!(unknown, Err(ApiError::AuthenticationError(_))));
}

#[test]
fn hashing_and_verifying() {
    let hashed = hash_password("hunter2").unwrap();
    assert_ne!(hashed, "hunter2");
    assert_eq!(verify_password("hunter2", &hashed), Ok(true));
    assert_eq!(verify_password("hunter3", &hashed), Ok(false));
    assert_eq!(verify_password("hunter2", "not a hash"), Err(ApiError::InternalServerError));
}

#[test]
fn claims_expire_one_hour_after_issue() {
    let c = claims_at("user-1", 1_000).unwrap();
    assert_eq!(c.get_sub(), "user-1");
    assert_eq!(c.get_exp(), 4_600);
    assert!(matches!(claims_at("user-1", -5), Err(ApiError::InternalServerError)));
}

#[test]
fn adding_same_product_twice_accumulates() {
    let mut db = Database::new();
    let user = 7u128;
    let product = new_product(&mut db, "pen", money(150, 2));
    add_to_cart(&mut db, user, product, 2).unwrap();
    let row = add_to_cart(&mut db, user, product, 3).unwrap();
    assert_eq!(row.quantity, 5);
    let cart = get_cart(&db, user).unwrap();
    assert_eq!(cart.len(), 1);
    assert_eq!(cart[0].quantity, 5);
    assert_eq!(cart[0].product_id, product);
}

#[test]
fn adding_past_the_quantity_range_fails() {
    let mut db = Database::new();
    let product = new_product(&mut db, "pen", money(1, 0));
    add_to_cart(&mut db, 1, product, i32::MAX).unwrap();
    let r = add_to_cart(&mut db, 1, product, 1);
    assert!(matches!(r, Err(ApiError::ValidationError(_))));
    assert_eq!(db.cart[0].quantity, i32::MAX);
}

#[test]
fn cart_total_uses_current_prices() {
    let mut db = Database::new();
    let user = 1u128;
    let pen = new_product(&mut db, "pen", money(1050, 2));
    let ink = new_product(&mut db, "ink", money(3, 0));
    add_to_cart(&mut db, user, pen, 2).unwrap();
    add_to_cart(&mut db, user, ink, 4).unwrap();
    add_to_cart(&mut db, 2, ink, 100).unwrap();
    let total = calculate_cart_total(&db, user).unwrap();
    assert_eq!(total, money(3300, 2));
    update_product(&mut db, pen, None, None, Some(money(1, 0))).unwrap();
    let total = calculate_cart_total(&db, user).unwrap();
    assert_eq!(total, money(14, 0));
}

#[test]
fn cart_total_of_empty_cart_is_zero() {
    let db = Database::new();
    assert_eq!(calculate_cart_total(&db, 3).unwrap(), money(0, 0));
}

#[test]
fn cart_total_fails_when_a_product_is_gone() {
    let mut db = Database::new();
    let pen = new_product(&mut db, "pen", money(5, 0));
    add_to_cart(&mut db, 1, pen, 1).unwrap();
    delete_product(&mut db, pen).unwrap();
    assert!(matches!(calculate_cart_total(&db, 1), Err(ApiError::NotFound(_))));
}

#[test]
fn removing_and_clearing_cart_lines() {
    let mut db = Database::new();
    let pen = new_product(&mut db, "pen", money(5, 0));
    let ink = new_product(&mut db, "ink", money(2, 0));
    add_to_cart(&mut db, 1, pen, 1).unwrap();
    add_to_cart(&mut db, 1, ink, 1).unwrap();
    add_to_cart(&mut db, 2, pen, 1).unwrap();
    remove_from_cart(&mut db, 1, 999).unwrap();
    assert_eq!(db.cart.len(), 3);
    remove_from_cart(&mut db, 1, pen).unwrap();
    assert_eq!(get_cart(&db, 1).unwrap().len(), 1);
    clear_cart(&mut db, 1).unwrap();
    assert_eq!(get_cart(&db, 1).unwrap().len(), 0);
    assert_eq!(get_cart(&db, 2).unwrap().len(), 1);
}

#[test]
fn order_on_empty_cart_fails_and_writes_nothing() {
    let mut db = Database::new();
    let r = create_order(&mut db, 42);
    assert!(matches!(r, Err(ApiError::ValidationError(_))));
    assert_eq!(db.orders.len(), 0);
    assert_eq!(db.order_items.len(), 0);
}

#[test]
fn order_converts_the_whole_cart() {
    let mut db = Database::new();
    let user = 5u128;
    let pen = new_product(&mut db, "pen", money(1050, 2));
    let ink = new_product(&mut db, "ink", money(3, 0));
    add_to_cart(&mut db, user, pen, 2).unwrap();
    add_to_cart(&mut db, user, ink, 4).unwrap();
    add_to_cart(&mut db, 6, ink, 1).unwrap();
    let before = calculate_cart_total(&db, user).unwrap();
    let order = create_order(&mut db, user).unwrap();
    assert_eq!(order.total_price, before);
    assert_eq!(order.status, "pending");
    assert_eq!(order.user_id, user);
    assert_eq!(get_cart(&db, user).unwrap().len(), 0);
    assert_eq!(get_cart(&db, 6).unwrap().len(), 1);
    let (stored, items) = get_order_details(&db, order.id).unwrap();
    assert_eq!(stored.id, order.id);
    assert_eq!(items.len(), 2);
    assert_eq!(items[0].product_id, pen);
    assert_eq!(items[0].quantity, 2);
    assert_eq!(items[0].price, money(1050, 2));
    assert_eq!(items[1].price, money(3, 0));
    assert_eq!(get_order_history(&db, user).unwrap().len(), 1);
    assert_eq!(get_order_history(&db, 6).unwrap().len(), 0);
}

#[test]
fn order_with_vanished_product_changes_nothing() {
    let mut db = Database::new();
    let pen = new_product(&mut db, "pen", money(5, 0));
    add_to_cart(&mut db, 1, pen, 1).unwrap();
    delete_product(&mut db, pen).unwrap();
    assert!(matches!(create_order(&mut db, 1), Err(ApiError::NotFound(_))));
    assert_eq!(db.orders.len(), 0);
    assert_eq!(db.cart.len(), 1);
}

#[test]
fn order_status_takes_any_text() {
    let mut db = Database::new();
    let pen = new_product(&mut db, "pen", money(5, 0));
    add_to_cart(&mut db, 1, pen, 1).unwrap();
    let order = create_order(&mut db, 1).unwrap();
    update_order_status(&mut db, order.id, "shipped-ish".to_string()).unwrap();
    assert_eq!(db.orders[0].status, "shipped-ish");
    let missing = update_order_status(&mut db, order.id + 1, "x".to_string());
    assert!(matches!(missing, Err(ApiError::NotFound(_))));
    assert!(matches!(get_order_details(&db, order.id + 1), Err(ApiError::NotFound(_))));
}

#[test]
fn invalid_product_status_leaves_row_unchanged() {
    let mut db = Database::new();
    let pen = new_product(&mut db, "pen", money(5, 0));
    let r = update_product_status(&mut db, pen, "discontinued".to_string());
    assert!(matches!(r, Err(ApiError::ValidationError(_))));
    assert_eq!(get_product_by_id(&db, pen).unwrap().status, "available");
    update_product_status(&mut db, pen, "sold".to_string()).unwrap();
    assert_eq!(get_product_by_id(&db, pen).unwrap().status, "sold");
    let missing = update_product_status(&mut db, pen + 1, "reserved".to_string());
    assert!(matches!(missing, Err(ApiError::NotFound(_))));
}

#[test]
fn product_creation_checks_status() {
    let mut db = Database::new();
    let bad = create_product(&mut db, "pen".to_string(), None, money(1, 0), Some("gone".to_string()));
    assert!(matches!(bad, Err(ApiError::ValidationError(_))));
    let reserved = create_product(
        &mut db,
        "pen".to_string(),
        Some("blue".to_string()),
        money(1, 0),
        Some("reserved".to_string()),
    )
    .unwrap();
    assert_eq!(reserved.status, "reserved");
    assert_eq!(reserved.description, Some("blue".to_string()));
    assert_eq!(get_all_products(&db).unwrap().len(), 1);
}

#[test]
fn product_update_changes_only_supplied_fields() {
    let mut db = Database::new();
    let id = create_product(&mut db, "pen".to_string(), Some("blue".to_string()), money(1, 0), None)
        .unwrap()
        .id;
    let p = update_product(&mut db, id, Some("marker".to_string()), None, None).unwrap();
    assert_eq!(p.name, "marker");
    assert_eq!(p.description, Some("blue".to_string()));
    assert_eq!(p.price, money(1, 0));
    let missing = update_product(&mut db, id + 1, None, None, None);
    assert!(matches!(missing, Err(ApiError::NotFound(_))));
}

#[test]
fn missing_product_message_names_the_id() {
    let db = Database::new();
    match get_product_by_id(&db, 42) {
        Err(ApiError::NotFound(m)) => {
            assert_eq!(m, "Product with ID 00000000-0000-0000-0000-00000000002a not found")
        }
        _ => panic!("expected NotFound"),
    }
    let mut db = Database::new();
    assert!(matches!(delete_product(&mut db, 42), Err(ApiError::NotFound(_))));
}

#[test]
fn cart_total_adds_across_scales() {
    let mut db = Database::new();
    let pen = new_product(&mut db, "pen", money(15, 1));
    let ink = new_product(&mut db, "ink", money(25, 2));
    add_to_cart(&mut db, 1, pen, 1).unwrap();
    add_to_cart(&mut db, 1, ink, 1).unwrap();
    assert_eq!(calculate_cart_total(&db, 1).unwrap(), money(175, 2));
}

#[test]
fn cart_total_overflow_is_an_internal_error() {
    let mut db = Database::new();
    let big = new_product(&mut db, "yacht", money(79228162514264337593543950335, 0));
    add_to_cart(&mut db, 1, big, 2).unwrap();
    assert_eq!(calculate_cart_total(&db, 1), Err(ApiError::InternalServerError));
}

#[test]
fn money_parts_are_range_checked() {
    assert!(Money::from_parts(1, 29).is_none());
    assert!(Money::from_parts(79228162514264337593543950336, 0).is_none());
    assert_eq!(Money::from_parts(-5, 2), Some(Money { mantissa: -5, scale: 2 }));
    let mut db = Database::new();
    let bad = create_product(&mut db, "pen".to_string(), None, Money { mantissa: 1, scale: 30 }, None);
    assert!(matches!(bad, Err(ApiError::ValidationError(_))));
}

#[test]
fn errors_map_to_status_and_body() {
    assert_eq!(ApiError::DatabaseError("x".to_string()).status_code(), 500);
    assert_eq!(ApiError::InternalServerError.status_code(), 500);
    assert_eq!(ApiError::ValidationError("x".to_string()).status_code(), 400);
    assert_eq!(ApiError::NotFound("x".to_string()).status_code(), 404);
    assert_eq!(ApiError::AuthenticationError("x".to_string()).status_code(), 401);
    assert_eq!(
        ApiError::NotFound("gone".to_string()).error_response(),
        ("NotFound".to_string(), "gone".to_string())
    );
    assert_eq!(
        ApiError::InternalServerError.error_response(),
        ("InternalServerError".to_string(), "An unexpected error occurred".to_string())
    );
    assert_eq!(ApiError::ValidationError("bad".to_string()).describe(), "Validation error: bad");
    assert_eq!(ApiError::InternalServerError.describe(), "Internal server error");
}

#[test]
fn config_requires_a_secret() {
    assert!(matches!(AppConfig::new(None), Err(ApiError::AuthenticationError(_))));
    assert_eq!(AppConfig::new(Some("k".to_string())).unwrap().jwt_secret, "k");
}

#[test]
fn valid_token_grants_access_to_any_other_route() {
    let gate = AuthMiddleware;
    for path in ["/products", "/cart/1", "/orders/2/details"] {
        let claims = Claims::new("user-1".to_string(), 10_000);
        match gate.decide(path, Some("Bearer abc.def.ghi"), Some(claims), 9_000) {
            Access::Granted(sub) => assert_eq!(sub, "user-1"),
            _ => panic!("expected access"),
        }
    }
}

#[test]
fn expired_or_malformed_token_is_refused_everywhere() {
    let gate = AuthMiddleware;
    for path in ["/products", "/cart/1", "/orders/2/details"] {
        let stale = Claims::new("user-1".to_string(), 1_000);
        let r = gate.decide(path, Some("Bearer abc"), Some(stale), 1_061);
        assert!(matches!(r, Access::Denied(_)));
        assert_eq!(r.status_code(), Some(401));
        let r = gate.decide(path, Some("Bearer abc"), None, 1_000);
        assert_eq!(r.status_code(), Some(401));
        let r = gate.decide(path, Some("Token abc"), None, 1_000);
        assert_eq!(r.status_code(), Some(401));
        let r = gate.decide(path, None, None, 1_000);
        assert_eq!(r.status_code(), Some(401));
    }
}

#[test]
fn token_within_leeway_is_accepted() {
    let gate = AuthMiddleware;
    let claims = Claims::new("u".to_string(), 1_000);
    assert!(matches!(gate.judge_claims(Some(claims), 1_060), Access::Granted(_)));
}

#[test]
fn auth_routes_need_no_token() {
    let gate = AuthMiddleware;
    assert!(matches!(gate.decide("/auth/login", None, None, 0), Access::Exempt));
    assert!(matches!(gate.inspect("/auth/register", None), Gate::Open));
    match gate.inspect("/products", Some("Bearer tok")) {
        Gate::Check(t) => assert_eq!(t, "tok"),
        _ => panic!("expected a token check"),
    }
}

#[test]
fn password_length_counts_bytes() {
    assert_eq!(validate_password("Ab1\u{e9}\u{e9}\u{e9}"), Ok(()));
    assert!(validate_password("Ab1\u{e9}").is_err());
}

#[test]
fn refusals_carry_their_messages() {
    let mut db = Database::new();
    let pen = new_product(&mut db, "pen", money(5, 0));
    assert_eq!(
        update_product_status(&mut db, pen, "SOLD".to_string()),
        Err(ApiError::ValidationError("Invalid status: SOLD".to_string()))
    );
    let unknown = login(
        &db,
        &LoginData { username: "ghost".to_string(), password: "Secret123".to_string() },
    );
    assert_eq!(unknown.err(), Some(ApiError::AuthenticationError("Invalid credentials".to_string())));
    match get_order_details(&db, 255) {
        Err(ApiError::NotFound(m)) => {
            assert_eq!(m, "Order with ID 00000000-0000-0000-0000-0000000000ff not found")
        }
        _ => panic!("expected NotFound"),
    }
    let gate = AuthMiddleware;
    match gate.decide("/products", Some("Basic abc"), None, 0) {
        Access::Denied(m) => assert_eq!(m, "Missing or invalid token"),
        _ => panic!("expected a refusal"),
    }
    match gate.decide("/products", Some("Bearer abc"), None, 0) {
        Access::Denied(m) => assert_eq!(m, "Invalid or expired token"),
        _ => panic!("expected a refusal"),
    }
}

#[test]
fn token_subject_must_match_path_user() {
    assert!(subject_is_user("00000000-0000-0000-0000-00000000002a", 42));
    assert!(!subject_is_user("00000000-0000-0000-0000-00000000002b", 42));
}

#[test]
fn signed_tokens_decode_with_the_secret() {
    let claims = Claims::new("user-9".to_string(), 4_000_000_000);
    let token = sign_claims(&claims, "k3y").unwrap();
    let key = jsonwebtoken::DecodingKey::from_secret(b"k3y");
    let data = jsonwebtoken::decode::<serde_json::Value>(&token, &key, &jsonwebtoken::Validation::default())
        .unwrap();
    assert_eq!(data.claims["sub"], "user-9");
    assert_eq!(data.claims["exp"], 4_000_000_000u64);
    let wrong = jsonwebtoken::DecodingKey::from_secret(b"other");
    assert!(jsonwebtoken::decode::<serde_json::Value>(&token, &wrong, &jsonwebtoken::Validation::default()).is_err());
    let fresh = generate_jwt("user-9", "k3y").unwrap();
    assert_eq!(fresh.split('.').count(), 3);
}
