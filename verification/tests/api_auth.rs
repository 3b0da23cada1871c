use yakyak::domain::api_auth::{
    ApiAuthManager, ApiKey, AuthContext, AuthError, AuthMethod, AuthResult, TokenClaims, TokenType,
};

fn token_type_name(t: TokenType) -> &'static str {
    match t {
        TokenType::Access => "Access",
        TokenType::Refresh => "Refresh",
        TokenType::ApiKey => "ApiKey",
    }
}

fn to_json(c: &TokenClaims) -> Result<String, String> {
    let mut m = serde_json::Map::new();
    m.insert("sub".to_string(), serde_json::Value::String(c.sub.to_string()));
    m.insert("username".to_string(), serde_json::Value::String(c.username.clone()));
    m.insert(
        "role_id".to_string(),
        match c.role_id {
            Some(r) => serde_json::Value::String(r.to_string()),
            None => serde_json::Value::Null,
        },
    );
    m.insert("token_type".to_string(), serde_json::Value::String(token_type_name(c.token_type).to_string()));
    m.insert("iat".to_string(), serde_json::Value::from(c.iat));
    m.insert("exp".to_string(), serde_json::Value::from(c.exp));
    m.insert("iss".to_string(), serde_json::Value::String(c.iss.clone()));
    m.insert(
        "scopes".to_string(),
        serde_json::Value::Array(c.scopes.iter().map(|s| serde_json::Value::String(s.clone())).collect()),
    );
    serde_json::to_string(&serde_json::Value::Object(m)).map_err(|e| e.to_string())
}

fn from_json(text: &str) -> Result<TokenClaims, String> {
    let v: serde_json::Value = serde_json::from_str(text).map_err(|e| e.to_string())?;
    let field = |k: &str| v.get(k).cloned().ok_or_else(|| format!("missing {}", k));
    let sub: u128 = field("sub")?.as_str().ok_or("sub")?.parse().map_err(|_| "sub".to_string())?;
    let role_id = match field("role_id")? {
        serde_json::Value::Null => None,
        r => Some(r.as_str().ok_or("role")?.parse::<u128>().map_err(|_| "role".to_string())?),
    };
    let token_type = match field("token_type")?.as_str().ok_or("type")? {
        "Access" => TokenType::Access,
        "Refresh" => TokenType::Refresh,
        _ => TokenType::ApiKey,
    };
    Ok(TokenClaims {
        sub,
        username: field("username")?.as_str().ok_or("username")?.to_string(),
        role_id,
        token_type,
        iat: field("iat")?.as_i64().ok_or("iat")?,
        exp: field("exp")?.as_i64().ok_or("exp")?,
        iss: field("iss")?.as_str().ok_or("iss")?.to_string(),
        scopes: field("scopes")?
            .as_array()
            .ok_or("scopes")?
            .iter()
            .map(|s| s.as_str().unwrap_or_default().to_string())
            .collect(),
    })
}

const USER: u128 = 0x1111_2222_3333_4444_8555_6666_7777_8888;

#[test]
fn test_token_claims_creation() {
    let claims = TokenClaims::new(USER, "testuser".to_string(), Some(7), TokenType::Access, 3600);

    assert_eq!(claims.username, "testuser");
    assert_eq!(claims.token_type, TokenType::Access);
    assert!(!claims.is_expired());
}

#[test]
fn test_token_claims_expiry() {
    let mut claims = TokenClaims::new(USER, "testuser".to_string(), None, TokenType::Access, 3600);

    assert!(!claims.is_expired());
    assert!(claims.expires_in() > 3500);

    claims.exp = claims.iat - 100;
    assert!(claims.is_expired());
}

#[test]
fn test_token_claims_scopes() {
    let claims = TokenClaims::new(USER, "testuser".to_string(), None, TokenType::Access, 3600)
        .with_scopes(vec!["read".to_string(), "write".to_string()]);

    assert!(claims.has_scope("read"));
    assert!(claims.has_scope("write"));
    assert!(!claims.has_scope("admin"));
}

#[test]
fn test_api_key_creation() {
    let api_key = ApiKey::new("Test Key".to_string(), vec!["api:read".to_string(), "api:write".to_string()]);

    assert!(api_key.key.starts_with("yk_"));
    assert_eq!(api_key.key.len(), 35);
    assert!(api_key.is_valid());
    assert!(api_key.has_scope("api:read"));
}

#[test]
fn test_api_key_expiry() {
    let mut api_key = ApiKey::new_at(1, 2, "Test".to_string(), vec![], 0).with_expiry(1_000);

    assert!(!api_key.is_valid_at(1_001));

    api_key.expires_at = Some(10_000);
    assert!(api_key.is_valid_at(1_001));
    assert!(!ApiKey::new("Test".to_string(), vec![]).with_expiry(0).is_valid());
}

#[test]
fn test_api_key_usage() {
    let mut api_key = ApiKey::new("Test".to_string(), vec![]);
    assert_eq!(api_key.usage_count, 0);
    assert!(api_key.last_used_at.is_none());

    api_key.record_usage();
    assert_eq!(api_key.usage_count, 1);
    assert!(api_key.last_used_at.is_some());
}

#[test]
fn test_auth_manager_token_generation() {
    let manager = ApiAuthManager::new("test-secret".to_string());

    let token = manager.generate_token(USER, "testuser".to_string(), None, vec!["read".to_string()], &to_json);

    assert!(token.is_ok());
    let token = token.unwrap();
    assert_eq!(token.token_type, "Bearer");
    assert!(token.refresh_token.is_some());
}

#[test]
fn test_auth_manager_token_verification() {
    let manager = ApiAuthManager::new("test-secret".to_string());

    let user_id = USER;
    let token = manager.generate_token(user_id, "testuser".to_string(), None, vec!["read".to_string()], &to_json).unwrap();

    let result = manager.verify_token(&token.access_token, &from_json);
    assert!(result.is_ok());

    let claims = result.unwrap();
    assert_eq!(claims.sub, user_id);
    assert_eq!(claims.username, "testuser");
}

#[test]
fn test_auth_manager_token_revocation() {
    let mut manager = ApiAuthManager::new("test-secret".to_string());

    let token = manager.generate_token(USER, "testuser".to_string(), None, vec![], &to_json).unwrap();

    assert!(manager.verify_token(&token.access_token, &from_json).is_ok());

    manager.revoke_token(&token.access_token);
    assert!(manager.verify_token(&token.access_token, &from_json).is_err());
}

#[test]
fn test_auth_manager_api_key() {
    let mut manager = ApiAuthManager::new("test-secret".to_string());

    let api_key = manager.create_api_key("Test Service".to_string(), vec!["service:access".to_string()]);

    let result = manager.verify_api_key(&api_key.key);
    assert!(result.is_ok());

    let verified_key = result.unwrap();
    assert_eq!(verified_key.usage_count, 1);
}

#[test]
fn test_auth_manager_api_key_revocation() {
    let mut manager = ApiAuthManager::new("test-secret".to_string());

    let api_key = manager.create_api_key("Test".to_string(), vec![]);
    assert!(manager.verify_api_key(&api_key.key).is_ok());

    manager.revoke_api_key(&api_key.key);
    assert!(manager.verify_api_key(&api_key.key).is_err());
}

#[test]
fn test_auth_context_permissions() {
    let context = AuthContext {
        user_id: USER,
        username: "testuser".to_string(),
        role_id: None,
        scopes: vec!["read".to_string(), "write".to_string()],
        auth_method: AuthMethod::JwtToken,
    };

    assert!(context.has_permission("read"));
    assert!(context.has_permission("write"));
    assert!(!context.has_permission("admin"));

    assert!(context.has_any_permission(&["read", "admin"]));
    assert!(context.has_all_permissions(&["read", "write"]));
    assert!(!context.has_all_permissions(&["read", "write", "admin"]));
}

#[test]
fn api_auth_test_rate_limiting() {
    let mut manager = ApiAuthManager::new("test-secret".to_string());

    for _ in 0..5 {
        assert!(manager.check_rate_limit("test-user", 5, 60));
    }

    assert!(!manager.check_rate_limit("test-user", 5, 60));
}

#[test]
fn rate_window_starts_again_after_it_passes() {
    let mut manager = ApiAuthManager::new("s".to_string());
    assert!(manager.check_rate_limit_at("u", 1, 60, 0));
    assert!(!manager.check_rate_limit_at("u", 1, 60, 60_000));
    assert!(manager.check_rate_limit_at("u", 1, 60, 61_000));
    assert!(manager.check_rate_limit_at("other", 1, 60, 61_000));
}

#[test]
fn tokens_are_hex_framed_and_checked() {
    let manager = ApiAuthManager::new("k".to_string());
    // "A" is 0x41, "k" is 0x6b.
    assert_eq!(manager.encode_token("A"), "41::6b");
    assert_eq!(manager.decode_token("41::6b"), Ok("A".to_string()));
    assert!(manager.decode_token("41::6c").is_err());
    assert!(manager.decode_token("41").is_err());
    assert!(manager.decode_token("41::6b::6b").is_err());
    assert!(manager.decode_token("zz::6b").is_err());
    // A leading plus sign is read as a sign: "+4" is 4.
    assert_eq!(manager.decode_token("+4::6b"), Ok("\u{4}".to_string()));
}

#[test]
fn expired_and_wrong_kind_tokens_are_refused() {
    let manager = ApiAuthManager::new("secret".to_string());
    let token = manager.generate_token_at(USER, "u".to_string(), None, vec![], 1_000, &to_json).unwrap();
    assert!(manager.verify_token_at(&token.access_token, 1_000 + 3_600, &from_json).is_ok());
    assert_eq!(
        manager.verify_token_at(&token.access_token, 1_000 + 3_601, &from_json).unwrap_err(),
        AuthError::ExpiredToken
    );
    assert_eq!(
        manager.refresh_token_at(&token.access_token, 2_000, &to_json, &from_json).unwrap_err(),
        AuthError::InvalidToken
    );
    let refresh = token.refresh_token.unwrap();
    let fresh = manager.refresh_token_at(&refresh, 2_000, &to_json, &from_json).unwrap();
    let claims = manager.verify_token_at(&fresh.access_token, 2_000, &from_json).unwrap();
    assert_eq!(claims.token_type, TokenType::Access);
    assert_eq!(claims.exp, 2_000 + 3_600);
    let other = ApiAuthManager::new("other".to_string());
    assert_eq!(other.verify_token_at(&fresh.access_token, 2_000, &from_json).unwrap_err(), AuthError::InvalidToken);
    assert_eq!(AuthError::RateLimitExceeded.to_string(), "Rate limit exceeded");
}

#[test]
fn api_key_authentication_builds_the_context() {
    let mut manager = ApiAuthManager::new("s".to_string());
    let key = manager.create_api_key_at("svc".to_string(), vec!["a".to_string()], 5, 6, 0);
    match manager.authenticate_api_key_at(&key.key, 10) {
        AuthResult::Success(ctx) => {
            assert_eq!(ctx.user_id, 5);
            assert_eq!(ctx.username, "svc");
            assert_eq!(ctx.auth_method, AuthMethod::ApiKey);
        },
        AuthResult::Failed(_) => panic!("expected success"),
    }
    assert!(matches!(manager.authenticate_api_key_at("yk_nope", 10), AuthResult::Failed(AuthError::InvalidApiKey)));
    assert_eq!(manager.verify_api_key_at(&key.key, 11).unwrap().usage_count, 2);
}

#[test]
fn tokens_that_cannot_be_read_are_told_apart() {
    let mut manager = ApiAuthManager::new("k".to_string());
    assert!(manager.can_check_token("41::6b"));
    assert!(manager.can_check_token("41"));
    assert!(manager.can_check_token("zz::6b"));
    assert!(!manager.can_check_token("4::6b"));
    assert!(!manager.can_check_token("41::6"));
    assert!(manager.can_check_token("ff::6"));
    manager.revoke_token("4::6b");
    assert!(manager.can_check_token("4::6b"));
    assert_eq!(manager.access_token_expiry(), 3600);
    assert_eq!(manager.refresh_token_expiry(), 2_592_000);
}

#[test]
fn tokens_issued_now_authenticate() {
    let manager = ApiAuthManager::new("secret".to_string()).with_token_expiry(60, 120);
    let token = manager.generate_token(USER, "u".to_string(), Some(3), vec!["calls".to_string()], &to_json).unwrap();
    assert_eq!(token.expires_in, 60);
    match manager.authenticate_token(&token.access_token, &from_json) {
        AuthResult::Success(ctx) => {
            assert_eq!(ctx.user_id, USER);
            assert_eq!(ctx.username, "u");
            assert_eq!(ctx.role_id, Some(3));
            assert_eq!(ctx.scopes, vec!["calls".to_string()]);
            assert_eq!(ctx.auth_method, AuthMethod::JwtToken);
        },
        AuthResult::Failed(_) => panic!("expected success"),
    }
    let claims = manager.verify_token(&token.access_token, &from_json).unwrap();
    assert_eq!(claims.token_type, TokenType::Access);
    match manager.authenticate_token_at(&token.access_token, claims.exp + 1, &from_json) {
        AuthResult::Failed(e) => assert_eq!(e, AuthError::ExpiredToken),
        AuthResult::Success(_) => panic!("expected expiry"),
    }
}
