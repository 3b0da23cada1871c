//! API authentication: token claims and the framed tokens that carry them,
//! API keys, permission checks, revocation and request-rate limits. Claims
//! times are Unix seconds; key and rate-limit times are milliseconds since
//! the Unix epoch. Claims travel as JSON text, which the caller turns to and
//! from `TokenClaims` (the `to_json` and `from_json` parameters).
use vstd::prelude::*;
use vstd::utf8::{decode_utf8, encode_utf8, valid_utf8};
use crate::domain::shared::system::{clock_reading, 
    format_uuid, hex_digit, is_v4_uuid, new_uuid, now_millis, now_seconds, seconds_between, timestamp_in_range,
    uuid_text,
};
use crate::store::{KeyOf, Keyed, Store};
use crate::text::{chars_of, push_char, str_eq, utf8_to_string};

verus! {

/// API authentication token type
#[derive(Debug, Clone, Copy, PartialEq, Eq, Structural)]
pub enum TokenType {
    /// Access token for API requests
    Access,
    /// Refresh token for obtaining new access tokens
    Refresh,
    /// API key for service-to-service communication
    ApiKey,
}

/// Token claims.
#[derive(Debug, Clone)]
pub struct TokenClaims {
    /// Subject (user ID)
    pub sub: u128,
    pub username: String,
    pub role_id: Option<u128>,
    pub token_type: TokenType,
    /// Issued at (Unix seconds)
    pub iat: i64,
    /// Expiration time (Unix seconds)
    pub exp: i64,
    /// Issuer
    pub iss: String,
    pub scopes: Vec<String>,
}

/// A span of seconds that chrono's `Duration::seconds` accepts.
pub open spec fn seconds_span_ok(secs: int) -> bool {
    -(i64::MAX / 1000) <= secs <= i64::MAX / 1000
}

/// Some entry of `items` has the text `s`.
pub open spec fn listed(items: Seq<String>, s: Seq<char>) -> bool {
    exists|i: int| 0 <= i < items.len() && (#[trigger] items[i])@ == s
}

fn is_listed(items: &Vec<String>, s: &str) -> (r: bool)
    ensures
        r == listed(items@, s@),
{
    let mut i: usize = 0;
    while i < items.len()
        invariant
            i <= items@.len(),
            forall|j: int| 0 <= j < i ==> (#[trigger] items@[j])@ != s@,
        decreases items.len() - i,
    {
        if str_eq(items[i].as_str(), s) {
            return true;
        }
        i = i + 1;
    }
    false
}

fn copy_strings(v: &Vec<String>) -> (r: Vec<String>)
    ensures
        r@ == v@,
{
    let mut out: Vec<String> = Vec::new();
    let mut i: usize = 0;
    while i < v.len()
        invariant
            i <= v@.len(),
            out@ == v@.take(i as int),
        decreases v.len() - i,
    {
        out.push(v[i].clone());
        i = i + 1;
        assert(out@ =~= v@.take(i as int));
    }
    assert(v@.take(i as int) =~= v@);
    out
}

impl TokenClaims {
    /// Claims issued at `now` (Unix seconds) that expire `expiry_seconds`
    /// later, by `yakyak-pbx`, with no scopes.
    pub fn new_at(
        user_id: u128,
        username: String,
        role_id: Option<u128>,
        token_type: TokenType,
        expiry_seconds: i64,
        now: i64,
    ) -> (r: Self)
        requires
            seconds_span_ok(expiry_seconds as int),
            timestamp_in_range(now as int),
            timestamp_in_range(now + expiry_seconds),
        ensures
            r.sub == user_id && r.username == username && r.role_id == role_id && r.token_type == token_type,
            r.iat == now,
            r.exp == now + expiry_seconds,
            r.iss@ == "yakyak-pbx"@,
            r.scopes@.len() == 0,
    {
        TokenClaims {
            sub: user_id,
            username,
            role_id,
            token_type,
            iat: now,
            exp: now + expiry_seconds,
            iss: String::from_str("yakyak-pbx"),
            scopes: Vec::new(),
        }
    }

    /// Claims issued now. Where the expiry would leave the range of dates
    /// chrono can hold (a quarter of a million years away), it stops at the
    /// range's end.
    pub fn new(user_id: u128, username: String, role_id: Option<u128>, token_type: TokenType, expiry_seconds: i64) -> (r:
        Self)
        requires
            seconds_span_ok(expiry_seconds as int),
        ensures
            r.sub == user_id && r.username == username && r.role_id == role_id && r.token_type == token_type,
            timestamp_in_range(r.iat as int),
            timestamp_in_range(r.iat + expiry_seconds) ==> r.exp == r.iat + expiry_seconds,
            r.iss@ == "yakyak-pbx"@,
            r.scopes@.len() == 0,
    {
        let now = now_seconds();
        let sum: i128 = now as i128 + expiry_seconds as i128;
        let span: i64 = if sum > 8_210_266_876_799 {
            8_210_266_876_799 - now
        } else if sum < -8_334_601_315_200 {
            -8_334_601_315_200 - now
        } else {
            expiry_seconds
        };
        let mut c = Self::new_at(user_id, username, role_id, token_type, 0, now);
        c.exp = now + span;
        c
    }

    pub fn with_scopes(self, scopes: Vec<String>) -> (r: Self)
        ensures
            r == (TokenClaims { scopes, ..self }),
    {
        let mut c = self;
        c.scopes = scopes;
        c
    }

    /// Expired once `now` (Unix seconds) is past the expiry.
    pub fn is_expired_at(&self, now: i64) -> (r: bool)
        ensures
            r == (now > self.exp),
    {
        now > self.exp
    }

    /// Whether the claims have expired by the clock.
    pub fn is_expired(&self) -> (r: bool) {
        self.is_expired_at(now_seconds())
    }

    /// Seconds left until expiry at `now`.
    pub fn expires_in_at(&self, now: i64) -> (r: i64)
        requires
            i64::MIN <= self.exp - now <= i64::MAX,
        ensures
            r == self.exp - now,
    {
        self.exp - now
    }

    /// Seconds left until expiry by the clock.
    pub fn expires_in(&self) -> (r: i64)
        requires
            timestamp_in_range(self.exp as int),
        ensures
            exists|now: i64| #[trigger] timestamp_in_range(now as int) && r == self.exp - now,
    {
        let now = now_seconds();
        let r = self.expires_in_at(now);
        assert(timestamp_in_range(now as int) && r == self.exp - now);
        r
    }

    pub fn has_scope(&self, scope: &str) -> (r: bool)
        ensures
            r == listed(self.scopes@, scope@),
    {
        is_listed(&self.scopes, scope)
    }

    pub fn duplicate(&self) -> (r: Self)
        ensures
            r.sub == self.sub && r.username == self.username && r.role_id == self.role_id,
            r.token_type == self.token_type && r.iat == self.iat && r.exp == self.exp && r.iss == self.iss,
            r.scopes@ == self.scopes@,
    {
        TokenClaims {
            sub: self.sub,
            username: self.username.clone(),
            role_id: self.role_id,
            token_type: self.token_type,
            iat: self.iat,
            exp: self.exp,
            iss: self.iss.clone(),
            scopes: copy_strings(&self.scopes),
        }
    }
}

/// API token as handed to a client.
#[derive(Debug, Clone)]
pub struct ApiToken {
    pub access_token: String,
    pub refresh_token: Option<String>,
    pub token_type: String,
    pub expires_in: i64,
    pub scope: Option<String>,
}

impl ApiToken {
    /// A bearer token without refresh token or scope.
    pub fn new(access_token: String, expires_in: i64) -> (r: Self)
        ensures
            r.access_token == access_token,
            r.refresh_token is None,
            r.token_type@ == "Bearer"@,
            r.expires_in == expires_in,
            r.scope is None,
    {
        ApiToken { access_token, refresh_token: None, token_type: String::from_str("Bearer"), expires_in, scope: None }
    }

    pub fn with_refresh_token(self, refresh_token: String) -> (r: Self)
        ensures
            r == (ApiToken { refresh_token: Some(refresh_token), ..self }),
    {
        let mut t = self;
        t.refresh_token = Some(refresh_token);
        t
    }

    pub fn with_scope(self, scope: String) -> (r: Self)
        ensures
            r == (ApiToken { scope: Some(scope), ..self }),
    {
        let mut t = self;
        t.scope = Some(scope);
        t
    }
}

/// API key for service-to-service authentication; times in milliseconds.
#[derive(Debug, Clone)]
pub struct ApiKey {
    pub id: u128,
    pub key: String,
    pub name: String,
    pub description: String,
    pub scopes: Vec<String>,
    pub enabled: bool,
    pub created_at: i64,
    pub expires_at: Option<i64>,
    pub last_used_at: Option<i64>,
    pub usage_count: u64,
}

impl Keyed for ApiKey {
    type Key = str;

    open spec fn key(&self) -> Seq<char> {
        self.key@
    }

    open spec fn inv(&self) -> bool {
        true
    }

    fn key_ref(&self) -> (r: &str) {
        let r = self.key.as_str();
        assert(r.kv() == r@);
        r
    }
}

/// The key text made from an identifier: `yk_` and its 32 hexadecimal digits.
pub open spec fn key_text(id: u128) -> Seq<char> {
    "yk_"@ + uuid_text(id).filter(|c: char| c != '-')
}

/// An API key is usable at `now`: enabled and not past its expiry.
pub open spec fn key_valid_at(k: ApiKey, now: i64) -> bool {
    k.enabled && !(k.expires_at matches Some(e) && now > e)
}

/// The key text for an identifier.
fn generate_key_from(id: u128) -> (r: String)
    ensures
        r@ == key_text(id),
{
    let text = format_uuid(id);
    let chars = chars_of(text.as_str());
    let ghost f = |c: char| c != '-';
    let mut out = String::from_str("yk_");
    proof {
        reveal_strlit("yk_");
    }
    let ghost prefix = out@;
    let mut i: usize = 0;
    assert(chars@.take(0).filter(f) =~= Seq::<char>::empty());
    while i < chars.len()
        invariant
            i <= chars@.len(),
            chars@ == uuid_text(id),
            prefix == "yk_"@,
            f == (|c: char| c != '-'),
            out@ == prefix + chars@.take(i as int).filter(f),
        decreases chars.len() - i,
    {
        proof {
            reveal(Seq::filter);
            assert(chars@.take(i + 1).drop_last() =~= chars@.take(i as int));
        }
        if chars[i] != '-' {
            push_char(&mut out, chars[i]);
        }
        i = i + 1;
        assert(out@ =~= prefix + chars@.take(i as int).filter(f));
    }
    assert(chars@.take(i as int) =~= chars@);
    out
}

impl ApiKey {
    /// An enabled key created at `now` (milliseconds) with identifier `id`
    /// and the key text made from `key_id`.
    pub fn new_at(id: u128, key_id: u128, name: String, scopes: Vec<String>, now: i64) -> (r: Self)
        ensures
            r.id == id,
            r.key@ == key_text(key_id),
            r.name == name,
            r.description@.len() == 0,
            r.scopes == scopes,
            r.enabled,
            r.created_at == now,
            r.expires_at is None && r.last_used_at is None && r.usage_count == 0,
    {
        ApiKey {
            id,
            key: generate_key_from(key_id),
            name,
            description: String::new(),
            scopes,
            enabled: true,
            created_at: now,
            expires_at: None,
            last_used_at: None,
            usage_count: 0,
        }
    }

    /// An enabled key created now, with fresh identifiers.
    pub fn new(name: String, scopes: Vec<String>) -> (r: Self)
        ensures
            is_v4_uuid(r.id),
            exists|k: u128| is_v4_uuid(k) && r.key@ == key_text(k),
            r.name == name,
            r.scopes == scopes,
            r.enabled,
            r.expires_at is None && r.last_used_at is None && r.usage_count == 0,
    {
        let id = new_uuid();
        let key_id = new_uuid();
        Self::new_at(id, key_id, name, scopes, now_millis())
    }

    pub fn with_description(self, description: String) -> (r: Self)
        ensures
            r == (ApiKey { description, ..self }),
    {
        let mut k = self;
        k.description = description;
        k
    }

    pub fn with_expiry(self, expires_at: i64) -> (r: Self)
        ensures
            r == (ApiKey { expires_at: Some(expires_at), ..self }),
    {
        let mut k = self;
        k.expires_at = Some(expires_at);
        k
    }

    /// Usable at `now`: enabled and not past its expiry.
    pub fn is_valid_at(&self, now: i64) -> (r: bool)
        ensures
            r == key_valid_at(*self, now),
    {
        if !self.enabled {
            return false;
        }
        match self.expires_at {
            Some(e) => !(now > e),
            None => true,
        }
    }

    /// Usable by the clock.
    pub fn is_valid(&self) -> (r: bool)
        ensures
            !self.enabled ==> !r,
            self.enabled && self.expires_at is None ==> r,
            exists|now: i64| #[trigger] clock_reading(now) && {
                &&& (r == key_valid_at(*self, now))
            },
    {
        let now = now_millis();
        proof {
            assert(clock_reading(now));
        }
        self.is_valid_at(now)
    }

    pub fn has_scope(&self, scope: &str) -> (r: bool)
        ensures
            r == listed(self.scopes@, scope@),
    {
        is_listed(&self.scopes, scope)
    }

    /// Counts one use at `now`.
    pub fn record_usage_at(&mut self, now: i64)
        requires
            old(self).usage_count < u64::MAX,
        ensures
            *final(self) == (ApiKey {
                usage_count: (old(self).usage_count + 1) as u64,
                last_used_at: Some(now),
                ..*old(self)
            }),
    {
        self.usage_count = self.usage_count + 1;
        self.last_used_at = Some(now);
    }

    /// Counts one use now.
    pub fn record_usage(&mut self)
        requires
            old(self).usage_count < u64::MAX,
        ensures
            final(self).usage_count == old(self).usage_count + 1,
            final(self).last_used_at is Some,
            final(self).key == old(self).key,
            exists|now: i64| #[trigger] clock_reading(now) && {
                &&& (*final(self) == (ApiKey {
                    usage_count: (old(self).usage_count + 1) as u64,
                    last_used_at: Some(now),
                    ..*old(self)
                }))
            },
    {
        let now = now_millis();
        proof {
            assert(clock_reading(now));
        }
        self.record_usage_at(now);
    }

    pub fn duplicate(&self) -> (r: Self)
        ensures
            r.id == self.id && r.key == self.key && r.name == self.name && r.description == self.description,
            r.scopes@ == self.scopes@ && r.enabled == self.enabled && r.created_at == self.created_at,
            r.expires_at == self.expires_at && r.last_used_at == self.last_used_at && r.usage_count == self.usage_count,
    {
        ApiKey {
            id: self.id,
            key: self.key.clone(),
            name: self.name.clone(),
            description: self.description.clone(),
            scopes: copy_strings(&self.scopes),
            enabled: self.enabled,
            created_at: self.created_at,
            expires_at: self.expires_at,
            last_used_at: self.last_used_at,
            usage_count: self.usage_count,
        }
    }
}

/// Authentication method
#[derive(Debug, Clone, Copy, PartialEq, Eq, Structural)]
pub enum AuthMethod {
    JwtToken,
    ApiKey,
    BasicAuth,
}

/// Authentication error
#[derive(Debug, Clone, Copy, PartialEq, Eq, Structural)]
pub enum AuthError {
    InvalidToken,
    ExpiredToken,
    InvalidApiKey,
    InvalidCredentials,
    InsufficientPermissions,
    Unauthorized,
    RateLimitExceeded,
}

/// The text of an authentication error.
pub open spec fn auth_error_text(e: AuthError) -> Seq<char> {
    match e {
        AuthError::InvalidToken => "Invalid token"@,
        AuthError::ExpiredToken => "Token expired"@,
        AuthError::InvalidApiKey => "Invalid API key"@,
        AuthError::InvalidCredentials => "Invalid credentials"@,
        AuthError::InsufficientPermissions => "Insufficient permissions"@,
        AuthError::Unauthorized => "Unauthorized"@,
        AuthError::RateLimitExceeded => "Rate limit exceeded"@,
    }
}

impl AuthError {
    pub fn to_string(&self) -> (r: String)
        ensures
            r@ == auth_error_text(*self),
    {
        match self {
            AuthError::InvalidToken => String::from_str("Invalid token"),
            AuthError::ExpiredToken => String::from_str("Token expired"),
            AuthError::InvalidApiKey => String::from_str("Invalid API key"),
            AuthError::InvalidCredentials => String::from_str("Invalid credentials"),
            AuthError::InsufficientPermissions => String::from_str("Insufficient permissions"),
            AuthError::Unauthorized => String::from_str("Unauthorized"),
            AuthError::RateLimitExceeded => String::from_str("Rate limit exceeded"),
        }
    }
}

/// Authentication context
#[derive(Debug, Clone)]
pub struct AuthContext {
    pub user_id: u128,
    pub username: String,
    pub role_id: Option<u128>,
    pub scopes: Vec<String>,
    pub auth_method: AuthMethod,
}

impl AuthContext {
    /// Granted when the permission is one of the context's scopes.
    pub fn has_permission(&self, permission: &str) -> (r: bool)
        ensures
            r == listed(self.scopes@, permission@),
    {
        is_listed(&self.scopes, permission)
    }

    /// Whether some of the permissions is granted.
    pub fn has_any_permission(&self, permissions: &[&str]) -> (r: bool)
        ensures
            r == exists|i: int| 0 <= i < permissions@.len() && listed(self.scopes@, (#[trigger] permissions@[i])@),
    {
        let mut i: usize = 0;
        while i < permissions.len()
            invariant
                i <= permissions@.len(),
                forall|j: int| 0 <= j < i ==> !listed(self.scopes@, (#[trigger] permissions@[j])@),
            decreases permissions.len() - i,
        {
            if self.has_permission(permissions[i]) {
                return true;
            }
            i = i + 1;
        }
        false
    }

    /// Whether every one of the permissions is granted.
    pub fn has_all_permissions(&self, permissions: &[&str]) -> (r: bool)
        ensures
            r == forall|i: int| 0 <= i < permissions@.len() ==> listed(self.scopes@, (#[trigger] permissions@[i])@),
    {
        let mut i: usize = 0;
        while i < permissions.len()
            invariant
                i <= permissions@.len(),
                forall|j: int| 0 <= j < i ==> listed(self.scopes@, (#[trigger] permissions@[j])@),
            decreases permissions.len() - i,
        {
            if !self.has_permission(permissions[i]) {
                return false;
            }
            i = i + 1;
        }
        true
    }
}

/// Authentication result
#[derive(Debug, Clone)]
pub enum AuthResult {
    Success(AuthContext),
    Failed(AuthError),
}

/// Two lowercase hexadecimal digits per byte, in order.
pub open spec fn hex_of_bytes(b: Seq<u8>) -> Seq<char>
    decreases b.len(),
{
    if b.len() == 0 {
        Seq::empty()
    } else {
        seq![hex_digit((b[0] / 16) as int), hex_digit((b[0] % 16) as int)] + hex_of_bytes(b.drop_first())
    }
}

proof fn lemma_hex_of_bytes_push(b: Seq<u8>, x: u8)
    ensures
        hex_of_bytes(b.push(x)) == hex_of_bytes(b) + seq![hex_digit((x / 16) as int), hex_digit((x % 16) as int)],
    decreases b.len(),
{
    let two = seq![hex_digit((x / 16) as int), hex_digit((x % 16) as int)];
    if b.len() > 0 {
        lemma_hex_of_bytes_push(b.drop_first(), x);
        assert(b.push(x).drop_first() =~= b.drop_first().push(x));
        let t = seq![hex_digit((b[0] / 16) as int), hex_digit((b[0] % 16) as int)];
        assert(b.push(x)[0] == b[0]);
        assert(hex_of_bytes(b.push(x)) == t + hex_of_bytes(b.drop_first().push(x)));
        assert(hex_of_bytes(b) == t + hex_of_bytes(b.drop_first()));
        assert(t + (hex_of_bytes(b.drop_first()) + two) =~= (t + hex_of_bytes(b.drop_first())) + two);
    } else {
        assert(b.push(x).drop_first() =~= Seq::<u8>::empty());
        assert(b.push(x)[0] == x);
        assert(hex_of_bytes(b.push(x)) == two + hex_of_bytes(Seq::<u8>::empty()));
        assert(hex_of_bytes(b.push(x)) =~= hex_of_bytes(b) + two);
    }
}

fn hex_char(n: u8) -> (c: char)
    requires
        n < 16,
    ensures
        c == hex_digit(n as int),
{
    if n < 10 {
        (48 + n) as char
    } else {
        (87 + n) as char
    }
}

/// The text in hexadecimal: two lowercase digits per UTF-8 byte.
fn base64_encode(data: &str) -> (r: String)
    ensures
        r@ == hex_of_bytes(encode_utf8(data@)),
{
    let bytes = data.as_bytes();
    let ghost b = bytes@;
    let mut out = String::new();
    let mut i: usize = 0;
    assert(b.take(0) =~= Seq::<u8>::empty());
    while i < bytes.len()
        invariant
            b == bytes@,
            b == encode_utf8(data@),
            i <= b.len(),
            out@ == hex_of_bytes(b.take(i as int)),
        decreases b.len() - i,
    {
        let x = bytes[i];
        proof {
            lemma_hex_of_bytes_push(b.take(i as int), x);
            assert(b.take(i + 1) =~= b.take(i as int).push(x));
        }
        push_char(&mut out, hex_char(x / 16));
        push_char(&mut out, hex_char(x % 16));
        i = i + 1;
        assert(out@ =~= hex_of_bytes(b.take(i as int)));
    }
    assert(b.take(i as int) =~= b);
    out
}

/// The value of one hexadecimal digit byte.
pub open spec fn hex_value(b: u8) -> Option<u8> {
    if 48 <= b <= 57 {
        Some((b - 48) as u8)
    } else if 97 <= b <= 102 {
        Some((b - 87) as u8)
    } else if 65 <= b <= 70 {
        Some((b - 55) as u8)
    } else {
        None
    }
}

/// What `u8::from_str_radix(.., 16)` makes of a two-byte text: a leading `+`
/// is a sign, else both bytes are digits.
pub open spec fn pair_value(b0: u8, b1: u8) -> Option<u8> {
    if b0 == 43 {
        hex_value(b1)
    } else {
        match (hex_value(b0), hex_value(b1)) {
            (Some(h), Some(l)) => Some((h * 16 + l) as u8),
            _ => None,
        }
    }
}

/// Reading UTF-8 bytes as hexadecimal pairs, from a character boundary:
/// `None` where a pair would end inside a character or the bytes run out
/// mid-pair (there the reading panics), `Some(None)` at the first pair that
/// is no number, else the bytes read.
pub open spec fn hex_pairs(b: Seq<u8>) -> Option<Option<Seq<u8>>>
    decreases b.len(),
{
    if b.len() == 0 {
        Some(Some(Seq::empty()))
    } else if b.len() == 1 || (b.len() >= 3 && 128 <= b[2] < 192) {
        None
    } else {
        match pair_value(b[0], b[1]) {
            None => Some(None),
            Some(v) => match hex_pairs(b.skip(2)) {
                Some(Some(rest)) => Some(Some(seq![v] + rest)),
                other => other,
            },
        }
    }
}

/// The pairs read so far in front of what the rest gives.
pub open spec fn prepend_pairs(done: Seq<u8>, rest: Option<Option<Seq<u8>>>) -> Option<Option<Seq<u8>>> {
    match rest {
        Some(Some(r)) => Some(Some(done + r)),
        other => other,
    }
}

fn hex_value_exec(b: u8) -> (r: Option<u8>)
    ensures
        r == hex_value(b),
{
    if 48 <= b && b <= 57 {
        Some(b - 48)
    } else if 97 <= b && b <= 102 {
        Some(b - 87)
    } else if 65 <= b && b <= 70 {
        Some(b - 55)
    } else {
        None
    }
}

fn pair_value_exec(b0: u8, b1: u8) -> (r: Option<u8>)
    ensures
        r == pair_value(b0, b1),
{
    if b0 == 43 {
        hex_value_exec(b1)
    } else {
        match (hex_value_exec(b0), hex_value_exec(b1)) {
            (Some(h), Some(l)) => Some(h * 16 + l),
            _ => None,
        }
    }
}

/// Whether reading the bytes as hexadecimal pairs goes through without a
/// panic (whatever it then gives).
fn hex_pairs_defined(bytes: &[u8]) -> (r: bool)
    ensures
        r == (hex_pairs(bytes@) is Some),
{
    let ghost b = bytes@;
    let mut i: usize = 0;
    assert(b.skip(0) =~= b);
    while i < bytes.len()
        invariant
            b == bytes@,
            i <= b.len(),
            (hex_pairs(b) is Some) == (hex_pairs(b.skip(i as int)) is Some),
        decreases b.len() - i,
    {
        let ghost rest = b.skip(i as int);
        assert(rest.len() == b.len() - i);
        if bytes.len() - i == 1 {
            return false;
        }
        assert(rest[0] == b[i as int] && rest[1] == b[i + 1]);
        if bytes.len() - i >= 3 && 128 <= bytes[i + 2] && bytes[i + 2] < 192 {
            assert(rest[2] == b[i + 2]);
            return false;
        }
        if pair_value_exec(bytes[i], bytes[i + 1]).is_none() {
            return true;
        }
        assert(rest.skip(2) =~= b.skip(i + 2));
        i = i + 2;
    }
    assert(b.skip(i as int) =~= Seq::<u8>::empty());
    true
}

/// The hexadecimal text read back into a string.
fn base64_decode(data: &str) -> (r: Result<String, String>)
    requires
        hex_pairs(encode_utf8(data@)) is Some,
    ensures
        match hex_pairs(encode_utf8(data@)) {
            Some(Some(bytes)) => if valid_utf8(bytes) {
                r matches Ok(s) && s@ == decode_utf8(bytes)
            } else {
                r is Err
            },
            _ => r is Err,
        },
{
    let bytes = data.as_bytes();
    let ghost b = bytes@;
    let mut out: Vec<u8> = Vec::new();
    let mut i: usize = 0;
    assert(b.skip(0) =~= b);
    while i < bytes.len()
        invariant
            b == bytes@,
            b == encode_utf8(data@),
            i <= b.len(),
            hex_pairs(b) is Some,
            hex_pairs(b) == prepend_pairs(out@, hex_pairs(b.skip(i as int))),
        decreases b.len() - i,
    {
        let ghost rest = b.skip(i as int);
        assert(rest.len() == b.len() - i);
        assert(hex_pairs(rest) is Some);
        assert(rest.len() >= 2);
        assert(rest[0] == b[i as int] && rest[1] == b[i + 1]);
        assert(rest.len() >= 3 ==> rest[2] == b[i + 2]);
        match pair_value_exec(bytes[i], bytes[i + 1]) {
            Some(v) => {
                assert(rest.skip(2) =~= b.skip(i + 2));
                proof {
                    match hex_pairs(b.skip(i + 2)) {
                        Some(Some(r2)) => {
                            assert(out@.push(v) + r2 =~= out@ + (seq![v] + r2));
                        },
                        _ => {},
                    }
                }
                out.push(v);
                i = i + 2;
            },
            None => {
                return Err(String::from_str("Decode error: invalid digit found in string"));
            },
        }
    }
    assert(b.skip(i as int) =~= Seq::<u8>::empty());
    assert(out@ + Seq::<u8>::empty() =~= out@);
    match utf8_to_string(&out) {
        Ok(s) => Ok(s),
        Err(e) => {
            let mut m = String::from_str("UTF-8 error: ");
            m.append(e.as_str());
            Err(m)
        },
    }
}

/// Where the first `::` of a text starts.
pub open spec fn first_colon_pair(t: Seq<char>) -> Option<int>
    decreases t.len(),
{
    if t.len() < 2 {
        None
    } else if t[0] == ':' && t[1] == ':' {
        Some(0int)
    } else {
        match first_colon_pair(t.drop_first()) {
            Some(j) => Some(j + 1),
            None => None,
        }
    }
}

proof fn lemma_first_colon_pair(t: Seq<char>)
    ensures
        first_colon_pair(t) matches Some(i) ==> 0 <= i && i + 2 <= t.len() && t[i] == ':' && t[i + 1] == ':',
    decreases t.len(),
{
    if t.len() >= 2 && !(t[0] == ':' && t[1] == ':') {
        lemma_first_colon_pair(t.drop_first());
        if let Some(j) = first_colon_pair(t.drop_first()) {
            assert(t[j + 1] == t.drop_first()[j] && t[j + 2] == t.drop_first()[j + 1]);
        }
    }
}

/// A first `::` found from position `from` on, given relative to the whole text.
pub open spec fn shifted(o: Option<int>, from: int) -> Option<int> {
    match o {
        Some(j) => Some(j + from),
        None => None,
    }
}

fn find_colon_pair(v: &Vec<char>) -> (r: Option<usize>)
    ensures
        match r {
            Some(i) => first_colon_pair(v@) == Some(i as int),
            None => first_colon_pair(v@) is None,
        },
{
    let mut j: usize = 0;
    assert(v@.skip(0) =~= v@);
    while j < v.len() && j + 1 < v.len()
        invariant
            j <= v@.len(),
            first_colon_pair(v@) == shifted(first_colon_pair(v@.skip(j as int)), j as int),
        decreases v@.len() - j,
    {
        let ghost rest = v@.skip(j as int);
        assert(rest[0] == v@[j as int] && rest[1] == v@[j + 1]);
        if v[j] == ':' && v[j + 1] == ':' {
            return Some(j);
        }
        assert(rest.drop_first() =~= v@.skip(j + 1));
        j = j + 1;
    }
    assert(v@.skip(j as int).len() < 2);
    None
}

/// The two parts of a token split at `::`: there must be exactly one
/// `::` as `str::split` finds them (left to right, not overlapping).
pub open spec fn token_parts(t: Seq<char>) -> Option<(Seq<char>, Seq<char>)> {
    match first_colon_pair(t) {
        None => None,
        Some(i) => if first_colon_pair(t.skip(i + 2)) is Some {
            None
        } else {
            Some((t.take(i), t.skip(i + 2)))
        },
    }
}

/// What reading a hexadecimal part gives: `None` where reading panics,
/// `Some(None)` where it is refused, else the text.
pub open spec fn hex_text_of(part: Seq<char>) -> Option<Option<Seq<char>>> {
    match hex_pairs(encode_utf8(part)) {
        None => None,
        Some(None) => Some(None),
        Some(Some(b)) => if valid_utf8(b) { Some(Some(decode_utf8(b))) } else { Some(None) },
    }
}

/// What decoding a token under `secret` gives: `None` where decoding
/// panics, `Some(None)` where the token is refused (format, hexadecimal,
/// UTF-8 or signature), else the payload text.
pub open spec fn decode_outcome(t: Seq<char>, secret: Seq<char>) -> Option<Option<Seq<char>>> {
    match token_parts(t) {
        None => Some(None),
        Some((a, b)) => match hex_text_of(a) {
            None => None,
            Some(None) => Some(None),
            Some(Some(payload)) => match hex_text_of(b) {
                None => None,
                Some(None) => Some(None),
                Some(Some(sig)) => if sig == secret { Some(Some(payload)) } else { Some(None) },
            },
        },
    }
}

/// The token for a payload under `secret`: the payload's hexadecimal
/// digits, `::`, and the secret's.
pub open spec fn framed(payload: Seq<char>, secret: Seq<char>) -> Seq<char> {
    hex_of_bytes(encode_utf8(payload)) + "::"@ + hex_of_bytes(encode_utf8(secret))
}

/// Claims with the given fields.
pub open spec fn claims_as(
    c: TokenClaims,
    user_id: u128,
    username: Seq<char>,
    role_id: Option<u128>,
    token_type: TokenType,
    now: i64,
    expiry: i64,
    scopes: Seq<String>,
) -> bool {
    &&& c.sub == user_id && c.username@ == username && c.role_id == role_id && c.token_type == token_type
    &&& c.iat == now && c.exp == now + expiry && c.iss@ == "yakyak-pbx"@ && c.scopes@ == scopes
}

/// Requests counted for one caller since the window started (milliseconds).
#[derive(Debug)]
pub struct RateWindow {
    pub identifier: String,
    pub count: u32,
    pub window_start: i64,
}

impl Keyed for RateWindow {
    type Key = str;

    open spec fn key(&self) -> Seq<char> {
        self.identifier@
    }

    open spec fn inv(&self) -> bool {
        true
    }

    fn key_ref(&self) -> (r: &str) {
        let r = self.identifier.as_str();
        assert(r.kv() == r@);
        r
    }
}

/// API authentication manager
pub struct ApiAuthManager {
    secret_key: String,
    access_token_expiry: i64,
    refresh_token_expiry: i64,
    api_keys: Store<ApiKey>,
    revoked_tokens: Vec<String>,
    rate_limits: Store<RateWindow>,
}

impl ApiAuthManager {
    pub closed spec fn spec_secret(&self) -> Seq<char> {
        self.secret_key@
    }

    /// Access token lifetime in seconds.
    pub closed spec fn spec_access_expiry(&self) -> i64 {
        self.access_token_expiry
    }

    /// Refresh token lifetime in seconds.
    pub closed spec fn spec_refresh_expiry(&self) -> i64 {
        self.refresh_token_expiry
    }

    pub closed spec fn spec_api_keys(&self) -> Store<ApiKey> {
        self.api_keys
    }

    pub closed spec fn spec_revoked(&self) -> Seq<String> {
        self.revoked_tokens@
    }

    pub closed spec fn spec_rate_limits(&self) -> Store<RateWindow> {
        self.rate_limits
    }

    /// The API key with the given text.
    pub open spec fn api_key(&self, key: Seq<char>) -> Option<ApiKey> {
        self.spec_api_keys().get_spec(key)
    }

    /// The rate window of a caller.
    pub open spec fn rate_window(&self, identifier: Seq<char>) -> Option<RateWindow> {
        self.spec_rate_limits().get_spec(identifier)
    }

    pub open spec fn wf(&self) -> bool {
        self.spec_api_keys().wf() && self.spec_rate_limits().wf()
    }

    /// Whether a token was revoked.
    pub open spec fn revoked(&self, token: Seq<char>) -> bool {
        listed(self.spec_revoked(), token)
    }

    /// A manager signing with `secret_key`: access tokens last an hour,
    /// refresh tokens thirty days.
    pub fn new(secret_key: String) -> (r: Self)
        ensures
            r.wf(),
            r.spec_secret() == secret_key@,
            r.spec_access_expiry() == 3600,
            r.spec_refresh_expiry() == 2_592_000,
            r.spec_api_keys().items().len() == 0,
            r.spec_revoked().len() == 0,
            r.spec_rate_limits().items().len() == 0,
    {
        ApiAuthManager {
            secret_key,
            access_token_expiry: 3600,
            refresh_token_expiry: 2_592_000,
            api_keys: Store::new(),
            revoked_tokens: Vec::new(),
            rate_limits: Store::new(),
        }
    }

    /// Lifetime of access tokens, in seconds.
    pub fn access_token_expiry(&self) -> (r: i64)
        ensures
            r == self.spec_access_expiry(),
    {
        self.access_token_expiry
    }

    /// Lifetime of refresh tokens, in seconds.
    pub fn refresh_token_expiry(&self) -> (r: i64)
        ensures
            r == self.spec_refresh_expiry(),
    {
        self.refresh_token_expiry
    }

    pub fn with_token_expiry(self, access_expiry: i64, refresh_expiry: i64) -> (r: Self)
        ensures
            r.wf() == self.wf(),
            r.spec_secret() == self.spec_secret(),
            r.spec_access_expiry() == access_expiry,
            r.spec_refresh_expiry() == refresh_expiry,
            r.spec_api_keys() == self.spec_api_keys(),
            r.spec_revoked() == self.spec_revoked(),
            r.spec_rate_limits() == self.spec_rate_limits(),
    {
        let mut m = self;
        m.access_token_expiry = access_expiry;
        m.refresh_token_expiry = refresh_expiry;
        m
    }

    /// The token for a payload text.
    pub fn encode_token(&self, payload: &str) -> (r: String)
        ensures
            r@ == framed(payload@, self.spec_secret()),
    {
        let mut out = base64_encode(payload);
        out.append("::");
        let sig = base64_encode(self.secret_key.as_str());
        out.append(sig.as_str());
        out
    }

    /// The payload text of a token signed with this manager's secret.
    pub fn decode_token(&self, token: &str) -> (r: Result<String, String>)
        requires
            decode_outcome(token@, self.spec_secret()) is Some,
        ensures
            match decode_outcome(token@, self.spec_secret()) {
                Some(Some(p)) => r matches Ok(s) && s@ == p,
                _ => r is Err,
            },
    {
        let chars = chars_of(token);
        let i = match find_colon_pair(&chars) {
            Some(i) => i,
            None => return Err(String::from_str("Invalid token format")),
        };
        proof {
            lemma_first_colon_pair(chars@);
        }
        let n = chars.len();
        assert(i + 2 <= n);
        let rest = crate::text::vec_slice(&chars, i + 2, n);
        assert(rest@ =~= token@.skip(i + 2));
        if find_colon_pair(&rest).is_some() {
            return Err(String::from_str("Invalid token format"));
        }
        let head = crate::text::vec_slice(&chars, 0, i);
        assert(head@ =~= token@.take(i as int));
        let first = crate::text::string_of_chars(&head);
        let second = crate::text::string_of_chars(&rest);
        let payload = match base64_decode(first.as_str()) {
            Ok(p) => p,
            Err(e) => return Err(e),
        };
        let signature = match base64_decode(second.as_str()) {
            Ok(s) => s,
            Err(e) => return Err(e),
        };
        if !str_eq(signature.as_str(), self.secret_key.as_str()) {
            return Err(String::from_str("Invalid signature"));
        }
        Ok(payload)
    }
}

/// What verifying a token at `now` gives: a revoked token, one that is not
/// signed with the secret or whose payload `from_json` cannot read is
/// invalid; claims past their expiry are refused, the others given back.
pub open spec fn token_outcome<G: Fn(&str) -> Result<TokenClaims, String>>(
    m: ApiAuthManager,
    token: Seq<char>,
    now: i64,
    from_json: G,
    r: Result<TokenClaims, AuthError>,
) -> bool {
    if m.revoked(token) {
        r == Err::<TokenClaims, AuthError>(AuthError::InvalidToken)
    } else {
        match decode_outcome(token, m.spec_secret()) {
            Some(Some(payload)) => exists|p: &str, parsed: Result<TokenClaims, String>|
                p@ == payload && #[trigger] from_json.ensures((p,), parsed) && r == verdict(parsed, now),
            _ => r == Err::<TokenClaims, AuthError>(AuthError::InvalidToken),
        }
    }
}

/// What authenticating by token answers for a verification's outcome:
/// valid claims make a token context, an error is the failure.
pub open spec fn auth_result_of(v: Result<TokenClaims, AuthError>) -> AuthResult {
    match v {
        Ok(c) => AuthResult::Success(
            AuthContext {
                user_id: c.sub,
                username: c.username,
                role_id: c.role_id,
                scopes: c.scopes,
                auth_method: AuthMethod::JwtToken,
            },
        ),
        Err(e) => AuthResult::Failed(e),
    }
}

/// What verifying a token gives, once its payload text parsed to `parsed`:
/// refused claims or text that is no claims are an invalid token, claims
/// past their expiry at `now` an expired one.
pub open spec fn verdict(parsed: Result<TokenClaims, String>, now: i64) -> Result<TokenClaims, AuthError> {
    match parsed {
        Err(_) => Err(AuthError::InvalidToken),
        Ok(c) => if now > c.exp { Err(AuthError::ExpiredToken) } else { Ok(c) },
    }
}

/// The rate window of a caller after a request at `now` (milliseconds) that
/// is let through, or `None` when it is refused: a window older than
/// `window_seconds` starts again at one request, else the count grows up to
/// `max_requests`.
pub open spec fn rate_after(w: Option<RateWindow>, identifier: Seq<char>, max_requests: u32, window_seconds: i64, now: i64) -> Option<(u32, i64)> {
    match w {
        None => Some((1u32, now)),
        Some(w) => if seconds_between(now, w.window_start) > window_seconds {
            Some((1u32, now))
        } else if w.count < max_requests {
            Some(((w.count + 1) as u32, w.window_start))
        } else {
            None
        },
    }
}

/// What issuing tokens at `now` gives: nothing when the clock plus a token
/// lifetime leaves the range chrono can hold, else the access and refresh
/// tokens framed from the claims' JSON, or the error of `to_json`.
pub open spec fn issue_outcome<F: Fn(&TokenClaims) -> Result<String, String>>(
    m: ApiAuthManager,
    user_id: u128,
    username: Seq<char>,
    role_id: Option<u128>,
    scopes: Seq<String>,
    now: i64,
    to_json: F,
    r: Result<ApiToken, String>,
) -> bool {
    &&& timestamp_in_range(now as int)
    &&& if !timestamp_in_range(now + m.spec_access_expiry()) || !timestamp_in_range(now + m.spec_refresh_expiry()) {
        r matches Err(e) && e@ == "Token expiry is out of the representable time range"@
    } else {
        &&& (r matches Ok(t) ==> {
            &&& t.token_type@ == "Bearer"@
            &&& t.expires_in == m.spec_access_expiry()
            &&& t.scope is None
            &&& exists|c: TokenClaims, j: String| claims_as(c, user_id, username, role_id, TokenType::Access, now, m.spec_access_expiry(), scopes)
                && #[trigger] to_json.ensures((&c,), Ok::<String, String>(j)) && t.access_token@ == framed(j@, m.spec_secret())
            &&& t.refresh_token matches Some(rt) && exists|c: TokenClaims, j: String| claims_as(c, user_id, username, role_id, TokenType::Refresh, now, m.spec_refresh_expiry(), scopes)
                && #[trigger] to_json.ensures((&c,), Ok::<String, String>(j)) && rt@ == framed(j@, m.spec_secret())
        })
        &&& (r matches Err(e) ==> exists|c: TokenClaims, msg: String| #[trigger] to_json.ensures((&c,), Err::<String, String>(msg))
            && e@ == "Failed to serialize claims: "@ + msg@)
    }
}

impl ApiAuthManager {
    /// Issues an access and a refresh token at `now` (Unix seconds) for a
    /// user, each carrying claims with the given scopes turned to JSON by
    /// `to_json`; the access token's lifetime goes with it.
    pub fn generate_token_at<F: Fn(&TokenClaims) -> Result<String, String>>(
        &self,
        user_id: u128,
        username: String,
        role_id: Option<u128>,
        scopes: Vec<String>,
        now: i64,
        to_json: &F,
    ) -> (r: Result<ApiToken, String>)
        requires
            timestamp_in_range(now as int),
            seconds_span_ok(self.spec_access_expiry() as int),
            seconds_span_ok(self.spec_refresh_expiry() as int),
            timestamp_in_range(now + self.spec_access_expiry()),
            timestamp_in_range(now + self.spec_refresh_expiry()),
            forall|c: &TokenClaims| #[trigger] to_json.requires((c,)),
        ensures
            r matches Ok(t) ==> {
                &&& t.token_type@ == "Bearer"@
                &&& t.expires_in == self.spec_access_expiry()
                &&& t.scope is None
                &&& exists|c: TokenClaims, j: String| claims_as(c, user_id, username@, role_id, TokenType::Access, now, self.spec_access_expiry(), scopes@)
                    && #[trigger] to_json.ensures((&c,), Ok::<String, String>(j)) && t.access_token@ == framed(j@, self.spec_secret())
                &&& t.refresh_token matches Some(rt) && exists|c: TokenClaims, j: String| claims_as(c, user_id, username@, role_id, TokenType::Refresh, now, self.spec_refresh_expiry(), scopes@)
                    && #[trigger] to_json.ensures((&c,), Ok::<String, String>(j)) && rt@ == framed(j@, self.spec_secret())
            },
            r matches Err(e) ==> exists|c: TokenClaims, m: String| #[trigger] to_json.ensures((&c,), Err::<String, String>(m))
                && e@ == "Failed to serialize claims: "@ + m@,
    {
        let access = TokenClaims::new_at(user_id, username.clone(), role_id, TokenType::Access, self.access_token_expiry, now)
            .with_scopes(copy_strings(&scopes));
        let refresh = TokenClaims::new_at(user_id, username, role_id, TokenType::Refresh, self.refresh_token_expiry, now)
            .with_scopes(scopes);
        let access_json = match to_json(&access) {
            Ok(j) => j,
            Err(m) => {
                let mut e = String::from_str("Failed to serialize claims: ");
                e.append(m.as_str());
                return Err(e);
            },
        };
        let refresh_json = match to_json(&refresh) {
            Ok(j) => j,
            Err(m) => {
                let mut e = String::from_str("Failed to serialize claims: ");
                e.append(m.as_str());
                return Err(e);
            },
        };
        let access_token = self.encode_token(access_json.as_str());
        let refresh_token = self.encode_token(refresh_json.as_str());
        proof {
            assert(claims_as(access, user_id, username@, role_id, TokenType::Access, now, self.spec_access_expiry(), scopes@));
            assert(claims_as(refresh, user_id, username@, role_id, TokenType::Refresh, now, self.spec_refresh_expiry(), scopes@));
        }
        Ok(ApiToken::new(access_token, self.access_token_expiry).with_refresh_token(refresh_token))
    }

    /// Issues tokens now. Where the clock plus a token lifetime leaves the
    /// range of dates chrono can hold (a quarter of a million years away),
    /// no token is issued and the error says so.
    pub fn generate_token<F: Fn(&TokenClaims) -> Result<String, String>>(
        &self,
        user_id: u128,
        username: String,
        role_id: Option<u128>,
        scopes: Vec<String>,
        to_json: &F,
    ) -> (r: Result<ApiToken, String>)
        requires
            seconds_span_ok(self.spec_access_expiry() as int),
            seconds_span_ok(self.spec_refresh_expiry() as int),
            forall|c: &TokenClaims| #[trigger] to_json.requires((c,)),
        ensures
            r matches Ok(t) ==> t.token_type@ == "Bearer"@ && t.refresh_token is Some && t.expires_in
                == self.spec_access_expiry(),
            exists|now: i64| #[trigger] issue_outcome(*self, user_id, username@, role_id, scopes@, now, *to_json, r),
    {
        let now = now_seconds();
        let a: i128 = now as i128 + self.access_token_expiry as i128;
        let f: i128 = now as i128 + self.refresh_token_expiry as i128;
        if a < -8_334_601_315_200 || a > 8_210_266_876_799 || f < -8_334_601_315_200 || f > 8_210_266_876_799 {
            let r = Err(String::from_str("Token expiry is out of the representable time range"));
            assert(issue_outcome(*self, user_id, username@, role_id, scopes@, now, *to_json, r));
            return r;
        }
        let ghost u = username@;
        let ghost sc = scopes@;
        let r = self.generate_token_at(user_id, username, role_id, scopes, now, to_json);
        assert(issue_outcome(*self, user_id, u, role_id, sc, now, *to_json, r));
        r
    }
}

/// A token can be checked without a panic: revoked tokens are refused
/// before they are read, the others must read without one.
pub open spec fn token_checkable(m: ApiAuthManager, token: Seq<char>) -> bool {
    m.revoked(token) || decode_outcome(token, m.spec_secret()) is Some
}

impl ApiAuthManager {
    /// Checks a token at `now` (Unix seconds): a revoked token or one that is
    /// not signed with the secret is invalid; its payload is read into claims
    /// by `from_json`; claims that cannot be read are invalid, expired ones
    /// refused.
    pub fn verify_token_at<G: Fn(&str) -> Result<TokenClaims, String>>(
        &self,
        token: &str,
        now: i64,
        from_json: &G,
    ) -> (r: Result<TokenClaims, AuthError>)
        requires
            token_checkable(*self, token@),
            forall|p: &str| #[trigger] from_json.requires((p,)),
        ensures
            self.revoked(token@) ==> r == Err::<TokenClaims, AuthError>(AuthError::InvalidToken),
            !self.revoked(token@) ==> match decode_outcome(token@, self.spec_secret()) {
                Some(Some(payload)) => exists|p: &str, parsed: Result<TokenClaims, String>|
                    p@ == payload && #[trigger] from_json.ensures((p,), parsed) && r == verdict(parsed, now),
                _ => r == Err::<TokenClaims, AuthError>(AuthError::InvalidToken),
            },
    {
        if self.is_token_revoked(token) {
            return Err(AuthError::InvalidToken);
        }
        let payload = match self.decode_token(token) {
            Ok(p) => p,
            Err(_) => return Err(AuthError::InvalidToken),
        };
        let ps = payload.as_str();
        let parsed = from_json(ps);
        assert(ps@ == payload@ && from_json.ensures((ps,), parsed));
        match parsed {
            Ok(c) => {
                if c.is_expired_at(now) {
                    Err(AuthError::ExpiredToken)
                } else {
                    Ok(c)
                }
            },
            Err(_) => Err(AuthError::InvalidToken),
        }
    }

    /// Whether a token can be checked without a panic.
    pub fn can_check_token(&self, token: &str) -> (r: bool)
        ensures
            r == token_checkable(*self, token@),
    {
        if self.is_token_revoked(token) {
            return true;
        }
        let chars = chars_of(token);
        let i = match find_colon_pair(&chars) {
            Some(i) => i,
            None => return true,
        };
        proof {
            lemma_first_colon_pair(chars@);
        }
        let n = chars.len();
        assert(i + 2 <= n);
        let rest = crate::text::vec_slice(&chars, i + 2, n);
        assert(rest@ =~= token@.skip(i + 2));
        if find_colon_pair(&rest).is_some() {
            return true;
        }
        let head = crate::text::vec_slice(&chars, 0, i);
        assert(head@ =~= token@.take(i as int));
        let first = crate::text::string_of_chars(&head);
        let second = crate::text::string_of_chars(&rest);
        if !hex_pairs_defined(first.as_str().as_bytes()) {
            return false;
        }
        match base64_decode(first.as_str()) {
            Ok(_) => hex_pairs_defined(second.as_str().as_bytes()),
            Err(_) => true,
        }
    }

    /// Checks a token by the clock.
    pub fn verify_token<G: Fn(&str) -> Result<TokenClaims, String>>(&self, token: &str, from_json: &G) -> (r: Result<
        TokenClaims,
        AuthError,
    >)
        requires
            token_checkable(*self, token@),
            forall|p: &str| #[trigger] from_json.requires((p,)),
        ensures
            self.revoked(token@) ==> r == Err::<TokenClaims, AuthError>(AuthError::InvalidToken),
            !self.revoked(token@) && !(decode_outcome(token@, self.spec_secret()) matches Some(Some(_))) ==> r
                == Err::<TokenClaims, AuthError>(AuthError::InvalidToken),
            exists|now: i64| #[trigger] token_outcome(*self, token@, now, *from_json, r),
    {
        let now = now_seconds();
        let r = self.verify_token_at(token, now, from_json);
        assert(token_outcome(*self, token@, now, *from_json, r));
        r
    }

    /// A new access token at `now` for a valid refresh token, with its
    /// user, role and scopes.
    pub fn refresh_token_at<F: Fn(&TokenClaims) -> Result<String, String>, G: Fn(&str) -> Result<TokenClaims, String>>(
        &self,
        refresh_token: &str,
        now: i64,
        to_json: &F,
        from_json: &G,
    ) -> (r: Result<ApiToken, AuthError>)
        requires
            token_checkable(*self, refresh_token@),
            timestamp_in_range(now as int),
            seconds_span_ok(self.spec_access_expiry() as int),
            timestamp_in_range(now + self.spec_access_expiry()),
            forall|c: &TokenClaims| #[trigger] to_json.requires((c,)),
            forall|p: &str| #[trigger] from_json.requires((p,)),
        ensures
            self.revoked(refresh_token@) || !(decode_outcome(refresh_token@, self.spec_secret()) matches Some(Some(_)))
                ==> r == Err::<ApiToken, AuthError>(AuthError::InvalidToken),
            r matches Ok(t) ==> {
                &&& t.token_type@ == "Bearer"@ && t.expires_in == self.spec_access_expiry()
                &&& t.refresh_token is None && t.scope is None
                &&& exists|p: &str, old_claims: TokenClaims| #[trigger] from_json.ensures((p,), Ok::<TokenClaims, String>(old_claims))
                    && Some(p@) == (match decode_outcome(refresh_token@, self.spec_secret()) { Some(x) => x, None => None })
                    && old_claims.token_type == TokenType::Refresh && !(now > old_claims.exp)
                    && exists|c: TokenClaims, j: String| claims_as(c, old_claims.sub, old_claims.username@, old_claims.role_id, TokenType::Access, now, self.spec_access_expiry(), old_claims.scopes@)
                    && #[trigger] to_json.ensures((&c,), Ok::<String, String>(j)) && t.access_token@ == framed(j@, self.spec_secret())
            },
    {
        let claims = match self.verify_token_at(refresh_token, now, from_json) {
            Ok(c) => c,
            Err(e) => return Err(e),
        };
        if claims.token_type != TokenType::Refresh {
            return Err(AuthError::InvalidToken);
        }
        let ghost old_claims = claims;
        let access = TokenClaims::new_at(claims.sub, claims.username, claims.role_id, TokenType::Access, self.access_token_expiry, now)
            .with_scopes(claims.scopes);
        let json = match to_json(&access) {
            Ok(j) => j,
            Err(_) => return Err(AuthError::InvalidToken),
        };
        let access_token = self.encode_token(json.as_str());
        proof {
            assert(claims_as(access, old_claims.sub, old_claims.username@, old_claims.role_id, TokenType::Access, now, self.spec_access_expiry(), old_claims.scopes@));
        }
        Ok(ApiToken::new(access_token, self.access_token_expiry))
    }

    /// Refuses a token from now on.
    pub fn revoke_token(&mut self, token: &str)
        ensures
            final(self).spec_revoked().len() == old(self).spec_revoked().len() + 1,
            final(self).spec_revoked().drop_last() == old(self).spec_revoked(),
            final(self).spec_revoked().last()@ == token@,
            final(self).revoked(token@),
            final(self).spec_secret() == old(self).spec_secret(),
            final(self).spec_access_expiry() == old(self).spec_access_expiry(),
            final(self).spec_refresh_expiry() == old(self).spec_refresh_expiry(),
            final(self).spec_api_keys() == old(self).spec_api_keys(),
            final(self).spec_rate_limits() == old(self).spec_rate_limits(),
    {
        let t = token.to_string();
        self.revoked_tokens.push(t);
        proof {
            let n = old(self).spec_revoked().len() as int;
            assert(self.revoked_tokens@[n]@ == token@);
        }
    }

    fn is_token_revoked(&self, token: &str) -> (r: bool)
        ensures
            r == self.revoked(token@),
    {
        is_listed(&self.revoked_tokens, token)
    }

    /// Makes an API key at `now` (milliseconds) with identifier `id` and the
    /// key text made from `key_id`, and keeps it under that text.
    pub fn create_api_key_at(&mut self, name: String, scopes: Vec<String>, id: u128, key_id: u128, now: i64) -> (r: ApiKey)
        requires
            old(self).wf(),
        ensures
            final(self).wf(),
            r.id == id && r.key@ == key_text(key_id) && r.name == name && r.scopes == scopes && r.enabled,
            r.usage_count == 0 && r.expires_at is None && r.created_at == now,
            final(self).api_key(key_text(key_id)) matches Some(k) && k.id == id && k.enabled && k.usage_count == 0
                && k.expires_at is None && k.scopes@ == scopes@,
            forall|s: Seq<char>| s != key_text(key_id) ==> final(self).api_key(s) == old(self).api_key(s),
            final(self).spec_revoked() == old(self).spec_revoked(),
            final(self).spec_rate_limits() == old(self).spec_rate_limits(),
            final(self).spec_secret() == old(self).spec_secret(),
    {
        let key = ApiKey::new_at(id, key_id, name, scopes, now);
        self.api_keys.insert(key.duplicate());
        key
    }

    /// Makes an API key now, with fresh identifiers.
    pub fn create_api_key(&mut self, name: String, scopes: Vec<String>) -> (r: ApiKey)
        requires
            old(self).wf(),
        ensures
            final(self).wf(),
            r.name == name && r.scopes == scopes && r.enabled && r.usage_count == 0,
            final(self).api_key(r.key@) matches Some(k) && k.id == r.id && k.enabled,
            exists|now: i64, id: u128, key_id: u128| #![trigger clock_reading(now), is_v4_uuid(id), is_v4_uuid(key_id)] clock_reading(now) && is_v4_uuid(id) && is_v4_uuid(key_id) && {
                &&& (r.id == id && r.key@ == key_text(key_id) && r.name == name && r.scopes == scopes && r.enabled)
                &&& (r.usage_count == 0 && r.expires_at is None && r.created_at == now)
                &&& (final(self).api_key(key_text(key_id)) matches Some(k) && k.id == id && k.enabled && k.usage_count == 0
                    && k.expires_at is None && k.scopes@ == scopes@)
                &&& (forall|s: Seq<char>| s != key_text(key_id) ==> final(self).api_key(s) == old(self).api_key(s))
                &&& (final(self).spec_revoked() == old(self).spec_revoked())
                &&& (final(self).spec_rate_limits() == old(self).spec_rate_limits())
                &&& (final(self).spec_secret() == old(self).spec_secret())
            },
    {
        let now = now_millis();
        let id = new_uuid();
        let key_id = new_uuid();
        proof {
            assert(clock_reading(now));
        }
        self.create_api_key_at(name, scopes, id, key_id, now)
    }

    /// Checks an API key at `now` (milliseconds): an unknown or unusable key
    /// is refused; a usable one counts a use and a copy is handed back.
    pub fn verify_api_key_at(&mut self, key: &str, now: i64) -> (r: Result<ApiKey, AuthError>)
        requires
            old(self).wf(),
            old(self).api_key(key@) matches Some(k) ==> k.usage_count < u64::MAX,
        ensures
            final(self).wf(),
            forall|s: Seq<char>| s != key@ ==> final(self).api_key(s) == old(self).api_key(s),
            final(self).spec_revoked() == old(self).spec_revoked(),
            final(self).spec_rate_limits() == old(self).spec_rate_limits(),
            final(self).spec_secret() == old(self).spec_secret(),
            match old(self).api_key(key@) {
                None => r == Err::<ApiKey, AuthError>(AuthError::InvalidApiKey) && final(self).api_key(key@) is None,
                Some(k) => if !key_valid_at(k, now) {
                    r == Err::<ApiKey, AuthError>(AuthError::InvalidApiKey) && final(self).api_key(key@) == Some(k)
                } else {
                    let used = ApiKey { usage_count: (k.usage_count + 1) as u64, last_used_at: Some(now), ..k };
                    &&& final(self).api_key(key@) == Some(used)
                    &&& r matches Ok(c) && c.id == used.id && c.key == used.key && c.name == used.name
                        && c.scopes@ == used.scopes@ && c.enabled == used.enabled && c.usage_count == used.usage_count
                        && c.last_used_at == used.last_used_at && c.expires_at == used.expires_at
                },
            },
    {
        match self.api_keys.find(key) {
            Some(i) => {
                if !self.api_keys.at(i).is_valid_at(now) {
                    return Err(AuthError::InvalidApiKey);
                }
                let mut k = self.api_keys.take_at(i);
                k.record_usage_at(now);
                let copy = k.duplicate();
                self.api_keys.put_at(i, k);
                Ok(copy)
            },
            None => Err(AuthError::InvalidApiKey),
        }
    }

    /// Checks an API key by the clock.
    pub fn verify_api_key(&mut self, key: &str) -> (r: Result<ApiKey, AuthError>)
        requires
            old(self).wf(),
            old(self).api_key(key@) matches Some(k) ==> k.usage_count < u64::MAX,
        ensures
            final(self).wf(),
            old(self).api_key(key@) is None ==> r == Err::<ApiKey, AuthError>(AuthError::InvalidApiKey),
            old(self).api_key(key@) matches Some(k) && !k.enabled ==> r == Err::<ApiKey, AuthError>(
                AuthError::InvalidApiKey,
            ),
            old(self).api_key(key@) matches Some(k) ==> (k.enabled && k.expires_at is None ==> (r matches Ok(c)
                && c.usage_count == k.usage_count + 1)),
            exists|now: i64| #[trigger] clock_reading(now) && {
                &&& (forall|s: Seq<char>| s != key@ ==> final(self).api_key(s) == old(self).api_key(s))
                &&& (final(self).spec_revoked() == old(self).spec_revoked())
                &&& (final(self).spec_rate_limits() == old(self).spec_rate_limits())
                &&& (final(self).spec_secret() == old(self).spec_secret())
                &&& (match old(self).api_key(key@) {
                    None => r == Err::<ApiKey, AuthError>(AuthError::InvalidApiKey) && final(self).api_key(key@) is None,
                    Some(k) => if !key_valid_at(k, now) {
                        r == Err::<ApiKey, AuthError>(AuthError::InvalidApiKey) && final(self).api_key(key@) == Some(k)
                    } else {
                        let used = ApiKey { usage_count: (k.usage_count + 1) as u64, last_used_at: Some(now), ..k };
                        &&& final(self).api_key(key@) == Some(used)
                        &&& r matches Ok(c) && c.id == used.id && c.key == used.key && c.name == used.name
                            && c.scopes@ == used.scopes@ && c.enabled == used.enabled && c.usage_count == used.usage_count
                            && c.last_used_at == used.last_used_at && c.expires_at == used.expires_at
                    },
                })
            },
    {
        let now = now_millis();
        proof {
            assert(clock_reading(now));
        }
        self.verify_api_key_at(key, now)
    }

    /// Disables an API key; whether it was known.
    pub fn revoke_api_key(&mut self, key: &str) -> (r: bool)
        requires
            old(self).wf(),
        ensures
            final(self).wf(),
            r == (old(self).api_key(key@) is Some),
            match old(self).api_key(key@) {
                Some(k) => final(self).api_key(key@) == Some(ApiKey { enabled: false, ..k }),
                None => final(self).api_key(key@) is None,
            },
            forall|s: Seq<char>| s != key@ ==> final(self).api_key(s) == old(self).api_key(s),
            final(self).spec_revoked() == old(self).spec_revoked(),
            final(self).spec_rate_limits() == old(self).spec_rate_limits(),
    {
        match self.api_keys.find(key) {
            Some(i) => {
                let mut k = self.api_keys.take_at(i);
                k.enabled = false;
                self.api_keys.put_at(i, k);
                true
            },
            None => false,
        }
    }

    /// Counts a request of a caller at `now` (milliseconds) against at most
    /// `max_requests` per window of `window_seconds`; whether it may go on.
    pub fn check_rate_limit_at(&mut self, identifier: &str, max_requests: u32, window_seconds: i64, now: i64) -> (r:
        bool)
        requires
            old(self).wf(),
        ensures
            final(self).wf(),
            r == (rate_after(old(self).rate_window(identifier@), identifier@, max_requests, window_seconds, now) is Some),
            match rate_after(old(self).rate_window(identifier@), identifier@, max_requests, window_seconds, now) {
                Some((count, start)) => final(self).rate_window(identifier@) matches Some(w) && w.count == count
                    && w.window_start == start,
                None => final(self).rate_window(identifier@) == old(self).rate_window(identifier@),
            },
            forall|s: Seq<char>| s != identifier@ ==> final(self).rate_window(s) == old(self).rate_window(s),
            final(self).spec_api_keys() == old(self).spec_api_keys(),
            final(self).spec_revoked() == old(self).spec_revoked(),
    {
        match self.rate_limits.find(identifier) {
            Some(i) => {
                let elapsed = crate::domain::shared::system::elapsed_seconds(now, self.rate_limits.at(i).window_start);
                if elapsed > window_seconds {
                    let mut w = self.rate_limits.take_at(i);
                    w.count = 1;
                    w.window_start = now;
                    self.rate_limits.put_at(i, w);
                    true
                } else if self.rate_limits.at(i).count < max_requests {
                    let mut w = self.rate_limits.take_at(i);
                    w.count = w.count + 1;
                    self.rate_limits.put_at(i, w);
                    true
                } else {
                    false
                }
            },
            None => {
                self.rate_limits.push_new(RateWindow { identifier: identifier.to_string(), count: 1, window_start: now });
                true
            },
        }
    }

    /// Counts a request of a caller by the clock.
    pub fn check_rate_limit(&mut self, identifier: &str, max_requests: u32, window_seconds: i64) -> (r: bool)
        requires
            old(self).wf(),
        ensures
            final(self).wf(),
            old(self).rate_window(identifier@) is None ==> r,
            exists|now: i64| #[trigger] clock_reading(now) && {
                &&& (r == (rate_after(old(self).rate_window(identifier@), identifier@, max_requests, window_seconds, now) is Some))
                &&& (match rate_after(old(self).rate_window(identifier@), identifier@, max_requests, window_seconds, now) {
                    Some((count, start)) => final(self).rate_window(identifier@) matches Some(w) && w.count == count
                        && w.window_start == start,
                    None => final(self).rate_window(identifier@) == old(self).rate_window(identifier@),
                })
                &&& (forall|s: Seq<char>| s != identifier@ ==> final(self).rate_window(s) == old(self).rate_window(s))
                &&& (final(self).spec_api_keys() == old(self).spec_api_keys())
                &&& (final(self).spec_revoked() == old(self).spec_revoked())
            },
    {
        let now = now_millis();
        proof {
            assert(clock_reading(now));
        }
        self.check_rate_limit_at(identifier, max_requests, window_seconds, now)
    }

    /// Authenticates a request by token at `now`: its claims make the context.
    pub fn authenticate_token_at<G: Fn(&str) -> Result<TokenClaims, String>>(&self, token: &str, now: i64, from_json: &G) -> (r:
        AuthResult)
        requires
            token_checkable(*self, token@),
            forall|p: &str| #[trigger] from_json.requires((p,)),
        ensures
            self.revoked(token@) ==> r == AuthResult::Failed(AuthError::InvalidToken),
            !self.revoked(token@) ==> match decode_outcome(token@, self.spec_secret()) {
                Some(Some(payload)) => exists|p: &str, parsed: Result<TokenClaims, String>|
                    p@ == payload && #[trigger] from_json.ensures((p,), parsed) && r == auth_result_of(verdict(parsed, now)),
                _ => r == AuthResult::Failed(AuthError::InvalidToken),
            },
    {
        match self.verify_token_at(token, now, from_json) {
            Ok(claims) => AuthResult::Success(
                AuthContext {
                    user_id: claims.sub,
                    username: claims.username,
                    role_id: claims.role_id,
                    scopes: claims.scopes,
                    auth_method: AuthMethod::JwtToken,
                },
            ),
            Err(e) => AuthResult::Failed(e),
        }
    }

    /// Authenticates a request by token by the clock.
    pub fn authenticate_token<G: Fn(&str) -> Result<TokenClaims, String>>(&self, token: &str, from_json: &G) -> (r: AuthResult)
        requires
            token_checkable(*self, token@),
            forall|p: &str| #[trigger] from_json.requires((p,)),
        ensures
            self.revoked(token@) ==> r matches AuthResult::Failed(AuthError::InvalidToken),
            exists|now: i64, v: Result<TokenClaims, AuthError>| #[trigger] token_outcome(*self, token@, now, *from_json, v)
                && r == auth_result_of(v),
    {
        let now = now_seconds();
        let v = self.verify_token_at(token, now, from_json);
        let r = match v {
            Ok(claims) => AuthResult::Success(
                AuthContext {
                    user_id: claims.sub,
                    username: claims.username,
                    role_id: claims.role_id,
                    scopes: claims.scopes,
                    auth_method: AuthMethod::JwtToken,
                },
            ),
            Err(e) => AuthResult::Failed(e),
        };
        assert(token_outcome(*self, token@, now, *from_json, v) && r == auth_result_of(v));
        r
    }

    /// Authenticates a request by API key at `now`: the key's identifier,
    /// name and scopes make the context.
    pub fn authenticate_api_key_at(&mut self, key: &str, now: i64) -> (r: AuthResult)
        requires
            old(self).wf(),
            old(self).api_key(key@) matches Some(k) ==> k.usage_count < u64::MAX,
        ensures
            final(self).wf(),
            match old(self).api_key(key@) {
                Some(k) => if key_valid_at(k, now) {
                    r matches AuthResult::Success(ctx) && ctx.user_id == k.id && ctx.username == k.name
                        && ctx.role_id is None && ctx.scopes@ == k.scopes@ && ctx.auth_method == AuthMethod::ApiKey
                } else {
                    r matches AuthResult::Failed(AuthError::InvalidApiKey)
                },
                None => r matches AuthResult::Failed(AuthError::InvalidApiKey),
            },
    {
        match self.verify_api_key_at(key, now) {
            Ok(api_key) => AuthResult::Success(
                AuthContext {
                    user_id: api_key.id,
                    username: api_key.name,
                    role_id: None,
                    scopes: api_key.scopes,
                    auth_method: AuthMethod::ApiKey,
                },
            ),
            Err(e) => AuthResult::Failed(e),
        }
    }

    /// Authenticates a request by API key by the clock.
    pub fn authenticate_api_key(&mut self, key: &str) -> (r: AuthResult)
        requires
            old(self).wf(),
            old(self).api_key(key@) matches Some(k) ==> k.usage_count < u64::MAX,
        ensures
            final(self).wf(),
            old(self).api_key(key@) is None ==> r matches AuthResult::Failed(AuthError::InvalidApiKey),
            exists|now: i64| #[trigger] clock_reading(now) && {
                &&& (match old(self).api_key(key@) {
                    Some(k) => if key_valid_at(k, now) {
                        r matches AuthResult::Success(ctx) && ctx.user_id == k.id && ctx.username == k.name
                            && ctx.role_id is None && ctx.scopes@ == k.scopes@ && ctx.auth_method == AuthMethod::ApiKey
                    } else {
                        r matches AuthResult::Failed(AuthError::InvalidApiKey)
                    },
                    None => r matches AuthResult::Failed(AuthError::InvalidApiKey),
                })
            },
    {
        let now = now_millis();
        proof {
            assert(clock_reading(now));
        }
        self.authenticate_api_key_at(key, now)
    }
}

/// A lowercase hexadecimal digit character.
pub open spec fn is_hex_char(c: char) -> bool {
    ('0' <= c <= '9') || ('a' <= c <= 'f')
}

proof fn lemma_hex_of_bytes_chars(b: Seq<u8>)
    ensures
        hex_of_bytes(b).len() == 2 * b.len(),
        forall|i: int| 0 <= i < hex_of_bytes(b).len() ==> is_hex_char(#[trigger] hex_of_bytes(b)[i]),
    decreases b.len(),
{
    if b.len() > 0 {
        lemma_hex_of_bytes_chars(b.drop_first());
        let t = seq![hex_digit((b[0] / 16) as int), hex_digit((b[0] % 16) as int)];
        let rest = hex_of_bytes(b.drop_first());
        assert(hex_of_bytes(b) == t + rest);
        assert forall|i: int| 0 <= i < hex_of_bytes(b).len() implies is_hex_char(#[trigger] hex_of_bytes(b)[i]) by {
            if i >= 2 {
                assert(hex_of_bytes(b)[i] == rest[i - 2]);
            } else {
                let n = if i == 0 { (b[0] / 16) as int } else { (b[0] % 16) as int };
                assert(hex_of_bytes(b)[i] == hex_digit(n));
                assert(0 <= n < 16);
            }
        }
    }
}

proof fn lemma_hex_digit_value(n: int)
    requires
        0 <= n < 16,
    ensures
        hex_value(hex_digit(n) as u8) == Some(n as u8),
        hex_digit(n) as u8 != 43,
        (hex_digit(n) as u8) < 128,
{
}

proof fn lemma_hex_pairs_round_trip(b: Seq<u8>)
    ensures
        hex_pairs(encode_utf8(hex_of_bytes(b))) == Some(Some(b)),
    decreases b.len(),
{
    let h = hex_of_bytes(b);
    lemma_hex_of_bytes_chars(b);
    assert(vstd::utf8::is_ascii_chars(h));
    vstd::utf8::is_ascii_chars_encode_utf8(h);
    let e = encode_utf8(h);
    if b.len() == 0 {
        assert(e.len() == 0);
        assert(b =~= Seq::<u8>::empty());
    } else {
        let rest = b.drop_first();
        lemma_hex_pairs_round_trip(rest);
        let hr = hex_of_bytes(rest);
        lemma_hex_of_bytes_chars(rest);
        assert(vstd::utf8::is_ascii_chars(hr));
        vstd::utf8::is_ascii_chars_encode_utf8(hr);
        let er = encode_utf8(hr);
        let hi = (b[0] / 16) as int;
        let lo = (b[0] % 16) as int;
        assert(h == seq![hex_digit(hi), hex_digit(lo)] + hr);
        assert(h[0] == hex_digit(hi) && h[1] == hex_digit(lo));
        lemma_hex_digit_value(hi);
        lemma_hex_digit_value(lo);
        assert(e[0] == h[0] as u8 && e[1] == h[1] as u8);
        assert(pair_value(e[0], e[1]) == Some(b[0]));
        if e.len() >= 3 {
            assert(e[2] == h[2] as u8);
            assert(h[2] == hr[0]);
            assert(is_hex_char(hr[0]));
        }
        assert forall|i: int| 0 <= i < er.len() implies #[trigger] e.skip(2)[i] == er[i] by {
            assert(e.skip(2)[i] == e[i + 2]);
            assert(e[i + 2] == h[i + 2] as u8);
            assert(h[i + 2] == hr[i]);
        }
        assert(e.skip(2) =~= er);
        assert(seq![b[0]] + rest =~= b);
    }
}

proof fn lemma_no_colon_pair(y: Seq<char>)
    requires
        forall|i: int| 0 <= i < y.len() ==> is_hex_char(#[trigger] y[i]),
    ensures
        first_colon_pair(y) is None,
    decreases y.len(),
{
    if y.len() >= 2 {
        assert(is_hex_char(y[0]));
        lemma_no_colon_pair(y.drop_first());
    }
}

proof fn lemma_colon_pair_after(x: Seq<char>, y: Seq<char>)
    requires
        forall|i: int| 0 <= i < x.len() ==> is_hex_char(#[trigger] x[i]),
    ensures
        first_colon_pair(x + "::"@ + y) == Some(x.len() as int),
    decreases x.len(),
{
    reveal_strlit("::");
    let t = x + "::"@ + y;
    if x.len() == 0 {
        assert(t[0] == ':' && t[1] == ':');
    } else {
        assert(t[0] == x[0]);
        assert(is_hex_char(x[0]));
        assert(t.drop_first() =~= x.drop_first() + "::"@ + y);
        lemma_colon_pair_after(x.drop_first(), y);
    }
}

/// A token framed for a payload under a secret decodes, under that secret,
/// to the same payload: what the manager issues it reads back.
pub proof fn lemma_token_round_trip(payload: Seq<char>, secret: Seq<char>)
    ensures
        decode_outcome(framed(payload, secret), secret) == Some(Some(payload)),
{
    reveal_strlit("::");
    let pb = encode_utf8(payload);
    let sb = encode_utf8(secret);
    let x = hex_of_bytes(pb);
    let y = hex_of_bytes(sb);
    let t = framed(payload, secret);
    lemma_hex_of_bytes_chars(pb);
    lemma_hex_of_bytes_chars(sb);
    lemma_colon_pair_after(x, y);
    assert(t.skip(x.len() as int + 2) =~= y);
    assert(t.take(x.len() as int) =~= x);
    lemma_no_colon_pair(y);
    assert(token_parts(t) == Some((x, y)));
    lemma_hex_pairs_round_trip(pb);
    lemma_hex_pairs_round_trip(sb);
    vstd::utf8::encode_utf8_valid_utf8(payload);
    vstd::utf8::encode_utf8_decode_utf8(payload);
    vstd::utf8::encode_utf8_valid_utf8(secret);
    vstd::utf8::encode_utf8_decode_utf8(secret);
}

} // verus!
