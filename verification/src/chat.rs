//! The chat bridge API: request authentication, account setup links,
//! password logins, sessions, chat history and the live socket relay.
use vstd::prelude::*;
use vstd::utf8::encode_utf8;
use rand::Rng;
use argon2::password_hash::{PasswordHasher, PasswordVerifier};
use crate::api::{failure, ApiResponse};
use crate::hashing::{blake3_hex, hash_secret};
use crate::identity::{
    clean_message, cleaned_message, is_valid_username, is_valid_uuid, normalize_username,
    normalized_username, valid_username, valid_uuid,
};
use crate::numtext::{parse_i64, parse_i64_spec};
use crate::text::{
    chars_of, push_chars, push_str, starts_with, starts_with_chars, str_equal,
    string_from_chars, sub_chars, trim, trim_chars, trim_end_char, trim_end_char_chars,
    is_ascii_alphanumeric,
};

verus! {

// ---------------------------------------------------------------------------
// Errors
// ---------------------------------------------------------------------------

/// An HTTP status and the message the client is shown.
pub struct ApiError {
    pub status: u16,
    pub message: String,
}

pub const BAD_REQUEST: u16 = 400;

pub const UNAUTHORIZED: u16 = 401;

pub const FORBIDDEN: u16 = 403;

pub const INTERNAL_SERVER_ERROR: u16 = 500;

impl ApiError {
    pub fn new(status: u16, message: &str) -> (r: ApiError)
        ensures
            r.status == status,
            r.message@ == message@,
    {
        ApiError { status, message: message.to_string() }
    }

    pub fn bad_request(message: &str) -> (r: ApiError)
        ensures
            r.status == BAD_REQUEST,
            r.message@ == message@,
    {
        ApiError::new(BAD_REQUEST, message)
    }

    pub fn unauthorized(message: &str) -> (r: ApiError)
        ensures
            r.status == UNAUTHORIZED,
            r.message@ == message@,
    {
        ApiError::new(UNAUTHORIZED, message)
    }

    pub fn forbidden(message: &str) -> (r: ApiError)
        ensures
            r.status == FORBIDDEN,
            r.message@ == message@,
    {
        ApiError::new(FORBIDDEN, message)
    }

    pub fn internal(message: &str) -> (r: ApiError)
        ensures
            r.status == INTERNAL_SERVER_ERROR,
            r.message@ == message@,
    {
        ApiError::new(INTERNAL_SERVER_ERROR, message)
    }

    /// The status and body an error is answered with.
    pub fn into_response(self) -> (r: (u16, ApiResponse<()>))
        ensures
            r.0 == self.status,
            !r.1.success,
            r.1.data is None,
            r.1.error == Some(self.message),
    {
        (self.status, failure(self.message))
    }
}

/// Whether `r` is the error with `status` and `message`.
pub open spec fn is_error<T>(r: Result<T, ApiError>, status: u16, message: Seq<char>) -> bool {
    r matches Err(e) && e.status == status && e.message@ == message
}

/// The outcome of a database lookup.
pub enum Lookup<T> {
    Found(T),
    Missing,
    Failed,
}

// ---------------------------------------------------------------------------
// Credentials carried by requests
// ---------------------------------------------------------------------------

/// The request headers the API reads, each present when it is valid visible
/// ASCII text.
pub struct RequestHeaders {
    pub authorization: Option<String>,
    pub session_token: Option<String>,
    pub plugin_secret: Option<String>,
}

/// The session token of a request: the `Authorization` header after a
/// `Bearer ` prefix, else the `x-session-token` header.
pub open spec fn bearer_token(h: RequestHeaders) -> Option<Seq<char>> {
    match h.authorization {
        Some(a) if starts_with(a@, "Bearer "@) => Some(a@.subrange(7, a@.len() as int)),
        _ => match h.session_token {
            Some(t) => Some(t@),
            None => None,
        },
    }
}

/// A request's session token is what follows `Bearer ` in its
/// `Authorization` header; without such a header it is the
/// `x-session-token` header; without either there is none.
pub proof fn bearer_token_sources(h: RequestHeaders)
    ensures
        (h.authorization matches Some(a) && a@.len() >= 7 && a@.take(7) == "Bearer "@) ==> bearer_token(h)
            == Some(h.authorization->0@.skip(7)),
        !(h.authorization matches Some(a) && a@.len() >= 7 && a@.take(7) == "Bearer "@) ==> bearer_token(h)
            == match h.session_token {
            Some(t) => Some(t@),
            None => None::<Seq<char>>,
        },
{
    reveal_strlit("Bearer ");
    match h.authorization {
        Some(a) => {
            if a@.len() >= 7 && a@.take(7) == "Bearer "@ {
                assert(starts_with(a@, "Bearer "@));
                assert(a@.subrange(7, a@.len() as int) =~= a@.skip(7));
            } else {
                if starts_with(a@, "Bearer "@) {
                    assert(a@.take(7) =~= "Bearer "@);
                }
            }
        },
        None => {},
    }
}

pub fn extract_bearer(headers: &RequestHeaders) -> (r: Option<String>)
    ensures
        match r {
            Some(t) => bearer_token(*headers) == Some(t@),
            None => bearer_token(*headers) is None,
        },
{
    let prefix = chars_of("Bearer ");
    proof {
        reveal_strlit("Bearer ");
    }
    match &headers.authorization {
        Some(a) => {
            let v = chars_of(a.as_str());
            if starts_with_chars(&v, &prefix) {
                let rest = sub_chars(&v, 7, v.len());
                return Some(string_from_chars(&rest));
            }
        },
        None => {},
    }
    match &headers.session_token {
        Some(t) => Some(t.clone()),
        None => None,
    }
}

/// Whether the request carries the plugin's shared secret.
pub fn plugin_authorized(headers: &RequestHeaders, plugin_secret: &str) -> (r: bool)
    ensures
        r == (headers.plugin_secret matches Some(s) && s@ == plugin_secret@),
{
    match &headers.plugin_secret {
        Some(s) => str_equal(s.as_str(), plugin_secret),
        None => false,
    }
}

/// The session token of a request, or 401 `Missing session token`.
pub fn session_token(headers: &RequestHeaders) -> (r: Result<String, ApiError>)
    ensures
        match r {
            Ok(t) => bearer_token(*headers) == Some(t@),
            Err(e) => bearer_token(*headers) is None && e.status == UNAUTHORIZED && e.message@
                == "Missing session token"@,
        },
{
    match extract_bearer(headers) {
        Some(t) => Ok(t),
        None => Err(ApiError::unauthorized("Missing session token")),
    }
}

/// An account as a session lookup finds it.
pub struct User {
    pub uuid: String,
    pub username: String,
    pub username_lower: String,
    pub disabled: i64,
}

/// The user of a session lookup (by token digest, unexpired, account
/// enabled): 500 when the lookup failed, 401 when nothing matched.
pub fn authenticated_user(lookup: Lookup<User>) -> (r: Result<User, ApiError>)
    ensures
        match lookup {
            Lookup::Found(u) => r == Ok::<User, ApiError>(u),
            Lookup::Missing => is_error(r, UNAUTHORIZED, "Invalid or expired session"@),
            Lookup::Failed => is_error(r, INTERNAL_SERVER_ERROR, "Database error"@),
        },
{
    match lookup {
        Lookup::Found(u) => Ok(u),
        Lookup::Missing => Err(ApiError::unauthorized("Invalid or expired session")),
        Lookup::Failed => Err(ApiError::internal("Database error")),
    }
}

/// A plugin request names a player: it must carry the plugin secret (403
/// otherwise) and a well-formed UUID and username (400 otherwise).
pub fn check_plugin_request(
    headers: &RequestHeaders,
    plugin_secret: &str,
    uuid: &str,
    username: &str,
) -> (r: Result<(), ApiError>)
    ensures
        !(headers.plugin_secret matches Some(s) && s@ == plugin_secret@) ==> is_error(
            r,
            FORBIDDEN,
            "Invalid plugin secret"@,
        ),
        (headers.plugin_secret matches Some(s) && s@ == plugin_secret@) && !(valid_uuid(uuid@)
            && valid_username(username@)) ==> is_error(r, BAD_REQUEST, "Invalid player identity"@),
        r is Ok <==> (headers.plugin_secret matches Some(s) && s@ == plugin_secret@) && valid_uuid(
            uuid@,
        ) && valid_username(username@),
{
    if !plugin_authorized(headers, plugin_secret) {
        return Err(ApiError::forbidden("Invalid plugin secret"));
    }
    if !is_valid_uuid(uuid) || !is_valid_username(username) {
        return Err(ApiError::bad_request("Invalid player identity"));
    }
    Ok(())
}

/// The text of a chat message as stored, or 400 `Message is empty`.
pub fn message_text(message: &str) -> (r: Result<String, ApiError>)
    ensures
        match r {
            Ok(s) => cleaned_message(message@) == Some(s@),
            Err(e) => cleaned_message(message@) is None && e.status == BAD_REQUEST && e.message@
                == "Message is empty"@,
        },
{
    match clean_message(message) {
        Some(s) => Ok(s),
        None => Err(ApiError::bad_request("Message is empty")),
    }
}

/// A chat message about to be stored and broadcast.
pub struct NewMessage {
    pub source: String,
    pub uuid: String,
    pub username: String,
    pub message: String,
}

/// Whether the request carries the plugin's secret.
pub open spec fn plugin_secret_ok(headers: RequestHeaders, plugin_secret: Seq<char>) -> bool {
    headers.plugin_secret matches Some(s) && s@ == plugin_secret
}

/// A message the game plugin reports for a player: without the plugin's
/// secret it is refused with 403, for a malformed player identity with 400,
/// and when nothing is left of the text once cleaned with 400 `Message is
/// empty`; otherwise it is stored as written in the game, under the player's
/// UUID and trimmed name, with the cleaned text.
pub fn plugin_message(
    headers: &RequestHeaders,
    plugin_secret: &str,
    uuid: &str,
    username: &str,
    message: &str,
) -> (r: Result<NewMessage, ApiError>)
    ensures
        !plugin_secret_ok(*headers, plugin_secret@) ==> is_error(r, FORBIDDEN, "Invalid plugin secret"@),
        plugin_secret_ok(*headers, plugin_secret@) && !(valid_uuid(uuid@) && valid_username(
            username@,
        )) ==> is_error(r, BAD_REQUEST, "Invalid player identity"@),
        plugin_secret_ok(*headers, plugin_secret@) && valid_uuid(uuid@) && valid_username(username@)
            && cleaned_message(message@) is None ==> is_error(r, BAD_REQUEST, "Message is empty"@),
        r is Ok <==> plugin_secret_ok(*headers, plugin_secret@) && valid_uuid(uuid@)
            && valid_username(username@) && cleaned_message(message@) is Some,
        r matches Ok(m) ==> m.source@ == "minecraft"@ && m.uuid@ == uuid@ && m.username@ == trim(
            username@,
        ) && cleaned_message(message@) == Some(m.message@),
{
    check_plugin_request(headers, plugin_secret, uuid, username)?;
    let text = message_text(message)?;
    let name = chars_of(username);
    let trimmed = trim_chars(&name);
    Ok(
        NewMessage {
            source: "minecraft".to_string(),
            uuid: uuid.to_string(),
            username: string_from_chars(&trimmed),
            message: text,
        },
    )
}

// ---------------------------------------------------------------------------
// Random tokens
// ---------------------------------------------------------------------------

#[verifier::external_type_specification]
#[verifier::external_body]
pub struct ExThreadRng(rand::rngs::ThreadRng);

/// `rand::thread_rng`: the thread-local random generator. Nothing is stated
/// of its state.
#[verifier::external_body]
fn thread_rng() -> rand::rngs::ThreadRng {
    rand::thread_rng()
}

/// `Rng::sample` with `rand::distributions::Alphanumeric`: one byte drawn
/// from `A-Z`, `a-z` and `0-9`. Which byte is left to chance.
#[verifier::external_body]
fn sample_alphanumeric(rng: &mut rand::rngs::ThreadRng) -> (b: u8)
    ensures
        is_ascii_alphanumeric(b as char),
{
    rng.sample(rand::distributions::Alphanumeric)
}

/// A random token of `length` ASCII letters and digits.
pub fn random_token(length: usize) -> (r: String)
    ensures
        r@.len() == length,
        forall|i: int| 0 <= i < r@.len() ==> is_ascii_alphanumeric(#[trigger] r@[i]),
{
    let mut rng = thread_rng();
    let mut v: Vec<char> = Vec::new();
    let mut i: usize = 0;
    while i < length
        invariant
            i <= length,
            v@.len() == i,
            forall|k: int| 0 <= k < v@.len() ==> is_ascii_alphanumeric(#[trigger] v@[k]),
        decreases length - i,
    {
        let b = sample_alphanumeric(&mut rng);
        v.push(b as char);
        i = i + 1;
    }
    string_from_chars(&v)
}

// ---------------------------------------------------------------------------
// Passwords
// ---------------------------------------------------------------------------

#[verifier::external_type_specification]
#[verifier::external_body]
pub struct ExSaltString(argon2::password_hash::SaltString);

#[verifier::external_type_specification]
#[verifier::external_body]
pub struct ExPasswordHashError(argon2::password_hash::Error);

/// The number of bytes a salt string decodes to from its B64 text.
pub uninterp spec fn salt_bytes(salt: argon2::password_hash::SaltString) -> nat;

/// `SaltString::generate` from the operating system's random source: the B64
/// encoding of `Salt::RECOMMENDED_LENGTH` (16) random bytes. Which bytes is
/// left to chance; only their number is stated.
#[verifier::external_body]
fn generate_salt() -> (salt: argon2::password_hash::SaltString)
    ensures
        salt_bytes(salt) == 16,
{
    argon2::password_hash::SaltString::generate(&mut argon2::password_hash::rand_core::OsRng)
}

/// `PasswordHasher::hash_password` of `Argon2::default()`, written as a PHC
/// string. The contract claims two facts. A string it produces is accepted
/// for the same password, since `verify_password` recomputes the hash with
/// the algorithm, version, parameters and salt recorded in the string and
/// compares the outputs. And with a 16-byte salt and a password of at most
/// `MAX_PWD_LEN` (2^32 - 1) bytes it succeeds: the salt decodes into its
/// 64-byte buffer, the default output length and parameters are valid, and
/// `verify_inputs` refuses only longer passwords and salts outside 8 to
/// 2^32 - 1 bytes. The string itself depends on the salt and is not stated.
#[verifier::external_body]
fn argon2_hash(password: &str, salt: &argon2::password_hash::SaltString) -> (r: Result<String, argon2::password_hash::Error>)
    ensures
        r matches Ok(h) ==> argon2_accepts(password@, h@),
        salt_bytes(*salt) == 16 && password.len() <= 0xFFFF_FFFF ==> r is Ok,
{
    argon2::Argon2::default().hash_password(password.as_bytes(), salt).map(|h| h.to_string())
}

/// Whether `password` matches the PHC string `phc` under Argon2: the string
/// parses and the recomputed hash equals the stored one.
pub uninterp spec fn argon2_accepts(password: Seq<char>, phc: Seq<char>) -> bool;

/// `PasswordHash::new(phc)` and `PasswordVerifier::verify_password` of
/// `Argon2::default()`; a string that does not parse verifies nothing. The
/// verdict is named, not restated.
#[verifier::external_body]
fn argon2_verify(password: &str, phc: &str) -> (r: bool)
    ensures
        r == argon2_accepts(password@, phc@),
{
    match argon2::password_hash::PasswordHash::new(phc) {
        Ok(parsed) => argon2::Argon2::default().verify_password(password.as_bytes(), &parsed).is_ok(),
        Err(_) => false,
    }
}

/// A password of 8 to 128 bytes (`str::len`) hashed with Argon2 and a fresh salt; a
/// password of another length is refused with 400. A password of an allowed
/// length is always hashed, and the stored hash accepts
/// the password it was made from, so an account set up with a password can
/// log in with it.
pub fn password_hash(password: &str) -> (r: Result<String, ApiError>)
    ensures
        r matches Ok(h) ==> argon2_accepts(password@, h@),
        !(8 <= password.len() <= 128) <==> is_error(
            r,
            BAD_REQUEST,
            "Password must be 8-128 characters"@,
        ),
        8 <= password.len() <= 128 ==> r is Ok,
{
    if password.len() < 8 || password.len() > 128 {
        return Err(ApiError::bad_request("Password must be 8-128 characters"));
    }
    let salt = generate_salt();
    match argon2_hash(password, &salt) {
        Ok(h) => Ok(h),
        Err(_) => Err(ApiError::internal("Failed to hash password")),
    }
}

/// Whether `password` matches the stored hash.
pub fn password_matches(password: &str, hash: &str) -> (r: bool)
    ensures
        r == argon2_accepts(password@, hash@),
{
    argon2_verify(password, hash)
}

// ---------------------------------------------------------------------------
// Sessions
// ---------------------------------------------------------------------------

/// How long a session lasts: 30 days.
pub const SESSION_TTL_SECONDS: i64 = 2592000;

/// How long a setup link lasts: 15 minutes.
pub const SETUP_TOKEN_TTL_SECONDS: i64 = 900;

/// A new session: the token handed to the client, the digest it is stored
/// under, and its lifetime.
pub struct SessionRecord {
    pub token: String,
    pub token_hash: String,
    pub uuid: String,
    pub created_at: i64,
    pub expires_at: i64,
}

/// A session for `uuid` starting at `created_at`: a random 64-character token,
/// stored by its digest, expiring 30 days later.
pub fn new_session(uuid: &str, created_at: i64) -> (r: SessionRecord)
    requires
        created_at + SESSION_TTL_SECONDS <= i64::MAX,
    ensures
        r.token@.len() == 64,
        forall|i: int| 0 <= i < r.token@.len() ==> is_ascii_alphanumeric(#[trigger] r.token@[i]),
        r.token_hash@ == blake3_hex(encode_utf8(r.token@)),
        r.uuid@ == uuid@,
        r.created_at == created_at,
        r.expires_at == created_at + SESSION_TTL_SECONDS,
{
    let token = random_token(64);
    let token_hash = hash_secret(token.as_str());
    SessionRecord {
        token,
        token_hash,
        uuid: uuid.to_string(),
        created_at,
        expires_at: created_at + SESSION_TTL_SECONDS,
    }
}

// ---------------------------------------------------------------------------
// Setup links
// ---------------------------------------------------------------------------

/// A setup link about to be issued to a player.
pub struct SetupLinkPlan {
    pub token: String,
    pub token_hash: String,
    pub expires_at: i64,
    pub username: String,
    pub username_lower: String,
    pub reset: bool,
}

/// A setup link for the player `username` requested at `now`: a random
/// 48-character token stored by its digest, valid for 15 minutes; `reset`
/// defaults to false.
pub fn plan_setup_link(username: &str, reset: Option<bool>, now: i64) -> (r: SetupLinkPlan)
    requires
        now + SETUP_TOKEN_TTL_SECONDS <= i64::MAX,
    ensures
        r.token@.len() == 48,
        forall|i: int| 0 <= i < r.token@.len() ==> is_ascii_alphanumeric(#[trigger] r.token@[i]),
        r.token_hash@ == blake3_hex(encode_utf8(r.token@)),
        r.expires_at == now + SETUP_TOKEN_TTL_SECONDS,
        r.username@ == trim(username@),
        r.username_lower@ == normalized_username(trim(username@)),
        r.reset == (reset == Some(true)),
{
    let token = random_token(48);
    let token_hash = hash_secret(token.as_str());
    let v = chars_of(username);
    let t = trim_chars(&v);
    let name = string_from_chars(&t);
    let lower = normalize_username(name.as_str());
    let reset = match reset {
        Some(b) => b,
        None => false,
    };
    SetupLinkPlan {
        token,
        token_hash,
        expires_at: now + SETUP_TOKEN_TTL_SECONDS,
        username: name,
        username_lower: lower,
        reset,
    }
}

/// Without a reset, a player who already has an enabled account gets no new
/// setup link.
pub fn existing_account_check(lookup: Lookup<String>) -> (r: Result<(), ApiError>)
    ensures
        match lookup {
            Lookup::Found(_) => is_error(
                r,
                BAD_REQUEST,
                "Account already exists. Use /chatbridge reset."@,
            ),
            Lookup::Missing => r is Ok,
            Lookup::Failed => is_error(r, INTERNAL_SERVER_ERROR, "Database error"@),
        },
{
    match lookup {
        Lookup::Found(_) => Err(ApiError::bad_request("Account already exists. Use /chatbridge reset.")),
        Lookup::Missing => Ok(()),
        Lookup::Failed => Err(ApiError::internal("Database error")),
    }
}

/// What a plugin is told after a setup link is stored.
pub struct PluginSetupLinkResponse {
    pub setup_url: String,
    pub expires_at: i64,
}

/// The link a player opens: the website without trailing slashes, then
/// `/chat.html?setup=` and the token.
pub fn setup_link_response(website_url: &str, token: &str, expires_at: i64) -> (r:
    PluginSetupLinkResponse)
    ensures
        r.setup_url@ == trim_end_char(website_url@, '/') + "/chat.html?setup="@ + token@,
        r.expires_at == expires_at,
{
    let w = chars_of(website_url);
    let base = trim_end_char_chars(&w, '/');
    let mut v: Vec<char> = Vec::new();
    push_chars(&mut v, &base);
    push_str(&mut v, "/chat.html?setup=");
    push_str(&mut v, token);
    PluginSetupLinkResponse { setup_url: string_from_chars(&v), expires_at }
}

/// A stored setup link.
pub struct SetupTokenRow {
    pub uuid: String,
    pub username: String,
    pub username_lower: String,
    pub expires_at: i64,
    pub used_at: Option<i64>,
}

/// A setup link can be used once, before it expires.
pub fn check_setup_token(lookup: Lookup<SetupTokenRow>, now: i64) -> (r: Result<
    SetupTokenRow,
    ApiError,
>)
    ensures
        match lookup {
            Lookup::Failed => is_error(r, INTERNAL_SERVER_ERROR, "Database error"@),
            Lookup::Missing => is_error(r, BAD_REQUEST, "Invalid setup link"@),
            Lookup::Found(row) => if row.used_at is Some {
                is_error(r, BAD_REQUEST, "Setup link has already been used"@)
            } else if row.expires_at <= now {
                is_error(r, BAD_REQUEST, "Setup link has expired"@)
            } else {
                r == Ok::<SetupTokenRow, ApiError>(row)
            },
        },
{
    match lookup {
        Lookup::Failed => Err(ApiError::internal("Database error")),
        Lookup::Missing => Err(ApiError::bad_request("Invalid setup link")),
        Lookup::Found(row) => {
            if row.used_at.is_some() {
                Err(ApiError::bad_request("Setup link has already been used"))
            } else if row.expires_at <= now {
                Err(ApiError::bad_request("Setup link has expired"))
            } else {
                Ok(row)
            }
        },
    }
}

// ---------------------------------------------------------------------------
// Logins
// ---------------------------------------------------------------------------

/// An account as a login lookup finds it.
pub struct LoginRow {
    pub uuid: String,
    pub username: String,
    pub password_hash: String,
    pub disabled: i64,
}

/// A login succeeds for an enabled account whose stored hash accepts the
/// password; every other found or missing account gets the same 401.
pub fn check_login(lookup: Lookup<LoginRow>, password: &str) -> (r: Result<LoginRow, ApiError>)
    ensures
        match lookup {
            Lookup::Failed => is_error(r, INTERNAL_SERVER_ERROR, "Database error"@),
            Lookup::Missing => is_error(r, UNAUTHORIZED, "Invalid username or password"@),
            Lookup::Found(row) => if row.disabled == 0 && argon2_accepts(
                password@,
                row.password_hash@,
            ) {
                r == Ok::<LoginRow, ApiError>(row)
            } else {
                is_error(r, UNAUTHORIZED, "Invalid username or password"@)
            },
        },
{
    match lookup {
        Lookup::Failed => Err(ApiError::internal("Database error")),
        Lookup::Missing => Err(ApiError::unauthorized("Invalid username or password")),
        Lookup::Found(row) => {
            if row.disabled != 0 || !password_matches(password, row.password_hash.as_str()) {
                Err(ApiError::unauthorized("Invalid username or password"))
            } else {
                Ok(row)
            }
        },
    }
}

// ---------------------------------------------------------------------------
// Chat history
// ---------------------------------------------------------------------------

/// A stored chat message.
pub struct ChatMessage {
    pub id: i64,
    pub source: String,
    pub uuid: String,
    pub username: String,
    pub message: String,
    pub created_at: i64,
}

/// `limit` and `before` of a history request: the limit defaults to 100 and
/// is clamped to `1..=200`, `before` defaults to the largest id.
pub fn history_window(limit: Option<&str>, before: Option<&str>) -> (r: (i64, i64))
    ensures
        r.0 == {
            let l = match limit {
                Some(s) => match parse_i64_spec(s@) {
                    Some(v) => v as int,
                    None => 100,
                },
                None => 100,
            };
            if l < 1 {
                1
            } else if l > 200 {
                200
            } else {
                l
            }
        },
        r.1 == match before {
            Some(s) => match parse_i64_spec(s@) {
                Some(v) => v,
                None => i64::MAX,
            },
            None => i64::MAX,
        },
        1 <= r.0 <= 200,
{
    let l: i64 = match limit {
        Some(s) => match parse_i64(s) {
            Some(v) => v,
            None => 100,
        },
        None => 100,
    };
    let l = if l < 1 {
        1
    } else if l > 200 {
        200
    } else {
        l
    };
    let b: i64 = match before {
        Some(s) => match parse_i64(s) {
            Some(v) => v,
            None => i64::MAX,
        },
        None => i64::MAX,
    };
    (l, b)
}

/// The newest messages, fetched newest first, put back in the order they
/// were written.
pub fn chronological(messages: Vec<ChatMessage>) -> (r: Vec<ChatMessage>)
    ensures
        r@ == messages@.reverse(),
{
    let ghost all = messages@;
    let mut rest = messages;
    let mut out: Vec<ChatMessage> = Vec::new();
    while rest.len() > 0
        invariant
            all == rest@ + out@.reverse(),
        decreases rest.len(),
    {
        let ghost before_out = out@;
        let ghost before_rest = rest@;
        let m = rest.pop().unwrap();
        out.push(m);
        proof {
            assert(out@.reverse() =~= seq![m] + before_out.reverse());
            assert(before_rest =~= rest@.push(m));
            assert(all =~= rest@ + out@.reverse());
        }
    }
    assert(all =~= out@.reverse());
    assert(out@ =~= all.reverse());
    out
}

// ---------------------------------------------------------------------------
// Live sockets
// ---------------------------------------------------------------------------

/// The session token of a website socket request, from its `token` parameter.
pub fn ws_session_token(token: Option<&str>) -> (r: Result<String, ApiError>)
    ensures
        match token {
            Some(t) => r matches Ok(s) && s@ == t@,
            None => is_error(r, UNAUTHORIZED, "Missing session token"@),
        },
{
    match token {
        Some(t) => Ok(t.to_string()),
        None => Err(ApiError::unauthorized("Missing session token")),
    }
}

/// A plugin socket must carry the plugin secret in its `secret` parameter.
pub fn check_plugin_ws(secret: Option<&str>, plugin_secret: &str) -> (r: Result<(), ApiError>)
    ensures
        match secret {
            Some(s) => if s@ == plugin_secret@ {
                r is Ok
            } else {
                is_error(r, FORBIDDEN, "Invalid plugin secret"@)
            },
            None => is_error(r, FORBIDDEN, "Missing plugin secret"@),
        },
{
    match secret {
        Some(s) => if str_equal(s, plugin_secret) {
            Ok(())
        } else {
            Err(ApiError::forbidden("Invalid plugin secret"))
        },
        None => Err(ApiError::forbidden("Missing plugin secret")),
    }
}

/// Which client a socket serves: the website gets every message, the game
/// plugin only those written on the website.
pub enum SocketKind {
    Website,
    Plugin,
}

/// What a socket loop observes next.
pub enum SocketEvent {
    /// A message from the broadcast channel.
    Broadcast(ChatMessage),
    /// The socket fell behind the channel and lost messages.
    Lagged,
    /// The broadcast channel is closed.
    ChannelClosed,
    /// Forwarding the last message to the client failed.
    ForwardFailed,
    /// The client sent a close frame.
    ClientClose,
    /// The client's stream ended.
    ClientGone,
    /// The client sent a ping with this payload.
    ClientPing(Vec<u8>),
    /// Reading from the client failed.
    ClientError,
    /// The client sent anything else.
    ClientOther,
}

/// What the socket loop does next.
pub enum SocketAction {
    /// Send the message to the client as JSON text.
    Forward(ChatMessage),
    /// Answer a ping with this payload.
    Pong(Vec<u8>),
    /// Wait for the next event.
    Continue,
    /// Close the socket.
    Stop,
}

pub open spec fn is_website_message(m: ChatMessage) -> bool {
    m.source@ == "website"@
}

/// The socket loop's decision for one event: a broadcast message is forwarded
/// (to the plugin only when it came from the website), a ping is answered,
/// lag and other client frames are skipped, anything else closes the socket.
pub open spec fn socket_decision(kind: SocketKind, event: SocketEvent) -> SocketAction {
    match event {
        SocketEvent::Broadcast(m) => match kind {
            SocketKind::Website => SocketAction::Forward(m),
            SocketKind::Plugin => if is_website_message(m) {
                SocketAction::Forward(m)
            } else {
                SocketAction::Continue
            },
        },
        SocketEvent::Lagged => SocketAction::Continue,
        SocketEvent::ChannelClosed => SocketAction::Stop,
        SocketEvent::ForwardFailed => SocketAction::Stop,
        SocketEvent::ClientClose => SocketAction::Stop,
        SocketEvent::ClientGone => SocketAction::Stop,
        SocketEvent::ClientPing(p) => SocketAction::Pong(p),
        SocketEvent::ClientError => SocketAction::Stop,
        SocketEvent::ClientOther => SocketAction::Continue,
    }
}

/// The socket loop's decision for one event.
pub fn socket_step(kind: SocketKind, event: SocketEvent) -> (r: SocketAction)
    ensures
        r == socket_decision(kind, event),
{
    match event {
        SocketEvent::Broadcast(m) => match kind {
            SocketKind::Website => SocketAction::Forward(m),
            SocketKind::Plugin => if str_equal(m.source.as_str(), "website") {
                SocketAction::Forward(m)
            } else {
                SocketAction::Continue
            },
        },
        SocketEvent::Lagged => SocketAction::Continue,
        SocketEvent::ChannelClosed => SocketAction::Stop,
        SocketEvent::ForwardFailed => SocketAction::Stop,
        SocketEvent::ClientClose => SocketAction::Stop,
        SocketEvent::ClientGone => SocketAction::Stop,
        SocketEvent::ClientPing(p) => SocketAction::Pong(p),
        SocketEvent::ClientError => SocketAction::Stop,
        SocketEvent::ClientOther => SocketAction::Continue,
    }
}

/// The plugin's socket relays no message that was not written on the
/// website, and the website's socket relays every broadcast message.
pub proof fn sockets_relay_by_source(event: SocketEvent)
    ensures
        socket_decision(SocketKind::Plugin, event) matches SocketAction::Forward(m)
            ==> is_website_message(m),
        event matches SocketEvent::Broadcast(m) ==> socket_decision(SocketKind::Website, event)
            == SocketAction::Forward(m),
{
}

/// Both sockets treat the client the same way: a ping is answered with a
/// pong carrying its payload, lag and frames other than close are skipped,
/// and a closed channel, a failed send, a close frame, the end of the stream
/// or a read error closes the socket.
pub proof fn sockets_serve_clients_alike(kind: SocketKind, payload: Vec<u8>)
    ensures
        socket_decision(kind, SocketEvent::ClientPing(payload)) == SocketAction::Pong(payload),
        socket_decision(kind, SocketEvent::Lagged) == SocketAction::Continue,
        socket_decision(kind, SocketEvent::ClientOther) == SocketAction::Continue,
        socket_decision(kind, SocketEvent::ChannelClosed) == SocketAction::Stop,
        socket_decision(kind, SocketEvent::ForwardFailed) == SocketAction::Stop,
        socket_decision(kind, SocketEvent::ClientClose) == SocketAction::Stop,
        socket_decision(kind, SocketEvent::ClientGone) == SocketAction::Stop,
        socket_decision(kind, SocketEvent::ClientError) == SocketAction::Stop,
{
}

/// Every broadcast message reaches a website socket; a plugin socket gets
/// exactly the messages written on the website and skips the others.
pub proof fn sockets_forward_by_source(m: ChatMessage)
    ensures
        socket_decision(SocketKind::Website, SocketEvent::Broadcast(m)) == SocketAction::Forward(m),
        m.source@ == "website"@ ==> socket_decision(SocketKind::Plugin, SocketEvent::Broadcast(m))
            == SocketAction::Forward(m),
        m.source@ != "website"@ ==> socket_decision(SocketKind::Plugin, SocketEvent::Broadcast(m))
            == SocketAction::Continue,
{
}

// ---------------------------------------------------------------------------
// The clock
// ---------------------------------------------------------------------------

/// `SystemTime::elapsed` of `UNIX_EPOCH`, in whole seconds (`Duration::as_secs`);
/// `None` when the clock reads before the epoch. The reading depends on the
/// time, so nothing is stated of it.
#[verifier::external_body]
fn seconds_since_epoch() -> Option<u64> {
    std::time::UNIX_EPOCH.elapsed().ok().map(|d| d.as_secs())
}

/// The Unix time for a clock reading: the whole seconds since the epoch as
/// `i64` (`as`, wrapping past `i64::MAX`), 0 for a reading before the epoch.
pub open spec fn timestamp_of(elapsed: Option<u64>) -> i64 {
    match elapsed {
        Some(s) => s as i64,
        None => 0,
    }
}

/// The Unix time for the clock reading `elapsed`.
pub fn unix_timestamp(elapsed: Option<u64>) -> (r: i64)
    ensures
        r == timestamp_of(elapsed),
{
    match elapsed {
        Some(s) => s as i64,
        None => 0,
    }
}

/// The current Unix time in seconds; 0 when the clock reads before 1970. The
/// reading is the clock's, so only `unix_timestamp` states what is made of it.
pub fn now() -> i64 {
    unix_timestamp(seconds_since_epoch())
}

} // verus!
