//! Admin console: credential rules, password hashing, the in-memory session
//! store behind the session cookie, and which web paths are public.

use argon2::password_hash::{PasswordHasher, PasswordVerifier};
use vstd::prelude::*;
use vstd::string::{StringExecFns, StringSliceAdditionalSpecFns};

use crate::table::Table;
use crate::text::{
    cat, chars_of, chars_of_string, decimal, decimal_of, eq_vec, in_class, is_lower_hex, is_ws,
    lemma_strip_end_fixed, lemma_strip_start_fixed, random_simple_uuid, string_of, strip_end,
    strip_start, trim, trim_vec, CharClass,
};

verus! {

pub const ADMIN_SESSION_COOKIE: &'static str = "coding_tools_admin_session";

/// Lifetime of an admin session: 12 hours.
pub const SESSION_TTL_SECS: u64 = 43200;

pub struct AdminCredentials {
    pub username: String,
    pub password: String,
}

/// Bytes taken by a character in UTF-8.
pub open spec fn utf8_width(c: char) -> nat {
    let u = c as u32;
    if u < 0x80 {
        1
    } else if u < 0x800 {
        2
    } else if u < 0x10000 {
        3
    } else {
        4
    }
}

/// Length in bytes of the UTF-8 encoding (`str::len`).
pub open spec fn utf8_len(s: Seq<char>) -> nat
    decreases s.len(),
{
    if s.len() == 0 {
        0
    } else {
        utf8_len(s.drop_last()) + utf8_width(s.last())
    }
}

proof fn lemma_utf8_len_prefix(s: Seq<char>, i: int)
    requires
        0 <= i <= s.len(),
    ensures
        utf8_len(s.subrange(0, i)) <= utf8_len(s),
    decreases s.len() - i,
{
    if i < s.len() {
        lemma_utf8_len_prefix(s, i + 1);
        assert(s.subrange(0, i + 1).drop_last() =~= s.subrange(0, i));
    } else {
        assert(s.subrange(0, i) =~= s);
    }
}

/// `utf8_len(v)` when it is at most `cap`, otherwise some value above `cap`.
fn utf8_len_capped(v: &[char], cap: u64) -> (r: u64)
    requires
        cap < 0x1_0000_0000,
    ensures
        utf8_len(v@) <= cap ==> r == utf8_len(v@),
        utf8_len(v@) > cap ==> r > cap,
{
    let mut total: u64 = 0;
    let mut i: usize = 0;
    while i < v.len()
        invariant
            0 <= i <= v.len(),
            total == utf8_len(v@.subrange(0, i as int)),
            total <= cap,
            cap < 0x1_0000_0000,
        decreases v.len() - i,
    {
        let u = v[i] as u32;
        let w: u64 = if u < 0x80 {
            1
        } else if u < 0x800 {
            2
        } else if u < 0x10000 {
            3
        } else {
            4
        };
        assert(v@.subrange(0, i + 1).drop_last() =~= v@.subrange(0, i as int));
        assert(w == utf8_width(v@[i as int]));
        total = total + w;
        i = i + 1;
        if total > cap {
            proof {
                lemma_utf8_len_prefix(v@, i as int);
            }
            return total;
        }
    }
    assert(v@.subrange(0, i as int) =~= v@);
    total
}

pub open spec fn username_length_message() -> Seq<char> {
    "管理员用户名长度需为 3-64 个字符"@
}

pub open spec fn password_length_message() -> Seq<char> {
    "管理员密码至少需要 8 个字符"@
}

/// The trimmed username takes 3 to 64 bytes; the password has at least 8
/// characters.
pub fn validate_credentials(credentials: &AdminCredentials) -> (r: Result<(), String>)
    ensures
        ({
            let n = utf8_len(trim(credentials.username@));
            if n < 3 || n > 64 {
                r matches Err(m) && m@ == username_length_message()
            } else if credentials.password@.len() < 8 {
                r matches Err(m) && m@ == password_length_message()
            } else {
                r is Ok
            }
        }),
{
    let username = trim_vec(&chars_of_string(&credentials.username));
    let n = utf8_len_capped(&username, 64);
    if n < 3 || n > 64 {
        return Err(string_of(&chars_of("管理员用户名长度需为 3-64 个字符")));
    }
    if chars_of_string(&credentials.password).len() < 8 {
        return Err(string_of(&chars_of("管理员密码至少需要 8 个字符")));
    }
    Ok(())
}

/// Whether `password` matches the Argon2 PHC string `hash`, as
/// `argon2::Argon2::default().verify_password` decides (false when the hash
/// does not parse).
pub uninterp spec fn argon2_verifies(password: Seq<char>, hash: Seq<char>) -> bool;

/// A character of the standard Base64 alphabet.
pub open spec fn b64_char(c: char) -> bool {
    ('A' <= c && c <= 'Z') || ('a' <= c && c <= 'z') || ('0' <= c && c <= '9') || c == '+' || c == '/'
}

/// The canonical unpadded Base64 text of 16 bytes: 22 alphabet characters,
/// the last of which leaves its 4 unused bits zero (`A`, `Q`, `g` or `w`).
pub open spec fn b64_of_16_bytes(s: Seq<char>) -> bool {
    &&& s.len() == 22
    &&& forall|i: int| 0 <= i < 21 ==> b64_char(#[trigger] s[i])
    &&& (s[21] == 'A' || s[21] == 'Q' || s[21] == 'g' || s[21] == 'w')
}

/// The head of every PHC string the default Argon2 hasher produces:
/// algorithm Argon2id, version 19.
pub open spec fn argon2id_phc_head() -> Seq<char> {
    "$argon2id$v=19$"@
}

/// A fresh random salt: `SaltString::generate(&mut OsRng)` of the
/// password-hash crate, which encodes 16 random bytes
/// (`Salt::RECOMMENDED_LENGTH`) as unpadded Base64 (`Encoding::B64`).  The
/// contract states that shape; the bytes themselves are random.
#[verifier::external_body]
fn new_salt() -> (r: String)
    ensures
        b64_of_16_bytes(r@),
{
    argon2::password_hash::SaltString::generate(&mut argon2::password_hash::rand_core::OsRng).as_str().to_string()
}

/// Hashes a password with `argon2::Argon2::default().hash_password` under
/// the given B64 salt (read back with `SaltString::from_b64`), returning the
/// PHC string or the error text.  The contract states that a produced hash
/// verifies against the same password, as the password-hash documentation
/// describes for `PasswordHasher` and `PasswordVerifier`; and that hashing
/// succeeds for a salt encoding 16 bytes and a password of at most
/// `MAX_PWD_LEN` (`0xFFFFFFFF`) bytes: with the default parameters the only
/// other failures are a salt outside 4..=64 characters or not decoding to
/// 8 or more bytes, and a too-long password (`verify_inputs`).  A produced
/// hash starts `$argon2id$v=19$`: the default algorithm and version, as
/// `PasswordHash`'s `Display` writes them.
#[verifier::external_body]
fn argon2_hash(password: &str, salt: &str) -> (r: Result<String, String>)
    ensures
        r matches Ok(h) ==> argon2_verifies(password@, h@),
        r matches Ok(h) ==> h@.len() >= 15 && h@.subrange(0, 15) == argon2id_phc_head(),
        b64_of_16_bytes(salt@) && password.spec_bytes().len() <= 0xFFFF_FFFF ==> r is Ok,
{
    let salt = match argon2::password_hash::SaltString::from_b64(salt) {
        Ok(salt) => salt,
        Err(error) => return Err(error.to_string()),
    };
    match argon2::Argon2::default().hash_password(password.as_bytes(), &salt) {
        Ok(hash) => Ok(hash.to_string()),
        Err(error) => Err(error.to_string()),
    }
}

/// Checks a password against an Argon2 PHC string with
/// `argon2::Argon2::default().verify_password` after
/// `PasswordHash::new`; the outcome is named `argon2_verifies`.
#[verifier::external_body]
fn argon2_verify(password: &str, password_hash: &str) -> (r: bool)
    ensures
        r == argon2_verifies(password@, password_hash@),
{
    match argon2::password_hash::PasswordHash::new(password_hash) {
        Ok(parsed) => argon2::Argon2::default().verify_password(
            password.as_bytes(),
            &parsed,
        ).is_ok(),
        Err(_) => false,
    }
}

pub open spec fn hash_failure_message(e: Seq<char>) -> Seq<char> {
    "生成管理员密码哈希失败: "@ + e
}

/// An Argon2id PHC string of the password under a fresh random salt; the
/// hash verifies against it.  Hashing fails only for a password longer than
/// `0xFFFFFFFF` bytes.
pub fn hash_password(password: &str) -> (r: Result<String, String>)
    ensures
        r matches Ok(h) ==> argon2_verifies(password@, h@),
        r matches Ok(h) ==> h@.len() >= 15 && h@.subrange(0, 15) == argon2id_phc_head(),
        password.spec_bytes().len() <= 0xFFFF_FFFF ==> r is Ok,
        r matches Err(m) ==> exists|e: Seq<char>| m@ == hash_failure_message(e),
{
    let salt = new_salt();
    match argon2_hash(password, salt.as_str()) {
        Ok(h) => Ok(h),
        Err(e) => {
            let m = string_of(&cat(&chars_of("生成管理员密码哈希失败: "), &chars_of_string(&e)));
            assert(m@ == hash_failure_message(e@));
            Err(m)
        },
    }
}

pub fn verify_password(password: &str, password_hash: &str) -> (r: bool)
    ensures
        r == argon2_verifies(password@, password_hash@),
{
    argon2_verify(password, password_hash)
}

/// The Web Console's administrator account: the username and the Argon2
/// hash of the password (never the password itself).
pub struct AdminAccount {
    pub username: String,
    pub password_hash: String,
}

pub const DEFAULT_ADMIN_USERNAME: &'static str = "admin";

/// An account is set up once it holds a non-blank password hash.
pub open spec fn configured(account: AdminAccount) -> bool {
    trim(account.password_hash@).len() > 0
}

pub fn account_configured(account: &AdminAccount) -> (r: bool)
    ensures
        r == configured(*account),
{
    trim_vec(&chars_of_string(&account.password_hash)).len() > 0
}

/// `admin reset`: the username goes back to `admin` and the password hash
/// is cleared, so the next visit sets the account up again.
pub fn reset_admin_account() -> (r: AdminAccount)
    ensures
        r.username@ == "admin"@,
        r.password_hash@.len() == 0,
        !configured(r),
{
    let r = AdminAccount {
        username: string_of(&chars_of(DEFAULT_ADMIN_USERNAME)),
        password_hash: string_of(&Vec::new()),
    };
    assert(r.password_hash@ =~= Seq::<char>::empty());
    r
}

pub open spec fn already_configured_message() -> Seq<char> {
    "管理员已完成初始化，请直接登录"@
}

/// First-time setup: refused once an account exists; otherwise the account
/// becomes the trimmed username with the given password hash.
pub fn setup_account(current: &AdminAccount, credentials: &AdminCredentials, password_hash: String) -> (r:
    Result<AdminAccount, String>)
    ensures
        configured(*current) ==> (r matches Err(m) && m@ == already_configured_message()),
        !configured(*current) ==> (r matches Ok(a) && a.username@ == trim(credentials.username@)
            && a.password_hash == password_hash),
{
    if account_configured(current) {
        return Err(string_of(&chars_of("管理员已完成初始化，请直接登录")));
    }
    Ok(
        AdminAccount {
            username: string_of(&trim_vec(&chars_of_string(&credentials.username))),
            password_hash,
        },
    )
}

/// Why a sign-in was refused.
#[derive(Debug, PartialEq, Eq, Structural)]
pub enum LoginRefusal {
    /// No account has been set up yet.
    NotConfigured,
    /// The username or the password does not match.
    BadCredentials,
}

/// The sign-in decision: refused before setup; accepted exactly when the
/// trimmed username is the account's and the stored hash verifies the
/// password.
pub open spec fn login_spec(account: AdminAccount, credentials: AdminCredentials) -> Result<
    (),
    LoginRefusal,
> {
    if !configured(account) {
        Err(LoginRefusal::NotConfigured)
    } else if trim(credentials.username@) == account.username@ && argon2_verifies(
        credentials.password@,
        account.password_hash@,
    ) {
        Ok(())
    } else {
        Err(LoginRefusal::BadCredentials)
    }
}

pub fn check_login(account: &AdminAccount, credentials: &AdminCredentials) -> (r: Result<
    (),
    LoginRefusal,
>)
    ensures
        r == login_spec(*account, *credentials),
{
    if !account_configured(account) {
        return Err(LoginRefusal::NotConfigured);
    }
    let user = trim_vec(&chars_of_string(&credentials.username));
    if eq_vec(&user, &chars_of_string(&account.username)) && verify_password(
        credentials.password.as_str(),
        account.password_hash.as_str(),
    ) {
        Ok(())
    } else {
        Err(LoginRefusal::BadCredentials)
    }
}

/// Law: after a successful setup with a hash of the password, signing in
/// with the same credentials is accepted.
pub proof fn law_setup_then_login(
    current: AdminAccount,
    credentials: AdminCredentials,
    password_hash: String,
    account: AdminAccount,
)
    requires
        argon2_verifies(credentials.password@, password_hash@),
        trim(password_hash@).len() > 0,
        !configured(current),
        account.username@ == trim(credentials.username@),
        account.password_hash == password_hash,
    ensures
        login_spec(account, credentials) == Ok::<(), LoginRefusal>(()),
{
}

/// Law: after `admin reset` no sign-in is accepted and setup is allowed
/// again.
pub proof fn law_reset_requires_new_setup(account: AdminAccount, credentials: AdminCredentials)
    requires
        account.username@ == "admin"@,
        account.password_hash@.len() == 0,
    ensures
        login_spec(account, credentials) == Err::<(), LoginRefusal>(LoginRefusal::NotConfigured),
        !configured(account),
{
    assert(account.password_hash@ =~= Seq::<char>::empty());
}

pub open spec fn session_cookie_text(token: Seq<char>) -> Seq<char> {
    "coding_tools_admin_session="@ + token + "; Path=/; HttpOnly; SameSite=Strict; Max-Age="@
        + decimal(43200)
}

/// The `Set-Cookie` value that establishes a session.
pub fn session_cookie(token: &str) -> (r: String)
    ensures
        r@ == session_cookie_text(token@),
{
    let x = cat(&chars_of("coding_tools_admin_session="), &chars_of(token));
    let x = cat(&x, &chars_of("; Path=/; HttpOnly; SameSite=Strict; Max-Age="));
    string_of(&cat(&x, &decimal_of(SESSION_TTL_SECS)))
}

/// The `Set-Cookie` value that ends a session.
pub fn clear_session_cookie() -> (r: String)
    ensures
        r@ == "coding_tools_admin_session=; Path=/; HttpOnly; SameSite=Strict; Max-Age=0"@,
{
    String::from_str("coding_tools_admin_session=; Path=/; HttpOnly; SameSite=Strict; Max-Age=0")
}

/// Position of the first `c` in `s`, or `s.len()`.
pub open spec fn index_of(s: Seq<char>, c: char) -> nat
    decreases s.len(),
{
    if s.len() == 0 {
        0
    } else if s[0] == c {
        0
    } else {
        1 + index_of(s.drop_first(), c)
    }
}

proof fn lemma_index_of_bound(s: Seq<char>, c: char)
    ensures
        index_of(s, c) <= s.len(),
        index_of(s, c) < s.len() ==> s[index_of(s, c) as int] == c,
    decreases s.len(),
{
    if s.len() > 0 && s[0] != c {
        lemma_index_of_bound(s.drop_first(), c);
    }
}

fn index_of_exec(v: &[char], from: usize, c: char) -> (r: usize)
    requires
        from <= v.len(),
    ensures
        from <= r <= v.len(),
        r == from + index_of(v@.subrange(from as int, v.len() as int), c),
{
    let mut i = from;
    while i < v.len() && v[i] != c
        invariant
            from <= i <= v.len(),
            index_of(v@.subrange(from as int, v.len() as int), c) == (i - from) + index_of(
                v@.subrange(i as int, v.len() as int),
                c,
            ),
        decreases v.len() - i,
    {
        assert(v@.subrange(i as int, v.len() as int).drop_first() =~= v@.subrange(
            i + 1,
            v.len() as int,
        ));
        i = i + 1;
    }
    if i == v.len() {
        assert(v@.subrange(i as int, v.len() as int).len() == 0);
    }
    i
}

/// The session token of one `name=value` cookie pair (trimmed), if the
/// name is the admin cookie and the value is not empty.
pub open spec fn pair_token(p: Seq<char>) -> Option<Seq<char>> {
    let t = trim(p);
    let j = index_of(t, '=') as int;
    if j < t.len() && t.subrange(0, j) == "coding_tools_admin_session"@ && t.len() > j + 1 {
        Some(t.subrange(j + 1, t.len() as int))
    } else {
        None
    }
}

/// The admin session token in a `Cookie` header: the first `;`-separated
/// pair that carries it.
pub open spec fn cookie_token(s: Seq<char>) -> Option<Seq<char>>
    decreases s.len(),
{
    let i = index_of(s, ';') as int;
    let seg = s.subrange(0, i);
    if pair_token(seg) is Some {
        pair_token(seg)
    } else if i >= s.len() {
        None
    } else {
        cookie_token(s.subrange(i + 1, s.len() as int))
    }
}

fn pair_token_exec(p: &[char]) -> (r: Option<Vec<char>>)
    ensures
        match r {
            Some(t) => pair_token(p@) == Some(t@),
            None => pair_token(p@) is None,
        },
{
    let t = trim_vec(p);
    let j = index_of_exec(&t, 0, '=');
    assert(t@.subrange(0, t@.len() as int) =~= t@);
    if j < t.len() && eq_vec(&crate::text::slice_of(&t, 0, j), &chars_of(ADMIN_SESSION_COOKIE))
        && t.len() > j + 1 {
        Some(crate::text::slice_of(&t, j + 1, t.len()))
    } else {
        None
    }
}

/// The admin session token carried by a `Cookie` header value.
pub fn token_from_cookie_header(cookie: &str) -> (r: Option<String>)
    ensures
        match r {
            Some(t) => cookie_token(cookie@) == Some(t@),
            None => cookie_token(cookie@) is None,
        },
{
    let v = chars_of(cookie);
    let mut from: usize = 0;
    assert(v@.subrange(0, v@.len() as int) =~= v@);
    while from <= v.len()
        invariant
            v@ == cookie@,
            from <= v.len(),
            cookie_token(cookie@) == cookie_token(v@.subrange(from as int, v.len() as int)),
        decreases v.len() - from,
    {
        let i = index_of_exec(&v, from, ';');
        let ghost rest = v@.subrange(from as int, v.len() as int);
        proof {
            lemma_index_of_bound(rest, ';');
        }
        let seg = crate::text::slice_of(&v, from, i);
        assert(seg@ =~= rest.subrange(0, i - from));
        match pair_token_exec(&seg) {
            Some(t) => {
                return Some(string_of(&t));
            },
            None => {},
        }
        if i >= v.len() {
            return None;
        }
        assert(rest.subrange(i - from + 1, rest.len() as int) =~= v@.subrange(
            i + 1,
            v.len() as int,
        ));
        from = i + 1;
    }
    None
}

/// A valid admin session exists for the cookie at time `now`.
pub open spec fn authenticated(
    sessions: Map<Seq<char>, u64>,
    cookie: Option<Seq<char>>,
    now: u64,
) -> bool {
    match cookie {
        Some(c) => match cookie_token(c) {
            Some(t) => sessions.contains_key(t) && sessions[t] > now,
            None => false,
        },
        None => false,
    }
}

/// The sessions that have not expired at `now`.
pub open spec fn unexpired(sessions: Map<Seq<char>, u64>, now: u64) -> Map<Seq<char>, u64> {
    Map::new(|k: Seq<char>| sessions.contains_key(k) && sessions[k] > now, |k: Seq<char>| sessions[k])
}

pub open spec fn opt_view(o: Option<&str>) -> Option<Seq<char>> {
    match o {
        Some(s) => Some(s@),
        None => None,
    }
}

/// A fresh session token: two random version-4 UUIDs in simple form, one
/// after the other (64 lower-case hexadecimal digits).
fn new_session_token() -> (r: String)
    ensures
        r@.len() == 64,
        forall|i: int| 0 <= i < r@.len() ==> is_lower_hex(#[trigger] r@[i]),
{
    let a = random_simple_uuid();
    let b = random_simple_uuid();
    let v = cat(&chars_of_string(&a), &chars_of_string(&b));
    assert forall|i: int| 0 <= i < v@.len() implies is_lower_hex(#[trigger] v@[i]) by {
        if i < 32 {
            assert(v@[i] == a@[i]);
        } else {
            assert(v@[i] == b@[i - 32]);
        }
    }
    string_of(&v)
}

/// Whole seconds in a count of milliseconds (capped at `u64::MAX`).
fn secs_from_ms(ms: u128) -> (r: u64)
    ensures
        r == (if ms / 1000 > u64::MAX {
            u64::MAX as int
        } else {
            (ms / 1000) as int
        }),
{
    let secs = ms / 1000;
    if secs > u64::MAX as u128 {
        u64::MAX
    } else {
        secs as u64
    }
}

/// Whole seconds since the Unix epoch by the system clock.
fn now_secs() -> u64 {
    secs_from_ms(crate::text::unix_time_ms())
}

impl Default for AdminSessionStore {
    fn default() -> (r: Self)
        ensures
            r.wf(),
            r.sessions() == Map::<Seq<char>, u64>::empty(),
    {
        AdminSessionStore::new()
    }
}

/// When a session opened at `now` expires: `now + SESSION_TTL_SECS`,
/// saturating.
pub open spec fn session_expiry(now: u64) -> u64 {
    if now + SESSION_TTL_SECS > u64::MAX {
        u64::MAX
    } else {
        (now + SESSION_TTL_SECS) as u64
    }
}

/// Admin sessions: token to expiry time (seconds since the epoch).
pub struct AdminSessionStore {
    sessions: Table<u64>,
}

impl AdminSessionStore {
    pub closed spec fn sessions(&self) -> Map<Seq<char>, u64> {
        self.sessions@
    }

    pub closed spec fn wf(&self) -> bool {
        self.sessions.wf()
    }

    pub fn new() -> (r: Self)
        ensures
            r.wf(),
            r.sessions() == Map::<Seq<char>, u64>::empty(),
    {
        AdminSessionStore { sessions: Table::new() }
    }

    /// Records `token` as a session created at `now`, expiring after the
    /// session lifetime.
    pub fn create_at(&mut self, token: String, now: u64) -> (r: String)
        requires
            old(self).wf(),
        ensures
            final(self).wf(),
            r == token,
            final(self).sessions() == old(self).sessions().insert(token@, session_expiry(now)),
            final(self).sessions() == after_session_event(
                old(self).sessions(),
                SessionEvent::Create { token: token@, now },
            ),
    {
        let expires_at = now.saturating_add(SESSION_TTL_SECS);
        self.sessions.insert(token.clone(), expires_at);
        token
    }

    /// Opens a session with a fresh random token; returns the token.
    pub fn create(&mut self) -> (r: String)
        requires
            old(self).wf(),
        ensures
            final(self).wf(),
            r@.len() == 64,
            forall|i: int| 0 <= i < r@.len() ==> is_lower_hex(#[trigger] r@[i]),
            exists|now: u64|
                final(self).sessions() == old(self).sessions().insert(r@, session_expiry(now)),
    {
        let token = new_session_token();
        let now = now_secs();
        self.create_at(token, now)
    }

    fn prune(&mut self, now: u64)
        requires
            old(self).wf(),
        ensures
            final(self).wf(),
            final(self).sessions() == unexpired(old(self).sessions(), now),
    {
        let ghost orig = self.sessions@;
        let mut i: usize = 0;
        while i < self.sessions.len()
            invariant
                self.sessions.wf(),
                0 <= i <= self.sessions.keys().len(),
                forall|k: Seq<char>|
                    #[trigger] self.sessions@.contains_key(k) ==> orig.contains_key(k)
                        && self.sessions@[k] == orig[k],
                forall|k: Seq<char>|
                    #[trigger] orig.contains_key(k) && orig[k] > now ==> self.sessions@.contains_key(k),
                forall|j: int|
                    0 <= j < i ==> #[trigger] self.sessions@[self.sessions.keys()[j]] > now,
            decreases self.sessions.keys().len() - i,
        {
            proof {
                self.sessions.lemma_keys();
            }
            let v = *self.sessions.value_at(i);
            if v <= now {
                let ghost before = self.sessions.keys();
                let ghost gone = before[i as int];
                self.sessions.remove_at(i);
                proof {
                    assert forall|j: int| 0 <= j < i implies #[trigger] self.sessions@[self.sessions.keys()[j]] > now by {
                        assert(self.sessions.keys()[j] == before[j]);
                        assert(before[j] != gone) by {
                            old_keys_distinct(before, j, i as int);
                        }
                    }
                }
            } else {
                i = i + 1;
            }
        }
        proof {
            self.sessions.lemma_keys();
            assert forall|k: Seq<char>| #[trigger] self.sessions@.contains_key(k) implies self.sessions@[k] > now by {
                assert(self.sessions.keys().contains(k));
                let j = choose|j: int| 0 <= j < self.sessions.keys().len() && self.sessions.keys()[j] == k;
                assert(self.sessions@[self.sessions.keys()[j]] > now);
            }
            assert(self.sessions@ =~= unexpired(orig, now));
        }
    }

    /// Drops expired sessions, then reports whether the cookie carries a
    /// live session.  A request without a usable cookie changes nothing.
    pub fn is_authenticated_at(&mut self, cookie_header: Option<&str>, now: u64) -> (r: bool)
        requires
            old(self).wf(),
        ensures
            final(self).wf(),
            r == authenticated(old(self).sessions(), opt_view(cookie_header), now),
            final(self).sessions() == after_session_event(
                old(self).sessions(),
                SessionEvent::Check { cookie: opt_view(cookie_header), now },
            ),
            match cookie_header {
                Some(c) => if cookie_token(c@) is Some {
                    final(self).sessions() == unexpired(old(self).sessions(), now)
                } else {
                    final(self).sessions() == old(self).sessions()
                },
                None => final(self).sessions() == old(self).sessions(),
            },
    {
        let token = match cookie_header {
            Some(c) => match token_from_cookie_header(c) {
                Some(t) => t,
                None => {
                    return false;
                },
            },
            None => {
                return false;
            },
        };
        self.prune(now);
        match self.sessions.get(&chars_of_string(&token)) {
            Some(expires_at) => *expires_at > now,
            None => false,
        }
    }

    /// `is_authenticated_at` at the current time (read from the clock).
    pub fn is_authenticated(&mut self, cookie_header: Option<&str>) -> (r: bool)
        requires
            old(self).wf(),
        ensures
            final(self).wf(),
            exists|now: u64|
                {
                    &&& r == authenticated(old(self).sessions(), opt_view(cookie_header), now)
                    &&& (final(self).sessions() == old(self).sessions() || final(self).sessions()
                        == unexpired(old(self).sessions(), now))
                },
    {
        let now = now_secs();
        self.is_authenticated_at(cookie_header, now)
    }

    /// Ends the session the cookie carries, if any.
    pub fn revoke_from_headers(&mut self, cookie_header: Option<&str>)
        requires
            old(self).wf(),
        ensures
            final(self).wf(),
            match cookie_header {
                Some(c) => match cookie_token(c@) {
                    Some(t) => final(self).sessions() == old(self).sessions().remove(t),
                    None => final(self).sessions() == old(self).sessions(),
                },
                None => final(self).sessions() == old(self).sessions(),
            },
            final(self).sessions() == after_session_event(
                old(self).sessions(),
                SessionEvent::Revoke { cookie: opt_view(cookie_header) },
            ),
    {
        if let Some(c) = cookie_header {
            if let Some(t) = token_from_cookie_header(c) {
                self.sessions.remove(&chars_of_string(&t));
            }
        }
    }
}

/// The `Cookie` header a browser sends back for a session token.
pub open spec fn session_cookie_pair(token: Seq<char>) -> Seq<char> {
    "coding_tools_admin_session"@ + "="@ + token
}

/// A token that a cookie carries unchanged: not empty, no `;`, no
/// whitespace.
pub open spec fn plain_token(token: Seq<char>) -> bool {
    token.len() > 0 && forall|i: int|
        0 <= i < token.len() ==> #[trigger] token[i] != ';' && !is_ws(token[i])
}

proof fn lemma_index_of_append(a: Seq<char>, b: Seq<char>, c: char)
    requires
        forall|i: int| 0 <= i < a.len() ==> a[i] != c,
    ensures
        index_of(a + b, c) == a.len() + index_of(b, c),
    decreases a.len(),
{
    if a.len() > 0 {
        assert((a + b).drop_first() =~= a.drop_first() + b);
        lemma_index_of_append(a.drop_first(), b, c);
    } else {
        assert(a + b =~= b);
    }
}

/// Law: the cookie pair of a session token is read back as that token.
pub proof fn law_session_cookie_round_trip(token: Seq<char>)
    requires
        plain_token(token),
    ensures
        cookie_token(session_cookie_pair(token)) == Some(token),
{
    let name = "coding_tools_admin_session"@;
    let eq = "="@;
    reveal_strlit("coding_tools_admin_session");
    reveal_strlit("=");
    let s = session_cookie_pair(token);
    assert(name.len() == 26);
    assert(eq.len() == 1 && eq[0] == '=');
    assert forall|i: int| 0 <= i < s.len() implies s[i] != ';' by {
        if i >= 27 {
            assert(s[i] == token[i - 27]);
        }
    }
    lemma_index_of_append(s, Seq::<char>::empty(), ';');
    assert(s + Seq::<char>::empty() =~= s);
    assert(s.subrange(0, s.len() as int) =~= s);
    assert(!is_ws(s[0]));
    assert(s.last() == token.last());
    assert(!is_ws(s.last()));
    lemma_strip_start_fixed(s, CharClass::Space);
    lemma_strip_end_fixed(s, CharClass::Space);
    assert(trim(s) == s);
    assert(s =~= name + (eq + token));
    lemma_index_of_append(name, eq + token, '=');
    assert(s.subrange(0, 26) =~= name);
    assert(s.subrange(27, s.len() as int) =~= token);
}

/// Law: a session opened at `now` authenticates its cookie at every time
/// before it expires, and at no time from its expiry on.
pub proof fn law_session_live_until_expiry(
    sessions: Map<Seq<char>, u64>,
    token: Seq<char>,
    now: u64,
    t: u64,
)
    requires
        plain_token(token),
    ensures
        authenticated(
            sessions.insert(token, session_expiry(now)),
            Some(session_cookie_pair(token)),
            t,
        ) <==> t < session_expiry(now),
{
    law_session_cookie_round_trip(token);
}

/// A call on the admin session store, as it bears on the sessions.
pub enum SessionEvent {
    /// `create_at(token, now)` (and `create`, with a random token).
    Create { token: Seq<char>, now: u64 },
    /// `is_authenticated_at(cookie, now)` (and `is_authenticated`).
    Check { cookie: Option<Seq<char>>, now: u64 },
    /// `revoke_from_headers(cookie)`.
    Revoke { cookie: Option<Seq<char>> },
}

/// The sessions after one call.
pub open spec fn after_session_event(sessions: Map<Seq<char>, u64>, e: SessionEvent) -> Map<
    Seq<char>,
    u64,
> {
    match e {
        SessionEvent::Create { token, now } => sessions.insert(token, session_expiry(now)),
        SessionEvent::Check { cookie, now } => match cookie {
            Some(c) => if cookie_token(c) is Some {
                unexpired(sessions, now)
            } else {
                sessions
            },
            None => sessions,
        },
        SessionEvent::Revoke { cookie } => match cookie {
            Some(c) => match cookie_token(c) {
                Some(t) => sessions.remove(t),
                None => sessions,
            },
            None => sessions,
        },
    }
}

/// The sessions after a sequence of calls, first to last.
pub open spec fn after_session_events(sessions: Map<Seq<char>, u64>, events: Seq<SessionEvent>) -> Map<
    Seq<char>,
    u64,
>
    decreases events.len(),
{
    if events.len() == 0 {
        sessions
    } else {
        after_session_events(after_session_event(sessions, events[0]), events.drop_first())
    }
}

/// The call neither reopens nor ends the session `token`, and checks at no
/// time later than `t`.
pub open spec fn spares_session(e: SessionEvent, token: Seq<char>, t: u64) -> bool {
    match e {
        SessionEvent::Create { token: k, .. } => k != token,
        SessionEvent::Check { now, .. } => now <= t,
        SessionEvent::Revoke { cookie } => match cookie {
            Some(c) => cookie_token(c) != Some(token),
            None => true,
        },
    }
}

proof fn lemma_session_kept(
    sessions: Map<Seq<char>, u64>,
    token: Seq<char>,
    expiry: u64,
    events: Seq<SessionEvent>,
    t: u64,
)
    requires
        sessions.contains_key(token) ==> sessions[token] == expiry,
        t < expiry ==> sessions.contains_key(token),
        forall|i: int| 0 <= i < events.len() ==> spares_session(#[trigger] events[i], token, t),
    ensures
        after_session_events(sessions, events).contains_key(token) ==> after_session_events(
            sessions,
            events,
        )[token] == expiry,
        t < expiry ==> after_session_events(sessions, events).contains_key(token),
    decreases events.len(),
{
    if events.len() > 0 {
        let next = after_session_event(sessions, events[0]);
        assert(spares_session(events[0], token, t));
        assert forall|i: int| 0 <= i < events.drop_first().len() implies spares_session(
            #[trigger] events.drop_first()[i],
            token,
            t,
        ) by {
            assert(events.drop_first()[i] == events[i + 1]);
        }
        lemma_session_kept(next, token, expiry, events.drop_first(), t);
    }
}

/// Law: a session opened at `created` authenticates its cookie at time `t`
/// exactly when `t` is before its expiry (`created` plus twelve hours),
/// whatever calls followed that did not reopen or revoke that token and
/// checked no later than `t`: other sessions opened, checked or revoked
/// leave it alone.
pub proof fn law_session_lifetime(
    sessions: Map<Seq<char>, u64>,
    token: Seq<char>,
    created: u64,
    events: Seq<SessionEvent>,
    t: u64,
)
    requires
        plain_token(token),
        forall|i: int| 0 <= i < events.len() ==> spares_session(#[trigger] events[i], token, t),
    ensures
        authenticated(
            after_session_events(sessions.insert(token, session_expiry(created)), events),
            Some(session_cookie_pair(token)),
            t,
        ) <==> t < session_expiry(created),
{
    law_session_cookie_round_trip(token);
    lemma_session_kept(
        sessions.insert(token, session_expiry(created)),
        token,
        session_expiry(created),
        events,
        t,
    );
}

/// Law: once the session a cookie names is removed, that cookie no longer
/// authenticates, at any time.
pub proof fn law_revoked_session_rejected(sessions: Map<Seq<char>, u64>, header: Seq<char>, t: u64)
    requires
        cookie_token(header) is Some,
    ensures
        !authenticated(sessions.remove(cookie_token(header)->0), Some(header), t),
{
}

/// Law: pruning expired sessions changes no verdict at the same time.
pub proof fn law_prune_keeps_verdicts(sessions: Map<Seq<char>, u64>, header: Option<Seq<char>>, t: u64)
    ensures
        authenticated(unexpired(sessions, t), header, t) == authenticated(sessions, header, t),
{
}

proof fn old_keys_distinct(keys: Seq<Seq<char>>, j: int, i: int)
    requires
        keys.no_duplicates(),
        0 <= j < i < keys.len(),
    ensures
        keys[j] != keys[i],
{
}

} // verus!
