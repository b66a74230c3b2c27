//! Account rules: user names, passwords, bearer tokens and the server mode a token is for.
use vstd::prelude::*;
use crate::config::ServerMode;
use crate::text::{chars_of, string_from_chars};
use crate::config::ascii_lower;
use vstd::string::StringSliceAdditionalSpecFns;
use argon2::password_hash::rand_core::OsRng;
use argon2::password_hash::{PasswordHash, PasswordHasher, PasswordVerifier, SaltString};

verus! {

/// Seconds a token stays valid: one week.
pub const TOKEN_TTL_SECONDS: i64 = 604_800;

/// What a login token says: the player, its user name, the server mode it is for, and when
/// it expires (Unix seconds).
#[derive(Debug)]
pub struct AuthClaims {
    pub sub: String,
    pub username: String,
    pub mode: String,
    pub exp: usize,
}

/// The claims of a new token for `player_id` on a server of `mode`, issued at `now_secs`
/// (Unix seconds): it expires a week later (the time saturates, then is read as an unsigned
/// number as the token format stores it).
pub fn claims_for(player_id: &str, username: &str, mode: ServerMode, now_secs: i64) -> (c: AuthClaims)
    ensures
        c.sub@ == player_id@,
        c.username@ == username@,
        c.mode@ == match mode {
            ServerMode::Pvp => "pvp"@,
            ServerMode::Pve => "pve"@,
        },
        c.exp == (if now_secs + TOKEN_TTL_SECONDS > i64::MAX { i64::MAX as int } else { now_secs + TOKEN_TTL_SECONDS }) as usize,
{
    let exp_secs: i64 = if now_secs > i64::MAX - TOKEN_TTL_SECONDS { i64::MAX } else { now_secs + TOKEN_TTL_SECONDS };
    AuthClaims {
        sub: player_id.to_owned(),
        username: username.to_owned(),
        mode: mode.as_str().to_owned(),
        exp: #[verifier::truncate] (exp_secs as usize),
    }
}

/// Message for a token issued for the other server mode.
pub const WRONG_MODE_MSG: &'static str = "このトークンは別モード用です。";

/// Accepts decoded claims only when they are for this server's mode; a decoding error is
/// passed on unchanged.
pub fn verify_token_for_mode(decoded: Result<AuthClaims, String>, expected_mode: ServerMode) -> (r: Result<AuthClaims, String>)
    ensures
        match decoded {
            Err(e) => r matches Err(e2) && e2@ == e@,
            Ok(c) => if c.mode@ == match expected_mode {
                ServerMode::Pvp => "pvp"@,
                ServerMode::Pve => "pve"@,
            } {
                r matches Ok(c2) && c2.sub@ == c.sub@ && c2.username@ == c.username@ && c2.mode@ == c.mode@ && c2.exp == c.exp
            } else {
                r matches Err(e2) && e2@ == WRONG_MODE_MSG@
            },
        },
{
    match decoded {
        Err(e) => Err(e),
        Ok(claims) => {
            if !crate::text::str_eq(claims.mode.as_str(), expected_mode.as_str()) {
                return Err(WRONG_MODE_MSG.to_owned());
            }
            Ok(claims)
        },
    }
}

/// The token of an `Authorization` header value: what follows "Bearer ", unless that is empty
/// or only white space.
pub open spec fn bearer_spec(value: Seq<char>) -> Option<Seq<char>> {
    let p = "Bearer "@;
    if value.len() >= p.len() && value.take(p.len() as int) == p {
        let token = value.skip(p.len() as int);
        if forall|i: int| 0 <= i < token.len() ==> is_space(#[trigger] token[i]) {
            None
        } else {
            Some(token)
        }
    } else {
        None
    }
}

/// Unicode white space, as `char::is_whitespace` and `str::trim` see it.
pub open spec fn is_space(c: char) -> bool {
    let u = c as u32;
    (0x09 <= u <= 0x0d) || u == 0x20 || u == 0x85 || u == 0xa0 || u == 0x1680 || (0x2000 <= u <= 0x200a)
        || u == 0x2028 || u == 0x2029 || u == 0x202f || u == 0x205f || u == 0x3000
}

fn is_space_char(c: char) -> (b: bool)
    ensures
        b == is_space(c),
{
    let u = c as u32;
    (0x09 <= u && u <= 0x0d) || u == 0x20 || u == 0x85 || u == 0xa0 || u == 0x1680 || (0x2000 <= u && u <= 0x200a)
        || u == 0x2028 || u == 0x2029 || u == 0x202f || u == 0x205f || u == 0x3000
}

/// The bearer token of an `Authorization` header value (see [`bearer_spec`]).
pub fn bearer_token(value: &str) -> (r: Option<String>)
    ensures
        match r {
            Some(t) => bearer_spec(value@) == Some(t@),
            None => bearer_spec(value@) is None,
        },
{
    let cs = chars_of(value);
    let prefix = chars_of("Bearer ");
    proof {
        reveal_strlit("Bearer ");
    }
    if !crate::text::chars_start_with(&cs, &prefix) {
        return None;
    }
    let n = prefix.len();
    let mut token: Vec<char> = Vec::new();
    let mut all_space = true;
    let mut i: usize = n;
    while i < cs.len()
        invariant
            n == 7 <= i <= cs@.len(),
            cs@ == value@,
            token@ == cs@.subrange(7, i as int),
            all_space == forall|k: int| 0 <= k < token@.len() ==> is_space(#[trigger] token@[k]),
        decreases cs@.len() - i,
    {
        let c = cs[i];
        let ghost before = token@;
        token.push(c);
        if !is_space_char(c) {
            all_space = false;
        }
        i += 1;
        proof {
            assert(token@ =~= cs@.subrange(7, i as int));
            if all_space {
                assert forall|k: int| 0 <= k < token@.len() implies is_space(#[trigger] token@[k]) by {
                    if k < before.len() {
                        assert(token@[k] == before[k]);
                    }
                }
            } else if is_space(c) {
                let k = choose|k: int| 0 <= k < before.len() && !is_space(before[k]);
                assert(token@[k] == before[k]);
            } else {
                assert(!is_space(token@[token@.len() - 1]));
            }
        }
    }
    proof {
        assert(token@ =~= value@.skip(7));
    }
    if all_space {
        None
    } else {
        Some(string_from_chars(&token))
    }
}

/// A user name character: ASCII letter or digit, '_' or '-'.
pub open spec fn name_char(c: char) -> bool {
    ('a' <= c <= 'z') || ('A' <= c <= 'Z') || ('0' <= c <= '9') || c == '_' || c == '-'
}

/// `s` without leading and trailing white space.
pub open spec fn trimmed(s: Seq<char>, lo: int, hi: int) -> bool {
    &&& 0 <= lo <= hi <= s.len()
    &&& forall|i: int| 0 <= i < lo ==> is_space(#[trigger] s[i])
    &&& forall|i: int| hi <= i < s.len() ==> is_space(#[trigger] s[i])
    &&& lo < hi ==> !is_space(s[lo]) && !is_space(s[hi - 1])
}

/// Message for a user name of the wrong length.
pub const USERNAME_LENGTH_MSG: &'static str = "ユーザー名は3〜32文字にしてください。";

/// Message for a user name with other characters.
pub const USERNAME_CHARS_MSG: &'static str = "ユーザー名に使える文字は英数字、_、- です。";

/// Message for a password that is too short.
pub const PASSWORD_LENGTH_MSG: &'static str = "パスワードは8文字以上にしてください。";

/// Number of UTF-8 bytes of a character.
pub open spec fn utf8_width(c: char) -> int {
    let u = c as u32;
    if u < 0x80 { 1 } else if u < 0x800 { 2 } else if u < 0x10000 { 3 } else { 4 }
}

/// Number of UTF-8 bytes of a string.
pub open spec fn utf8_len(s: Seq<char>) -> int
    decreases s.len(),
{
    if s.len() == 0 { 0 } else { utf8_len(s.drop_last()) + utf8_width(s.last()) }
}

/// The normalized user name: `raw` trimmed of white space, ASCII letters lowered. It must be
/// 3 to 32 bytes long and made of ASCII letters, digits, '_' and '-'.
pub open spec fn normalize_username_spec(raw: Seq<char>, lo: int, hi: int) -> Result<Seq<char>, Seq<char>> {
    let name = raw.subrange(lo, hi).map_values(|c: char| ascii_lower(c));
    if utf8_len(name) < 3 || utf8_len(name) > 32 {
        Err(USERNAME_LENGTH_MSG@)
    } else if !(forall|i: int| 0 <= i < name.len() ==> name_char(#[trigger] name[i])) {
        Err(USERNAME_CHARS_MSG@)
    } else {
        Ok(name)
    }
}

/// Normalizing is idempotent: a name that normalization accepted normalizes to itself.
pub proof fn lemma_normalize_username_idempotent(raw: Seq<char>, lo: int, hi: int, lo2: int, hi2: int)
    requires
        trimmed(raw, lo, hi),
        normalize_username_spec(raw, lo, hi) is Ok,
        trimmed(normalize_username_spec(raw, lo, hi)->Ok_0, lo2, hi2),
    ensures
        normalize_username_spec(normalize_username_spec(raw, lo, hi)->Ok_0, lo2, hi2)
            == normalize_username_spec(raw, lo, hi),
{
    let name = normalize_username_spec(raw, lo, hi)->Ok_0;
    assert(name.len() > 0) by {
        if name.len() == 0 {
            assert(utf8_len(name) == 0);
        }
    }
    assert(!is_space(name[0]) && name_char(name[0]));
    assert(!is_space(name[name.len() - 1]) && name_char(name[name.len() - 1]));
    if lo2 > 0 {
        assert(is_space(name[0]));
    }
    if hi2 < name.len() {
        assert(is_space(name[name.len() - 1]));
    }
    assert(lo2 == 0 && hi2 == name.len());
    assert(name.subrange(0, name.len() as int) =~= name);
    assert forall|i: int| 0 <= i < name.len() implies ascii_lower(#[trigger] name[i]) == name[i] by {
        let c = raw.subrange(lo, hi)[i];
        assert(name[i] == ascii_lower(c));
    }
    assert(name.map_values(|c: char| ascii_lower(c)) =~= name);
}

proof fn lemma_utf8_len_nonneg(s: Seq<char>)
    ensures
        utf8_len(s) >= 0,
    decreases s.len(),
{
    if s.len() > 0 {
        lemma_utf8_len_nonneg(s.drop_last());
    }
}

fn utf8_width_of(c: char) -> (w: usize)
    ensures
        w == utf8_width(c),
{
    let u = c as u32;
    if u < 0x80 { 1 } else if u < 0x800 { 2 } else if u < 0x10000 { 3 } else { 4 }
}

/// Normalizes a user name at registration (see [`normalize_username_spec`]; `lo..hi` is the
/// part of `raw` left by trimming white space).
pub fn normalize_username(raw: &str) -> (r: Result<String, String>)
    ensures
        exists|lo: int, hi: int|
            #[trigger] trimmed(raw@, lo, hi) && match (r, normalize_username_spec(raw@, lo, hi)) {
                (Ok(a), Ok(b)) => a@ == b,
                (Err(a), Err(b)) => a@ == b,
                _ => false,
            },
{
    let cs = chars_of(raw);
    let mut lo: usize = 0;
    while lo < cs.len() && is_space_char(cs[lo])
        invariant
            lo <= cs@.len(),
            cs@ == raw@,
            forall|i: int| 0 <= i < lo ==> is_space(#[trigger] cs@[i]),
        decreases cs@.len() - lo,
    {
        lo += 1;
    }
    let mut hi: usize = cs.len();
    while hi > lo && is_space_char(cs[hi - 1])
        invariant
            lo <= hi <= cs@.len(),
            cs@ == raw@,
            forall|i: int| hi <= i < cs@.len() ==> is_space(#[trigger] cs@[i]),
        decreases hi - lo,
    {
        hi -= 1;
    }
    proof {
        assert(trimmed(raw@, lo as int, hi as int));
    }
    let ghost name_spec = raw@.subrange(lo as int, hi as int).map_values(|c: char| ascii_lower(c));
    let mut name: Vec<char> = Vec::new();
    let mut bytes: usize = 0;
    let mut ok_chars = true;
    let mut i: usize = lo;
    while i < hi
        invariant
            lo <= i <= hi <= cs@.len(),
            cs@ == raw@,
            name_spec == raw@.subrange(lo as int, hi as int).map_values(|c: char| ascii_lower(c)),
            name@ == name_spec.take(i - lo),
            bytes == if utf8_len(name@) > 33 { 33 } else { utf8_len(name@) },
            ok_chars == forall|k: int| 0 <= k < name@.len() ==> name_char(#[trigger] name@[k]),
        decreases hi - i,
    {
        let c = cs[i];
        let l = if 'A' <= c && c <= 'Z' { ((c as u8) + 32) as char } else { c };
        proof {
            if 'A' <= c <= 'Z' {
                assert(l == ascii_lower(c));
            }
        }
        let ghost before = name@;
        name.push(l);
        let w = utf8_width_of(l);
        bytes = if bytes + w > 33 { 33 } else { bytes + w };
        let is_ok = ('a' <= l && l <= 'z') || ('A' <= l && l <= 'Z') || ('0' <= l && l <= '9') || l == '_' || l == '-';
        if !is_ok {
            ok_chars = false;
        }
        i += 1;
        proof {
            assert(name@ =~= name_spec.take(i - lo));
            assert(name@.drop_last() =~= before);
            lemma_utf8_len_nonneg(before);
            if ok_chars {
                assert forall|k: int| 0 <= k < name@.len() implies name_char(#[trigger] name@[k]) by {
                    if k < before.len() {
                        assert(name@[k] == before[k]);
                    }
                }
            } else if is_ok {
                let k = choose|k: int| 0 <= k < before.len() && !name_char(before[k]);
                assert(name@[k] == before[k]);
            } else {
                assert(!name_char(name@[name@.len() - 1]));
            }
        }
    }
    proof {
        assert(name_spec.take(hi - lo) =~= name_spec);
    }
    if bytes < 3 || bytes > 32 {
        return Err(USERNAME_LENGTH_MSG.to_owned());
    }
    if !ok_chars {
        return Err(USERNAME_CHARS_MSG.to_owned());
    }
    Ok(string_from_chars(&name))
}

/// Checks a password at registration: it must be at least 8 bytes long.
pub fn validate_password(password: &str) -> (r: Result<(), String>)
    ensures
        password.len() < 8 ==> (r matches Err(e) && e@ == PASSWORD_LENGTH_MSG@),
        password.len() >= 8 ==> r is Ok,
{
    if password.len() < 8 {
        return Err(PASSWORD_LENGTH_MSG.to_owned());
    }
    Ok(())
}

/// The message for a stored password hash that cannot be read.
pub const CORRUPT_HASH_MSG: &'static str = "保存されているパスワード情報が壊れています。";

/// The message for a password that does not match.
pub const WRONG_PASSWORD_MSG: &'static str = "ユーザー名またはパスワードが違います。";

/// What checking `password` against the stored hash `hash` gives with the default Argon2
/// parameters: `None` when `hash` is not a readable password hash, else whether it matches.
pub uninterp spec fn argon2_check(password: Seq<char>, hash: Seq<char>) -> Option<bool>;

/// `PasswordHash::new` on `hash`, then `Argon2::default().verify_password` on the bytes of
/// `password`: `Err` when the hash does not parse, else whether the password matches (see
/// [`argon2_check`]).
#[verifier::external_body]
fn argon2_verify(password: &str, hash: &str) -> (r: Result<bool, ()>)
    ensures
        match r {
            Ok(b) => argon2_check(password@, hash@) == Some(b),
            Err(_) => argon2_check(password@, hash@) is None,
        },
{
    match PasswordHash::new(hash) {
        Ok(h) => Ok(argon2::Argon2::default().verify_password(password.as_bytes(), &h).is_ok()),
        Err(_) => Err(()),
    }
}

/// `SaltString::generate(&mut OsRng)`, then `Argon2::default().hash_password` on the bytes of
/// `password` with that salt, written as a PHC string; the error's text when hashing fails.
/// A hash it gives checks out against the same password (verification recomputes the hash
/// with the salt and parameters written in it, see [`argon2_check`]). The salt is random, so
/// which hash comes out, and the error's text, are left unsaid.
#[verifier::external_body]
fn argon2_hash_random_salt(password: &str) -> (r: Result<String, String>)
    ensures
        r matches Ok(h) ==> argon2_check(password@, h@) == Some(true),
{
    let salt = SaltString::generate(&mut OsRng);
    match argon2::Argon2::default().hash_password(password.as_bytes(), &salt) {
        Ok(h) => Ok(h.to_string()),
        Err(e) => Err(e.to_string()),
    }
}

/// The answer to a password check with outcome `check` (see [`argon2_check`]): a corrupt hash,
/// a match, or a wrong password.
pub open spec fn password_outcome_spec(check: Option<bool>) -> Result<(), Seq<char>> {
    match check {
        None => Err(CORRUPT_HASH_MSG@),
        Some(true) => Ok(()),
        Some(false) => Err(WRONG_PASSWORD_MSG@),
    }
}

/// The answer to a password check with outcome `check` (see [`password_outcome_spec`]).
pub fn password_check_outcome(check: Option<bool>) -> (r: Result<(), String>)
    ensures
        match r {
            Ok(()) => password_outcome_spec(check) == Ok::<(), Seq<char>>(()),
            Err(e) => password_outcome_spec(check) == Err::<(), Seq<char>>(e@),
        },
{
    match check {
        None => Err(CORRUPT_HASH_MSG.to_owned()),
        Some(true) => Ok(()),
        Some(false) => Err(WRONG_PASSWORD_MSG.to_owned()),
    }
}

/// Checks `password` against the stored hash (see [`password_outcome_spec`] and
/// [`argon2_check`]).
pub fn verify_password(password: &str, password_hash: &str) -> (r: Result<(), String>)
    ensures
        match r {
            Ok(()) => password_outcome_spec(argon2_check(password@, password_hash@)) == Ok::<(), Seq<char>>(()),
            Err(e) => password_outcome_spec(argon2_check(password@, password_hash@)) == Err::<(), Seq<char>>(e@),
        },
{
    let check = match argon2_verify(password, password_hash) {
        Ok(b) => Some(b),
        Err(_) => None,
    };
    password_check_outcome(check)
}

/// Hashes `password` with a random salt (the hash, or the hashing error's text). A hash it
/// gives is one that [`verify_password`] accepts for the same password.
pub fn hash_password(password: &str) -> (r: Result<String, String>)
    ensures
        r matches Ok(h) ==> argon2_check(password@, h@) == Some(true),
        r matches Ok(h) ==> password_outcome_spec(argon2_check(password@, h@)) == Ok::<(), Seq<char>>(()),
{
    argon2_hash_random_salt(password)
}

} // verus!
