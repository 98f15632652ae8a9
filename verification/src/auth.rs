//! Account logic: credential hashing and verification through bcrypt, the
//! sign-up and login decisions, and token claims. The store lookup and the
//! token encoding themselves are collaborators outside this crate; the
//! decisions about their results are made — and verified — here.

use vstd::prelude::*;
use crate::errors::AppError;
use crate::models::{clone_bytes, Claims};

verus! {

/// Seconds a freshly issued token stays valid: one day.
pub const TOKEN_LIFETIME: i64 = 86400;

/// A sign-up request: desired login name and password.
pub struct SignupRequest {
    pub username: Vec<u8>,
    pub password: Vec<u8>,
}

/// A login request: login name and password.
pub struct LoginRequest {
    pub username: Vec<u8>,
    pub password: Vec<u8>,
}

/// A stored credential row: user identifier, login name, bcrypt hash.
pub struct Credential {
    pub user_id: u128,
    pub username: Vec<u8>,
    pub password_hash: Vec<u8>,
}

/// What bcrypt verification of a password against a hash yields: `None`
/// when the hash text is invalid, otherwise whether the password matches.
/// The outcome is a function of the two byte strings alone.
pub uninterp spec fn bcrypt_check(password: Seq<u8>, hash: Seq<u8>) -> Option<bool>;

/// Relies on bcrypt::verify: deterministic in the password bytes and the
/// hash text; errors exactly when the hash text is not a valid bcrypt hash.
#[verifier::external_body]
pub fn verify_password(password: &[u8], hash: &[u8]) -> (r: Option<bool>)
    ensures
        r == bcrypt_check(password@, hash@),
{
    match core::str::from_utf8(hash) {
        Ok(h) => bcrypt::verify(password, h).ok(),
        Err(_) => None,
    }
}

/// Relies on bcrypt::hash with the default cost: salted from OS randomness,
/// so nothing is promised of the hash text itself, but bcrypt::verify
/// accepts the produced hash for the same password.
#[verifier::external_body]
pub fn hash_password(password: &[u8]) -> (r: Option<Vec<u8>>)
    ensures
        r matches Some(h) ==> bcrypt_check(password@, h@) == Some(true),
{
    match bcrypt::hash(password, bcrypt::DEFAULT_COST) {
        Ok(h) => Some(h.into_bytes()),
        Err(_) => None,
    }
}

/// Whether `needle` occurs contiguously somewhere in `hay`.
pub open spec fn contains_subseq(hay: Seq<u8>, needle: Seq<u8>) -> bool {
    exists|i: int|
        0 <= i && i + needle.len() <= hay.len() && #[trigger] hay.subrange(i, i + needle.len())
            == needle
}

/// Substring search over bytes.
pub fn contains_bytes(hay: &[u8], needle: &[u8]) -> (r: bool)
    ensures
        r == contains_subseq(hay@, needle@),
{
    let m = needle.len();
    let n = hay.len();
    if m > n {
        proof {
            assert(!contains_subseq(hay@, needle@));
        }
        return false;
    }
    let mut i: usize = 0;
    while i <= n - m
        invariant
            m <= n == hay@.len(),
            m == needle@.len(),
            i <= n - m + 1,
            forall|s: int|
                0 <= s < i ==> #[trigger] hay@.subrange(s, s + needle@.len()) != needle@,
        decreases n - m + 1 - i,
    {
        let mut k: usize = 0;
        let mut matched = true;
        while k < m
            invariant
                i + m <= n == hay@.len(),
                m == needle@.len(),
                k <= m,
                matched <==> hay@.subrange(i as int, i + k) =~= needle@.take(k as int),
            decreases m - k,
        {
            let hb = hay[i + k];
            let nb = needle[k];
            proof {
                assert(hay@.subrange(i as int, i + k + 1).drop_last() =~= hay@.subrange(
                    i as int,
                    i + k,
                ));
                assert(needle@.take(k + 1).drop_last() =~= needle@.take(k as int));
            }
            if hb != nb {
                matched = false;
                proof {
                    assert(hay@.subrange(i as int, i + k + 1)[k as int] == hb);
                    assert(needle@.take(k + 1)[k as int] == nb);
                }
            } else {
                proof {
                    if matched {
                        assert(hay@.subrange(i as int, i + k + 1) =~= hay@.subrange(
                            i as int,
                            i + k,
                        ).push(hb));
                        assert(needle@.take(k + 1) =~= needle@.take(k as int).push(nb));
                    } else {
                        assert(hay@.subrange(i as int, i + k) != needle@.take(k as int));
                        assert(hay@.subrange(i as int, i + k + 1).drop_last() != needle@.take(
                            k + 1,
                        ).drop_last());
                    }
                }
            }
            k += 1;
        }
        if matched {
            proof {
                assert(hay@.subrange(i as int, i + m) =~= needle@.take(m as int));
                assert(needle@.take(m as int) =~= needle@);
            }
            return true;
        }
        proof {
            assert(needle@.take(m as int) =~= needle@);
        }
        i += 1;
    }
    proof {
        assert forall|s: int| 0 <= s && s + needle@.len() <= hay@.len() implies #[trigger] hay@.subrange(
            s,
            s + needle@.len(),
        ) != needle@ by {
            assert(s < i);
        }
    }
    false
}

/// The marker a database uniqueness violation carries in its message text.
pub open spec fn duplicate_key_marker() -> Seq<u8> {
    seq![100u8, 117u8, 112u8, 108u8, 105u8, 99u8, 97u8, 116u8, 101u8, 32u8, 107u8, 101u8, 121u8]
}

/// Builds the marker bytes, spelling "duplicate key".
fn duplicate_key_needle() -> (r: Vec<u8>)
    ensures
        r@ == duplicate_key_marker(),
{
    let r: Vec<u8> = vec![100u8, 117u8, 112u8, 108u8, 105u8, 99u8, 97u8, 116u8, 101u8, 32u8, 107u8,
        101u8, 121u8];
    proof {
        assert(r@ =~= duplicate_key_marker());
    }
    r
}

/// How a failed user insert surfaces to the caller: a message reporting a
/// duplicate key means the login name is taken (a conflict), anything else
/// is a storage failure.
pub enum SignupError {
    UsernameTaken,
    Storage,
}

/// Classifies the error text of a failed user insert: `UsernameTaken`
/// exactly when the text reports a duplicate key.
pub fn classify_signup_error(db_message: &[u8]) -> (r: SignupError)
    ensures
        r is UsernameTaken <==> contains_subseq(db_message@, duplicate_key_marker()),
{
    let needle = duplicate_key_needle();
    if contains_bytes(db_message, needle.as_slice()) {
        SignupError::UsernameTaken
    } else {
        SignupError::Storage
    }
}

/// The sign-up decision up to the store: hashes the password for the new
/// account. A produced hash always verifies the chosen password; a hashing
/// failure surfaces as an internal error, leaving nothing stored.
pub fn signup(req: &SignupRequest) -> (r: Result<Vec<u8>, AppError>)
    ensures
        r matches Ok(h) ==> bcrypt_check(req.password@, h@) == Some(true),
        r matches Err(e) ==> e is InternalServerError,
{
    match hash_password(req.password.as_slice()) {
        Some(h) => Ok(h),
        None => Err(AppError::InternalServerError),
    }
}

/// The claims of a token issued at `now` for this user: valid for exactly
/// [`TOKEN_LIFETIME`] seconds.
pub fn make_claims(user_id: u128, username: &Vec<u8>, now: i64) -> (r: Claims)
    requires
        now <= i64::MAX - TOKEN_LIFETIME,
    ensures
        r.sub == user_id,
        r.username@ == username@,
        r.exp == now + TOKEN_LIFETIME,
{
    Claims { sub: user_id, username: clone_bytes(username), exp: now + TOKEN_LIFETIME }
}

/// The login decision, given the credential row the account store returned
/// (or `None` when the login name is unknown): an unknown name or a wrong
/// password is `Unauthorized`, an unreadable stored hash is an internal
/// error, and a matching password yields the claims of a fresh token.
pub fn login(row: Option<Credential>, password: &[u8], now: i64) -> (r: Result<Claims, AppError>)
    requires
        now <= i64::MAX - TOKEN_LIFETIME,
    ensures
        row is None ==> (r matches Err(e) && e is Unauthorized),
        row matches Some(c) ==> match bcrypt_check(password@, c.password_hash@) {
            Option::None => (r matches Err(e) && e is InternalServerError),
            Option::Some(false) => (r matches Err(e) && e is Unauthorized),
            Option::Some(true) => (r matches Ok(cl) && cl.sub == c.user_id && cl.username@
                == c.username@ && cl.exp == now + TOKEN_LIFETIME),
        },
{
    match row {
        None => Err(AppError::Unauthorized),
        Some(c) => match verify_password(password, c.password_hash.as_slice()) {
            None => Err(AppError::InternalServerError),
            Some(false) => Err(AppError::Unauthorized),
            Some(true) => Ok(make_claims(c.user_id, &c.username, now)),
        },
    }
}

} // verus!
