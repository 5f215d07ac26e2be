//! Account and credential surface: the request/response shapes and the
//! checks the hub performs itself. Hashing a password, minting or
//! validating a signed token, and looking accounts up are the external
//! authenticator's work; the hub only trusts the identity it yields.

use vstd::prelude::*;
use vstd::string::StrSliceExecFns;
use crate::errors::HubError;

verus! {

/// How long a minted credential stays valid, in seconds.
pub const TOKEN_LIFETIME_SECS: i64 = 604800;

/// The identity claims carried inside a signed bearer credential.
pub struct Claims {
    pub sub: String,
    pub username: String,
    pub exp: i64,
}

/// A request to create an account.
pub struct RegisterRequest {
    pub username: String,
    pub password: String,
}

/// A request to sign in.
pub struct LoginRequest {
    pub username: String,
    pub password: String,
}

/// An account as the durable store holds it.
pub struct User {
    pub id: String,
    pub username: String,
    pub password_hash: String,
    pub friend_code: String,
    pub avatar_url: Option<String>,
    pub status: String,
    pub created_at: i64,
    pub updated_at: i64,
}

/// The public projection of an account: everything but the credential
/// hash and the store's timestamps.
pub struct UserResponse {
    pub id: String,
    pub username: String,
    pub friend_code: String,
    pub avatar_url: Option<String>,
    pub status: String,
}

impl UserResponse {
    /// Projects an account onto its public fields.
    pub fn of_user(user: User) -> (r: UserResponse)
        ensures
            r.id == user.id,
            r.username == user.username,
            r.friend_code == user.friend_code,
            r.avatar_url == user.avatar_url,
            r.status == user.status,
    {
        UserResponse {
            id: user.id,
            username: user.username,
            friend_code: user.friend_code,
            avatar_url: user.avatar_url,
            status: user.status,
        }
    }
}

/// A fresh credential and the account it belongs to.
pub struct AuthResponse {
    pub token: String,
    pub user: UserResponse,
}

/// Whether a registration's inputs are admissible: a username of 3 to
/// 50 characters and a password of at least 6.
pub open spec fn registration_valid(username: Seq<char>, password: Seq<char>) -> bool {
    3 <= username.len() <= 50 && password.len() >= 6
}

/// Rejects a registration whose username or password is out of bounds;
/// admits exactly the rest.
pub fn validate_registration(req: &RegisterRequest) -> (r: Result<(), HubError>)
    ensures
        r == Ok::<(), HubError>(()) <==> registration_valid(req.username@, req.password@),
        !registration_valid(req.username@, req.password@)
            ==> r == Err::<(), HubError>(HubError::Validation),
{
    let ulen = req.username.as_str().unicode_len();
    if ulen < 3 || ulen > 50 {
        return Err(HubError::Validation);
    }
    let plen = req.password.as_str().unicode_len();
    if plen < 6 {
        return Err(HubError::Validation);
    }
    Ok(())
}

/// The claims a credential minted at `now` for this account carries:
/// the account id as subject, and an expiry one token lifetime ahead.
pub fn claims_for(user_id: String, username: String, now: i64) -> (r: Claims)
    requires
        now <= i64::MAX - TOKEN_LIFETIME_SECS,
    ensures
        r.sub == user_id,
        r.username == username,
        r.exp == now + TOKEN_LIFETIME_SECS,
{
    Claims { sub: user_id, username, exp: now + TOKEN_LIFETIME_SECS }
}

/// The credential text of an authorization header, when the header has
/// the `Bearer ` shape; `None` otherwise.
pub fn bearer_token(header: &str) -> (r: Option<String>)
    ensures
        match r {
            Some(t) => header@.len() >= 7 && header@.subrange(0, 7) == "Bearer "@
                && t@ == header@.skip(7),
            None => !(header@.len() >= 7 && header@.subrange(0, 7) == "Bearer "@),
        },
{
    proof {
        reveal_strlit("Bearer ");
    }
    let n = header.unicode_len();
    if n < 7 {
        return None;
    }
    let ok = header.get_char(0) == 'B' && header.get_char(1) == 'e'
        && header.get_char(2) == 'a' && header.get_char(3) == 'r'
        && header.get_char(4) == 'e' && header.get_char(5) == 'r'
        && header.get_char(6) == ' ';
    if !ok {
        proof {
            assert(header@.subrange(0, 7) != "Bearer "@) by {
                if header@.subrange(0, 7) == "Bearer "@ {
                    assert(header@.subrange(0, 7)[0] == 'B');
                    assert(header@.subrange(0, 7)[1] == 'e');
                    assert(header@.subrange(0, 7)[2] == 'a');
                    assert(header@.subrange(0, 7)[3] == 'r');
                    assert(header@.subrange(0, 7)[4] == 'e');
                    assert(header@.subrange(0, 7)[5] == 'r');
                    assert(header@.subrange(0, 7)[6] == ' ');
                    assert(header@[0] == 'B');
                    assert(header@[1] == 'e');
                    assert(header@[2] == 'a');
                    assert(header@[3] == 'r');
                    assert(header@[4] == 'e');
                    assert(header@[5] == 'r');
                    assert(header@[6] == ' ');
                }
            }
        }
        return None;
    }
    let rest = header.substring_char(7, n);
    proof {
        assert(header@.subrange(0, 7) =~= "Bearer "@);
        assert(rest@ =~= header@.skip(7));
    }
    Some(String::from_str(rest))
}

/// The index of the first `c` in `q` within `[from, to)`, or `to` when
/// there is none.
pub open spec fn find_in(q: Seq<char>, c: char, from: int, to: int) -> int
    decreases to - from,
{
    if from >= to {
        to
    } else if q[from] == c {
        from
    } else {
        find_in(q, c, from + 1, to)
    }
}

/// `find_in` stays within its bounds and lands on `c` when it finds one.
pub proof fn lemma_find_in_bounds(q: Seq<char>, c: char, from: int, to: int)
    requires
        0 <= from <= to <= q.len(),
    ensures
        from <= find_in(q, c, from, to) <= to,
        find_in(q, c, from, to) < to ==> q[find_in(q, c, from, to)] == c,
    decreases to - from,
{
    if from < to && q[from] != c {
        lemma_find_in_bounds(q, c, from + 1, to);
    }
}

/// The characters of the query parameter name carrying a credential.
pub open spec fn token_word() -> Seq<char> {
    seq!['t', 'o', 'k', 'e', 'n']
}

/// The credential in a raw query string, read from position `start` on:
/// parameters are separated by `&`; the first whose name — the text up
/// to its first `=` — is `token` yields its value, the text from after
/// that `=` up to the parameter's next `=` or its end; a parameter
/// without `=` never matches.
pub open spec fn query_token_from(q: Seq<char>, start: int) -> Option<Seq<char>>
    decreases q.len() - start,
    via query_token_from_dec
{
    if start >= q.len() || start < 0 {
        None
    } else {
        let amp = find_in(q, '&', start, q.len() as int);
        let eq = find_in(q, '=', start, amp);
        if eq < amp && q.subrange(start, eq) == token_word() {
            Some(q.subrange(eq + 1, find_in(q, '=', eq + 1, amp)))
        } else if amp < q.len() {
            query_token_from(q, amp + 1)
        } else {
            None
        }
    }
}

#[via_fn]
proof fn query_token_from_dec(q: Seq<char>, start: int) {
    if !(start >= q.len() || start < 0) {
        lemma_find_in_bounds(q, '&', start, q.len() as int);
    }
}

/// The credential carried in a raw query string, if any.
pub open spec fn query_token(q: Seq<char>) -> Option<Seq<char>> {
    query_token_from(q, 0)
}

/// The index of the first `c` in `[from, to)` of `s`, or `to`.
fn find_char_in(s: &str, c: char, from: usize, to: usize) -> (r: usize)
    requires
        from <= to <= s@.len(),
    ensures
        r == find_in(s@, c, from as int, to as int),
        from <= r <= to,
        r < to ==> s@[r as int] == c,
{
    proof {
        lemma_find_in_bounds(s@, c, from as int, to as int);
    }
    let mut i: usize = from;
    while i < to
        invariant
            from <= i <= to <= s@.len(),
            find_in(s@, c, from as int, to as int) == find_in(s@, c, i as int, to as int),
            forall|j: int| from <= j < i ==> s@[j] != c,
        decreases to - i,
    {
        if s.get_char(i) == c {
            return i;
        }
        i = i + 1;
    }
    to
}

/// The credential in the live channel's query string, when a `token`
/// parameter carries one; `None` otherwise.
pub fn token_from_query(query: &str) -> (r: Option<String>)
    ensures
        match r {
            Some(t) => query_token(query@) == Some(t@),
            None => query_token(query@) is None,
        },
{
    let n = query.unicode_len();
    let mut start: usize = 0;
    while start < n
        invariant
            start <= n,
            n == query@.len(),
            query_token(query@) == query_token_from(query@, start as int),
        decreases n - start,
    {
        let amp = find_char_in(query, '&', start, n);
        let eq = find_char_in(query, '=', start, amp);
        let named_token = eq < amp && eq - start == 5
            && query.get_char(start) == 't'
            && query.get_char(start + 1) == 'o'
            && query.get_char(start + 2) == 'k'
            && query.get_char(start + 3) == 'e'
            && query.get_char(start + 4) == 'n';
        if named_token {
            proof {
                assert(query@.subrange(start as int, eq as int) =~= token_word());
            }
            let v_end = find_char_in(query, '=', eq + 1, amp);
            let tok = query.substring_char(eq + 1, v_end);
            proof {
                assert(tok@ =~= query@.subrange(eq + 1 as int, v_end as int));
            }
            return Some(String::from_str(tok));
        }
        proof {
            assert(!(eq < amp && query@.subrange(start as int, eq as int) == token_word())) by {
                if eq < amp && query@.subrange(start as int, eq as int) == token_word() {
                    assert(query@.subrange(start as int, eq as int).len() == token_word().len());
                    assert(eq - start == 5);
                    assert(query@.subrange(start as int, eq as int)[0] == 't');
                    assert(query@.subrange(start as int, eq as int)[1] == 'o');
                    assert(query@.subrange(start as int, eq as int)[2] == 'k');
                    assert(query@.subrange(start as int, eq as int)[3] == 'e');
                    assert(query@.subrange(start as int, eq as int)[4] == 'n');
                    assert(query@[start as int] == 't');
                    assert(query@[start as int + 1] == 'o');
                    assert(query@[start as int + 2] == 'k');
                    assert(query@[start as int + 3] == 'e');
                    assert(query@[start as int + 4] == 'n');
                }
            }
        }
        if amp >= n {
            return None;
        }
        start = amp + 1;
    }
    None
}

} // verus!
