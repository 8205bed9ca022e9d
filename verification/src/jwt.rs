//! What a bearer token says, when it is believed, and where it is found in
//! a request.

use vstd::prelude::*;
use vstd::string::*;
use crate::clock::{now, MAX_CLOCK_SECS, WEEK_SECS};
use crate::error::{string_views, ApiError};
use crate::ids::Id;
use crate::text::{
    find_char, first_pos, from_chars, slice_chars, starts_with, starts_with_chars, to_chars, trim,
    trim_chars,
};
use crate::user::{UserAuthInfo, UserRole};

verus! {

/// How long a token is good for, in hours.
pub const JWT_EXP_HOURS: i64 = 24 * 7;

/// What a token says: who the user is, and the second at which the token
/// expires.
#[derive(Debug, Clone, PartialEq, Eq)]
pub struct Claims {
    pub id: Id,
    pub email: String,
    pub exp: u64,
    pub public_id: i32,
    pub role: UserRole,
}

/// What is wrong with `claims` at the second `now`, in the order in which
/// it is reported: an empty address, an expiry of zero, an expiry that is
/// not in the future. The user's identifier and public number are numbers,
/// which are never empty.
pub open spec fn claim_errors(claims: Claims, now: int) -> Seq<Seq<char>> {
    (if claims.email@.len() == 0 {
        seq!["Invalid E-mail"@]
    } else {
        Seq::empty()
    }) + (if claims.exp == 0 {
        seq!["Invalid expiration date"@]
    } else {
        Seq::empty()
    }) + (if claims.exp <= now {
        seq!["Expired token"@]
    } else {
        Seq::empty()
    })
}

/// Whether `r` is what the examination of `claims` at the second `now`
/// comes to: status 200 where nothing is wrong, else the list of what is.
pub open spec fn examined(claims: Claims, now: int, r: Result<u16, ApiError>) -> bool {
    if claim_errors(claims, now).len() == 0 {
        r == Ok::<u16, ApiError>(200)
    } else {
        r matches Err(ApiError::MultipleAuthorizationErrors(l)) && string_views(l@)
            == claim_errors(claims, now)
    }
}

/// Examines `claims` at the second `now`. They hold if the address is not
/// empty, the expiry is not zero and the expiry is later than `now`;
/// otherwise everything that is wrong is listed.
pub fn validate_claims_at(claims: &Claims, now: u64) -> (r: Result<u16, ApiError>)
    ensures
        examined(*claims, now as int, r),
{
    let mut errors: Vec<String> = Vec::new();
    assert(string_views(errors@) =~= Seq::<Seq<char>>::empty());
    if claims.email.as_str().unicode_len() == 0 {
        let ghost before = errors@;
        errors.push(String::from_str("Invalid E-mail"));
        assert(string_views(errors@) =~= string_views(before).push("Invalid E-mail"@));
    }
    if claims.exp == 0 {
        let ghost before = errors@;
        errors.push(String::from_str("Invalid expiration date"));
        assert(string_views(errors@) =~= string_views(before).push("Invalid expiration date"@));
    }
    if claims.exp <= now {
        let ghost before = errors@;
        errors.push(String::from_str("Expired token"));
        assert(string_views(errors@) =~= string_views(before).push("Expired token"@));
    }
    assert(string_views(errors@) =~= claim_errors(*claims, now as int));
    if errors.len() == 0 {
        Ok(200)
    } else {
        Err(ApiError::MultipleAuthorizationErrors(errors))
    }
}

/// Examines `claims` at the present second, whichever the clock reports.
pub fn validate_claims(claims: &Claims) -> (r: Result<u16, ApiError>)
    ensures
        exists|t: int| 0 <= t <= MAX_CLOCK_SECS && examined(*claims, t, r),
{
    let t = now();
    let r = validate_claims_at(claims, t.secs as u64);
    assert(examined(*claims, t.secs as int, r));
    r
}

/// The claims of a token issued to `input` at the second `now`: they
/// expire seven days later.
pub fn claims_at(input: UserAuthInfo, now: i64) -> (c: Claims)
    requires
        0 <= now,
        now + WEEK_SECS <= MAX_CLOCK_SECS,
    ensures
        c.id == input.id,
        c.email == input.email,
        c.public_id == input.public_id,
        c.role == input.role,
        c.exp == now + 7 * 24 * 3600,
{
    let expiration: i64 = now + JWT_EXP_HOURS * 3600;
    Claims {
        id: input.id,
        email: input.email,
        exp: expiration as u64,
        public_id: input.public_id,
        role: input.role,
    }
}

/// Whether `r` is what issuing a token to `input` at the second `now`
/// comes to: the claims, which expire seven days later, or the refusal
/// `Invalid timestamp` where `now` lies before 1970 or seven days after
/// `now` is later than the clock can tell.
pub open spec fn issued(input: UserAuthInfo, now: int, r: Result<Claims, ApiError>) -> bool {
    if 0 <= now && now + WEEK_SECS <= MAX_CLOCK_SECS {
        r matches Ok(c) && c.id == input.id && c.email == input.email && c.public_id
            == input.public_id && c.role == input.role && c.exp == now + 7 * 24 * 3600
    } else {
        r matches Err(ApiError::CreateToken(m)) && m@ == "Invalid timestamp"@
    }
}

/// Issues a token to `input` at the second `now`: its claims say who the
/// user is and expire seven days later. None is issued, and the failure is
/// `Invalid timestamp`, where `now` lies before 1970 or seven days after
/// `now` is later than the clock can tell.
pub fn claims_with(input: UserAuthInfo, now: i64) -> (r: Result<Claims, ApiError>)
    ensures
        issued(input, now as int, r),
{
    if now < 0 || now > MAX_CLOCK_SECS - WEEK_SECS {
        Err(ApiError::CreateToken(String::from_str("Invalid timestamp")))
    } else {
        Ok(claims_at(input, now))
    }
}

/// The claims of a token issued to `input` now: what [`claims_with`] gives
/// for the second that the clock reports. So the token expires seven days
/// after that second, and none is issued in the last seven days that the
/// clock can tell.
pub fn generate_claims(input: UserAuthInfo) -> (r: Result<Claims, ApiError>)
    ensures
        exists|t: int| 0 <= t <= MAX_CLOCK_SECS && #[trigger] issued(input, t, r),
{
    let t = now();
    let r = claims_with(input, t.secs);
    assert(issued(input, t.secs as int, r));
    r
}

/// The token that an `Authorization` header carries: the header begins
/// with `Bearer `, and the token is what follows, without the white space
/// around it.
pub open spec fn bearer(header: Seq<char>) -> Option<Seq<char>> {
    if starts_with(header, "Bearer "@) {
        Some(trim(header.skip("Bearer "@.len() as int)))
    } else {
        None
    }
}

/// The token that a request carries in its `Authorization` header, if it
/// carries one.
pub fn bearer_token(header: Option<&str>) -> (r: Result<String, ApiError>)
    ensures
        match header {
            Some(h) => match bearer(h@) {
                Some(t) => r matches Ok(s) && s@ == t,
                None => r == Err::<String, ApiError>(ApiError::InvalidAuthorizationToken),
            },
            None => r == Err::<String, ApiError>(ApiError::InvalidAuthorizationToken),
        },
{
    match header {
        None => Err(ApiError::InvalidAuthorizationToken),
        Some(h) => {
            let chars = to_chars(h);
            let prefix = to_chars("Bearer ");
            if starts_with_chars(&chars, &prefix) {
                let rest = slice_chars(&chars, prefix.len(), chars.len());
                assert(rest@ =~= chars@.skip(prefix@.len() as int));
                let token = trim_chars(&rest);
                Ok(from_chars(&token))
            } else {
                Err(ApiError::InvalidAuthorizationToken)
            }
        },
    }
}

/// The second of the fields that commas part `s` into, without the white
/// space around it; none if `s` holds no comma.
pub open spec fn second_field(s: Seq<char>) -> Option<Seq<char>> {
    let p = first_pos(s, ',');
    if 0 <= p < s.len() {
        let rest = s.skip(p + 1);
        Some(trim(rest.take(first_pos(rest, ','))))
    } else {
        None
    }
}

/// The token that a WebSocket handshake carries: its
/// `sec-websocket-protocol` header names the protocol and then, after a
/// comma, the token.
pub fn extract_token_from_ws(header: Option<&str>) -> (r: Option<String>)
    ensures
        match header {
            Some(h) => match second_field(h@) {
                Some(t) => r matches Some(s) && s@ == t,
                None => r is None,
            },
            None => r is None,
        },
{
    match header {
        None => None,
        Some(h) => {
            let chars = to_chars(h);
            let p = find_char(&chars, ',', 0);
            assert(chars@.skip(0) =~= chars@);
            if p >= chars.len() {
                return None;
            }
            let q = find_char(&chars, ',', p + 1);
            let field = slice_chars(&chars, p + 1, q);
            proof {
                let rest = chars@.skip(p + 1);
                assert(rest.take(q - (p + 1)) =~= chars@.subrange(p + 1, q as int));
            }
            let token = trim_chars(&field);
            Some(from_chars(&token))
        },
    }
}

/// Believes a token or not, given what decoding it with the secret gave.
/// A token that could not be decoded is invalid; one that could is examined
/// at the second `now`, and comes back with its claims if they hold.
pub fn accept_token(token: String, decoded: Option<Claims>, now: u64) -> (r: Result<
    (String, Claims),
    ApiError,
>)
    ensures
        match decoded {
            None => r == Err::<(String, Claims), ApiError>(ApiError::InvalidAuthorizationToken),
            Some(c) => if claim_errors(c, now as int).len() == 0 {
                r == Ok::<(String, Claims), ApiError>((token, c))
            } else {
                r matches Err(ApiError::MultipleAuthorizationErrors(l)) && string_views(l@)
                    == claim_errors(c, now as int)
            },
        },
{
    match decoded {
        None => Err(ApiError::InvalidAuthorizationToken),
        Some(c) => match validate_claims_at(&c, now) {
            Ok(_) => Ok((token, c)),
            Err(e) => Err(e),
        },
    }
}

/// The secret that tokens are signed with, given what the environment
/// holds under `JWT_SECRET`; its absence is reported as a failure to
/// connect, with the environment's own words.
pub fn jwt_secret(variable: Result<String, String>) -> (r: Result<String, ApiError>)
    ensures
        r == (match variable {
            Ok(s) => Ok::<String, ApiError>(s),
            Err(e) => Err::<String, ApiError>(ApiError::DatabaseConnection(e)),
        }),
{
    match variable {
        Ok(s) => Ok(s),
        Err(e) => Err(ApiError::DatabaseConnection(e)),
    }
}

/// A token with an address holds from the second it is issued until just
/// before it expires, seven days later, and at no second from then on.
pub proof fn lemma_token_holds_for_seven_days(claims: Claims, issued: int, at: int)
    requires
        0 <= issued,
        claims.exp == issued + 7 * 24 * 3600,
        claims.email@.len() > 0,
        0 <= at,
    ensures
        claim_errors(claims, at).len() == 0 <==> at < issued + 7 * 24 * 3600,
{
}

} // verus!
