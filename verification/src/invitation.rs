//! Invitations to a team: how one is made, and when one is still good.

use vstd::prelude::*;
use vstd::string::*;
use crate::clock::{now, Timestamp, MAX_CLOCK_SECS, WEEK_SECS};
use crate::error::ApiError;
use crate::ids::Id;
use crate::team::NewTeamMember;

verus! {

/// The length of the token of an invitation.
pub const INVITE_TOKEN_LEN: usize = 32;

/// What a member sends to invite someone.
#[derive(Debug, Clone, PartialEq, Eq)]
pub struct InviteRequest {
    pub email: String,
    pub role_id: Id,
}

/// What the invited sends to accept.
#[derive(Debug, Clone, PartialEq, Eq)]
pub struct AcceptInviteRequest {
    pub token: String,
}

/// An invitation as stored.
#[derive(Debug, Clone, PartialEq, Eq)]
pub struct TeamInvitation {
    pub id: Id,
    pub team_id: Id,
    pub role_id: Id,
    pub email: String,
    pub token: String,
    pub expires_at: Timestamp,
    pub created_at: Timestamp,
}

/// What is stored to make an invitation.
#[derive(Debug, Clone, PartialEq, Eq)]
pub struct NewTeamInvitation {
    pub team_id: Id,
    pub role_id: Id,
    pub email: String,
    pub token: String,
    pub expires_at: Timestamp,
}

/// `c` is one of the letters `a` to `z` and `A` to `Z` and the digits `0`
/// to `9`.
pub open spec fn is_token_char(c: char) -> bool {
    let n = c as u32;
    (0x30 <= n <= 0x39) || (0x41 <= n <= 0x5a) || (0x61 <= n <= 0x7a)
}

/// `s` is a token: it has the length of one and holds only letters and
/// digits.
pub open spec fn is_token(s: Seq<char>) -> bool {
    s.len() == INVITE_TOKEN_LEN && forall|i: int| 0 <= i < s.len() ==> is_token_char(#[trigger] s[i])
}

/// Draws `len` characters with `rand::distributions::Alphanumeric` from
/// `rand::thread_rng`, through `DistString::sample_string`. Each is a letter
/// or a digit; which ones come is left to chance.
#[verifier::external_body]
fn random_alphanumeric(len: usize) -> (s: String)
    ensures
        s@.len() == len,
        forall|i: int| 0 <= i < s@.len() ==> is_token_char(#[trigger] s@[i]),
{
    rand::distributions::DistString::sample_string(
        &rand::distributions::Alphanumeric,
        &mut rand::thread_rng(),
        len,
    )
}

/// The invitation of `request` to the team `team_id`, made at `now` with
/// the token `token`: it is good for seven days.
pub fn invitation_at(team_id: Id, request: &InviteRequest, token: String, now: Timestamp) -> (r:
    NewTeamInvitation)
    requires
        now.secs + WEEK_SECS <= MAX_CLOCK_SECS,
    ensures
        r.team_id == team_id,
        r.role_id == request.role_id,
        r.email == request.email,
        r.token == token,
        r.expires_at.secs == now.secs + 7 * 24 * 3600,
        r.expires_at.nanos == now.nanos,
{
    NewTeamInvitation {
        team_id,
        role_id: request.role_id,
        email: request.email.clone(),
        token,
        expires_at: now.plus_seconds(WEEK_SECS),
    }
}

/// Whether `r` is what inviting `request` to the team `team_id` at `now`
/// with the token `token` comes to: the invitation, good for seven days, or
/// nothing where seven days after `now` is later than the clock can tell.
pub open spec fn invited(
    team_id: Id,
    request: InviteRequest,
    token: Seq<char>,
    now: Timestamp,
    r: Option<NewTeamInvitation>,
) -> bool {
    if now.secs + WEEK_SECS > MAX_CLOCK_SECS {
        r is None
    } else {
        r matches Some(inv) && inv.team_id == team_id && inv.role_id == request.role_id
            && inv.email == request.email && inv.token@ == token && inv.expires_at.secs
            == now.secs + 7 * 24 * 3600 && inv.expires_at.nanos == now.nanos
    }
}

/// Invites `request` to the team `team_id` at `now` with the token
/// `token`: the invitation is good for seven days. None is made where seven
/// days after `now` is later than the clock can tell.
pub fn invitation_with(team_id: Id, request: &InviteRequest, token: String, now: Timestamp) -> (r:
    Option<NewTeamInvitation>)
    ensures
        invited(team_id, *request, token@, now, r),
{
    if now.secs > MAX_CLOCK_SECS - WEEK_SECS {
        None
    } else {
        Some(invitation_at(team_id, request, token, now))
    }
}

/// The invitation of `request` to the team `team_id`, made now with a
/// token drawn at random: what [`invitation_with`] gives for the time that
/// the clock reports and a token of thirty-two letters and digits. So none
/// is made in the last seven days that the clock can tell, and at any other
/// time one is.
pub fn new_invitation(team_id: Id, request: &InviteRequest) -> (r: Option<NewTeamInvitation>)
    ensures
        exists|now: Timestamp, token: Seq<char>|
            0 <= now.secs <= MAX_CLOCK_SECS && now.nanos < 1_000_000_000 && is_token(token)
                && #[trigger] invited(team_id, *request, token, now, r),
        r matches Some(inv) ==> inv.team_id == team_id && inv.role_id == request.role_id
            && inv.email == request.email && is_token(inv.token@) && WEEK_SECS
            <= inv.expires_at.secs <= MAX_CLOCK_SECS,
{
    let t = now();
    let token = random_alphanumeric(INVITE_TOKEN_LEN);
    let ghost drawn = token@;
    let r = invitation_with(team_id, request, token, t);
    assert(invited(team_id, *request, drawn, t, r));
    r
}

/// The link that the invited follows.
pub fn magic_link(frontend_url: &str, token: &str) -> (r: String)
    ensures
        r@ == frontend_url@ + "/invite?token="@ + token@,
{
    let mut r = String::from_str(frontend_url);
    r.append("/invite?token=");
    r.append(token);
    r
}

/// What taking an invitation out of storage by its token came to: the
/// invitation, if one carried the token; the answer that it is not there, if
/// none did; or the failure of the database, with the database's words.
pub fn consumed(found: Result<Option<TeamInvitation>, String>) -> (r: Result<
    TeamInvitation,
    ApiError,
>)
    ensures
        r == (match found {
            Ok(Some(inv)) => Ok::<TeamInvitation, ApiError>(inv),
            Ok(None) => Err::<TeamInvitation, ApiError>(ApiError::NotFound),
            Err(e) => Err::<TeamInvitation, ApiError>(ApiError::Database(e)),
        }),
{
    match found {
        Ok(Some(inv)) => Ok(inv),
        Ok(None) => Err(ApiError::NotFound),
        Err(e) => Err(ApiError::Database(e)),
    }
}

/// Accepts an invitation for the user `user_id` at `now`: the user joins
/// the team under the role of the invitation, unless `now` is later than
/// the time at which the invitation expires.
pub fn accept_invitation(invitation: &TeamInvitation, user_id: Id, now: Timestamp) -> (r: Result<
    NewTeamMember,
    ApiError,
>)
    ensures
        r == (if now.later_than(invitation.expires_at) {
            Err::<NewTeamMember, ApiError>(ApiError::InvalidData)
        } else {
            Ok::<NewTeamMember, ApiError>(
                NewTeamMember {
                    team_id: invitation.team_id,
                    user_id,
                    role_id: invitation.role_id,
                },
            )
        }),
{
    if now.is_after(&invitation.expires_at) {
        Err(ApiError::InvalidData)
    } else {
        Ok(NewTeamMember { team_id: invitation.team_id, user_id, role_id: invitation.role_id })
    }
}

/// An invitation made at `made` is accepted at every time up to seven
/// days later, that time included, and refused at every time after it.
pub proof fn lemma_invitation_lasts_seven_days(
    invitation: TeamInvitation,
    made: Timestamp,
    at: Timestamp,
)
    requires
        invitation.expires_at.secs == made.secs + 7 * 24 * 3600,
        invitation.expires_at.nanos == made.nanos,
    ensures
        at.later_than(invitation.expires_at) <==> (at.secs - made.secs > 7 * 24 * 3600 || (at.secs
            - made.secs == 7 * 24 * 3600 && at.nanos > made.nanos)),
{
}

/// The invitations among `invitations` that do not carry `token`, in the
/// same order.
pub open spec fn without_token(invitations: Seq<TeamInvitation>, token: Seq<char>) -> Seq<
    TeamInvitation,
>
    decreases invitations.len(),
{
    if invitations.len() == 0 {
        Seq::empty()
    } else if invitations[0].token@ == token {
        without_token(invitations.drop_first(), token)
    } else {
        seq![invitations[0]] + without_token(invitations.drop_first(), token)
    }
}

/// The first of `invitations` that carries `token`.
pub open spec fn first_with_token(invitations: Seq<TeamInvitation>, token: Seq<char>) -> Option<
    TeamInvitation,
>
    decreases invitations.len(),
{
    if invitations.len() == 0 {
        None
    } else if invitations[0].token@ == token {
        Some(invitations[0])
    } else {
        first_with_token(invitations.drop_first(), token)
    }
}

/// What taking an invitation out of storage by its token comes to: the
/// invitation found, if one carries the token, and what storage holds
/// afterwards, which is every invitation that does not carry it.
pub open spec fn taken_out(invitations: Seq<TeamInvitation>, token: Seq<char>) -> (
    Option<TeamInvitation>,
    Seq<TeamInvitation>,
) {
    (first_with_token(invitations, token), without_token(invitations, token))
}

/// What someone who asks for the token `token` is answered, storage
/// holding `invitations`: what [`consumed`] makes of what was taken out.
pub open spec fn answer_of(invitations: Seq<TeamInvitation>, token: Seq<char>) -> Result<
    TeamInvitation,
    ApiError,
> {
    match taken_out(invitations, token).0 {
        Some(inv) => Ok(inv),
        None => Err(ApiError::NotFound),
    }
}

/// An invitation is taken out once: whoever asks for the same token again
/// finds nothing and is answered that it is not there, and storage is left
/// as the first taking left it.
pub proof fn lemma_invitation_is_taken_once(invitations: Seq<TeamInvitation>, token: Seq<char>)
    ensures
        taken_out(taken_out(invitations, token).1, token) == (
            None::<TeamInvitation>,
            taken_out(invitations, token).1,
        ),
        answer_of(taken_out(invitations, token).1, token) == Err::<TeamInvitation, ApiError>(
            ApiError::NotFound,
        ),
    decreases invitations.len(),
{
    if invitations.len() > 0 {
        let rest = invitations.drop_first();
        lemma_invitation_is_taken_once(rest, token);
        if invitations[0].token@ != token {
            let kept = seq![invitations[0]] + without_token(rest, token);
            assert(kept.drop_first() =~= without_token(rest, token));
        }
    }
}

} // verus!
