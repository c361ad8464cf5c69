//! Redeeming join tickets: a ticket is used up by its first redemption.
use vstd::prelude::*;

use crate::state::{CoreState, Ticket};

verus! {

/// Why a ticket could not be redeemed.
#[derive(Clone, Copy, Debug, PartialEq, Eq, Structural)]
pub enum TicketError {
    InvalidToken,
    TokenExpired,
}

impl TicketError {
    /// The error's text.
    pub open spec fn spec_message(self) -> Seq<char> {
        match self {
            TicketError::InvalidToken => "invalid_token"@,
            TicketError::TokenExpired => "token_expired"@,
        }
    }

    /// Returns the error's text.
    pub fn message(&self) -> (s: String)
        ensures
            s@ == self.spec_message(),
    {
        match self {
            TicketError::InvalidToken => crate::text::owned("invalid_token"),
            TicketError::TokenExpired => crate::text::owned("token_expired"),
        }
    }
}

/// What redeeming `token` at `now_unix` answers, given the tickets before.
pub open spec fn redeem_outcome(
    tickets: Map<Seq<char>, Ticket>,
    token: Seq<char>,
    now_unix: u64,
    r: Result<(String, String, String), TicketError>,
) -> bool {
    if !tickets.contains_key(token) {
        r == Err::<(String, String, String), TicketError>(TicketError::InvalidToken)
    } else if tickets[token].expires_at_unix < now_unix {
        r == Err::<(String, String, String), TicketError>(TicketError::TokenExpired)
    } else {
        &&& r is Ok
        &&& r->Ok_0.0@ == tickets[token].match_id@
        &&& r->Ok_0.1@ == tickets[token].player_id@
        &&& r->Ok_0.2@ == tickets[token].display_name@
    }
}

/// Redeems `token` at `now_unix`: the ticket is removed whether or not it has expired, and
/// its match id, player id and display name come back when it has not.
pub fn consume_ticket_at(core: &mut CoreState, token: &String, now_unix: u64) -> (r: Result<
    (String, String, String),
    TicketError,
>)
    ensures
        final(core).matches@ == old(core).matches@,
        final(core).tickets@ == old(core).tickets@.remove(token@),
        redeem_outcome(old(core).tickets@, token@, now_unix, r),
{
    let t = match core.tickets.remove(token) {
        Some(t) => t,
        None => return Err(TicketError::InvalidToken),
    };
    if t.expires_at_unix < now_unix {
        return Err(TicketError::TokenExpired);
    }
    Ok((t.match_id, t.player_id, t.display_name))
}

/// Redeems `token` now; see `consume_ticket_at`.
pub fn consume_ticket(core: &mut CoreState, token: &String) -> (r: Result<
    (String, String, String),
    TicketError,
>)
    ensures
        final(core).matches@ == old(core).matches@,
        final(core).tickets@ == old(core).tickets@.remove(token@),
        exists|now_unix: u64| redeem_outcome(old(core).tickets@, token@, now_unix, r),
{
    let now = crate::clock::now_unix();
    consume_ticket_at(core, token, now)
}

/// A ticket is single-use: once redeemed, redeeming the same token again is refused as
/// invalid, whatever the first outcome was.
pub proof fn lemma_ticket_single_use(
    tickets: Map<Seq<char>, Ticket>,
    token: Seq<char>,
    now_unix: u64,
    r: Result<(String, String, String), TicketError>,
)
    ensures
        redeem_outcome(tickets.remove(token), token, now_unix, r) <==> r == Err::<
            (String, String, String),
            TicketError,
        >(TicketError::InvalidToken),
{
}

} // verus!
