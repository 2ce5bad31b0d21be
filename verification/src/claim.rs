//! Claims on sessions: which process runs one. A claim carries the moment it
//! was last renewed, and one that is not renewed for a while is abandoned.

use vstd::prelude::*;
use vstd::string::*;

use crate::text::same;

verus! {

/// A claim on a session.
#[derive(Debug, Clone, PartialEq, Eq)]
pub struct Claim {
    /// Drawn at random for each claim, so that no two are confused.
    pub owner: String,
    /// When it was last renewed.
    pub stamp: i64,
}

/// Whether a stamp is fresh, so that somebody is there.
pub open spec fn is_fresh(stamp: Option<i64>, now: i64, window: i64) -> bool {
    match stamp {
        Some(s) => now - s <= window,
        None => false,
    }
}

/// Whether a stamp is fresh. One that stopped says that nobody is there.
pub fn heartbeat_is_live(stamp: Option<i64>, now: i64, window: i64) -> (r: bool)
    ensures
        r == is_fresh(stamp, now, window),
{
    match stamp {
        Some(s) => now as i128 - s as i128 <= window as i128,
        None => false,
    }
}

/// Whether a session is held: by a claim that is still renewed.
pub open spec fn is_held(claim: Option<Claim>, now: i64, window: i64) -> bool {
    match claim {
        Some(c) => is_fresh(Some(c.stamp), now, window),
        None => false,
    }
}

/// Whether a claim is an owner's.
pub open spec fn is_own(claim: Option<Claim>, owner: Seq<char>) -> bool {
    claim matches Some(c) && c.owner@ == owner
}

/// Takes a session for an owner, and says whether it could be: not while
/// another claim is held.
pub fn claim_session(current: Option<Claim>, owner: String, now: i64, window: i64) -> (r: (
    Option<Claim>,
    bool,
))
    ensures
        r.1 == !is_held(current, now, window),
        r.0 == if is_held(current, now, window) {
            current
        } else {
            Some(Claim { owner, stamp: now })
        },
{
    let held: bool = match &current {
        Some(c) => heartbeat_is_live(Some(c.stamp), now, window),
        None => false,
    };
    if held {
        (current, false)
    } else {
        (Some(Claim { owner, stamp: now }), true)
    }
}

/// Renews an owner's claim, and says whether it still is theirs: where the
/// session has been taken by another, nothing is touched.
pub fn renew_session_claim(current: Option<Claim>, owner: &str, now: i64) -> (r: (
    Option<Claim>,
    bool,
))
    ensures
        r.1 == is_own(current, owner@),
        r.0 == if is_own(current, owner@) {
            Some(Claim { stamp: now, ..current->0 })
        } else {
            current
        },
{
    match current {
        Some(c) => {
            if same(&c.owner, owner) {
                (Some(Claim { owner: c.owner, stamp: now }), true)
            } else {
                (Some(c), false)
            }
        },
        None => (None, false),
    }
}

/// Gives an owner's claim up; another's stays.
pub fn release_session_claim(current: Option<Claim>, owner: &str) -> (r: Option<Claim>)
    ensures
        r == if is_own(current, owner@) {
            None
        } else {
            current
        },
{
    match current {
        Some(c) => {
            if same(&c.owner, owner) {
                None
            } else {
                Some(c)
            }
        },
        None => None,
    }
}

/// Whether renewing goes on: until it turns out that the claim is lost. That
/// it could not be written proves nothing.
pub fn keeps_renewing(renewed: &Result<bool, String>) -> (r: bool)
    ensures
        r == (*renewed != Ok::<bool, String>(false)),
{
    match renewed {
        Ok(own) => *own,
        Err(_) => true,
    }
}

/// A claim that was just taken or renewed is held, and stays so for the whole
/// window.
pub proof fn a_renewed_claim_is_held(claim: Claim, now: i64, window: i64)
    requires
        claim.stamp <= now,
        now - claim.stamp <= window,
    ensures
        is_held(Some(claim), now, window),
{
}

/// A claim that is not renewed lapses: behind the window it is not held, and
/// the session can be taken.
pub proof fn an_abandoned_claim_lapses(claim: Claim, now: i64, window: i64)
    requires
        now - claim.stamp > window,
    ensures
        !is_held(Some(claim), now, window),
{
}

/// A claim is its owner's and nobody else's, and what was never stamped is not
/// fresh.
pub proof fn a_claim_is_its_owners(claim: Claim, owner: Seq<char>, now: i64, window: i64)
    ensures
        is_own(Some(claim), owner) <==> claim.owner@ == owner,
        !is_own(None, owner),
        !is_held(None, now, window),
        !is_fresh(None, now, window),
        is_fresh(Some(claim.stamp), now, window) <==> now - claim.stamp <= window,
        is_held(Some(claim), now, window) <==> is_fresh(Some(claim.stamp), now, window),
{
}

} // verus!
