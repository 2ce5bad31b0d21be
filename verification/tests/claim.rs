use comms::claim::{
    claim_session, heartbeat_is_live, keeps_renewing, release_session_claim, renew_session_claim,
    Claim,
};

const WINDOW: i64 = 15;

fn held(owner: &str, stamp: i64) -> Option<Claim> {
    Some(Claim {
        owner: owner.to_string(),
        stamp,
    })
}

#[test]
fn a_held_session_is_not_taken() {
    let (claim, taken) = claim_session(None, "a".to_string(), 100, WINDOW);
    assert!(taken);
    assert_eq!(claim, held("a", 100));
    let (claim, taken) = claim_session(claim, "b".to_string(), 115, WINDOW);
    assert!(!taken);
    assert_eq!(claim, held("a", 100));
}

#[test]
fn an_abandoned_session_can_be_taken() {
    let (claim, taken) = claim_session(held("a", 100), "b".to_string(), 116, WINDOW);
    assert!(taken);
    assert_eq!(claim, held("b", 116));
    // The first owner comes back too late: nothing of theirs is left to touch.
    let (claim, renewed) = renew_session_claim(claim, "a", 117);
    assert!(!renewed);
    assert_eq!(claim, held("b", 116));
    assert_eq!(release_session_claim(claim.clone(), "a"), held("b", 116));
    assert_eq!(release_session_claim(claim, "b"), None);
}

#[test]
fn renewing_moves_the_stamp() {
    let (claim, renewed) = renew_session_claim(held("a", 100), "a", 110);
    assert!(renewed);
    assert_eq!(claim, held("a", 110));
    assert_eq!(renew_session_claim(None, "a", 1), (None, false));
    assert_eq!(release_session_claim(None, "a"), None);
}

#[test]
fn stamps_go_stale() {
    assert!(heartbeat_is_live(Some(100), 115, WINDOW));
    assert!(!heartbeat_is_live(Some(100), 116, WINDOW));
    assert!(!heartbeat_is_live(None, 0, WINDOW));
    assert!(!heartbeat_is_live(Some(i64::MIN), i64::MAX, WINDOW));
    assert!(heartbeat_is_live(Some(i64::MAX), i64::MIN, WINDOW));
}

#[test]
fn only_a_lost_claim_ends_the_renewing() {
    assert!(keeps_renewing(&Ok(true)));
    assert!(!keeps_renewing(&Ok(false)));
    assert!(keeps_renewing(&Err("locked".to_string())));
}
