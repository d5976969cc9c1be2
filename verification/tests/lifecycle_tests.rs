//! The poll lifecycle: the single-winner claim, the exactly-once deletion,
//! and the reaction filters.

use move_together::codec::{render_poll, Target, MARKER_GLYPH};
use move_together::lifecycle::{PollHandle, PollPhase};

fn chars(s: &str) -> Vec<char> {
    s.chars().collect()
}

const SELF_ID: u64 = 999;

fn open_poll_body(requester: u64) -> Vec<char> {
    render_poll(requester, &Target::ExistingRoom(42), 5)
}

#[test]
fn zero_timeout_expires_and_deletes_exactly_once() {
    // Timeout of zero and no reaction: the timer fires at once, the poll
    // retires, and the message is deleted exactly once.
    let mut handle = PollHandle::new(1000);
    assert_eq!(handle.phase, PollPhase::Open);
    assert!(handle.claim_expire());
    assert_eq!(handle.phase, PollPhase::Expiring);
    assert!(handle.mark_deleted());
    handle.retire();
    assert_eq!(handle.phase, PollPhase::Retired);
    // A second deletion attempt observes the message already gone and is
    // swallowed without raising.
    assert!(!handle.mark_deleted());
    assert_eq!(handle.phase, PollPhase::Retired);
}

#[test]
fn finalize_twice_is_a_no_op_the_second_time() {
    // Two finalize attempts racing on the same handle: the first performs
    // the migration path, the second observes the poll consumed.
    let mut handle = PollHandle::new(1001);
    assert!(handle.claim_finalize());
    assert_eq!(handle.phase, PollPhase::Finalizing);
    assert!(handle.timer_cancelled);
    assert!(handle.mark_deleted());
    handle.retire();
    assert_eq!(handle.phase, PollPhase::Retired);
    // The second invocation observes `Retired` and is a no-op.
    assert!(!handle.claim_finalize());
    assert_eq!(handle.phase, PollPhase::Retired);
    assert!(!handle.mark_deleted());
}

#[test]
fn expiry_after_finalize_loses_the_race() {
    let mut handle = PollHandle::new(1002);
    assert!(handle.claim_finalize());
    assert!(!handle.claim_expire());
    assert_eq!(handle.phase, PollPhase::Finalizing);
}

#[test]
fn requester_reaction_finalizes() {
    let body = open_poll_body(7);
    let mut handle = PollHandle::new(1003);
    let plan = handle.on_reaction(SELF_ID, MARKER_GLYPH, SELF_ID, 7, &body);
    let plan = plan.expect("the requester's marker reaction must finalize");
    assert_eq!(plan.requester, 7);
    match plan.target {
        Target::ExistingRoom(room) => assert_eq!(room, 42),
        Target::NewRoomNamed(_) => panic!("wrong target variant"),
    }
    assert_eq!(handle.phase, PollPhase::Finalizing);
    assert!(handle.timer_cancelled);
}

#[test]
fn non_requester_reaction_keeps_poll_open() {
    // A reaction from any user other than the parsed requester never
    // triggers finalize: the state remains `Open`.
    let body = open_poll_body(7);
    let mut handle = PollHandle::new(1004);
    assert!(handle.on_reaction(SELF_ID, MARKER_GLYPH, SELF_ID, 8, &body).is_none());
    assert_eq!(handle.phase, PollPhase::Open);
    assert!(!handle.timer_cancelled);
}

#[test]
fn foreign_author_reaction_keeps_poll_open() {
    // A reaction on a message authored by someone other than the system
    // identity never triggers finalize.
    let body = open_poll_body(7);
    let mut handle = PollHandle::new(1005);
    assert!(handle.on_reaction(SELF_ID, MARKER_GLYPH, 123, 7, &body).is_none());
    assert_eq!(handle.phase, PollPhase::Open);
}

#[test]
fn unparsed_body_keeps_poll_open() {
    // A message body that does not match the template skeleton triggers
    // neither finalize nor expire.
    let body = chars("ただの雑談メッセージです。");
    let mut handle = PollHandle::new(1006);
    assert!(handle.on_reaction(SELF_ID, MARKER_GLYPH, SELF_ID, 7, &body).is_none());
    assert_eq!(handle.phase, PollPhase::Open);
}

#[test]
fn wrong_glyph_keeps_poll_open() {
    let body = open_poll_body(7);
    let mut handle = PollHandle::new(1007);
    assert!(handle.on_reaction(SELF_ID, '👍', SELF_ID, 7, &body).is_none());
    assert_eq!(handle.phase, PollPhase::Open);
}
