//! Poll lifecycle: the one-shot state machine that a timeout and a
//! finalizing reaction race to consume.

use vstd::prelude::*;
use crate::codec::{parse_poll, parse_poll_text, ParsedPoll, MARKER_GLYPH};

verus! {

/// Phase of a single poll. `Retired` is terminal: no transition leaves it.
#[derive(Clone, Copy, Debug, PartialEq, Eq, Structural)]
pub enum PollPhase {
    /// Posted; the timer runs and a finalizing reaction is awaited.
    Open,
    /// A reaction won the race; migration is in progress.
    Finalizing,
    /// The timer won the race; no migration occurs.
    Expiring,
    /// Message deleted (or deletion attempted); the handle is spent.
    Retired,
}

/// Process-local handle of one live poll, owned by the lifecycle sequence
/// that created it. Both triggers (timer, reaction) funnel into it; the
/// claim methods make the transition out of `Open` single-winner.
pub struct PollHandle {
    /// Identity of the posted poll message.
    pub message_id: u64,
    /// Current phase of the state machine.
    pub phase: PollPhase,
    /// Whether the pending timeout timer has been asked to stop.
    pub timer_cancelled: bool,
    /// Whether the poll message has already been deleted.
    pub message_deleted: bool,
}

/// One claim attempt on the transition out of `Open`: the first attempt
/// wins and moves to `claimed`; any later attempt loses and changes nothing.
pub open spec fn claim_step(p: PollPhase, claimed: PollPhase) -> (PollPhase, bool) {
    if p is Open {
        (claimed, true)
    } else {
        (p, false)
    }
}

impl PollHandle {
    /// A fresh handle for a just-posted poll message.
    pub fn new(message_id: u64) -> (h: Self)
        ensures
            h.message_id == message_id,
            h.phase is Open,
            !h.timer_cancelled,
            !h.message_deleted,
    {
        PollHandle { message_id, phase: PollPhase::Open, timer_cancelled: false, message_deleted: false }
    }

    /// The reaction trigger's claim: move `Open -> Finalizing` and cancel
    /// the timer, or observe that the poll is already consumed and no-op.
    pub fn claim_finalize(&mut self) -> (won: bool)
        ensures
            (final (self).phase, won) == claim_step(old(self).phase, PollPhase::Finalizing),
            won ==> final (self).timer_cancelled,
            !won ==> *final (self) == *old(self),
            final (self).message_id == old(self).message_id,
            final (self).message_deleted == old(self).message_deleted,
    {
        match self.phase {
            PollPhase::Open => {
                self.phase = PollPhase::Finalizing;
                self.timer_cancelled = true;
                true
            }
            _ => false,
        }
    }

    /// The timer trigger's claim: move `Open -> Expiring`, or observe that
    /// the poll is already consumed and no-op.
    pub fn claim_expire(&mut self) -> (won: bool)
        ensures
            (final (self).phase, won) == claim_step(old(self).phase, PollPhase::Expiring),
            !won ==> *final (self) == *old(self),
            final (self).message_id == old(self).message_id,
            final (self).timer_cancelled == old(self).timer_cancelled,
            final (self).message_deleted == old(self).message_deleted,
    {
        match self.phase {
            PollPhase::Open => {
                self.phase = PollPhase::Expiring;
                true
            }
            _ => false,
        }
    }

    /// Record a deletion attempt on the poll message. Returns whether this
    /// attempt is the one that deletes it; a later attempt observes the
    /// message already gone, which is benign and must be swallowed.
    pub fn mark_deleted(&mut self) -> (first: bool)
        ensures
            first == !old(self).message_deleted,
            final (self).message_deleted,
            final (self).phase == old(self).phase,
            final (self).message_id == old(self).message_id,
            final (self).timer_cancelled == old(self).timer_cancelled,
    {
        let first = !self.message_deleted;
        self.message_deleted = true;
        first
    }

    /// Terminal transition: the consuming trigger has finished its work
    /// (migration done or expiry observed) and the message deletion has
    /// been attempted.
    pub fn retire(&mut self)
        requires
            old(self).phase is Finalizing || old(self).phase is Expiring,
        ensures
            final (self).phase is Retired,
            final (self).message_id == old(self).message_id,
            final (self).timer_cancelled == old(self).timer_cancelled,
            final (self).message_deleted == old(self).message_deleted,
    {
        self.phase = PollPhase::Retired;
    }

    /// The reaction trigger: apply the filters and, only if all hold and
    /// this handle is still open, claim the finalizing transition and hand
    /// back the parsed state to migrate on. Every other reaction leaves the
    /// handle untouched.
    pub fn on_reaction(
        &mut self,
        self_id: u64,
        glyph: char,
        message_author: u64,
        reactor: u64,
        body: &Vec<char>,
    ) -> (plan: Option<ParsedPoll>)
        ensures
            (final (self).phase, plan is Some) == reaction_step(
                old(self).phase,
                glyph,
                message_author,
                self_id,
                reactor,
                body@,
            ),
            plan matches Some(p) ==> parse_poll_text(body@) == Some(
                (p.requester as nat, p.target@),
            ) && p.requester == reactor && final (self).timer_cancelled,
            plan is None ==> *final (self) == *old(self),
            final (self).message_id == old(self).message_id,
            final (self).message_deleted == old(self).message_deleted,
    {
        match screen_reaction(self_id, glyph, message_author, reactor, body) {
            None => None,
            Some(p) => {
                if self.claim_finalize() {
                    Some(p)
                } else {
                    None
                }
            },
        }
    }
}

/// The four filters a reaction must pass before it may finalize a poll:
/// it is the marker glyph, the reacted-on message was authored by the
/// system's own identity, the message body still parses as poll state, and
/// the reactor is the requester that the parsed state names.
pub open spec fn reaction_accepts(
    glyph: char,
    message_author: u64,
    self_id: u64,
    reactor: u64,
    body: Seq<char>,
) -> bool {
    &&& glyph == MARKER_GLYPH
    &&& message_author == self_id
    &&& parse_poll_text(body) is Some
    &&& reactor as nat == parse_poll_text(body).unwrap().0
}

/// What a reaction does to the poll phase: only an accepted reaction on an
/// open poll finalizes; every other reaction is a no-op.
pub open spec fn reaction_step(
    p: PollPhase,
    glyph: char,
    message_author: u64,
    self_id: u64,
    reactor: u64,
    body: Seq<char>,
) -> (PollPhase, bool) {
    if p is Open && reaction_accepts(glyph, message_author, self_id, reactor, body) {
        (PollPhase::Finalizing, true)
    } else {
        (p, false)
    }
}

/// Apply the reaction filters alone, with no handle at hand: the parsed
/// state comes back exactly when the reaction may finalize the poll.
pub fn screen_reaction(
    self_id: u64,
    glyph: char,
    message_author: u64,
    reactor: u64,
    body: &Vec<char>,
) -> (plan: Option<ParsedPoll>)
    ensures
        plan is Some <==> reaction_accepts(glyph, message_author, self_id, reactor, body@),
        plan matches Some(p) ==> parse_poll_text(body@) == Some(
            (p.requester as nat, p.target@),
        ) && p.requester == reactor,
{
    if glyph != MARKER_GLYPH {
        return None;
    }
    if message_author != self_id {
        return None;
    }
    match parse_poll(body) {
        Err(_) => None,
        Ok(p) => {
            if p.requester == reactor {
                Some(p)
            } else {
                None
            }
        },
    }
}

/// A message body that does not parse as poll state never triggers a
/// transition: whatever the phase, a reaction carrying it is a no-op.
pub proof fn lemma_unparsed_body_ignored(
    p: PollPhase,
    glyph: char,
    message_author: u64,
    self_id: u64,
    reactor: u64,
    body: Seq<char>,
)
    requires
        parse_poll_text(body) is None,
    ensures
        reaction_step(p, glyph, message_author, self_id, reactor, body) == (p, false),
{
}

/// A reaction from any user other than the parsed requester never triggers
/// finalize: the phase stays what it was, so an open poll remains `Open`.
pub proof fn lemma_non_requester_ignored(
    p: PollPhase,
    glyph: char,
    message_author: u64,
    self_id: u64,
    reactor: u64,
    body: Seq<char>,
)
    requires
        parse_poll_text(body) is Some,
        reactor as nat != parse_poll_text(body).unwrap().0,
    ensures
        reaction_step(p, glyph, message_author, self_id, reactor, body) == (p, false),
{
}

/// A reaction on a message authored by someone other than the system's own
/// identity never triggers finalize, whatever the body says.
pub proof fn lemma_foreign_author_ignored(
    p: PollPhase,
    glyph: char,
    message_author: u64,
    self_id: u64,
    reactor: u64,
    body: Seq<char>,
)
    requires
        message_author != self_id,
    ensures
        reaction_step(p, glyph, message_author, self_id, reactor, body) == (p, false),
{
}

/// The claim out of `Open` has a single winner: of two successive claim
/// attempts on the same handle, the second never wins, and it leaves the
/// phase exactly where the first left it.
pub proof fn lemma_claim_single_winner(p: PollPhase, c1: PollPhase, c2: PollPhase)
    requires
        !(c1 is Open),
    ensures
        ({
            let (p1, won1) = claim_step(p, c1);
            let (p2, won2) = claim_step(p1, c2);
            &&& !(won1 && won2)
            &&& won1 ==> !won2 && p2 == p1
        }),
{
}

/// `Retired` is terminal: neither a claim attempt nor any reaction moves a
/// retired poll anywhere.
pub proof fn lemma_retired_is_terminal(
    claimed: PollPhase,
    glyph: char,
    message_author: u64,
    self_id: u64,
    reactor: u64,
    body: Seq<char>,
)
    ensures
        claim_step(PollPhase::Retired, claimed) == (PollPhase::Retired, false),
        reaction_step(PollPhase::Retired, glyph, message_author, self_id, reactor, body) == (
            PollPhase::Retired,
            false,
        ),
{
}

/// Deletion happens exactly once: after a first deletion attempt, every
/// later attempt reports the message already gone and deletes nothing.
pub open spec fn delete_step(deleted: bool) -> (bool, bool) {
    (true, !deleted)
}

/// Of two successive deletion attempts, only the first can be the deleting
/// one; the second always observes the message missing.
pub proof fn lemma_delete_at_most_once(deleted: bool)
    ensures
        ({
            let (d1, first1) = delete_step(deleted);
            let (d2, first2) = delete_step(d1);
            &&& !(first1 && first2)
            &&& !first2
        }),
{
}

} // verus!
