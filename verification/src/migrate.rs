//! Migration orchestration decisions: which reacting members form the vote
//! set, which of them can be relocated at all, and the aggregate result of
//! the per-member relocation attempts. The attempts themselves are remote
//! calls made outside this crate, one per member, best-effort and without
//! retries; this module computes on their reported outcomes.

use vstd::prelude::*;
use crate::codec::{push_all, render_room_mention, render_user_mention, room_mention, user_mention};
use crate::digits::{render_u64, spec_digits};
use crate::resolver::{current_room_in, VoicePresence};

verus! {

/// Outcome of one member's relocation attempt, as the platform reported it.
#[derive(Clone, Copy, Debug, PartialEq, Eq, Structural)]
pub struct MemberOutcome {
    /// The member that was to be relocated.
    pub member: u64,
    /// Whether the relocation succeeded.
    pub moved: bool,
}

/// Aggregate of one finalization's relocation attempts.
pub struct MigrationResult {
    /// The room everyone was moved towards.
    pub destination: u64,
    /// Members relocated successfully, in attempt order.
    pub moved: Vec<u64>,
    /// Members whose attempt failed; they are skipped silently, never
    /// retried, and omitted from the public summary.
    pub failed: Vec<u64>,
}

/// The vote set: the reacting users with the system's own identity left
/// out, in reaction order.
pub open spec fn votes_of(reactors: Seq<u64>, self_id: u64) -> Seq<u64>
    decreases reactors.len(),
{
    if reactors.len() == 0 {
        Seq::empty()
    } else if reactors.last() != self_id {
        votes_of(reactors.drop_last(), self_id) + seq![reactors.last()]
    } else {
        votes_of(reactors.drop_last(), self_id)
    }
}

/// Compute the vote set from the users who attached the marker reaction.
pub fn vote_set(reactors: &Vec<u64>, self_id: u64) -> (v: Vec<u64>)
    ensures
        v@ == votes_of(reactors@, self_id),
{
    let mut v: Vec<u64> = Vec::new();
    let mut i: usize = 0;
    proof {
        assert(reactors@.take(0) =~= Seq::<u64>::empty());
    }
    while i < reactors.len()
        invariant
            i <= reactors@.len(),
            v@ == votes_of(reactors@.take(i as int), self_id),
        decreases reactors@.len() - i,
    {
        proof {
            assert(reactors@.take(i + 1).drop_last() =~= reactors@.take(i as int));
            assert(reactors@.take(i + 1).last() == reactors@[i as int]);
        }
        if reactors[i] != self_id {
            v.push(reactors[i]);
        }
        i = i + 1;
    }
    proof {
        assert(reactors@.take(reactors@.len() as int) =~= reactors@);
    }
    v
}

/// The voters who presently occupy some voice room; only they can be
/// relocated.
pub open spec fn present_voters(voters: Seq<u64>, snapshot: Seq<VoicePresence>) -> Seq<u64>
    decreases voters.len(),
{
    if voters.len() == 0 {
        Seq::empty()
    } else if current_room_in(snapshot, voters.last()) is Some {
        present_voters(voters.drop_last(), snapshot) + seq![voters.last()]
    } else {
        present_voters(voters.drop_last(), snapshot)
    }
}

/// Keep the voters that the presence snapshot places in a room.
pub fn members_to_move(voters: &Vec<u64>, snapshot: &Vec<VoicePresence>) -> (v: Vec<u64>)
    ensures
        v@ == present_voters(voters@, snapshot@),
{
    let mut v: Vec<u64> = Vec::new();
    let mut i: usize = 0;
    proof {
        assert(voters@.take(0) =~= Seq::<u64>::empty());
    }
    while i < voters.len()
        invariant
            i <= voters@.len(),
            v@ == present_voters(voters@.take(i as int), snapshot@),
        decreases voters@.len() - i,
    {
        proof {
            assert(voters@.take(i + 1).drop_last() =~= voters@.take(i as int));
            assert(voters@.take(i + 1).last() == voters@[i as int]);
        }
        if crate::resolver::current_room_of(voters[i], snapshot).is_some() {
            v.push(voters[i]);
        }
        i = i + 1;
    }
    proof {
        assert(voters@.take(voters@.len() as int) =~= voters@);
    }
    v
}

/// The members whose attempt succeeded, in attempt order.
pub open spec fn moved_of(outcomes: Seq<MemberOutcome>) -> Seq<u64>
    decreases outcomes.len(),
{
    if outcomes.len() == 0 {
        Seq::empty()
    } else if outcomes.last().moved {
        moved_of(outcomes.drop_last()) + seq![outcomes.last().member]
    } else {
        moved_of(outcomes.drop_last())
    }
}

/// The members whose attempt failed, in attempt order.
pub open spec fn failed_of(outcomes: Seq<MemberOutcome>) -> Seq<u64>
    decreases outcomes.len(),
{
    if outcomes.len() == 0 {
        Seq::empty()
    } else if !outcomes.last().moved {
        failed_of(outcomes.drop_last()) + seq![outcomes.last().member]
    } else {
        failed_of(outcomes.drop_last())
    }
}

/// Partition the settled per-member outcomes into the aggregate result.
/// One failure never affects the others: each outcome lands in exactly one
/// list, independently of the rest.
pub fn collect_migration(destination: u64, outcomes: &Vec<MemberOutcome>) -> (r: MigrationResult)
    ensures
        r.destination == destination,
        r.moved@ == moved_of(outcomes@),
        r.failed@ == failed_of(outcomes@),
{
    let mut moved: Vec<u64> = Vec::new();
    let mut failed: Vec<u64> = Vec::new();
    let mut i: usize = 0;
    proof {
        assert(outcomes@.take(0) =~= Seq::<MemberOutcome>::empty());
    }
    while i < outcomes.len()
        invariant
            i <= outcomes@.len(),
            moved@ == moved_of(outcomes@.take(i as int)),
            failed@ == failed_of(outcomes@.take(i as int)),
        decreases outcomes@.len() - i,
    {
        proof {
            assert(outcomes@.take(i + 1).drop_last() =~= outcomes@.take(i as int));
            assert(outcomes@.take(i + 1).last() == outcomes@[i as int]);
        }
        if outcomes[i].moved {
            moved.push(outcomes[i].member);
        } else {
            failed.push(outcomes[i].member);
        }
        i = i + 1;
    }
    proof {
        assert(outcomes@.take(outcomes@.len() as int) =~= outcomes@);
    }
    MigrationResult { destination, moved, failed }
}

/// How many relocated members the summary reports: the relocated members
/// other than the requester, excluded by construction rather than by
/// subtraction, so an absent requester cannot drive the count negative.
pub open spec fn companion_count(moved: Seq<u64>, requester: u64) -> nat
    decreases moved.len(),
{
    if moved.len() == 0 {
        0
    } else if moved.last() != requester {
        companion_count(moved.drop_last(), requester) + 1
    } else {
        companion_count(moved.drop_last(), requester)
    }
}

/// Count the relocated members other than the requester.
pub fn count_companions(moved: &Vec<u64>, requester: u64) -> (n: usize)
    ensures
        n as nat == companion_count(moved@, requester),
        n <= moved@.len(),
{
    let mut n: usize = 0;
    let mut i: usize = 0;
    proof {
        assert(moved@.take(0) =~= Seq::<u64>::empty());
    }
    while i < moved.len()
        invariant
            i <= moved@.len(),
            n as nat == companion_count(moved@.take(i as int), requester),
            n <= i,
        decreases moved@.len() - i,
    {
        proof {
            assert(moved@.take(i + 1).drop_last() =~= moved@.take(i as int));
            assert(moved@.take(i + 1).last() == moved@[i as int]);
        }
        if moved[i] != requester {
            n = n + 1;
        }
        i = i + 1;
    }
    proof {
        assert(moved@.take(moved@.len() as int) =~= moved@);
    }
    n
}

/// The public summary posted after migration: the requester, the number of
/// companions relocated with them, and the destination. Failures are
/// omitted; only relocated members are named.
pub open spec fn summary_text(requester: u64, moved: Seq<u64>, destination: u64) -> Seq<char> {
    user_mention(requester as nat) + seq!['と', '一', '緒', 'に'] + spec_digits(
        companion_count(moved, requester),
    ) + seq!['人', 'の', 'メ', 'ン', 'バ', 'ー', 'を'] + room_mention(destination as nat) + seq![
        'へ',
        '移',
        '動',
        'し',
        'ま',
        'し',
        'た',
        '。',
    ]
}

/// Render the public summary line.
pub fn summary_message(requester: u64, moved: &Vec<u64>, destination: u64) -> (v: Vec<char>)
    ensures
        v@ == summary_text(requester, moved@, destination),
{
    let mut v = render_user_mention(requester);
    let with = vec!['と', '一', '緒', 'に'];
    push_all(&mut v, &with);
    let n = count_companions(moved, requester);
    let count = render_u64(n as u64);
    push_all(&mut v, &count);
    let members = vec!['人', 'の', 'メ', 'ン', 'バ', 'ー', 'を'];
    push_all(&mut v, &members);
    let dest = render_room_mention(destination);
    push_all(&mut v, &dest);
    let tail = vec!['へ', '移', '動', 'し', 'ま', 'し', 'た', '。'];
    push_all(&mut v, &tail);
    proof {
        assert(with@ =~= seq!['と', '一', '緒', 'に']);
        assert(members@ =~= seq!['人', 'の', 'メ', 'ン', 'バ', 'ー', 'を']);
        assert(tail@ =~= seq!['へ', '移', '動', 'し', 'ま', 'し', 'た', '。']);
        assert(v@ =~= summary_text(requester, moved@, destination));
    }
    v
}

/// The relocated members listed one mention per line, for the summary's
/// detail block.
pub open spec fn mention_lines(members: Seq<u64>) -> Seq<char>
    decreases members.len(),
{
    if members.len() == 0 {
        Seq::empty()
    } else if members.len() == 1 {
        user_mention(members[0] as nat)
    } else {
        mention_lines(members.drop_last()) + seq!['\n'] + user_mention(members.last() as nat)
    }
}

/// Render the relocated members, one mention per line.
pub fn render_mention_lines(members: &Vec<u64>) -> (v: Vec<char>)
    ensures
        v@ == mention_lines(members@),
{
    let mut v: Vec<char> = Vec::new();
    let mut i: usize = 0;
    proof {
        assert(members@.take(0) =~= Seq::<u64>::empty());
    }
    while i < members.len()
        invariant
            i <= members@.len(),
            v@ == mention_lines(members@.take(i as int)),
        decreases members@.len() - i,
    {
        proof {
            assert(members@.take(i + 1).drop_last() =~= members@.take(i as int));
            assert(members@.take(i + 1).last() == members@[i as int]);
            assert(members@.take(i + 1)[0] == members@[0]);
        }
        if i > 0 {
            v.push('\n');
        }
        let mention = render_user_mention(members[i]);
        push_all(&mut v, &mention);
        proof {
            if i == 0 {
                assert(v@ =~= mention_lines(members@.take(1)));
            } else {
                assert(v@ =~= mention_lines(members@.take(i + 1)));
            }
        }
        i = i + 1;
    }
    proof {
        assert(members@.take(members@.len() as int) =~= members@);
    }
    v
}

} // verus!
