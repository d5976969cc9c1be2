//! Room resolver: finding a member's current room in a presence snapshot,
//! and the rules that legitimize a destination room. The snapshot is a
//! read-only view fetched fresh from the platform; this module only decides
//! on the values it is handed.

use vstd::prelude::*;
use crate::config::DiscordConfig;

verus! {

/// One row of a room-membership snapshot: a member and the room they are
/// presently in.
#[derive(Clone, Copy, Debug, PartialEq, Eq, Structural)]
pub struct VoicePresence {
    /// The member.
    pub user: u64,
    /// The room the member currently occupies.
    pub room: u64,
}

/// Why a destination could not be legitimized.
#[derive(Clone, Copy, Debug, PartialEq, Eq, Structural)]
pub enum ResolveError {
    /// The target is a direct-message or otherwise non-group context.
    NotAGroupRoom,
    /// The requester may not connect to the target room.
    NoConnectCapability,
    /// The claimed room is ignored by policy or outside the allowed parent
    /// category.
    PolicyViolation,
}

/// The room of `member` in the snapshot: the first row naming the member,
/// or `None` when the member is in no room.
pub open spec fn current_room_in(snapshot: Seq<VoicePresence>, member: u64) -> Option<u64>
    decreases snapshot.len(),
{
    if snapshot.len() == 0 {
        None
    } else if snapshot[0].user == member {
        Some(snapshot[0].room)
    } else {
        current_room_in(snapshot.drop_first(), member)
    }
}

/// Find the room `member` currently occupies, if any.
pub fn current_room_of(member: u64, snapshot: &Vec<VoicePresence>) -> (r: Option<u64>)
    ensures
        r == current_room_in(snapshot@, member),
{
    let mut i: usize = 0;
    proof {
        assert(snapshot@.skip(0) =~= snapshot@);
    }
    while i < snapshot.len()
        invariant
            i <= snapshot@.len(),
            current_room_in(snapshot@, member) == current_room_in(
                snapshot@.skip(i as int),
                member,
            ),
        decreases snapshot@.len() - i,
    {
        proof {
            assert(snapshot@.skip(i as int)[0] == snapshot@[i as int]);
            assert(snapshot@.skip(i as int).drop_first() =~= snapshot@.skip(i + 1));
        }
        if snapshot[i].user == member {
            return Some(snapshot[i].room);
        }
        i = i + 1;
    }
    proof {
        assert(snapshot@.skip(snapshot@.len() as int).len() == 0);
    }
    None
}

/// Rules for an `ExistingRoom` target: it must be a group room, and the
/// requester must hold connect-capability on it.
pub fn check_existing_target(is_group_room: bool, has_connect: bool) -> (r: Result<
    (),
    ResolveError,
>)
    ensures
        r is Ok <==> is_group_room && has_connect,
        !is_group_room ==> r == Err::<(), ResolveError>(ResolveError::NotAGroupRoom),
        is_group_room && !has_connect ==> r == Err::<(), ResolveError>(
            ResolveError::NoConnectCapability,
        ),
{
    if !is_group_room {
        Err(ResolveError::NotAGroupRoom)
    } else if !has_connect {
        Err(ResolveError::NoConnectCapability)
    } else {
        Ok(())
    }
}

/// Policy on the room the requester landed in after the staging claim
/// settled: it must not be on the ignore list, and it must live under the
/// configured parent category. Only then may it be adopted and renamed.
pub fn check_claimed_room(room: u64, parent: Option<u64>, config: &DiscordConfig) -> (r: Result<
    (),
    ResolveError,
>)
    ensures
        r is Ok <==> !config.vc_ignored_channels@.contains(room) && parent == Some(
            config.vc_category,
        ),
        r is Err ==> r == Err::<(), ResolveError>(ResolveError::PolicyViolation),
{
    let mut i: usize = 0;
    while i < config.vc_ignored_channels.len()
        invariant
            i <= config.vc_ignored_channels@.len(),
            forall|j: int| 0 <= j < i ==> config.vc_ignored_channels@[j] != room,
        decreases config.vc_ignored_channels@.len() - i,
    {
        if config.vc_ignored_channels[i] == room {
            return Err(ResolveError::PolicyViolation);
        }
        i = i + 1;
    }
    match parent {
        Some(p) => {
            if p == config.vc_category {
                Ok(())
            } else {
                Err(ResolveError::PolicyViolation)
            }
        },
        None => Err(ResolveError::PolicyViolation),
    }
}

} // verus!
