//! Command dispatch decisions: recognizing which registered command was
//! invoked, turning its option value into a target description, validating
//! the request, and rendering the texts the dispatcher posts.

use vstd::prelude::*;
use crate::codec::{
    copy_range, parse_poll_text, push_all, render_poll, render_poll_text, render_room_mention,
    render_target, render_target_text, render_user_mention, room_mention, user_mention,
    valid_target, Target, TargetModel,
};
use crate::digits::{all_digits, digits_val, is_digit, parse_digits};
use crate::resolver::VoicePresence;

verus! {

/// Identities of the two registered platform commands. They are handed in
/// once bootstrap finishes; before that no command can be classified.
#[derive(Clone, Copy, Debug, PartialEq, Eq, Structural)]
pub struct CommandIds {
    /// The command that claims a fresh room under a new name.
    pub move_command: u64,
    /// The command that targets an already existing room.
    pub move_to_command: u64,
}

/// Which of the two commands an invocation is.
#[derive(Clone, Copy, Debug, PartialEq, Eq, Structural)]
pub enum CommandKind {
    /// `move <new-room-name>`.
    Move,
    /// `move_to <existing-room>`.
    MoveTo,
}

/// Why an inbound request was rejected before a poll was created. Each is
/// surfaced verbatim to the requester as an ephemeral error.
#[derive(Clone, Copy, Debug, PartialEq, Eq, Structural)]
pub enum ValidationError {
    /// Bootstrap has not registered the commands yet.
    CommandsNotReady,
    /// The invocation carried no usable channel option.
    MissingChannelOption,
    /// The invoked command is neither registered command.
    UnknownCommand,
    /// The channel option is not a room identity.
    InvalidChannel,
    /// The requester is in no voice room, so there is nobody to move with.
    NotInVoiceRoom,
    /// The target is a direct-message or otherwise non-group context.
    NotAGroupRoom,
    /// The requester may not connect to the target room.
    NoConnectCapability,
}

/// An accepted move request, immutable from dispatch time on.
pub struct PollRequest {
    /// The member who asked for the move.
    pub requester: u64,
    /// Where the poll proposes to move.
    pub target: Target,
    /// How long the poll stays open, in minutes.
    pub timeout_minutes: u64,
    /// The channel the poll message is posted in.
    pub origin_channel: u64,
}

/// Which command an invocation with identity `invoked` is, given the
/// registered ids (or that registration has not happened yet).
pub open spec fn classify_spec(ids: Option<CommandIds>, invoked: u64) -> Result<
    CommandKind,
    ValidationError,
> {
    match ids {
        None => Err(ValidationError::CommandsNotReady),
        Some(c) => {
            if invoked == c.move_command {
                Ok(CommandKind::Move)
            } else if invoked == c.move_to_command {
                Ok(CommandKind::MoveTo)
            } else {
                Err(ValidationError::UnknownCommand)
            }
        },
    }
}

/// Classify an invocation against the registered command ids.
pub fn classify_command(ids: &Option<CommandIds>, invoked: u64) -> (r: Result<
    CommandKind,
    ValidationError,
>)
    ensures
        r == classify_spec(*ids, invoked),
{
    match ids {
        None => Err(ValidationError::CommandsNotReady),
        Some(c) => {
            if invoked == c.move_command {
                Ok(CommandKind::Move)
            } else if invoked == c.move_to_command {
                Ok(CommandKind::MoveTo)
            } else {
                Err(ValidationError::UnknownCommand)
            }
        },
    }
}

/// The target described by a command's option value: the new room's name
/// verbatim for `Move`, the room identity the digits denote for `MoveTo`.
pub open spec fn target_of_option(kind: CommandKind, option_value: Seq<char>) -> Result<
    TargetModel,
    ValidationError,
> {
    match kind {
        CommandKind::Move => Ok(TargetModel::NewRoomNamed { name: option_value }),
        CommandKind::MoveTo => {
            if option_value.len() > 0 && all_digits(option_value) && digits_val(option_value)
                <= u64::MAX {
                Ok(TargetModel::ExistingRoom { room: digits_val(option_value) as nat })
            } else {
                Err(ValidationError::InvalidChannel)
            }
        },
    }
}

/// Build the target description from the invoked command's option value.
pub fn build_target(kind: CommandKind, option_value: &Vec<char>) -> (r: Result<
    Target,
    ValidationError,
>)
    ensures
        match r {
            Ok(t) => target_of_option(kind, option_value@) == Ok::<TargetModel, ValidationError>(
                t@,
            ),
            Err(e) => target_of_option(kind, option_value@) == Err::<TargetModel, ValidationError>(
                e,
            ),
        },
{
    match kind {
        CommandKind::Move => {
            let name = copy_range(option_value, 0, option_value.len());
            proof {
                assert(name@ =~= option_value@);
            }
            Ok(Target::NewRoomNamed(name))
        },
        CommandKind::MoveTo => {
            if option_value.len() == 0 {
                return Err(ValidationError::InvalidChannel);
            }
            let mut i: usize = 0;
            while i < option_value.len()
                invariant
                    kind is MoveTo,
                    i <= option_value@.len(),
                    forall|j: int|
                        0 <= j < i ==> crate::digits::is_digit_char(#[trigger] option_value@[j]),
                decreases option_value@.len() - i,
            {
                if !is_digit(option_value[i]) {
                    proof {
                        assert(!crate::digits::is_digit_char(option_value@[i as int]));
                        assert(!all_digits(option_value@));
                    }
                    return Err(ValidationError::InvalidChannel);
                }
                i = i + 1;
            }
            assert(all_digits(option_value@));
            proof {
                assert(option_value@.subrange(0, option_value@.len() as int) =~= option_value@);
            }
            match parse_digits(option_value, 0, option_value.len()) {
                Some(v) => Ok(Target::ExistingRoom(v)),
                None => Err(ValidationError::InvalidChannel),
            }
        },
    }
}

/// The dispatcher's capability gate: an existing-room target must be a
/// group room the requester can connect to; a new-room target needs no
/// check at dispatch time.
pub open spec fn capability_gate(
    target: TargetModel,
    is_group_room: bool,
    has_connect: bool,
) -> Result<(), ValidationError> {
    match target {
        TargetModel::NewRoomNamed { .. } => Ok(()),
        TargetModel::ExistingRoom { .. } => {
            if !is_group_room {
                Err(ValidationError::NotAGroupRoom)
            } else if !has_connect {
                Err(ValidationError::NoConnectCapability)
            } else {
                Ok(())
            }
        },
    }
}

/// Apply the capability gate to the target.
pub fn check_target_capability(target: &Target, is_group_room: bool, has_connect: bool) -> (r:
    Result<(), ValidationError>)
    ensures
        r == capability_gate(target@, is_group_room, has_connect),
{
    match target {
        Target::NewRoomNamed(_) => Ok(()),
        Target::ExistingRoom(_) => {
            if !is_group_room {
                Err(ValidationError::NotAGroupRoom)
            } else if !has_connect {
                Err(ValidationError::NoConnectCapability)
            } else {
                Ok(())
            }
        },
    }
}

/// Accept the request if the requester currently shares a room with
/// anyone, that is, is in a voice room at all.
pub fn validate_request(
    requester: u64,
    origin_channel: u64,
    requester_room: Option<u64>,
    target: Target,
    timeout_minutes: u64,
) -> (r: Result<PollRequest, ValidationError>)
    ensures
        requester_room is None ==> r == Err::<PollRequest, ValidationError>(
            ValidationError::NotInVoiceRoom,
        ),
        requester_room is Some ==> (r matches Ok(q) && q.requester == requester && q.target@
            == target@ && q.timeout_minutes == timeout_minutes && q.origin_channel
            == origin_channel),
{
    match requester_room {
        None => Err(ValidationError::NotInVoiceRoom),
        Some(_) => Ok(
            PollRequest { requester, target, timeout_minutes, origin_channel },
        ),
    }
}

/// Everyone sharing room `room` in the snapshot, in snapshot order; shown
/// in the poll post for display purposes only.
pub open spec fn roster_of(snapshot: Seq<VoicePresence>, room: u64) -> Seq<u64>
    decreases snapshot.len(),
{
    if snapshot.len() == 0 {
        Seq::empty()
    } else if snapshot.last().room == room {
        roster_of(snapshot.drop_last(), room) + seq![snapshot.last().user]
    } else {
        roster_of(snapshot.drop_last(), room)
    }
}

/// The members the snapshot places in `room`.
pub fn room_roster(room: u64, snapshot: &Vec<VoicePresence>) -> (v: Vec<u64>)
    ensures
        v@ == roster_of(snapshot@, room),
{
    let mut v: Vec<u64> = Vec::new();
    let mut i: usize = 0;
    proof {
        assert(snapshot@.take(0) =~= Seq::<VoicePresence>::empty());
    }
    while i < snapshot.len()
        invariant
            i <= snapshot@.len(),
            v@ == roster_of(snapshot@.take(i as int), room),
        decreases snapshot@.len() - i,
    {
        proof {
            assert(snapshot@.take(i + 1).drop_last() =~= snapshot@.take(i as int));
            assert(snapshot@.take(i + 1).last() == snapshot@[i as int]);
        }
        if snapshot[i].room == room {
            v.push(snapshot[i].user);
        }
        i = i + 1;
    }
    proof {
        assert(snapshot@.take(snapshot@.len() as int) =~= snapshot@);
    }
    v
}

/// The roster's mentions run together with no separator.
pub open spec fn mention_run(members: Seq<u64>) -> Seq<char>
    decreases members.len(),
{
    if members.len() == 0 {
        Seq::empty()
    } else {
        mention_run(members.drop_last()) + user_mention(members.last() as nat)
    }
}

/// Render the roster's mentions run together.
pub fn render_mention_run(members: &Vec<u64>) -> (v: Vec<char>)
    ensures
        v@ == mention_run(members@),
{
    let mut v: Vec<char> = Vec::new();
    let mut i: usize = 0;
    proof {
        assert(members@.take(0) =~= Seq::<u64>::empty());
    }
    while i < members.len()
        invariant
            i <= members@.len(),
            v@ == mention_run(members@.take(i as int)),
        decreases members@.len() - i,
    {
        proof {
            assert(members@.take(i + 1).drop_last() =~= members@.take(i as int));
            assert(members@.take(i + 1).last() == members@[i as int]);
        }
        let mention = render_user_mention(members[i]);
        push_all(&mut v, &mention);
        i = i + 1;
    }
    proof {
        assert(members@.take(members@.len() as int) =~= members@);
    }
    v
}

/// The full text of the posted poll message: a salutation naming the
/// origin room and its present roster, then two line breaks, then the poll
/// body that [`parse_poll_text`] reads back.
pub open spec fn poll_post_text(
    origin_room: u64,
    roster: Seq<u64>,
    requester: u64,
    t: TargetModel,
    minutes: u64,
) -> Seq<char> {
    room_mention(origin_room as nat) + seq!['に', 'い', 'る', '皆', 'さ', 'ん', '('] + mention_run(
        roster,
    ) + seq![')', 'へ', '\n', '\n'] + render_poll_text(requester as nat, t, minutes as nat)
}

/// Render the poll message to post.
pub fn build_poll_post(
    origin_room: u64,
    roster: &Vec<u64>,
    requester: u64,
    target: &Target,
    timeout_minutes: u64,
) -> (v: Vec<char>)
    ensures
        v@ == poll_post_text(origin_room, roster@, requester, target@, timeout_minutes),
{
    let mut v = render_room_mention(origin_room);
    let salutation = vec!['に', 'い', 'る', '皆', 'さ', 'ん', '('];
    push_all(&mut v, &salutation);
    let run = render_mention_run(roster);
    push_all(&mut v, &run);
    let to = vec![')', 'へ', '\n', '\n'];
    push_all(&mut v, &to);
    let body = render_poll(requester, target, timeout_minutes);
    push_all(&mut v, &body);
    proof {
        assert(salutation@ =~= seq!['に', 'い', 'る', '皆', 'さ', 'ん', '(']);
        assert(to@ =~= seq![')', 'へ', '\n', '\n']);
        assert(v@ =~= poll_post_text(origin_room, roster@, requester, target@, timeout_minutes));
    }
    v
}

/// The poll's persistence invariant: the message the dispatcher posts,
/// salutation and roster included, parses back to exactly the requester
/// and target it was rendered from.
pub proof fn lemma_poll_post_roundtrip(
    origin_room: u64,
    roster: Seq<u64>,
    requester: u64,
    t: TargetModel,
    minutes: u64,
)
    requires
        valid_target(t),
    ensures
        parse_poll_text(poll_post_text(origin_room, roster, requester, t, minutes)) == Some(
            (requester as nat, t),
        ),
{
    let prefix = room_mention(origin_room as nat) + seq!['に', 'い', 'る', '皆', 'さ', 'ん', '(']
        + mention_run(roster) + seq![')', 'へ', '\n', '\n'];
    assert(poll_post_text(origin_room, roster, requester, t, minutes) =~= prefix
        + render_poll_text(requester as nat, t, minutes as nat));
    crate::codec::lemma_parse_render_roundtrip(prefix, requester as nat, t, minutes as nat);
}

/// The ephemeral acknowledgment shown to the requester alone: the poll is
/// open, and their marker reaction will move the voters to the target.
pub open spec fn ack_text(t: TargetModel) -> Seq<char> {
    seq![
        '一', '緒', 'に', '移', '動', 'す', 'る', '人', 'の', '募', '集', 'を', '開', '始', 'し',
        'ま', 'し', 'た', '。', '\n', 'あ', 'な', 'た', 'が', '🤚', 'を', 'つ', 'け', 'る', 'と',
        '、', '🤚', 'つ', 'け', 'た', '人', 'と', '一', '緒', 'に',
    ] + render_target_text(t) + seq!['へ', '移', '動', 'し', 'ま', 'す', '。']
}

/// Render the requester's acknowledgment.
pub fn ack_message(target: &Target) -> (v: Vec<char>)
    ensures
        v@ == ack_text(target@),
{
    let mut v = vec![
        '一', '緒', 'に', '移', '動', 'す', 'る', '人', 'の', '募', '集', 'を', '開', '始', 'し',
        'ま', 'し', 'た', '。', '\n', 'あ', 'な', 'た', 'が', '🤚', 'を', 'つ', 'け', 'る', 'と',
        '、', '🤚', 'つ', 'け', 'た', '人', 'と', '一', '緒', 'に',
    ];
    let slot = render_target(target);
    push_all(&mut v, &slot);
    let tail = vec!['へ', '移', '動', 'し', 'ま', 'す', '。'];
    push_all(&mut v, &tail);
    proof {
        assert(v@ =~= ack_text(target@));
    }
    v
}

} // verus!
