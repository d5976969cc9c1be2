//! Resolver decisions, dispatcher validation, and the migration
//! aggregation, including the two end-to-end scenarios.

use move_together::codec::Target;
use move_together::config::{AppConfig, DiscordConfig};
use move_together::dispatch::{
    ack_message, build_target, classify_command, check_target_capability, room_roster,
    validate_request, CommandIds, CommandKind, ValidationError,
};
use move_together::handler::Handler;
use move_together::migrate::{
    collect_migration, count_companions, members_to_move, render_mention_lines, summary_message,
    vote_set, MemberOutcome,
};
use move_together::resolver::{
    check_claimed_room, check_existing_target, current_room_of, ResolveError, VoicePresence,
};

fn chars(s: &str) -> Vec<char> {
    s.chars().collect()
}

fn string_of(v: &[char]) -> String {
    v.iter().collect()
}

fn config() -> DiscordConfig {
    DiscordConfig {
        move_timeout_minutes: 5,
        move_wait_seconds: 3,
        vc_create_channel: 100,
        vc_category: 200,
        vc_ignored_channels: vec![100, 101],
    }
}

#[test]
fn current_room_lookup() {
    let snapshot = vec![
        VoicePresence { user: 1, room: 10 },
        VoicePresence { user: 2, room: 11 },
    ];
    assert_eq!(current_room_of(1, &snapshot), Some(10));
    assert_eq!(current_room_of(2, &snapshot), Some(11));
    assert_eq!(current_room_of(3, &snapshot), None);
}

#[test]
fn existing_target_rules() {
    assert_eq!(check_existing_target(true, true), Ok(()));
    assert_eq!(check_existing_target(false, true), Err(ResolveError::NotAGroupRoom));
    assert_eq!(check_existing_target(false, false), Err(ResolveError::NotAGroupRoom));
    assert_eq!(check_existing_target(true, false), Err(ResolveError::NoConnectCapability));
}

#[test]
fn claimed_room_policy() {
    let cfg = config();
    assert_eq!(check_claimed_room(300, Some(200), &cfg), Ok(()));
    // On the ignore list.
    assert_eq!(check_claimed_room(101, Some(200), &cfg), Err(ResolveError::PolicyViolation));
    // Wrong parent category.
    assert_eq!(check_claimed_room(300, Some(201), &cfg), Err(ResolveError::PolicyViolation));
    // No parent category at all.
    assert_eq!(check_claimed_room(300, None, &cfg), Err(ResolveError::PolicyViolation));
}

#[test]
fn staging_claim_outside_category_is_rejected() {
    // The requester claimed a staging room, the settle wait passed, and the
    // room they landed in sits outside the allowed category: policy
    // violation, so no rename and no migration.
    let cfg = config();
    let landed_room = 500;
    let landed_parent = Some(999);
    assert_eq!(
        check_claimed_room(landed_room, landed_parent, &cfg),
        Err(ResolveError::PolicyViolation)
    );
}

#[test]
fn classify_against_registration() {
    let ids = CommandIds { move_command: 11, move_to_command: 22 };
    assert_eq!(classify_command(&None, 11), Err(ValidationError::CommandsNotReady));
    assert_eq!(classify_command(&Some(ids), 11), Ok(CommandKind::Move));
    assert_eq!(classify_command(&Some(ids), 22), Ok(CommandKind::MoveTo));
    assert_eq!(classify_command(&Some(ids), 33), Err(ValidationError::UnknownCommand));
}

#[test]
fn handler_registration_flow() {
    let mut handler = Handler::new(AppConfig { discord: config() });
    assert!(handler.command_ids.is_none());
    assert_eq!(handler.classify(11), Err(ValidationError::CommandsNotReady));
    handler.commands_registered(CommandIds { move_command: 11, move_to_command: 22 });
    assert_eq!(handler.classify(11), Ok(CommandKind::Move));
}

#[test]
fn build_target_from_option() {
    match build_target(CommandKind::Move, &chars("Study Room")) {
        Ok(Target::NewRoomNamed(name)) => assert_eq!(string_of(&name), "Study Room"),
        _ => panic!("move must take the name verbatim"),
    }
    match build_target(CommandKind::MoveTo, &chars("123456")) {
        Ok(Target::ExistingRoom(room)) => assert_eq!(room, 123456),
        _ => panic!("move_to must parse the room id"),
    }
    assert!(matches!(
        build_target(CommandKind::MoveTo, &chars("lounge")),
        Err(ValidationError::InvalidChannel)
    ));
    assert!(matches!(
        build_target(CommandKind::MoveTo, &chars("")),
        Err(ValidationError::InvalidChannel)
    ));
    assert!(matches!(
        build_target(CommandKind::MoveTo, &chars("99999999999999999999")),
        Err(ValidationError::InvalidChannel)
    ));
}

#[test]
fn capability_gate_cases() {
    let existing = Target::ExistingRoom(5);
    assert_eq!(check_target_capability(&existing, true, true), Ok(()));
    assert_eq!(
        check_target_capability(&existing, false, false),
        Err(ValidationError::NotAGroupRoom)
    );
    assert_eq!(
        check_target_capability(&existing, true, false),
        Err(ValidationError::NoConnectCapability)
    );
    let new_room = Target::NewRoomNamed(chars("x"));
    assert_eq!(check_target_capability(&new_room, false, false), Ok(()));
}

#[test]
fn validate_request_needs_a_room() {
    match validate_request(1, 2, None, Target::ExistingRoom(3), 5) {
        Err(ValidationError::NotInVoiceRoom) => {}
        _ => panic!("a requester in no voice room must be rejected"),
    }
    match validate_request(1, 2, Some(10), Target::ExistingRoom(3), 5) {
        Ok(q) => {
            assert_eq!(q.requester, 1);
            assert_eq!(q.origin_channel, 2);
            assert_eq!(q.timeout_minutes, 5);
            match q.target {
                Target::ExistingRoom(room) => assert_eq!(room, 3),
                Target::NewRoomNamed(_) => panic!("wrong target variant"),
            }
        }
        Err(_) => panic!("a requester in a room must be accepted"),
    }
}

#[test]
fn roster_of_origin_room() {
    let snapshot = vec![
        VoicePresence { user: 1, room: 10 },
        VoicePresence { user: 2, room: 11 },
        VoicePresence { user: 3, room: 10 },
    ];
    assert_eq!(room_roster(10, &snapshot), vec![1, 3]);
    assert_eq!(room_roster(12, &snapshot), Vec::<u64>::new());
}

#[test]
fn vote_set_excludes_system_identity() {
    let reactors = vec![999, 7, 8, 9];
    assert_eq!(vote_set(&reactors, 999), vec![7, 8, 9]);
    assert_eq!(vote_set(&vec![999], 999), Vec::<u64>::new());
}

#[test]
fn migration_partitions_outcomes() {
    let outcomes = vec![
        MemberOutcome { member: 7, moved: true },
        MemberOutcome { member: 8, moved: true },
        MemberOutcome { member: 9, moved: false },
    ];
    let result = collect_migration(42, &outcomes);
    assert_eq!(result.destination, 42);
    assert_eq!(result.moved, vec![7, 8]);
    assert_eq!(result.failed, vec![9]);
}

#[test]
fn companion_count_never_underflows() {
    // The requester is excluded by construction, so a vote set that never
    // contained them cannot drive the count negative.
    assert_eq!(count_companions(&vec![8, 9], 7), 2);
    assert_eq!(count_companions(&vec![7, 8, 9], 7), 2);
    assert_eq!(count_companions(&Vec::new(), 7), 0);
}

#[test]
fn move_to_finalization_moves_present_voters_only() {
    // Requester R (7) issued `move_to` towards room 42; R reacted, and so
    // did A (8) and B (9); B disconnected before migration ran. R and A
    // relocate, B is silently omitted, and the summary names R and A only.
    let self_id = 999;
    let reactors = vec![999, 7, 8, 9];
    let voters = vote_set(&reactors, self_id);
    assert_eq!(voters, vec![7, 8, 9]);

    let snapshot = vec![
        VoicePresence { user: 7, room: 10 },
        VoicePresence { user: 8, room: 10 },
        // B (9) has no presence row any more.
    ];
    let movable = members_to_move(&voters, &snapshot);
    assert_eq!(movable, vec![7, 8]);

    let outcomes: Vec<MemberOutcome> =
        movable.iter().map(|&m| MemberOutcome { member: m, moved: true }).collect();
    let result = collect_migration(42, &outcomes);
    assert_eq!(result.moved, vec![7, 8]);
    assert!(result.failed.is_empty());

    let summary = summary_message(7, &result.moved, result.destination);
    assert_eq!(string_of(&summary), "<@7>と一緒に1人のメンバーを<#42>へ移動しました。");
    let lines = render_mention_lines(&result.moved);
    assert_eq!(string_of(&lines), "<@7>\n<@8>");
}

#[test]
fn failed_member_is_omitted_from_summary() {
    // The same finalization when B is still present but the platform
    // refuses to move them: the attempt fails in isolation.
    let outcomes = vec![
        MemberOutcome { member: 7, moved: true },
        MemberOutcome { member: 8, moved: true },
        MemberOutcome { member: 9, moved: false },
    ];
    let result = collect_migration(42, &outcomes);
    assert_eq!(result.moved, vec![7, 8]);
    assert_eq!(result.failed, vec![9]);
    let summary = summary_message(7, &result.moved, result.destination);
    assert_eq!(string_of(&summary), "<@7>と一緒に1人のメンバーを<#42>へ移動しました。");
    let lines = render_mention_lines(&result.moved);
    assert!(!string_of(&lines).contains("<@9>"));
}

#[test]
fn ack_message_exact() {
    let ack = ack_message(&Target::NewRoomNamed(chars("作業部屋")));
    assert_eq!(
        string_of(&ack),
        "一緒に移動する人の募集を開始しました。\nあなたが🤚をつけると、🤚つけた人と一緒に新規VC「作業部屋」へ移動します。"
    );
}
