//! The poll codec: exact renderings, the parse round-trip, and rejection
//! of text that does not match the template skeleton.

use move_together::codec::{parse_poll, render_poll, Target};
use move_together::digits::render_u64;
use move_together::dispatch::build_poll_post;

fn chars(s: &str) -> Vec<char> {
    s.chars().collect()
}

fn string_of(v: &[char]) -> String {
    v.iter().collect()
}

#[test]
fn render_u64_exact() {
    assert_eq!(string_of(&render_u64(0)), "0");
    assert_eq!(string_of(&render_u64(42)), "42");
    assert_eq!(string_of(&render_u64(120)), "120");
    assert_eq!(string_of(&render_u64(u64::MAX)), "18446744073709551615");
}

#[test]
fn render_existing_room_exact() {
    let text = render_poll(111, &Target::ExistingRoom(222), 5);
    assert_eq!(
        string_of(&text),
        "<@111>が一緒に移動する人の募集を開始しました。\n<#222>に移動したい人は5分以内にリアクション押してください！"
    );
}

#[test]
fn render_new_room_exact() {
    let text = render_poll(9, &Target::NewRoomNamed(chars("Study Room")), 120);
    assert_eq!(
        string_of(&text),
        "<@9>が一緒に移動する人の募集を開始しました。\n新規VC「Study Room」に移動したい人は120分以内にリアクション押してください！"
    );
}

#[test]
fn round_trip_existing_room() {
    let text = render_poll(1234567890, &Target::ExistingRoom(987654321), 1);
    let parsed = parse_poll(&text).expect("a rendered poll must parse");
    assert_eq!(parsed.requester, 1234567890);
    match parsed.target {
        Target::ExistingRoom(room) => assert_eq!(room, 987654321),
        Target::NewRoomNamed(_) => panic!("wrong target variant"),
    }
}

#[test]
fn round_trip_new_room() {
    let text = render_poll(7, &Target::NewRoomNamed(chars("ゲーム部屋")), 120);
    let parsed = parse_poll(&text).expect("a rendered poll must parse");
    assert_eq!(parsed.requester, 7);
    match parsed.target {
        Target::NewRoomNamed(name) => assert_eq!(string_of(&name), "ゲーム部屋"),
        Target::ExistingRoom(_) => panic!("wrong target variant"),
    }
}

#[test]
fn round_trip_name_with_quotes() {
    let text = render_poll(7, &Target::NewRoomNamed(chars("a「b」c")), 10);
    let parsed = parse_poll(&text).expect("a rendered poll must parse");
    match parsed.target {
        Target::NewRoomNamed(name) => assert_eq!(string_of(&name), "a「b」c"),
        Target::ExistingRoom(_) => panic!("wrong target variant"),
    }
}

#[test]
fn round_trip_embedded_in_posted_message() {
    let roster = vec![5, 6, 7];
    let post = build_poll_post(400, &roster, 5, &Target::ExistingRoom(300), 15);
    assert_eq!(
        string_of(&post),
        "<#400>にいる皆さん(<@5><@6><@7>)へ\n\n<@5>が一緒に移動する人の募集を開始しました。\n<#300>に移動したい人は15分以内にリアクション押してください！"
    );
    let parsed = parse_poll(&post).expect("the posted message must parse");
    assert_eq!(parsed.requester, 5);
    match parsed.target {
        Target::ExistingRoom(room) => assert_eq!(room, 300),
        Target::NewRoomNamed(_) => panic!("wrong target variant"),
    }
}

#[test]
fn parse_rejects_unrelated_text() {
    assert!(parse_poll(&chars("こんにちは、世界！")).is_err());
    assert!(parse_poll(&chars("")).is_err());
    assert!(parse_poll(&chars("move to <#123> please")).is_err());
}

#[test]
fn parse_is_anchored_on_the_end() {
    // Decorative text may precede the poll body, but nothing may follow it.
    let body = render_poll(1, &Target::ExistingRoom(2), 5);
    let mut leading = chars("お知らせ:\n");
    leading.extend_from_slice(&body);
    assert!(parse_poll(&leading).is_ok());

    let mut trailing = body.clone();
    trailing.extend(chars("(編集済み)"));
    assert!(parse_poll(&trailing).is_err());
}

#[test]
fn zero_timeout_renders_and_parses() {
    let text = render_poll(1, &Target::ExistingRoom(2), 0);
    assert!(string_of(&text).contains("0分以内"));
    let parsed = parse_poll(&text).expect("a zero-timeout poll still parses");
    assert_eq!(parsed.requester, 1);
}

#[test]
fn parse_rejects_truncated_skeleton() {
    // The closing phrase is cut off.
    let text = chars("<@1>が一緒に移動する人の募集を開始しました。\n<#2>に移動したい人は5分以内にリアクション押してくだ");
    assert!(parse_poll(&text).is_err());
}

#[test]
fn parse_rejects_missing_timeout_digits() {
    let text = chars("<@1>が一緒に移動する人の募集を開始しました。\n<#2>に移動したい人は分以内にリアクション押してください！");
    assert!(parse_poll(&text).is_err());
}

#[test]
fn parse_rejects_bad_requester_token() {
    // No mention token before the opening phrase.
    let text = chars("誰かが一緒に移動する人の募集を開始しました。\n<#2>に移動したい人は5分以内にリアクション押してください！");
    assert!(parse_poll(&text).is_err());
}

#[test]
fn parse_rejects_requester_id_overflow() {
    let text = chars("<@99999999999999999999>が一緒に移動する人の募集を開始しました。\n<#2>に移動したい人は5分以内にリアクション押してください！");
    assert!(parse_poll(&text).is_err());
}

#[test]
fn parse_rejects_malformed_target_slot() {
    // Letters inside a room mention.
    let text = chars("<@1>が一緒に移動する人の募集を開始しました。\n<#2a4>に移動したい人は5分以内にリアクション押してください！");
    assert!(parse_poll(&text).is_err());
    // Empty new-room name.
    let text = chars("<@1>が一緒に移動する人の募集を開始しました。\n新規VC「」に移動したい人は5分以内にリアクション押してください！");
    assert!(parse_poll(&text).is_err());
}
