use oabot::command::{ControlCommand, MemberTarget};
use oabot::directory::{Directory, MemberRef, RoomRef};
use oabot::executor::{execute, move_member_to_room, set_room_mute, Action, ExecError};

fn room(id: u64, name: &str) -> RoomRef {
    RoomRef { id, name: name.to_string() }
}

fn member(id: u64, name: &str, room: Option<u64>, muted: bool) -> MemberRef {
    MemberRef { id, name: name.to_string(), room, muted }
}

fn sample() -> Directory {
    Directory {
        available: true,
        rooms: vec![room(1, "AFK"), room(2, "Core"), room(3, "Core")],
        members: vec![
            member(10, "oab", Some(2), false),
            member(11, "alice", Some(2), false),
            member(12, "bob", None, false),
            member(13, "carol", Some(2), false),
            member(14, "alice", Some(1), false),
        ],
    }
}

/// Performs a plan the way the platform would, failing for the members in `failing`.
fn perform(d: &mut Directory, plan: &[Action], failing: &[u64], attempts: &mut Vec<u64>) {
    for a in plan {
        let id = match a {
            Action::MoveMember { member, .. } => *member,
            Action::SetMemberMute { member, .. } => *member,
        };
        attempts.push(id);
        if failing.contains(&id) {
            continue;
        }
        for m in d.members.iter_mut().filter(|m| m.id == id) {
            match a {
                Action::MoveMember { room, .. } => m.room = Some(*room),
                Action::SetMemberMute { muted, .. } => m.muted = *muted,
            }
        }
    }
}

fn state(d: &Directory) -> Vec<(u64, Option<u64>, bool)> {
    d.members.iter().map(|m| (m.id, m.room, m.muted)).collect()
}

#[test]
fn missing_room_gives_room_not_found() {
    let mut d = sample();
    d.rooms.retain(|r| r.name != "Core");
    let r = move_member_to_room(&d, &MemberTarget::Named("oab".to_string()), &"Core".to_string());
    assert_eq!(r, Err(ExecError::RoomNotFound));
}

#[test]
fn missing_member_gives_member_not_found() {
    let d = sample();
    let r = move_member_to_room(&d, &MemberTarget::Named("zed".to_string()), &"AFK".to_string());
    assert_eq!(r, Err(ExecError::MemberNotFound));
}

#[test]
fn room_checked_before_member() {
    let d = sample();
    let r = move_member_to_room(&d, &MemberTarget::Named("zed".to_string()), &"Lobby".to_string());
    assert_eq!(r, Err(ExecError::RoomNotFound));
}

#[test]
fn unavailable_guild_fails_every_call() {
    let mut d = sample();
    d.available = false;
    let r = move_member_to_room(&d, &MemberTarget::Id(10), &"AFK".to_string());
    assert_eq!(r, Err(ExecError::GuildUnavailable));
    assert_eq!(set_room_mute(&d, &"Core".to_string(), true), Err(ExecError::GuildUnavailable));
}

#[test]
fn move_resolves_first_matching_names() {
    let d = sample();
    let r = move_member_to_room(&d, &MemberTarget::Named("alice".to_string()), &"Core".to_string());
    assert_eq!(r, Ok(vec![Action::MoveMember { member: 11, room: 2 }]));
}

#[test]
fn move_by_id_skips_member_lookup() {
    let d = sample();
    let r = move_member_to_room(&d, &MemberTarget::Id(99), &"AFK".to_string());
    assert_eq!(r, Ok(vec![Action::MoveMember { member: 99, room: 1 }]));
}

#[test]
fn mute_plans_every_member_of_room() {
    let d = sample();
    let r = set_room_mute(&d, &"Core".to_string(), true);
    assert_eq!(
        r,
        Ok(vec![
            Action::SetMemberMute { member: 10, muted: true },
            Action::SetMemberMute { member: 11, muted: true },
            Action::SetMemberMute { member: 13, muted: true },
        ])
    );
}

#[test]
fn mute_of_empty_room_is_empty_plan() {
    let mut d = sample();
    d.rooms.push(room(4, "Empty"));
    assert_eq!(set_room_mute(&d, &"Empty".to_string(), true), Ok(vec![]));
}

#[test]
fn mute_missing_room_gives_room_not_found() {
    let d = sample();
    assert_eq!(set_room_mute(&d, &"Lobby".to_string(), false), Err(ExecError::RoomNotFound));
}

#[test]
fn mute_sweep_goes_on_past_a_failing_member() {
    let mut d = sample();
    let plan = set_room_mute(&d, &"Core".to_string(), true).unwrap();
    let mut attempts = Vec::new();
    perform(&mut d, &plan, &[10], &mut attempts);
    assert_eq!(attempts, vec![10, 11, 13]);
    assert!(!d.members[0].muted);
    assert!(d.members[1].muted);
    assert!(d.members[3].muted);
}

#[test]
fn mute_then_unmute_restores_room() {
    let mut d = sample();
    let before = state(&d);
    let mut attempts = Vec::new();
    let p1 = set_room_mute(&d, &"Core".to_string(), true).unwrap();
    perform(&mut d, &p1, &[], &mut attempts);
    assert_ne!(state(&d), before);
    let p2 = set_room_mute(&d, &"Core".to_string(), false).unwrap();
    perform(&mut d, &p2, &[], &mut attempts);
    assert_eq!(state(&d), before);
}

#[test]
fn execute_dispatches_both_kinds() {
    let d = sample();
    let mv = ControlCommand::MoveToRoom {
        member: MemberTarget::Named("oab".to_string()),
        room_name: "AFK".to_string(),
    };
    assert_eq!(execute(&d, &mv), Ok(vec![Action::MoveMember { member: 10, room: 1 }]));
    let mute = ControlCommand::SetMute { room_name: "AFK".to_string(), muted: false };
    assert_eq!(execute(&d, &mute), Ok(vec![Action::SetMemberMute { member: 14, muted: false }]));
}

#[test]
fn directory_queries() {
    let d = sample();
    assert_eq!(d.resolve_room(&"Core".to_string()).map(|r| r.id), Some(2));
    assert!(d.resolve_room(&"core".to_string()).is_none());
    assert_eq!(d.resolve_member(&"bob".to_string()).map(|m| m.id), Some(12));
    assert!(d.resolve_member(&"".to_string()).is_none());
    assert_eq!(d.members_in_room(2), vec![10, 11, 13]);
    assert_eq!(d.members_in_room(7), Vec::<u64>::new());
}
