use vstd::prelude::*;
use crate::command::{control_room, is_named_move, ControlCommand, MemberTarget};
use crate::directory::{
    room_member_ids, room_named, member_named, Directory, DirectoryModel, MemberRef,
};

verus! {

/// Why an executor call did not produce a plan.
#[derive(PartialEq, Eq, Structural, Clone, Copy, Debug)]
pub enum ExecError {
    RoomNotFound,
    MemberNotFound,
    GuildUnavailable,
}

/// One call of the platform's mutation API.
#[derive(PartialEq, Eq, Structural, Clone, Copy, Debug)]
pub enum Action {
    MoveMember { member: u64, room: u64 },
    SetMemberMute { member: u64, muted: bool },
}

/// The actions that set the mute state of each of `ids`, in order.
pub open spec fn mute_plan(ids: Seq<u64>, muted: bool) -> Seq<Action> {
    ids.map_values(|id: u64| Action::SetMemberMute { member: id, muted })
}

/// What moving a member to the room called `room_name` yields: the room is
/// resolved first, then the member.
pub open spec fn move_outcome(d: DirectoryModel, member: MemberTarget, room_name: Seq<char>) -> Result<
    Seq<Action>,
    ExecError,
> {
    if !d.available {
        Err(ExecError::GuildUnavailable)
    } else {
        match room_named(d.rooms, room_name) {
            None => Err(ExecError::RoomNotFound),
            Some(room) => match member {
                MemberTarget::Id(id) => Ok(seq![Action::MoveMember { member: id, room: room.id }]),
                MemberTarget::Named(name) => match member_named(d.members, name@) {
                    None => Err(ExecError::MemberNotFound),
                    Some(m) => Ok(seq![Action::MoveMember { member: m.id, room: room.id }]),
                },
            },
        }
    }
}

/// What setting the mute state of the room called `room_name` yields: one
/// action for every member present in it.
pub open spec fn mute_outcome(d: DirectoryModel, room_name: Seq<char>, muted: bool) -> Result<
    Seq<Action>,
    ExecError,
> {
    if !d.available {
        Err(ExecError::GuildUnavailable)
    } else {
        match room_named(d.rooms, room_name) {
            None => Err(ExecError::RoomNotFound),
            Some(room) => Ok(mute_plan(room_member_ids(d.members, room.id), muted)),
        }
    }
}

/// What executing a command yields.
pub open spec fn command_outcome(d: DirectoryModel, c: ControlCommand) -> Result<
    Seq<Action>,
    ExecError,
> {
    match c {
        ControlCommand::MoveToRoom { member, room_name } => move_outcome(d, member, room_name@),
        ControlCommand::SetMute { room_name, muted } => mute_outcome(d, room_name@, muted),
    }
}

pub open spec fn plan_view(r: Result<Vec<Action>, ExecError>) -> Result<Seq<Action>, ExecError> {
    match r {
        Ok(v) => Ok(v@),
        Err(e) => Err(e),
    }
}

/// Plans moving `member` to the room called `room_name`.
pub fn move_member_to_room(d: &Directory, member: &MemberTarget, room_name: &String) -> (r: Result<
    Vec<Action>,
    ExecError,
>)
    ensures
        plan_view(r) == move_outcome(d@, *member, room_name@),
{
    if !d.available {
        return Err(ExecError::GuildUnavailable);
    }
    let room = match d.resolve_room(room_name) {
        None => return Err(ExecError::RoomNotFound),
        Some(room) => room,
    };
    let id = match member {
        MemberTarget::Id(id) => *id,
        MemberTarget::Named(name) => match d.resolve_member(name) {
            None => return Err(ExecError::MemberNotFound),
            Some(m) => m.id,
        },
    };
    let r = vec![Action::MoveMember { member: id, room: room.id }];
    assert(r@ =~= seq![Action::MoveMember { member: id, room: room.id }]);
    Ok(r)
}

/// Plans setting the mute state of every member present in the room called
/// `room_name`; the plan holds one action per member, so that each member is
/// attempted whatever became of the others.
pub fn set_room_mute(d: &Directory, room_name: &String, muted: bool) -> (r: Result<
    Vec<Action>,
    ExecError,
>)
    ensures
        plan_view(r) == mute_outcome(d@, room_name@, muted),
{
    if !d.available {
        return Err(ExecError::GuildUnavailable);
    }
    let room = match d.resolve_room(room_name) {
        None => return Err(ExecError::RoomNotFound),
        Some(room) => room,
    };
    let ids = d.members_in_room(room.id);
    let mut plan: Vec<Action> = Vec::new();
    let mut i: usize = 0;
    while i < ids.len()
        invariant
            i <= ids.len(),
            plan@ =~= mute_plan(ids@.subrange(0, i as int), muted),
        decreases ids.len() - i,
    {
        plan.push(Action::SetMemberMute { member: ids[i], muted });
        i = i + 1;
    }
    assert(ids@.subrange(0, ids.len() as int) =~= ids@);
    Ok(plan)
}

/// Plans the actions of one command.
pub fn execute(d: &Directory, c: &ControlCommand) -> (r: Result<Vec<Action>, ExecError>)
    ensures
        plan_view(r) == command_outcome(d@, *c),
{
    match c {
        ControlCommand::MoveToRoom { member, room_name } => move_member_to_room(d, member, room_name),
        ControlCommand::SetMute { room_name, muted } => set_room_mute(d, room_name, *muted),
    }
}

/// The state of member `m` once the platform has performed `a`.
pub open spec fn member_after(m: MemberRef, a: Action) -> MemberRef {
    match a {
        Action::MoveMember { member, room } => if m.id == member {
            MemberRef { room: Some(room), ..m }
        } else {
            m
        },
        Action::SetMemberMute { member, muted } => if m.id == member {
            MemberRef { muted, ..m }
        } else {
            m
        },
    }
}

/// The state of member `m` once the platform has performed `plan` in order.
pub open spec fn member_after_plan(m: MemberRef, plan: Seq<Action>) -> MemberRef
    decreases plan.len(),
{
    if plan.len() == 0 {
        m
    } else {
        member_after_plan(member_after(m, plan[0]), plan.drop_first())
    }
}

/// The directory once the platform has performed `plan`.
pub open spec fn apply_plan(d: DirectoryModel, plan: Seq<Action>) -> DirectoryModel {
    DirectoryModel { members: d.members.map_values(|m: MemberRef| member_after_plan(m, plan)), ..d }
}

/// The directory once a room-wide mute change has been planned and performed;
/// unchanged when the planning fails.
pub open spec fn after_room_mute(d: DirectoryModel, room_name: Seq<char>, muted: bool) -> DirectoryModel {
    match mute_outcome(d, room_name, muted) {
        Ok(plan) => apply_plan(d, plan),
        Err(_) => d,
    }
}

/// No member present in the room called `room_name` is muted.
pub open spec fn room_unmuted(d: DirectoryModel, room_name: Seq<char>) -> bool {
    match room_named(d.rooms, room_name) {
        Some(room) => forall|i: int|
            0 <= i < d.members.len() && room_member_ids(d.members, room.id).contains(
                d.members[i].id,
            ) ==> !d.members[i].muted,
        None => true,
    }
}

/// A mute plan sets the mute state of exactly the members it names.
pub proof fn lemma_mute_plan_effect(m: MemberRef, ids: Seq<u64>, muted: bool)
    ensures
        member_after_plan(m, mute_plan(ids, muted)) == (if ids.contains(m.id) {
            MemberRef { muted, ..m }
        } else {
            m
        }),
    decreases ids.len(),
{
    if ids.len() > 0 {
        let plan = mute_plan(ids, muted);
        assert(plan.drop_first() =~= mute_plan(ids.drop_first(), muted));
        let m1 = member_after(m, plan[0]);
        lemma_mute_plan_effect(m1, ids.drop_first(), muted);
        assert(ids.contains(m.id) <==> (ids[0] == m.id || ids.drop_first().contains(m.id))) by {
            if ids.contains(m.id) {
                let k = choose|k: int| 0 <= k < ids.len() && ids[k] == m.id;
                if k > 0 {
                    assert(ids.drop_first()[k - 1] == m.id);
                }
            }
            if ids.drop_first().contains(m.id) {
                let k = choose|k: int| 0 <= k < ids.len() - 1 && ids.drop_first()[k] == m.id;
                assert(ids[k + 1] == m.id);
            }
        }
    }
}

/// Members with the same identifiers and rooms, position by position, give
/// the same room lists.
pub proof fn lemma_room_ids_kept(a: Seq<MemberRef>, b: Seq<MemberRef>, room: u64)
    requires
        a.len() == b.len(),
        forall|i: int| 0 <= i < a.len() ==> a[i].id == b[i].id && a[i].room == b[i].room,
    ensures
        room_member_ids(a, room) == room_member_ids(b, room),
    decreases a.len(),
{
    if a.len() > 0 {
        lemma_room_ids_kept(a.drop_last(), b.drop_last(), room);
    }
}

/// Muting a room and then unmuting it leaves every member as unmuting alone
/// would: the member set the second sweep sees is the one the first swept.
pub proof fn lemma_mute_then_unmute(d: DirectoryModel, room_name: Seq<char>)
    ensures
        after_room_mute(after_room_mute(d, room_name, true), room_name, false) == after_room_mute(
            d,
            room_name,
            false,
        ),
{
    if let Ok(p1) = mute_outcome(d, room_name, true) {
        let room = room_named(d.rooms, room_name).unwrap();
        let ids = room_member_ids(d.members, room.id);
        let d1 = apply_plan(d, p1);
        assert forall|i: int| 0 <= i < d.members.len() implies d1.members[i].id == d.members[i].id
            && d1.members[i].room == d.members[i].room by {
            lemma_mute_plan_effect(d.members[i], ids, true);
        }
        lemma_room_ids_kept(d1.members, d.members, room.id);
        let d2 = after_room_mute(d1, room_name, false);
        let e = after_room_mute(d, room_name, false);
        assert forall|i: int| 0 <= i < d.members.len() implies d2.members[i] == e.members[i] by {
            lemma_mute_plan_effect(d.members[i], ids, true);
            lemma_mute_plan_effect(d1.members[i], ids, false);
            lemma_mute_plan_effect(d.members[i], ids, false);
        }
        assert(d2.members =~= e.members);
    }
}

/// Muting a room and then unmuting it, with no member of the room muted to
/// begin with, leaves the directory as it was.
pub proof fn lemma_mute_round_trip(d: DirectoryModel, room_name: Seq<char>)
    requires
        room_unmuted(d, room_name),
    ensures
        after_room_mute(after_room_mute(d, room_name, true), room_name, false) == d,
{
    lemma_mute_then_unmute(d, room_name);
    if let Ok(p) = mute_outcome(d, room_name, false) {
        let room = room_named(d.rooms, room_name).unwrap();
        let ids = room_member_ids(d.members, room.id);
        let e = apply_plan(d, p);
        assert forall|i: int| 0 <= i < d.members.len() implies e.members[i] == d.members[i] by {
            lemma_mute_plan_effect(d.members[i], ids, false);
        }
        assert(e.members =~= d.members);
    }
}

/// A control line of the vocabulary, once parsed for the member `identity`,
/// leads to exactly one move: of that member, to the room the line stands
/// for; or, when the workspace, the room or the member cannot be found, to
/// an error and no action at all.
pub proof fn lemma_control_line_single_move(
    d: DirectoryModel,
    line: Seq<char>,
    identity: Seq<char>,
    c: ControlCommand,
)
    requires
        control_room(line) is Some,
        is_named_move(c, identity, control_room(line).unwrap()),
    ensures
        match command_outcome(d, c) {
            Ok(plan) => plan.len() == 1 && plan[0] == Action::MoveMember {
                member: member_named(d.members, identity).unwrap().id,
                room: room_named(d.rooms, control_room(line).unwrap()).unwrap().id,
            },
            Err(_) => !d.available || room_named(d.rooms, control_room(line).unwrap()) is None
                || member_named(d.members, identity) is None,
        },
{
}

} // verus!
