use vstd::prelude::*;

verus! {

/// A voice room of the workspace.
#[derive(Clone, Debug)]
pub struct RoomRef {
    pub id: u64,
    pub name: String,
}

/// A participant of the workspace, with its current voice state.
#[derive(Clone, Debug)]
pub struct MemberRef {
    pub id: u64,
    pub name: String,
    /// The voice room the member is in, if any.
    pub room: Option<u64>,
    pub muted: bool,
}

/// A read-only snapshot of the workspace's rooms and members.
#[derive(Clone, Debug)]
pub struct Directory {
    /// Whether the workspace itself is present in the snapshot.
    pub available: bool,
    pub rooms: Vec<RoomRef>,
    pub members: Vec<MemberRef>,
}

/// The mathematical model of a `Directory`.
pub struct DirectoryModel {
    pub available: bool,
    pub rooms: Seq<RoomRef>,
    pub members: Seq<MemberRef>,
}

impl View for Directory {
    type V = DirectoryModel;

    open spec fn view(&self) -> DirectoryModel {
        DirectoryModel { available: self.available, rooms: self.rooms@, members: self.members@ }
    }
}

/// `i` is the first position of a room called `name`.
pub open spec fn is_first_room(rooms: Seq<RoomRef>, name: Seq<char>, i: int) -> bool {
    &&& 0 <= i < rooms.len()
    &&& rooms[i].name@ == name
    &&& forall|j: int| 0 <= j < i ==> rooms[j].name@ != name
}

pub open spec fn has_room(rooms: Seq<RoomRef>, name: Seq<char>) -> bool {
    exists|i: int| 0 <= i < rooms.len() && rooms[i].name@ == name
}

/// The room that a name resolves to: the first one that carries it.
pub open spec fn room_named(rooms: Seq<RoomRef>, name: Seq<char>) -> Option<RoomRef> {
    if has_room(rooms, name) {
        Some(rooms[choose|i: int| is_first_room(rooms, name, i)])
    } else {
        None
    }
}

/// `i` is the first position of a member called `name`.
pub open spec fn is_first_member(members: Seq<MemberRef>, name: Seq<char>, i: int) -> bool {
    &&& 0 <= i < members.len()
    &&& members[i].name@ == name
    &&& forall|j: int| 0 <= j < i ==> members[j].name@ != name
}

pub open spec fn has_member(members: Seq<MemberRef>, name: Seq<char>) -> bool {
    exists|i: int| 0 <= i < members.len() && members[i].name@ == name
}

/// The member that a name resolves to: the first one that carries it.
pub open spec fn member_named(members: Seq<MemberRef>, name: Seq<char>) -> Option<MemberRef> {
    if has_member(members, name) {
        Some(members[choose|i: int| is_first_member(members, name, i)])
    } else {
        None
    }
}

/// The identifiers of the members present in `room`, in directory order.
pub open spec fn room_member_ids(members: Seq<MemberRef>, room: u64) -> Seq<u64>
    decreases members.len(),
{
    if members.len() == 0 {
        Seq::empty()
    } else {
        let rest = room_member_ids(members.drop_last(), room);
        if members.last().room == Some(room) {
            rest.push(members.last().id)
        } else {
            rest
        }
    }
}

impl Directory {
    /// Resolves a room name against the snapshot.
    pub fn resolve_room(&self, name: &String) -> (r: Option<&RoomRef>)
        ensures
            match r {
                Some(room) => room_named(self.rooms@, name@) == Some(*room),
                None => room_named(self.rooms@, name@) is None,
            },
    {
        let mut i: usize = 0;
        while i < self.rooms.len()
            invariant
                i <= self.rooms.len(),
                forall|j: int| 0 <= j < i ==> self.rooms@[j].name@ != name@,
            decreases self.rooms.len() - i,
        {
            if self.rooms[i].name == *name {
                proof {
                    let k = choose|k: int| is_first_room(self.rooms@, name@, k);
                    assert(is_first_room(self.rooms@, name@, i as int));
                    assert(k == i);
                }
                return Some(&self.rooms[i]);
            }
            i = i + 1;
        }
        None
    }

    /// Resolves a member name against the snapshot.
    pub fn resolve_member(&self, name: &String) -> (r: Option<&MemberRef>)
        ensures
            match r {
                Some(member) => member_named(self.members@, name@) == Some(*member),
                None => member_named(self.members@, name@) is None,
            },
    {
        let mut i: usize = 0;
        while i < self.members.len()
            invariant
                i <= self.members.len(),
                forall|j: int| 0 <= j < i ==> self.members@[j].name@ != name@,
            decreases self.members.len() - i,
        {
            if self.members[i].name == *name {
                proof {
                    let k = choose|k: int| is_first_member(self.members@, name@, k);
                    assert(is_first_member(self.members@, name@, i as int));
                    assert(k == i);
                }
                return Some(&self.members[i]);
            }
            i = i + 1;
        }
        None
    }

    /// The identifiers of the members currently present in `room`.
    pub fn members_in_room(&self, room: u64) -> (r: Vec<u64>)
        ensures
            r@ == room_member_ids(self.members@, room),
    {
        let mut r: Vec<u64> = Vec::new();
        let mut i: usize = 0;
        while i < self.members.len()
            invariant
                i <= self.members.len(),
                r@ == room_member_ids(self.members@.subrange(0, i as int), room),
            decreases self.members.len() - i,
        {
            assert(self.members@.subrange(0, i + 1).drop_last() =~= self.members@.subrange(0, i as int));
            if self.members[i].room == Some(room) {
                r.push(self.members[i].id);
            }
            i = i + 1;
        }
        assert(self.members@.subrange(0, self.members.len() as int) =~= self.members@);
        r
    }
}

} // verus!
